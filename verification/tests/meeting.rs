use patter::meeting::{
    meeting_step, MeetingAction, MeetingEvent, MeetingStage, MeetingState,
    cancel_action, fmt_ts, meeting_model, meeting_start_check, meeting_stop_check,
    meeting_title, speaker_numbers, speaker_transcript, turn_progress, CancelAction,
};

#[test]
fn meetings_and_dictation_do_not_overlap() {
    assert_eq!(meeting_start_check(true, false).unwrap_err(), "Dictation in progress — stop it first");
    assert_eq!(meeting_start_check(false, true).unwrap_err(), "Meeting recording already in progress");
    assert!(meeting_start_check(false, false).is_ok());
    assert_eq!(meeting_stop_check(false).unwrap_err(), "No meeting recording in progress");
    assert!(meeting_stop_check(true).is_ok());
    assert!(cancel_action(true) == CancelAction::DiscardRecording);
    assert!(cancel_action(false) == CancelAction::AbandonPipeline);
}

#[test]
fn timestamps_show_hours_only_when_needed() {
    assert_eq!(fmt_ts(0), "00:00");
    assert_eq!(fmt_ts(75), "01:15");
    assert_eq!(fmt_ts(3599), "59:59");
    assert_eq!(fmt_ts(3600), "1:00:00");
    assert_eq!(fmt_ts(36_125), "10:02:05");
}

#[test]
fn speakers_are_numbered_by_first_appearance() {
    assert_eq!(speaker_numbers(&vec![4, 1, 4, 7, 1]), vec![1, 2, 1, 3, 2]);
    assert!(speaker_numbers(&vec![]).is_empty());
}

#[test]
fn diarized_transcripts_label_each_turn() {
    let out = speaker_transcript(
        &vec![2, 0, 2],
        &vec![0, 65, 3700],
        &vec![Some(" Hello. ".to_string()), Some("   ".to_string()), Some("Bye.".to_string())],
    );
    assert_eq!(out.unwrap(), "[00:00] Speaker 1: Hello.\n[1:01:40] Speaker 1: Bye.");
    let failed = speaker_transcript(&vec![1], &vec![0], &vec![None]);
    assert_eq!(failed.unwrap_err(), "no speech in any segment");
    assert_eq!(speaker_transcript(&vec![], &vec![], &vec![]).unwrap_err(), "no speaker segments found");
    assert_eq!(turn_progress(0, 3), "Transcribing turn 1 of 3");
}

#[test]
fn meetings_fall_back_to_a_length_title_and_the_cleanup_model() {
    assert_eq!(meeting_title("Budget review".to_string(), 3), "Budget review");
    assert_eq!(meeting_title(String::new(), 3), "Meeting · 3 min");
    assert_eq!(meeting_model(None, Some("llama3".to_string())), Some("llama3".to_string()));
    assert_eq!(meeting_model(Some("qwen".to_string()), Some("llama3".to_string())), Some("qwen".to_string()));
    assert_eq!(meeting_model(None, None), None);
}

fn meeting_settings(model: Option<&str>) -> patter::db::Settings {
    let mut s = patter::db::Settings::default();
    s.diarize_meetings = true;
    s.ollama_model = model.map(|m| m.to_string());
    s
}

fn analysis(title: &str) -> patter::ollama::MeetingAnalysis {
    patter::ollama::MeetingAnalysis {
        title: title.to_string(),
        summary: "We planned Q3.".to_string(),
        minutes: vec!["Budget".to_string()],
        decisions: vec!["Ship in May".to_string()],
        action_items: vec!["Sam: draft".to_string()],
    }
}

#[test]
fn a_meeting_runs_from_audio_to_a_saved_record() {
    let s = MeetingState::new(2, &meeting_settings(Some("llama3")), true, Some(3));
    let (s, a) = meeting_step(&s, 2, MeetingEvent::Captured { samples: 16_000 * 61 });
    assert!(matches!(a, MeetingAction::Normalize));
    assert_eq!(s.minutes, 2);
    let (s, a) = meeting_step(&s, 2, MeetingEvent::Normalized);
    assert!(matches!(a, MeetingAction::Diarize { num_speakers: Some(3) }));
    let (s, a) = meeting_step(&s, 2, MeetingEvent::Diarized(Ok("[00:00] Speaker 1: hi".to_string())));
    match a {
        MeetingAction::Summarize { model, transcript } => {
            assert_eq!(model, "llama3");
            assert_eq!(transcript, "[00:00] Speaker 1: hi");
        }
        _ => panic!("expected a summary"),
    }
    let (s, a) = meeting_step(&s, 2, MeetingEvent::Summarized(Ok(analysis("Q3 plan"))));
    match a {
        MeetingAction::Save { draft, notice } => {
            assert!(notice.is_none());
            assert_eq!(draft.title, "Q3 plan");
            assert_eq!(draft.transcript, "[00:00] Speaker 1: hi");
            assert_eq!(draft.decisions, vec!["Ship in May".to_string()]);
        }
        _ => panic!("expected a save"),
    }
    assert!(s.stage == MeetingStage::Done);
}

#[test]
fn a_failed_summary_still_saves_the_transcript() {
    let s = MeetingState::new(2, &meeting_settings(Some("llama3")), false, None);
    let (s, _) = meeting_step(&s, 2, MeetingEvent::Captured { samples: 16_000 * 60 });
    let (s, a) = meeting_step(&s, 2, MeetingEvent::Normalized);
    assert!(matches!(a, MeetingAction::Transcribe));
    let (s, _) = meeting_step(&s, 2, MeetingEvent::Transcribed(Ok("notes".to_string())));
    match meeting_step(&s, 2, MeetingEvent::Summarized(Err("timeout".to_string()))).1 {
        MeetingAction::Save { draft, notice } => {
            assert_eq!(draft.title, "Meeting · 1 min");
            assert_eq!(draft.transcript, "notes");
            assert!(draft.summary.is_empty() && draft.minutes.is_empty() && draft.action_items.is_empty());
            assert_eq!(notice.as_deref(), Some("error: summary failed (timeout) — transcript saved"));
        }
        _ => panic!("expected a save"),
    }
    // An analysis without a title keeps the length-based one.
    match meeting_step(&s, 2, MeetingEvent::Summarized(Ok(analysis("")))).1 {
        MeetingAction::Save { draft, .. } => assert_eq!(draft.title, "Meeting · 1 min"),
        _ => panic!("expected a save"),
    }
}

#[test]
fn meetings_fall_back_or_fail_as_the_pipeline_goes() {
    let s = MeetingState::new(2, &meeting_settings(None), true, None);
    match meeting_step(&s, 2, MeetingEvent::Captured { samples: 100 }).1 {
        MeetingAction::Fail(m) => assert_eq!(m, "error: audio too short"),
        _ => panic!("expected a failure"),
    }
    let (s, _) = meeting_step(&s, 2, MeetingEvent::Captured { samples: 16_000 });
    let (s, _) = meeting_step(&s, 2, MeetingEvent::Normalized);
    let (t, a) = meeting_step(&s, 2, MeetingEvent::Diarized(Err("no speaker segments found".to_string())));
    assert!(matches!(a, MeetingAction::Transcribe));
    match meeting_step(&t, 2, MeetingEvent::NoEngine).1 {
        MeetingAction::Fail(m) => assert_eq!(m, "error: no model loaded"),
        _ => panic!("expected a failure"),
    }
    match meeting_step(&t, 2, MeetingEvent::Transcribed(Ok(String::new()))).1 {
        MeetingAction::Fail(m) => assert_eq!(m, "error: empty transcript"),
        _ => panic!("expected a failure"),
    }
    // No analysis model: saved with the transcript alone.
    match meeting_step(&t, 2, MeetingEvent::Transcribed(Ok("hi".to_string()))).1 {
        MeetingAction::Save { draft, notice } => {
            assert!(notice.is_none());
            assert_eq!(draft.title, "Meeting · 1 min");
        }
        _ => panic!("expected a save"),
    }
    // Cancelled: nothing more happens.
    assert!(matches!(meeting_step(&t, 3, MeetingEvent::Transcribed(Ok("hi".to_string()))).1, MeetingAction::Stop));
}

#[test]
fn a_cancelled_meeting_reports_a_failed_summary_but_saves_nothing() {
    let s = MeetingState::new(2, &meeting_settings(Some("llama3")), false, None);
    let (s, _) = meeting_step(&s, 2, MeetingEvent::Captured { samples: 16_000 * 60 });
    let (s, _) = meeting_step(&s, 2, MeetingEvent::Normalized);
    let (s, _) = meeting_step(&s, 2, MeetingEvent::Transcribed(Ok("notes".to_string())));
    match meeting_step(&s, 3, MeetingEvent::Summarized(Err("timeout".to_string()))).1 {
        MeetingAction::Fail(m) => assert_eq!(m, "error: summary failed (timeout) — transcript saved"),
        _ => panic!("expected the failure to be reported"),
    }
    assert!(matches!(meeting_step(&s, 3, MeetingEvent::Summarized(Ok(analysis("x")))).1, MeetingAction::Stop));
    // Short audio is reported before the first checkpoint.
    let fresh = MeetingState::new(2, &meeting_settings(None), false, None);
    assert!(matches!(meeting_step(&fresh, 3, MeetingEvent::Captured { samples: 5 }).1, MeetingAction::Fail(_)));
    assert!(matches!(meeting_step(&fresh, 3, MeetingEvent::Captured { samples: 16_000 }).1, MeetingAction::Stop));
}
