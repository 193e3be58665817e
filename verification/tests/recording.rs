use patter::recording::{app_matches, voice_command_of};
use patter::db::{AppProfile, Settings};
use patter::recording::{
    dictation_step, DictationAction, DictationEvent, DictationStage, DictationState,
    cleanup_context, count_words, delivery_status, dictation_start_blocked, is_superseded,
    match_app_profile, max_silence_frames, too_short, voice_command, SilenceDetector,
    VoiceCommand, WHISPER_CLEANUP_NOTE,
};

fn profile(app: &str, prompt: &str) -> AppProfile {
    AppProfile { app: app.to_string(), prompt: prompt.to_string() }
}

#[test]
fn silence_timeout_becomes_level_checks() {
    assert_eq!(max_silence_frames(1000), 30);
    assert_eq!(max_silence_frames(100), 15);
    assert_eq!(max_silence_frames(0), 15);
    assert_eq!(max_silence_frames(3300), 100);
}

#[test]
fn recording_stops_after_the_silence_that_follows_speech() {
    let max = 3;
    let mut d = SilenceDetector::new();
    // Silence before any speech never stops the recording.
    for _ in 0..10 {
        assert!(!d.step(false, max));
    }
    assert!(!d.step(true, max));
    assert!(!d.step(false, max));
    assert!(!d.step(false, max));
    // Speech again resets the count.
    assert!(!d.step(true, max));
    assert!(!d.step(false, max));
    assert!(!d.step(false, max));
    assert!(!d.step(false, max));
    assert!(d.step(false, max));
}

#[test]
fn profiles_match_on_any_listed_app_name() {
    let profiles = vec![
        profile("", "never"),
        profile("Slack, Discord", "casual"),
        profile("mail", "formal"),
        profile("discord", "second"),
    ];
    assert_eq!(match_app_profile(&profiles, Some("Discord")), Some("casual".to_string()));
    assert_eq!(match_app_profile(&profiles, Some("Apple Mail")), Some("formal".to_string()));
    assert_eq!(match_app_profile(&profiles, Some("Safari")), None);
    assert_eq!(match_app_profile(&profiles, None), None);
    assert_eq!(match_app_profile(&vec![profile(" , ", "x")], Some("Anything")), None);
}

#[test]
fn cleanup_context_stacks_paragraphs() {
    assert_eq!(cleanup_context(None, false, &vec![]), None);
    assert_eq!(cleanup_context(Some("casual".to_string()), false, &vec![]), Some("casual".to_string()));
    assert_eq!(
        cleanup_context(Some("casual".to_string()), true, &vec![]),
        Some(format!("casual\n\n{}", WHISPER_CLEANUP_NOTE))
    );
    assert_eq!(
        cleanup_context(None, false, &vec!["I work at Acme".to_string(), "My dog is Rex".to_string()]),
        Some("Relevant facts from user's memory:\n- I work at Acme\n- My dog is Rex".to_string())
    );
    assert_eq!(
        cleanup_context(None, true, &vec!["F".to_string()]),
        Some(format!("{}\n\nRelevant facts from user's memory:\n- F", WHISPER_CLEANUP_NOTE))
    );
}

#[test]
fn scratch_that_undoes_and_a_trailing_one_aborts() {
    assert!(voice_command("Scratch that.") == VoiceCommand::Undo);
    assert!(voice_command("  undo that!  ") == VoiceCommand::Undo);
    assert!(voice_command("I meant Tuesday, scratch that") == VoiceCommand::Abort);
    assert!(voice_command("Please undo that.") == VoiceCommand::Abort);
    assert!(voice_command("Scratch that idea for now.") == VoiceCommand::Keep);
    assert!(voice_command("") == VoiceCommand::Keep);
}

#[test]
fn words_are_whitespace_separated_runs() {
    assert_eq!(count_words("hello  world\n again"), 3);
    assert_eq!(count_words("   "), 0);
    assert_eq!(count_words(""), 0);
    assert_eq!(count_words("one"), 1);
}

#[test]
fn the_hud_reports_how_the_text_was_delivered() {
    assert_eq!(delivery_status(true, 23), "✓ Pasted · 23 words");
    assert_eq!(delivery_status(false, 23), "⚠ Copied — needs Accessibility");
}

#[test]
fn dictation_waits_for_meetings_and_short_clips_are_skipped() {
    assert_eq!(dictation_start_blocked(true), Some("Meeting recording active".to_string()));
    assert_eq!(dictation_start_blocked(false), None);
    assert!(too_short(15_999));
    assert!(!too_short(16_000));
    assert!(is_superseded(3, 2));
    assert!(!is_superseded(3, 3));
}

fn dictation(settings: &Settings) -> DictationState {
    DictationState::new(4, settings, Some("Slack"))
}

#[test]
fn a_dictation_runs_from_audio_to_delivery() {
    let mut settings = Settings::default();
    settings.llm_cleanup_enabled = true;
    settings.ollama_model = Some("llama3".to_string());
    settings.custom_prompt = "Patter, Ollama".to_string();
    settings.app_profiles = vec![profile("slack", "Keep it casual.")];
    let s = dictation(&settings);
    let (s, a) = dictation_step(&s, 4, DictationEvent::Captured { samples: 32_000 });
    assert!(matches!(a, DictationAction::TrimSilence));
    let (s, a) = dictation_step(&s, 4, DictationEvent::Trimmed(Ok(20_000)));
    match a {
        DictationAction::Transcribe { trimmed, prompt, language } => {
            assert!(trimmed);
            assert_eq!(prompt.as_deref(), Some("Patter, Ollama"));
            assert_eq!(language, "auto");
        }
        _ => panic!("expected transcription"),
    }
    let (s, a) = dictation_step(&s, 4, DictationEvent::Transcribed(Ok("hello there".to_string())));
    match a {
        DictationAction::Cleanup { model, text, extra } => {
            assert_eq!(model, "llama3");
            assert_eq!(text, "hello there");
            assert_eq!(extra.as_deref(), Some("Keep it casual."));
        }
        _ => panic!("expected cleanup"),
    }
    let (s, a) = dictation_step(&s, 4, DictationEvent::Cleaned(Ok("Hello there.".to_string())));
    assert!(matches!(a, DictationAction::CheckAccess));
    let (s, a) = dictation_step(&s, 4, DictationEvent::Access(true));
    match a {
        DictationAction::Deliver { text, words, paste, mode, status } => {
            assert_eq!(text, "Hello there.");
            assert_eq!(words, 2);
            assert!(paste);
            assert_eq!(mode, "type");
            assert_eq!(status, "✓ Pasted · 2 words");
        }
        _ => panic!("expected delivery"),
    }
    assert!(s.stage == DictationStage::Done);
}

#[test]
fn a_failed_cleanup_keeps_the_transcript() {
    let mut settings = Settings::default();
    settings.llm_cleanup_enabled = true;
    settings.ollama_model = Some("llama3".to_string());
    settings.trim_silence = false;
    let s = dictation(&settings);
    let (s, a) = dictation_step(&s, 4, DictationEvent::Captured { samples: 16_000 });
    assert!(matches!(a, DictationAction::Transcribe { trimmed: false, .. }));
    let (s, _) = dictation_step(&s, 4, DictationEvent::Transcribed(Ok("raw words".to_string())));
    let (s, a) = dictation_step(&s, 4, DictationEvent::Cleaned(Err("Ollama not reachable".to_string())));
    assert_eq!(s.text, "raw words");
    assert!(matches!(a, DictationAction::CheckAccess));
    let (_, a) = dictation_step(&s, 4, DictationEvent::Access(false));
    match a {
        DictationAction::Deliver { paste, status, .. } => {
            assert!(!paste);
            assert_eq!(status, "⚠ Copied — needs Accessibility");
        }
        _ => panic!("expected delivery"),
    }
}

#[test]
fn a_cancelled_dictation_stops_at_its_next_checkpoint() {
    let s = dictation(&Settings::default());
    // Trimming runs before the first checkpoint, as does the short-audio notice.
    let (t, a) = dictation_step(&s, 5, DictationEvent::Captured { samples: 32_000 });
    assert!(matches!(a, DictationAction::TrimSilence));
    assert!(matches!(dictation_step(&s, 5, DictationEvent::Captured { samples: 10 }).1, DictationAction::Notify { .. }));
    // The checkpoint before the engine runs.
    assert!(matches!(dictation_step(&t, 5, DictationEvent::Trimmed(Ok(10))).1, DictationAction::Stop));
    assert!(matches!(dictation_step(&t, 5, DictationEvent::Trimmed(Err("x".to_string()))).1, DictationAction::Stop));
    let mut no_trim = Settings::default();
    no_trim.trim_silence = false;
    let u = dictation(&no_trim);
    assert!(matches!(dictation_step(&u, 5, DictationEvent::Captured { samples: 32_000 }).1, DictationAction::Stop));
    // The checkpoint once the transcript is in.
    let (v, _) = dictation_step(&u, 4, DictationEvent::Captured { samples: 32_000 });
    assert!(matches!(dictation_step(&v, 5, DictationEvent::Transcribed(Ok("hi".to_string()))).1, DictationAction::Stop));
    // Out of turn: a transcript while trimming is ignored.
    let (_, a) = dictation_step(&t, 4, DictationEvent::Transcribed(Ok("x".to_string())));
    assert!(matches!(a, DictationAction::Stop));
}

#[test]
fn dictations_end_early_with_a_notice() {
    let s = dictation(&Settings::default());
    match dictation_step(&s, 4, DictationEvent::Captured { samples: 15_999 }).1 {
        DictationAction::Notify { message, hold_secs } => {
            assert_eq!(message, "Audio too short");
            assert_eq!(hold_secs, 1);
        }
        _ => panic!("expected a notice"),
    }
    let (s, _) = dictation_step(&s, 4, DictationEvent::Captured { samples: 16_000 });
    match dictation_step(&s, 4, DictationEvent::Trimmed(Ok(0))).1 {
        DictationAction::Notify { message, .. } => assert_eq!(message, "No speech detected"),
        _ => panic!("expected a notice"),
    }
    let (s, a) = dictation_step(&s, 4, DictationEvent::Trimmed(Err("bad model".to_string())));
    assert!(matches!(a, DictationAction::Transcribe { trimmed: false, .. }));
    match dictation_step(&s, 4, DictationEvent::Transcribed(Err("boom".to_string()))).1 {
        DictationAction::Notify { message, hold_secs } => {
            assert_eq!(message, "⚠ Transcription failed");
            assert_eq!(hold_secs, 2);
        }
        _ => panic!("expected a notice"),
    }
    match dictation_step(&s, 4, DictationEvent::NoEngine).1 {
        DictationAction::Notify { message, .. } => assert_eq!(message, "No model loaded"),
        _ => panic!("expected a notice"),
    }
    assert!(matches!(dictation_step(&s, 4, DictationEvent::Transcribed(Ok(String::new()))).1, DictationAction::Idle));
}

#[test]
fn voice_commands_undo_or_drop_instead_of_pasting() {
    let mut settings = Settings::default();
    settings.trim_silence = false;
    let s = dictation(&settings);
    let (s, _) = dictation_step(&s, 4, DictationEvent::Captured { samples: 16_000 });
    let a = dictation_step(&s, 4, DictationEvent::Transcribed(Ok("Scratch that.".to_string()))).1;
    assert!(matches!(a, DictationAction::Undo { sound: true }));
    let a = dictation_step(&s, 4, DictationEvent::Transcribed(Ok("send it, undo that".to_string()))).1;
    assert!(matches!(a, DictationAction::Abort { sound: true }));
}

#[test]
fn reduced_transcripts_map_to_commands() {
    assert!(voice_command_of("scratch that") == VoiceCommand::Undo);
    assert!(voice_command_of("undo that") == VoiceCommand::Undo);
    assert!(voice_command_of("send it scratch that") == VoiceCommand::Abort);
    assert!(voice_command_of("Scratch that") == VoiceCommand::Keep);
    let name: Vec<char> = "google chrome".chars().collect();
    assert!(app_matches(&name, "safari, chrome"));
    assert!(!app_matches(&name, "safari, ,"));
}
