use patter::db::{
    default_auto_update, default_hud_position, default_play_sounds, default_trim_silence,
    AppStats, Db, MeetingRecord, Settings, TranscriptionRecord, HISTORY_LIMIT,
};
use patter::ollama::MeetingAnalysis;
use patter::db::{settings_from_stored, stored_settings, StoredSettings};

fn rec(id: &str, text: &str, words: u32) -> TranscriptionRecord {
    TranscriptionRecord {
        id: id.to_string(),
        timestamp_ms: 7,
        text: text.to_string(),
        duration_bits: 2.5f32.to_bits(),
        words,
        transcribe_ms: 40,
    }
}

fn meeting(id: &str) -> MeetingRecord {
    MeetingRecord {
        id: id.to_string(),
        timestamp_ms: 1,
        title: "t".to_string(),
        duration_bits: 60.0f32.to_bits(),
        transcript: "x".to_string(),
        summary: String::new(),
        minutes: vec![],
        decisions: vec![],
        action_items: vec![],
    }
}

fn empty_db() -> Db {
    Db::new(Settings::default(), AppStats::default(), Vec::new(), Vec::new())
}

#[test]
fn fresh_settings_match_a_new_install() {
    let s = Settings::default();
    assert_eq!(s.hotkey, "Alt+Space");
    assert_eq!(s.output_mode, "type");
    assert_eq!(s.language, "auto");
    assert_eq!(s.silence_timeout_ms, 1000);
    assert!(s.autostart && s.play_sounds && s.trim_silence && s.auto_update);
    assert!(!s.llm_cleanup_enabled && !s.onboarding_done && !s.push_to_talk && !s.diarize_meetings);
    assert_eq!(s.hud_position, "bottom");
    assert!(s.microphone.is_none() && s.ollama_model.is_none() && s.app_profiles.is_empty());
    assert_eq!(default_hud_position(), "bottom");
    assert!(default_play_sounds() && default_auto_update() && default_trim_silence());
}

#[test]
fn adding_a_record_prepends_it_and_counts_it() {
    let mut db = empty_db();
    db.add_record(rec("", "hello world", 2), 1_700_000_000_123, 1);
    db.add_record(rec("b", "second", 1), 5, 0);
    assert_eq!(db.history.len(), 2);
    assert_eq!(db.history[0].id, "b");
    assert_eq!(db.history[1].id, "1700000000123");
    assert_eq!(db.history[1].text, "hello world");
    assert_eq!(db.history[1].duration_bits, 2.5f32.to_bits());
    assert_eq!(db.stats.total_words, 3);
    assert_eq!(db.stats.transcriptions_count, 2);
    assert_eq!(db.stats.time_saved_seconds, 1);
}

#[test]
fn the_history_keeps_the_newest_thousand() {
    let mut db = empty_db();
    for i in 0..(HISTORY_LIMIT as u64 + 5) {
        db.add_record(rec(&i.to_string(), "x", 1), i, 0);
    }
    assert_eq!(db.history.len(), HISTORY_LIMIT);
    assert_eq!(db.history[0].id, (HISTORY_LIMIT + 4).to_string());
    assert_eq!(db.stats.transcriptions_count, HISTORY_LIMIT as u32 + 5);
}

#[test]
fn deleting_a_record_removes_every_copy_and_reports_it() {
    let mut db = empty_db();
    db.save_history(vec![rec("a", "1", 1), rec("b", "2", 1), rec("a", "3", 1)]);
    assert!(db.delete_record("a"));
    assert_eq!(db.history.len(), 1);
    assert_eq!(db.history[0].id, "b");
    assert!(!db.delete_record("a"));
    assert_eq!(db.history.len(), 1);
}

#[test]
fn updating_text_touches_only_the_first_match() {
    let mut db = empty_db();
    db.save_history(vec![rec("a", "1", 1), rec("b", "2", 1), rec("b", "3", 1)]);
    assert!(db.update_record_text("b", "new"));
    assert_eq!(db.history[1].text, "new");
    assert_eq!(db.history[2].text, "3");
    assert_eq!(db.history[1].words, 1);
    assert!(!db.update_record_text("zzz", "new"));
}

#[test]
fn clearing_history_keeps_the_stats() {
    let mut db = empty_db();
    db.add_record(rec("a", "x y", 2), 1, 3);
    db.clear_history();
    assert!(db.get_history().is_empty());
    assert_eq!(db.get_stats().total_words, 2);
    assert_eq!(db.get_stats().time_saved_seconds, 3);
}

#[test]
fn meetings_are_added_newest_first_and_deleted_by_id() {
    let mut db = empty_db();
    db.add_meeting(meeting(""), 42);
    db.add_meeting(meeting("m2"), 43);
    assert_eq!(db.get_meetings().len(), 2);
    assert_eq!(db.meetings[0].id, "m2");
    assert_eq!(db.meetings[1].id, "42");
    assert!(db.delete_meeting("42"));
    assert!(!db.delete_meeting("42"));
    assert_eq!(db.meetings.len(), 1);
    db.save_meetings(vec![]);
    assert!(db.get_meetings().is_empty());
}

#[test]
fn settings_and_stats_are_replaced_whole() {
    let mut db = empty_db();
    let mut s = Settings::default();
    s.hotkey = "Ctrl+D".to_string();
    db.save_settings(s);
    assert_eq!(db.get_settings().hotkey, "Ctrl+D");
    db.save_stats(AppStats { total_words: 9, time_saved_seconds: 8, transcriptions_count: 7 });
    assert_eq!(db.get_stats().transcriptions_count, 7);
}

#[test]
fn updating_a_meeting_replaces_title_and_transcript_of_the_first_match() {
    let mut db = empty_db();
    db.add_meeting(meeting("m"), 0);
    db.add_meeting(meeting("m"), 0);
    assert!(db.update_meeting("m", "Roadmap", "we agreed"));
    assert_eq!(db.meetings[0].title, "Roadmap");
    assert_eq!(db.meetings[0].transcript, "we agreed");
    assert_eq!(db.meetings[1].title, "t");
    assert!(!db.update_meeting("nope", "a", "b"));
    assert_eq!(db.meetings.len(), 2);
}

#[test]
fn updating_action_items_touches_only_that_list() {
    let mut db = empty_db();
    db.add_meeting(meeting("a"), 0);
    db.add_meeting(meeting("b"), 0);
    assert!(db.update_meeting_action_items("a", vec!["Sam: ship it".to_string()]));
    assert_eq!(db.meetings[1].action_items, vec!["Sam: ship it".to_string()]);
    assert_eq!(db.meetings[1].title, "t");
    assert!(db.meetings[0].action_items.is_empty());
    assert!(!db.update_meeting_action_items("c", vec![]));
}

#[test]
fn a_new_analysis_keeps_the_title_when_it_has_none() {
    let mut db = empty_db();
    db.add_meeting(meeting("a"), 0);
    let analysis = MeetingAnalysis {
        title: String::new(),
        summary: "s".to_string(),
        minutes: vec!["m".to_string()],
        decisions: vec!["d".to_string()],
        action_items: vec!["x".to_string()],
    };
    assert!(db.update_meeting_analysis("a", analysis.clone()));
    assert_eq!(db.meetings[0].title, "t");
    assert_eq!(db.meetings[0].summary, "s");
    assert_eq!(db.meetings[0].minutes, vec!["m".to_string()]);
    assert_eq!(db.meetings[0].transcript, "x");
    let titled = MeetingAnalysis { title: "Budget".to_string(), ..analysis };
    assert!(db.update_meeting_analysis("a", titled.clone()));
    assert_eq!(db.meetings[0].title, "Budget");
    assert!(!db.update_meeting_analysis("zz", titled));
}

#[test]
fn an_old_settings_file_loads_with_defaults_for_what_it_lacks() {
    let st = StoredSettings {
        hotkey: "Alt+D".to_string(),
        microphone: None,
        output_mode: "paste".to_string(),
        custom_prompt: String::new(),
        autostart: false,
        language: "en".to_string(),
        silence_timeout_ms: 1500,
        active_engine_id: Some("parakeet-v2".to_string()),
        llm_cleanup_enabled: None,
        ollama_model: None,
        meeting_ollama_model: None,
        hud_position: None,
        play_sounds: None,
        trim_silence: None,
        onboarding_done: None,
        push_to_talk: None,
        diarize_meetings: None,
        app_profiles: None,
        auto_update: None,
        meeting_hotkey: None,
    };
    let s = settings_from_stored(st);
    assert_eq!(s.hotkey, "Alt+D");
    assert_eq!(s.output_mode, "paste");
    assert_eq!(s.silence_timeout_ms, 1500);
    assert_eq!(s.hud_position, "bottom");
    assert!(s.play_sounds && s.trim_silence && s.auto_update);
    assert!(!s.llm_cleanup_enabled && !s.onboarding_done && !s.push_to_talk && !s.diarize_meetings);
    assert!(s.app_profiles.is_empty());
    assert_eq!(s.meeting_hotkey, "");
}

#[test]
fn saved_settings_load_back_unchanged() {
    let mut s = Settings::default();
    s.hud_position = "top".to_string();
    s.play_sounds = false;
    s.meeting_hotkey = "Alt+M".to_string();
    s.onboarding_done = true;
    let back = settings_from_stored(stored_settings(s.clone()));
    assert_eq!(back.hud_position, "top");
    assert!(!back.play_sounds && back.onboarding_done);
    assert_eq!(back.meeting_hotkey, "Alt+M");
    assert_eq!(back.hotkey, s.hotkey);
}
