use patter::commands::{
    engine_load_plan, hud_at_top, icns_path, icon_cache_key, icon_file_name, info_plist_path,
    meeting_start, plan_settings_update, regenerate_target, spotlight_query, startup_engine,
    EngineLoad,
};
use patter::db::{MeetingRecord, Settings};
use patter::registry::ModelManager;

fn meeting(id: &str) -> MeetingRecord {
    MeetingRecord {
        id: id.to_string(),
        timestamp_ms: 0,
        title: String::new(),
        duration_bits: 0,
        transcript: String::new(),
        summary: String::new(),
        minutes: vec![],
        decisions: vec![],
        action_items: vec![],
    }
}

#[test]
fn only_changed_settings_are_reapplied() {
    let a = Settings::default();
    let mut b = Settings::default();
    let p = plan_settings_update(&a, &b);
    assert!(p.autostart.is_none() && !p.rebind_hotkey && !p.reposition_hud);
    b.autostart = false;
    b.hotkey = "Ctrl+Space".to_string();
    b.hud_position = "top".to_string();
    let p = plan_settings_update(&a, &b);
    assert_eq!(p.autostart, Some(false));
    assert!(p.rebind_hotkey && p.reposition_hud);
    assert!(hud_at_top("top") && !hud_at_top("bottom"));
}

#[test]
fn engines_load_by_kind() {
    let mm = ModelManager::new("/m".to_string());
    match engine_load_plan(&mm, "whisper-base").unwrap() {
        EngineLoad::WhisperFile(p) => assert_eq!(p, "/m/whisper/ggml-base.en.bin"),
        _ => panic!("whisper loads a file"),
    }
    match engine_load_plan(&mm, "parakeet-v3").unwrap() {
        EngineLoad::ParakeetDir(d) => assert_eq!(d, "/m/parakeet-v3"),
        _ => panic!("parakeet loads a directory"),
    }
    assert_eq!(engine_load_plan(&mm, "diar-segmentation").err().unwrap(), "Not an ASR engine");
    assert_eq!(engine_load_plan(&mm, "nope").err().unwrap(), "Unknown engine");
}

#[test]
fn launch_loads_the_saved_engine_or_whisper_base() {
    let mm = ModelManager::new("/m".to_string());
    let (id, _) = startup_engine(&mm, Some("parakeet-v2"), true, true).unwrap();
    assert_eq!(id, "parakeet-v2");
    assert!(startup_engine(&mm, Some("parakeet-v2"), false, true).is_none());
    let (id, load) = startup_engine(&mm, None, false, true).unwrap();
    assert_eq!(id, "whisper-base");
    assert!(matches!(load, EngineLoad::WhisperFile(p) if p == "/m/whisper/ggml-base.en.bin"));
    assert!(startup_engine(&mm, None, false, false).is_none());
    assert!(startup_engine(&mm, Some("diar-embedding"), true, true).is_none());
}

#[test]
fn meeting_start_is_known_only_while_recording() {
    assert_eq!(meeting_start(true, 1234), Some(1234));
    assert_eq!(meeting_start(false, 1234), None);
}

#[test]
fn regenerating_needs_the_meeting_and_a_model() {
    let meetings = vec![meeting("a"), meeting("b")];
    let mut s = Settings::default();
    assert_eq!(regenerate_target(&meetings, "c", &s).unwrap_err(), "Meeting not found");
    assert_eq!(regenerate_target(&meetings, "b", &s).unwrap_err(), "No Ollama model selected");
    s.ollama_model = Some("llama3".to_string());
    assert_eq!(regenerate_target(&meetings, "b", &s).unwrap(), (1, "llama3".to_string()));
    s.meeting_ollama_model = Some("qwen".to_string());
    assert_eq!(regenerate_target(&meetings, "a", &s).unwrap(), (0, "qwen".to_string()));
}

#[test]
fn app_icons_are_found_by_a_safe_name() {
    assert_eq!(icon_cache_key("Visual Studio Code").unwrap(), "visualstudiocode");
    assert_eq!(icon_cache_key("Ünïcode 2!").unwrap(), "ünïcode2");
    assert_eq!(icon_cache_key(" - ").unwrap_err(), "Invalid app name");
    assert_eq!(
        spotlight_query("Slack"),
        "kMDItemKind == 'Application' && (kMDItemFSName == '*Slack*.app'cd || kMDItemAlternateNames == '*Slack*.app'cd)"
    );
    assert_eq!(icon_file_name(" AppIcon \n"), "AppIcon.icns");
    assert_eq!(icon_file_name(""), "AppIcon.icns");
    assert_eq!(icon_file_name("slack.icns"), "slack.icns");
    assert_eq!(info_plist_path("/Applications/Slack.app"), "/Applications/Slack.app/Contents/Info.plist");
    assert_eq!(icns_path("/A.app", "i.icns"), "/A.app/Contents/Resources/i.icns");
}

#[test]
fn the_meeting_hotkey_is_rebound_on_its_own() {
    let a = Settings::default();
    let mut b = Settings::default();
    b.meeting_hotkey = "Alt+M".to_string();
    let p = plan_settings_update(&a, &b);
    assert!(!p.rebind_hotkey && !p.unbind_meeting_hotkey && p.bind_meeting_hotkey);
    let p = plan_settings_update(&b, &a);
    assert!(p.unbind_meeting_hotkey && !p.bind_meeting_hotkey);
    let mut c = Settings::default();
    c.meeting_hotkey = "Alt+N".to_string();
    let p = plan_settings_update(&b, &c);
    assert!(p.unbind_meeting_hotkey && p.bind_meeting_hotkey);
    let p = plan_settings_update(&b, &b.clone());
    assert!(!p.unbind_meeting_hotkey && !p.bind_meeting_hotkey);
}
