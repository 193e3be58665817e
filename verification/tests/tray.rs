use patter::db::TranscriptionRecord;
use patter::tray::{
    build_menu, menu_action, model_label, truncate_label, MenuAction, MenuEntry, MenuIcon,
    MenuLeaf, MenuState,
};

fn rec(id: &str, text: &str) -> TranscriptionRecord {
    TranscriptionRecord {
        id: id.to_string(),
        timestamp_ms: 0,
        text: text.to_string(),
        duration_bits: 0,
        words: 0,
        transcribe_ms: 0,
    }
}

#[test]
fn model_ids_read_as_titles() {
    assert_eq!(model_label("whisper-base"), "Whisper Base");
    assert_eq!(model_label("whisper-large-v3-turbo"), "Whisper Large V3 Turbo");
    assert_eq!(model_label("a--b"), "A  B");
    assert_eq!(model_label(""), "");
    assert_eq!(model_label("ßtraße"), "SStraße");
}

#[test]
fn labels_are_one_line_and_short() {
    assert_eq!(truncate_label("  hello\nworld  "), "hello world");
    let long = "x".repeat(45);
    assert_eq!(truncate_label(&long), format!("{}…", "x".repeat(40)));
    assert_eq!(truncate_label(&"y".repeat(40)), "y".repeat(40));
    assert_eq!(truncate_label(&"é".repeat(41)).chars().count(), 41);
}

fn leaf_id(l: &MenuLeaf) -> &str {
    match l {
        MenuLeaf::Item { id, .. } => id,
        MenuLeaf::Check { id, .. } => id,
    }
}

#[test]
fn the_menu_reflects_state() {
    let state = MenuState {
        paused: true,
        meeting_active: false,
        active_engine: Some("whisper-base".to_string()),
        selected_mic: None,
        downloaded: vec!["whisper-tiny", "whisper-base"],
        microphones: Some(vec!["USB Mic".to_string()]),
    };
    let history: Vec<TranscriptionRecord> =
        (0..5).map(|i| rec(&i.to_string(), &format!("text {i}"))).collect();
    let menu = build_menu(&state, &history);
    assert_eq!(menu.len(), 17);
    match &menu[0] {
        MenuEntry::Leaf(MenuLeaf::Item { id, label, enabled, icon, .. }) => {
            assert_eq!(id, "meeting");
            assert_eq!(label, "Start Meeting Notes");
            assert!(*enabled);
            assert!(*icon == Some(MenuIcon::Users));
        }
        _ => panic!("first row is the meeting toggle"),
    }
    match &menu[2] {
        MenuEntry::Leaf(MenuLeaf::Item { label, icon, .. }) => {
            assert_eq!(label, "Resume Dictation");
            assert!(*icon == Some(MenuIcon::Play));
        }
        _ => panic!("third row is pause"),
    }
    match &menu[6] {
        MenuEntry::Submenu { label, items } => {
            assert_eq!(*label, "Speech Models");
            assert_eq!(items.len(), 2);
            match &items[1] {
                MenuLeaf::Check { id, label, checked } => {
                    assert_eq!(id, "model:whisper-base");
                    assert_eq!(label, "Whisper Base");
                    assert!(*checked);
                }
                _ => panic!("model rows are checks"),
            }
        }
        _ => panic!("models submenu"),
    }
    match &menu[7] {
        MenuEntry::Submenu { label, items } => {
            assert_eq!(*label, "Microphone");
            assert_eq!(items.iter().map(leaf_id).collect::<Vec<_>>(), vec!["mic:", "mic:USB Mic"]);
        }
        _ => panic!("microphone submenu"),
    }
    match &menu[14] {
        MenuEntry::Submenu { label, items } => {
            assert_eq!(*label, "Recent Transcriptions");
            assert_eq!(items.iter().map(leaf_id).collect::<Vec<_>>(), vec!["recent:0", "recent:1", "recent:2"]);
        }
        _ => panic!("recent submenu"),
    }
    assert!(matches!(&menu[16], MenuEntry::Leaf(MenuLeaf::Item { id, accelerator: Some("CmdOrCtrl+Q"), .. }) if id == "quit"));
}

#[test]
fn an_empty_state_has_no_submenus() {
    let state = MenuState {
        paused: false,
        meeting_active: true,
        active_engine: None,
        selected_mic: None,
        downloaded: vec![],
        microphones: None,
    };
    let menu = build_menu(&state, &vec![]);
    assert_eq!(menu.len(), 14);
    assert!(menu.iter().all(|e| !matches!(e, MenuEntry::Submenu { .. })));
    match &menu[1] {
        MenuEntry::Leaf(MenuLeaf::Item { enabled, .. }) => assert!(!*enabled),
        _ => panic!("copy-last"),
    }
    match &menu[0] {
        MenuEntry::Leaf(MenuLeaf::Item { label, .. }) => assert_eq!(label, "Stop Meeting Notes"),
        _ => panic!("meeting"),
    }
}

#[test]
fn menu_clicks_map_to_actions() {
    assert!(matches!(menu_action("quit"), MenuAction::Quit));
    assert!(matches!(menu_action("meeting"), MenuAction::ToggleMeeting));
    assert!(matches!(menu_action("copy-last"), MenuAction::CopyLast));
    assert!(matches!(menu_action("pause"), MenuAction::TogglePause));
    assert!(matches!(menu_action("nav:history"), MenuAction::Navigate(t) if t == "history"));
    assert!(matches!(menu_action("recent:17"), MenuAction::CopyRecent(t) if t == "17"));
    assert!(matches!(menu_action("model:parakeet-v2"), MenuAction::SelectModel(t) if t == "parakeet-v2"));
    assert!(matches!(menu_action("mic:"), MenuAction::SelectMicrophone(None)));
    assert!(matches!(menu_action("mic:USB Mic"), MenuAction::SelectMicrophone(Some(m)) if m == "USB Mic"));
    assert!(matches!(menu_action("dashboard"), MenuAction::Ignore));
    assert!(matches!(menu_action("Quit"), MenuAction::Ignore));
}
