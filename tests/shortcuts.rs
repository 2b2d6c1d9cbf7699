use pluely::capture::{crop_region, is_overlay_label, SelectionCoords};
use pluely::shortcuts::{
    moved_position, parse_direction, plan_registrations, shortcut_action, Direction,
    LicenseState, ShortcutAction, ShortcutBinding, ShortcutsConfig,
};

fn binding(key: &str, enabled: bool) -> ShortcutBinding {
    ShortcutBinding { action: String::new(), key: key.to_string(), enabled }
}

#[test]
fn license_flag_round_trip() {
    let mut l = LicenseState::new();
    assert!(!l.is_active());
    l.set_active(true);
    assert!(l.is_active());
    l.set_active(false);
    assert!(!l.is_active());
}

#[test]
fn action_ids_map_to_actions() {
    assert!(matches!(shortcut_action("toggle_window"), ShortcutAction::ToggleWindow));
    assert!(matches!(shortcut_action("move_window_left"), ShortcutAction::MoveWindow(Direction::Left)));
    assert!(matches!(shortcut_action("screenshot"), ShortcutAction::Screenshot));
    match shortcut_action("my_macro") {
        ShortcutAction::Custom(s) => assert_eq!(s, "my_macro"),
        _ => panic!("expected custom"),
    }
}

#[test]
fn window_moves_by_step() {
    assert_eq!(moved_position(100, 200, Direction::Up, 12), (100, 188));
    assert_eq!(moved_position(100, 200, Direction::Right, 12), (112, 200));
    assert!(parse_direction("diagonal").is_none());
    assert!(matches!(parse_direction("down"), Some(Direction::Down)));
}

#[test]
fn registration_plan_expands_move_window() {
    let config = ShortcutsConfig {
        bindings: vec![
            ("toggle_window".to_string(), binding("Cmd+\\", true)),
            ("screenshot".to_string(), binding("", true)),
            ("audio_recording".to_string(), binding("Cmd+R", false)),
            ("move_window".to_string(), binding(" Cmd+Shift ", true)),
        ],
    };
    let licensed = plan_registrations(&config, true);
    assert_eq!(
        licensed,
        vec![
            ("toggle_window".to_string(), "Cmd+\\".to_string()),
            ("move_window_up".to_string(), "Cmd+Shift+up".to_string()),
            ("move_window_down".to_string(), "Cmd+Shift+down".to_string()),
            ("move_window_left".to_string(), "Cmd+Shift+left".to_string()),
            ("move_window_right".to_string(), "Cmd+Shift+right".to_string()),
        ]
    );
    let unlicensed = plan_registrations(&config, false);
    assert_eq!(unlicensed, vec![("toggle_window".to_string(), "Cmd+\\".to_string())]);
}

#[test]
fn crop_is_clamped_into_image() {
    let c = SelectionCoords { x: 90, y: 10, width: 50, height: 5 };
    assert_eq!(crop_region(&c, 100, 100).unwrap(), (90, 10, 10, 5));
    let far = SelectionCoords { x: 500, y: 500, width: 5, height: 5 };
    assert_eq!(crop_region(&far, 100, 80).unwrap(), (99, 79, 1, 1));
    let empty = SelectionCoords { x: 0, y: 0, width: 0, height: 5 };
    assert_eq!(crop_region(&empty, 100, 100).unwrap_err(), "Invalid selection dimensions");
    assert!(is_overlay_label("capture-overlay-2"));
    assert!(!is_overlay_label("main"));
}

#[test]
fn registered_shortcuts_record() {
    let mut r = pluely::shortcuts::RegisteredShortcuts::new();
    assert!(!r.has_any());
    r.replace_all(vec![("screenshot".to_string(), "Cmd+S".to_string())]);
    assert!(r.has_any());
    assert_eq!(r.shortcuts[0].1, "Cmd+S");
}
