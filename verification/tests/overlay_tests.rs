use cartographer::aerospace::{parse_window_id, resize_succeeded, signed_delta_arg, trim_whitespace};
use cartographer::app::{ActivateAction, App, KeyAction, KEYCODE_ESCAPE};
use cartographer::grid::{Cell, Grid, SelectionState};
use cartographer::hotkey::{decide_tap_event, HotkeyEvent, TapDecision, TapEventKind};
use cartographer::keys::{keycode_for_lowercase_name, modifier_for_lowercase_name, str_eq, ModifierFlags};
use cartographer::time::{TimeSpan, Timestamp};

const ALT_CMD: u64 = 0x0008_0000 | 0x0010_0000;

fn start() -> Timestamp {
    Timestamp::from_nanos(3_000_000_000)
}

fn later(t: Timestamp, millis: u64) -> Timestamp {
    t.after(TimeSpan::from_millis(millis))
}

// -- the event tap --

#[test]
fn hotkey_press_is_reported_and_consumed() {
    let d = decide_tap_event(TapEventKind::KeyDown, 17, ALT_CMD, 17, ALT_CMD);
    assert_eq!(d, TapDecision { report: Some(HotkeyEvent::Activate), pass_through: false });
}

#[test]
fn hotkey_ignores_flags_other_than_modifiers() {
    // caps lock and the numeric-pad flag are held too
    let d = decide_tap_event(TapEventKind::KeyDown, 17, ALT_CMD | 0x0001_0000 | 0x0020_0000, 17, ALT_CMD);
    assert_eq!(d.report, Some(HotkeyEvent::Activate));
}

#[test]
fn extra_modifier_is_not_the_hotkey() {
    let d = decide_tap_event(TapEventKind::KeyDown, 17, ALT_CMD | 0x0002_0000, 17, ALT_CMD);
    assert_eq!(d, TapDecision { report: None, pass_through: true });
    let d = decide_tap_event(TapEventKind::KeyDown, 17, 0x0008_0000, 17, ALT_CMD);
    assert_eq!(d, TapDecision { report: None, pass_through: true });
    let d = decide_tap_event(TapEventKind::KeyDown, 16, ALT_CMD, 17, ALT_CMD);
    assert_eq!(d, TapDecision { report: None, pass_through: true });
}

#[test]
fn disabled_tap_is_reported_and_passed_on() {
    for kind in [TapEventKind::TapDisabledByTimeout, TapEventKind::TapDisabledByUserInput] {
        let d = decide_tap_event(kind, 17, ALT_CMD, 17, ALT_CMD);
        assert_eq!(d, TapDecision { report: Some(HotkeyEvent::TapDisabled), pass_through: true });
    }
    let d = decide_tap_event(TapEventKind::Other, 17, ALT_CMD, 17, ALT_CMD);
    assert_eq!(d, TapDecision { report: None, pass_through: true });
}

// -- the overlay --

#[test]
fn hidden_overlay_ignores_keys() {
    let mut app = App::new(Grid::default_4x3());
    assert!(matches!(app.handle_key(12, start()), KeyAction::Nothing));
    assert!(!app.overlay_visible());
    assert_eq!(app.selection(), SelectionState::Empty);
    assert!(!app.check_timeout(later(start(), 5000)));
}

#[test]
fn hotkey_shows_then_hides() {
    let mut app = App::new(Grid::default_4x3());
    assert_eq!(app.handle_activate(), ActivateAction::Show);
    assert!(!app.overlay_visible());
    app.show_overlay(Some("42".to_string()));
    assert!(app.overlay_visible());
    assert_eq!(app.handle_activate(), ActivateAction::Hide);
    assert!(!app.overlay_visible());
    assert!(app.aerospace_window_id().is_none());
}

#[test]
fn two_keys_tile_and_hide() {
    let mut app = App::new(Grid::default_4x3());
    app.show_overlay(Some("42".to_string()));
    let now = start();
    match app.handle_key(12, now) {
        KeyAction::Highlight(c) => assert_eq!(c, Cell { col: 0, row: 0 }),
        _ => panic!("expected a highlight"),
    }
    match app.handle_key(3, later(now, 300)) {
        KeyAction::Tile { first, second, aerospace_window_id } => {
            assert_eq!(first, Cell { col: 0, row: 0 });
            assert_eq!(second, Cell { col: 3, row: 1 });
            assert_eq!(aerospace_window_id, Some("42".to_string()));
        }
        _ => panic!("expected a tile"),
    }
    assert!(!app.overlay_visible());
    assert!(app.aerospace_window_id().is_none());
    assert_eq!(app.selection(), SelectionState::Empty);
}

#[test]
fn escape_dismisses_overlay() {
    let mut app = App::new(Grid::default_4x3());
    app.show_overlay(None);
    app.handle_key(12, start());
    assert!(matches!(app.handle_key(KEYCODE_ESCAPE, later(start(), 10)), KeyAction::Dismiss));
    assert!(!app.overlay_visible());
    assert_eq!(app.selection(), SelectionState::Empty);
}

#[test]
fn stale_first_corner_is_cleared_by_tick() {
    let mut app = App::new(Grid::default_4x3());
    app.show_overlay(None);
    app.handle_key(12, start());
    assert!(!app.check_timeout(later(start(), 999)));
    assert!(app.check_timeout(later(start(), 1000)));
    assert!(app.overlay_visible());
    assert_eq!(app.selection(), SelectionState::Empty);
}

#[test]
fn unknown_key_on_overlay_does_nothing() {
    let mut app = App::new(Grid::default_4x3());
    app.show_overlay(None);
    assert!(matches!(app.handle_key(5, start()), KeyAction::Nothing));
    assert!(app.overlay_visible());
}

// -- aerospace --

#[test]
fn window_id_is_trimmed() {
    assert_eq!(parse_window_id("  4711\n"), Some("4711".to_string()));
    assert_eq!(parse_window_id("12"), Some("12".to_string()));
    assert_eq!(parse_window_id(" \t\n"), None);
    assert_eq!(parse_window_id(""), None);
    assert_eq!(trim_whitespace("\u{a0}a b\r\n"), "a b");
}

#[test]
fn delta_arg_has_explicit_sign() {
    assert_eq!(signed_delta_arg(40), "+40");
    assert_eq!(signed_delta_arg(-12), "-12");
    assert_eq!(signed_delta_arg(0), "+0");
    assert_eq!(signed_delta_arg(7), "+7");
    assert_eq!(signed_delta_arg(-100), "-100");
    assert_eq!(signed_delta_arg(i64::MIN), format!("{:+}", i64::MIN));
    assert_eq!(signed_delta_arg(i64::MAX), format!("{:+}", i64::MAX));
}

#[test]
fn resize_success_rules() {
    assert!(resize_succeeded(0, 0, false, false));
    assert!(resize_succeeded(10, -3, false, true));
    assert!(resize_succeeded(10, -3, true, false));
    assert!(!resize_succeeded(10, -3, false, false));
    assert!(!resize_succeeded(10, 0, false, true));
    assert!(resize_succeeded(0, 5, false, true));
}

// -- key names and time --

#[test]
fn lowercase_lookups() {
    assert_eq!(keycode_for_lowercase_name("grave"), Some(50));
    assert_eq!(keycode_for_lowercase_name("6"), Some(22));
    assert_eq!(keycode_for_lowercase_name("Q"), None);
    assert_eq!(modifier_for_lowercase_name("command"), Some(ModifierFlags::command()));
    assert_eq!(modifier_for_lowercase_name("Cmd"), None);
    assert!(str_eq("esc", "esc"));
    assert!(!str_eq("esc", "escape"));
}

#[test]
fn modifier_flags_combine() {
    let f = ModifierFlags::alternate().union(ModifierFlags::shift());
    assert!(f.contains(ModifierFlags::shift()));
    assert!(f.contains(ModifierFlags::alternate()));
    assert!(!f.contains(ModifierFlags::control()));
    assert!(f.contains(ModifierFlags::empty()));
}

#[test]
fn timestamps_measure_spans() {
    let t = start();
    let u = later(t, 250);
    assert_eq!(u.duration_since(t).nanos, 250_000_000);
    assert_eq!(t.duration_since(u).nanos, 0);
    assert_eq!(TimeSpan::from_secs(2).nanos, 2_000_000_000);
}

#[test]
fn unicode_white_space_is_trimmed() {
    assert_eq!(trim_whitespace("\u{3000}\u{2028}x\u{85}\u{200a}"), "x");
    assert_eq!(trim_whitespace("\u{200b}x"), "\u{200b}x"); // zero-width space is no White_Space
}
