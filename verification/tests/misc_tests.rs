use bradar_de::animation::{AnimKind, WindowAnimPlan};
use bradar_de::config::Config;
use bradar_de::geometry::{contains, half_i32, sat_add, u32_to_i32, Rect};
use bradar_de::text::{char_is_whitespace, split_whitespace, str_equals};

#[test]
fn default_config() {
    let c = Config::default();
    assert_eq!(c.keybinds.terminal, "kitty");
    assert_eq!(c.theme.background, "#0f0f14");
    assert_eq!(c.theme.border_active, "#7aa2f7");
    assert_eq!(c.theme.border_inactive, "#2a2a3a");
    assert_eq!(c.theme.rounding, 12);
}

#[test]
fn rect_contains_is_half_open() {
    let r = Rect { x: 10, y: 20, w: 5, h: 5 };
    assert!(contains(r, 10, 20));
    assert!(contains(r, 14, 24));
    assert!(!contains(r, 15, 24));
    assert!(!contains(r, 14, 25));
    assert!(!contains(r, 9, 20));
    let far = Rect { x: i32::MAX - 1, y: 0, w: 10, h: 1 };
    assert!(contains(far, i32::MAX - 1, 0));
    assert!(!contains(far, i32::MAX, 0));
}

#[test]
fn integer_helpers() {
    assert_eq!(half_i32(-5), -2);
    assert_eq!(half_i32(5), 2);
    assert_eq!(half_i32(i32::MIN), i32::MIN / 2);
    assert_eq!(sat_add(i32::MAX, 1), i32::MAX);
    assert_eq!(sat_add(i32::MIN, -1), i32::MIN);
    assert_eq!(u32_to_i32(u32::MAX), -1);
    assert_eq!(u32_to_i32(7), 7);
}

#[test]
fn text_helpers() {
    assert!(str_equals("tiling", "tiling"));
    assert!(!str_equals("tiling", "tilinG"));
    assert!(!str_equals("ab", "abc"));
    assert_eq!(split_whitespace(" a  bc\td "), vec!["a".to_string(), "bc".to_string(), "d".to_string()]);
    assert!(split_whitespace("").is_empty());
}

#[test]
fn plan_kinds() {
    assert_eq!(WindowAnimPlan::Open { duration_ms: 1 }.kind(), AnimKind::Open);
    assert_eq!(WindowAnimPlan::Close { duration_ms: 1 }.kind(), AnimKind::Close);
    assert_eq!(
        WindowAnimPlan::Move { from_x: 0, to_x: 1, from_y: 0, to_y: 1, duration_ms: 1 }.kind(),
        AnimKind::Move
    );
}

#[test]
fn white_space_matches_std() {
    for c in (0..=0x10FFFFu32).filter_map(char::from_u32) {
        assert_eq!(char_is_whitespace(c), c.is_whitespace(), "{:?}", c);
    }
}
