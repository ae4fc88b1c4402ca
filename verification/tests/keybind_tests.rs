use bradar_de::input::{intercept_key, KeyFilter, KeyIntercept};
use bradar_de::keybinds::{launch_command, Action, Keybinds, Modifiers, KEY_1, KEY_9, KEY_ESCAPE, KEY_PRINT, KEY_Q, KEY_SPACE, KEY_T, KEY_TAB};

const SUPER: Modifiers = Modifiers { ctrl: false, shift: false, logo: true };
const SUPER_SHIFT: Modifiers = Modifiers { ctrl: false, shift: true, logo: true };
const NONE: Modifiers = Modifiers { ctrl: false, shift: false, logo: false };

fn kb() -> Keybinds {
    Keybinds::new("kitty".to_string(), "wofi --show drun".to_string())
}

#[test]
fn super_bindings() {
    let k = kb();
    assert_eq!(k.handle(KEY_ESCAPE, &SUPER), Some(Action::Quit));
    assert_eq!(k.handle(KEY_T, &SUPER), Some(Action::LaunchTerminal));
    assert_eq!(k.handle(KEY_SPACE, &SUPER), Some(Action::LaunchLauncher));
    assert_eq!(k.handle(KEY_Q, &SUPER), Some(Action::CloseWindow));
    assert_eq!(k.handle(0x6d, &SUPER), Some(Action::MaximizeWindow));
    assert_eq!(k.handle(0x68, &SUPER), Some(Action::MinimizeWindow));
    assert_eq!(k.handle(KEY_TAB, &SUPER), Some(Action::FocusNext));
    assert_eq!(k.handle(0x61, &SUPER), None);
}

#[test]
fn workspace_digits() {
    let k = kb();
    assert_eq!(k.handle(KEY_1, &SUPER), Some(Action::SwitchWorkspace(0)));
    assert_eq!(k.handle(0x35, &SUPER), Some(Action::SwitchWorkspace(4)));
    assert_eq!(k.handle(KEY_9, &SUPER), Some(Action::SwitchWorkspace(8)));
    assert_eq!(k.handle(0x30, &SUPER), None);
    assert_eq!(k.handle(KEY_1, &SUPER_SHIFT), Some(Action::MoveWindowToWorkspace(0)));
    assert_eq!(k.handle(0x33, &SUPER_SHIFT), Some(Action::MoveWindowToWorkspace(2)));
    assert_eq!(k.handle(0x34, &SUPER_SHIFT), Some(Action::MoveWindowToWorkspace(3)));
    assert_eq!(k.handle(KEY_9, &SUPER_SHIFT), Some(Action::MoveWindowToWorkspace(8)));
    assert_eq!(k.handle(0x30, &SUPER_SHIFT), None);
}

#[test]
fn shifted_and_plain_bindings() {
    let k = kb();
    assert_eq!(k.handle(KEY_TAB, &SUPER_SHIFT), Some(Action::FocusPrev));
    assert_eq!(k.handle(KEY_ESCAPE, &SUPER_SHIFT), None);
    assert_eq!(k.handle(KEY_PRINT, &NONE), Some(Action::Screenshot));
    assert_eq!(k.handle(KEY_PRINT, &Modifiers { ctrl: false, shift: true, logo: false }), None);
    assert_eq!(k.handle(KEY_T, &NONE), None);
    assert_eq!(k.handle(KEY_T, &Modifiers { ctrl: true, shift: false, logo: true }), None);
}

#[test]
fn launch_command_splits_words() {
    let c = launch_command("  wofi\t--show   drun\n").unwrap();
    assert_eq!(c.program, "wofi");
    assert_eq!(c.args, vec!["--show".to_string(), "drun".to_string()]);
    let c = launch_command("kitty").unwrap();
    assert_eq!(c.program, "kitty");
    assert!(c.args.is_empty());
    assert!(launch_command("").is_none());
    assert!(launch_command(" \u{3000}\t ").is_none());
    let c = launch_command("a\u{a0}b").unwrap();
    assert_eq!((c.program.as_str(), c.args.len()), ("a", 1));
}

#[test]
fn launch_bindings_use_configured_commands() {
    let k = kb();
    let t = k.launch_terminal().unwrap();
    assert_eq!((t.program.as_str(), t.args.len()), ("kitty", 0));
    let l = k.launch_launcher().unwrap();
    assert_eq!(l.program, "wofi");
    assert_eq!(l.args, vec!["--show".to_string(), "drun".to_string()]);
    let blank = Keybinds::new(String::new(), "   ".to_string());
    assert!(blank.launch_terminal().is_none());
    assert!(blank.launch_launcher().is_none());
}

#[test]
fn compositor_intercepts_super_keys() {
    assert_eq!(intercept_key(true, KEY_ESCAPE, true), KeyFilter::Act(KeyIntercept::Quit));
    assert_eq!(intercept_key(true, KEY_T, true), KeyFilter::Act(KeyIntercept::LaunchTerminal));
    assert_eq!(intercept_key(true, KEY_Q, true), KeyFilter::Act(KeyIntercept::CloseWindow));
    assert_eq!(intercept_key(false, KEY_ESCAPE, true), KeyFilter::Forward);
    assert_eq!(intercept_key(true, KEY_SPACE, true), KeyFilter::Forward);
}

#[test]
fn kept_keys_act_on_press_only() {
    assert_eq!(intercept_key(true, KEY_T, false), KeyFilter::Swallow);
    assert_eq!(intercept_key(true, KEY_Q, false), KeyFilter::Swallow);
    assert_eq!(intercept_key(false, KEY_T, false), KeyFilter::Forward);
    let stroke = [intercept_key(true, KEY_T, true), intercept_key(true, KEY_T, false)];
    let launches = stroke.iter().filter(|f| **f == KeyFilter::Act(KeyIntercept::LaunchTerminal)).count();
    assert_eq!(launches, 1);
}
