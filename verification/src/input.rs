use vstd::prelude::*;

use crate::keybinds::{KEY_ESCAPE, KEY_Q, KEY_T};

verus! {

/// Keys the compositor takes for itself instead of passing them to the focused client.
#[derive(Clone, Copy, Debug, PartialEq, Eq, Structural)]
pub enum KeyIntercept {
    Quit,
    LaunchTerminal,
    CloseWindow,
}

/// What happens to a key event: it goes to the client, the compositor swallows it, or the
/// compositor swallows it and acts on it.
#[derive(Clone, Copy, Debug, PartialEq, Eq, Structural)]
pub enum KeyFilter {
    Forward,
    Swallow,
    Act(KeyIntercept),
}

/// The key the compositor keeps: with Super held, Escape quits, T starts the terminal
/// and Q closes the top window, whatever other modifiers are held.
pub open spec fn kept_key(super_key: bool, keysym: u32) -> Option<KeyIntercept> {
    if super_key && keysym == KEY_ESCAPE {
        Some(KeyIntercept::Quit)
    } else if super_key && keysym == KEY_T {
        Some(KeyIntercept::LaunchTerminal)
    } else if super_key && keysym == KEY_Q {
        Some(KeyIntercept::CloseWindow)
    } else {
        None
    }
}

/// A kept key acts once, when it is pressed; its release is swallowed too.
/// Every other key goes to the client.
pub open spec fn intercept_spec(super_key: bool, keysym: u32, pressed: bool) -> KeyFilter {
    match kept_key(super_key, keysym) {
        Some(k) => if pressed {
            KeyFilter::Act(k)
        } else {
            KeyFilter::Swallow
        },
        None => KeyFilter::Forward,
    }
}

/// Decides what becomes of a key event.
pub fn intercept_key(super_key: bool, keysym: u32, pressed: bool) -> (r: KeyFilter)
    ensures
        r == intercept_spec(super_key, keysym, pressed),
{
    let kept = if super_key && keysym == KEY_ESCAPE {
        Some(KeyIntercept::Quit)
    } else if super_key && keysym == KEY_T {
        Some(KeyIntercept::LaunchTerminal)
    } else if super_key && keysym == KEY_Q {
        Some(KeyIntercept::CloseWindow)
    } else {
        None
    };
    match kept {
        Some(k) => if pressed {
            KeyFilter::Act(k)
        } else {
            KeyFilter::Swallow
        },
        None => KeyFilter::Forward,
    }
}

/// Law: a key stroke (press then release) of a kept key acts exactly once.
pub proof fn law_one_action_per_stroke(super_key: bool, keysym: u32)
    ensures
        kept_key(super_key, keysym) matches Some(k) ==> intercept_spec(super_key, keysym, true) == KeyFilter::Act(k)
            && intercept_spec(super_key, keysym, false) == KeyFilter::Swallow,
        kept_key(super_key, keysym) is None ==> intercept_spec(super_key, keysym, true) == KeyFilter::Forward
            && intercept_spec(super_key, keysym, false) == KeyFilter::Forward,
{
}

/// Law: the compositor keeps only Super+Escape, Super+T and Super+Q: without Super every
/// key goes to the client; a kept key is one of those three, and it quits, starts the
/// terminal or closes the window respectively; keeping never depends on other modifiers.
pub proof fn law_only_super_keys_kept(super_key: bool, keysym: u32, pressed: bool)
    ensures
        !super_key ==> intercept_spec(super_key, keysym, pressed) == KeyFilter::Forward,
        keysym != KEY_ESCAPE && keysym != KEY_T && keysym != KEY_Q ==> intercept_spec(super_key, keysym, pressed)
            == KeyFilter::Forward,
        intercept_spec(super_key, keysym, pressed) == KeyFilter::Act(KeyIntercept::Quit) ==> super_key && pressed
            && keysym == KEY_ESCAPE,
        intercept_spec(super_key, keysym, pressed) == KeyFilter::Act(KeyIntercept::LaunchTerminal) ==> super_key
            && pressed && keysym == KEY_T,
        intercept_spec(super_key, keysym, pressed) == KeyFilter::Act(KeyIntercept::CloseWindow) ==> super_key
            && pressed && keysym == KEY_Q,
        super_key && (keysym == KEY_ESCAPE || keysym == KEY_T || keysym == KEY_Q) ==> intercept_spec(
            super_key,
            keysym,
            pressed,
        ) != KeyFilter::Forward,
{
}

} // verus!
