use vstd::prelude::*;

use crate::text::{is_white_space, joined, law_words_clean, law_words_cover, non_white, split_whitespace, words};

verus! {

/// Keysym of the Escape key.
pub const KEY_ESCAPE: u32 = 0xff1b;
/// Keysym of the Tab key.
pub const KEY_TAB: u32 = 0xff09;
/// Keysym of the Print Screen key.
pub const KEY_PRINT: u32 = 0xff61;
/// Keysym of the space bar.
pub const KEY_SPACE: u32 = 0x0020;
/// Keysym of the digit 1; the digits 1 to 9 follow it.
pub const KEY_1: u32 = 0x0031;
/// Keysym of the digit 9.
pub const KEY_9: u32 = 0x0039;
/// Keysym of the letter h.
pub const KEY_H: u32 = 0x0068;
/// Keysym of the letter m.
pub const KEY_M: u32 = 0x006d;
/// Keysym of the letter q.
pub const KEY_Q: u32 = 0x0071;
/// Keysym of the letter t.
pub const KEY_T: u32 = 0x0074;

/// What a key binding asks the desktop to do.
#[derive(Clone, Copy, Debug, PartialEq, Eq, Structural)]
pub enum Action {
    Quit,
    LaunchTerminal,
    LaunchLauncher,
    CloseWindow,
    MaximizeWindow,
    MinimizeWindow,
    SwitchWorkspace(usize),
    MoveWindowToWorkspace(usize),
    FocusNext,
    FocusPrev,
    Screenshot,
}

/// The modifier keys held while a key is pressed (`logo` is the Super key).
#[derive(Clone, Copy, Debug, PartialEq, Eq, Structural)]
pub struct Modifiers {
    pub ctrl: bool,
    pub shift: bool,
    pub logo: bool,
}

/// A program to start and its arguments.
pub struct LaunchCommand {
    pub program: String,
    pub args: Vec<String>,
}

/// The commands behind the launch bindings.
pub struct Keybinds {
    pub terminal_cmd: String,
    pub launcher_cmd: String,
}

/// The binding table. With Super alone: Escape quits, T and Space launch, Q, M and H
/// close, maximize and minimize, Tab focuses the next window and 1 to 9 switch to
/// workspaces 0 to 8. With Super and Shift: Tab focuses the previous window and 1 to 9
/// move the window to workspaces 0 to 8. With no modifier, Print takes a screenshot.
pub open spec fn binding(logo: bool, shift: bool, ctrl: bool, keysym: u32) -> Option<Action> {
    if ctrl {
        None
    } else if logo && !shift {
        if keysym == KEY_ESCAPE {
            Some(Action::Quit)
        } else if keysym == KEY_T {
            Some(Action::LaunchTerminal)
        } else if keysym == KEY_SPACE {
            Some(Action::LaunchLauncher)
        } else if keysym == KEY_Q {
            Some(Action::CloseWindow)
        } else if keysym == KEY_M {
            Some(Action::MaximizeWindow)
        } else if keysym == KEY_H {
            Some(Action::MinimizeWindow)
        } else if keysym == KEY_TAB {
            Some(Action::FocusNext)
        } else if KEY_1 <= keysym <= KEY_9 {
            Some(Action::SwitchWorkspace((keysym - KEY_1) as usize))
        } else {
            None
        }
    } else if logo && shift {
        if keysym == KEY_TAB {
            Some(Action::FocusPrev)
        } else if KEY_1 <= keysym <= KEY_9 {
            Some(Action::MoveWindowToWorkspace((keysym - KEY_1) as usize))
        } else {
            None
        }
    } else if !logo && !shift && keysym == KEY_PRINT {
        Some(Action::Screenshot)
    } else {
        None
    }
}

/// The program and arguments that `cmd` names: its first word and the rest, if any.
pub open spec fn launch_spec(cmd: Seq<char>, r: Option<LaunchCommand>) -> bool {
    let w = words(cmd);
    match r {
        None => w.len() == 0,
        Some(c) => {
            &&& w.len() > 0
            &&& c.program@ == w[0]
            &&& c.args@.len() == w.len() - 1
            &&& forall|i: int| 0 <= i < c.args@.len() ==> #[trigger] c.args@[i]@ == w[i + 1]
        },
    }
}

/// Splits a command line into the program and its arguments; `None` when it is blank.
pub fn launch_command(cmd: &str) -> (r: Option<LaunchCommand>)
    ensures
        launch_spec(cmd@, r),
{
    let mut parts = split_whitespace(cmd);
    if parts.len() == 0 {
        return None;
    }
    let ghost all = parts@;
    let program = parts.remove(0);
    proof {
        assert(parts@ =~= all.subrange(1, all.len() as int));
    }
    Some(LaunchCommand { program, args: parts })
}

impl Keybinds {
    pub fn new(terminal: String, launcher: String) -> (k: Keybinds)
        ensures
            k.terminal_cmd == terminal,
            k.launcher_cmd == launcher,
    {
        Keybinds { terminal_cmd: terminal, launcher_cmd: launcher }
    }

    /// The action bound to `keysym` under `modifiers`, if any.
    pub fn handle(&self, keysym: u32, modifiers: &Modifiers) -> (r: Option<Action>)
        ensures
            r == binding(modifiers.logo, modifiers.shift, modifiers.ctrl, keysym),
    {
        let super_key = modifiers.logo;
        let shift = modifiers.shift;
        let ctrl = modifiers.ctrl;
        if ctrl {
            return None;
        }
        if super_key && !shift {
            if keysym == KEY_ESCAPE {
                Some(Action::Quit)
            } else if keysym == KEY_T {
                Some(Action::LaunchTerminal)
            } else if keysym == KEY_SPACE {
                Some(Action::LaunchLauncher)
            } else if keysym == KEY_Q {
                Some(Action::CloseWindow)
            } else if keysym == KEY_M {
                Some(Action::MaximizeWindow)
            } else if keysym == KEY_H {
                Some(Action::MinimizeWindow)
            } else if keysym == KEY_TAB {
                Some(Action::FocusNext)
            } else if KEY_1 <= keysym && keysym <= KEY_9 {
                Some(Action::SwitchWorkspace((keysym - KEY_1) as usize))
            } else {
                None
            }
        } else if super_key && shift {
            if keysym == KEY_TAB {
                Some(Action::FocusPrev)
            } else if KEY_1 <= keysym && keysym <= KEY_9 {
                Some(Action::MoveWindowToWorkspace((keysym - KEY_1) as usize))
            } else {
                None
            }
        } else if !shift && keysym == KEY_PRINT {
            Some(Action::Screenshot)
        } else {
            None
        }
    }

    /// The command that starts the terminal; `None` when it is blank.
    pub fn launch_terminal(&self) -> (r: Option<LaunchCommand>)
        ensures
            launch_spec(self.terminal_cmd@, r),
    {
        launch_command(self.terminal_cmd.as_str())
    }

    /// The command that starts the application launcher; `None` when it is blank.
    pub fn launch_launcher(&self) -> (r: Option<LaunchCommand>)
        ensures
            launch_spec(self.launcher_cmd@, r),
    {
        launch_command(self.launcher_cmd.as_str())
    }
}

/// Law: Super and the digit `d` (1 to 9) switch to workspace `d - 1`; with Shift added,
/// they move the window to workspace `d - 1`.
pub proof fn law_digit_bindings(d: u32)
    requires
        1 <= d <= 9,
    ensures
        binding(true, false, false, (KEY_1 + d - 1) as u32) == Some(Action::SwitchWorkspace((d - 1) as usize)),
        binding(true, true, false, (KEY_1 + d - 1) as u32) == Some(Action::MoveWindowToWorkspace((d - 1) as usize)),
{
}

/// Law: a command that is not blank starts a program whose name and arguments
/// are non-empty and free of white space.
pub proof fn law_launch_words(cmd: Seq<char>, r: Option<LaunchCommand>)
    requires
        launch_spec(cmd, r),
    ensures
        r matches Some(c) ==> c.program@.len() > 0 && forall|i: int| 0 <= i < c.args@.len() ==> #[trigger] c.args@[i]@.len() > 0,
        r matches Some(c) ==> forall|j: int| 0 <= j < c.program@.len() ==> !is_white_space(#[trigger] c.program@[j]),
{
    law_words_clean(cmd);
    if let Some(c) = r {
        assert forall|i: int| 0 <= i < c.args@.len() implies #[trigger] c.args@[i]@.len() > 0 by {
            assert(c.args@[i]@ == words(cmd)[i + 1]);
        }
    }
}

/// Law: every action has exactly the trigger the binding table documents. Ctrl disables
/// every binding; Quit, the launches, close, maximize, minimize, next-window and the
/// workspace switches need Super alone; the previous-window and move-to-workspace
/// bindings need Super and Shift; the screenshot needs no modifier. With Super and Shift
/// only Tab and the digits are bound.
pub proof fn law_binding_triggers(logo: bool, shift: bool, ctrl: bool, k: u32)
    ensures
        ctrl ==> binding(logo, shift, ctrl, k) is None,
        logo && shift && binding(logo, shift, ctrl, k) is Some ==> k == KEY_TAB || (KEY_1 <= k <= KEY_9),
        binding(logo, shift, ctrl, k) == Some(Action::Quit) ==> logo && !shift && !ctrl && k == KEY_ESCAPE,
        binding(logo, shift, ctrl, k) == Some(Action::LaunchTerminal) ==> logo && !shift && !ctrl && k == KEY_T,
        binding(logo, shift, ctrl, k) == Some(Action::LaunchLauncher) ==> logo && !shift && !ctrl && k == KEY_SPACE,
        binding(logo, shift, ctrl, k) == Some(Action::CloseWindow) ==> logo && !shift && !ctrl && k == KEY_Q,
        binding(logo, shift, ctrl, k) == Some(Action::MaximizeWindow) ==> logo && !shift && !ctrl && k == KEY_M,
        binding(logo, shift, ctrl, k) == Some(Action::MinimizeWindow) ==> logo && !shift && !ctrl && k == KEY_H,
        binding(logo, shift, ctrl, k) == Some(Action::FocusNext) ==> logo && !shift && !ctrl && k == KEY_TAB,
        binding(logo, shift, ctrl, k) == Some(Action::FocusPrev) ==> logo && shift && !ctrl && k == KEY_TAB,
        binding(logo, shift, ctrl, k) == Some(Action::Screenshot) ==> !logo && !shift && !ctrl && k == KEY_PRINT,
        binding(logo, shift, ctrl, k) matches Some(Action::SwitchWorkspace(w)) ==> logo && !shift && !ctrl && w < 9
            && k == KEY_1 + w,
        binding(logo, shift, ctrl, k) matches Some(Action::MoveWindowToWorkspace(w)) ==> logo && shift && !ctrl && w < 9
            && k == KEY_1 + w,
        logo && !shift && !ctrl && k == KEY_ESCAPE ==> binding(logo, shift, ctrl, k) == Some(Action::Quit),
        logo && !shift && !ctrl && k == KEY_T ==> binding(logo, shift, ctrl, k) == Some(Action::LaunchTerminal),
        logo && !shift && !ctrl && k == KEY_SPACE ==> binding(logo, shift, ctrl, k) == Some(Action::LaunchLauncher),
        logo && !shift && !ctrl && k == KEY_Q ==> binding(logo, shift, ctrl, k) == Some(Action::CloseWindow),
        logo && !shift && !ctrl && k == KEY_M ==> binding(logo, shift, ctrl, k) == Some(Action::MaximizeWindow),
        logo && !shift && !ctrl && k == KEY_H ==> binding(logo, shift, ctrl, k) == Some(Action::MinimizeWindow),
        logo && !shift && !ctrl && k == KEY_TAB ==> binding(logo, shift, ctrl, k) == Some(Action::FocusNext),
        logo && shift && !ctrl && k == KEY_TAB ==> binding(logo, shift, ctrl, k) == Some(Action::FocusPrev),
        !logo && !shift && !ctrl && k == KEY_PRINT ==> binding(logo, shift, ctrl, k) == Some(Action::Screenshot),
{
}

/// Law: the program and its arguments, run together in order, are exactly the characters of
/// the command line that are not white space; a blank command line starts nothing.
pub proof fn law_launch_keeps_text(cmd: Seq<char>, r: Option<LaunchCommand>)
    requires
        launch_spec(cmd, r),
    ensures
        r matches Some(c) ==> joined(seq![c.program@] + c.args@.map_values(|a: String| a@)) == non_white(cmd),
        r is None ==> non_white(cmd).len() == 0,
{
    law_words_cover(cmd);
    if let Some(c) = r {
        let parts = seq![c.program@] + c.args@.map_values(|a: String| a@);
        assert(parts =~= words(cmd));
    } else {
        assert(words(cmd) =~= Seq::<Seq<char>>::empty());
    }
}

} // verus!
