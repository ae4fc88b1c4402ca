use vstd::prelude::*;

verus! {

/// The user's settings.
pub struct Config {
    pub keybinds: Keybinds,
    pub theme: Theme,
}

/// Commands started from key bindings.
pub struct Keybinds {
    pub terminal: String,
}

/// Colours (as `#rrggbb` text) and corner rounding.
pub struct Theme {
    pub background: String,
    pub border_active: String,
    pub border_inactive: String,
    pub rounding: u32,
}

/// Settings of the top bar.
pub struct BarConfig {
    pub enabled: bool,
    pub height: u32,
    pub clock_format: String,
}

impl Default for Config {
    /// kitty as the terminal, a dark theme with blue active borders, rounding 12.
    fn default() -> (c: Config)
        ensures
            c.keybinds.terminal@ == "kitty"@,
            c.theme.background@ == "#0f0f14"@,
            c.theme.border_active@ == "#7aa2f7"@,
            c.theme.border_inactive@ == "#2a2a3a"@,
            c.theme.rounding == 12,
    {
        Config {
            keybinds: Keybinds { terminal: String::from_str("kitty") },
            theme: Theme {
                background: String::from_str("#0f0f14"),
                border_active: String::from_str("#7aa2f7"),
                border_inactive: String::from_str("#2a2a3a"),
                rounding: 12,
            },
        }
    }
}

} // verus!
