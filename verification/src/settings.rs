use vstd::prelude::*;
use crate::color::{BgColor, Color, FgColor};

verus! {

/// The editor's settings.
pub struct Settings {
    pub display: DisplaySettings,
    pub debug: DebugSettings,
}

/// Settings for debugging.
pub struct DebugSettings {
    pub write_writes: bool,
}

/// The colors of the display.
pub struct DisplaySettings {
    pub fg: FgColor,
    pub bg: BgColor,
}

impl Default for Settings {
    /// White on black, no debugging.
    fn default() -> (s: Self)
        ensures
            s.display.fg == Color::White,
            s.display.bg == Color::Black,
            !s.debug.write_writes,
    {
        Settings {
            display: DisplaySettings { fg: Color::White, bg: Color::Black },
            debug: DebugSettings { write_writes: false },
        }
    }
}

} // verus!
