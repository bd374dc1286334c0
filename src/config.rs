use vstd::prelude::*;

verus! {

/// Smallest font scale, in percent.
pub const FONT_SCALE_MIN: u32 = 10;

/// Largest font scale, in percent.
pub const FONT_SCALE_MAX: u32 = 1000;

/// Font scale at startup and after a reset, in percent.
pub const FONT_SCALE_DEFAULT: u32 = 100;

/// Change of the font scale per step, in percent.
pub const FONT_SCALE_STEP: u32 = 10;

/// Background alpha of an opaque terminal.
pub const ALPHA_OPAQUE: u8 = 255;

/// When the strip of tabs is shown.
#[derive(Clone, Copy, Debug, PartialEq, Eq, Structural)]
pub enum TabMode {
    /// Always shown.
    Always,
    /// Shown when at least two tabs are open.
    Auto,
    /// Never shown.
    Never,
}

/// What happens when the last tab is closed.
#[derive(Clone, Copy, Debug, PartialEq, Eq, Structural)]
pub enum LastTabExitBehavior {
    /// Open a new tab and focus it.
    RestartTerminal,
    /// Open a new tab without focus, then hide the window.
    RestartTerminalAndHide,
    /// Close the window.
    Exit,
}

/// The part of the configuration that the tab bookkeeping reads.
#[derive(Clone, Debug, PartialEq, Eq)]
pub struct ZohaCfg {
    pub tab_mode: TabMode,
    /// Whether going past the last (or first) tab wraps around.
    pub tab_scroll_wrap: bool,
    /// Character budget of the working directory in a tab label:
    /// positive keeps the trailing characters, negative the leading ones.
    pub tab_title_num_characters: Option<i32>,
    pub last_tab_exit_behavior: LastTabExitBehavior,
    /// Working directory of a session that inherits none.
    pub working_dir: Option<String>,
    /// Background alpha used while transparency is enabled.
    pub bg_alpha: u8,
    /// Whether the window starts in fullscreen.
    pub fullscreen: bool,
}

/// The background alpha that every session shows, given the transparency flag.
pub open spec fn background_alpha(cfg_alpha: u8, transparency_enabled: bool) -> u8 {
    if transparency_enabled {
        cfg_alpha
    } else {
        ALPHA_OPAQUE
    }
}

/// The background alpha that every session shows, given the transparency flag.
pub fn bg_alpha_for(cfg: &ZohaCfg, transparency_enabled: bool) -> (r: u8)
    ensures
        r == background_alpha(cfg.bg_alpha, transparency_enabled),
{
    if transparency_enabled {
        cfg.bg_alpha
    } else {
        ALPHA_OPAQUE
    }
}

} // verus!
