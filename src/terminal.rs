use vstd::prelude::*;

verus! {

/// One terminal session as the bookkeeping sees it.
///
/// The widgets and the child process live in the user interface; the
/// session carries the stable number that identifies it there, the process
/// id once the spawn has completed, and the settings last applied to it.
#[derive(Clone, Copy, Debug, PartialEq, Eq, Structural)]
pub struct ZohaTerminal {
    /// Issued once at creation and never reused; shown in the tab label.
    pub tab_counter: u64,
    /// Process id of the child, present once the spawn has completed.
    pub pid: Option<i32>,
    /// Font scale applied to the terminal, in percent.
    pub font_scale: u32,
    /// Background alpha applied to the terminal.
    pub bg_alpha: u8,
}

impl ZohaTerminal {
    /// A fresh session, before its child process is spawned.
    pub fn new(tab_counter: u64, font_scale: u32, bg_alpha: u8) -> (r: Self)
        ensures
            r == (ZohaTerminal { tab_counter, pid: None, font_scale, bg_alpha }),
    {
        ZohaTerminal { tab_counter, pid: None, font_scale, bg_alpha }
    }

    /// Records the new font scale as applied.
    pub fn enforce_font_size(&mut self, scale: u32)
        ensures
            *final(self) == (ZohaTerminal { font_scale: scale, ..*old(self) }),
    {
        self.font_scale = scale;
    }

    /// Records the new background alpha as applied.
    pub fn enforce_transparency(&mut self, alpha: u8)
        ensures
            *final(self) == (ZohaTerminal { bg_alpha: alpha, ..*old(self) }),
    {
        self.bg_alpha = alpha;
    }
}

/// The directory a new child starts in: the inherited one when known,
/// else the configured default.
pub open spec fn spawn_dir_of(
    inherited: Option<Seq<char>>,
    default: Option<Seq<char>>,
) -> Option<Seq<char>> {
    if inherited is Some {
        inherited
    } else {
        default
    }
}

pub open spec fn opt_view(s: Option<String>) -> Option<Seq<char>> {
    match s {
        Some(t) => Some(t@),
        None => None,
    }
}

/// Picks the working directory of a new child process.
pub fn spawn_dir(inherited: Option<String>, default: &Option<String>) -> (r: Option<String>)
    ensures
        opt_view(r) == spawn_dir_of(opt_view(inherited), opt_view(*default)),
{
    match inherited {
        Some(d) => Some(d),
        None => match default {
            Some(d) => Some(d.clone()),
            None => None,
        },
    }
}

} // verus!
