//! The menu of the tray icon: how the receiver is reached once its window is out of the way.

use vstd::prelude::*;

verus! {

/// Icons are small; the mark is drawn into a square of this side.
pub const ICON_SIZE: u32 = 32;

/// What the person picked.
#[derive(Debug, Clone, Copy, PartialEq, Eq, Structural)]
pub enum Choice {
    ShowHide,
    Borderless,
    StartAtLogin,
    Quit,
}

impl Choice {
    /// What an entry of the menu says while the window is shown or not.
    pub open spec fn entry(self, window_shown: bool) -> Seq<char> {
        match self {
            Choice::ShowHide => if window_shown {
                "Hide window"@
            } else {
                "Show window"@
            },
            Choice::Borderless => "Borderless"@,
            Choice::StartAtLogin => "Start at login"@,
            Choice::Quit => "Quit"@,
        }
    }

    /// What an entry of the menu says: it stays honest about what the window is doing.
    pub fn label(self, window_shown: bool) -> (label: &'static str)
        ensures
            label@ == self.entry(window_shown),
    {
        match self {
            Choice::ShowHide => if window_shown {
                "Hide window"
            } else {
                "Show window"
            },
            Choice::Borderless => "Borderless",
            Choice::StartAtLogin => "Start at login",
            Choice::Quit => "Quit",
        }
    }
}

/// The entry for the window offers what the window is not, and the others always say the same.
pub proof fn the_menu_is_honest(shown: bool)
    ensures
        Choice::ShowHide.entry(true) == "Hide window"@,
        Choice::ShowHide.entry(false) == "Show window"@,
        Choice::Borderless.entry(shown) == "Borderless"@,
        Choice::StartAtLogin.entry(shown) == "Start at login"@,
        Choice::Quit.entry(shown) == "Quit"@,
        ICON_SIZE == 32,
{
}

} // verus!
