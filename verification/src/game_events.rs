//! Values that the board screen hands to its host: the winner's colour and
//! the signal that steers the host's screen machine.

use vstd::prelude::*;

verus! {

/// Code carried by a [`WinColorEvent`] for a green win.
pub const GREEN_WINS: i32 = 1;

/// Code carried by a [`WinColorEvent`] for a red win.
pub const RED_WINS: i32 = 0;

/// Announces which colour has won the match.
#[derive(Debug, Clone, Copy, PartialEq, Eq, Structural)]
pub struct WinColorEvent {
    pub color: i32,
}

impl WinColorEvent {
    /// True when the event announces a green win.
    pub fn is_green(&self) -> (green: bool)
        ensures
            green == (self.color == GREEN_WINS),
    {
        self.color == GREEN_WINS
    }

    /// The event for a green win.
    pub fn new_green() -> (event: WinColorEvent)
        ensures
            event.color == GREEN_WINS,
    {
        WinColorEvent { color: GREEN_WINS }
    }

    /// The event for a red win.
    pub fn new_red() -> (event: WinColorEvent)
        ensures
            event.color == RED_WINS,
    {
        WinColorEvent { color: RED_WINS }
    }
}

/// Index of the screen that shows the board.
pub const BOARD_STATE: usize = 0;

/// Index of the screen that names the winner.
pub const WIN_STATE: usize = 1;

/// Index of the screen that is shown while the match is paused.
pub const PAUSE_STATE: usize = 2;

/// What the player did, as far as the screens care.
#[derive(Debug, Clone, Copy, PartialEq, Eq, Structural)]
pub enum Input {
    /// The window was closed.
    Quit,
    /// The escape key went down.
    Escape,
    /// The left button of the pointer went down at this point of the screen.
    LeftClick { x: i32, y: i32 },
    /// The board screen announced the winner.
    Win(WinColorEvent),
    /// Anything else.
    Other,
}

/// What a screen asks of the machine that runs it.
#[derive(Debug, Clone, Copy, PartialEq, Eq, Structural)]
pub enum Signal {
    /// Leave the program.
    Quit,
    /// Switch to the screen with this index.
    GotoState(usize),
    /// Stay on the current screen.
    Continue,
}

} // verus!
