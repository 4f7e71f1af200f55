//! The two screens beside the board: the one that is shown while the match
//! is paused, and the one that names the winner.

use vstd::prelude::*;
use crate::game_events::{Input, Signal, BOARD_STATE, GREEN_WINS};

verus! {

/// The screen that is shown while the match is paused.
#[derive(Debug, Clone, Copy, PartialEq, Eq, Structural)]
pub struct PauseState {}

impl PauseState {
    /// The pause screen.
    pub fn new() -> (screen: PauseState) {
        PauseState {  }
    }

    /// Reacts to what the player did: closing the window asks to quit, the
    /// escape key goes back to the board, everything else changes nothing.
    pub fn handle_event(&self, input: Input) -> (signal: Signal)
        ensures
            signal == match input {
                Input::Quit => Signal::Quit,
                Input::Escape => Signal::GotoState(BOARD_STATE),
                _ => Signal::Continue,
            },
    {
        match input {
            Input::Quit => Signal::Quit,
            Input::Escape => Signal::GotoState(BOARD_STATE),
            _ => Signal::Continue,
        }
    }

    /// A paused match stays paused.
    pub fn update(&self) -> (signal: Signal)
        ensures
            signal == Signal::Continue,
    {
        Signal::Continue
    }
}

/// The screen that names the winner.
#[derive(Debug, Clone, Copy, PartialEq, Eq, Structural)]
pub struct WinState {
    is_green_win: bool,
}

impl WinState {
    /// True when the screen names green as the winner.
    pub closed spec fn green_won(&self) -> bool {
        self.is_green_win
    }

    /// The screen before it was told who won; it names red until then.
    pub fn new() -> (screen: WinState)
        ensures
            !screen.green_won(),
    {
        WinState { is_green_win: false }
    }

    /// True when the screen names green as the winner.
    pub fn is_green_win(&self) -> (green: bool)
        ensures
            green == self.green_won(),
    {
        self.is_green_win
    }

    /// Reacts to what happened: closing the window and the escape key both
    /// ask to quit; the announcement of the winner is taken down; everything
    /// else changes nothing.
    pub fn handle_event(&mut self, input: Input) -> (signal: Signal)
        ensures
            signal == match input {
                Input::Quit => Signal::Quit,
                Input::Escape => Signal::Quit,
                _ => Signal::Continue,
            },
            final(self).green_won() == match input {
                Input::Win(event) => event.color == GREEN_WINS,
                _ => old(self).green_won(),
            },
    {
        match input {
            Input::Quit | Input::Escape => Signal::Quit,
            Input::Win(event) => {
                self.is_green_win = event.is_green();
                Signal::Continue
            },
            _ => Signal::Continue,
        }
    }

    /// The winner stays on the screen.
    pub fn update(&self) -> (signal: Signal)
        ensures
            signal == Signal::Continue,
    {
        Signal::Continue
    }
}

} // verus!
