//! The machine that runs the screens of the program: it keeps the screens
//! in order, knows which one is current, and follows the signals that the
//! current screen gives.

use vstd::prelude::*;
use crate::game_events::Signal;

verus! {

/// Why the machine cannot go on.
#[derive(Debug, Clone, Copy, PartialEq, Eq, Structural)]
pub enum RuntimeError {
    /// The current index names no screen.
    NoSuchState(usize),
}

/// What the machine does after a signal.
#[derive(Debug, Clone, Copy, PartialEq, Eq, Structural)]
pub enum Flow {
    /// Leave the program.
    Stop,
    /// Another screen is current now: prepare it and start its loop.
    Restart,
    /// Go on with the current screen.
    Proceed,
}

/// The mathematical content of a [`Runtime`].
pub struct Machine<T> {
    /// The screens, in the order in which they were added.
    pub states: Seq<T>,
    /// Index of the current screen.
    pub current_index: usize,
}

impl<T> Machine<T> {
    /// The machine after it followed a signal: a request for another screen
    /// makes that screen current, whether it exists or not.
    pub open spec fn followed(self, signal: Signal) -> Machine<T> {
        match signal {
            Signal::GotoState(index) => Machine { current_index: index, ..self },
            _ => self,
        }
    }
}

/// What the machine does after a signal.
pub open spec fn flow_of(signal: Signal) -> Flow {
    match signal {
        Signal::Quit => Flow::Stop,
        Signal::GotoState(_) => Flow::Restart,
        Signal::Continue => Flow::Proceed,
    }
}

/// The screens of the program and the index of the current one.
pub struct Runtime<T> {
    states: Vec<T>,
    current_index: usize,
}

impl<T> View for Runtime<T> {
    type V = Machine<T>;

    closed spec fn view(&self) -> Machine<T> {
        Machine { states: self.states@, current_index: self.current_index }
    }
}

impl<T> Runtime<T> {
    /// A machine without screens. The first screen added will be current.
    pub fn new() -> (runtime: Runtime<T>)
        ensures
            runtime@.states == Seq::<T>::empty(),
            runtime@.current_index == 0,
    {
        Runtime { states: Vec::new(), current_index: 0 }
    }

    /// Adds a screen after those that are there.
    pub fn add_state(&mut self, state: T)
        ensures
            final(self)@.states == old(self)@.states.push(state),
            final(self)@.current_index == old(self)@.current_index,
    {
        self.states.push(state);
    }

    /// True when the machine has no screen to run.
    pub fn is_empty(&self) -> (empty: bool)
        ensures
            empty == (self@.states.len() == 0),
    {
        self.states.len() == 0
    }

    /// Index of the current screen.
    pub fn current_index(&self) -> (index: usize)
        ensures
            index == self@.current_index,
    {
        self.current_index
    }

    /// The current screen, or an error when the current index names none.
    pub fn current_state(&self) -> (found: Result<&T, RuntimeError>)
        ensures
            match found {
                Ok(state) => self@.current_index < self@.states.len() && *state
                    == self@.states[self@.current_index as int],
                Err(error) => self@.current_index >= self@.states.len() && error
                    == RuntimeError::NoSuchState(self@.current_index),
            },
    {
        if self.current_index < self.states.len() {
            Ok(&self.states[self.current_index])
        } else {
            Err(RuntimeError::NoSuchState(self.current_index))
        }
    }

    /// The current screen, to work on, or an error when the current index
    /// names none. Whatever is done to the screen, the others and the
    /// current index stay as they are.
    pub fn current_state_mut(&mut self) -> (found: Result<&mut T, RuntimeError>)
        ensures
            match found {
                Ok(state) => {
                    &&& old(self)@.current_index < old(self)@.states.len()
                    &&& *state == old(self)@.states[old(self)@.current_index as int]
                    &&& final(self)@ == (Machine {
                        states: old(self)@.states.update(
                            old(self)@.current_index as int,
                            *final(state),
                        ),
                        ..old(self)@
                    })
                },
                Err(error) => {
                    &&& old(self)@.current_index >= old(self)@.states.len()
                    &&& error == RuntimeError::NoSuchState(old(self)@.current_index)
                    &&& final(self)@ == old(self)@
                },
            },
    {
        let current_index = self.current_index;
        if current_index < self.states.len() {
            Ok(&mut self.states[current_index])
        } else {
            Err(RuntimeError::NoSuchState(current_index))
        }
    }

    /// Follows a signal of the current screen and says what to do next.
    pub fn handle_signal(&mut self, signal: Signal) -> (flow: Flow)
        ensures
            flow == flow_of(signal),
            final(self)@ == old(self)@.followed(signal),
    {
        match signal {
            Signal::Quit => Flow::Stop,
            Signal::GotoState(index) => {
                self.current_index = index;
                Flow::Restart
            },
            Signal::Continue => Flow::Proceed,
        }
    }
}

} // verus!
