//! Single-shot promise state, shared between a connection callback and
//! the future that awaits it. The caller owns the cell and the waking;
//! the state transition logic lives here.

use vstd::prelude::*;

verus! {

/// The cell behind a one-shot promise.
#[derive(Clone, Copy, Debug, PartialEq, Eq, Structural)]
pub struct State {
    /// Whether the awaited event arrived.
    pub completed: bool,
    /// Whether it arrived well, once it did.
    pub successed: Option<bool>,
}

impl Default for State {
    /// A fresh cell: nothing arrived yet.
    fn default() -> (r: State)
        ensures
            !r.completed,
            r.successed is None,
    {
        State { completed: false, successed: None }
    }
}

impl State {
    /// Records the awaited event. Once completed, a cell never changes.
    pub fn complete(&mut self, success: bool)
        requires
            !old(self).completed,
        ensures
            final(self).completed,
            final(self).successed == Some(success),
    {
        self.completed = true;
        self.successed = Some(success);
    }

    /// What a poll of the promise decides: nothing yet, or the outcome.
    pub fn poll_outcome(&self) -> (r: Option<bool>)
        ensures
            self.completed ==> r == Some(self.successed == Some(true)),
            !self.completed ==> r is None,
    {
        if self.completed {
            match self.successed {
                Some(true) => Some(true),
                _ => Some(false),
            }
        } else {
            None
        }
    }
}

/// A one-shot promise over a state cell.
#[derive(Clone, Copy, Debug, PartialEq, Eq, Structural)]
pub struct Promise(pub State);

impl Promise {
    /// The promise's cell, for sharing with a callback.
    pub fn state(&self) -> (r: State)
        ensures
            r == self.0,
    {
        self.0
    }
}

impl Default for Promise {
    /// A promise over a fresh cell.
    fn default() -> (r: Promise)
        ensures
            !r.0.completed,
            r.0.successed is None,
    {
        Promise(State { completed: false, successed: None })
    }
}

} // verus!
