//! Lifecycle of the worker thread that hosts the render loop.
//!
//! The thread is spawned on the first `run` and never again: a second `run`
//! is a no-op. `join` waits for it only while it runs.
use vstd::prelude::*;

verus! {

/// Where the hosted thread stands.
#[derive(Debug, Clone, Copy, PartialEq, Eq, Structural)]
pub enum ThreadState {
    /// The task is installed; no thread has been spawned.
    Idle,
    /// The thread has been spawned and not joined.
    Running,
    /// The thread has been joined.
    Joined,
}

/// Decides when the hosted thread is spawned and joined.
pub struct ThreadLifecycle {
    state: ThreadState,
}

impl ThreadLifecycle {
    pub closed spec fn state_spec(&self) -> ThreadState {
        self.state
    }

    /// A lifecycle whose thread has not been spawned.
    pub fn new() -> (r: ThreadLifecycle)
        ensures
            r.state_spec() == ThreadState::Idle,
    {
        ThreadLifecycle { state: ThreadState::Idle }
    }

    /// Where the thread stands.
    pub fn state(&self) -> (r: ThreadState)
        ensures
            r == self.state_spec(),
    {
        self.state
    }

    /// Asked to run: returns whether the thread must be spawned now, which
    /// is only on the first call.
    pub fn run(&mut self) -> (spawn: bool)
        ensures
            spawn == (old(self).state_spec() == ThreadState::Idle),
            final(self).state_spec() == if spawn {
                ThreadState::Running
            } else {
                old(self).state_spec()
            },
    {
        match self.state {
            ThreadState::Idle => {
                self.state = ThreadState::Running;
                true
            },
            _ => false,
        }
    }

    /// Asked to join: returns whether there is a running thread to wait
    /// for; afterwards it counts as joined.
    pub fn join(&mut self) -> (wait: bool)
        ensures
            wait == (old(self).state_spec() == ThreadState::Running),
            final(self).state_spec() == if wait {
                ThreadState::Joined
            } else {
                old(self).state_spec()
            },
    {
        match self.state {
            ThreadState::Running => {
                self.state = ThreadState::Joined;
                true
            },
            _ => false,
        }
    }
}

} // verus!
