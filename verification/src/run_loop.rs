//! The main thread's run loop.

use vstd::prelude::*;

verus! {

/// Whether the main thread runs its loop.
#[derive(Clone, Copy, Debug)]
pub struct RunLoop {
    /// Whether it does.
    pub active: bool,
}

impl RunLoop {
    /// A loop that does not run.
    pub fn new() -> (r: RunLoop)
        ensures
            !r.active,
    {
        RunLoop { active: false }
    }

    /// Starts the loop. Returns false where it runs already.
    pub fn run(&mut self) -> (started: bool)
        ensures
            started == !old(self).active,
            final(self).active,
    {
        let started = !self.active;
        self.active = true;
        started
    }

    /// Whether the loop runs; a loop that returned while it does is restarted.
    pub fn is_active(&self) -> (r: bool)
        ensures
            r == self.active,
    {
        self.active
    }

    /// Stops the loop. Returns false where it does not run.
    pub fn stop(&mut self) -> (stopped: bool)
        ensures
            stopped == old(self).active,
            !final(self).active,
    {
        let stopped = self.active;
        self.active = false;
        stopped
    }
}

/// The exit code of the process: that of the node, or 1 where the runtime could
/// not be built.
pub fn exit_code(node: Option<i32>) -> (r: i32)
    ensures
        r == match node {
            Some(code) => code,
            None => 1,
        },
{
    match node {
        Some(code) => code,
        None => 1,
    }
}

} // verus!
