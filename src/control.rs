//! The control loop's decisions: on each tick a health pass followed by a
//! discovery pass; after a shutdown signal, nothing more.

use vstd::prelude::*;

verus! {

/// What woke the control loop.
#[derive(Debug, Clone, Copy, PartialEq, Eq, Structural)]
pub enum LoopEvent {
    /// The interval elapsed.
    Tick,
    /// Shutdown was signalled.
    Shutdown,
}

/// What the control loop does next.
#[derive(Debug, Clone, Copy, PartialEq, Eq, Structural)]
pub enum LoopAction {
    /// Probe every endpoint, then run discovery and rebuild the index.
    RunPasses,
    /// Leave the loop.
    Exit,
}

/// State of the control loop.
#[derive(Debug, Clone, Copy, PartialEq, Eq, Structural)]
pub struct ControlLoop {
    /// Passes run so far.
    pub passes: u64,
    /// Shutdown has been seen.
    pub stopped: bool,
}

impl ControlLoop {
    /// A loop that has run no pass.
    pub fn new() -> (r: Self)
        ensures
            r.passes == 0,
            !r.stopped,
    {
        ControlLoop { passes: 0, stopped: false }
    }

    /// Decides the next action: a tick runs the passes unless the loop has
    /// stopped; a shutdown stops it for good. The loop never stops on its own.
    pub fn on_event(&mut self, event: LoopEvent) -> (r: LoopAction)
        ensures
            old(self).stopped ==> r == LoopAction::Exit && *final(self) == *old(self),
            !old(self).stopped && event == LoopEvent::Shutdown ==> r == LoopAction::Exit
                && final(self).stopped && final(self).passes == old(self).passes,
            !old(self).stopped && event == LoopEvent::Tick ==> r == LoopAction::RunPasses
                && !final(self).stopped && final(self).passes as int == if old(self).passes
                == u64::MAX {
                u64::MAX as int
            } else {
                old(self).passes + 1
            },
    {
        if self.stopped {
            return LoopAction::Exit;
        }
        match event {
            LoopEvent::Shutdown => {
                self.stopped = true;
                LoopAction::Exit
            },
            LoopEvent::Tick => {
                self.passes = self.passes.saturating_add(1);
                LoopAction::RunPasses
            },
        }
    }
}

} // verus!
