//! A gate that holds connections back while the pipes are being made.

use vstd::prelude::*;

verus! {

/// Whether connections may pass. After each change whoever waits is woken and
/// asks again.
#[derive(Debug)]
pub struct Gate {
    pub is_open: bool,
}

/// What a connection that wants to pass does next.
#[derive(Debug, Clone, Copy, PartialEq, Eq)]
pub enum GateStep {
    Pass,
    /// Wait for the next change, then ask again.
    Wait,
}

impl Gate {
    pub fn new(v: bool) -> (r: Gate)
        ensures
            r.is_open == v,
    {
        Gate { is_open: v }
    }

    pub fn set_open(&mut self, val: bool)
        ensures
            final(self).is_open == val,
    {
        self.is_open = val;
    }

    /// Whether to pass or to wait: connections pass exactly while it is open.
    pub fn wait_or_pass(&self) -> (r: GateStep)
        ensures
            r == if self.is_open {
                GateStep::Pass
            } else {
                GateStep::Wait
            },
    {
        if self.is_open {
            GateStep::Pass
        } else {
            GateStep::Wait
        }
    }
}

} // verus!
