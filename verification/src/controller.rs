//! Controller state shared between the real-time loop and the host.

use vstd::prelude::*;

verus! {

/// Open-loop pass-through: output is the reference itself. The default
/// controller for bring-up and pure signal-generation use.
#[derive(Clone, Copy, Debug, Default)]
pub struct PassThrough;

/// Lock state of the phase-locked frequency tracker.
#[derive(Clone, Copy, Debug, PartialEq, Eq, Structural)]
pub enum PllState {
    Fixed,
    Acquiring,
    Locked,
    LockLost,
}

/// Wire value of each lock state.
pub open spec fn pll_state_code(s: PllState) -> u8 {
    match s {
        PllState::Fixed => 0,
        PllState::Acquiring => 1,
        PllState::Locked => 2,
        PllState::LockLost => 3,
    }
}

impl PllState {
    pub fn code(self) -> (c: u8)
        ensures
            c == pll_state_code(self),
    {
        match self {
            PllState::Fixed => 0,
            PllState::Acquiring => 1,
            PllState::Locked => 2,
            PllState::LockLost => 3,
        }
    }
}

} // verus!
