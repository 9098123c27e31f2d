//! The Gemmini simulation: the accelerator behind the host interface.
use vstd::prelude::*;
use crate::arch::gemmini::gemmini::{is_initial, is_reset, Gemmini, GemminiState};
use crate::arch::gemmini::execute::{execute_ok, executed, reset_from, GemminiAction};

verus! {

/// A simulated Gemmini.
pub struct GemminiSimulation {
    pub gemmini: Gemmini,
}

impl GemminiSimulation {
    /// A freshly built accelerator.
    pub fn new() -> (sim: Self)
        ensures
            sim.gemmini.wf(),
            is_initial(sim.gemmini.state),
    {
        GemminiSimulation { gemmini: Gemmini::new() }
    }

    /// Runs instruction (`funct`, `xs1`, `xs2`) (see `Gemmini::execute`).
    pub fn execute(&mut self, funct: u64, xs1: u64, xs2: u64) -> (act: GemminiAction)
        requires
            old(self).gemmini.wf(),
            execute_ok(old(self).gemmini.state, funct, xs1, xs2),
        ensures
            final(self).gemmini.wf(),
            old(self).gemmini.state.resetted ==> executed(
                old(self).gemmini.state,
                final(self).gemmini.state,
                funct,
                xs1,
                xs2,
                act,
            ),
            !old(self).gemmini.state.resetted ==> exists|mid: GemminiState|
                reset_from(old(self).gemmini.state, mid) && executed(mid, final(self).gemmini.state, funct, xs1, xs2, act),
    {
        self.gemmini.execute(funct, xs1, xs2)
    }

    /// Resets the accelerator (see `GemminiState::reset`).
    pub fn reset(&mut self)
        requires
            old(self).gemmini.wf(),
        ensures
            final(self).gemmini.wf(),
            is_reset(final(self).gemmini.state),
            final(self).gemmini.state == (GemminiState {
                enable: true,
                resetted: true,
                spad: final(self).gemmini.state.spad,
                pe_state: final(self).gemmini.state.pe_state,
                accumulator: final(self).gemmini.state.accumulator,
                a_addr: 0,
                b_addr: 0,
                c_addr: 0,
                d_addr: 0,
                m: 0,
                n: 0,
                k: 0,
                repeating_bias: false,
                norm_reset: final(self).gemmini.state.norm_reset,
                snapshot_enable: false,
                op_in_progress: false,
                ..old(self).gemmini.state
            }),
    {
        self.gemmini.reset();
    }
}

/// A freshly built simulated Gemmini.
pub fn create_gemmini_simulation() -> (sim: GemminiSimulation)
    ensures
        sim.gemmini.wf(),
        is_initial(sim.gemmini.state),
{
    GemminiSimulation::new()
}

} // verus!
