//! Gemmini's instruction dispatch: what each function code does to the
//! state, and what it leaves to the memory system: move-ins, move-outs and
//! the commands of the loop instructions, to be run in order.
use vstd::prelude::*;
use crate::arch::gemmini::gemmini::{
    lemma_field_ranges,
    config_load_id,
    config_scalars,
    counter_answer,
    counter_config_after,
    counter_flags_after,
    counter_sources_exist,
    counters_after,
    is_reset,
    loop_conv_ws_state_1,
    loop_conv_ws_state_2,
    loop_conv_ws_state_3,
    loop_conv_ws_state_4,
    loop_conv_ws_state_5,
    loop_conv_ws_state_6,
    loop_ws_addrs_ab_state,
    loop_ws_addrs_dc_state,
    loop_ws_bounds_state,
    loop_ws_strides_ab_state,
    loop_ws_strides_dc_state,
    pixels_field,
    preload_state,
    snapshot_after,
    snapshot_enable_after,
    Gemmini,
    GemminiState,
    ACCUM_ROWS,
    COMPUTE_ACCUMULATED_FUNCT,
    COMPUTE_PRELOADED_FUNCT,
    CONFIG_FUNCT,
    COUNTER_OP_FUNCT,
    DIM,
    FLUSH_FUNCT,
    LOAD_STATES,
    NUM_COUNTERS,
    NUM_EXTERNAL_COUNTERS,
    LOOP_CONV_WS_CONFIG_1_FUNCT,
    LOOP_CONV_WS_FUNCT,
    LOOP_WS_CONFIG_ADDRS_AB_FUNCT,
    LOOP_WS_CONFIG_ADDRS_DC_FUNCT,
    LOOP_WS_CONFIG_BOUNDS_FUNCT,
    LOOP_WS_CONFIG_STRIDES_AB_FUNCT,
    LOOP_WS_CONFIG_STRIDES_DC_FUNCT,
    LOOP_WS_FUNCT,
    MVIN2_FUNCT,
    MVIN3_FUNCT,
    MVIN_FUNCT,
    MVOUT_FUNCT,
    PRELOAD_FUNCT,
    SPAD_ROWS,
};
use crate::arch::gemmini::matmul::{acc_cell, compute_fits, pe_after, spad_cell, tile_fn};
use crate::arch::gemmini::loops::{decode_loop_ws, loop_ws_cmds, loop_ws_params, loop_ws_pads_fit, GemminiCmd};
use crate::arch::gemmini::conv::{conv_ok, conv_params, loop_conv_ws_cmds};

verus! {

/// What the accelerator leaves to its caller after an instruction.
pub enum GemminiAction {
    /// Nothing more; `result` is the instruction's answer.
    Done { result: u64 },
    /// A move-in from DRAM: `mvin(dram_addr, sp_addr, state_id)`.
    Mvin { dram_addr: u64, sp_addr: u64, state_id: usize },
    /// A move-out to DRAM: `mvout(dram_addr, sp_addr)`.
    Mvout { dram_addr: u64, sp_addr: u64 },
    /// The commands of a loop instruction, to be run in order.
    Run { cmds: Vec<GemminiCmd> },
}

/// `s` with the operation-in-progress flag an instruction leaves.
pub open spec fn busy(s: GemminiState, funct: u64) -> GemminiState {
    GemminiState { op_in_progress: funct != FLUSH_FUNCT, ..s }
}

/// The load configuration a move-in function code uses.
pub open spec fn mvin_state_id(funct: u64) -> usize {
    if funct == MVIN_FUNCT {
        0
    } else if funct == MVIN2_FUNCT {
        1
    } else {
        2
    }
}

/// `act` is done with answer `result`.
pub open spec fn done_with(act: GemminiAction, result: u64) -> bool {
    act matches GemminiAction::Done { result: r } && r == result
}

/// `act` runs `cmds`.
pub open spec fn runs(act: GemminiAction, cmds: Seq<GemminiCmd>) -> bool {
    act matches GemminiAction::Run { cmds: c } && c@ == cmds
}

/// The scalar state a reset leaves, the memories aside.
pub open spec fn reset_scalars(s: GemminiState) -> GemminiState {
    GemminiState {
        enable: true,
        resetted: true,
        a_addr: 0,
        b_addr: 0,
        c_addr: 0,
        d_addr: 0,
        m: 0,
        n: 0,
        k: 0,
        repeating_bias: false,
        snapshot_enable: false,
        op_in_progress: false,
        ..s
    }
}

/// The state an instruction sees: `s`, reset first unless it was.
pub open spec fn ready(s: GemminiState) -> GemminiState {
    if s.resetted {
        s
    } else {
        reset_scalars(s)
    }
}

/// The instruction's reads and writes stay in range and its loop geometry
/// is sound.
pub open spec fn dispatch_ok(s: GemminiState, funct: u64, xs1: u64, xs2: u64) -> bool {
    &&& (funct == CONFIG_FUNCT && xs1 & 3 == 1) ==> config_load_id(xs1) < LOAD_STATES
    &&& funct == COMPUTE_PRELOADED_FUNCT ==> compute_fits(s, xs1, xs2, true)
    &&& funct == COMPUTE_ACCUMULATED_FUNCT ==> compute_fits(s, xs1, xs2, false)
    &&& funct == LOOP_WS_FUNCT ==> loop_ws_pads_fit(loop_ws_params(s, xs1, xs2))
    &&& funct == LOOP_CONV_WS_FUNCT ==> conv_ok(conv_params(s, xs1, xs2))
    &&& funct == COUNTER_OP_FUNCT ==> counter_sources_exist(s, xs1)
}

/// `dispatch_ok` on the state the instruction sees.
pub open spec fn execute_ok(s: GemminiState, funct: u64, xs1: u64, xs2: u64) -> bool {
    dispatch_ok(ready(s), funct, xs1, xs2)
}

/// What `compute` does, as `executed` states it.
pub open spec fn computed(s0: GemminiState, s1: GemminiState, a: u64, bd: u64, preload: bool) -> bool {
    &&& forall|i: int, j: int|
        0 <= i < DIM && 0 <= j < DIM ==> #[trigger] s1.pe_state@[i]@[j] == pe_after(s0, a, bd, preload, i, j)
    &&& forall|r: int, c: int|
        0 <= r < ACCUM_ROWS && 0 <= c < DIM ==> #[trigger] s1.accumulator@[r]@[c] == acc_cell(
            s0,
            tile_fn(s0, a, bd, preload),
            r,
            c,
            s0.output_rows as nat,
        )
    &&& forall|r: int, c: int|
        0 <= r < SPAD_ROWS && 0 <= c < DIM ==> #[trigger] s1.spad@[r]@[c] == spad_cell(
            s0,
            tile_fn(s0, a, bd, preload),
            r,
            c,
            s0.output_rows as nat,
        )
    &&& s1 == (GemminiState {
        pe_state: s1.pe_state,
        accumulator: s1.accumulator,
        spad: s1.spad,
        op_in_progress: true,
        ..s0
    })
}

/// Instruction (`funct`, `xs1`, `xs2`) takes the state from `s0` to `s1`
/// and leaves `act`: move-ins and move-outs go to the memory system, the
/// loop instructions hand over their commands, the rest act at once; all
/// but `flush` and the counter operation mark an operation in progress.
#[verifier::opaque]
pub open spec fn executed(
    s0: GemminiState,
    s1: GemminiState,
    funct: u64,
    xs1: u64,
    xs2: u64,
    act: GemminiAction,
) -> bool {
    if funct == MVIN_FUNCT || funct == MVIN2_FUNCT || funct == MVIN3_FUNCT {
        &&& act == GemminiAction::Mvin { dram_addr: xs1, sp_addr: xs2, state_id: mvin_state_id(funct) }
        &&& s1 == busy(s0, funct)
    } else if funct == MVOUT_FUNCT {
        &&& act == GemminiAction::Mvout { dram_addr: xs1, sp_addr: xs2 }
        &&& s1 == busy(s0, funct)
    } else if funct == PRELOAD_FUNCT {
        done_with(act, 0) && s1 == busy(preload_state(s0, xs1, xs2), funct)
    } else if funct == CONFIG_FUNCT {
        &&& done_with(act, 0)
        &&& xs1 & 3 != 1 ==> s1 == busy(config_scalars(s0, xs1, xs2), funct)
        &&& xs1 & 3 == 1 ==> {
            let id = config_load_id(xs1);
            &&& s1.load_strides@ == s0.load_strides@.update(id, xs2)
            &&& s1.load_block_strides@ == s0.load_block_strides@.update(id, ((xs1 >> 16) & 0xFFFF) as u16)
            &&& s1.load_scales@ == s0.load_scales@.update(id, ((xs1 >> 32) & 0xFFFF_FFFF) as u32)
            &&& s1.pixels_per_rows@ == s0.pixels_per_rows@.update(id, pixels_field(xs1))
            &&& s1 == (GemminiState {
                load_strides: s1.load_strides,
                load_block_strides: s1.load_block_strides,
                load_scales: s1.load_scales,
                pixels_per_rows: s1.pixels_per_rows,
                op_in_progress: true,
                ..s0
            })
        }
    } else if funct == COMPUTE_PRELOADED_FUNCT {
        done_with(act, 0) && computed(s0, s1, xs1, xs2, true)
    } else if funct == COMPUTE_ACCUMULATED_FUNCT {
        done_with(act, 0) && computed(s0, s1, xs1, xs2, false)
    } else if funct == LOOP_WS_CONFIG_BOUNDS_FUNCT {
        done_with(act, 0) && s1 == busy(loop_ws_bounds_state(s0, xs1, xs2), funct)
    } else if funct == LOOP_WS_CONFIG_ADDRS_AB_FUNCT {
        done_with(act, 0) && s1 == busy(loop_ws_addrs_ab_state(s0, xs1, xs2), funct)
    } else if funct == LOOP_WS_CONFIG_ADDRS_DC_FUNCT {
        done_with(act, 0) && s1 == busy(loop_ws_addrs_dc_state(s0, xs1, xs2), funct)
    } else if funct == LOOP_WS_CONFIG_STRIDES_AB_FUNCT {
        done_with(act, 0) && s1 == busy(loop_ws_strides_ab_state(s0, xs1, xs2), funct)
    } else if funct == LOOP_WS_CONFIG_STRIDES_DC_FUNCT {
        done_with(act, 0) && s1 == busy(loop_ws_strides_dc_state(s0, xs1, xs2), funct)
    } else if funct == LOOP_WS_FUNCT {
        runs(act, loop_ws_cmds(loop_ws_params(s0, xs1, xs2))) && s1 == busy(s0, funct)
    } else if funct == LOOP_CONV_WS_CONFIG_1_FUNCT {
        done_with(act, 0) && s1 == busy(loop_conv_ws_state_1(s0, xs1, xs2), funct)
    } else if funct == LOOP_CONV_WS_CONFIG_1_FUNCT + 1 {
        done_with(act, 0) && s1 == busy(loop_conv_ws_state_2(s0, xs1, xs2), funct)
    } else if funct == LOOP_CONV_WS_CONFIG_1_FUNCT + 2 {
        done_with(act, 0) && s1 == busy(loop_conv_ws_state_3(s0, xs1, xs2), funct)
    } else if funct == LOOP_CONV_WS_CONFIG_1_FUNCT + 3 {
        done_with(act, 0) && s1 == busy(loop_conv_ws_state_4(s0, xs1, xs2), funct)
    } else if funct == LOOP_CONV_WS_CONFIG_1_FUNCT + 4 {
        done_with(act, 0) && s1 == busy(loop_conv_ws_state_5(s0, xs1, xs2), funct)
    } else if funct == LOOP_CONV_WS_CONFIG_1_FUNCT + 5 {
        done_with(act, 0) && s1 == busy(loop_conv_ws_state_6(s0, xs1, xs2), funct)
    } else if funct == LOOP_CONV_WS_FUNCT {
        runs(act, loop_conv_ws_cmds(conv_params(s0, xs1, xs2))) && s1 == busy(s0, funct)
    } else if funct == COUNTER_OP_FUNCT {
        &&& done_with(act, counter_answer(s0, xs1))
        &&& s1.counter_val@ == counters_after(s0, xs1)
        &&& s1.counter_snapshot_val@ == snapshot_after(s0, xs1)
        &&& s1.counter_config@ == counter_config_after(s0, xs1)
        &&& s1.counter_external_flag@ == counter_flags_after(s0, xs1)
        &&& s1 == (GemminiState {
            counter_val: s1.counter_val,
            counter_snapshot_val: s1.counter_snapshot_val,
            counter_config: s1.counter_config,
            counter_external_flag: s1.counter_external_flag,
            snapshot_enable: snapshot_enable_after(s0, xs1),
            op_in_progress: if xs1 & 1 != 0 {
                false
            } else {
                s0.op_in_progress
            },
            ..s0
        })
    } else {
        done_with(act, 0) && s1 == busy(s0, funct)
    }
}

/// `mid` is `s` reset.
pub open spec fn reset_from(s: GemminiState, mid: GemminiState) -> bool {
    &&& is_reset(mid)
    &&& mid == (GemminiState {
        spad: mid.spad,
        pe_state: mid.pe_state,
        accumulator: mid.accumulator,
        norm_reset: mid.norm_reset,
        ..reset_scalars(s)
    })
}

/// The checks of `dispatch_ok` read no memory.
proof fn lemma_dispatch_ok_ignores_memories(s: GemminiState, t: GemminiState, funct: u64, xs1: u64, xs2: u64)
    requires
        t == (GemminiState {
            spad: t.spad,
            pe_state: t.pe_state,
            accumulator: t.accumulator,
            norm_reset: t.norm_reset,
            ..s
        }),
    ensures
        dispatch_ok(s, funct, xs1, xs2) == dispatch_ok(t, funct, xs1, xs2),
{
    assert(loop_ws_params(s, xs1, xs2) == loop_ws_params(t, xs1, xs2));
    assert(conv_params(s, xs1, xs2) == conv_params(t, xs1, xs2));
    assert(compute_fits(s, xs1, xs2, true) == compute_fits(t, xs1, xs2, true));
    assert(compute_fits(s, xs1, xs2, false) == compute_fits(t, xs1, xs2, false));
    assert(s.counter_external_flag == t.counter_external_flag);
    assert(s.counter_config == t.counter_config);
    assert(s.counter_external == t.counter_external);
    assert(s.snapshot_enable == t.snapshot_enable);
    assert(counter_sources_exist(s, xs1) == counter_sources_exist(t, xs1));
}

/// The function code is one of the move-ins or the move-out.
pub open spec fn is_transfer(funct: u64) -> bool {
    funct == MVIN_FUNCT || funct == MVIN2_FUNCT || funct == MVIN3_FUNCT || funct == MVOUT_FUNCT
}

/// The function code is `preload`, `config` or a `compute`.
pub open spec fn is_core(funct: u64) -> bool {
    funct == PRELOAD_FUNCT || funct == CONFIG_FUNCT || funct == COMPUTE_PRELOADED_FUNCT || funct
        == COMPUTE_ACCUMULATED_FUNCT
}

/// The function code configures `loop_ws`.
pub open spec fn is_ws_config(funct: u64) -> bool {
    LOOP_WS_CONFIG_BOUNDS_FUNCT <= funct <= LOOP_WS_CONFIG_STRIDES_DC_FUNCT
}

/// The function code configures `loop_conv_ws`.
pub open spec fn is_conv_config(funct: u64) -> bool {
    LOOP_CONV_WS_CONFIG_1_FUNCT <= funct <= LOOP_CONV_WS_CONFIG_1_FUNCT + 5
}

impl Gemmini {
    /// Runs a move-in or move-out: the memory system does the transfer.
    fn dispatch_transfer(&mut self, funct: u64, xs1: u64, xs2: u64) -> (act: GemminiAction)
        requires
            old(self).wf(),
            is_transfer(funct),
        ensures
            final(self).wf(),
            executed(old(self).state, final(self).state, funct, xs1, xs2, act),
    {
        proof {
            reveal(executed);
        }
        let act = if funct == self.mvin_funct {
            GemminiAction::Mvin { dram_addr: xs1, sp_addr: xs2, state_id: 0 }
        } else if funct == self.mvin2_funct {
            GemminiAction::Mvin { dram_addr: xs1, sp_addr: xs2, state_id: 1 }
        } else if funct == self.mvin3_funct {
            GemminiAction::Mvin { dram_addr: xs1, sp_addr: xs2, state_id: 2 }
        } else {
            GemminiAction::Mvout { dram_addr: xs1, sp_addr: xs2 }
        };
        self.state.op_in_progress = funct != self.flush_funct;
        act
    }

    /// Runs `preload` or `config`.
    fn dispatch_setup(&mut self, funct: u64, xs1: u64, xs2: u64) -> (act: GemminiAction)
        requires
            old(self).wf(),
            funct == PRELOAD_FUNCT || funct == CONFIG_FUNCT,
            dispatch_ok(old(self).state, funct, xs1, xs2),
        ensures
            final(self).wf(),
            executed(old(self).state, final(self).state, funct, xs1, xs2, act),
    {
        proof {
            reveal(executed);
        }
        if funct == self.preload_funct {
            self.preload(xs1, xs2);
        } else {
            self.config(xs1, xs2);
        }
        self.state.op_in_progress = funct != self.flush_funct;
        GemminiAction::Done { result: 0 }
    }

    /// Runs a `compute`.
    fn dispatch_compute(&mut self, funct: u64, xs1: u64, xs2: u64) -> (act: GemminiAction)
        requires
            old(self).wf(),
            funct == COMPUTE_PRELOADED_FUNCT || funct == COMPUTE_ACCUMULATED_FUNCT,
            dispatch_ok(old(self).state, funct, xs1, xs2),
        ensures
            final(self).wf(),
            executed(old(self).state, final(self).state, funct, xs1, xs2, act),
    {
        proof {
            reveal(executed);
        }
        let preload = funct == self.compute_preloaded_funct;
        self.compute(xs1, xs2, preload);
        self.state.op_in_progress = funct != self.flush_funct;
        GemminiAction::Done { result: 0 }
    }

    /// Runs a configuration of `loop_ws`.
    #[verifier::spinoff_prover]
    #[verifier::rlimit(100)]
    fn dispatch_ws_config(&mut self, funct: u64, xs1: u64, xs2: u64) -> (act: GemminiAction)
        requires
            old(self).wf(),
            is_ws_config(funct),
        ensures
            final(self).wf(),
            executed(old(self).state, final(self).state, funct, xs1, xs2, act),
    {
        proof {
            reveal(executed);
        }
        if funct == self.loop_ws_config_bounds_funct {
            self.loop_ws_config_bounds(xs1, xs2);
        } else if funct == self.loop_ws_config_addrs_AB_funct {
            self.loop_ws_config_addrs_AB(xs1, xs2);
        } else if funct == self.loop_ws_config_addrs_DC_funct {
            self.loop_ws_config_addrs_DC(xs1, xs2);
        } else if funct == self.loop_ws_config_strides_AB_funct {
            self.loop_ws_config_strides_AB(xs1, xs2);
        } else {
            self.loop_ws_config_strides_DC(xs1, xs2);
        }
        self.state.op_in_progress = funct != self.flush_funct;
        GemminiAction::Done { result: 0 }
    }

    /// Runs a configuration of `loop_conv_ws`.
    #[verifier::spinoff_prover]
    #[verifier::rlimit(100)]
    fn dispatch_conv_config(&mut self, funct: u64, xs1: u64, xs2: u64) -> (act: GemminiAction)
        requires
            old(self).wf(),
            is_conv_config(funct),
        ensures
            final(self).wf(),
            executed(old(self).state, final(self).state, funct, xs1, xs2, act),
    {
        proof {
            reveal(executed);
        }
        if funct == self.loop_conv_ws_config_1_funct {
            self.loop_conv_ws_config_1(xs1, xs2);
        } else if funct == self.loop_conv_ws_config_2_funct {
            self.loop_conv_ws_config_2(xs1, xs2);
        } else if funct == self.loop_conv_ws_config_3_funct {
            self.loop_conv_ws_config_3(xs1, xs2);
        } else if funct == self.loop_conv_ws_config_4_funct {
            self.loop_conv_ws_config_4(xs1, xs2);
        } else if funct == self.loop_conv_ws_config_5_funct {
            self.loop_conv_ws_config_5(xs1, xs2);
        } else {
            self.loop_conv_ws_config_6(xs1, xs2);
        }
        self.state.op_in_progress = funct != self.flush_funct;
        GemminiAction::Done { result: 0 }
    }

    /// Runs a loop instruction: it hands over its commands.
    fn dispatch_loop(&mut self, funct: u64, xs1: u64, xs2: u64) -> (act: GemminiAction)
        requires
            old(self).wf(),
            funct == LOOP_WS_FUNCT || funct == LOOP_CONV_WS_FUNCT,
            dispatch_ok(old(self).state, funct, xs1, xs2),
        ensures
            final(self).wf(),
            executed(old(self).state, final(self).state, funct, xs1, xs2, act),
    {
        proof {
            reveal(executed);
        }
        let cmds = if funct == self.loop_ws_funct {
            self.loop_ws(xs1, xs2)
        } else {
            self.loop_conv_ws(xs1, xs2)
        };
        self.state.op_in_progress = funct != self.flush_funct;
        GemminiAction::Run { cmds }
    }

    /// Runs the counter operation; it leaves the operation flag as the
    /// counters set it.
    fn dispatch_counter(&mut self, xs1: u64, xs2: u64) -> (act: GemminiAction)
        requires
            old(self).wf(),
            dispatch_ok(old(self).state, COUNTER_OP_FUNCT, xs1, xs2),
        ensures
            final(self).wf(),
            executed(old(self).state, final(self).state, COUNTER_OP_FUNCT, xs1, xs2, act),
    {
        proof {
            reveal(executed);
        }
        GemminiAction::Done { result: self.counter_operation(xs1) }
    }

    /// Runs `flush`, `fence` or an unknown function code: nothing but the
    /// operation flag changes.
    fn dispatch_other(&mut self, funct: u64, xs1: u64, xs2: u64) -> (act: GemminiAction)
        requires
            old(self).wf(),
            !is_transfer(funct),
            !is_core(funct),
            !is_ws_config(funct),
            !is_conv_config(funct),
            funct != LOOP_WS_FUNCT,
            funct != LOOP_CONV_WS_FUNCT,
            funct != COUNTER_OP_FUNCT,
        ensures
            final(self).wf(),
            executed(old(self).state, final(self).state, funct, xs1, xs2, act),
    {
        proof {
            reveal(executed);
        }
        self.state.op_in_progress = funct != self.flush_funct;
        GemminiAction::Done { result: 0 }
    }

    /// Runs instruction (`funct`, `xs1`, `xs2`) on a reset state.
    fn dispatch(&mut self, funct: u64, xs1: u64, xs2: u64) -> (act: GemminiAction)
        requires
            old(self).wf(),
            dispatch_ok(old(self).state, funct, xs1, xs2),
        ensures
            final(self).wf(),
            executed(old(self).state, final(self).state, funct, xs1, xs2, act),
    {
        if funct == self.mvin_funct || funct == self.mvin2_funct || funct == self.mvin3_funct || funct
            == self.mvout_funct {
            self.dispatch_transfer(funct, xs1, xs2)
        } else if funct == self.preload_funct || funct == self.config_funct {
            self.dispatch_setup(funct, xs1, xs2)
        } else if funct == self.compute_preloaded_funct || funct == self.compute_accumulated_funct {
            self.dispatch_compute(funct, xs1, xs2)
        } else if self.loop_ws_config_bounds_funct <= funct && funct <= self.loop_ws_config_strides_DC_funct {
            self.dispatch_ws_config(funct, xs1, xs2)
        } else if self.loop_conv_ws_config_1_funct <= funct && funct <= self.loop_conv_ws_config_6_funct {
            self.dispatch_conv_config(funct, xs1, xs2)
        } else if funct == self.loop_ws_funct || funct == self.loop_conv_ws_funct {
            self.dispatch_loop(funct, xs1, xs2)
        } else if funct == self.counter_op_funct {
            self.dispatch_counter(xs1, xs2)
        } else {
            self.dispatch_other(funct, xs1, xs2)
        }
    }

    /// Runs instruction (`funct`, `xs1`, `xs2`): resets the state first
    /// unless it was, then does what `executed` says.
    pub fn execute(&mut self, funct: u64, xs1: u64, xs2: u64) -> (act: GemminiAction)
        requires
            old(self).wf(),
            execute_ok(old(self).state, funct, xs1, xs2),
        ensures
            final(self).wf(),
            old(self).state.resetted ==> executed(old(self).state, final(self).state, funct, xs1, xs2, act),
            !old(self).state.resetted ==> exists|mid: GemminiState|
                reset_from(old(self).state, mid) && executed(mid, final(self).state, funct, xs1, xs2, act),
    {
        if !self.state.resetted {
            self.reset();
            let ghost mid = self.state;
            proof {
                lemma_dispatch_ok_ignores_memories(reset_scalars(old(self).state), mid, funct, xs1, xs2);
            }
            let act = self.dispatch(funct, xs1, xs2);
            assert(reset_from(old(self).state, mid));
            act
        } else {
            self.dispatch(funct, xs1, xs2)
        }
    }
}


/// `counter_sources_exist` reads only the counter tables and the snapshot
/// flag.
proof fn lemma_counter_sources_fields(a: GemminiState, b: GemminiState, rs1: u64)
    requires
        a.counter_external_flag@ == b.counter_external_flag@,
        a.counter_config@ == b.counter_config@,
        a.counter_external@ == b.counter_external@,
        a.snapshot_enable == b.snapshot_enable,
    ensures
        counter_sources_exist(a, rs1) == counter_sources_exist(b, rs1),
{
    assert(snapshot_enable_after(a, rs1) == snapshot_enable_after(b, rs1));
    assert(counter_flags_after(a, rs1) == counter_flags_after(b, rs1));
    assert(counter_config_after(a, rs1) == counter_config_after(b, rs1));
}

impl Gemmini {
    /// Whether every external source a counter operation reads exists, with
    /// snapshots on (`snapshot_enable`) or off before it (see
    /// `counter_sources_exist`).
    fn counter_sources_ok(&self, rs1: u64, snapshot_enable: bool) -> (ok: bool)
        requires
            self.wf(),
        ensures
            ok == counter_sources_exist(GemminiState { snapshot_enable, ..self.state }, rs1),
    {
        proof {
            lemma_field_ranges();
        }
        let ghost t = GemminiState { snapshot_enable, ..self.state };
        let take = (rs1 >> 2) & 1 != 0;
        let mut all_ok = true;
        if take {
            let mut i: usize = 0;
            while i < NUM_COUNTERS
                invariant
                    self.wf(),
                    i <= NUM_COUNTERS,
                    all_ok == (forall|j: int|
                        0 <= j < i && #[trigger] self.state.counter_external_flag@[j] ==> self.state.counter_config@[j]
                            < NUM_EXTERNAL_COUNTERS),
                decreases NUM_COUNTERS - i,
            {
                if self.state.counter_external_flag[i] && self.state.counter_config[i] as usize >= NUM_EXTERNAL_COUNTERS {
                    all_ok = false;
                }
                i = i + 1;
            }
        }
        let idx = ((rs1 >> 4) & 7) as usize;
        let change = (rs1 >> 3) & 1 != 0;
        let snap_after = if take {
            true
        } else if (rs1 >> 1) & 1 != 0 {
            false
        } else {
            snapshot_enable
        };
        let flag_after = if change {
            (rs1 >> 32) & 1 != 0
        } else {
            self.state.counter_external_flag[idx]
        };
        let config_after: u64 = if change {
            (rs1 >> 13) & 0x3F
        } else {
            self.state.counter_config[idx] as u64
        };
        let read_ok = snap_after || !flag_after || config_after < NUM_EXTERNAL_COUNTERS as u64;
        proof {
            assert(snapshot_enable_after(t, rs1) == snap_after);
            assert(counter_flags_after(t, rs1)[idx as int] == flag_after);
            assert(counter_config_after(t, rs1)[idx as int] == config_after);
        }
        all_ok && read_ok
    }

    /// Whether instruction (`funct`, `xs1`, `xs2`) stays in range (see
    /// `execute_ok`); where it does not, the instruction is not run.
    pub fn can_execute(&self, funct: u64, xs1: u64, xs2: u64) -> (ok: bool)
        requires
            self.wf(),
        ensures
            ok == execute_ok(self.state, funct, xs1, xs2),
    {
        proof {
            lemma_field_ranges();
        }
        let ghost r = ready(self.state);
        assert(loop_ws_params(r, xs1, xs2) == loop_ws_params(self.state, xs1, xs2));
        assert(conv_params(r, xs1, xs2) == conv_params(self.state, xs1, xs2));
        assert(compute_fits(r, xs1, xs2, true) == compute_fits(self.state, xs1, xs2, true));
        assert(compute_fits(r, xs1, xs2, false) == compute_fits(self.state, xs1, xs2, false));
        if funct == CONFIG_FUNCT {
            xs1 & 3 != 1 || ((xs1 >> 3) & 3) < LOAD_STATES as u64
        } else if funct == COMPUTE_PRELOADED_FUNCT {
            self.compute_in_range(xs1, xs2, true)
        } else if funct == COMPUTE_ACCUMULATED_FUNCT {
            self.compute_in_range(xs1, xs2, false)
        } else if funct == LOOP_WS_FUNCT {
            let p = decode_loop_ws(&self.state, xs1, xs2);
            (!(p.i > 0 && p.j > 0) || (p.pad_i <= DIM as u64 && p.pad_j <= DIM as u64)) && (!(p.i > 0 && p.j > 0
                && p.k > 0) || p.pad_k <= DIM as u64)
        } else if funct == LOOP_CONV_WS_FUNCT {
            self.loop_conv_ws_ok(xs1, xs2)
        } else if funct == COUNTER_OP_FUNCT {
            let snap = self.state.snapshot_enable && self.state.resetted;
            proof {
                lemma_counter_sources_fields(r, GemminiState { snapshot_enable: snap, ..self.state }, xs1);
            }
            self.counter_sources_ok(xs1, snap)
        } else {
            true
        }
    }
}

} // verus!
