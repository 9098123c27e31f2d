use bebop::arch::gemmini::execute::GemminiAction;
use bebop::arch::gemmini::gemmini::{
    Activation, Dataflow, Gemmini, NormCmd, COUNTER_OP_FUNCT, FLUSH_FUNCT, LOOP_WS_FUNCT,
    MVIN2_FUNCT, MVIN_SCALE_IDENTITY_BITS,
};
use bebop::arch::gemmini::loops::GemminiCmd;
use bebop::arch::gemmini::main::create_gemmini_simulation;
use bebop::arch::gemmini::matmul::MatrixSource;
use bebop::arch::gemmini::mvout::{DramWrite, NormBlock};
use bebop::arch::gemmini::norm::NormFollowUp;

fn operand(rows: u64, cols: u64, addr: u32) -> u64 {
    (rows << 48) | (cols << 32) | addr as u64
}

#[test]
fn gemmini_initial_state() {
    let g = Gemmini::new();
    assert!(g.state.resetted);
    assert_eq!(g.state.mode, Dataflow::OS);
    assert_eq!(g.state.pixels_per_rows, vec![1u8, 1, 1]);
    assert_eq!(g.state.load_scales, vec![MVIN_SCALE_IDENTITY_BITS; 3]);
    assert_eq!(g.state.acc_shift, 0x3f80_0000);
    assert_eq!(g.state.norm_running_max, vec![i32::MIN; 4]);
    assert_eq!(g.state.spad.len(), 16384);
    assert_eq!(g.state.accumulator.len(), 1024);
    assert!(g.state.spad.iter().all(|r| r.len() == 16 && r.iter().all(|v| *v == 0)));
}

#[test]
fn gemmini_rounding_right_shift_rounds_half_to_even() {
    assert_eq!(Gemmini::rounding_right_shift(5, 1), 2);
    assert_eq!(Gemmini::rounding_right_shift(7, 1), 4);
    assert_eq!(Gemmini::rounding_right_shift(-5, 1), -2);
    assert_eq!(Gemmini::rounding_right_shift(-7, 1), -4);
    assert_eq!(Gemmini::rounding_right_shift(6, 2), 2);
    assert_eq!(Gemmini::rounding_right_shift(-7, 2), -2);
    assert_eq!(Gemmini::rounding_right_shift(9, 0), 9);
    assert_eq!(Gemmini::rounding_right_shift(3, -2), 12);
    assert_eq!(Gemmini::rounding_right_shift(0x4000_0000, -2), 0);
}

#[test]
fn gemmini_sys_shift_saturates() {
    assert_eq!(Gemmini::sys_shift(1000, 0), 127);
    assert_eq!(Gemmini::sys_shift(-1000, 0), -128);
    assert_eq!(Gemmini::sys_shift(1000, 3), 125);
    assert_eq!(Gemmini::sys_shift(-20, 2), -5);
}

#[test]
fn gemmini_activations() {
    assert_eq!(Gemmini::apply_activation(-3, Activation::RELU), 0);
    assert_eq!(Gemmini::apply_activation(3, Activation::RELU), 3);
    assert_eq!(Gemmini::apply_activation(-3, Activation::NONE), -3);
    assert_eq!(Gemmini::apply_igelu(2, -5, 1), 22);
    assert_eq!(Gemmini::apply_igelu(-2, -5, 1), 18);
    assert!(Gemmini::igelu_in_range(2, -5, 1));
    assert!(!Gemmini::igelu_in_range(i32::MIN, -5, 1));
    assert_eq!(Gemmini::apply_iexp(0, 0, 1, 1, 65536), 1);
    assert_eq!(Gemmini::apply_iexp(-1, 0, 1, 1, 65536), 0);
    assert!(Gemmini::iexp_in_range(-1, 0, 1, 1, 65536));
    assert!(!Gemmini::iexp_in_range(100, 0, 1, 1, 65536));
    assert_eq!(Gemmini::non_terminating_norm_cmd(NormCmd::MEAN), NormCmd::SUM);
    assert_eq!(Gemmini::non_terminating_norm_cmd(NormCmd::INV_STDDEV), NormCmd::VARIANCE);
    assert_eq!(Gemmini::non_terminating_norm_cmd(NormCmd::MAX), NormCmd::MAX);
}

#[test]
fn gemmini_config_fields() {
    let mut g = Gemmini::new();
    // execute pipeline: WS, RELU, transposed A, a stride 3, c stride 2
    g.config((3 << 16) | (1 << 8) | (1 << 3) | (1 << 2), (2 << 48) | 5);
    assert_eq!(g.state.mode, Dataflow::WS);
    assert_eq!(g.state.sys_act, Activation::RELU);
    assert!(g.state.a_transpose);
    assert_eq!(g.state.sys_shift, 5);
    assert_eq!(g.state.a_stride, 3);
    assert_eq!(g.state.c_stride, 2);
    // strides only: mode stays
    g.config((1 << 7) | (4 << 16), 7 << 48);
    assert_eq!(g.state.mode, Dataflow::WS);
    assert_eq!(g.state.a_stride, 4);
    assert_eq!(g.state.c_stride, 7);
    // load pipeline 2 with zero pixels per row
    g.config((0x4000_0000u64 << 32) | (9 << 16) | (2 << 3) | 1, 64);
    assert_eq!(g.state.load_strides[2], 64);
    assert_eq!(g.state.load_block_strides[2], 9);
    assert_eq!(g.state.load_scales[2], 0x4000_0000);
    assert_eq!(g.state.pixels_per_rows[2], 1);
    // store pipeline
    g.config((1 << 4) | (2 << 2) | 2, (0x3f00_0000u64 << 32) | 128);
    assert_eq!(g.state.store_stride, 128);
    assert_eq!(g.state.acc_act, Activation::LAYERNORM);
    assert_eq!(g.state.acc_shift, 0x3f00_0000);
    assert_eq!(g.state.pool_stride, 1);
    // normalisation
    g.config((7u64 << 32) | (2 << 8) | 3, (5u64 << 32) | 6);
    assert_eq!(g.state.norm_stat_id, 2);
    assert_eq!(g.state.igelu_qb, 6);
    assert_eq!(g.state.igelu_qc, 5);
    assert_eq!(g.state.qln2, 7);
}

#[test]
fn gemmini_preload_fields() {
    let mut g = Gemmini::new();
    g.preload(operand(3, 4, 100), operand(5, 6, 0x8000_0010));
    assert_eq!(g.state.preload_sp_addr, 100);
    assert_eq!(g.state.preload_rows, 3);
    assert_eq!(g.state.preload_cols, 4);
    assert_eq!(g.state.output_sp_addr, 0x8000_0010);
    assert_eq!(g.state.output_rows, 5);
    assert_eq!(g.state.output_cols, 6);
}

#[test]
fn gemmini_output_stationary_product() {
    let mut g = Gemmini::new();
    // output stationary, A rows one apart, output rows one apart
    g.config(1 << 16, 1 << 48);
    let a = vec![vec![1i8, 2], vec![3, 4]];
    let b = vec![vec![5i8, 6], vec![7, 8]];
    assert!(g.mvin_in_range(operand(2, 2, 0), 0));
    g.mvin(operand(2, 2, 0), 0, &a);
    g.mvin(operand(2, 2, 16), 0, &b);
    assert_eq!(g.state.spad[1][..2], [3, 4]);
    g.preload(operand(0, 0, 0xFFFF_FFFF), operand(2, 2, 0x8000_0000));
    assert!(g.compute_in_range(operand(2, 2, 0), operand(2, 2, 16), true));
    g.compute(operand(2, 2, 0), operand(2, 2, 16), true);
    assert_eq!(g.state.pe_state[0][..2], [19, 22]);
    assert_eq!(g.state.pe_state[1][..2], [43, 50]);
    assert_eq!(g.state.accumulator[0][..2], [19, 22]);
    assert_eq!(g.state.accumulator[1][..2], [43, 50]);
    assert_eq!(g.state.accumulator[0][2], 0);
}

#[test]
fn gemmini_weight_stationary_product_to_scratchpad() {
    let mut g = Gemmini::new();
    // weight stationary, A rows one apart, output rows one apart
    g.config((1 << 16) | (1 << 2), 1 << 48);
    let w = vec![vec![1i8, 0], vec![0, 2]];
    let a = vec![vec![3i8, 4]];
    let d = vec![vec![10i8, 20]];
    g.mvin(operand(2, 2, 32), 0, &w);
    g.mvin(operand(1, 2, 0), 0, &a);
    g.mvin(operand(1, 2, 48), 0, &d);
    g.preload(operand(2, 2, 32), operand(1, 2, 64));
    g.compute(operand(1, 2, 0), operand(1, 2, 48), true);
    // D + A W = [10 + 3, 20 + 8]
    assert_eq!(g.state.spad[64][..2], [13, 28]);
}

#[test]
fn gemmini_accumulating_output_adds() {
    let mut g = Gemmini::new();
    g.config(1 << 16, 1 << 48);
    g.mvin(operand(1, 1, 0), 0, &vec![vec![2i8]]);
    g.mvin(operand(1, 1, 16), 0, &vec![vec![3i8]]);
    g.preload(operand(0, 0, 0xFFFF_FFFF), operand(1, 1, 0xC000_0005));
    g.compute(operand(1, 1, 0), operand(1, 1, 16), true);
    g.preload(operand(0, 0, 0xFFFF_FFFF), operand(1, 1, 0xC000_0005));
    g.compute(operand(1, 1, 0), operand(1, 1, 16), true);
    assert_eq!(g.state.accumulator[5][0], 12);
}

#[test]
fn gemmini_mvin_pixels_repeat() {
    let mut g = Gemmini::new();
    // load pipeline 0 with two pixels per row
    g.config((2 << 8) | 1, 0);
    let data = vec![vec![7i8, 8]];
    assert!(g.mvin_in_range(operand(1, 2, 4), 0));
    g.mvin(operand(1, 2, 4), 0, &data);
    assert_eq!(g.state.spad[4][..2], [7, 8]);
    assert_eq!(g.state.spad[3][2..4], [7, 8]);
    // two pixels of three columns take six columns of a row
    assert!(g.mvin_in_range(operand(1, 3, 4), 0));
    // nine columns with two pixels do not fit a row
    assert!(!g.mvin_in_range(operand(1, 9, 4), 0));
    assert!(!g.mvin_in_range(operand(1, 1, 16384), 0));
    assert!(!g.mvin_in_range(operand(1, 1, 0), 3));
    assert_eq!(g.mvin_source_addr(0x1000, 0, 0, 5), 0x1005);
}

#[test]
fn gemmini_mvin_accumulates() {
    let mut g = Gemmini::new();
    g.mvin(operand(1, 2, 0x8000_0002), 0, &vec![vec![5i8, -6]]);
    g.mvin(operand(1, 2, 0xC000_0002), 0, &vec![vec![5i8, -6]]);
    assert_eq!(g.state.accumulator[2][..2], [10, -12]);
}

#[test]
fn gemmini_loop_ws_single_tile() {
    let mut g = Gemmini::new();
    g.loop_ws_config_bounds(0, (1u64 << 32) | (1 << 16) | 1);
    g.loop_ws_config_addrs_AB(0x1000, 0x2000);
    g.loop_ws_config_addrs_DC(0, 0x3000);
    g.loop_ws_config_strides_AB(1, 1);
    g.loop_ws_config_strides_DC(1, 1);
    let cmds = g.loop_ws(0, 0);
    assert_eq!(
        cmds,
        vec![
            GemminiCmd::Mvin { dram_addr: 0x1000, sp_addr: operand(16, 16, 0), state_id: 0 },
            GemminiCmd::Mvin { dram_addr: 0x2000, sp_addr: operand(16, 16, 8176), state_id: 1 },
            GemminiCmd::Preload { bd_addr: operand(16, 16, 8176), c_addr: operand(16, 16, 0x8000_0000) },
            GemminiCmd::Compute { a_addr: operand(16, 16, 0), bd_addr: operand(16, 16, 0xFFFF_FFFF), preload: true },
            GemminiCmd::Mvout { dram_addr: 0x3000, sp_addr: operand(16, 16, 0xC000_0000) },
        ]
    );
}

#[test]
fn gemmini_loop_ws_counts_and_padding() {
    let mut g = Gemmini::new();
    // I = 2, J = 1, K = 2; the last I tile is 4 rows short
    g.loop_ws_config_bounds(4, (2u64 << 32) | (1 << 16) | 2);
    g.loop_ws_config_addrs_AB(0x1000, 0x2000);
    g.loop_ws_config_addrs_DC(0, 0);
    g.loop_ws_config_strides_AB(2, 1);
    let cmds = g.loop_ws(1, 0);
    let computes = cmds.iter().filter(|c| matches!(c, GemminiCmd::Compute { .. })).count();
    let mvouts = cmds.iter().filter(|c| matches!(c, GemminiCmd::Mvout { .. })).count();
    assert_eq!(computes, 4);
    assert_eq!(mvouts, 0);
    // the second A tile of row block 1 is the short one
    assert!(cmds.contains(&GemminiCmd::Mvin {
        dram_addr: 0x1000 + (1 * 2 + 0) * 16,
        sp_addr: operand(12, 16, 32),
        state_id: 0,
    }));
}

#[test]
fn gemmini_loop_ws_too_large_issues_nothing() {
    let mut g = Gemmini::new();
    g.loop_ws_config_bounds(0, (100u64 << 32) | (100 << 16) | 100);
    assert!(g.loop_ws(0, 0).is_empty());
}

#[test]
fn gemmini_loop_conv_ws_minimal() {
    let mut g = Gemmini::new();
    // batch 1, in 1x1, 1 channel in and out, out 1x1, stride 1
    g.loop_conv_ws_config_1((1u64 << 48) | (1 << 32) | (1 << 16) | 1, (1u64 << 48) | (1 << 32) | (1 << 16) | 1);
    // kernel 1, batches 1, pooled 1x1x1
    g.loop_conv_ws_config_2(1u64 << 48, (1u64 << 48) | (1 << 32) | (1 << 16) | 1);
    // krows, kcols, kchs 1, in_col_dim 1
    g.loop_conv_ws_config_3((1u64 << 48) | (1 << 32) | (1 << 16), 1);
    // orows 1, dilation 1, strides 1, ocols 1
    g.loop_conv_ws_config_4((1u64 << 48) | 1, (1u64 << 48) | (1 << 32) | (1 << 16) | 1);
    g.loop_conv_ws_config_5(0x2000, 0x3000);
    g.loop_conv_ws_config_6(0, 0x1000);
    assert!(g.loop_conv_ws_ok(0, 1));
    let cmds = g.loop_conv_ws(0, 1);
    assert_eq!(cmds.len(), 7);
    assert!(matches!(cmds[0], GemminiCmd::Config { .. }));
    assert_eq!(cmds[1], GemminiCmd::Mvin { dram_addr: 0x1000, sp_addr: operand(1, 1, 0), state_id: 0 });
    assert!(matches!(cmds[2], GemminiCmd::Config { .. }));
    assert!(matches!(cmds[3], GemminiCmd::Mvin { dram_addr: 0x2000, state_id: 1, .. }));
    assert!(matches!(cmds[4], GemminiCmd::Preload { .. }));
    assert!(matches!(cmds[5], GemminiCmd::Compute { preload: true, .. }));
    assert_eq!(cmds[6], GemminiCmd::Mvout { dram_addr: 0x3000, sp_addr: operand(1, 1, 0xC000_0000) });
    // a zero kernel is not a convolution
    g.loop_conv_ws_config_3(0, 1);
    assert!(!g.loop_conv_ws_ok(0, 1));
}

#[test]
fn gemmini_counters() {
    let mut g = Gemmini::new();
    // point counter 3 at external source 2, then read it
    let rs1 = (1u64 << 32) | (2 << 13) | (3 << 4) | (1 << 3);
    g.state.counter_external[2] = 42;
    assert_eq!(g.counter_operation(rs1), 42);
    assert!(g.state.counter_external_flag[3]);
    // snapshot, then read the snapshot of counter 3
    assert_eq!(g.counter_operation((3 << 4) | (1 << 2)), 42);
    assert!(g.state.snapshot_enable);
    g.state.counter_external[2] = 7;
    assert_eq!(g.counter_operation(3 << 4), 42);
    // reset the snapshot: the live source again
    assert_eq!(g.counter_operation((3 << 4) | (1 << 1)), 7);
    // a source past the external counters is refused
    let bad = (1u64 << 32) | (9 << 13) | (1 << 4) | (1 << 3);
    assert!(!g.can_execute(COUNTER_OP_FUNCT, bad, 0));
}

#[test]
fn gemmini_execute_dispatch() {
    let mut sim = create_gemmini_simulation();
    match sim.execute(MVIN2_FUNCT, 0x1000, operand(1, 1, 0)) {
        GemminiAction::Mvin { dram_addr, sp_addr, state_id } => {
            assert_eq!((dram_addr, sp_addr, state_id), (0x1000, operand(1, 1, 0), 1));
        },
        _ => panic!("expected a move-in"),
    }
    assert!(sim.gemmini.state.op_in_progress);
    assert!(matches!(sim.execute(FLUSH_FUNCT, 0, 0), GemminiAction::Done { result: 0 }));
    assert!(!sim.gemmini.state.op_in_progress);
    assert!(matches!(sim.execute(99, 0, 0), GemminiAction::Done { result: 0 }));
    assert!(matches!(sim.execute(LOOP_WS_FUNCT, 0, 0), GemminiAction::Run { .. }));
    // a load configuration past the third is refused
    assert!(!sim.gemmini.can_execute(0, (3 << 3) | 1, 0));
    assert!(sim.gemmini.can_execute(0, (2 << 3) | 1, 0));
    sim.gemmini.state.resetted = false;
    sim.gemmini.state.a_addr = 9;
    assert!(matches!(sim.execute(FLUSH_FUNCT, 0, 0), GemminiAction::Done { result: 0 }));
    assert!(sim.gemmini.state.resetted);
    assert_eq!(sim.gemmini.state.a_addr, 0);
}

#[test]
fn gemmini_norm_mean_and_variance() {
    let mut g = Gemmini::new();
    let row = vec![1, 2, 3, 4, 0, 0, 0, 0, 0, 0, 0, 0, 0, 0, 0, 0];
    assert!(g.norm_in_range(&row, 4, NormCmd::SUM));
    assert_eq!(g.apply_norm(&row, 4, NormCmd::SUM), (false, NormFollowUp::Nothing));
    assert_eq!(g.state.norm_sum[0], 10);
    assert_eq!(g.state.norm_count[0], 4);
    let row2 = vec![2; 16];
    assert_eq!(g.apply_norm(&row2, 4, NormCmd::MEAN), (false, NormFollowUp::Nothing));
    assert_eq!(g.state.norm_mean[0], 2);
    assert!(g.state.norm_reset[0]);
    // variance around the mean 2 of [1, 3]: (1 + 1) / 2
    let row3 = vec![1, 3, 0, 0, 0, 0, 0, 0, 0, 0, 0, 0, 0, 0, 0, 0];
    assert_eq!(g.apply_norm(&row3, 2, NormCmd::INV_STDDEV), (false, NormFollowUp::InvStddev { variance: 1 }));
    g.set_norm_inv_stddev(0x3f80_0000);
    assert_eq!(g.state.norm_inv_stddev[0], 0x3f80_0000);
    // a running maximum
    let row4 = vec![-5, 9, 4, 0, 0, 0, 0, 0, 0, 0, 0, 0, 0, 0, 0, 0];
    assert_eq!(g.apply_norm(&row4, 3, NormCmd::MAX), (false, NormFollowUp::Nothing));
    assert_eq!(g.state.norm_running_max[0], 9);
    assert_eq!(g.apply_norm(&row4, 3, NormCmd::RESET), (true, NormFollowUp::Nothing));
    // a mean over nothing divides by zero
    g.state.norm_reset[0] = true;
    assert!(!g.norm_in_range(&row4, 0, NormCmd::MEAN));
    g.state.norm_stat_id = 4;
    assert!(!g.norm_in_range(&row4, 1, NormCmd::SUM));
}

#[test]
fn gemmini_cisc_accumulate() {
    let a = vec![vec![1i8, 2], vec![3, 4]];
    let b = vec![vec![5i8, 6], vec![7, 8]];
    let d = vec![vec![1i8, 1], vec![-1, 0]];
    let c = Gemmini::cisc_accumulate(&a, &b, &d, 2, 2, 2);
    assert_eq!(c, vec![vec![20, 23], vec![42, 50]]);
}

#[test]
fn gemmini_reset_keeps_configuration() {
    let mut g = Gemmini::new();
    g.config(1 << 2, 0);
    g.state.spad[3][3] = 9;
    g.state.a_addr = 5;
    g.reset();
    assert_eq!(g.state.spad[3][3], 0);
    assert_eq!(g.state.a_addr, 0);
    assert_eq!(g.state.mode, Dataflow::WS);
}

#[test]
fn gemmini_mvout_norm_blocks() {
    // two rows of twenty columns from row 0x10, step MEAN
    let sp = operand(2, 20, 0x10) | (2 << 26);
    let blocks = Gemmini::mvout_norm_blocks(sp, 1);
    assert_eq!(
        blocks,
        vec![
            NormBlock { row: 17, len: 16, cmd: NormCmd::SUM },
            NormBlock { row: 33, len: 4, cmd: NormCmd::MEAN },
        ]
    );
    assert!(Gemmini::mvout_in_range(sp));
    assert!(!Gemmini::mvout_in_range(operand(2, 20, 1010)));
}

#[test]
fn gemmini_mvout_row_writes() {
    let mut g = Gemmini::new();
    g.state.store_stride = 100;
    g.state.accumulator[5][0] = -1;
    g.state.accumulator[5][1] = 7;
    g.state.spad[5][0] = 9;
    g.state.spad[5][1] = -3;
    let full = operand(1, 2, 0x8000_0000 | 0x2000_0000 | 5);
    assert_eq!(
        g.mvout_row_writes(1000, full, 0, &vec![0, 0]),
        vec![
            DramWrite { addr: 1000, value: 0xFFFF_FFFF, bytes: 4 },
            DramWrite { addr: 1004, value: 7, bytes: 4 },
        ]
    );
    let bytes = operand(1, 2, 0x8000_0000 | 5);
    assert_eq!(
        g.mvout_row_writes(1000, bytes, 0, &vec![3, -2]),
        vec![DramWrite { addr: 1000, value: 3, bytes: 1 }, DramWrite { addr: 1001, value: 0xFE, bytes: 1 }]
    );
    let spad = operand(2, 2, 5);
    assert_eq!(
        g.mvout_row_writes(1000, spad, 1, &vec![0, 0]),
        vec![DramWrite { addr: 1100, value: 0, bytes: 1 }, DramWrite { addr: 1101, value: 0, bytes: 1 }]
    );
    assert_eq!(
        g.mvout_row_writes(1000, spad, 0, &vec![0, 0]),
        vec![DramWrite { addr: 1000, value: 9, bytes: 1 }, DramWrite { addr: 1001, value: 0xFD, bytes: 1 }]
    );
}

#[test]
fn gemmini_mvout_pool_writes() {
    let mut g = Gemmini::new();
    g.state.store_stride = 10;
    g.state.pool_stride = 1;
    g.state.pool_size = 2;
    g.state.pool_out_dim = 2;
    g.state.pool_porows = 2;
    g.state.pool_pocols = 2;
    g.state.pool_orows = 2;
    g.state.pool_ocols = 2;
    g.state.pool_lpad = 1;
    g.state.pool_upad = 1;
    let source = vec![vec![1i8], vec![5], vec![-3], vec![2]];
    assert_eq!(
        g.mvout_pool_writes(100, 1, &source),
        vec![
            DramWrite { addr: 100, value: 1, bytes: 1 },
            DramWrite { addr: 110, value: 5, bytes: 1 },
            DramWrite { addr: 120, value: 1, bytes: 1 },
            DramWrite { addr: 130, value: 5, bytes: 1 },
        ]
    );
    // no padding: the window maximum of negative bytes
    g.state.pool_lpad = 0;
    g.state.pool_upad = 0;
    g.state.pool_porows = 1;
    g.state.pool_pocols = 1;
    let negative = vec![vec![-5i8], vec![-7], vec![-3], vec![-9]];
    assert_eq!(g.mvout_pool_writes(0, 1, &negative), vec![DramWrite { addr: 0, value: 0xFD, bytes: 1 }]);
}

#[test]
fn gemmini_move_out_cells_and_matrix_addresses() {
    // column 20 of row 3 of a block from row 0x10 lies in the second block
    assert_eq!(Gemmini::mvout_cell(operand(4, 32, 0x10), 3, 20), (0x10 + 16 + 3, 4));
    assert_eq!(Gemmini::matrix_source(0, true), MatrixSource::Zeros);
    assert_eq!(Gemmini::matrix_source(0, false), MatrixSource::Refused);
    assert_eq!(Gemmini::matrix_source(0x100, false), MatrixSource::Dram);
    assert_eq!(Gemmini::matrix_elem_addr(0x100, 2, 3, 8, false), 0x100 + 2 * 8 + 3);
    assert_eq!(Gemmini::matrix_elem_addr(0x100, 2, 3, 8, true), 0x103);
}

#[test]
fn gemmini_loop_conv_ws_padding_wider_than_the_input() {
    let mut g = Gemmini::new();
    g.loop_conv_ws_config_1((1u64 << 48) | (1 << 32) | (1 << 16) | 1, (1u64 << 48) | (1 << 32) | (1 << 16) | 1);
    g.loop_conv_ws_config_2(1u64 << 48, (1u64 << 48) | (1 << 32) | (1 << 16) | 1);
    // a 1x1 kernel with one row of padding above and below a 1-row output
    g.loop_conv_ws_config_3((1u64 << 48) | (1 << 32) | (1 << 16), (1u64 << 32) | (1 << 24) | 1);
    g.loop_conv_ws_config_4((1u64 << 48) | 1, (1u64 << 48) | (1 << 32) | (1 << 16) | 1);
    g.loop_conv_ws_config_5(0x2000, 0x3000);
    // with an input to load, the unpadded input would have a negative size
    g.loop_conv_ws_config_6(0, 0x1000);
    assert!(!g.loop_conv_ws_ok(0, 1));
    // with no input, only the weights are loaded
    g.loop_conv_ws_config_6(0, 0);
    assert!(g.loop_conv_ws_ok(0, 1));
    let cmds = g.loop_conv_ws(0, 1);
    assert!(cmds.iter().all(|c| !matches!(c, GemminiCmd::Mvin { state_id: 0, .. })));
    assert!(cmds.iter().any(|c| matches!(c, GemminiCmd::Mvin { dram_addr: 0x2000, state_id: 1, .. })));
    assert!(matches!(cmds.last(), Some(GemminiCmd::Mvout { dram_addr: 0x3000, .. })));
}
