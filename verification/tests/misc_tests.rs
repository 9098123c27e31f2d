use bebop::arch::buckyball::bank::BankStore;
use bebop::arch::buckyball::systolic_array::{
    is_systolic_array_idle, receive_systolic_array_inst, split_u128_to_u64s, SystolicArray, SystolicResponse,
    SystolicSlot, SystolicStep,
};
use bebop::buckyball::balldomain::domain_decoder::DomainDecoder;
use bebop::buckyball::balldomain::transpose::TransBall;
use bebop::buckyball::memdomain::dma::TDMA;
use bebop::buckyball::memdomain::memdomain::{decode_funct, MemInstType};
use bebop::builtin::port::Wire;
use bebop::config::NpuConfig;

#[test]
fn bytes_of_a_word_most_significant_first() {
    let v: u128 = 0x0102030405060708090a0b0c0d0e0f10;
    let bytes = split_u128_to_u64s(v);
    assert_eq!(bytes, (1..=16).collect::<Vec<u64>>());
}

#[test]
fn systolic_slot_takes_one_instruction() {
    let mut slot = SystolicSlot::new();
    assert!(is_systolic_array_idle(&slot));
    receive_systolic_array_inst(&mut slot, 0, 1, 2, 16, 16, 16, 3);
    assert!(!is_systolic_array_idle(&slot));
    receive_systolic_array_inst(&mut slot, 5, 5, 5, 1, 1, 1, 9);
    assert_eq!(slot.inst.unwrap().rob_id, 3);
}

#[test]
fn systolic_load_errors() {
    let mut sa = SystolicArray::new("w".to_string(), "q".to_string(), "r".to_string(), "c".to_string());
    assert!(sa.load_matrices(vec![], vec![vec![1]]).is_err());
    assert!(sa.load_matrices(vec![vec![1, 2]], vec![vec![1]]).is_err());
    let tall: Vec<Vec<u64>> = vec![vec![1]; 17];
    assert!(sa.load_matrices(tall, vec![vec![1]]).is_err());
    assert!(sa.get_results().is_none());
    assert!(!sa.cycle());
}

#[test]
fn systolic_identity_times_matrix() {
    let mut sa = SystolicArray::new("w".to_string(), "q".to_string(), "r".to_string(), "c".to_string());
    // A = 2 (with zeros made one) and B all ones: every entry is 2 + 15
    sa.load_matrices(vec![vec![2]], vec![vec![1]]).unwrap();
    sa.start();
    let mut cycles = 0;
    while sa.cycle() {
        cycles += 1;
    }
    assert_eq!(cycles, 46);
    let r = sa.get_results().unwrap();
    assert_eq!(r[0][0], 17);
    assert_eq!(r[0][5], 17);
    assert_eq!(r[3][3], 16);
}

#[test]
fn ball_domain_decoding() {
    let mut d = DomainDecoder::new();
    assert_eq!(d.exec_int(), None);
    assert!(d.new_inst_ext(Some((28, 1, 2, 3))));
    assert_eq!(d.exec_int(), Some((28, 1, 2, 3, 1)));
    assert!(d.new_inst_ext(None));
    assert_eq!(d.exec_int(), None);
    let mut t = TransBall::new();
    assert_eq!(t.exec_int(), None);
    assert!(t.new_inst_ext(Some((28, 4, 5, 6))));
    assert_eq!(t.exec_int(), Some((28, 4, 5)));
}

#[test]
fn memory_instructions_decode() {
    let m = decode_funct(25, 0xabcd_1234_5678, (3 << 24) | (16 << 8) | 2).unwrap();
    assert_eq!(m.inst_type, MemInstType::Mvout);
    assert_eq!((m.base_dram_addr, m.stride, m.depth, m.vbank_id), (0x1234_5678, 3, 16, 2));
    assert!(decode_funct(26, 0, 0).is_none());
    let mut dma = TDMA::new();
    assert_eq!(dma.read(0x10, 8).unwrap(), 0);
    assert!(dma.write(0x10, 1, 8).is_ok());
}

#[test]
fn wires_and_configuration() {
    let mut w = Wire::new(5u32);
    assert!(!w.valid);
    w.set(7);
    assert!(w.valid && w.value == 7);
    w.clear();
    assert!(!w.valid && w.value == 7);
    let d: Wire<u32> = Wire::default();
    assert!(!d.valid && d.value == 0);
    assert_eq!(NpuConfig::new().mem_size, 1024);
    assert_eq!(NpuConfig::default().mem_size, 1024);
    assert_eq!(NpuConfig::with_mem_size(64).mem_size, 64);
}

fn pad_one(v: u64) -> u64 {
    if v == 0 {
        1
    } else {
        v
    }
}

#[test]
fn systolic_instruction_multiplies_a_by_b() {
    let a = |i: usize, j: usize| -> u64 { ((i + 2 * j + 1) % 7) as u64 };
    let b = |i: usize, j: usize| -> u64 { ((3 * i + j) % 5) as u64 };
    // each row of 16 bytes is one word, entry j in byte j
    let words = |f: &dyn Fn(usize, usize) -> u64| -> Vec<u128> {
        (0..16).map(|i| (0..16).fold(0u128, |w, j| w | ((f(i, j) as u128) << (8 * j)))).collect()
    };
    let a_words = words(&a);
    let b_words = words(&b);
    let mut sa = SystolicArray::new("w".to_string(), "q".to_string(), "r".to_string(), "c".to_string());
    let mut slot = SystolicSlot::new();
    let mut store = BankStore::new();
    receive_systolic_array_inst(&mut slot, 0, 1, 2, 16, 16, 16, 7);
    assert!(matches!(sa.internal_step(&mut slot, &mut store), SystolicStep::Waiting));
    assert!(matches!(sa.internal_step(&mut slot, &mut store), SystolicStep::ReadIssued { count: 256 }));
    assert!(matches!(sa.on_read_response(&a_words, &mut slot), Ok(SystolicResponse::NextOperand)));
    assert!(matches!(sa.internal_step(&mut slot, &mut store), SystolicStep::ReadIssued { count: 256 }));
    assert!(matches!(sa.on_read_response(&b_words, &mut slot), Ok(SystolicResponse::Computing { cycles: 46 })));
    let data = match sa.internal_step(&mut slot, &mut store) {
        SystolicStep::WriteResult { data, m_dim, n_dim } => {
            assert_eq!((m_dim, n_dim), (16, 16));
            data
        },
        _ => panic!("no result"),
    };
    assert_eq!(data.len(), 64);
    let product = |i: usize, j: usize, by_rows: bool| -> u64 {
        (0..16).map(|k| pad_one(a(i, k)) * pad_one(if by_rows { b(j, k) } else { b(k, j) })).sum()
    };
    let mut differs = false;
    for i in 0..16 {
        for j in 0..16 {
            let word = data[i * 4 + j / 4];
            let got = ((word >> (32 * (j % 4))) & 0xffff_ffff) as u64;
            assert_eq!(got, product(i, j, false));
            differs = differs || got != product(i, j, true);
        }
    }
    // A times the transpose of B gives another result
    assert!(differs);
    assert!(matches!(sa.internal_step(&mut slot, &mut store), SystolicStep::Commit { rob_id: 7 }));
}

#[test]
fn systolic_load_error_texts() {
    let mut sa = SystolicArray::new("w".to_string(), "q".to_string(), "r".to_string(), "c".to_string());
    assert_eq!(sa.load_matrices(vec![], vec![vec![1]]).unwrap_err(), "Matrices cannot be empty");
    assert_eq!(
        sa.load_matrices(vec![vec![1, 2]], vec![vec![1]]).unwrap_err(),
        "Matrix dimensions mismatch: A has 2 columns, B has 1 rows"
    );
    let tall: Vec<Vec<u64>> = vec![vec![1]; 17];
    assert_eq!(
        sa.load_matrices(tall, vec![vec![1]]).unwrap_err(),
        "Matrix dimensions exceed array size: Array is 16x16, A is 17x1, B is 1x1"
    );
}
