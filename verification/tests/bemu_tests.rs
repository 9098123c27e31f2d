use bebop::arch::bemu::{Bemu, MATRIX_SIZE};

#[test]
fn test_mset_alloc_release() {
    let mut bemu = Bemu::new();

    // allocate bank 0: row=4, col=4
    bemu.execute_mset(0, 4 | (4 << 5) | (1 << 10));
    let config = bemu.get_bank_config(0).unwrap();
    assert_eq!(config.allocated, true);
    assert_eq!(config.rows, 4);
    assert_eq!(config.cols, 4);

    // release bank 0
    bemu.execute_mset(0, 0);
    let config_released = bemu.get_bank_config(0).unwrap();
    assert_eq!(config_released.allocated, false);

    println!("✅ MSET alloc/release test passed!");
}

#[test]
fn bemu_test_mvin_mvout() {
    let mut bemu = Bemu::new();

    // allocate bank 0
    bemu.execute_mset(0, 1 | (1 << 5) | (1 << 10));

    // test data, laid out with a 16-byte stride
    let test_data = [0x1111111111111111u64, 0x2222222222222222, 0x3333333333333333];
    let mem_addr = 0x100u64;
    for (i, &val) in test_data.iter().enumerate() {
        let addr = mem_addr + (i * 16) as u64;
        bemu.write_u64(addr, val);
    }

    // MVIN: memory to bank 0, depth 3, stride 1
    let xs1 = 0 | (0x100 << 27);
    let xs2 = 3 | (1 << 10);
    bemu.execute_mvin(xs1, xs2);

    for (i, &expected) in test_data.iter().enumerate() {
        let offset = i * 8;
        let actual = bemu.read_bank_u64(0, offset);
        assert_eq!(actual, expected, "Data mismatch at index {}", i);
    }

    // MVOUT: bank 0 to memory
    let out_addr = 0x200u64;
    let xs1_out = 0 | (out_addr << 27);
    bemu.execute_mvout(xs1_out, xs2);

    for (i, &expected) in test_data.iter().enumerate() {
        let addr = out_addr + (i * 16) as u64;
        let actual = bemu.read_u64(addr);
        assert_eq!(actual, expected, "Output mismatch at index {}", i);
    }

    println!("✅ MVIN/MVOUT test passed!");
}

#[test]
fn test_mul_warp16() {
    let mut bemu = Bemu::new();

    bemu.execute_mset(0, 16 | (16 << 5) | (1 << 10)); // op1
    bemu.execute_mset(1, 16 | (16 << 5) | (1 << 10)); // op2
    bemu.execute_mset(2, 16 | (16 << 5) | (1 << 10)); // wr

    // identity matrix in bank 0
    for i in 0..MATRIX_SIZE {
        let offset = (i * MATRIX_SIZE + i) * 8;
        bemu.write_bank_u64(0, offset, 1u64);
    }

    // 2I in bank 1
    for i in 0..MATRIX_SIZE {
        let offset = (i * MATRIX_SIZE + i) * 8;
        bemu.write_bank_u64(1, offset, 2u64);
    }

    // I x 2I = 2I
    let xs1 = 0 | (1 << 5) | (2 << 10); // op1=0, op2=1, wr=2
    let xs2 = 16; // iter=16
    bemu.execute_mul_warp16(xs1, xs2);

    for i in 0..MATRIX_SIZE {
        for j in 0..MATRIX_SIZE {
            let offset = ((i * MATRIX_SIZE + j) * 8) as usize;
            let actual = bemu.read_bank_u64(2, offset);
            let expected = if i == j { 2 } else { 0 };
            assert_eq!(actual, expected, "Mismatch at [{}][{}]", i, j);
        }
    }

    println!("✅ MUL_WARP16 test passed!");
}

#[test]
fn test_transpose() {
    let mut bemu = Bemu::new();

    bemu.execute_mset(0, 16 | (16 << 5) | (1 << 10)); // op1
    bemu.execute_mset(1, 16 | (16 << 5) | (1 << 10)); // wr

    for i in 0..MATRIX_SIZE {
        for j in 0..MATRIX_SIZE {
            let offset = ((i * MATRIX_SIZE + j) * 8) as usize;
            let value = ((i * MATRIX_SIZE + j) as u64) + 1;
            bemu.write_bank_u64(0, offset, value);
        }
    }

    let xs1 = 0 | (1 << 10); // op1=0, wr=1
    let xs2 = 16; // iter=16
    bemu.execute_transpose(xs1, xs2);

    for i in 0..MATRIX_SIZE {
        for j in 0..MATRIX_SIZE {
            let offset = ((i * MATRIX_SIZE + j) * 8) as usize;
            let actual = bemu.read_bank_u64(1, offset);
            let expected = ((j * MATRIX_SIZE + i) as u64) + 1;
            assert_eq!(actual, expected, "Transpose mismatch at [{}][{}]", i, j);
        }
    }

    println!("✅ TRANSPOSE test passed!");
}
