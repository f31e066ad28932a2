use svm::register::WasmerReg64;
use svm::wasmer_storage::{mem_to_reg_copy, reg_to_mem_copy, SvmCtx, REGS_64_COUNT};

#[test]
fn reg_copy_from_wasmer_mem() {
    let mut storage = ();
    let mut ctx = SvmCtx::new(&mut storage);

    // registers `0` and `1` are initialized with zeros
    assert_eq!(vec![0; 8], &ctx.reg(0).bytes()[..]);
    assert_eq!(vec![0; 8], &ctx.reg(1).bytes()[..]);

    // editing register `0` should not edit register `1`
    let cells = vec![10, 20, 30, 40, 50, 60, 70, 80];

    mem_to_reg_copy(&mut ctx, &cells, 0, 0, 8);

    assert_eq!(vec![10, 20, 30, 40, 50, 60, 70, 80], &ctx.reg(0).bytes()[..]);
    assert_eq!(vec![00, 00, 00, 00, 00, 00, 00, 00], &ctx.reg(1).bytes()[..]);
}

#[test]
fn reg_copy_to_wasmer_mem() {
    let mut storage = ();
    let mut ctx = SvmCtx::new(&mut storage);

    // initialize register `0` with data
    let cells = vec![10, 20, 30, 40, 50, 60, 70, 80];

    mem_to_reg_copy(&mut ctx, &cells, 0, 0, 8);
    assert_eq!(vec![10, 20, 30, 40, 50, 60, 70, 80], &ctx.reg(0).bytes()[..]);

    // a fake memory of 8 cells
    let mut cells: Vec<u8> = (0..8).map(|_| 0u8).collect();

    assert_eq!(vec![00, 00, 00, 00, 00, 00, 00, 00], cells);

    // copying register `0` content into memory
    reg_to_mem_copy(&ctx, &mut cells, 0, 0, 8);

    // asserting that the fake memory has the right changes
    assert_eq!(vec![10, 20, 30, 40, 50, 60, 70, 80], cells);
}

#[test]
fn new_ctx_has_zeroed_registers() {
    let mut storage = 5u64;
    let ctx = SvmCtx::new(&mut storage);
    for i in 0..REGS_64_COUNT {
        assert_eq!([0u8; 8], ctx.reg(i).bytes());
    }
}

#[test]
fn mem_to_reg_copy_reads_at_offset_and_keeps_tail() {
    let mut storage = ();
    let mut ctx = SvmCtx::new(&mut storage);
    let memory: Vec<u8> = (0..20).collect();
    mem_to_reg_copy(&mut ctx, &memory, 10, 7, 8);
    assert_eq!([10, 11, 12, 13, 14, 15, 16, 17], ctx.reg(7).bytes());
    // a shorter copy only overwrites its first bytes
    mem_to_reg_copy(&mut ctx, &memory, 2, 7, 3);
    assert_eq!([2, 3, 4, 13, 14, 15, 16, 17], ctx.reg(7).bytes());
    // a longer copy takes only the register's 8 bytes
    mem_to_reg_copy(&mut ctx, &memory, 0, 6, 12);
    assert_eq!([0, 1, 2, 3, 4, 5, 6, 7], ctx.reg(6).bytes());
    for i in 0..6 {
        assert_eq!([0u8; 8], ctx.reg(i).bytes());
    }
}

#[test]
fn reg_to_mem_copy_writes_only_its_window() {
    let mut storage = ();
    let mut ctx = SvmCtx::new(&mut storage);
    let source: Vec<u8> = (1..9).collect();
    mem_to_reg_copy(&mut ctx, &source, 0, 2, 8);

    let mut memory = vec![0xaau8; 16];
    reg_to_mem_copy(&ctx, &mut memory, 2, 4, 3);
    assert_eq!(
        vec![0xaa, 0xaa, 0xaa, 0xaa, 1, 2, 3, 0xaa, 0xaa, 0xaa, 0xaa, 0xaa, 0xaa, 0xaa, 0xaa, 0xaa],
        memory
    );

    let mut memory = vec![0xaau8; 12];
    reg_to_mem_copy(&ctx, &mut memory, 2, 1, 10);
    assert_eq!(vec![0xaa, 1, 2, 3, 4, 5, 6, 7, 8, 0xaa, 0xaa, 0xaa], memory);
}

#[test]
fn register_copies_round_trip() {
    let mut reg = WasmerReg64::new();
    reg.copy_from_wasmer_mem(&[9, 8, 7, 6, 5, 4, 3, 2, 1]);
    assert_eq!([9, 8, 7, 6, 5, 4, 3, 2], reg.bytes());
    let mut out = [0u8; 10];
    reg.copy_to_wasmer_mem(&mut out);
    assert_eq!([9, 8, 7, 6, 5, 4, 3, 2, 0, 0], out);
    let mut short = [0u8; 3];
    reg.copy_to_wasmer_mem(&mut short);
    assert_eq!([9, 8, 7], short);
}
