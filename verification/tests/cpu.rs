use emu86::{Cpu, Flags, Reg16, Reg8, Seg, StepError};

#[test]
fn reset_state_is_repeatable() {
    let mut a = Cpu::new();
    let b = Cpu::new();
    a.regs.set_reg(Reg16::Ax, 0x1234);
    a.regs.set_reg8(Reg8::Bl, 0xFF);
    a.reset();
    assert_eq!(a.snapshot(), b.snapshot());
}

#[test]
fn reset_state_matches_8086() {
    let cpu = Cpu::new();
    let s = cpu.snapshot();
    assert_eq!(s.cs, 0xFFFF);
    assert_eq!(s.ip, 0x0000);
    assert_eq!(s.flags, 0xF002);
    assert_eq!(s.ax, 0);
    assert_eq!(s.ds, 0);
}

#[test]
fn loads_flat_binary_at_cs_ip() {
    const FFFF0: usize = 0xFFFF << 4;
    let mut cpu = Cpu::new();
    cpu.load_flat(0xFFFF, 0x0000, &[0xB8, 0x34, 0x12]);
    assert_eq!(cpu.mem.read(FFFF0), 0xB8);
    assert_eq!(cpu.mem.read(FFFF0 + 1), 0x34);
    assert_eq!(cpu.mem.read(FFFF0 + 2), 0x12);
    assert_eq!(cpu.linear_ip(), FFFF0);
}

#[test]
fn reset_clears_memory_and_halt() {
    let mut cpu = Cpu::default();
    cpu.load_flat(0xFFFF, 0, &[0xF4]);
    cpu.step().unwrap();
    assert!(cpu.halted);
    cpu.reset();
    assert!(!cpu.halted);
    assert_eq!(cpu.mem.read(0xFFFF0), 0);
    assert_eq!(cpu.snapshot(), Cpu::new().snapshot());
}

#[test]
fn mov_immediate_to_byte_and_word_registers() {
    let mut cpu = Cpu::new();
    // MOV CH, 0x12 ; MOV SI, 0xBEEF
    cpu.load_flat(0xFFFF, 0, &[0xB5, 0x12, 0xBE, 0xEF, 0xBE]);
    cpu.step().unwrap();
    assert_eq!(cpu.regs.reg(Reg16::Cx), 0x1200);
    assert_eq!(cpu.ip, 2);
    cpu.step().unwrap();
    assert_eq!(cpu.regs.reg(Reg16::Si), 0xBEEF);
    assert_eq!(cpu.ip, 5);
    assert_eq!(cpu.snapshot().flags, 0xF002);
}

#[test]
fn add_and_sub_ax_set_flags() {
    let mut cpu = Cpu::new();
    // MOV AX, 0xFFFF ; ADD AX, 1 ; SUB AX, 1
    cpu.load_flat(0xFFFF, 0, &[0xB8, 0xFF, 0xFF, 0x05, 0x01, 0x00, 0x2D, 0x01, 0x00]);
    cpu.step().unwrap();
    cpu.step().unwrap();
    assert_eq!(cpu.regs.reg(Reg16::Ax), 0);
    assert_eq!(cpu.snapshot().flags, 0xF057);
    cpu.step().unwrap();
    assert_eq!(cpu.regs.reg(Reg16::Ax), 0xFFFF);
    assert_eq!(cpu.snapshot().flags, 0xF097);
    assert_eq!(cpu.ip, 9);
}

#[test]
fn mov_leaves_flags_untouched() {
    let mut cpu = Cpu::new();
    cpu.flags.set(Flags::CF | Flags::ZF, true);
    // MOV AX, 0 ; MOV BX, AX (89 C3) ; MOV DL, BL (88 DA) ; MOV CX, BX (8B CB)
    cpu.load_flat(0xFFFF, 0, &[0xB8, 0x00, 0x00, 0x89, 0xC3, 0x88, 0xDA, 0x8B, 0xCB]);
    for _ in 0..4 {
        cpu.step().unwrap();
    }
    assert_eq!(cpu.snapshot().flags, 0xF002 | Flags::CF | Flags::ZF);
    assert_eq!(cpu.ip, 9);
}

#[test]
fn step_after_halt_fails_and_changes_nothing() {
    let mut cpu = Cpu::new();
    cpu.load_flat(0xFFFF, 0, &[0xF4, 0xB8, 0x01, 0x00]);
    assert_eq!(cpu.step(), Ok(()));
    assert!(cpu.halted);
    assert_eq!(cpu.ip, 1);
    let before = cpu.snapshot();
    assert_eq!(cpu.step(), Err(StepError::Halted));
    assert_eq!(cpu.snapshot(), before);
}

#[test]
fn unknown_opcode_leaves_state_unchanged() {
    let mut cpu = Cpu::new();
    cpu.load_flat(0xFFFF, 0, &[0x90]);
    let before = cpu.snapshot();
    assert_eq!(cpu.step(), Err(StepError::UnknownOpcode(0x90)));
    assert_eq!(cpu.snapshot(), before);
    assert!(!cpu.halted);
}

#[test]
fn unsupported_group_form_reports_address_and_bytes() {
    let mut cpu = Cpu::new();
    // MOV AL, 0 ; then 81 /1 (OR r/m16, imm16), which the core does not decode.
    cpu.load_flat(0xFFFF, 0, &[0xB0, 0x00, 0x81, 0xC8, 0x34, 0x12]);
    cpu.step().unwrap();
    assert_eq!(
        cpu.step(),
        Err(StepError::UnsupportedForm { ip: 2, bytes: vec![0x81, 0xC8] })
    );
    assert_eq!(cpu.ip, 2);
}

#[test]
fn group_83_sign_extends_immediate() {
    let mut cpu = Cpu::new();
    // MOV DI, 5 ; ADD DI, byte -2 (83 C7 FE) ; SUB DI, byte 3 (83 EF 03)
    cpu.load_flat(0xFFFF, 0, &[0xBF, 0x05, 0x00, 0x83, 0xC7, 0xFE, 0x83, 0xEF, 0x03]);
    cpu.step().unwrap();
    cpu.step().unwrap();
    assert_eq!(cpu.regs.reg(Reg16::Di), 3);
    assert_ne!(cpu.snapshot().flags & Flags::CF, 0);
    cpu.step().unwrap();
    assert_eq!(cpu.regs.reg(Reg16::Di), 0);
    assert_ne!(cpu.snapshot().flags & Flags::ZF, 0);
    assert_eq!(cpu.ip, 9);
}

#[test]
fn group_81_with_displacement_writes_memory() {
    let mut cpu = Cpu::new();
    cpu.regs.set_seg(Seg::Ds, 0x0100);
    // MOV BP, 0x10 ; ADD word [DI+0x20], 0x1234 (81 45 20 34 12)
    cpu.load_flat(0xFFFF, 0, &[0xBD, 0x10, 0x00, 0x81, 0x45, 0x20, 0x34, 0x12]);
    cpu.step().unwrap();
    cpu.step().unwrap();
    assert_eq!(cpu.mem.read_word(0x1020), 0x1234);
    assert_eq!(cpu.ip, 8);
}
