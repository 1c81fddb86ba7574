use emu86::{Cpu, Reg16, StepError};

const MAX_STEPS: usize = 64;

struct Expectation {
    ax: u16,
    flags: u16,
    ip: u16,
}

/// The flat test programs, assembled by hand, with the results they must end in.
fn programs() -> Vec<(&'static str, Vec<u8>, Expectation)> {
    let mut wrap = Vec::new();
    for _ in 0..7 {
        wrap.extend_from_slice(&[0xB0, 0x00]); // MOV AL, 0
    }
    wrap.extend_from_slice(&[0xB8, 0x34, 0x12, 0xF4]); // MOV AX, 0x1234 ; HLT
    vec![
        ("arith", vec![0xB8, 0x01, 0x00, 0x05, 0x02, 0x00, 0xF4], Expectation { ax: 0x0003, flags: 0xF006, ip: 7 }),
        ("carry", vec![0xB8, 0xFF, 0xFF, 0x05, 0x01, 0x00, 0xF4], Expectation { ax: 0x0000, flags: 0xF057, ip: 7 }),
        ("overflow", vec![0xB8, 0xFF, 0x7F, 0x05, 0x01, 0x00, 0xF4], Expectation { ax: 0x8000, flags: 0xF896, ip: 7 }),
        ("underflow", vec![0xB8, 0x00, 0x00, 0x2D, 0x01, 0x00, 0xF4], Expectation { ax: 0xFFFF, flags: 0xF097, ip: 7 }),
        ("wrap", wrap, Expectation { ax: 0x1234, flags: 0xF002, ip: 0x12 }),
        ("memory", memory_program(), Expectation { ax: 0x0100, flags: 0xF013, ip: 0x12 }),
    ]
}

/// MOV BX, 0x20 ; MOV AX, 0x100 ; MOV [BX], AX ; ADD word [BX], 0x1000 ;
/// SUB word [BX], byte -1 ; MOV CX, [BX] ; HLT
fn memory_program() -> Vec<u8> {
    vec![
        0xBB, 0x20, 0x00, 0xB8, 0x00, 0x01, 0x89, 0x07, 0x81, 0x07, 0x00, 0x10, 0x83, 0x2F, 0xFF, 0x8B,
        0x0F, 0xF4,
    ]
}

fn run_program(bin: &[u8]) -> Cpu {
    let mut cpu = Cpu::new();
    cpu.load_flat(0xFFFF, 0x0000, bin);
    for _ in 0..MAX_STEPS {
        if cpu.halted {
            return cpu;
        }
        cpu.step().expect("program step failed");
    }
    panic!("program did not halt within {MAX_STEPS} steps");
}

#[test]
fn programs_match_expected_results() {
    for (name, bin, e) in programs() {
        let cpu = run_program(&bin);
        let s = cpu.snapshot();
        assert_eq!(s.ax, e.ax, "{name}: ax mismatch");
        assert_eq!(s.flags, e.flags, "{name}: flags mismatch");
        assert_eq!(s.ip, e.ip, "{name}: ip mismatch");
        assert!(cpu.halted, "{name}: cpu must be halted");
    }
}

#[test]
fn wrap_program_fetches_across_one_mebibyte_boundary() {
    let (_, bin, _) = programs().remove(4);
    let cpu = run_program(&bin);
    assert_eq!(cpu.mem.read(0xFFFFF), 0x34);
    assert_eq!(cpu.mem.read(0x00000), 0x12);
    assert_eq!(cpu.mem.read(0x00001), 0xF4);
    assert_eq!(cpu.regs.reg(Reg16::Ax), 0x1234);
}

#[test]
fn replay_produces_identical_results() {
    for (name, bin, _) in programs() {
        let mut cpu = Cpu::new();
        cpu.load_flat(0xFFFF, 0x0000, &bin);
        while !cpu.halted {
            cpu.step().unwrap();
        }
        let first = cpu.snapshot();

        cpu.reset();
        cpu.load_flat(0xFFFF, 0x0000, &bin);
        while !cpu.halted {
            cpu.step().unwrap();
        }
        let second = cpu.snapshot();

        assert_eq!(first, second, "{name}: replay diverged");
    }
}

#[test]
fn memory_program_roundtrips_through_ram() {
    let cpu = run_program(&memory_program());
    assert_eq!(cpu.regs.reg(Reg16::Cx), 0x1101);
    assert_eq!(cpu.mem.read_word(0x0020), 0x1101);
}

#[test]
fn step_error_for_unknown_is_exhaustive() {
    let mut cpu = Cpu::new();
    cpu.load_flat(0xFFFF, 0x0000, &[0x0F]);
    assert_eq!(cpu.step(), Err(StepError::UnknownOpcode(0x0F)));
}
