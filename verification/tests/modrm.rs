use emu86::{Memory, Operand, Reg16, Reg8, RegFile, Seg};

fn regs() -> RegFile {
    let mut r = RegFile::new();
    r.set_reg(Reg16::Bx, 0x1000);
    r.set_reg(Reg16::Bp, 0x2000);
    r.set_reg(Reg16::Si, 0x0300);
    r.set_reg(Reg16::Di, 0x0400);
    r
}

fn dec(modrm: u8, disp: &[u8], regs: RegFile, wide: bool) -> Operand {
    Operand::decode_rm(disp, regs, modrm, wide)
}

#[test]
fn register_direct_selects_word_or_byte_view() {
    assert_eq!(dec(0b11_000_111, &[], regs(), true), Operand::Reg16(Reg16::Di));
    assert_eq!(dec(0b11_000_101, &[], regs(), false), Operand::Reg8(Reg8::Ch));
}

#[test]
fn mod0_covers_all_eight_address_forms() {
    let r = regs();
    assert_eq!(dec(0b00_000_000, &[], r, true), Operand::Word { seg: Seg::Ds, off: 0x1300 });
    assert_eq!(dec(0b00_000_001, &[], r, true), Operand::Word { seg: Seg::Ds, off: 0x1400 });
    assert_eq!(dec(0b00_000_010, &[], r, true), Operand::Word { seg: Seg::Ss, off: 0x2300 });
    assert_eq!(dec(0b00_000_011, &[], r, true), Operand::Word { seg: Seg::Ss, off: 0x2400 });
    assert_eq!(dec(0b00_000_100, &[], r, true), Operand::Word { seg: Seg::Ds, off: 0x0300 });
    assert_eq!(dec(0b00_000_101, &[], r, true), Operand::Word { seg: Seg::Ds, off: 0x0400 });
    assert_eq!(dec(0b00_000_111, &[], r, true), Operand::Word { seg: Seg::Ds, off: 0x1000 });
}

#[test]
fn mod0_rm6_is_direct_address_not_bp() {
    assert_eq!(
        dec(0b00_000_110, &[0x00, 0x10], regs(), true),
        Operand::Word { seg: Seg::Ds, off: 0x1000 }
    );
}

#[test]
fn mod1_sign_extends_disp8() {
    assert_eq!(dec(0b01_000_000, &[0x02], regs(), true), Operand::Word { seg: Seg::Ds, off: 0x1302 });
    assert_eq!(dec(0b01_000_000, &[0xFF], regs(), true), Operand::Word { seg: Seg::Ds, off: 0x12FF });
}

#[test]
fn mod2_adds_disp16() {
    assert_eq!(
        dec(0b10_000_010, &[0x34, 0x12], regs(), true),
        Operand::Word { seg: Seg::Ss, off: 0x3534 }
    );
}

#[test]
fn byte_mode_yields_byte_operand() {
    assert_eq!(dec(0b00_000_100, &[], regs(), false), Operand::Byte { seg: Seg::Ds, off: 0x0300 });
}

#[test]
fn base_sums_wrap_at_16_bits() {
    let mut r = RegFile::new();
    r.set_reg(Reg16::Bx, 0xFFFF);
    r.set_reg(Reg16::Si, 0xFFFF);
    assert_eq!(dec(0b00_000_000, &[], r, true), Operand::Word { seg: Seg::Ds, off: 0xFFFE });
}

#[test]
fn fetch_reads_low_byte_first() {
    assert_eq!(
        dec(0b00_000_110, &[0x34, 0x12], regs(), true),
        Operand::Word { seg: Seg::Ds, off: 0x1234 }
    );
}

#[test]
fn decode_reg_maps_reg_field() {
    assert_eq!(Operand::decode_reg(0b00_101_000, true), Operand::Reg16(Reg16::Bp));
    assert_eq!(Operand::decode_reg(0b00_100_000, false), Operand::Reg8(Reg8::Ah));
}

#[test]
fn read_write_roundtrip_through_memory() {
    let mut r = RegFile::new();
    let mut m = Memory::new();
    let o = Operand::Word { seg: Seg::Ds, off: 0x0010 };
    o.write(&mut r, &mut m, 0xBEEF);
    assert_eq!(o.read(&r, &m), 0xBEEF);
    assert_eq!(m.read_word(0x0010), 0xBEEF);
}

#[test]
fn read_write_roundtrip_through_byte_reg() {
    let mut r = RegFile::new();
    let mut m = Memory::new();
    let o = Operand::Reg8(Reg8::Bh);
    o.write(&mut r, &mut m, 0x5A);
    assert_eq!(o.read(&r, &m), 0x005A);
    assert_eq!(r.reg(Reg16::Bx), 0x5A00);
}

#[test]
fn mod1_with_bp_uses_stack_segment() {
    assert_eq!(dec(0b01_000_110, &[0x10], regs(), false), Operand::Byte { seg: Seg::Ss, off: 0x2010 });
    assert_eq!(dec(0b10_000_110, &[0xFF, 0xFF], regs(), true), Operand::Word { seg: Seg::Ss, off: 0x1FFF });
}

#[test]
fn displacement_lengths_follow_mod() {
    assert_eq!(emu86::modrm::displacement_len(0b00_000_000), 0);
    assert_eq!(emu86::modrm::displacement_len(0b00_000_110), 2);
    assert_eq!(emu86::modrm::displacement_len(0b01_000_110), 1);
    assert_eq!(emu86::modrm::displacement_len(0b10_111_001), 2);
    assert_eq!(emu86::modrm::displacement_len(0b11_000_110), 0);
}

#[test]
fn byte_memory_write_takes_low_byte_and_uses_segment() {
    let mut r = RegFile::new();
    let mut m = Memory::new();
    r.set_seg(Seg::Es, 0x1000);
    let o = Operand::Byte { seg: Seg::Es, off: 0xFFFF };
    o.write(&mut r, &mut m, 0x1234);
    assert_eq!(m.read(0x1FFFF), 0x34);
    assert_eq!(m.read(0x20000), 0);
    assert_eq!(o.read(&r, &m), 0x34);
}

#[test]
fn word_operand_straddling_one_mebibyte_roundtrips() {
    let mut r = RegFile::new();
    let mut m = Memory::new();
    r.set_seg(Seg::Ds, 0xFFFF);
    let o = Operand::Word { seg: Seg::Ds, off: 0x000F };
    o.write(&mut r, &mut m, 0xCAFE);
    assert_eq!(m.read(0xFFFFF), 0xFE);
    assert_eq!(m.read(0), 0xCA);
    assert_eq!(o.read(&r, &m), 0xCAFE);
}
