use emu86::{Reg16, Reg8, RegFile, Seg};

#[test]
fn byte_views_alias_word() {
    let mut rf = RegFile::new();
    rf.set_reg8(Reg8::Al, 0x12);
    rf.set_reg8(Reg8::Ah, 0x34);
    assert_eq!(rf.reg(Reg16::Ax), 0x3412);
    rf.set_reg(Reg16::Ax, 0xABCD);
    assert_eq!(rf.reg8(Reg8::Al), 0xCD);
    assert_eq!(rf.reg8(Reg8::Ah), 0xAB);
}

#[test]
fn byte_write_keeps_other_half_and_other_registers() {
    let mut rf = RegFile::new();
    rf.set_reg(Reg16::Dx, 0x1122);
    rf.set_reg(Reg16::Bx, 0x3344);
    rf.set_reg8(Reg8::Dh, 0xEE);
    assert_eq!(rf.reg(Reg16::Dx), 0xEE22);
    assert_eq!(rf.reg(Reg16::Bx), 0x3344);
    rf.set_reg8(Reg8::Bl, 0x99);
    assert_eq!(rf.reg(Reg16::Bx), 0x3399);
    assert_eq!(rf.reg8(Reg8::Bl), 0x99);
    assert_eq!(rf.reg8(Reg8::Dh), 0xEE);
}

#[test]
fn segments_are_separate_from_words() {
    let mut rf = RegFile::default();
    rf.set_seg(Seg::Ds, 0x1234);
    rf.set_seg(Seg::Ss, 0x5678);
    assert_eq!(rf.seg(Seg::Ds), 0x1234);
    assert_eq!(rf.seg(Seg::Ss), 0x5678);
    assert_eq!(rf.seg(Seg::Es), 0);
    assert_eq!(rf.seg(Seg::Cs), 0);
    for i in 0..8u8 {
        assert_eq!(rf.reg(Reg16::from_index(i)), 0);
    }
}

#[test]
fn from_index_uses_low_three_bits() {
    assert_eq!(Reg16::from_index(0), Reg16::Ax);
    assert_eq!(Reg16::from_index(7), Reg16::Di);
    assert_eq!(Reg16::from_index(0b1111_1101), Reg16::Bp);
    assert_eq!(Reg8::from_index(4), Reg8::Ah);
    assert_eq!(Reg8::from_index(0xB3), Reg8::Bl);
    assert_eq!(Reg16::Si.index(), 6);
    assert_eq!(Reg8::Ch.index(), 5);
    assert_eq!(Seg::Ds.index(), 3);
}
