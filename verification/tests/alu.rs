use emu86::Flags;

#[test]
fn add_carry_and_zero() {
    let (r, f) = emu86::alu::add(0xFFFF, 1);
    assert_eq!(r, 0);
    assert_eq!(f, Flags::CF | Flags::ZF | Flags::AF | Flags::PF);
}

#[test]
fn add_signed_overflow_sets_of_and_sf() {
    let (r, f) = emu86::alu::add(0x7FFF, 1);
    assert_eq!(r, 0x8000);
    assert_eq!(f, Flags::SF | Flags::OF | Flags::AF | Flags::PF);
}

#[test]
fn sub_borrow() {
    let (r, f) = emu86::alu::sub(0, 1);
    assert_eq!(r, 0xFFFF);
    assert_eq!(f, Flags::CF | Flags::SF | Flags::AF | Flags::PF);
}

#[test]
fn sub_signed_overflow() {
    let (r, f) = emu86::alu::sub(0x8000, 1);
    assert_eq!(r, 0x7FFF);
    assert_eq!(f, Flags::AF | Flags::PF | Flags::OF);
}

#[test]
fn add_plain_sum_sets_parity_only() {
    // 1 + 2 = 3: two one bits in the low byte, so even parity.
    let (r, f) = emu86::alu::add(1, 2);
    assert_eq!(r, 3);
    assert_eq!(f, Flags::PF);
}

#[test]
fn add_odd_parity_clears_pf() {
    let (r, f) = emu86::alu::add(0x0100, 0x0001);
    assert_eq!(r, 0x0101);
    assert_eq!(f, 0);
}

#[test]
fn sub_to_zero_sets_zf_and_pf() {
    let (r, f) = emu86::alu::sub(0x1234, 0x1234);
    assert_eq!(r, 0);
    assert_eq!(f, Flags::ZF | Flags::PF);
}

#[test]
fn sub_negative_overflow_into_positive() {
    // -32768 - 1 does not fit in 16 signed bits; no borrow, as 0x8000 >= 1.
    let (r, f) = emu86::alu::sub(0x8000, 0x0001);
    assert_eq!(r, 0x7FFF);
    assert_ne!(f & Flags::OF, 0);
    assert_eq!(f & Flags::CF, 0);
}

#[test]
fn add_then_sub_gives_back_the_operand() {
    for &(a, b) in &[(0u16, 0u16), (0xFFFF, 1), (0x1234, 0xFEDC), (0x8000, 0x8000), (7, 0xFFF0)] {
        let (s, _) = emu86::alu::add(a, b);
        let (d, _) = emu86::alu::sub(s, b);
        assert_eq!(d, a);
        let (d2, _) = emu86::alu::sub(a, b);
        let (s2, _) = emu86::alu::add(d2, b);
        assert_eq!(s2, a);
    }
}

#[test]
fn arithmetic_sets_only_status_flags() {
    for a in (0u16..=0xFFFF).step_by(257) {
        for b in (0u16..=0xFFFF).step_by(1021) {
            let (_, f) = emu86::alu::add(a, b);
            assert_eq!(f & !Flags::SETTABLE, 0);
            let (_, g) = emu86::alu::sub(a, b);
            assert_eq!(g & !Flags::SETTABLE, 0);
            assert_eq!(g & Flags::CF != 0, a < b);
        }
    }
}
