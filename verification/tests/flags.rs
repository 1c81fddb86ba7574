use emu86::flags::WRITABLE;
use emu86::Flags;

#[test]
fn static_bits_are_visible_but_not_writable() {
    let mut f = Flags::default();
    assert_eq!(f.bits(), 0xF002);
    f.set_bits(0xFFFF);
    assert_eq!(f.bits(), 0xF002 | WRITABLE);
    f.set(Flags::ZF, true);
    assert!(f.get(Flags::ZF));
    f.set(Flags::ZF, false);
    assert!(!f.get(Flags::ZF));
    assert!(f.get(Flags::CF));
    f.set(Flags::CF, false);
    assert!(!f.get(Flags::CF));
}

#[test]
fn get_answers_what_set_was_told() {
    let all = [Flags::CF, Flags::PF, Flags::AF, Flags::ZF, Flags::SF, Flags::TF, Flags::IF, Flags::DF, Flags::OF];
    let mut f = Flags::default();
    for &flag in &all {
        f.set(flag, true);
        assert!(f.get(flag));
    }
    for &flag in &all {
        f.set(flag, false);
        assert!(!f.get(flag));
    }
    assert_eq!(f.bits(), 0xF002);
}

#[test]
fn static_bits_cannot_be_cleared() {
    let mut f = Flags::default();
    f.set(0xF002, false);
    assert!(f.get(0x0002));
    assert_eq!(f.bits(), 0xF002);
    f.set_bits(0);
    assert_eq!(f.bits(), 0xF002);
    // Bits 3 and 5 never read as set.
    f.set(0x0028, true);
    assert_eq!(f.bits() & 0x0028, 0);
}

#[test]
fn update_replaces_masked_bits() {
    let mut f = Flags::default();
    f.set(Flags::CF | Flags::DF, true);
    f.update(Flags::SETTABLE, Flags::ZF | Flags::PF);
    assert_eq!(f.bits(), 0xF002 | Flags::ZF | Flags::PF | Flags::DF);
}

#[test]
fn set_bits_of_bits_changes_nothing() {
    let mut f = Flags::default();
    f.set(Flags::OF | Flags::SF | Flags::IF, true);
    let before = f.bits();
    f.set_bits(before);
    assert_eq!(f.bits(), before);
}
