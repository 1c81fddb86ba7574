//! The 8086 flags register. Bit 1 and the top nibble always read as 1
//! (`STATIC`); bits 3 and 5 always read as 0; the other bits are writable.
use vstd::prelude::*;

verus! {

/// The bits that always read as 1.
pub const STATIC: u16 = 0xF002;

/// The bits that software can change.
pub const WRITABLE: u16 = 0x0FD5;

/// The word that the flags register reads as when it stores `raw`.
pub open spec fn visible(raw: u16) -> u16 {
    raw | STATIC
}

/// What the register stores after `set_bits(v)`: the writable part of `v`.
pub open spec fn stored(v: u16) -> u16 {
    v & WRITABLE
}

/// The flags word that `set(flag, on)` turns `word` into, before masking.
pub open spec fn with_flag(word: u16, flag: u16, on: bool) -> u16 {
    if on {
        word | flag
    } else {
        word & !flag
    }
}

/// The flags word that `update(mask, bits)` turns `word` into, before
/// masking: the bits under `mask` are cleared, then `bits` are set.
pub open spec fn with_update(word: u16, mask: u16, bits: u16) -> u16 {
    (word & !mask) | bits
}

/// The flags register.
#[derive(Debug, Clone, Copy, PartialEq, Eq, Structural)]
pub struct Flags(u16);

impl Flags {
    /// Carry.
    pub const CF: u16 = 0x0001;
    /// Parity (even parity of the low byte of a result).
    pub const PF: u16 = 0x0004;
    /// Auxiliary carry (out of bit 3).
    pub const AF: u16 = 0x0010;
    /// Zero.
    pub const ZF: u16 = 0x0040;
    /// Sign.
    pub const SF: u16 = 0x0080;
    /// Trap.
    pub const TF: u16 = 0x0100;
    /// Interrupt enable.
    pub const IF: u16 = 0x0200;
    /// Direction.
    pub const DF: u16 = 0x0400;
    /// Overflow.
    pub const OF: u16 = 0x0800;
    /// The flags that arithmetic sets: CF, PF, AF, ZF, SF and OF.
    pub const SETTABLE: u16 = 0x08D5;

    /// Only writable bits are ever stored.
    #[verifier::type_invariant]
    closed spec fn only_writable(self) -> bool {
        self.0 & WRITABLE == self.0
    }

    /// The stored bits.
    pub closed spec fn raw(self) -> u16 {
        self.0
    }

    /// The word that the register reads as.
    pub open spec fn value(self) -> u16 {
        visible(self.raw())
    }

    /// The flags register with every writable bit clear.
    pub fn new() -> (f: Flags)
        ensures
            f.raw() == 0,
            f.value() == STATIC,
    {
        assert(0u16 & WRITABLE == 0u16) by (bit_vector);
        assert(0u16 | STATIC == STATIC) by (bit_vector);
        Flags(0)
    }

    /// The flags word, static bits included. Bit 1 and the top nibble are
    /// always set and bits 3 and 5 always clear.
    pub fn bits(self) -> (r: u16)
        ensures
            r == self.value(),
            r & STATIC == STATIC,
            r & 0x0028 == 0,
            r & WRITABLE == self.raw(),
    {
        proof { use_type_invariant(&self); }
        let raw = self.0;
        let r = raw | STATIC;
        assert(r & STATIC == STATIC && r & 0x0028 == 0 && r & WRITABLE == raw) by (bit_vector)
            requires
                raw & 0x0FD5u16 == raw,
                r == raw | 0xF002u16,
                STATIC == 0xF002u16,
                WRITABLE == 0x0FD5u16,
        ;
        r
    }

    /// Stores the writable part of `v`; the rest is ignored.
    pub fn set_bits(&mut self, v: u16)
        ensures
            final(self).raw() == stored(v),
            final(self).value() == visible(stored(v)),
    {
        let s = v & WRITABLE;
        assert(s & WRITABLE == s) by (bit_vector)
            requires
                s == v & 0x0FD5u16,
                WRITABLE == 0x0FD5u16,
        ;
        self.0 = s;
    }

    /// Whether any bit of `flag` is set in the flags word.
    pub fn get(self, flag: u16) -> (on: bool)
        ensures
            on == (self.value() & flag != 0),
    {
        self.bits() & flag != 0
    }

    /// Sets (`on`) or clears the bits of `flag`; static bits stay as they are.
    pub fn set(&mut self, flag: u16, on: bool)
        ensures
            final(self).raw() == stored(with_flag(old(self).value(), flag, on)),
    {
        let b = self.bits();
        let w = if on { b | flag } else { b & !flag };
        self.set_bits(w);
    }

    /// Clears the bits under `mask`, then sets `bits`; static bits stay as
    /// they are.
    pub fn update(&mut self, mask: u16, bits: u16)
        ensures
            final(self).raw() == stored(with_update(old(self).value(), mask, bits)),
    {
        let b = self.bits();
        self.set_bits((b & !mask) | bits);
    }
}

impl Default for Flags {
    fn default() -> (f: Flags)
        ensures
            f.raw() == 0,
            f.value() == STATIC,
    {
        Flags::new()
    }
}

/// Two flags registers that store the same bits are equal.
pub proof fn lemma_raw_determines(a: Flags, b: Flags)
    requires
        a.raw() == b.raw(),
    ensures
        a == b,
{
}

/// A flags word that the register can hold keeps its static bits set and
/// bits 3 and 5 clear.
pub open spec fn is_flags_word(word: u16) -> bool {
    word & STATIC == STATIC && word & 0x0028 == 0
}

/// Reading back after `set`: for any mask of writable bits, `get` answers
/// what `set` was told, whatever the register held before.
pub proof fn lemma_get_after_set(raw: u16, flag: u16, on: bool)
    requires
        flag != 0,
        flag & WRITABLE == flag,
    ensures
        (visible(stored(with_flag(visible(raw), flag, on))) & flag != 0) == on,
{
    if on {
        assert(((((raw | 0xF002u16) | flag) & 0x0FD5u16) | 0xF002u16) & flag != 0) by (bit_vector)
            requires
                flag != 0,
                flag & 0x0FD5u16 == flag,
        ;
    } else {
        assert(((((raw | 0xF002u16) & !flag) & 0x0FD5u16) | 0xF002u16) & flag == 0) by (bit_vector)
            requires
                flag & 0x0FD5u16 == flag,
        ;
    }
}

/// Static bits cannot be cleared: after `set`, `set_bits` or `update` the
/// register still reads every static bit as set and bits 3 and 5 as clear.
pub proof fn lemma_stored_word_is_flags_word(v: u16)
    ensures
        is_flags_word(visible(stored(v))),
{
    assert(((v & 0x0FD5u16) | 0xF002u16) & 0xF002u16 == 0xF002u16) by (bit_vector);
    assert(((v & 0x0FD5u16) | 0xF002u16) & 0x0028u16 == 0) by (bit_vector);
}

/// Writing a word that the register can read back changes nothing:
/// `set_bits(bits())` leaves the register as it was.
pub proof fn lemma_set_bits_of_bits(raw: u16)
    requires
        raw & WRITABLE == raw,
    ensures
        stored(visible(raw)) == raw,
{
    assert((raw | 0xF002u16) & 0x0FD5u16 == raw) by (bit_vector)
        requires
            raw & 0x0FD5u16 == raw,
    ;
}

} // verus!
