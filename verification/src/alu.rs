//! 16-bit addition and subtraction with the 8086 status flags.
use vstd::prelude::*;
use crate::flags::Flags;
use crate::reg::low_byte;

verus! {

/// The number of one bits in `x`.
pub open spec fn bit_count(x: nat) -> nat
    decreases x,
{
    if x == 0 {
        0
    } else {
        x % 2 + bit_count(x / 2)
    }
}

/// Whether `x` has an even number of one bits.
pub open spec fn even_parity(x: u8) -> bool {
    bit_count(x as nat) % 2 == 0
}

/// Whether `x`, read as a two's-complement number, is negative.
pub open spec fn is_negative(x: u16) -> bool {
    x >= 0x8000
}

/// The 16-bit sum of `a` and `b`, wrapped.
pub open spec fn sum16(a: u16, b: u16) -> u16 {
    ((a + b) % 0x10000) as u16
}

/// The 16-bit difference `a - b`, wrapped.
pub open spec fn diff16(a: u16, b: u16) -> u16 {
    ((a - b + 0x10000) % 0x10000) as u16
}

/// Signed overflow of `a + b`: both operands have one sign and the sum the
/// other.
pub open spec fn add_overflows(a: u16, b: u16) -> bool {
    is_negative(a) == is_negative(b) && is_negative(sum16(a, b)) != is_negative(a)
}

/// Signed overflow of `a - b`: the operands have different signs and the
/// difference has the sign of `b`.
pub open spec fn sub_overflows(a: u16, b: u16) -> bool {
    is_negative(a) != is_negative(b) && is_negative(diff16(a, b)) != is_negative(a)
}

/// The status flags that an arithmetic result sets: carry `cf`, parity of
/// the low byte, auxiliary carry `af`, zero, sign and overflow `of`. Every
/// other bit is clear.
pub open spec fn status_flags(cf: bool, af: bool, of: bool, r: u16) -> u16 {
    (if cf {
        Flags::CF
    } else {
        0u16
    }) | (if even_parity(low_byte(r)) {
        Flags::PF
    } else {
        0u16
    }) | (if af {
        Flags::AF
    } else {
        0u16
    }) | (if r == 0 {
        Flags::ZF
    } else {
        0u16
    }) | (if is_negative(r) {
        Flags::SF
    } else {
        0u16
    }) | (if of {
        Flags::OF
    } else {
        0u16
    })
}

/// The flags that `add(a, b)` produces.
pub open spec fn add_flags(a: u16, b: u16) -> u16 {
    status_flags(a + b > 0xFFFF, a % 16 + b % 16 > 15, add_overflows(a, b), sum16(a, b))
}

/// The flags that `sub(a, b)` produces.
pub open spec fn sub_flags(a: u16, b: u16) -> u16 {
    status_flags(a < b, a % 16 < b % 16, sub_overflows(a, b), diff16(a, b))
}

proof fn lemma_bit_count_bound(x: nat, k: nat)
    requires
        x < vstd::arithmetic::power2::pow2(k),
    ensures
        bit_count(x) <= k,
    decreases k,
{
    if k > 0 && x > 0 {
        vstd::arithmetic::power2::lemma_pow2_unfold(k);
        lemma_bit_count_bound(x / 2, (k - 1) as nat);
    } else if x > 0 {
        vstd::arithmetic::power2::lemma2_to64();
    }
}

/// Whether the byte `x` has an even number of one bits.
fn has_even_parity(x: u8) -> (even: bool)
    ensures
        even == even_parity(x),
{
    proof {
        vstd::arithmetic::power2::lemma2_to64();
        lemma_bit_count_bound(x as nat, 8);
    }
    let mut v: u8 = x;
    let mut count: u8 = 0;
    while v != 0
        invariant
            count + bit_count(v as nat) == bit_count(x as nat),
            bit_count(x as nat) <= 8,
        decreases v,
    {
        let low: u8 = v & 1;
        let next: u8 = v >> 1;
        assert(low == v % 2 && next == v / 2) by (bit_vector)
            requires
                low == v & 1u8,
                next == v >> 1u8,
        ;
        count = count + low;
        v = next;
    }
    count % 2 == 0
}

/// The status flags for result `r` of an operation on `a` and `b`, with
/// carry `cf` and overflow `of` already decided. The auxiliary carry is the
/// carry (or borrow) into bit 4.
fn flag_bits(a: u16, b: u16, r: u16, cf: bool, of: bool) -> (f: u16)
    ensures
        f == status_flags(cf, (a ^ b ^ r) & 0x10 != 0, of, r),
{
    let lo: u8 = r as u8;
    assert(lo == low_byte(r)) by (bit_vector)
        requires
            lo == r as u8,
    ;
    let cf_bit: u16 = if cf {
        Flags::CF
    } else {
        0
    };
    let pf_bit: u16 = if has_even_parity(lo) {
        Flags::PF
    } else {
        0
    };
    let af_bit: u16 = if (a ^ b ^ r) & 0x10 != 0 {
        Flags::AF
    } else {
        0
    };
    let zf_bit: u16 = if r == 0 {
        Flags::ZF
    } else {
        0
    };
    let sf_bit: u16 = if r & 0x8000 != 0 {
        Flags::SF
    } else {
        0
    };
    assert((r & 0x8000 != 0) == (r >= 0x8000)) by (bit_vector);
    let of_bit: u16 = if of {
        Flags::OF
    } else {
        0
    };
    cf_bit | pf_bit | af_bit | zf_bit | sf_bit | of_bit
}

/// `a + b` on 16 bits: the wrapped sum and the flags that it sets.
pub fn add(a: u16, b: u16) -> (out: (u16, u16))
    ensures
        out.0 == sum16(a, b),
        out.1 == add_flags(a, b),
{
    let r = a.wrapping_add(b);
    assert(r == sum16(a, b));
    let cf = a as u32 + b as u32 > 0xFFFF;
    let of = !(a ^ b) & (a ^ r) & 0x8000 != 0;
    assert(of == add_overflows(a, b)) by (bit_vector)
        requires
            r == ((a + b) % 0x10000) as u16,
            of == ((!(a ^ b) & (a ^ r) & 0x8000u16) != 0),
    ;
    assert(((a ^ b ^ r) & 0x10 != 0) == (a % 16 + b % 16 > 15)) by (bit_vector)
        requires
            r == ((a + b) % 0x10000) as u16,
    ;
    (r, flag_bits(a, b, r, cf, of))
}

/// `a - b` on 16 bits: the wrapped difference and the flags that it sets.
pub fn sub(a: u16, b: u16) -> (out: (u16, u16))
    ensures
        out.0 == diff16(a, b),
        out.1 == sub_flags(a, b),
{
    let r = a.wrapping_sub(b);
    assert(r == diff16(a, b));
    let cf = a < b;
    let of = (a ^ b) & (a ^ r) & 0x8000 != 0;
    assert(of == sub_overflows(a, b)) by (bit_vector)
        requires
            r == ((a - b + 0x10000) % 0x10000) as u16,
            of == (((a ^ b) & (a ^ r) & 0x8000u16) != 0),
    ;
    assert(((a ^ b ^ r) & 0x10 != 0) == (a % 16 < b % 16)) by (bit_vector)
        requires
            r == ((a - b + 0x10000) % 0x10000) as u16,
    ;
    (r, flag_bits(a, b, r, cf, of))
}

/// Subtraction undoes addition and addition undoes subtraction, on 16 bits.
pub proof fn lemma_add_sub_inverse(a: u16, b: u16)
    ensures
        diff16(sum16(a, b), b) == a,
        sum16(diff16(a, b), b) == a,
{
}

/// Arithmetic sets only the six status flags: no other bit of its flags
/// word is ever set.
pub proof fn lemma_status_flags_settable(cf: bool, af: bool, of: bool, r: u16)
    ensures
        status_flags(cf, af, of, r) & !Flags::SETTABLE == 0,
        status_flags(cf, af, of, r) & Flags::CF != 0 <==> cf,
        status_flags(cf, af, of, r) & Flags::AF != 0 <==> af,
        status_flags(cf, af, of, r) & Flags::OF != 0 <==> of,
        status_flags(cf, af, of, r) & Flags::ZF != 0 <==> r == 0,
        status_flags(cf, af, of, r) & Flags::SF != 0 <==> is_negative(r),
        status_flags(cf, af, of, r) & Flags::PF != 0 <==> even_parity(low_byte(r)),
{
    let c: u16 = if cf { 1 } else { 0 };
    let p: u16 = if even_parity(low_byte(r)) { 4 } else { 0 };
    let x: u16 = if af { 0x10 } else { 0 };
    let z: u16 = if r == 0 { 0x40 } else { 0 };
    let s: u16 = if is_negative(r) { 0x80 } else { 0 };
    let o: u16 = if of { 0x800 } else { 0 };
    assert(status_flags(cf, af, of, r) == c | p | x | z | s | o);
    assert({
        let f = c | p | x | z | s | o;
        &&& f & !0x08D5u16 == 0
        &&& (f & 1u16 != 0) == (c == 1u16)
        &&& (f & 4u16 != 0) == (p == 4u16)
        &&& (f & 0x10u16 != 0) == (x == 0x10u16)
        &&& (f & 0x40u16 != 0) == (z == 0x40u16)
        &&& (f & 0x80u16 != 0) == (s == 0x80u16)
        &&& (f & 0x800u16 != 0) == (o == 0x800u16)
    }) by (bit_vector)
        requires
            c == 0u16 || c == 1u16,
            p == 0u16 || p == 4u16,
            x == 0u16 || x == 0x10u16,
            z == 0u16 || z == 0x40u16,
            s == 0u16 || s == 0x80u16,
            o == 0u16 || o == 0x800u16,
    ;
}

/// The value of a word read as a two's-complement number.
pub open spec fn signed16(x: u16) -> int {
    if x >= 0x8000 {
        x - 0x10000
    } else {
        x as int
    }
}

/// Whether a byte has an even number of one bits, counted bit by bit.
#[verifier::opaque]
pub open spec fn even_ones(x: int) -> bool {
    (x % 2 + x / 2 % 2 + x / 2 / 2 % 2 + x / 2 / 2 / 2 % 2 + x / 2 / 2 / 2 / 2 % 2 + x / 2 / 2 / 2
        / 2 / 2 % 2 + x / 2 / 2 / 2 / 2 / 2 / 2 % 2 + x / 2 / 2 / 2 / 2 / 2 / 2 / 2 % 2) % 2 == 0
}

proof fn lemma_even_parity_counts_bits(x: u8)
    ensures
        even_parity(x) == even_ones(x as int),
{
    reveal_with_fuel(bit_count, 9);
    reveal(even_ones);
    let n = x as nat;
    assert(n / 2 / 2 / 2 / 2 / 2 / 2 / 2 / 2 == 0);
}

/// What the flags of `a + b` mean, in terms of the operands alone: CF is the
/// unsigned carry out of bit 15, OF the signed overflow, AF the carry out of
/// bit 3, ZF and SF the zero and sign of the wrapped sum, PF the even parity
/// of its low byte; no other bit is set.
pub proof fn lemma_add_flags_meaning(a: u16, b: u16)
    ensures
        add_flags(a, b) & Flags::CF != 0 <==> a + b > 0xFFFF,
        add_flags(a, b) & Flags::OF != 0 <==> !(-0x8000 <= signed16(a) + signed16(b) <= 0x7FFF),
        add_flags(a, b) & Flags::AF != 0 <==> a % 16 + b % 16 >= 16,
        add_flags(a, b) & Flags::ZF != 0 <==> (a + b) % 0x10000 == 0,
        add_flags(a, b) & Flags::SF != 0 <==> (a + b) % 0x10000 >= 0x8000,
        add_flags(a, b) & Flags::PF != 0 <==> even_ones((a + b) % 256),
        add_flags(a, b) & !Flags::SETTABLE == 0,
        sum16(a, b) == (a + b) % 0x10000,
{
    let r = sum16(a, b);
    lemma_status_flags_settable(a + b > 0xFFFF, a % 16 + b % 16 > 15, add_overflows(a, b), r);
    lemma_even_parity_counts_bits(low_byte(r));
    assert(r % 256 == (a + b) % 256);
}

/// What the flags of `a - b` mean, in terms of the operands alone: CF is the
/// unsigned borrow, OF the signed overflow, AF the borrow into bit 4, ZF and
/// SF the zero and sign of the wrapped difference, PF the even parity of its
/// low byte; no other bit is set.
pub proof fn lemma_sub_flags_meaning(a: u16, b: u16)
    ensures
        sub_flags(a, b) & Flags::CF != 0 <==> a < b,
        sub_flags(a, b) & Flags::OF != 0 <==> !(-0x8000 <= signed16(a) - signed16(b) <= 0x7FFF),
        sub_flags(a, b) & Flags::AF != 0 <==> a % 16 < b % 16,
        sub_flags(a, b) & Flags::ZF != 0 <==> a == b,
        sub_flags(a, b) & Flags::SF != 0 <==> (a - b + 0x10000) % 0x10000 >= 0x8000,
        sub_flags(a, b) & Flags::PF != 0 <==> even_ones((a - b + 0x10000) % 256),
        sub_flags(a, b) & !Flags::SETTABLE == 0,
        diff16(a, b) == (a - b + 0x10000) % 0x10000,
{
    let r = diff16(a, b);
    lemma_status_flags_settable(a < b, a % 16 < b % 16, sub_overflows(a, b), r);
    lemma_even_parity_counts_bits(low_byte(r));
    assert(r % 256 == (a - b + 0x10000) % 256);
}

} // verus!
