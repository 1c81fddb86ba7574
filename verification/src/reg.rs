//! The 8086 register file: eight 16-bit general registers with 8-bit views
//! of the low four, and four segment registers.
use vstd::prelude::*;

verus! {

/// A 16-bit general register, in the order of the instruction encoding.
#[derive(Debug, Clone, Copy, PartialEq, Eq, Structural)]
pub enum Reg16 {
    Ax,
    Cx,
    Dx,
    Bx,
    Sp,
    Bp,
    Si,
    Di,
}

/// An 8-bit register, in the order of the instruction encoding.
#[derive(Debug, Clone, Copy, PartialEq, Eq, Structural)]
pub enum Reg8 {
    Al,
    Cl,
    Dl,
    Bl,
    Ah,
    Ch,
    Dh,
    Bh,
}

/// A segment register, in the order of the instruction encoding.
#[derive(Debug, Clone, Copy, PartialEq, Eq, Structural)]
pub enum Seg {
    Es,
    Cs,
    Ss,
    Ds,
}

impl Reg16 {
    /// The register's number in the instruction encoding.
    pub open spec fn num(self) -> nat {
        match self {
            Reg16::Ax => 0,
            Reg16::Cx => 1,
            Reg16::Dx => 2,
            Reg16::Bx => 3,
            Reg16::Sp => 4,
            Reg16::Bp => 5,
            Reg16::Si => 6,
            Reg16::Di => 7,
        }
    }

    /// The register whose number is `i`.
    pub open spec fn from_num(i: nat) -> Reg16 {
        if i == 0 {
            Reg16::Ax
        } else if i == 1 {
            Reg16::Cx
        } else if i == 2 {
            Reg16::Dx
        } else if i == 3 {
            Reg16::Bx
        } else if i == 4 {
            Reg16::Sp
        } else if i == 5 {
            Reg16::Bp
        } else if i == 6 {
            Reg16::Si
        } else {
            Reg16::Di
        }
    }

    /// The register's number in the instruction encoding.
    pub fn index(self) -> (i: usize)
        ensures
            i == self.num(),
            i < 8,
    {
        match self {
            Reg16::Ax => 0,
            Reg16::Cx => 1,
            Reg16::Dx => 2,
            Reg16::Bx => 3,
            Reg16::Sp => 4,
            Reg16::Bp => 5,
            Reg16::Si => 6,
            Reg16::Di => 7,
        }
    }

    /// The register named by the low three bits of `i`.
    pub fn from_index(i: u8) -> (r: Reg16)
        ensures
            r == Reg16::from_num((i % 8) as nat),
            r.num() == i % 8,
    {
        let k: u8 = i & 0b111;
        assert(k == i % 8) by (bit_vector)
            requires
                k == i & 7u8,
        ;
        match k {
            0 => Reg16::Ax,
            1 => Reg16::Cx,
            2 => Reg16::Dx,
            3 => Reg16::Bx,
            4 => Reg16::Sp,
            5 => Reg16::Bp,
            6 => Reg16::Si,
            _ => Reg16::Di,
        }
    }
}

impl Reg8 {
    /// The register's number in the instruction encoding.
    pub open spec fn num(self) -> nat {
        match self {
            Reg8::Al => 0,
            Reg8::Cl => 1,
            Reg8::Dl => 2,
            Reg8::Bl => 3,
            Reg8::Ah => 4,
            Reg8::Ch => 5,
            Reg8::Dh => 6,
            Reg8::Bh => 7,
        }
    }

    /// The register whose number is `i`.
    pub open spec fn from_num(i: nat) -> Reg8 {
        if i == 0 {
            Reg8::Al
        } else if i == 1 {
            Reg8::Cl
        } else if i == 2 {
            Reg8::Dl
        } else if i == 3 {
            Reg8::Bl
        } else if i == 4 {
            Reg8::Ah
        } else if i == 5 {
            Reg8::Ch
        } else if i == 6 {
            Reg8::Dh
        } else {
            Reg8::Bh
        }
    }

    /// The word register that this byte register is a view of.
    pub open spec fn word(self) -> Reg16 {
        match self {
            Reg8::Al | Reg8::Ah => Reg16::Ax,
            Reg8::Cl | Reg8::Ch => Reg16::Cx,
            Reg8::Dl | Reg8::Dh => Reg16::Dx,
            Reg8::Bl | Reg8::Bh => Reg16::Bx,
        }
    }

    /// Whether this register is the high byte of its word register.
    pub open spec fn is_high(self) -> bool {
        self.num() >= 4
    }

    /// The register's number in the instruction encoding.
    pub fn index(self) -> (i: usize)
        ensures
            i == self.num(),
            i < 8,
    {
        match self {
            Reg8::Al => 0,
            Reg8::Cl => 1,
            Reg8::Dl => 2,
            Reg8::Bl => 3,
            Reg8::Ah => 4,
            Reg8::Ch => 5,
            Reg8::Dh => 6,
            Reg8::Bh => 7,
        }
    }

    /// The register named by the low three bits of `i`.
    pub fn from_index(i: u8) -> (r: Reg8)
        ensures
            r == Reg8::from_num((i % 8) as nat),
            r.num() == i % 8,
    {
        let k: u8 = i & 0b111;
        assert(k == i % 8) by (bit_vector)
            requires
                k == i & 7u8,
        ;
        match k {
            0 => Reg8::Al,
            1 => Reg8::Cl,
            2 => Reg8::Dl,
            3 => Reg8::Bl,
            4 => Reg8::Ah,
            5 => Reg8::Ch,
            6 => Reg8::Dh,
            _ => Reg8::Bh,
        }
    }
}

impl Seg {
    /// The register's number in the instruction encoding.
    pub open spec fn num(self) -> nat {
        match self {
            Seg::Es => 0,
            Seg::Cs => 1,
            Seg::Ss => 2,
            Seg::Ds => 3,
        }
    }

    /// The register's number in the instruction encoding.
    pub fn index(self) -> (i: usize)
        ensures
            i == self.num(),
            i < 4,
    {
        match self {
            Seg::Es => 0,
            Seg::Cs => 1,
            Seg::Ss => 2,
            Seg::Ds => 3,
        }
    }
}

/// The low byte of a word.
pub open spec fn low_byte(w: u16) -> u8 {
    (w % 256) as u8
}

/// The high byte of a word.
pub open spec fn high_byte(w: u16) -> u8 {
    (w / 256) as u8
}

/// The word whose high byte is `hi` and whose low byte is `lo`.
pub open spec fn make_word(hi: u8, lo: u8) -> u16 {
    (hi * 256 + lo) as u16
}

/// The register file. Its model is the content of each word register and
/// each segment register; the byte registers are views of the words.
#[derive(Clone, Copy)]
pub struct RegFile {
    words: [u16; 8],
    segs: [u16; 4],
}

impl RegFile {
    /// The content of the word register `r`.
    pub closed spec fn word(&self, r: Reg16) -> u16 {
        self.words@[r.num() as int]
    }

    /// The content of the segment register `s`.
    pub closed spec fn segment(&self, s: Seg) -> u16 {
        self.segs@[s.num() as int]
    }

    /// The content of the byte register `r`: one half of its word register.
    pub open spec fn byte(&self, r: Reg8) -> u8 {
        if r.is_high() {
            high_byte(self.word(r.word()))
        } else {
            low_byte(self.word(r.word()))
        }
    }

    /// Two register files hold the same values.
    pub open spec fn same(&self, other: &RegFile) -> bool {
        &&& forall|r: Reg16| #[trigger] self.word(r) == other.word(r)
        &&& forall|s: Seg| #[trigger] self.segment(s) == other.segment(s)
    }

    /// Whether every register, word and segment, holds zero.
    pub open spec fn all_zero(&self) -> bool {
        &&& forall|r: Reg16| #[trigger] self.word(r) == 0
        &&& forall|s: Seg| #[trigger] self.segment(s) == 0
    }

    /// Register files that hold the same values are equal.
    pub proof fn lemma_same_is_equal(&self, other: &RegFile)
        requires
            self.same(other),
        ensures
            *self == *other,
    {
        broadcast use vstd::array::axiom_array_ext_equal, vstd::array::lemma_array_index;

        assert forall|i: int| 0 <= i < 8 implies self.words[i] == other.words[i] by {
            assert(self.word(Reg16::from_num(i as nat)) == other.word(Reg16::from_num(i as nat)));
        }
        assert(self.segment(Seg::Es) == other.segment(Seg::Es));
        assert(self.segment(Seg::Cs) == other.segment(Seg::Cs));
        assert(self.segment(Seg::Ss) == other.segment(Seg::Ss));
        assert(self.segment(Seg::Ds) == other.segment(Seg::Ds));
        assert(self.words =~= other.words);
        assert(self.segs =~= other.segs);
    }

    /// A register file with every register zero.
    pub fn new() -> (rf: RegFile)
        ensures
            rf.all_zero(),
    {
        RegFile { words: [0, 0, 0, 0, 0, 0, 0, 0], segs: [0, 0, 0, 0] }
    }

    /// Reads a word register.
    pub fn reg(&self, r: Reg16) -> (v: u16)
        ensures
            v == self.word(r),
    {
        self.words[r.index()]
    }

    /// Writes a word register; every other register keeps its value.
    pub fn set_reg(&mut self, r: Reg16, v: u16)
        ensures
            final(self).word(r) == v,
            forall|q: Reg16| q != r ==> #[trigger] final(self).word(q) == old(self).word(q),
            forall|s: Seg| #[trigger] final(self).segment(s) == old(self).segment(s),
    {
        let i = r.index();
        self.words[i] = v;
    }

    /// Reads a byte register: the low or the high half of its word register.
    pub fn reg8(&self, r: Reg8) -> (v: u8)
        ensures
            v == self.byte(r),
    {
        let i = r.index();
        if i < 4 {
            let w = self.words[i];
            proof { lemma_word_of_byte_reg(r); }
            let b = w as u8;
            assert(b == w % 256) by (bit_vector)
                requires
                    b == w as u8,
            ;
            b
        } else {
            let w = self.words[i - 4];
            proof { lemma_word_of_byte_reg(r); }
            let b = (w >> 8) as u8;
            assert(b == w / 256) by (bit_vector)
                requires
                    b == (w >> 8) as u8,
            ;
            b
        }
    }

    /// Writes a byte register: one half of its word register changes, the
    /// other half and every other register keep their values.
    pub fn set_reg8(&mut self, r: Reg8, v: u8)
        ensures
            final(self).word(r.word()) == if r.is_high() {
                make_word(v, low_byte(old(self).word(r.word())))
            } else {
                make_word(high_byte(old(self).word(r.word())), v)
            },
            forall|q: Reg16| q != r.word() ==> #[trigger] final(self).word(q) == old(self).word(q),
            forall|s: Seg| #[trigger] final(self).segment(s) == old(self).segment(s),
    {
        let i = r.index();
        proof { lemma_word_of_byte_reg(r); }
        if i < 4 {
            let w = self.words[i];
            let n: u16 = (w & 0xFF00) | v as u16;
            assert(n == (w / 256) * 256 + v) by (bit_vector)
                requires
                    n == (w & 0xFF00u16) | v as u16,
            ;
            self.words[i] = n;
        } else {
            let w = self.words[i - 4];
            let n: u16 = (w & 0x00FF) | ((v as u16) << 8);
            assert(n == v * 256 + w % 256) by (bit_vector)
                requires
                    n == (w & 0x00FFu16) | ((v as u16) << 8u16),
            ;
            self.words[i - 4] = n;
        }
    }

    /// Reads a segment register.
    pub fn seg(&self, s: Seg) -> (v: u16)
        ensures
            v == self.segment(s),
    {
        self.segs[s.index()]
    }

    /// Writes a segment register; every other register keeps its value.
    pub fn set_seg(&mut self, s: Seg, v: u16)
        ensures
            final(self).segment(s) == v,
            forall|t: Seg| t != s ==> #[trigger] final(self).segment(t) == old(self).segment(t),
            forall|q: Reg16| #[trigger] final(self).word(q) == old(self).word(q),
    {
        let i = s.index();
        self.segs[i] = v;
    }
}

/// How a byte register's number picks its word register.
proof fn lemma_word_of_byte_reg(r: Reg8)
    ensures
        r.num() < 4 ==> r.word().num() == r.num() && !r.is_high(),
        r.num() >= 4 ==> r.word().num() == r.num() - 4 && r.is_high(),
{
}

/// The two bytes of a word are independent views: each half of a word built
/// from two bytes reads back as that byte, and a word is rebuilt from its
/// halves. So writing a byte register and reading it back gives the byte,
/// and the other half of the word keeps its value.
pub proof fn lemma_word_halves(hi: u8, lo: u8, w: u16)
    ensures
        high_byte(make_word(hi, lo)) == hi,
        low_byte(make_word(hi, lo)) == lo,
        make_word(high_byte(w), low_byte(w)) == w,
{
}

/// The register with number `i` (below 8) has number `i`.
pub proof fn lemma_reg16_num(i: nat)
    requires
        i < 8,
    ensures
        Reg16::from_num(i).num() == i,
{
}

/// The register with number `i` (below 8) has number `i`.
pub proof fn lemma_reg8_num(i: nat)
    requires
        i < 8,
    ensures
        Reg8::from_num(i).num() == i,
{
}

impl Default for RegFile {
    fn default() -> (rf: RegFile)
        ensures
            rf.all_zero(),
    {
        RegFile::new()
    }
}

} // verus!
