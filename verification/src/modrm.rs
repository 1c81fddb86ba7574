//! ModRM operand decoding: the register named by the `reg` field, and the
//! register or memory operand named by the `mod` and `r/m` fields, with the
//! eight 8086 effective-address forms.
use vstd::prelude::*;
use crate::alu::sum16;
use crate::mem::{cell, linear_addr, Memory, MEM_SIZE};
use crate::reg::{high_byte, low_byte, make_word, Reg16, Reg8, RegFile, Seg};

verus! {

/// An instruction operand: a word or byte register, or a word or byte in
/// memory at `seg:off`.
#[derive(Debug, Clone, Copy, PartialEq, Eq, Structural)]
pub enum Operand {
    Reg16(Reg16),
    Reg8(Reg8),
    Word { seg: Seg, off: u16 },
    Byte { seg: Seg, off: u16 },
}

/// The `mod` field of a ModRM byte (bits 7..6).
pub open spec fn mod_field(modrm: u8) -> nat {
    (modrm / 64) as nat
}

/// The `reg` field of a ModRM byte (bits 5..3).
pub open spec fn reg_field(modrm: u8) -> nat {
    ((modrm / 8) % 8) as nat
}

/// The `r/m` field of a ModRM byte (bits 2..0).
pub open spec fn rm_field(modrm: u8) -> nat {
    (modrm % 8) as nat
}

/// How many displacement bytes follow a ModRM byte.
pub open spec fn disp_len(modrm: u8) -> nat {
    if mod_field(modrm) == 3 {
        0
    } else if mod_field(modrm) == 0 {
        if rm_field(modrm) == 6 {
            2
        } else {
            0
        }
    } else if mod_field(modrm) == 1 {
        1
    } else {
        2
    }
}

/// The byte `b` sign-extended to a word.
pub open spec fn sign_extend(b: u8) -> u16 {
    if b >= 0x80 {
        (b + 0xFF00) as u16
    } else {
        b as u16
    }
}

/// The little-endian word at `code[i]`, `code[i + 1]`.
pub open spec fn le_word(code: Seq<u8>, i: int) -> u16 {
    make_word(code[i + 1], code[i])
}

/// The base of an effective address for `r/m` field `rm`, before any
/// displacement: BX+SI, BX+DI, BP+SI, BP+DI, SI, DI, BP or BX, wrapped.
pub open spec fn ea_base_of(rm: nat, regs: RegFile) -> u16 {
    if rm == 0 {
        sum16(regs.word(Reg16::Bx), regs.word(Reg16::Si))
    } else if rm == 1 {
        sum16(regs.word(Reg16::Bx), regs.word(Reg16::Di))
    } else if rm == 2 {
        sum16(regs.word(Reg16::Bp), regs.word(Reg16::Si))
    } else if rm == 3 {
        sum16(regs.word(Reg16::Bp), regs.word(Reg16::Di))
    } else if rm == 4 {
        regs.word(Reg16::Si)
    } else if rm == 5 {
        regs.word(Reg16::Di)
    } else if rm == 6 {
        regs.word(Reg16::Bp)
    } else {
        regs.word(Reg16::Bx)
    }
}

/// The default segment for `r/m` field `rm`: SS where BP is in the address,
/// DS otherwise.
pub open spec fn ea_seg_of(rm: nat) -> Seg {
    if rm == 2 || rm == 3 || rm == 6 {
        Seg::Ss
    } else {
        Seg::Ds
    }
}

/// The displacement that follows a ModRM byte in `code`.
pub open spec fn displacement(code: Seq<u8>, modrm: u8) -> u16 {
    if mod_field(modrm) == 1 {
        sign_extend(code[0])
    } else if mod_field(modrm) == 2 {
        le_word(code, 0)
    } else {
        0
    }
}

/// A memory operand of the given width.
pub open spec fn memory_operand(seg: Seg, off: u16, wide: bool) -> Operand {
    if wide {
        Operand::Word { seg, off }
    } else {
        Operand::Byte { seg, off }
    }
}

/// The operand that the `reg` field of `modrm` names.
pub open spec fn reg_operand(modrm: u8, wide: bool) -> Operand {
    if wide {
        Operand::Reg16(Reg16::from_num(reg_field(modrm)))
    } else {
        Operand::Reg8(Reg8::from_num(reg_field(modrm)))
    }
}

/// The operand that the `mod` and `r/m` fields of `modrm` name, with the
/// displacement bytes in `code` and the registers `regs`.
pub open spec fn rm_operand(code: Seq<u8>, regs: RegFile, modrm: u8, wide: bool) -> Operand {
    let rm = rm_field(modrm);
    if mod_field(modrm) == 3 {
        if wide {
            Operand::Reg16(Reg16::from_num(rm))
        } else {
            Operand::Reg8(Reg8::from_num(rm))
        }
    } else if mod_field(modrm) == 0 && rm == 6 {
        memory_operand(Seg::Ds, le_word(code, 0), wide)
    } else {
        memory_operand(ea_seg_of(rm), sum16(ea_base_of(rm, regs), displacement(code, modrm)), wide)
    }
}

/// Where a memory operand lies.
pub open spec fn operand_addr(regs: RegFile, seg: Seg, off: u16) -> int {
    linear_addr(regs.segment(seg), off)
}

impl Operand {
    /// Whether the operand is a word.
    pub open spec fn is_wide(self) -> bool {
        self is Reg16 || self is Word
    }

    /// The operand's value with registers `regs` and memory `mem`; a byte
    /// operand is zero-extended.
    pub open spec fn value(self, regs: RegFile, mem: Seq<u8>) -> u16 {
        match self {
            Operand::Reg16(r) => regs.word(r),
            Operand::Reg8(r) => regs.byte(r) as u16,
            Operand::Word { seg, off } => {
                let a = operand_addr(regs, seg, off);
                make_word(mem[cell(a + 1)], mem[cell(a)])
            },
            Operand::Byte { seg, off } => mem[operand_addr(regs, seg, off)] as u16,
        }
    }

    /// Memory after writing `v` to the operand; unchanged for a register.
    pub open spec fn written_mem(self, regs: RegFile, mem: Seq<u8>, v: u16) -> Seq<u8> {
        match self {
            Operand::Word { seg, off } => {
                let a = operand_addr(regs, seg, off);
                mem.update(a, low_byte(v)).update(cell(a + 1), high_byte(v))
            },
            Operand::Byte { seg, off } => mem.update(operand_addr(regs, seg, off), low_byte(v)),
            _ => mem,
        }
    }

    /// The word register `q` after writing `v` to the operand: a word register
    /// takes `v`, a byte register takes the low byte of `v` into its half.
    pub open spec fn written_word(self, regs: RegFile, v: u16, q: Reg16) -> u16 {
        match self {
            Operand::Reg16(r) => if q == r {
                v
            } else {
                regs.word(q)
            },
            Operand::Reg8(r) => if q != r.word() {
                regs.word(q)
            } else if r.is_high() {
                make_word(low_byte(v), low_byte(regs.word(q)))
            } else {
                make_word(high_byte(regs.word(q)), low_byte(v))
            },
            _ => regs.word(q),
        }
    }

    /// Whether `(regs1, mem1)` is what writing `v` to the operand makes of
    /// `(regs0, mem0)`. Segment registers never change.
    pub open spec fn write_effect(
        self,
        regs0: RegFile,
        mem0: Seq<u8>,
        v: u16,
        regs1: RegFile,
        mem1: Seq<u8>,
    ) -> bool {
        &&& mem1 == self.written_mem(regs0, mem0, v)
        &&& forall|q: Reg16| #[trigger] regs1.word(q) == self.written_word(regs0, v, q)
        &&& forall|s: Seg| #[trigger] regs1.segment(s) == regs0.segment(s)
    }

    /// The register operand named by the `reg` field (bits 5..3) of `modrm`.
    pub fn decode_reg(modrm: u8, wide: bool) -> (o: Operand)
        ensures
            o == reg_operand(modrm, wide),
    {
        let r: u8 = (modrm >> 3) & 0b111;
        assert(r == modrm / 8 % 8) by (bit_vector)
            requires
                r == (modrm >> 3u8) & 7u8,
        ;
        if wide {
            Operand::Reg16(Reg16::from_index(r))
        } else {
            Operand::Reg8(Reg8::from_index(r))
        }
    }

    /// The register or memory operand named by the `mod` and `r/m` fields of
    /// `modrm`. `code` holds the bytes that follow the ModRM byte; the
    /// displacement, if any, is read from its start.
    pub fn decode_rm(code: &[u8], regs: RegFile, modrm: u8, wide: bool) -> (o: Operand)
        requires
            code@.len() >= disp_len(modrm),
        ensures
            o == rm_operand(code@, regs, modrm, wide),
    {
        let rm: u8 = modrm & 0b111;
        let md: u8 = modrm >> 6;
        assert(rm == modrm % 8 && md == modrm / 64 && md < 4) by (bit_vector)
            requires
                rm == modrm & 7u8,
                md == modrm >> 6u8,
        ;
        if md == 3 {
            if wide {
                Operand::Reg16(Reg16::from_index(rm))
            } else {
                Operand::Reg8(Reg8::from_index(rm))
            }
        } else if md == 0 && rm == 6 {
            Self::memory(fetch_addr(code, 0), Seg::Ds, wide)
        } else {
            let disp: u16 = if md == 1 {
                let b = code[0];
                let d = b as i8 as u16;
                assert(d == sign_extend(b)) by (bit_vector)
                    requires
                        d == b as i8 as u16,
                ;
                d
            } else if md == 2 {
                fetch_addr(code, 0)
            } else {
                0
            };
            Self::memory(ea_base(rm, regs).wrapping_add(disp), ea_seg(rm), wide)
        }
    }

    /// A memory operand of the given width.
    fn memory(off: u16, seg: Seg, wide: bool) -> (o: Operand)
        ensures
            o == memory_operand(seg, off, wide),
    {
        if wide {
            Operand::Word { seg, off }
        } else {
            Operand::Byte { seg, off }
        }
    }

    /// The operand's value; a byte operand is zero-extended.
    pub fn read(&self, regs: &RegFile, mem: &Memory) -> (v: u16)
        ensures
            v == self.value(*regs, mem@),
    {
        match *self {
            Operand::Reg16(r) => regs.reg(r),
            Operand::Reg8(r) => regs.reg8(r) as u16,
            Operand::Word { seg, off } => mem.read_word(Memory::linear(regs.seg(seg), off)),
            Operand::Byte { seg, off } => mem.read(Memory::linear(regs.seg(seg), off)) as u16,
        }
    }

    /// Writes `v` to the operand; a byte operand takes the low byte of `v`.
    pub fn write(&self, regs: &mut RegFile, mem: &mut Memory, v: u16)
        ensures
            self.write_effect(*old(regs), old(mem)@, v, *final(regs), final(mem)@),
    {
        proof {
            crate::mem::lemma_memory_len(mem);
        }
        let lo: u8 = v as u8;
        assert(lo == low_byte(v)) by (bit_vector)
            requires
                lo == v as u8,
        ;
        match *self {
            Operand::Reg16(r) => regs.set_reg(r, v),
            Operand::Reg8(r) => regs.set_reg8(r, lo),
            Operand::Word { seg, off } => {
                let a = Memory::linear(regs.seg(seg), off);
                mem.write_word(a, v);
            },
            Operand::Byte { seg, off } => {
                let a = Memory::linear(regs.seg(seg), off);
                mem.write(a, lo);
            },
        }
        proof {
            assert forall|q: Reg16| #[trigger]
                final(regs).word(q) == self.written_word(*old(regs), v, q) by {}
        }
    }
}

impl Operand {
    /// The offset of a memory operand.
    pub open spec fn mem_offset(self) -> u16 {
        match self {
            Operand::Word { off, .. } => off,
            Operand::Byte { off, .. } => off,
            _ => 0,
        }
    }

    /// The segment of a memory operand.
    pub open spec fn mem_seg(self) -> Seg {
        match self {
            Operand::Word { seg, .. } => seg,
            Operand::Byte { seg, .. } => seg,
            _ => Seg::Ds,
        }
    }

    /// Whether the operand lies in memory, with the given width.
    pub open spec fn is_memory(self, wide: bool) -> bool {
        if wide {
            self is Word
        } else {
            self is Byte
        }
    }
}

/// The eight `mod` 0 address forms: `[BX+SI]`, `[BX+DI]`, `[BP+SI]`,
/// `[BP+DI]`, `[SI]`, `[DI]`, a direct 16-bit address (little-endian, in
/// place of `[BP]`) and `[BX]`, each sum wrapped at 16 bits; BP-based forms
/// default to SS, the others to DS.
pub proof fn lemma_mod0_addresses(code: Seq<u8>, regs: RegFile, modrm: u8, wide: bool)
    requires
        modrm < 64,
        code.len() >= 2,
    ensures
        ({
            let o = rm_operand(code, regs, modrm, wide);
            let bx = regs.word(Reg16::Bx) as int;
            let bp = regs.word(Reg16::Bp) as int;
            let si = regs.word(Reg16::Si) as int;
            let di = regs.word(Reg16::Di) as int;
            let rm = modrm % 8;
            &&& o.is_memory(wide)
            &&& rm == 0 ==> o.mem_offset() == (bx + si) % 0x10000 && o.mem_seg() == Seg::Ds
            &&& rm == 1 ==> o.mem_offset() == (bx + di) % 0x10000 && o.mem_seg() == Seg::Ds
            &&& rm == 2 ==> o.mem_offset() == (bp + si) % 0x10000 && o.mem_seg() == Seg::Ss
            &&& rm == 3 ==> o.mem_offset() == (bp + di) % 0x10000 && o.mem_seg() == Seg::Ss
            &&& rm == 4 ==> o.mem_offset() == si && o.mem_seg() == Seg::Ds
            &&& rm == 5 ==> o.mem_offset() == di && o.mem_seg() == Seg::Ds
            &&& rm == 6 ==> o.mem_offset() == code[0] + 256 * code[1] && o.mem_seg() == Seg::Ds
            &&& rm == 7 ==> o.mem_offset() == bx && o.mem_seg() == Seg::Ds
        }),
{
}

/// A displacement moves the address: with `mod` 1 or 2 the operand lies at
/// the `mod` 0 address of the same `r/m` plus the displacement, wrapped at
/// 16 bits, in the same segment; the displacement is the signed byte
/// `code[0]` for `mod` 1 and the little-endian word `code[0..2]` for `mod` 2.
/// For `r/m` 6 the base is BP, in SS.
pub proof fn lemma_displacement_moves_address(code: Seq<u8>, regs: RegFile, modrm: u8, wide: bool)
    requires
        64 <= modrm < 192,
        code.len() >= 2,
    ensures
        ({
            let o = rm_operand(code, regs, modrm, wide);
            let base = rm_operand(code, regs, modrm % 64, wide);
            let d: int = if modrm < 128 {
                if code[0] >= 128 {
                    code[0] - 256
                } else {
                    code[0] as int
                }
            } else {
                code[0] + 256 * code[1]
            };
            &&& o.is_memory(wide)
            &&& modrm % 8 != 6 ==> o.mem_offset() == (base.mem_offset() + d + 0x10000) % 0x10000
                && o.mem_seg() == base.mem_seg()
            &&& modrm % 8 == 6 ==> o.mem_offset() == (regs.word(Reg16::Bp) + d + 0x10000) % 0x10000
                && o.mem_seg() == Seg::Ss
        }),
{
    let m0 = modrm % 64;
    assert(m0 % 8 == modrm % 8);
    assert(mod_field(m0) == 0);
}

/// The register fields: the `reg` field (bits 5..3) names a word or byte
/// register by its number; with `mod` 3 the `r/m` field (bits 2..0) does the
/// same. The number of displacement bytes is 0 for `mod` 3, 1 for `mod` 1,
/// 2 for `mod` 2, and for `mod` 0 is 2 for the direct address (`r/m` 6) and
/// 0 otherwise.
pub proof fn lemma_modrm_fields(code: Seq<u8>, regs: RegFile, modrm: u8)
    ensures
        reg_operand(modrm, true) is Reg16,
        reg_operand(modrm, true)->Reg16_0.num() == (modrm / 8) % 8,
        reg_operand(modrm, false) is Reg8,
        reg_operand(modrm, false)->Reg8_0.num() == (modrm / 8) % 8,
        modrm >= 192 ==> rm_operand(code, regs, modrm, true) is Reg16 && rm_operand(
            code,
            regs,
            modrm,
            true,
        )->Reg16_0.num() == modrm % 8,
        modrm >= 192 ==> rm_operand(code, regs, modrm, false) is Reg8 && rm_operand(
            code,
            regs,
            modrm,
            false,
        )->Reg8_0.num() == modrm % 8,
        disp_len(modrm) == if modrm >= 192 {
            0
        } else if modrm >= 128 {
            2
        } else if modrm >= 64 {
            1
        } else if modrm % 8 == 6 {
            2int
        } else {
            0
        },
{
}

/// How many displacement bytes follow the ModRM byte `modrm`: two for a
/// direct address (`mod` 0, `r/m` 6) or `mod` 2, one for `mod` 1, none
/// otherwise.
pub fn displacement_len(modrm: u8) -> (n: u16)
    ensures
        n == disp_len(modrm),
        n <= 2,
{
    let rm: u8 = modrm & 0b111;
    let md: u8 = modrm >> 6;
    assert(rm == modrm % 8 && md == modrm / 64 && md < 4) by (bit_vector)
        requires
            rm == modrm & 7u8,
            md == modrm >> 6u8,
    ;
    if md == 3 {
        0
    } else if md == 0 {
        if rm == 6 {
            2
        } else {
            0
        }
    } else if md == 1 {
        1
    } else {
        2
    }
}

/// The little-endian word at `code[at]`, `code[at + 1]`: low byte first.
fn fetch_addr(code: &[u8], at: usize) -> (w: u16)
    requires
        at + 2 <= code@.len(),
    ensures
        w == le_word(code@, at as int),
{
    let lo = code[at] as u16;
    let hi = code[at + 1] as u16;
    let w: u16 = hi << 8 | lo;
    assert(w == hi * 256 + lo) by (bit_vector)
        requires
            w == (hi << 8u16) | lo,
            hi < 256,
            lo < 256,
    ;
    w
}

/// The base of the effective address for `r/m` field `rm`.
fn ea_base(rm: u8, regs: RegFile) -> (b: u16)
    ensures
        b == ea_base_of(rm as nat, regs),
{
    match rm {
        0 => regs.reg(Reg16::Bx).wrapping_add(regs.reg(Reg16::Si)),
        1 => regs.reg(Reg16::Bx).wrapping_add(regs.reg(Reg16::Di)),
        2 => regs.reg(Reg16::Bp).wrapping_add(regs.reg(Reg16::Si)),
        3 => regs.reg(Reg16::Bp).wrapping_add(regs.reg(Reg16::Di)),
        4 => regs.reg(Reg16::Si),
        5 => regs.reg(Reg16::Di),
        6 => regs.reg(Reg16::Bp),
        _ => regs.reg(Reg16::Bx),
    }
}

/// The default segment for `r/m` field `rm`.
fn ea_seg(rm: u8) -> (s: Seg)
    ensures
        s == ea_seg_of(rm as nat),
{
    match rm {
        2 | 3 | 6 => Seg::Ss,
        _ => Seg::Ds,
    }
}

/// Reading an operand back after writing it gives what was written: all of
/// it for a word operand, its low byte for a byte operand. This holds for
/// registers and for memory, also where a word straddles the one-mebibyte
/// boundary.
pub proof fn lemma_read_after_write(
    o: Operand,
    regs0: RegFile,
    mem0: Seq<u8>,
    v: u16,
    regs1: RegFile,
    mem1: Seq<u8>,
)
    requires
        mem0.len() == MEM_SIZE,
        o.write_effect(regs0, mem0, v, regs1, mem1),
    ensures
        o.value(regs1, mem1) == if o.is_wide() {
            v
        } else {
            low_byte(v) as u16
        },
{
    match o {
        Operand::Reg16(r) => {
            assert(regs1.word(r) == v);
        },
        Operand::Reg8(r) => {
            let w = regs1.word(r.word());
            assert(w == o.written_word(regs0, v, r.word()));
        },
        Operand::Word { seg, off } => {
            let a = operand_addr(regs0, seg, off);
            assert(regs1.segment(seg) == regs0.segment(seg));
            assert(cell(a) == a);
            assert(cell(a) != cell(a + 1));
        },
        Operand::Byte { seg, off } => {
            assert(regs1.segment(seg) == regs0.segment(seg));
        },
    }
}

} // verus!
