//! The CPU: reset state, flat program loading, register snapshots, and
//! fetch/decode/execute of one instruction at a time.
use vstd::prelude::*;
use crate::alu::{
    add_flags, diff16, even_ones, lemma_add_flags_meaning, lemma_sub_flags_meaning, signed16,
    sub_flags, sum16,
};
use crate::flags::{stored, visible, with_update, Flags};
use crate::mem::{linear_addr, Memory, MEM_SIZE};
use crate::modrm::{disp_len, reg_field, reg_operand, rm_operand, sign_extend, Operand};
use crate::reg::{make_word, Reg16, Reg8, RegFile, Seg};

verus! {

broadcast use crate::mem::lemma_memory_len;

/// The values of all registers, as a debugger shows them.
#[derive(Debug, Clone, Copy, PartialEq, Eq, Structural)]
pub struct Snapshot {
    pub ax: u16,
    pub cx: u16,
    pub dx: u16,
    pub bx: u16,
    pub sp: u16,
    pub bp: u16,
    pub si: u16,
    pub di: u16,
    pub es: u16,
    pub cs: u16,
    pub ss: u16,
    pub ds: u16,
    pub ip: u16,
    pub flags: u16,
}

/// Why an instruction did not execute. The CPU is left as it was.
#[derive(Debug, PartialEq, Eq)]
pub enum StepError {
    /// The CPU executed HLT before.
    Halted,
    /// The opcode byte is not one that the core decodes.
    UnknownOpcode(u8),
    /// The opcode is known but its ModRM form is not: `ip` is the address of
    /// the instruction and `bytes` its opcode and ModRM byte.
    UnsupportedForm { ip: u16, bytes: Vec<u8> },
}

/// Why the instruction at CS:IP cannot execute, in the terms of the model.
pub enum Fault {
    Halted,
    UnknownOpcode(u8),
    UnsupportedForm(u16, u8, u8),
}

/// A decoded instruction: what it does and how many bytes it takes.
#[derive(Debug, Clone, Copy, PartialEq, Eq, Structural)]
pub enum Instr {
    /// `MOV dst, imm`.
    MovImm { dst: Operand, imm: u16, len: u16 },
    /// `ADD dst, rhs` or, with `subtract`, `SUB dst, rhs`.
    Arith { dst: Operand, rhs: u16, subtract: bool, len: u16 },
    /// `MOV dst, src`.
    Mov { dst: Operand, src: Operand, len: u16 },
    /// `HLT`.
    Halt,
}

/// Whether `e` reports the fault `f`.
pub open spec fn reports(e: StepError, f: Fault) -> bool {
    match f {
        Fault::Halted => e is Halted,
        Fault::UnknownOpcode(op) => e == StepError::UnknownOpcode(op),
        Fault::UnsupportedForm(ip, op, modrm) => match e {
            StepError::UnsupportedForm { ip: eip, bytes } => eip == ip && bytes@ == seq![op, modrm],
            _ => false,
        },
    }
}

/// `ip + len`, wrapped at 16 bits.
pub open spec fn advance(ip: u16, len: u16) -> u16 {
    ((ip + len) % 0x10000) as u16
}

/// The CPU.
pub struct Cpu {
    pub regs: RegFile,
    pub ip: u16,
    pub flags: Flags,
    pub mem: Memory,
    pub halted: bool,
}

impl Cpu {
    /// The state after power-on or reset: CS = FFFF, IP = 0, every other
    /// register zero, no writable flag set, memory zero, not halted.
    pub open spec fn is_reset(&self) -> bool {
        &&& forall|r: Reg16| #[trigger] self.regs.word(r) == 0
        &&& forall|s: Seg| #[trigger]
            self.regs.segment(s) == if s == Seg::Cs {
                0xFFFFu16
            } else {
                0u16
            }
        &&& self.ip == 0
        &&& self.flags.raw() == 0
        &&& !self.halted
        &&& forall|i: int| 0 <= i < MEM_SIZE ==> #[trigger] self.mem@[i] == 0
    }

    /// Two CPUs in the same state.
    pub open spec fn agrees(&self, other: &Cpu) -> bool {
        &&& self.regs == other.regs
        &&& self.ip == other.ip
        &&& self.flags == other.flags
        &&& self.mem@ == other.mem@
        &&& self.halted == other.halted
    }

    /// The register values that `snapshot` reports.
    pub open spec fn snapshot_of(&self) -> Snapshot {
        Snapshot {
            ax: self.regs.word(Reg16::Ax),
            cx: self.regs.word(Reg16::Cx),
            dx: self.regs.word(Reg16::Dx),
            bx: self.regs.word(Reg16::Bx),
            sp: self.regs.word(Reg16::Sp),
            bp: self.regs.word(Reg16::Bp),
            si: self.regs.word(Reg16::Si),
            di: self.regs.word(Reg16::Di),
            es: self.regs.segment(Seg::Es),
            cs: self.regs.segment(Seg::Cs),
            ss: self.regs.segment(Seg::Ss),
            ds: self.regs.segment(Seg::Ds),
            ip: self.ip,
            flags: self.flags.value(),
        }
    }

    /// The code byte at CS:(IP + k), IP + k wrapped at 16 bits.
    pub open spec fn code_at(&self, k: int) -> u8 {
        self.mem@[linear_addr(self.regs.segment(Seg::Cs), ((self.ip + k) % 0x10000) as u16)]
    }

    /// The little-endian code word at CS:(IP + k).
    pub open spec fn code_word(&self, k: int) -> u16 {
        make_word(self.code_at(k + 1), self.code_at(k))
    }

    /// The two code bytes from CS:(IP + k) on.
    pub open spec fn code_from(&self, k: int) -> Seq<u8> {
        seq![self.code_at(k), self.code_at(k + 1)]
    }

    /// The instruction at CS:IP, or why there is none to execute.
    ///
    /// Decoded are `MOV reg8, imm8` (B0+r), `MOV reg16, imm16` (B8+r),
    /// `ADD AX, imm16` (05), `SUB AX, imm16` (2D), `ADD/SUB r/m16, imm16`
    /// (81 /0, 81 /5), `ADD/SUB r/m16, imm8` sign-extended (83 /0, 83 /5),
    /// `MOV` between r/m and reg for bytes and words (88 to 8B) and `HLT`
    /// (F4).
    pub open spec fn decode(&self) -> Result<Instr, Fault> {
        let op = self.code_at(0);
        if self.halted {
            Err(Fault::Halted)
        } else if 0xB0 <= op <= 0xB7 {
            Ok(
                Instr::MovImm {
                    dst: Operand::Reg8(Reg8::from_num((op - 0xB0) as nat)),
                    imm: self.code_at(1) as u16,
                    len: 2,
                },
            )
        } else if 0xB8 <= op <= 0xBF {
            Ok(
                Instr::MovImm {
                    dst: Operand::Reg16(Reg16::from_num((op - 0xB8) as nat)),
                    imm: self.code_word(1),
                    len: 3,
                },
            )
        } else if op == 0x05 || op == 0x2D {
            Ok(
                Instr::Arith {
                    dst: Operand::Reg16(Reg16::Ax),
                    rhs: self.code_word(1),
                    subtract: op == 0x2D,
                    len: 3,
                },
            )
        } else if op == 0x81 || op == 0x83 {
            let modrm = self.code_at(1);
            let d = disp_len(modrm) as int;
            if reg_field(modrm) != 0 && reg_field(modrm) != 5 {
                Err(Fault::UnsupportedForm(self.ip, op, modrm))
            } else {
                Ok(
                    Instr::Arith {
                        dst: rm_operand(self.code_from(2), self.regs, modrm, true),
                        rhs: if op == 0x81 {
                            self.code_word(2 + d)
                        } else {
                            sign_extend(self.code_at(2 + d))
                        },
                        subtract: reg_field(modrm) == 5,
                        len: (2 + d + if op == 0x81 {
                            2int
                        } else {
                            1int
                        }) as u16,
                    },
                )
            }
        } else if 0x88 <= op <= 0x8B {
            let modrm = self.code_at(1);
            let wide = op == 0x89 || op == 0x8B;
            let rm = rm_operand(self.code_from(2), self.regs, modrm, wide);
            let reg = reg_operand(modrm, wide);
            let len = (2 + disp_len(modrm)) as u16;
            if op <= 0x89 {
                Ok(Instr::Mov { dst: rm, src: reg, len })
            } else {
                Ok(Instr::Mov { dst: reg, src: rm, len })
            }
        } else if op == 0xF4 {
            Ok(Instr::Halt)
        } else {
            Err(Fault::UnknownOpcode(op))
        }
    }

    /// Whether `next` is what executing `instr` makes of this CPU. MOV
    /// leaves the flags as they are; ADD and SUB set the six status flags;
    /// HLT only halts and moves past itself.
    pub open spec fn executes(&self, instr: Instr, next: &Cpu) -> bool {
        let mem = self.mem@;
        match instr {
            Instr::MovImm { dst, imm, len } => {
                &&& dst.write_effect(self.regs, mem, imm, next.regs, next.mem@)
                &&& next.flags == self.flags
                &&& next.ip == advance(self.ip, len)
                &&& !next.halted
            },
            Instr::Arith { dst, rhs, subtract, len } => {
                let a = dst.value(self.regs, mem);
                let r = if subtract {
                    diff16(a, rhs)
                } else {
                    sum16(a, rhs)
                };
                let f = if subtract {
                    sub_flags(a, rhs)
                } else {
                    add_flags(a, rhs)
                };
                &&& dst.write_effect(self.regs, mem, r, next.regs, next.mem@)
                &&& next.flags.raw() == stored(with_update(self.flags.value(), Flags::SETTABLE, f))
                &&& next.ip == advance(self.ip, len)
                &&& !next.halted
            },
            Instr::Mov { dst, src, len } => {
                &&& dst.write_effect(self.regs, mem, src.value(self.regs, mem), next.regs, next.mem@)
                &&& next.flags == self.flags
                &&& next.ip == advance(self.ip, len)
                &&& !next.halted
            },
            Instr::Halt => {
                &&& next.regs == self.regs
                &&& next.mem@ == mem
                &&& next.flags == self.flags
                &&& next.ip == advance(self.ip, 1)
                &&& next.halted
            },
        }
    }

    /// Whether `next` is what one step makes of this CPU: the decoded
    /// instruction executed, or, where there is none, nothing changed.
    pub open spec fn steps_to(&self, next: &Cpu) -> bool {
        match self.decode() {
            Ok(instr) => self.executes(instr, next),
            Err(_) => next.agrees(self),
        }
    }

    /// Whether `r` is what one step of this CPU returns.
    pub open spec fn step_result(&self, r: Result<(), StepError>) -> bool {
        match self.decode() {
            Ok(_) => r is Ok,
            Err(f) => r matches Err(e) && reports(e, f),
        }
    }

    /// A CPU in reset state.
    pub fn new() -> (cpu: Cpu)
        ensures
            cpu.is_reset(),
    {
        let mut cpu = Cpu {
            regs: RegFile::new(),
            ip: 0x0000,
            flags: Flags::new(),
            mem: Memory::new(),
            halted: false,
        };
        cpu.regs.set_seg(Seg::Cs, 0xFFFF);
        cpu
    }

    /// Puts the CPU back into reset state: memory is cleared too.
    pub fn reset(&mut self)
        ensures
            final(self).is_reset(),
    {
        *self = Self::new();
    }

    /// The physical address of CS:IP.
    pub fn linear_ip(&self) -> (a: usize)
        ensures
            a == linear_addr(self.regs.segment(Seg::Cs), self.ip),
    {
        Memory::linear(self.regs.seg(Seg::Cs), self.ip)
    }

    /// Copies `bytes` into memory from `seg:off` on, wrapping at one
    /// mebibyte; registers, flags and the halted state are unchanged.
    pub fn load_flat(&mut self, seg: u16, off: u16, bytes: &[u8])
        requires
            linear_addr(seg, off) + bytes@.len() <= usize::MAX + 1,
        ensures
            final(self).mem@ == crate::mem::loaded(
                old(self).mem@,
                linear_addr(seg, off),
                bytes@,
            ),
            final(self).regs == old(self).regs,
            final(self).ip == old(self).ip,
            final(self).flags == old(self).flags,
            final(self).halted == old(self).halted,
    {
        self.mem.load(Memory::linear(seg, off), bytes);
    }

    /// The values of all registers; the flags word includes its static bits.
    pub fn snapshot(&self) -> (s: Snapshot)
        ensures
            s == self.snapshot_of(),
    {
        Snapshot {
            ax: self.regs.reg(Reg16::Ax),
            cx: self.regs.reg(Reg16::Cx),
            dx: self.regs.reg(Reg16::Dx),
            bx: self.regs.reg(Reg16::Bx),
            sp: self.regs.reg(Reg16::Sp),
            bp: self.regs.reg(Reg16::Bp),
            si: self.regs.reg(Reg16::Si),
            di: self.regs.reg(Reg16::Di),
            es: self.regs.seg(Seg::Es),
            cs: self.regs.seg(Seg::Cs),
            ss: self.regs.seg(Seg::Ss),
            ds: self.regs.seg(Seg::Ds),
            ip: self.ip,
            flags: self.flags.bits(),
        }
    }

    /// The code byte at CS:(IP + k).
    fn fetch(&self, k: u16) -> (b: u8)
        ensures
            b == self.code_at(k as int),
    {
        let a = Memory::linear(self.regs.seg(Seg::Cs), self.ip.wrapping_add(k));
        self.mem.read(a)
    }

    /// The little-endian code word at CS:(IP + k).
    fn fetch_word(&self, k: u16) -> (w: u16)
        requires
            k < 0xFFFF,
        ensures
            w == self.code_word(k as int),
    {
        let lo = self.fetch(k);
        let hi = self.fetch(k + 1);
        let w: u16 = (hi as u16) << 8 | lo as u16;
        assert(w == hi * 256 + lo) by (bit_vector)
            requires
                w == ((hi as u16) << 8u16) | lo as u16,
        ;
        w
    }

    /// Decodes the instruction at CS:IP without changing anything.
    pub fn decode_next(&self) -> (r: Result<Instr, StepError>)
        ensures
            match self.decode() {
                Ok(instr) => r == Ok::<Instr, StepError>(instr),
                Err(f) => r matches Err(e) && reports(e, f),
            },
    {
        if self.halted {
            return Err(StepError::Halted);
        }
        let op = self.fetch(0);
        if 0xB0 <= op && op <= 0xB7 {
            let imm = self.fetch(1);
            Ok(Instr::MovImm { dst: Operand::Reg8(Reg8::from_index(op)), imm: imm as u16, len: 2 })
        } else if 0xB8 <= op && op <= 0xBF {
            let imm = self.fetch_word(1);
            Ok(Instr::MovImm { dst: Operand::Reg16(Reg16::from_index(op)), imm, len: 3 })
        } else if op == 0x05 || op == 0x2D {
            let imm = self.fetch_word(1);
            Ok(Instr::Arith { dst: Operand::Reg16(Reg16::Ax), rhs: imm, subtract: op == 0x2D, len: 3 })
        } else if op == 0x81 || op == 0x83 {
            self.decode_group(op)
        } else if 0x88 <= op && op <= 0x8B {
            self.decode_mov(op)
        } else if op == 0xF4 {
            Ok(Instr::Halt)
        } else {
            Err(StepError::UnknownOpcode(op))
        }
    }

    /// Decodes `ADD/SUB r/m16, imm` (81 and 83) at CS:IP.
    fn decode_group(&self, op: u8) -> (r: Result<Instr, StepError>)
        requires
            !self.halted,
            op == self.code_at(0),
            op == 0x81 || op == 0x83,
        ensures
            match self.decode() {
                Ok(instr) => r == Ok::<Instr, StepError>(instr),
                Err(f) => r matches Err(e) && reports(e, f),
            },
    {
        let modrm = self.fetch(1);
        let field: u8 = (modrm >> 3) & 0b111;
        assert(field == reg_field(modrm)) by (bit_vector)
            requires
                field == (modrm >> 3u8) & 7u8,
        ;
        if field != 0 && field != 5 {
            let mut bytes: Vec<u8> = Vec::new();
            bytes.push(op);
            bytes.push(modrm);
            assert(bytes@ == seq![op, modrm]);
            return Err(StepError::UnsupportedForm { ip: self.ip, bytes });
        }
        let code: [u8; 2] = [self.fetch(2), self.fetch(3)];
        assert(code@ == self.code_from(2));
        let dst = Operand::decode_rm(code.as_slice(), self.regs, modrm, true);
        let d = crate::modrm::displacement_len(modrm);
        if op == 0x81 {
            let imm = self.fetch_word(2 + d);
            Ok(Instr::Arith { dst, rhs: imm, subtract: field == 5, len: 4 + d })
        } else {
            let b = self.fetch(2 + d);
            let imm = b as i8 as u16;
            assert(imm == sign_extend(b)) by (bit_vector)
                requires
                    imm == b as i8 as u16,
            ;
            Ok(Instr::Arith { dst, rhs: imm, subtract: field == 5, len: 3 + d })
        }
    }

    /// Decodes `MOV` between r/m and reg (88 to 8B) at CS:IP.
    fn decode_mov(&self, op: u8) -> (r: Result<Instr, StepError>)
        requires
            !self.halted,
            op == self.code_at(0),
            0x88 <= op <= 0x8B,
        ensures
            match self.decode() {
                Ok(instr) => r == Ok::<Instr, StepError>(instr),
                Err(f) => r matches Err(e) && reports(e, f),
            },
    {
        let modrm = self.fetch(1);
        let wide = op == 0x89 || op == 0x8B;
        let code: [u8; 2] = [self.fetch(2), self.fetch(3)];
        assert(code@ == self.code_from(2));
        let rm = Operand::decode_rm(code.as_slice(), self.regs, modrm, wide);
        let reg = Operand::decode_reg(modrm, wide);
        let len = 2 + crate::modrm::displacement_len(modrm);
        if op <= 0x89 {
            Ok(Instr::Mov { dst: rm, src: reg, len })
        } else {
            Ok(Instr::Mov { dst: reg, src: rm, len })
        }
    }

    /// Executes a decoded instruction.
    pub fn execute(&mut self, instr: Instr)
        requires
            !old(self).halted,
        ensures
            old(self).executes(instr, final(self)),
    {
        match instr {
            Instr::MovImm { dst, imm, len } => {
                dst.write(&mut self.regs, &mut self.mem, imm);
                self.ip = self.ip.wrapping_add(len);
            },
            Instr::Arith { dst, rhs, subtract, len } => {
                let a = dst.read(&self.regs, &self.mem);
                let (r, f) = if subtract {
                    crate::alu::sub(a, rhs)
                } else {
                    crate::alu::add(a, rhs)
                };
                dst.write(&mut self.regs, &mut self.mem, r);
                self.flags.update(Flags::SETTABLE, f);
                self.ip = self.ip.wrapping_add(len);
            },
            Instr::Mov { dst, src, len } => {
                let v = src.read(&self.regs, &self.mem);
                dst.write(&mut self.regs, &mut self.mem, v);
                self.ip = self.ip.wrapping_add(len);
            },
            Instr::Halt => {
                self.halted = true;
                self.ip = self.ip.wrapping_add(1);
            },
        }
    }

    /// Executes one instruction. On success the CPU is in the state that
    /// the instruction leads to; on failure it is unchanged and the error
    /// says why.
    pub fn step(&mut self) -> (r: Result<(), StepError>)
        ensures
            old(self).steps_to(final(self)),
            old(self).step_result(r),
    {
        match self.decode_next() {
            Ok(instr) => {
                self.execute(instr);
                Ok(())
            },
            Err(e) => Err(e),
        }
    }
}

/// Reset state is a single state: any two CPUs in reset state agree, so
/// their snapshots are equal too.
pub proof fn lemma_reset_is_unique(a: &Cpu, b: &Cpu)
    requires
        a.is_reset(),
        b.is_reset(),
    ensures
        a.agrees(b),
        a.snapshot_of() == b.snapshot_of(),
{
    assert(a.regs.same(&b.regs));
    a.regs.lemma_same_is_equal(&b.regs);
    crate::flags::lemma_raw_determines(a.flags, b.flags);
    assert(a.mem@ =~= b.mem@);
}

/// Replay: two CPUs in the same state decode the same instruction, and one
/// step takes them to the same state with the same result.
pub proof fn lemma_step_deterministic(a: &Cpu, b: &Cpu, a2: &Cpu, b2: &Cpu)
    requires
        a.agrees(b),
        a.steps_to(a2),
        b.steps_to(b2),
    ensures
        a.decode() == b.decode(),
        a2.agrees(b2),
        forall|r: Result<(), StepError>| a.step_result(r) <==> b.step_result(r),
{
    assert(a.decode() == b.decode());
    match a.decode() {
        Ok(instr) => {
            match instr {
                Instr::Halt => {},
                _ => {
                    assert(a2.regs.same(&b2.regs));
                    a2.regs.lemma_same_is_equal(&b2.regs);
                    crate::flags::lemma_raw_determines(a2.flags, b2.flags);
                },
            }
        },
        Err(_) => {},
    }
}

/// A halted CPU stays halted: every further step fails with `Halted` and
/// changes nothing.
pub proof fn lemma_halted_is_final(a: &Cpu, a2: &Cpu)
    requires
        a.halted,
        a.steps_to(a2),
    ensures
        a2.halted,
        a2.agrees(a),
        forall|r: Result<(), StepError>| a.step_result(r) <==> r == Err::<(), StepError>(StepError::Halted),
{
}

/// What an ADD or SUB step leaves in its destination and in the flags, in
/// terms of the two operands alone: the wrapped sum or difference, and each
/// status flag recomputed from that one operation whatever the flags held
/// before (CF is the carry or borrow, ZF and SF the zero and sign of the
/// result, OF the signed overflow, AF the nibble carry or borrow, PF the even
/// parity of the result's low byte). TF, IF and DF are kept.
pub proof fn lemma_arith_step(a: &Cpu, b: &Cpu)
    requires
        a.steps_to(b),
        a.decode() is Ok,
        a.decode()->Ok_0 is Arith,
    ensures
        ({
            let instr = a.decode()->Ok_0;
            let dst = instr->Arith_dst;
            let y = instr->Arith_rhs as int;
            let x = dst.value(a.regs, a.mem@) as int;
            let sub = instr->Arith_subtract;
            let r = if sub {
                (x - y + 0x10000) % 0x10000
            } else {
                (x + y) % 0x10000
            };
            let f = b.flags.value();
            let sx = signed16(x as u16);
            let sy = signed16(y as u16);
            &&& dst.value(b.regs, b.mem@) == if dst.is_wide() {
                r
            } else {
                r % 256
            }
            &&& (f & Flags::CF != 0) == if sub {
                x < y
            } else {
                x + y > 0xFFFF
            }
            &&& (f & Flags::ZF != 0) == (r == 0)
            &&& (f & Flags::SF != 0) == (r >= 0x8000)
            &&& (f & Flags::OF != 0) == if sub {
                !(-0x8000 <= sx - sy <= 0x7FFF)
            } else {
                !(-0x8000 <= sx + sy <= 0x7FFF)
            }
            &&& (f & Flags::AF != 0) == if sub {
                x % 16 < y % 16
            } else {
                x % 16 + y % 16 >= 16
            }
            &&& (f & Flags::PF != 0) == if sub {
                even_ones((x - y + 0x10000) % 256)
            } else {
                even_ones((x + y) % 256)
            }
            &&& f & 0x0700 == a.flags.value() & 0x0700
        }),
{
    let instr = a.decode()->Ok_0;
    lemma_arith_effect(a, b, instr->Arith_dst, instr->Arith_rhs, instr->Arith_subtract, instr->Arith_len);
}

/// `lemma_arith_step` for a given decoded ADD or SUB.
#[verifier::spinoff_prover]
proof fn lemma_arith_effect(a: &Cpu, b: &Cpu, dst: Operand, y: u16, sub: bool, len: u16)
    requires
        a.executes(Instr::Arith { dst, rhs: y, subtract: sub, len }, b),
    ensures
        ({
            let x = dst.value(a.regs, a.mem@) as int;
            let r = if sub {
                (x - y + 0x10000) % 0x10000
            } else {
                (x + y) % 0x10000
            };
            let f = b.flags.value();
            let sx = signed16(x as u16);
            let sy = signed16(y);
            &&& dst.value(b.regs, b.mem@) == if dst.is_wide() {
                r
            } else {
                r % 256
            }
            &&& (f & Flags::CF != 0) == if sub {
                x < y
            } else {
                x + y > 0xFFFF
            }
            &&& (f & Flags::ZF != 0) == (r == 0)
            &&& (f & Flags::SF != 0) == (r >= 0x8000)
            &&& (f & Flags::OF != 0) == if sub {
                !(-0x8000 <= sx - sy <= 0x7FFF)
            } else {
                !(-0x8000 <= sx + sy <= 0x7FFF)
            }
            &&& (f & Flags::AF != 0) == if sub {
                x % 16 < y % 16
            } else {
                x % 16 + y % 16 >= 16
            }
            &&& (f & Flags::PF != 0) == if sub {
                even_ones((x - y + 0x10000) % 256)
            } else {
                even_ones((x + y) % 256)
            }
            &&& f & 0x0700 == a.flags.value() & 0x0700
        }),
{
    let x = dst.value(a.regs, a.mem@);
    let ff = if sub {
        sub_flags(x, y)
    } else {
        add_flags(x, y)
    };
    let res = if sub {
        diff16(x, y)
    } else {
        sum16(x, y)
    };
    crate::modrm::lemma_read_after_write(dst, a.regs, a.mem@, res, b.regs, b.mem@);
    assert(crate::reg::low_byte(res) == res % 256);
    assert(b.flags.value() == visible(stored(with_update(a.flags.value(), Flags::SETTABLE, ff))));
    if sub {
        lemma_sub_step_flags(x, y, a.flags.raw());
    } else {
        lemma_add_step_flags(x, y, a.flags.raw());
    }
}

/// The flags word after ADD of `x` and `y`, from stored bits `raw`.
proof fn lemma_add_step_flags(x: u16, y: u16, raw: u16)
    ensures
        ({
            let f = visible(stored(with_update(visible(raw), Flags::SETTABLE, add_flags(x, y))));
            let r = (x + y) % 0x10000;
            &&& (f & Flags::PF != 0) == even_ones((x + y) % 256)
            &&& (f & Flags::CF != 0) == (x + y > 0xFFFF)
            &&& (f & Flags::ZF != 0) == (r == 0)
            &&& (f & Flags::SF != 0) == (r >= 0x8000)
            &&& (f & Flags::OF != 0) == !(-0x8000 <= signed16(x) + signed16(y) <= 0x7FFF)
            &&& (f & Flags::AF != 0) == (x % 16 + y % 16 >= 16)
            &&& f & 0x0700 == visible(raw) & 0x0700
        }),
{
    lemma_add_flags_meaning(x, y);
    lemma_status_update(raw, add_flags(x, y));
}

/// The flags word after SUB of `y` from `x`, from stored bits `raw`.
proof fn lemma_sub_step_flags(x: u16, y: u16, raw: u16)
    ensures
        ({
            let f = visible(stored(with_update(visible(raw), Flags::SETTABLE, sub_flags(x, y))));
            let r = (x - y + 0x10000) % 0x10000;
            &&& (f & Flags::PF != 0) == even_ones((x - y + 0x10000) % 256)
            &&& (f & Flags::CF != 0) == (x < y)
            &&& (f & Flags::ZF != 0) == (r == 0)
            &&& (f & Flags::SF != 0) == (r >= 0x8000)
            &&& (f & Flags::OF != 0) == !(-0x8000 <= signed16(x) - signed16(y) <= 0x7FFF)
            &&& (f & Flags::AF != 0) == (x % 16 < y % 16)
            &&& f & 0x0700 == visible(raw) & 0x0700
        }),
{
    lemma_sub_flags_meaning(x, y);
    lemma_status_update(raw, sub_flags(x, y));
}

/// Updating the six status flags with `ff` leaves exactly `ff` in them and
/// keeps TF, IF and DF.
proof fn lemma_status_update(raw: u16, ff: u16)
    requires
        ff & !Flags::SETTABLE == 0,
    ensures
        ({
            let v = visible(stored(with_update(visible(raw), Flags::SETTABLE, ff)));
            &&& v & Flags::CF == ff & Flags::CF
            &&& v & Flags::PF == ff & Flags::PF
            &&& v & Flags::AF == ff & Flags::AF
            &&& v & Flags::ZF == ff & Flags::ZF
            &&& v & Flags::SF == ff & Flags::SF
            &&& v & Flags::OF == ff & Flags::OF
            &&& v & 0x0700 == visible(raw) & 0x0700
        }),
{
    let v = visible(stored(with_update(visible(raw), Flags::SETTABLE, ff)));
    assert({
        &&& v & 0x0001u16 == ff & 0x0001u16
        &&& v & 0x0004u16 == ff & 0x0004u16
        &&& v & 0x0010u16 == ff & 0x0010u16
        &&& v & 0x0040u16 == ff & 0x0040u16
        &&& v & 0x0080u16 == ff & 0x0080u16
        &&& v & 0x0800u16 == ff & 0x0800u16
        &&& v & 0x0700u16 == (raw | 0xF002u16) & 0x0700u16
    }) by (bit_vector)
        requires
            v == ((((raw | 0xF002u16) & !0x08D5u16) | ff) & 0x0FD5u16) | 0xF002u16,
            ff & !0x08D5u16 == 0,
    ;
}

/// The direction and width of `MOV` between r/m and reg come from the
/// opcode's bits: bit 0 set means words, bit 1 clear means the r/m operand
/// is written from the reg operand (88, 89), bit 1 set means the reg operand
/// is loaded from the r/m operand (8A, 8B).
pub proof fn lemma_mov_direction(a: &Cpu)
    requires
        !a.halted,
        0x88 <= a.code_at(0) <= 0x8B,
    ensures
        ({
            let op = a.code_at(0);
            let modrm = a.code_at(1);
            let wide = op % 2 == 1;
            let rm = rm_operand(a.code_from(2), a.regs, modrm, wide);
            let reg = reg_operand(modrm, wide);
            let stores = op / 2 % 2 == 0;
            a.decode() == Ok::<Instr, Fault>(
                Instr::Mov {
                    dst: if stores {
                        rm
                    } else {
                        reg
                    },
                    src: if stores {
                        reg
                    } else {
                        rm
                    },
                    len: (2 + displacement_bytes(modrm)) as u16,
                },
            )
        }),
{
}

/// The number of displacement bytes after the ModRM byte `modrm`.
pub open spec fn displacement_bytes(modrm: u8) -> int {
    if modrm >= 192 {
        0
    } else if modrm >= 128 {
        2
    } else if modrm >= 64 {
        1
    } else if modrm % 8 == 6 {
        2
    } else {
        0
    }
}

/// The opcode table for the instructions without a ModRM byte: B0+r loads
/// byte register r with the next byte, B8+r loads word register r with the
/// next little-endian word, 05 and 2D add to and subtract from AX the next
/// word, F4 halts, and an opcode outside every decoded form is reported as
/// unknown.
pub proof fn lemma_opcode_table(a: &Cpu)
    requires
        !a.halted,
    ensures
        ({
            let op = a.code_at(0);
            let imm16 = a.code_at(1) + 256 * a.code_at(2);
            let instr = a.decode()->Ok_0;
            &&& 0xB0 <= op <= 0xB7 ==> a.decode() is Ok && instr is MovImm
                && instr->MovImm_dst is Reg8 && instr->MovImm_dst->Reg8_0.num() == op - 0xB0
                && instr->MovImm_imm == a.code_at(1) && instr->MovImm_len == 2
            &&& 0xB8 <= op <= 0xBF ==> a.decode() is Ok && instr is MovImm
                && instr->MovImm_dst is Reg16 && instr->MovImm_dst->Reg16_0.num() == op - 0xB8
                && instr->MovImm_imm == imm16 && instr->MovImm_len == 3
            &&& (op == 0x05 || op == 0x2D) ==> a.decode() is Ok && instr is Arith
                && instr->Arith_dst == Operand::Reg16(Reg16::Ax) && instr->Arith_rhs == imm16
                && instr->Arith_subtract == (op == 0x2D) && instr->Arith_len == 3
            &&& op == 0xF4 ==> a.decode() is Ok && instr is Halt
            &&& !(0xB0 <= op <= 0xBF || op == 0x05 || op == 0x2D || op == 0x81 || op == 0x83 || (
            0x88 <= op <= 0x8B) || op == 0xF4) ==> a.decode() == Err::<Instr, Fault>(
                Fault::UnknownOpcode(op),
            )
        }),
{
    let op = a.code_at(0);
    if 0xB0 <= op <= 0xB7 {
        crate::reg::lemma_reg8_num((op - 0xB0) as nat);
    }
    if 0xB8 <= op <= 0xBF {
        crate::reg::lemma_reg16_num((op - 0xB8) as nat);
    }
}

/// The `ADD/SUB r/m16, imm` group: `reg` field 0 adds, 5 subtracts, any
/// other is an unsupported form reported with the instruction's address,
/// opcode and ModRM byte. The immediate follows the displacement: a
/// little-endian word for 81, a sign-extended byte for 83.
pub proof fn lemma_group_decode(a: &Cpu)
    requires
        !a.halted,
        a.code_at(0) == 0x81 || a.code_at(0) == 0x83,
    ensures
        ({
            let op = a.code_at(0);
            let modrm = a.code_at(1);
            let field = (modrm / 8) % 8;
            let d = displacement_bytes(modrm);
            let b = a.code_at(2 + d);
            let instr = a.decode()->Ok_0;
            &&& field != 0 && field != 5 ==> a.decode() == Err::<Instr, Fault>(
                Fault::UnsupportedForm(a.ip, op, modrm),
            )
            &&& (field == 0 || field == 5) ==> {
                &&& a.decode() is Ok
                &&& instr is Arith
                &&& instr->Arith_dst == rm_operand(a.code_from(2), a.regs, modrm, true)
                &&& instr->Arith_subtract == (field == 5)
                &&& instr->Arith_rhs == if op == 0x81 {
                    b + 256 * a.code_at(3 + d)
                } else if b >= 128 {
                    b + 0xFF00
                } else {
                    b as int
                }
                &&& instr->Arith_len == 2 + d + if op == 0x81 {
                    2int
                } else {
                    1
                }
            }
        }),
{
    crate::modrm::lemma_modrm_fields(a.code_from(2), a.regs, a.code_at(1));
}

/// What one successful step does besides its destination: segment registers
/// never change; IP moves past the instruction's bytes, wrapped at 16 bits;
/// only HLT halts; MOV keeps the flags; and the destination of a MOV ends up
/// holding the source's value (its low byte for a byte destination).
pub proof fn lemma_step_effects(a: &Cpu, b: &Cpu)
    requires
        a.steps_to(b),
        a.decode() is Ok,
    ensures
        ({
            let instr = a.decode()->Ok_0;
            let len: int = match instr {
                Instr::MovImm { len, .. } => len as int,
                Instr::Arith { len, .. } => len as int,
                Instr::Mov { len, .. } => len as int,
                Instr::Halt => 1,
            };
            &&& forall|s: Seg| #[trigger] b.regs.segment(s) == a.regs.segment(s)
            &&& b.ip == (a.ip + len) % 0x10000
            &&& b.halted == (instr is Halt)
            &&& (instr is MovImm || instr is Mov || instr is Halt) ==> b.flags == a.flags
            &&& instr is Halt ==> b.regs == a.regs && b.mem@ == a.mem@
            &&& instr is MovImm ==> instr->MovImm_dst.value(b.regs, b.mem@) == if instr->MovImm_dst.is_wide() {
                instr->MovImm_imm as int
            } else {
                (instr->MovImm_imm % 256) as int
            }
            &&& instr is Mov ==> {
                let v = instr->Mov_src.value(a.regs, a.mem@);
                instr->Mov_dst.value(b.regs, b.mem@) == if instr->Mov_dst.is_wide() {
                    v as int
                } else {
                    (v % 256) as int
                }
            }
        }),
{
    let instr = a.decode()->Ok_0;
    match instr {
        Instr::MovImm { dst, imm, len } => {
            crate::modrm::lemma_read_after_write(dst, a.regs, a.mem@, imm, b.regs, b.mem@);
        },
        Instr::Mov { dst, src, len } => {
            let v = src.value(a.regs, a.mem@);
            crate::modrm::lemma_read_after_write(dst, a.regs, a.mem@, v, b.regs, b.mem@);
        },
        _ => {},
    }
}

impl Default for Cpu {
    fn default() -> (cpu: Cpu)
        ensures
            cpu.is_reset(),
    {
        Cpu::new()
    }
}

} // verus!
