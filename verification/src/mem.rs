//! One mebibyte of memory with 8086 segment:offset addressing. Every address
//! wraps at one mebibyte: the 8086 has no A20 gate.
use vstd::prelude::*;
use crate::reg::{high_byte, low_byte, make_word};

verus! {

/// The size of the address space, in bytes.
pub const MEM_SIZE: usize = 0x10_0000;

/// The physical address of `seg:off`, wrapped at one mebibyte.
pub open spec fn linear_addr(seg: u16, off: u16) -> int {
    (seg * 16 + off) % (MEM_SIZE as int)
}

/// Where an address lands in memory.
pub open spec fn cell(addr: int) -> int {
    addr % (MEM_SIZE as int)
}

/// Memory after writing `bytes` one by one from `addr` on, each address
/// wrapped at one mebibyte; a later byte wins where two land on one cell.
pub open spec fn loaded(mem: Seq<u8>, addr: int, bytes: Seq<u8>) -> Seq<u8>
    decreases bytes.len(),
{
    if bytes.len() == 0 {
        mem
    } else {
        loaded(mem, addr, bytes.drop_last()).update(cell(addr + bytes.len() - 1), bytes.last())
    }
}

/// The memory. Its model is the sequence of its `MEM_SIZE` bytes.
pub struct Memory {
    data: Vec<u8>,
}

impl View for Memory {
    type V = Seq<u8>;

    closed spec fn view(&self) -> Seq<u8> {
        Seq::new(MEM_SIZE as nat, |i: int| self.data@[i])
    }
}

/// Memory always holds `MEM_SIZE` bytes.
pub broadcast proof fn lemma_memory_len(m: &Memory)
    ensures
        #[trigger] m@.len() == MEM_SIZE,
{
}

proof fn lemma_mask_is_cell(addr: usize)
    ensures
        addr & 0xFFFFFusize == cell(addr as int),
        (addr & 0xFFFFFusize) < MEM_SIZE,
{
    assert(addr & 0xFFFFFusize == addr % 0x100000usize) by (bit_vector);
    assert(addr & 0xFFFFFusize < 0x100000usize) by (bit_vector);
}

impl Memory {
    /// The store holds exactly `MEM_SIZE` bytes.
    #[verifier::type_invariant]
    closed spec fn full_size(self) -> bool {
        self.data@.len() == MEM_SIZE
    }

    /// Memory with every byte zero.
    pub fn new() -> (m: Memory)
        ensures
            forall|i: int| 0 <= i < MEM_SIZE ==> #[trigger] m@[i] == 0,
    {
        let data: Vec<u8> = vec![0u8; MEM_SIZE];
        Memory { data }
    }

    /// The physical address of `seg:off`: `seg * 16 + off`, wrapped at one
    /// mebibyte.
    pub fn linear(seg: u16, off: u16) -> (a: usize)
        ensures
            a == linear_addr(seg, off),
            a < MEM_SIZE,
    {
        let base: u32 = (seg as u32) << 4;
        assert(base == seg * 16) by (bit_vector)
            requires
                base == (seg as u32) << 4u32,
        ;
        let sum: u32 = base + off as u32;
        let a = sum as usize & (MEM_SIZE - 1);
        assert(a == (sum as usize) % 0x100000usize && a < 0x100000usize) by (bit_vector)
            requires
                a == (sum as usize) & 0xFFFFFusize,
        ;
        a
    }

    /// Reads the byte at `addr`, wrapped at one mebibyte.
    pub fn read(&self, addr: usize) -> (v: u8)
        ensures
            v == self@[cell(addr as int)],
    {
        proof {
            use_type_invariant(self);
            lemma_mask_is_cell(addr);
        }
        self.data[addr & (MEM_SIZE - 1)]
    }

    /// Reads the little-endian word at `addr`: the low byte at `addr`, the
    /// high byte at `addr + 1`, each wrapped at one mebibyte.
    pub fn read_word(&self, addr: usize) -> (v: u16)
        requires
            addr < usize::MAX,
        ensures
            v == make_word(self@[cell(addr + 1)], self@[cell(addr as int)]),
    {
        let hi = self.read(addr + 1);
        let lo = self.read(addr);
        let v: u16 = (hi as u16) << 8 | lo as u16;
        assert(v == hi * 256 + lo) by (bit_vector)
            requires
                v == ((hi as u16) << 8u16) | lo as u16,
        ;
        v
    }

    /// Writes the byte at `addr`, wrapped at one mebibyte.
    pub fn write(&mut self, addr: usize, v: u8)
        ensures
            final(self)@ == old(self)@.update(cell(addr as int), v),
    {
        proof {
            use_type_invariant(&*self);
            lemma_mask_is_cell(addr);
        }
        let i = addr & (MEM_SIZE - 1);
        self.data[i] = v;
        assert(self@ =~= old(self)@.update(cell(addr as int), v));
    }

    /// Writes the little-endian word at `addr`: the low byte at `addr`, the
    /// high byte at `addr + 1`, each wrapped at one mebibyte.
    pub fn write_word(&mut self, addr: usize, v: u16)
        requires
            addr < usize::MAX,
        ensures
            final(self)@ == old(self)@.update(cell(addr as int), low_byte(v)).update(
                cell(addr + 1),
                high_byte(v),
            ),
    {
        let lo = v as u8;
        let hi = (v >> 8) as u8;
        assert(lo == v % 256 && hi == v / 256) by (bit_vector)
            requires
                lo == v as u8,
                hi == (v >> 8u16) as u8,
        ;
        self.write(addr, lo);
        self.write(addr + 1, hi);
    }

    /// Writes `bytes` from `addr` on, one after the other, each address
    /// wrapped at one mebibyte.
    pub fn load(&mut self, addr: usize, bytes: &[u8])
        requires
            addr + bytes@.len() <= usize::MAX + 1,
        ensures
            final(self)@ == loaded(old(self)@, addr as int, bytes@),
    {
        let n = bytes.len();
        let mut i: usize = 0;
        while i < n
            invariant
                i <= n,
                n == bytes@.len(),
                addr + n <= usize::MAX + 1,
                self@ == loaded(old(self)@, addr as int, bytes@.take(i as int)),
            decreases n - i,
        {
            self.write(addr + i, bytes[i]);
            assert(bytes@.take(i + 1).drop_last() =~= bytes@.take(i as int));
            i = i + 1;
        }
        assert(bytes@.take(n as int) =~= bytes@);
    }
}

/// Reading a word back: after `write_word(addr, v)`, `read_word(addr)`
/// gives `v`, also where the word straddles the one-mebibyte boundary.
pub proof fn lemma_read_word_after_write_word(mem: Seq<u8>, addr: int, v: u16)
    requires
        mem.len() == MEM_SIZE,
        addr >= 0,
    ensures
        ({
            let after = mem.update(cell(addr), low_byte(v)).update(cell(addr + 1), high_byte(v));
            make_word(after[cell(addr + 1)], after[cell(addr)]) == v
        }),
{
    assert(cell(addr) != cell(addr + 1));
}

/// Reading a byte back: after `write(addr, v)`, `read(addr)` gives `v`,
/// and every other cell keeps its byte.
pub proof fn lemma_read_after_write(mem: Seq<u8>, addr: int, v: u8, other: int)
    requires
        mem.len() == MEM_SIZE,
        addr >= 0,
        0 <= other < MEM_SIZE,
        other != cell(addr),
    ensures
        mem.update(cell(addr), v)[cell(addr)] == v,
        mem.update(cell(addr), v)[other] == mem[other],
{
}

/// Where `load` puts its bytes when there are no more of them than memory
/// holds: the byte at offset `j` from `addr` lands on `cell(addr + j)`, and a
/// cell that no offset reaches keeps its byte.
pub proof fn lemma_loaded_places_bytes(mem: Seq<u8>, addr: int, bytes: Seq<u8>, i: int)
    requires
        mem.len() == MEM_SIZE,
        addr >= 0,
        bytes.len() <= MEM_SIZE,
        0 <= i < MEM_SIZE,
    ensures
        loaded(mem, addr, bytes).len() == MEM_SIZE,
        loaded(mem, addr, bytes)[i] == if (i - addr) % (MEM_SIZE as int) < bytes.len() {
            bytes[(i - addr) % (MEM_SIZE as int)]
        } else {
            mem[i]
        },
    decreases bytes.len(),
{
    let m = MEM_SIZE as int;
    if bytes.len() > 0 {
        let n = bytes.len() as int;
        let rest = bytes.drop_last();
        lemma_loaded_places_bytes(mem, addr, rest, i);
        lemma_loaded_len(mem, addr, rest);
        let c = cell(addr + n - 1);
        let j = (i - addr) % m;
        if i == c {
            assert(j == n - 1);
        } else {
            assert(j != n - 1);
        }
    }
}

proof fn lemma_loaded_len(mem: Seq<u8>, addr: int, bytes: Seq<u8>)
    requires
        mem.len() == MEM_SIZE,
        addr >= 0,
    ensures
        loaded(mem, addr, bytes).len() == MEM_SIZE,
    decreases bytes.len(),
{
    if bytes.len() > 0 {
        lemma_loaded_len(mem, addr, bytes.drop_last());
    }
}

impl Default for Memory {
    fn default() -> (m: Memory)
        ensures
            forall|i: int| 0 <= i < MEM_SIZE ==> #[trigger] m@[i] == 0,
    {
        Memory::new()
    }
}

} // verus!
