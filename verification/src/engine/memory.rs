//! The 4096-byte address space: the font table, the loaded program and
//! bounds-respecting reads and writes.

use vstd::prelude::*;
use crate::engine::isa::{decode, parse_instruction, word_of, Instruction};

verus! {

/// Size of the address space in bytes.
pub const MEMORY_SIZE: usize = 4096;

/// Address of the first program byte.
pub const PROGRAM_START: usize = 0x200;

/// Size of the font table in bytes: sixteen glyphs of five rows.
pub const FONT_SIZE: usize = 80;

/// The built-in glyphs for the hexadecimal digits `0..=F`, five bytes
/// each, the digit `d` at offset `5 * d`.
pub open spec fn font_table() -> Seq<u8> {
    seq![
        0xF0u8, 0x90, 0x90, 0x90, 0xF0,
        0x20, 0x60, 0x20, 0x20, 0x70,
        0xF0, 0x10, 0xF0, 0x80, 0xF0,
        0xF0, 0x10, 0xF0, 0x10, 0xF0,
        0x90, 0x90, 0xF0, 0x10, 0x10,
        0xF0, 0x80, 0xF0, 0x10, 0xF0,
        0xF0, 0x80, 0xF0, 0x90, 0xF0,
        0xF0, 0x10, 0x20, 0x40, 0x40,
        0xF0, 0x90, 0xF0, 0x90, 0xF0,
        0xF0, 0x90, 0xF0, 0x10, 0xF0,
        0xF0, 0x90, 0xF0, 0x90, 0x90,
        0xE0, 0x90, 0xE0, 0x90, 0xE0,
        0xF0, 0x80, 0x80, 0x80, 0xF0,
        0xE0, 0x90, 0x90, 0x90, 0xE0,
        0xF0, 0x80, 0xF0, 0x80, 0xF0,
        0xF0, 0x80, 0xF0, 0x80, 0x80,
    ]
}

/// The memory image right after loading `rom`: the font table at the
/// bottom, the program from `0x200` on as far as it fits, zero elsewhere.
pub open spec fn loaded(rom: Seq<u8>) -> Seq<u8> {
    Seq::new(
        4096,
        |i: int|
            if i < 80 {
                font_table()[i]
            } else if 0x200 <= i < 0x200 + rom.len() {
                rom[i - 0x200]
            } else {
                0u8
            },
    )
}

/// The memory image `mem` with `values` written from address `start` on.
pub open spec fn stored(mem: Seq<u8>, values: Seq<u8>, start: int) -> Seq<u8> {
    Seq::new(
        mem.len(),
        |i: int|
            if start <= i < start + values.len() {
                values[i - start]
            } else {
                mem[i]
            },
    )
}

/// The instruction stored at `addr`, if both of its bytes lie inside the
/// address space and the word is in the decode table.
pub open spec fn fetch(mem: Seq<u8>, addr: int) -> Option<Instruction> {
    if addr + 1 < 4096 {
        decode(word_of(mem[addr], mem[addr + 1]))
    } else {
        None
    }
}

/// The address space.
pub struct Memory {
    memory: Vec<u8>,
}

impl View for Memory {
    type V = Seq<u8>;

    closed spec fn view(&self) -> Seq<u8> {
        self.memory@
    }
}

/// The font table as bytes.
fn font_pack() -> (font: Vec<u8>)
    ensures
        font@ == font_table(),
{
    let font: Vec<u8> = vec![
        0xF0u8, 0x90, 0x90, 0x90, 0xF0,
        0x20, 0x60, 0x20, 0x20, 0x70,
        0xF0, 0x10, 0xF0, 0x80, 0xF0,
        0xF0, 0x10, 0xF0, 0x10, 0xF0,
        0x90, 0x90, 0xF0, 0x10, 0x10,
        0xF0, 0x80, 0xF0, 0x10, 0xF0,
        0xF0, 0x80, 0xF0, 0x90, 0xF0,
        0xF0, 0x10, 0x20, 0x40, 0x40,
        0xF0, 0x90, 0xF0, 0x90, 0xF0,
        0xF0, 0x90, 0xF0, 0x10, 0xF0,
        0xF0, 0x90, 0xF0, 0x90, 0x90,
        0xE0, 0x90, 0xE0, 0x90, 0xE0,
        0xF0, 0x80, 0x80, 0x80, 0xF0,
        0xE0, 0x90, 0x90, 0x90, 0xE0,
        0xF0, 0x80, 0xF0, 0x80, 0xF0,
        0xF0, 0x80, 0xF0, 0x80, 0x80,
    ];
    assert(font@ =~= font_table());
    font
}

impl Memory {
    /// The address space always has 4096 bytes.
    pub open spec fn wf(&self) -> bool {
        self@.len() == 4096
    }

    /// A fresh address space holding the font table and `rom`.
    ///
    /// Program bytes that would fall beyond the last address are dropped.
    pub fn load(rom: &[u8]) -> (mem: Memory)
        ensures
            mem.wf(),
            mem@ == loaded(rom@),
    {
        let font = font_pack();
        let mut memory: Vec<u8> = Vec::with_capacity(MEMORY_SIZE);
        let mut i: usize = 0;
        while i < MEMORY_SIZE
            invariant
                i <= 4096,
                font@ == font_table(),
                memory@.len() == i,
                forall|k: int| 0 <= k < i ==> memory@[k] == #[trigger] loaded(rom@)[k],
            decreases 4096 - i,
        {
            let byte: u8 = if i < FONT_SIZE {
                font[i]
            } else if i >= PROGRAM_START && i - PROGRAM_START < rom.len() {
                rom[i - PROGRAM_START]
            } else {
                0
            };
            memory.push(byte);
            i = i + 1;
        }
        assert(memory@ =~= loaded(rom@));
        Memory { memory }
    }

    /// The byte at `addr`.
    pub fn byte_at(&self, addr: u16) -> (byte: u8)
        requires
            self.wf(),
            addr < 4096,
        ensures
            byte == self@[addr as int],
    {
        self.memory[addr as usize]
    }

    /// Fetches and decodes the instruction at `addr`.
    ///
    /// `None` when the second byte would lie beyond the address space or
    /// when the word is not in the decode table.
    pub fn parse_instruction(&self, addr: u16) -> (result: Option<Instruction>)
        requires
            self.wf(),
        ensures
            result == fetch(self@, addr as int),
            result matches Some(i) ==> i.wf(),
    {
        if addr as usize + 1 >= self.memory.len() {
            return None;
        }
        let at: usize = addr as usize;
        let bytes: [u8; 2] = [self.memory[at], self.memory[at + 1]];
        parse_instruction(&bytes)
    }

    /// Whether the `count` bytes from `addr` on all lie inside the address
    /// space.
    pub fn in_range(&self, addr: usize, count: usize) -> (ok: bool)
        requires
            self.wf(),
        ensures
            ok == (addr + count <= 4096),
    {
        addr <= MEMORY_SIZE && count <= MEMORY_SIZE - addr
    }

    /// A copy of the `count` bytes from `addr` on.
    pub fn get_data_bytes(&self, addr: usize, count: usize) -> (bytes: Vec<u8>)
        requires
            self.wf(),
            addr + count <= 4096,
        ensures
            bytes@ == self@.subrange(addr as int, addr + count),
    {
        let mut bytes: Vec<u8> = Vec::with_capacity(count);
        let mut i: usize = 0;
        while i < count
            invariant
                self.wf(),
                addr + count <= 4096,
                i <= count,
                bytes@ == self@.subrange(addr as int, addr + i),
            decreases count - i,
        {
            bytes.push(self.memory[addr + i]);
            i = i + 1;
            assert(bytes@ =~= self@.subrange(addr as int, addr + i));
        }
        bytes
    }

    /// Writes `dump_vals` to consecutive addresses, starting at `l`.
    pub fn store_from(&mut self, dump_vals: &[u8], l: u16)
        requires
            old(self).wf(),
            dump_vals@.len() > 0 ==> l + dump_vals@.len() <= 4096,
        ensures
            final(self).wf(),
            final(self)@ == stored(old(self)@, dump_vals@, l as int),
    {
        let mut i: usize = 0;
        while i < dump_vals.len()
            invariant
                self.wf(),
                dump_vals@.len() > 0 ==> l + dump_vals@.len() <= 4096,
                i <= dump_vals@.len(),
                self@ == stored(old(self)@, dump_vals@.take(i as int), l as int),
            decreases dump_vals@.len() - i,
        {
            self.memory[l as usize + i] = dump_vals[i];
            i = i + 1;
            assert(self@ =~= stored(old(self)@, dump_vals@.take(i as int), l as int));
        }
        assert(dump_vals@.take(i as int) =~= dump_vals@);
        assert(self@ =~= stored(old(self)@, dump_vals@, l as int));
    }
}

} // verus!
