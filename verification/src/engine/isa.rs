//! The instruction set: the tagged instruction value and the decoder from
//! two-byte big-endian words.

use vstd::prelude::*;
use crate::engine::text::push_char;

verus! {

/// One decoded instruction. Register operands are indices `0..=15`,
/// addresses are 12-bit values.
#[derive(Debug, Clone, Copy, PartialEq, Eq)]
pub enum Instruction {
    /// `0nnn`: legacy system call, ignored.
    Ignore,
    /// `00E0`: clear the display.
    ClearDisplay,
    /// `00EE`: return from a subroutine.
    ReturnSubroutine,
    /// `1nnn`: jump to `nnn`.
    JmpAddr(u16),
    /// `2nnn`: call the subroutine at `nnn`.
    CallSub(u16),
    /// `3xkk`: skip the next instruction if `Vx == kk`.
    SkipEq { r: u8, val: u8 },
    /// `4xkk`: skip the next instruction if `Vx != kk`.
    SkipNeq { r: u8, val: u8 },
    /// `5xy_`: skip the next instruction if `Vx == Vy`.
    SkipRegEq { r: u8, f: u8 },
    /// `6xkk`: `Vx = kk`.
    SetByte { r: u8, val: u8 },
    /// `7xkk`: `Vx += kk`, flag untouched.
    AddByte { r: u8, val: u8 },
    /// `8xy0`: `Vx = Vy`.
    SetRegV { r: u8, f: u8 },
    /// `8xy1`: `Vx |= Vy`.
    OrRegV { r: u8, f: u8 },
    /// `8xy2`: `Vx &= Vy`.
    AndRegV { r: u8, f: u8 },
    /// `8xy3`: `Vx ^= Vy`.
    XorRegV { r: u8, f: u8 },
    /// `8xy4`: `Vx += Vy`, flag is the carry.
    AddRegV { r: u8, f: u8 },
    /// `8xy5`: `Vx -= Vy`, flag is "no borrow".
    SubRegV { r: u8, f: u8 },
    /// `8xy6`: `Vx = Vy >> 1`, flag is the bit shifted out.
    ShrRegV { r: u8, f: u8 },
    /// `8xy7`: `Vx = Vy - Vx`, flag is "no borrow".
    SubNRegV { r: u8, f: u8 },
    /// `8xyE`: `Vx = Vy << 1`, flag is the bit shifted out.
    ShlRegV { r: u8, f: u8 },
    /// `9xy_`: skip the next instruction if `Vx != Vy`.
    SkipRegNeq { r: u8, f: u8 },
    /// `Annn`: address register = `nnn`.
    SetRegL(u16),
    /// `Bnnn`: jump to `nnn + V0`.
    JmpAddrOffReg0(u16),
    /// `Cxkk`: `Vx = random byte & kk`.
    RndAnd { r: u8, val: u8 },
    /// `Dxyn`: draw an `n`-row sprite at `(Vx, Vy)`.
    DispSpr { rp: (u8, u8), n: u8 },
    /// `Ex9E`: skip the next instruction if key `Vx` is pressed.
    SkipKeyPressed { r: u8 },
    /// `ExA1`: skip the next instruction if key `Vx` is not pressed.
    SkipKeyReleased { r: u8 },
    /// `Fx07`: `Vx = delay timer`.
    SetDelayToReg { r: u8 },
    /// `Fx0A`: block until a key is pressed, store its code in `Vx`.
    WaitKeyPress { r: u8 },
    /// `Fx15`: delay timer = `Vx`.
    SetDelayFromReg { r: u8 },
    /// `Fx18`: sound timer = `Vx`.
    SetSoundFromReg { r: u8 },
    /// `Fx1E`: address register += `Vx`.
    AddRegL { r: u8 },
    /// `Fx29`: address register = address of the glyph for digit `Vx`.
    SetRegLFontAddrFromReg { r: u8 },
    /// `Fx33`: store the three decimal digits of `Vx` at the address register.
    MemDumpBcdFromReg { r: u8 },
    /// `Fx55`: store `V0..=Vx` at the address register.
    MemDump { endr: u8 },
    /// `Fx65`: load `V0..=Vx` from the address register.
    MemRead { endr: u8 },
}

impl Instruction {
    /// Every register operand is a valid index, every address fits in 12
    /// bits and a sprite height fits in a nibble.
    pub open spec fn wf(self) -> bool {
        match self {
            Instruction::Ignore | Instruction::ClearDisplay | Instruction::ReturnSubroutine => true,
            Instruction::JmpAddr(a)
            | Instruction::CallSub(a)
            | Instruction::SetRegL(a)
            | Instruction::JmpAddrOffReg0(a) => a < 0x1000,
            Instruction::SkipEq { r, .. }
            | Instruction::SkipNeq { r, .. }
            | Instruction::SetByte { r, .. }
            | Instruction::AddByte { r, .. }
            | Instruction::RndAnd { r, .. } => r < 16,
            Instruction::SkipRegEq { r, f }
            | Instruction::SetRegV { r, f }
            | Instruction::OrRegV { r, f }
            | Instruction::AndRegV { r, f }
            | Instruction::XorRegV { r, f }
            | Instruction::AddRegV { r, f }
            | Instruction::SubRegV { r, f }
            | Instruction::ShrRegV { r, f }
            | Instruction::SubNRegV { r, f }
            | Instruction::ShlRegV { r, f }
            | Instruction::SkipRegNeq { r, f } => r < 16 && f < 16,
            Instruction::DispSpr { rp, n } => rp.0 < 16 && rp.1 < 16 && n < 16,
            Instruction::SkipKeyPressed { r }
            | Instruction::SkipKeyReleased { r }
            | Instruction::SetDelayToReg { r }
            | Instruction::WaitKeyPress { r }
            | Instruction::SetDelayFromReg { r }
            | Instruction::SetSoundFromReg { r }
            | Instruction::AddRegL { r }
            | Instruction::SetRegLFontAddrFromReg { r }
            | Instruction::MemDumpBcdFromReg { r } => r < 16,
            Instruction::MemDump { endr } | Instruction::MemRead { endr } => endr < 16,
        }
    }
}

/// The 16-bit word formed by two bytes in big-endian order.
pub open spec fn word_of(hi: u8, lo: u8) -> nat {
    hi as nat * 256 + lo as nat
}

/// The low 12 bits of a word: the `nnn` operand.
pub open spec fn operand_addr(w: nat) -> u16 {
    (w % 0x1000) as u16
}

/// The second nibble of a word: the `x` operand.
pub open spec fn operand_x(w: nat) -> u8 {
    ((w / 0x100) % 16) as u8
}

/// The third nibble of a word: the `y` operand.
pub open spec fn operand_y(w: nat) -> u8 {
    ((w / 0x10) % 16) as u8
}

/// The last nibble of a word: the `n` operand.
pub open spec fn operand_n(w: nat) -> u8 {
    (w % 16) as u8
}

/// The low byte of a word: the `kk` operand.
pub open spec fn operand_byte(w: nat) -> u8 {
    (w % 0x100) as u8
}

/// Decoding of the register-to-register group `8xy_`, selected by the last
/// nibble.
pub open spec fn decode_alu(w: nat) -> Option<Instruction> {
    let r = operand_x(w);
    let f = operand_y(w);
    let sel = operand_n(w);
    if sel == 0x0 {
        Some(Instruction::SetRegV { r, f })
    } else if sel == 0x1 {
        Some(Instruction::OrRegV { r, f })
    } else if sel == 0x2 {
        Some(Instruction::AndRegV { r, f })
    } else if sel == 0x3 {
        Some(Instruction::XorRegV { r, f })
    } else if sel == 0x4 {
        Some(Instruction::AddRegV { r, f })
    } else if sel == 0x5 {
        Some(Instruction::SubRegV { r, f })
    } else if sel == 0x6 {
        Some(Instruction::ShrRegV { r, f })
    } else if sel == 0x7 {
        Some(Instruction::SubNRegV { r, f })
    } else if sel == 0xE {
        Some(Instruction::ShlRegV { r, f })
    } else {
        None
    }
}

/// Decoding of the keypad group `Ex__`, selected by the low byte.
pub open spec fn decode_key(w: nat) -> Option<Instruction> {
    let r = operand_x(w);
    let sel = operand_byte(w);
    if sel == 0x9E {
        Some(Instruction::SkipKeyPressed { r })
    } else if sel == 0xA1 {
        Some(Instruction::SkipKeyReleased { r })
    } else {
        None
    }
}

/// Decoding of the miscellaneous group `Fx__`, selected by the low byte.
pub open spec fn decode_misc(w: nat) -> Option<Instruction> {
    let r = operand_x(w);
    let sel = operand_byte(w);
    if sel == 0x07 {
        Some(Instruction::SetDelayToReg { r })
    } else if sel == 0x0A {
        Some(Instruction::WaitKeyPress { r })
    } else if sel == 0x15 {
        Some(Instruction::SetDelayFromReg { r })
    } else if sel == 0x18 {
        Some(Instruction::SetSoundFromReg { r })
    } else if sel == 0x1E {
        Some(Instruction::AddRegL { r })
    } else if sel == 0x29 {
        Some(Instruction::SetRegLFontAddrFromReg { r })
    } else if sel == 0x33 {
        Some(Instruction::MemDumpBcdFromReg { r })
    } else if sel == 0x55 {
        Some(Instruction::MemDump { endr: r })
    } else if sel == 0x65 {
        Some(Instruction::MemRead { endr: r })
    } else {
        None
    }
}

/// The decode table: the instruction that a 16-bit word stands for, or
/// `None` for a word outside the table.
///
/// The top nibble selects the group. A word with top nibble `0` other than
/// `00E0` and `00EE` is the ignored legacy system call.
pub open spec fn decode(w: nat) -> Option<Instruction>
    recommends
        w < 0x10000,
{
    let group = w / 0x1000;
    let r = operand_x(w);
    let f = operand_y(w);
    let val = operand_byte(w);
    let addr = operand_addr(w);
    if group == 0x0 {
        if w == 0x00E0 {
            Some(Instruction::ClearDisplay)
        } else if w == 0x00EE {
            Some(Instruction::ReturnSubroutine)
        } else {
            Some(Instruction::Ignore)
        }
    } else if group == 0x1 {
        Some(Instruction::JmpAddr(addr))
    } else if group == 0x2 {
        Some(Instruction::CallSub(addr))
    } else if group == 0x3 {
        Some(Instruction::SkipEq { r, val })
    } else if group == 0x4 {
        Some(Instruction::SkipNeq { r, val })
    } else if group == 0x5 {
        Some(Instruction::SkipRegEq { r, f })
    } else if group == 0x6 {
        Some(Instruction::SetByte { r, val })
    } else if group == 0x7 {
        Some(Instruction::AddByte { r, val })
    } else if group == 0x8 {
        decode_alu(w)
    } else if group == 0x9 {
        Some(Instruction::SkipRegNeq { r, f })
    } else if group == 0xA {
        Some(Instruction::SetRegL(addr))
    } else if group == 0xB {
        Some(Instruction::JmpAddrOffReg0(addr))
    } else if group == 0xC {
        Some(Instruction::RndAnd { r, val })
    } else if group == 0xD {
        Some(Instruction::DispSpr { rp: (r, f), n: operand_n(w) })
    } else if group == 0xE {
        decode_key(w)
    } else if group == 0xF {
        decode_misc(w)
    } else {
        None
    }
}

/// Every word decodes to a well-formed instruction or to nothing, and the
/// only words that decode to nothing lie in the groups `8`, `E` and `F`.
pub proof fn lemma_decode_total(w: nat)
    requires
        w < 0x10000,
    ensures
        decode(w) matches Some(i) ==> i.wf(),
        decode(w) is None ==> (w / 0x1000 == 0x8 || w / 0x1000 == 0xE || w / 0x1000 == 0xF),
{
}

/// The canonical word of an instruction: the one word of the table that
/// stands for it and has every unused bit clear.
pub open spec fn encode(i: Instruction) -> nat {
    match i {
        Instruction::Ignore => 0x0000,
        Instruction::ClearDisplay => 0x00E0,
        Instruction::ReturnSubroutine => 0x00EE,
        Instruction::JmpAddr(addr) => 0x1000 + addr as nat,
        Instruction::CallSub(addr) => 0x2000 + addr as nat,
        Instruction::SkipEq { r, val } => encode_byte_form(0x3, r, val),
        Instruction::SkipNeq { r, val } => encode_byte_form(0x4, r, val),
        Instruction::SkipRegEq { r, f } => encode_pair_form(0x5, r, f, 0x0),
        Instruction::SetByte { r, val } => encode_byte_form(0x6, r, val),
        Instruction::AddByte { r, val } => encode_byte_form(0x7, r, val),
        Instruction::SetRegV { r, f } => encode_pair_form(0x8, r, f, 0x0),
        Instruction::OrRegV { r, f } => encode_pair_form(0x8, r, f, 0x1),
        Instruction::AndRegV { r, f } => encode_pair_form(0x8, r, f, 0x2),
        Instruction::XorRegV { r, f } => encode_pair_form(0x8, r, f, 0x3),
        Instruction::AddRegV { r, f } => encode_pair_form(0x8, r, f, 0x4),
        Instruction::SubRegV { r, f } => encode_pair_form(0x8, r, f, 0x5),
        Instruction::ShrRegV { r, f } => encode_pair_form(0x8, r, f, 0x6),
        Instruction::SubNRegV { r, f } => encode_pair_form(0x8, r, f, 0x7),
        Instruction::ShlRegV { r, f } => encode_pair_form(0x8, r, f, 0xE),
        Instruction::SkipRegNeq { r, f } => encode_pair_form(0x9, r, f, 0x0),
        Instruction::SetRegL(addr) => 0xA000 + addr as nat,
        Instruction::JmpAddrOffReg0(addr) => 0xB000 + addr as nat,
        Instruction::RndAnd { r, val } => encode_byte_form(0xC, r, val),
        Instruction::DispSpr { rp, n } => encode_pair_form(0xD, rp.0, rp.1, n),
        Instruction::SkipKeyPressed { r } => encode_byte_form(0xE, r, 0x9E),
        Instruction::SkipKeyReleased { r } => encode_byte_form(0xE, r, 0xA1),
        Instruction::SetDelayToReg { r } => encode_byte_form(0xF, r, 0x07),
        Instruction::WaitKeyPress { r } => encode_byte_form(0xF, r, 0x0A),
        Instruction::SetDelayFromReg { r } => encode_byte_form(0xF, r, 0x15),
        Instruction::SetSoundFromReg { r } => encode_byte_form(0xF, r, 0x18),
        Instruction::AddRegL { r } => encode_byte_form(0xF, r, 0x1E),
        Instruction::SetRegLFontAddrFromReg { r } => encode_byte_form(0xF, r, 0x29),
        Instruction::MemDumpBcdFromReg { r } => encode_byte_form(0xF, r, 0x33),
        Instruction::MemDump { endr } => encode_byte_form(0xF, endr, 0x55),
        Instruction::MemRead { endr } => encode_byte_form(0xF, endr, 0x65),
    }
}

/// The word `gxkk`.
pub open spec fn encode_byte_form(group: nat, x: u8, byte: u8) -> nat {
    group * 0x1000 + x as nat * 0x100 + byte as nat
}

/// The word `gxyn`.
pub open spec fn encode_pair_form(group: nat, x: u8, y: u8, n: u8) -> nat {
    group * 0x1000 + x as nat * 0x100 + y as nat * 0x10 + n as nat
}

/// Every well-formed instruction has a word, and that word decodes to it:
/// no two instructions share their canonical word, and the table reaches
/// every instruction.
pub proof fn lemma_decode_encode(i: Instruction)
    requires
        i.wf(),
    ensures
        encode(i) < 0x10000,
        decode(encode(i)) == Some(i),
{
    match i {
        Instruction::Ignore | Instruction::ClearDisplay | Instruction::ReturnSubroutine => {},
        Instruction::JmpAddr(addr) => lemma_addr_form(0x1, addr),
        Instruction::CallSub(addr) => lemma_addr_form(0x2, addr),
        Instruction::SetRegL(addr) => lemma_addr_form(0xA, addr),
        Instruction::JmpAddrOffReg0(addr) => lemma_addr_form(0xB, addr),
        Instruction::SkipEq { r, val } => lemma_byte_form(0x3, r, val),
        Instruction::SkipNeq { r, val } => lemma_byte_form(0x4, r, val),
        Instruction::SetByte { r, val } => lemma_byte_form(0x6, r, val),
        Instruction::AddByte { r, val } => lemma_byte_form(0x7, r, val),
        Instruction::RndAnd { r, val } => lemma_byte_form(0xC, r, val),
        Instruction::SkipRegEq { r, f } => lemma_pair_form(0x5, r, f, 0x0),
        Instruction::SetRegV { r, f } => lemma_pair_form(0x8, r, f, 0x0),
        Instruction::OrRegV { r, f } => lemma_pair_form(0x8, r, f, 0x1),
        Instruction::AndRegV { r, f } => lemma_pair_form(0x8, r, f, 0x2),
        Instruction::XorRegV { r, f } => lemma_pair_form(0x8, r, f, 0x3),
        Instruction::AddRegV { r, f } => lemma_pair_form(0x8, r, f, 0x4),
        Instruction::SubRegV { r, f } => lemma_pair_form(0x8, r, f, 0x5),
        Instruction::ShrRegV { r, f } => lemma_pair_form(0x8, r, f, 0x6),
        Instruction::SubNRegV { r, f } => lemma_pair_form(0x8, r, f, 0x7),
        Instruction::ShlRegV { r, f } => lemma_pair_form(0x8, r, f, 0xE),
        Instruction::SkipRegNeq { r, f } => lemma_pair_form(0x9, r, f, 0x0),
        Instruction::DispSpr { rp, n } => lemma_pair_form(0xD, rp.0, rp.1, n),
        Instruction::SkipKeyPressed { r } => lemma_byte_form(0xE, r, 0x9E),
        Instruction::SkipKeyReleased { r } => lemma_byte_form(0xE, r, 0xA1),
        Instruction::SetDelayToReg { r } => lemma_byte_form(0xF, r, 0x07),
        Instruction::WaitKeyPress { r } => lemma_byte_form(0xF, r, 0x0A),
        Instruction::SetDelayFromReg { r } => lemma_byte_form(0xF, r, 0x15),
        Instruction::SetSoundFromReg { r } => lemma_byte_form(0xF, r, 0x18),
        Instruction::AddRegL { r } => lemma_byte_form(0xF, r, 0x1E),
        Instruction::SetRegLFontAddrFromReg { r } => lemma_byte_form(0xF, r, 0x29),
        Instruction::MemDumpBcdFromReg { r } => lemma_byte_form(0xF, r, 0x33),
        Instruction::MemDump { endr } => lemma_byte_form(0xF, endr, 0x55),
        Instruction::MemRead { endr } => lemma_byte_form(0xF, endr, 0x65),
    }
}

/// The group and the address of a word `gnnn`.
proof fn lemma_addr_form(group: nat, addr: u16)
    requires
        group < 16,
        addr < 0x1000,
    ensures
        (group * 0x1000 + addr as nat) / 0x1000 == group,
        operand_addr(group * 0x1000 + addr as nat) == addr,
{
}

/// The group and the operands of a word `gxkk`.
proof fn lemma_byte_form(group: nat, x: u8, byte: u8)
    requires
        group < 16,
        x < 16,
    ensures
        encode_byte_form(group, x, byte) / 0x1000 == group,
        operand_x(encode_byte_form(group, x, byte)) == x,
        operand_byte(encode_byte_form(group, x, byte)) == byte,
{
    let w = encode_byte_form(group, x, byte) as int;
    assert(w / 0x100 == group * 16 + x);
}

/// The group and the operands of a word `gxyn`.
proof fn lemma_pair_form(group: nat, x: u8, y: u8, n: u8)
    requires
        group < 16,
        x < 16,
        y < 16,
        n < 16,
    ensures
        encode_pair_form(group, x, y, n) / 0x1000 == group,
        operand_x(encode_pair_form(group, x, y, n)) == x,
        operand_y(encode_pair_form(group, x, y, n)) == y,
        operand_n(encode_pair_form(group, x, y, n)) == n,
        operand_byte(encode_pair_form(group, x, y, n)) == y * 16 + n,
{
    let w = encode_pair_form(group, x, y, n) as int;
    assert(w / 0x100 == group * 16 + x);
    assert(w / 0x10 == group * 256 + x * 16 + y);
}

/// The operands of a word, read off its two bytes with shifts and masks.
proof fn lemma_nibbles(hi: u8, lo: u8)
    ensures
        word_of(hi, lo) < 0x10000,
        word_of(hi, lo) / 0x1000 == (hi >> 4),
        operand_x(word_of(hi, lo)) == hi & 0x0F,
        operand_y(word_of(hi, lo)) == (lo >> 4),
        operand_n(word_of(hi, lo)) == lo & 0x0F,
        operand_byte(word_of(hi, lo)) == lo,
        operand_addr(word_of(hi, lo)) == (hi & 0x0F) as nat * 256 + lo as nat,
        (hi >> 4) < 16,
        (hi & 0x0F) < 16,
{
    assert(hi >> 4 == hi / 16 && hi & 0x0F == hi % 16) by (bit_vector);
    assert(lo >> 4 == lo / 16 && lo & 0x0F == lo % 16) by (bit_vector);
    let w = word_of(hi, lo) as int;
    let a = hi as int / 16;
    let b = hi as int % 16;
    let c = lo as int / 16;
    let d = lo as int % 16;
    assert(w == 4096 * a + 256 * b + 16 * c + d);
    assert(w / 0x1000 == a);
    assert(w / 0x100 == 16 * a + b);
    assert(w / 0x10 == 256 * a + 16 * b + c);
    assert(w % 0x1000 == 256 * b + 16 * c + d);
    assert(w % 0x100 == 16 * c + d);
    assert(w % 16 == d);
}

/// The 12-bit address operand of an instruction word.
pub fn get_12bit_from(bytes: &[u8; 2]) -> (addr: u16)
    ensures
        addr == operand_addr(word_of(bytes[0], bytes[1])),
        addr < 0x1000,
{
    let hi: u8 = bytes[0] & 0x0F;
    let wide: u16 = hi as u16;
    proof {
        lemma_nibbles(bytes[0], bytes[1]);
        assert(wide < 16 ==> (wide << 8) == wide * 256) by (bit_vector);
    }
    (wide << 8) + bytes[1] as u16
}

/// Decodes one instruction word, given as two bytes in big-endian order.
///
/// The result is exactly the entry of the decode table for the word;
/// `None` is the explicit outcome for a word outside the table.
pub fn parse_instruction(bytes: &[u8; 2]) -> (result: Option<Instruction>)
    ensures
        result == decode(word_of(bytes[0], bytes[1])),
        result matches Some(i) ==> i.wf(),
{
    proof {
        lemma_nibbles(bytes[0], bytes[1]);
        lemma_decode_total(word_of(bytes[0], bytes[1]));
    }
    let group: u8 = bytes[0] >> 4;
    let r: u8 = bytes[0] & 0x0F;
    let val: u8 = bytes[1];
    let f: u8 = bytes[1] >> 4;
    let low: u8 = bytes[1] & 0x0F;
    if group == 0x0 {
        if r == 0 && val == 0xE0 {
            Some(Instruction::ClearDisplay)
        } else if r == 0 && val == 0xEE {
            Some(Instruction::ReturnSubroutine)
        } else {
            Some(Instruction::Ignore)
        }
    } else if group == 0x1 {
        Some(Instruction::JmpAddr(get_12bit_from(bytes)))
    } else if group == 0x2 {
        Some(Instruction::CallSub(get_12bit_from(bytes)))
    } else if group == 0x3 {
        Some(Instruction::SkipEq { r, val })
    } else if group == 0x4 {
        Some(Instruction::SkipNeq { r, val })
    } else if group == 0x5 {
        Some(Instruction::SkipRegEq { r, f })
    } else if group == 0x6 {
        Some(Instruction::SetByte { r, val })
    } else if group == 0x7 {
        Some(Instruction::AddByte { r, val })
    } else if group == 0x8 {
        match low {
            0x0 => Some(Instruction::SetRegV { r, f }),
            0x1 => Some(Instruction::OrRegV { r, f }),
            0x2 => Some(Instruction::AndRegV { r, f }),
            0x3 => Some(Instruction::XorRegV { r, f }),
            0x4 => Some(Instruction::AddRegV { r, f }),
            0x5 => Some(Instruction::SubRegV { r, f }),
            0x6 => Some(Instruction::ShrRegV { r, f }),
            0x7 => Some(Instruction::SubNRegV { r, f }),
            0xE => Some(Instruction::ShlRegV { r, f }),
            _ => None,
        }
    } else if group == 0x9 {
        Some(Instruction::SkipRegNeq { r, f })
    } else if group == 0xA {
        Some(Instruction::SetRegL(get_12bit_from(bytes)))
    } else if group == 0xB {
        Some(Instruction::JmpAddrOffReg0(get_12bit_from(bytes)))
    } else if group == 0xC {
        Some(Instruction::RndAnd { r, val })
    } else if group == 0xD {
        Some(Instruction::DispSpr { rp: (r, f), n: low })
    } else if group == 0xE {
        match val {
            0x9E => Some(Instruction::SkipKeyPressed { r }),
            0xA1 => Some(Instruction::SkipKeyReleased { r }),
            _ => None,
        }
    } else {
        match val {
            0x07 => Some(Instruction::SetDelayToReg { r }),
            0x0A => Some(Instruction::WaitKeyPress { r }),
            0x15 => Some(Instruction::SetDelayFromReg { r }),
            0x18 => Some(Instruction::SetSoundFromReg { r }),
            0x1E => Some(Instruction::AddRegL { r }),
            0x29 => Some(Instruction::SetRegLFontAddrFromReg { r }),
            0x33 => Some(Instruction::MemDumpBcdFromReg { r }),
            0x55 => Some(Instruction::MemDump { endr: r }),
            0x65 => Some(Instruction::MemRead { endr: r }),
            _ => None,
        }
    }
}

/// Splits a program image into its instruction words, in order. A single
/// byte left over at the end belongs to no word.
pub fn instruction_words(image: &[u8]) -> (words: Vec<[u8; 2]>)
    ensures
        words@.len() == image@.len() / 2,
        forall|i: int|
            0 <= i < words@.len() ==> (#[trigger] words@[i])@ == seq![
                image@[2 * i],
                image@[2 * i + 1],
            ],
{
    let mut words: Vec<[u8; 2]> = Vec::new();
    let mut at: usize = 0;
    while at < image.len() && image.len() - at >= 2
        invariant
            at <= image@.len(),
            at % 2 == 0,
            words@.len() == at / 2,
            forall|i: int|
                0 <= i < words@.len() ==> (#[trigger] words@[i])@ == seq![
                    image@[2 * i],
                    image@[2 * i + 1],
                ],
        decreases image@.len() - at,
    {
        let word: [u8; 2] = [image[at], image[at + 1]];
        assert(word@ =~= seq![image@[at as int], image@[at + 1]]);
        words.push(word);
        at = at + 2;
    }
    words
}

/// Whether bit `col` of `byte` is set, counting from the most significant
/// bit.
pub open spec fn bit_at(byte: u8, col: int) -> bool {
    byte & (0x80u8 >> (col as u8)) != 0
}

/// The bits of a two-byte word as text: eight characters for the first
/// byte, a space, eight characters for the second, most significant bit
/// first, `true_char` for a set bit and `false_char` for a clear one.
pub open spec fn bitfield(hi: u8, lo: u8, true_char: char, false_char: char) -> Seq<char> {
    Seq::new(
        17,
        |i: int|
            if i == 8 {
                ' '
            } else if bit_at(
                if i < 8 {
                    hi
                } else {
                    lo
                },
                if i < 8 {
                    i
                } else {
                    i - 9
                },
            ) {
                true_char
            } else {
                false_char
            },
    )
}

/// Renders the bits of an instruction word as text.
pub fn to_bitfield_string(bytes: &[u8; 2], true_char: char, false_char: char) -> (text: String)
    ensures
        text@ == bitfield(bytes[0], bytes[1], true_char, false_char),
{
    let mut result = String::new();
    let mut idx: usize = 0;
    while idx < 2
        invariant
            idx <= 2,
            result@.len() == if idx == 2 { 17int } else { 9 * idx },
            forall|i: int|
                0 <= i < result@.len() ==> result@[i] == #[trigger] bitfield(
                    bytes[0],
                    bytes[1],
                    true_char,
                    false_char,
                )[i],
        decreases 2 - idx,
    {
        let item: u8 = bytes[idx];
        let mut col: u8 = 0;
        while col < 8
            invariant
                idx < 2,
                col <= 8,
                item == bytes[idx as int],
                result@.len() == 9 * idx + col,
                forall|i: int|
                    0 <= i < result@.len() ==> result@[i] == #[trigger] bitfield(
                        bytes[0],
                        bytes[1],
                        true_char,
                        false_char,
                    )[i],
            decreases 8 - col,
        {
            if item & (0x80u8 >> col) != 0 {
                push_char(&mut result, true_char);
            } else {
                push_char(&mut result, false_char);
            }
            col = col + 1;
        }
        if idx == 0 {
            push_char(&mut result, ' ');
        }
        idx = idx + 1;
    }
    assert(result@ =~= bitfield(bytes[0], bytes[1], true_char, false_char));
    result
}

} // verus!
