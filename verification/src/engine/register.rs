//! The register file and the execute step: one decoded instruction in, the
//! new register state and an optional side effect out.

use vstd::prelude::*;
use crate::engine::isa::Instruction;
use crate::engine::text::{hex_char, hex_digit, padded, push_char, push_padded};

verus! {

/// Number of general registers `V0..=VF`.
pub const GENERAL_REGISTERS_CNT: usize = 16;

/// Capacity of the call stack.
pub const STACK_POINTER_CNT: usize = 16;

/// Address at which a loaded program starts.
pub const INIT_PROGRAM_COUNTER_VAL: u16 = 0x200;

/// Work that the execute step leaves to the owner of memory, screen and
/// keypad.
#[derive(Debug, PartialEq, Eq)]
pub enum SideEffect {
    /// Draw the `n` bytes at address `l` as a sprite at `pos`.
    Draw { pos: (u8, u8), n: u8, l: u16 },
    /// Clear the whole display.
    ClearDisplay,
    /// Write `dump_vals` to memory, starting at `l`.
    MemDump { dump_vals: Vec<u8>, l: u16 },
    /// Read `count` bytes of memory, starting at `l`, into `V0..`.
    MemRead { count: u8, l: u16 },
    /// Suspend execution until a key is pressed; store its code in `Vr`.
    WaitKeyPress { r: u8 },
    /// Skip the next instruction if `key` is pressed.
    CheckKeyPressed { key: u8 },
    /// Skip the next instruction if `key` is not pressed.
    CheckKeyReleased { key: u8 },
}

/// Mathematical value of a [`SideEffect`].
pub enum SideEffectView {
    Draw { pos: (u8, u8), n: u8, l: u16 },
    ClearDisplay,
    MemDump { dump_vals: Seq<u8>, l: u16 },
    MemRead { count: u8, l: u16 },
    WaitKeyPress { r: u8 },
    CheckKeyPressed { key: u8 },
    CheckKeyReleased { key: u8 },
}

impl View for SideEffect {
    type V = SideEffectView;

    open spec fn view(&self) -> SideEffectView {
        match *self {
            SideEffect::Draw { pos, n, l } => SideEffectView::Draw { pos, n, l },
            SideEffect::ClearDisplay => SideEffectView::ClearDisplay,
            SideEffect::MemDump { dump_vals, l } => SideEffectView::MemDump {
                dump_vals: dump_vals@,
                l,
            },
            SideEffect::MemRead { count, l } => SideEffectView::MemRead { count, l },
            SideEffect::WaitKeyPress { r } => SideEffectView::WaitKeyPress { r },
            SideEffect::CheckKeyPressed { key } => SideEffectView::CheckKeyPressed { key },
            SideEffect::CheckKeyReleased { key } => SideEffectView::CheckKeyReleased { key },
        }
    }
}

/// Mathematical value of an optional side effect.
pub open spec fn effect_view(effect: Option<SideEffect>) -> Option<SideEffectView> {
    match effect {
        Some(e) => Some(e@),
        None => None,
    }
}

/// What a 60 Hz tick asks of the sound device.
#[derive(Debug, Clone, Copy, PartialEq, Eq)]
pub enum TimerSideEffect {
    /// Stay silent.
    Silent,
    /// Sound the buzzer for this tick.
    Beep,
}

/// Mathematical value of the register file.
pub struct RegistersView {
    /// The general registers `V0..=VF`.
    pub g: Seq<u8>,
    /// The address register.
    pub sl: u16,
    /// The program counter.
    pub pc: u16,
    /// The call stack, oldest return address first.
    pub stack: Seq<u16>,
    /// The delay timer.
    pub dt: u8,
    /// The sound timer.
    pub st: u8,
}

/// The three decimal digits of a byte, hundreds first.
pub open spec fn bcd_digits(value: u8) -> Seq<u8> {
    seq![value / 100, (value / 10) % 10, value % 10]
}

/// `1` for `true`, `0` for `false`.
pub open spec fn flag_byte(b: bool) -> u8 {
    if b {
        1
    } else {
        0
    }
}

impl RegistersView {
    /// Sixteen general registers and at most sixteen return addresses.
    pub open spec fn wf(self) -> bool {
        self.g.len() == 16 && self.stack.len() <= 16
    }

    /// The state with register `r` set to `value`.
    pub open spec fn set(self, r: u8, value: u8) -> RegistersView {
        RegistersView { g: self.g.update(r as int, value), ..self }
    }

    /// The state with the flag register `VF` set from `b`.
    pub open spec fn set_flag(self, b: bool) -> RegistersView {
        self.set(15, flag_byte(b))
    }

    /// The state after a 60 Hz tick: both timers count down to zero and stay
    /// there.
    pub open spec fn tick_timers(self) -> RegistersView {
        RegistersView {
            dt: if self.dt > 0 { (self.dt - 1) as u8 } else { 0 },
            st: if self.st > 0 { (self.st - 1) as u8 } else { 0 },
            ..self
        }
    }

    /// The state with `values` stored in `V0..`.
    pub open spec fn load_v0(self, values: Seq<u8>) -> RegistersView {
        RegistersView {
            g: Seq::new(
                self.g.len(),
                |i: int| if i < values.len() { values[i] } else { self.g[i] },
            ),
            ..self
        }
    }

    /// The general registers after `i`, with `rnd` as the random byte.
    ///
    /// Where an instruction writes both a result and the flag, the result
    /// is written first, so the flag wins when the target is `VF`. The
    /// shifts write the flag first and then read their source again.
    pub open spec fn regs_after(self, i: Instruction, rnd: u8) -> Seq<u8> {
        let g = self.g;
        match i {
            Instruction::SetByte { r, val } => self.set(r, val).g,
            Instruction::AddByte { r, val } => self.set(r, ((g[r as int] + val) % 256) as u8).g,
            Instruction::SetRegV { r, f } => self.set(r, g[f as int]).g,
            Instruction::OrRegV { r, f } => self.set(r, g[r as int] | g[f as int]).g,
            Instruction::AndRegV { r, f } => self.set(r, g[r as int] & g[f as int]).g,
            Instruction::XorRegV { r, f } => self.set(r, g[r as int] ^ g[f as int]).g,
            Instruction::AddRegV { r, f } => self.set(
                r,
                ((g[r as int] + g[f as int]) % 256) as u8,
            ).set_flag(g[r as int] + g[f as int] > 255).g,
            Instruction::SubRegV { r, f } => self.set(
                r,
                ((g[r as int] - g[f as int]) % 256) as u8,
            ).set_flag(g[r as int] >= g[f as int]).g,
            Instruction::SubNRegV { r, f } => self.set(
                r,
                ((g[f as int] - g[r as int]) % 256) as u8,
            ).set_flag(g[f as int] >= g[r as int]).g,
            Instruction::ShrRegV { r, f } => {
                let flagged = self.set_flag(g[f as int] % 2 == 1);
                flagged.set(r, flagged.g[f as int] / 2).g
            },
            Instruction::ShlRegV { r, f } => {
                let flagged = self.set_flag(g[f as int] >= 128);
                flagged.set(r, ((flagged.g[f as int] * 2) % 256) as u8).g
            },
            Instruction::RndAnd { r, val } => self.set(r, rnd & val).g,
            Instruction::SetDelayToReg { r } => self.set(r, self.dt).g,
            _ => g,
        }
    }

    /// The program counter after `i`, as an unbounded integer.
    ///
    /// Jumps, calls and returns set it directly. A conditional skip adds 4
    /// when its condition holds and 2 when it does not. The key tests leave
    /// it alone: their advance is settled once the keypad has been asked.
    /// Everything else adds 2.
    pub open spec fn pc_after(self, i: Instruction) -> int {
        let g = self.g;
        match i {
            Instruction::ReturnSubroutine => self.stack.last() as int,
            Instruction::JmpAddr(addr) => addr as int,
            Instruction::CallSub(addr) => addr as int,
            Instruction::JmpAddrOffReg0(addr) => g[0] + addr,
            Instruction::SkipEq { r, val } => self.pc + if g[r as int] == val { 4int } else { 2 },
            Instruction::SkipNeq { r, val } => self.pc + if g[r as int] != val { 4int } else { 2 },
            Instruction::SkipRegEq { r, f } => self.pc + if g[r as int] == g[f as int] {
                4int
            } else {
                2
            },
            Instruction::SkipRegNeq { r, f } => self.pc + if g[r as int] != g[f as int] {
                4int
            } else {
                2
            },
            Instruction::SkipKeyPressed { .. } | Instruction::SkipKeyReleased { .. } => self.pc as int,
            _ => self.pc + 2,
        }
    }

    /// The address register after `i`, as an unbounded integer.
    pub open spec fn sl_after(self, i: Instruction) -> int {
        match i {
            Instruction::SetRegL(addr) => addr as int,
            Instruction::AddRegL { r } => self.sl + self.g[r as int],
            Instruction::SetRegLFontAddrFromReg { r } => self.g[r as int] * 5,
            Instruction::MemDump { endr } | Instruction::MemRead { endr } => self.sl + endr + 1,
            _ => self.sl as int,
        }
    }

    /// The call stack after `i`.
    pub open spec fn stack_after(self, i: Instruction) -> Seq<u16> {
        match i {
            Instruction::ReturnSubroutine => self.stack.drop_last(),
            Instruction::CallSub(_) => self.stack.push(self.pc),
            _ => self.stack,
        }
    }

    /// The side effect that `i` asks for, if any.
    pub open spec fn effect(self, i: Instruction) -> Option<SideEffectView> {
        let g = self.g;
        match i {
            Instruction::ClearDisplay => Some(SideEffectView::ClearDisplay),
            Instruction::DispSpr { rp, n } => Some(
                SideEffectView::Draw { pos: (g[rp.0 as int], g[rp.1 as int]), n, l: self.sl },
            ),
            Instruction::SkipKeyPressed { r } => Some(
                SideEffectView::CheckKeyPressed { key: g[r as int] },
            ),
            Instruction::SkipKeyReleased { r } => Some(
                SideEffectView::CheckKeyReleased { key: g[r as int] },
            ),
            Instruction::WaitKeyPress { r } => Some(SideEffectView::WaitKeyPress { r }),
            Instruction::MemDumpBcdFromReg { r } => Some(
                SideEffectView::MemDump { dump_vals: bcd_digits(g[r as int]), l: self.sl },
            ),
            Instruction::MemDump { endr } => Some(
                SideEffectView::MemDump { dump_vals: g.subrange(0, endr + 1), l: self.sl },
            ),
            Instruction::MemRead { endr } => Some(
                SideEffectView::MemRead { count: (endr + 1) as u8, l: self.sl },
            ),
            _ => None,
        }
    }

    /// Whether `i` can be executed in this state: its operands are in
    /// range, a return finds an address on the stack, a call finds room on
    /// it, and the program counter and the address register stay within 16
    /// bits.
    pub open spec fn can_apply(self, i: Instruction) -> bool {
        &&& i.wf()
        &&& i is ReturnSubroutine ==> self.stack.len() > 0
        &&& i is CallSub ==> self.stack.len() < 16
        &&& self.pc_after(i) <= 0xFFFF
        &&& self.sl_after(i) <= 0xFFFF
    }

    /// The state after executing `i`, with `rnd` as the random byte.
    pub open spec fn step(self, i: Instruction, rnd: u8) -> RegistersView {
        RegistersView {
            g: self.regs_after(i, rnd),
            sl: self.sl_after(i) as u16,
            pc: self.pc_after(i) as u16,
            stack: self.stack_after(i),
            dt: if let Instruction::SetDelayFromReg { r } = i { self.g[r as int] } else { self.dt },
            st: if let Instruction::SetSoundFromReg { r } = i { self.g[r as int] } else { self.st },
        }
    }
}

/// What stands between two registers in a dump: a space before `G4` and
/// `GC`, a comma and a space before the others.
pub open spec fn dump_separator(i: int) -> Seq<char> {
    if i == 4 || i == 12 {
        seq![' ']
    } else {
        seq![',', ' ']
    }
}

/// The first `k` general registers as text: each as `G`, its index as a
/// hexadecimal digit, a colon and its value in a field of three.
pub open spec fn registers_text(g: Seq<u8>, k: nat) -> Seq<char>
    decreases k,
{
    if k == 0 {
        Seq::empty()
    } else {
        registers_text(g, (k - 1) as nat) + (if k == 1 {
            Seq::empty()
        } else {
            dump_separator(k - 1)
        }) + seq!['G', hex_char(k - 1), ':'] + padded(g[k - 1] as nat, 3)
    }
}

/// The register file as text: the general registers on one line, then the
/// address register, the program counter and the two timers on a second,
/// each in a field of four.
pub open spec fn dump_text(v: RegistersView) -> Seq<char> {
    registers_text(v.g, 16) + seq!['\n', 'L', ':'] + padded(v.sl as nat, 4) + seq![
        ',',
        'P',
        'C',
        ':',
    ] + padded(v.pc as nat, 4) + seq![',', 'D', 'T', ':'] + padded(v.dt as nat, 4) + seq![
        ',',
        'S',
        'T',
        ':',
    ] + padded(v.st as nat, 4)
}

/// A skip on equality with a byte moves the program counter by 4 when the
/// register holds that byte and by 2 when it does not, and changes nothing
/// else.
pub proof fn lemma_skip_eq(v: RegistersView, r: u8, val: u8, rnd: u8)
    requires
        v.wf(),
        v.can_apply(Instruction::SkipEq { r, val }),
    ensures
        v.step(Instruction::SkipEq { r, val }, rnd) == (RegistersView {
            pc: (v.pc + if v.g[r as int] == val { 4int } else { 2 }) as u16,
            ..v
        }),
        v.effect(Instruction::SkipEq { r, val }) is None,
{
}

/// A call stores the program counter and jumps; the return that follows
/// brings back the program counter and the call stack as they were before
/// the call, and neither touches anything else.
pub proof fn lemma_call_return(v: RegistersView, addr: u16, rnd: u8)
    requires
        v.wf(),
        v.can_apply(Instruction::CallSub(addr)),
    ensures
        v.step(Instruction::CallSub(addr), rnd).pc == addr,
        v.step(Instruction::CallSub(addr), rnd).stack == v.stack.push(v.pc),
        v.step(Instruction::CallSub(addr), rnd).can_apply(Instruction::ReturnSubroutine),
        v.step(Instruction::CallSub(addr), rnd).step(Instruction::ReturnSubroutine, rnd) == v,
{
    let called = v.step(Instruction::CallSub(addr), rnd);
    let back = called.step(Instruction::ReturnSubroutine, rnd);
    assert(back.stack =~= v.stack);
    assert(back.g =~= v.g);
}

/// An instruction other than the random one does the same whatever the
/// random byte.
pub proof fn lemma_random_only_for_rnd(v: RegistersView, i: Instruction, a: u8, b: u8)
    requires
        !(i is RndAnd),
    ensures
        v.step(i, a) == v.step(i, b),
{
}

/// The register file: sixteen general registers, the address register, the
/// program counter, the call stack and the two timers.
pub struct Registers {
    g: [u8; 16],
    sl: u16,
    pc: u16,
    spst: Vec<u16>,
    dt: u8,
    st: u8,
}

impl View for Registers {
    type V = RegistersView;

    closed spec fn view(&self) -> RegistersView {
        RegistersView {
            g: self.g@,
            sl: self.sl,
            pc: self.pc,
            stack: self.spst@,
            dt: self.dt,
            st: self.st,
        }
    }
}

impl Registers {
    /// The call stack holds at most sixteen return addresses.
    pub open spec fn wf(&self) -> bool {
        self@.wf()
    }

    /// A register file with everything zero, an empty stack and the program
    /// counter at the start of the program area.
    pub fn new() -> (regs: Registers)
        ensures
            regs.wf(),
            regs@.g == Seq::new(16, |i: int| 0u8),
            regs@.sl == 0,
            regs@.pc == INIT_PROGRAM_COUNTER_VAL,
            regs@.stack == Seq::<u16>::empty(),
            regs@.dt == 0,
            regs@.st == 0,
    {
        let regs = Registers {
            g: [0u8; 16],
            sl: 0,
            pc: INIT_PROGRAM_COUNTER_VAL,
            spst: Vec::with_capacity(STACK_POINTER_CNT),
            dt: 0,
            st: 0,
        };
        assert(regs@.g =~= Seq::new(16, |i: int| 0u8));
        regs
    }

    /// The program counter.
    pub fn get_pc(&self) -> (pc: u16)
        ensures
            pc == self@.pc,
    {
        self.pc
    }

    /// The address register.
    pub fn get_address(&self) -> (sl: u16)
        ensures
            sl == self@.sl,
    {
        self.sl
    }

    /// The delay timer.
    pub fn get_delay(&self) -> (dt: u8)
        ensures
            dt == self@.dt,
    {
        self.dt
    }

    /// The sound timer.
    pub fn get_sound(&self) -> (st: u8)
        ensures
            st == self@.st,
    {
        self.st
    }

    /// The number of return addresses on the call stack.
    pub fn stack_depth(&self) -> (depth: usize)
        ensures
            depth == self@.stack.len(),
    {
        self.spst.len()
    }

    /// Sets the program counter.
    pub fn set_pc(&mut self, new_pc: u16)
        ensures
            final(self)@ == (RegistersView { pc: new_pc, ..old(self)@ }),
    {
        self.pc = new_pc;
    }

    /// Advances the program counter by `inst_count` instructions of two
    /// bytes each.
    pub fn increase_pc(&mut self, inst_count: u16)
        requires
            old(self)@.pc + 2 * inst_count <= 0xFFFF,
        ensures
            final(self)@ == (RegistersView {
                pc: (old(self)@.pc + 2 * inst_count) as u16,
                ..old(self)@
            }),
    {
        self.pc = self.pc + inst_count * 2;
    }

    /// Sets the flag register `VF` to 1 or 0.
    pub fn update_vf(&mut self, is_set: bool)
        ensures
            final(self)@ == old(self)@.set_flag(is_set),
    {
        self.set_general_register(0xF, if is_set { 1 } else { 0 });
    }

    /// Sets general register `r`. An index above 15 names no register and
    /// leaves the state as it is.
    pub fn set_general_register(&mut self, r: u8, value: u8)
        ensures
            final(self)@ == if r < 16 { old(self)@.set(r, value) } else { old(self)@ },
    {
        if r > 0x0F {
            return ;
        }
        self.g[r as usize] = value;
    }

    /// Whether `instruction` can be executed in the current state.
    pub fn accepts(&self, instruction: &Instruction) -> (ok: bool)
        requires
            self.wf(),
        ensures
            ok == self@.can_apply(*instruction),
    {
        let pc: u16 = self.pc;
        let sl: u16 = self.sl;
        let next: bool = pc <= 0xFFFD;
        match *instruction {
            Instruction::Ignore | Instruction::ClearDisplay => next,
            Instruction::ReturnSubroutine => self.spst.len() > 0,
            Instruction::JmpAddr(addr) => addr < 0x1000,
            Instruction::CallSub(addr) => addr < 0x1000 && self.spst.len() < STACK_POINTER_CNT,
            Instruction::JmpAddrOffReg0(addr) => addr < 0x1000,
            Instruction::SetRegL(addr) => addr < 0x1000 && next,
            Instruction::SkipEq { r, val } => r < 16 && self.can_skip(self.g[r as usize] == val),
            Instruction::SkipNeq { r, val } => r < 16 && self.can_skip(self.g[r as usize] != val),
            Instruction::SkipRegEq { r, f } => r < 16 && f < 16 && self.can_skip(
                self.g[r as usize] == self.g[f as usize],
            ),
            Instruction::SkipRegNeq { r, f } => r < 16 && f < 16 && self.can_skip(
                self.g[r as usize] != self.g[f as usize],
            ),
            Instruction::SetByte { r, .. }
            | Instruction::AddByte { r, .. }
            | Instruction::RndAnd { r, .. } => r < 16 && next,
            Instruction::SetRegV { r, f }
            | Instruction::OrRegV { r, f }
            | Instruction::AndRegV { r, f }
            | Instruction::XorRegV { r, f }
            | Instruction::AddRegV { r, f }
            | Instruction::SubRegV { r, f }
            | Instruction::ShrRegV { r, f }
            | Instruction::SubNRegV { r, f }
            | Instruction::ShlRegV { r, f } => r < 16 && f < 16 && next,
            Instruction::DispSpr { rp, n } => rp.0 < 16 && rp.1 < 16 && n < 16 && next,
            Instruction::SkipKeyPressed { r } | Instruction::SkipKeyReleased { r } => r < 16,
            Instruction::SetDelayToReg { r }
            | Instruction::WaitKeyPress { r }
            | Instruction::SetDelayFromReg { r }
            | Instruction::SetSoundFromReg { r }
            | Instruction::SetRegLFontAddrFromReg { r }
            | Instruction::MemDumpBcdFromReg { r } => r < 16 && next,
            Instruction::AddRegL { r } => r < 16 && next && self.g[r as usize] as u16 <= 0xFFFF
                - sl,
            Instruction::MemDump { endr } | Instruction::MemRead { endr } => endr < 16 && next
                && endr as u16 + 1 <= 0xFFFF - sl,
        }
    }

    /// Whether the program counter can move past the next instruction
    /// (`skip`) or up to it.
    fn can_skip(&self, skip: bool) -> (ok: bool)
        ensures
            ok == (self@.pc + if skip { 4int } else { 2 } <= 0xFFFF),
    {
        if skip {
            self.pc <= 0xFFFB
        } else {
            self.pc <= 0xFFFD
        }
    }

    /// Executes one instruction whose random byte, if it needs one, is
    /// `random`.
    ///
    /// The new state is exactly [`RegistersView::step`] of the old one and
    /// the returned side effect is exactly [`RegistersView::effect`].
    pub fn update_registers_with(&mut self, instruction: Instruction, random: u8) -> (effect:
        Option<SideEffect>)
        requires
            old(self).wf(),
            old(self)@.can_apply(instruction),
        ensures
            final(self).wf(),
            final(self)@ == old(self)@.step(instruction, random),
            effect_view(effect) == old(self)@.effect(instruction),
    {
        let ghost before = self@;
        let mut pc_increment: u16 = 1;
        let mut side_effect: Option<SideEffect> = None;
        match instruction {
            Instruction::Ignore => {},
            Instruction::ClearDisplay => {
                side_effect = Some(SideEffect::ClearDisplay);
            },
            Instruction::ReturnSubroutine => {
                let new_pc: u16 = self.spst.pop().unwrap();
                self.pc = new_pc;
                pc_increment = 0;
            },
            Instruction::JmpAddr(addr) => {
                self.pc = addr;
                pc_increment = 0;
            },
            Instruction::CallSub(new_pc) => {
                self.spst.push(self.pc);
                self.pc = new_pc;
                pc_increment = 0;
            },
            Instruction::SkipEq { r, val } => {
                pc_increment = if self.g[r as usize] == val { 2 } else { 1 };
            },
            Instruction::SkipNeq { r, val } => {
                pc_increment = if self.g[r as usize] != val { 2 } else { 1 };
            },
            Instruction::SkipRegEq { r, f } => {
                pc_increment = if self.g[r as usize] == self.g[f as usize] { 2 } else { 1 };
            },
            Instruction::SetByte { r, val } => {
                self.g[r as usize] = val;
            },
            Instruction::AddByte { r, val } => {
                let sum: u16 = self.g[r as usize] as u16 + val as u16;
                self.g[r as usize] = (sum % 256) as u8;
            },
            Instruction::SetRegV { r, f } => {
                self.g[r as usize] = self.g[f as usize];
            },
            Instruction::OrRegV { r, f } => {
                self.g[r as usize] = self.g[r as usize] | self.g[f as usize];
            },
            Instruction::AndRegV { r, f } => {
                self.g[r as usize] = self.g[r as usize] & self.g[f as usize];
            },
            Instruction::XorRegV { r, f } => {
                self.g[r as usize] = self.g[r as usize] ^ self.g[f as usize];
            },
            Instruction::AddRegV { r, f } => {
                let sum: u16 = self.g[r as usize] as u16 + self.g[f as usize] as u16;
                self.g[r as usize] = (sum % 256) as u8;
                self.update_vf(sum > 255);
            },
            Instruction::SubRegV { r, f } => {
                let minuend: u8 = self.g[r as usize];
                let subtrahend: u8 = self.g[f as usize];
                let no_borrow: bool = minuend >= subtrahend;
                self.g[r as usize] = if no_borrow {
                    minuend - subtrahend
                } else {
                    (256 - (subtrahend - minuend) as u16) as u8
                };
                self.update_vf(no_borrow);
            },
            Instruction::ShrRegV { r, f } => {
                self.update_vf(self.g[f as usize] % 2 == 1);
                let new_value: u8 = self.g[f as usize] / 2;
                self.set_general_register(r, new_value);
            },
            Instruction::SubNRegV { r, f } => {
                let minuend: u8 = self.g[f as usize];
                let subtrahend: u8 = self.g[r as usize];
                let no_borrow: bool = minuend >= subtrahend;
                self.g[r as usize] = if no_borrow {
                    minuend - subtrahend
                } else {
                    (256 - (subtrahend - minuend) as u16) as u8
                };
                self.update_vf(no_borrow);
            },
            Instruction::ShlRegV { r, f } => {
                self.update_vf(self.g[f as usize] >= 128);
                let doubled: u16 = self.g[f as usize] as u16 * 2;
                self.set_general_register(r, (doubled % 256) as u8);
            },
            Instruction::SkipRegNeq { r, f } => {
                pc_increment = if self.g[r as usize] != self.g[f as usize] { 2 } else { 1 };
            },
            Instruction::SetRegL(new_l) => {
                self.sl = new_l;
            },
            Instruction::JmpAddrOffReg0(new_pc) => {
                self.pc = self.g[0] as u16 + new_pc;
                pc_increment = 0;
            },
            Instruction::RndAnd { r, val } => {
                self.set_general_register(r, random & val);
            },
            Instruction::DispSpr { rp, n } => {
                let px: u8 = self.g[rp.0 as usize];
                let py: u8 = self.g[rp.1 as usize];
                side_effect = Some(SideEffect::Draw { pos: (px, py), n, l: self.sl });
            },
            Instruction::SkipKeyPressed { r } => {
                pc_increment = 0;
                side_effect = Some(SideEffect::CheckKeyPressed { key: self.g[r as usize] });
            },
            Instruction::SkipKeyReleased { r } => {
                pc_increment = 0;
                side_effect = Some(SideEffect::CheckKeyReleased { key: self.g[r as usize] });
            },
            Instruction::SetDelayToReg { r } => {
                self.set_general_register(r, self.dt);
            },
            Instruction::WaitKeyPress { r } => {
                side_effect = Some(SideEffect::WaitKeyPress { r });
            },
            Instruction::SetDelayFromReg { r } => {
                self.dt = self.g[r as usize];
            },
            Instruction::SetSoundFromReg { r } => {
                self.st = self.g[r as usize];
            },
            Instruction::AddRegL { r } => {
                self.sl = self.sl + self.g[r as usize] as u16;
            },
            Instruction::SetRegLFontAddrFromReg { r } => {
                self.sl = self.g[r as usize] as u16 * 5;
            },
            Instruction::MemDumpBcdFromReg { r } => {
                let value: u8 = self.g[r as usize];
                let quotient: u8 = value / 10;
                let mut bcd_code: Vec<u8> = Vec::with_capacity(3);
                bcd_code.push(quotient / 10);
                bcd_code.push(quotient % 10);
                bcd_code.push(value % 10);
                assert(bcd_code@ =~= bcd_digits(value));
                side_effect = Some(SideEffect::MemDump { dump_vals: bcd_code, l: self.sl });
            },
            Instruction::MemDump { endr } => {
                let l: u16 = self.sl;
                self.sl = self.sl + (endr as u16 + 1);
                let dump_vals = self.first_registers(endr);
                side_effect = Some(SideEffect::MemDump { dump_vals, l });
            },
            Instruction::MemRead { endr } => {
                let l: u16 = self.sl;
                self.sl = self.sl + (endr as u16 + 1);
                side_effect = Some(SideEffect::MemRead { count: endr + 1, l });
            },
        }
        self.increase_pc(pc_increment);
        assert(self@.g =~= before.regs_after(instruction, random));
        assert(self@.stack =~= before.stack_after(instruction));
        side_effect
    }

    /// A copy of the registers `V0..=V[endr]`.
    fn first_registers(&self, endr: u8) -> (values: Vec<u8>)
        requires
            endr < 16,
        ensures
            values@ == self@.g.subrange(0, endr + 1),
    {
        let mut values: Vec<u8> = Vec::with_capacity(16);
        let mut idx: usize = 0;
        while idx <= endr as usize
            invariant
                endr < 16,
                idx <= endr + 1,
                values@ == self.g@.subrange(0, idx as int),
            decreases endr + 1 - idx,
        {
            values.push(self.g[idx]);
            idx = idx + 1;
            assert(values@ =~= self.g@.subrange(0, idx as int));
        }
        values
    }

    /// Executes one instruction, drawing a fresh random byte where the
    /// instruction is [`Instruction::RndAnd`].
    ///
    /// Whatever byte was drawn, the new state is the step of the old one
    /// for some random byte; for every other instruction the byte plays no
    /// part.
    pub fn update_registers(&mut self, instruction: Instruction) -> (effect: Option<SideEffect>)
        requires
            old(self).wf(),
            old(self)@.can_apply(instruction),
        ensures
            final(self).wf(),
            exists|rnd: u8| final(self)@ == #[trigger] old(self)@.step(instruction, rnd),
            !(instruction is RndAnd) ==> final(self)@ == old(self)@.step(instruction, 0),
            effect_view(effect) == old(self)@.effect(instruction),
    {
        let random: u8 = match instruction {
            Instruction::RndAnd { .. } => random_byte(),
            _ => 0,
        };
        self.update_registers_with(instruction, random)
    }

    /// Stores `values` in `V0..`, one register per byte.
    pub fn store_from_v0(&mut self, values: &[u8])
        requires
            values@.len() <= 16,
        ensures
            final(self)@ == old(self)@.load_v0(values@),
    {
        let mut idx: usize = 0;
        while idx < values.len()
            invariant
                values@.len() <= 16,
                idx <= values@.len(),
                self.sl == old(self).sl,
                self.pc == old(self).pc,
                self.spst == old(self).spst,
                self.dt == old(self).dt,
                self.st == old(self).st,
                forall|k: int| 0 <= k < idx ==> self.g@[k] == values@[k],
                forall|k: int| idx <= k < 16 ==> self.g@[k] == old(self).g@[k],
            decreases values@.len() - idx,
        {
            self.g[idx] = values[idx];
            idx = idx + 1;
        }
        assert(self@.g =~= old(self)@.load_v0(values@).g);
    }

    /// Counts both timers down by one 60 Hz tick and asks for a beep when
    /// the sound timer was not yet zero.
    pub fn update_timers(&mut self) -> (signal: TimerSideEffect)
        ensures
            final(self)@ == old(self)@.tick_timers(),
            signal == if old(self)@.st > 0 { TimerSideEffect::Beep } else { TimerSideEffect::Silent },
    {
        if self.dt > 0 {
            self.dt = self.dt - 1;
        }
        if self.st > 0 {
            self.st = self.st - 1;
            TimerSideEffect::Beep
        } else {
            TimerSideEffect::Silent
        }
    }

    /// The register file as text, for the operator.
    pub fn to_text(&self) -> (text: String)
        ensures
            text@ == dump_text(self@),
    {
        let mut text = String::new();
        let mut i: u8 = 0;
        while i < 16
            invariant
                i <= 16,
                text@ == registers_text(self.g@, i as nat),
            decreases 16 - i,
        {
            let ghost before = text@;
            if i == 4 || i == 12 {
                push_char(&mut text, ' ');
            } else if i > 0 {
                push_char(&mut text, ',');
                push_char(&mut text, ' ');
            }
            assert(text@ =~= before + (if i == 0 {
                Seq::empty()
            } else {
                dump_separator(i as int)
            }));
            let ghost separated = text@;
            push_char(&mut text, 'G');
            push_char(&mut text, hex_digit(i));
            push_char(&mut text, ':');
            assert(text@ =~= separated + seq!['G', hex_char(i as int), ':']);
            push_padded(&mut text, self.g[i as usize] as u16, 3);
            i = i + 1;
        }
        let ghost line = text@;
        push_char(&mut text, '\n');
        push_char(&mut text, 'L');
        push_char(&mut text, ':');
        assert(text@ =~= line + seq!['\n', 'L', ':']);
        push_padded(&mut text, self.sl, 4);
        let ghost with_l = text@;
        push_char(&mut text, ',');
        push_char(&mut text, 'P');
        push_char(&mut text, 'C');
        push_char(&mut text, ':');
        assert(text@ =~= with_l + seq![',', 'P', 'C', ':']);
        push_padded(&mut text, self.pc, 4);
        let ghost with_pc = text@;
        push_char(&mut text, ',');
        push_char(&mut text, 'D');
        push_char(&mut text, 'T');
        push_char(&mut text, ':');
        assert(text@ =~= with_pc + seq![',', 'D', 'T', ':']);
        push_padded(&mut text, self.dt as u16, 4);
        let ghost with_dt = text@;
        push_char(&mut text, ',');
        push_char(&mut text, 'S');
        push_char(&mut text, 'T');
        push_char(&mut text, ':');
        assert(text@ =~= with_dt + seq![',', 'S', 'T', ':']);
        push_padded(&mut text, self.st as u16, 4);
        text
    }

    /// The value of general register `r`.
    pub fn general_register(&self, r: u8) -> (value: u8)
        requires
            r < 16,
        ensures
            value == self@.g[r as int],
    {
        self.g[r as usize]
    }
}

/// Draws one byte from the thread-local generator with
/// `rand::random::<u8>()`. Nothing is claimed of the byte.
#[verifier::external_body]
pub(crate) fn random_byte() -> (byte: u8) {
    rand::random::<u8>()
}

} // verus!
