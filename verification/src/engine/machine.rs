//! The whole machine and its frame: input, one instruction with its side
//! effect, the 60 Hz timers and the release of the keys.

use vstd::prelude::*;
use crate::engine::isa::{lemma_decode_total, word_of, Instruction};
use crate::engine::keypad::{key_code, pressed, Keypad};
use crate::engine::memory::{fetch, loaded, stored, Memory};
use crate::engine::register::{
    random_byte,
    Registers,
    RegistersView,
    SideEffect,
    SideEffectView,
    TimerSideEffect,
    INIT_PROGRAM_COUNTER_VAL,
};
use crate::engine::screen::{any_erased, messages, paint, DrawMessage, Screen};
use crate::engine::state::MachineState;

verus! {

/// What the input device has to say in one frame.
#[derive(Debug, Clone, Copy, PartialEq, Eq)]
pub enum Input {
    /// No event.
    Idle,
    /// A character key was pressed.
    Key(char),
    /// The user asks to leave.
    Exit,
}

/// What the display device has to do after a frame.
#[derive(Debug, PartialEq, Eq)]
pub enum Render {
    /// Nothing changed.
    Nothing,
    /// Blank the whole display.
    Clear,
    /// Repaint these pixels, in this order.
    Pixels(Vec<DrawMessage>),
}

/// Mathematical value of a [`Render`].
pub enum RenderView {
    Nothing,
    Clear,
    Pixels(Seq<DrawMessage>),
}

impl View for Render {
    type V = RenderView;

    open spec fn view(&self) -> RenderView {
        match *self {
            Render::Nothing => RenderView::Nothing,
            Render::Clear => RenderView::Clear,
            Render::Pixels(msgs) => RenderView::Pixels(msgs@),
        }
    }
}

/// How a frame ended.
#[derive(Debug, PartialEq, Eq)]
pub enum FrameOutcome {
    /// The frame ran; the devices have this to do.
    Continue { render: Render, sound: TimerSideEffect },
    /// The user asked to leave; nothing was done.
    Exit,
    /// No instruction could be fetched and decoded at the program counter.
    DecodeFailure,
    /// The fetched instruction cannot be executed in the current state.
    InvariantViolation,
}

/// Mathematical value of a [`FrameOutcome`].
pub enum FrameOutcomeView {
    Continue { render: RenderView, sound: TimerSideEffect },
    Exit,
    DecodeFailure,
    InvariantViolation,
}

impl View for FrameOutcome {
    type V = FrameOutcomeView;

    open spec fn view(&self) -> FrameOutcomeView {
        match *self {
            FrameOutcome::Continue { render, sound } => FrameOutcomeView::Continue {
                render: render@,
                sound,
            },
            FrameOutcome::Exit => FrameOutcomeView::Exit,
            FrameOutcome::DecodeFailure => FrameOutcomeView::DecodeFailure,
            FrameOutcome::InvariantViolation => FrameOutcomeView::InvariantViolation,
        }
    }
}

/// Mathematical value of the machine.
pub struct MachineView {
    pub regs: RegistersView,
    pub mem: Seq<u8>,
    pub screen: Seq<bool>,
    pub keys: Seq<bool>,
    pub state: MachineState,
}

impl MachineView {
    /// Every component has its size and the register file is well formed.
    pub open spec fn wf(self) -> bool {
        &&& self.regs.wf()
        &&& self.mem.len() == 4096
        &&& self.screen.len() == 2048
        &&& self.keys.len() == 16
    }

    /// The machine right after `rom` has been loaded.
    pub open spec fn initial(rom: Seq<u8>) -> MachineView {
        MachineView {
            regs: RegistersView {
                g: Seq::new(16, |i: int| 0u8),
                sl: 0,
                pc: INIT_PROGRAM_COUNTER_VAL,
                stack: Seq::empty(),
                dt: 0,
                st: 0,
            },
            mem: loaded(rom),
            screen: Seq::new(2048, |i: int| false),
            keys: Seq::new(16, |i: int| false),
            state: MachineState::Normal,
        }
    }

    /// The machine after the frame's input: a mapped key is pressed, and a
    /// machine that waits for a key stores its code and runs again.
    pub open spec fn after_input(self, input: Input) -> MachineView {
        match input {
            Input::Key(chr) => {
                let keys = pressed(self.keys, chr);
                match (self.state, key_code(chr)) {
                    (MachineState::WaitKeyPress { r }, Some(code)) => MachineView {
                        keys,
                        regs: if r < 16 {
                            self.regs.set(r, code)
                        } else {
                            self.regs
                        },
                        state: MachineState::Normal,
                        ..self
                    },
                    _ => MachineView { keys, ..self },
                }
            },
            _ => self,
        }
    }

    /// Whether `i` can be executed: the register file accepts it, the
    /// memory its side effect touches lies inside the address space, and a
    /// key it asks about exists.
    pub open spec fn permits(self, i: Instruction) -> bool {
        &&& self.regs.can_apply(i)
        &&& match self.regs.effect(i) {
            Some(SideEffectView::Draw { n, l, .. }) => l + n <= 4096,
            Some(SideEffectView::MemDump { dump_vals, l }) => l + dump_vals.len() <= 4096,
            Some(SideEffectView::MemRead { count, l }) => l + count <= 4096,
            Some(SideEffectView::CheckKeyPressed { key }) | Some(
                SideEffectView::CheckKeyReleased { key },
            ) => key <= 15 && self.regs.pc <= 0xFFFB,
            _ => true,
        }
    }

    /// The machine after executing `i` and carrying out its side effect,
    /// with `rnd` as the random byte.
    ///
    /// A draw sets the flag register to 1 if it erased a pixel and to 0 if
    /// not. A key test adds 4 to the program counter when the test holds
    /// and 2 when it does not.
    pub open spec fn execute(self, i: Instruction, rnd: u8) -> MachineView {
        let regs = self.regs.step(i, rnd);
        match self.regs.effect(i) {
            Some(SideEffectView::ClearDisplay) => MachineView {
                regs,
                screen: Seq::new(2048, |i: int| false),
                ..self
            },
            Some(SideEffectView::Draw { pos, n, l }) => {
                let sprite = self.mem.subrange(l as int, l + n);
                MachineView {
                    regs: regs.set_flag(
                        any_erased(messages(self.screen, pos.0, pos.1, sprite, 8 * n as nat)),
                    ),
                    screen: paint(self.screen, pos.0, pos.1, sprite, 8 * n as nat),
                    ..self
                }
            },
            Some(SideEffectView::MemDump { dump_vals, l }) => MachineView {
                regs,
                mem: stored(self.mem, dump_vals, l as int),
                ..self
            },
            Some(SideEffectView::MemRead { count, l }) => MachineView {
                regs: regs.load_v0(self.mem.subrange(l as int, l + count)),
                ..self
            },
            Some(SideEffectView::WaitKeyPress { r }) => MachineView {
                regs,
                state: MachineState::WaitKeyPress { r },
                ..self
            },
            Some(SideEffectView::CheckKeyPressed { key }) => MachineView {
                regs: RegistersView {
                    pc: (regs.pc + if self.keys[key as int] { 4int } else { 2 }) as u16,
                    ..regs
                },
                ..self
            },
            Some(SideEffectView::CheckKeyReleased { key }) => MachineView {
                regs: RegistersView {
                    pc: (regs.pc + if !self.keys[key as int] { 4int } else { 2 }) as u16,
                    ..regs
                },
                ..self
            },
            None => MachineView { regs, ..self },
        }
    }

    /// What the display has to do after `i`.
    pub open spec fn rendered(self, i: Instruction) -> RenderView {
        match self.regs.effect(i) {
            Some(SideEffectView::ClearDisplay) => RenderView::Clear,
            Some(SideEffectView::Draw { pos, n, l }) => RenderView::Pixels(
                messages(self.screen, pos.0, pos.1, self.mem.subrange(l as int, l + n), 8 * n as nat),
            ),
            _ => RenderView::Nothing,
        }
    }

    /// The machine at the end of a frame: the timers count down if the
    /// 60 Hz clock ticked, and every key is released.
    pub open spec fn end_frame(self, tick_60hz: bool) -> MachineView {
        MachineView {
            regs: if tick_60hz {
                self.regs.tick_timers()
            } else {
                self.regs
            },
            keys: Seq::new(16, |i: int| false),
            ..self
        }
    }

    /// What the sound device has to do at the end of a frame.
    pub open spec fn sounded(self, tick_60hz: bool) -> TimerSideEffect {
        if tick_60hz && self.regs.st > 0 {
            TimerSideEffect::Beep
        } else {
            TimerSideEffect::Silent
        }
    }

    /// One frame: the machine afterwards and how the frame ended.
    ///
    /// An exit request ends the frame before anything happens. Otherwise
    /// the input is taken in. A running machine then fetches the
    /// instruction at the program counter; if there is none, or if it
    /// cannot be executed, the frame ends there. A waiting machine skips
    /// the instruction. Either way the frame ends with the timers and the
    /// release of the keys.
    pub open spec fn frame(self, input: Input, tick_60hz: bool, rnd: u8) -> (
        MachineView,
        FrameOutcomeView,
    ) {
        if input == Input::Exit {
            (self, FrameOutcomeView::Exit)
        } else {
            let ready = self.after_input(input);
            if ready.state == MachineState::Normal {
                match fetch(ready.mem, ready.regs.pc as int) {
                    None => (ready, FrameOutcomeView::DecodeFailure),
                    Some(i) => if !ready.permits(i) {
                        (ready, FrameOutcomeView::InvariantViolation)
                    } else {
                        let done = ready.execute(i, rnd);
                        (
                            done.end_frame(tick_60hz),
                            FrameOutcomeView::Continue {
                                render: ready.rendered(i),
                                sound: done.sounded(tick_60hz),
                            },
                        )
                    },
                }
            } else {
                (
                    ready.end_frame(tick_60hz),
                    FrameOutcomeView::Continue {
                        render: RenderView::Nothing,
                        sound: ready.sounded(tick_60hz),
                    },
                )
            }
        }
    }
}

/// Registers dumped to memory and read back from the same address come
/// back as they were: the bytes read are the registers written, stored
/// over any register file they give its first registers those values, and
/// stored over the register file they came from they change nothing.
pub proof fn lemma_dump_read_round_trip(
    regs: RegistersView,
    other: RegistersView,
    mem: Seq<u8>,
    endr: u8,
    addr: u16,
)
    requires
        regs.wf(),
        other.wf(),
        mem.len() == 4096,
        endr < 16,
        addr + endr + 1 <= 4096,
    ensures
        ({
            let dumped = regs.g.subrange(0, endr + 1);
            let read = stored(mem, dumped, addr as int).subrange(addr as int, addr + endr + 1);
            &&& read == dumped
            &&& other.load_v0(read).g.subrange(0, endr + 1) == dumped
            &&& regs.load_v0(read) == regs
        }),
{
    let dumped = regs.g.subrange(0, endr + 1);
    let read = stored(mem, dumped, addr as int).subrange(addr as int, addr + endr + 1);
    assert(read =~= dumped);
    assert(other.load_v0(read).g.subrange(0, endr + 1) =~= dumped);
    assert(regs.load_v0(read).g =~= regs.g);
}

/// An instruction that was fetched at the program counter is well formed
/// and never drives the program counter out of its 16 bits: a frame can
/// only fail on the call stack, the address register, a memory range or a
/// key code.
pub proof fn lemma_fetched_pc_fits(m: MachineView, i: Instruction)
    requires
        m.wf(),
        fetch(m.mem, m.regs.pc as int) == Some(i),
    ensures
        i.wf(),
        m.regs.pc <= 0xFFE,
        m.regs.pc_after(i) <= 0xFFFF,
{
    let pc = m.regs.pc as int;
    lemma_decode_total(word_of(m.mem[pc], m.mem[pc + 1]));
}

/// A machine that waits for a key and gets none that is on the layout
/// stays suspended: no instruction runs, memory and screen stay as they
/// are, and only the timers move, if the 60 Hz clock ticked.
pub proof fn lemma_waiting_holds(m: MachineView, input: Input, tick_60hz: bool, rnd: u8)
    requires
        m.wf(),
        m.state is WaitKeyPress,
        match input {
            Input::Idle => true,
            Input::Key(chr) => key_code(chr) is None,
            Input::Exit => false,
        },
    ensures
        m.frame(input, tick_60hz, rnd).0 == m.end_frame(tick_60hz),
        m.frame(input, tick_60hz, rnd).0.state == m.state,
        m.frame(input, tick_60hz, rnd).0.regs.pc == m.regs.pc,
        m.frame(input, tick_60hz, rnd).1 == (FrameOutcomeView::Continue {
            render: RenderView::Nothing,
            sound: m.sounded(tick_60hz),
        }),
{
}

/// A frame that runs to its end leaves every key released, whatever was
/// pressed in it.
pub proof fn lemma_keys_released(m: MachineView, input: Input, tick_60hz: bool, rnd: u8)
    requires
        m.wf(),
        m.frame(input, tick_60hz, rnd).1 is Continue,
    ensures
        m.frame(input, tick_60hz, rnd).0.keys == Seq::new(16, |i: int| false),
{
}

/// A machine that waits for a key and gets one that is on the layout
/// stores its code in the register it waits with and runs again in the
/// same frame.
pub proof fn lemma_key_resumes(m: MachineView, chr: char, r: u8)
    requires
        m.wf(),
        m.state == (MachineState::WaitKeyPress { r }),
        r < 16,
        key_code(chr) is Some,
    ensures
        m.after_input(Input::Key(chr)).state == MachineState::Normal,
        m.after_input(Input::Key(chr)).regs == m.regs.set(r, key_code(chr)->0),
{
}

/// The machine: every component, owned in one place.
pub struct Machine {
    pub registers: Registers,
    pub memory: Memory,
    pub screen: Screen,
    pub keypad: Keypad,
    pub state: MachineState,
}

impl View for Machine {
    type V = MachineView;

    open spec fn view(&self) -> MachineView {
        MachineView {
            regs: self.registers@,
            mem: self.memory@,
            screen: self.screen@,
            keys: self.keypad@,
            state: self.state,
        }
    }
}

impl Machine {
    /// The register file and the memory are well formed.
    pub open spec fn wf(&self) -> bool {
        self@.wf()
    }

    /// A machine with `rom` loaded, ready to run from `0x200`.
    pub fn new(rom: &[u8]) -> (machine: Machine)
        ensures
            machine.wf(),
            machine@ == MachineView::initial(rom@),
    {
        let machine = Machine {
            registers: Registers::new(),
            memory: Memory::load(rom),
            screen: Screen::new(),
            keypad: Keypad::new(),
            state: MachineState::Normal,
        };
        assert(machine@.regs.stack =~= Seq::empty());
        machine
    }

    /// Whether `instruction` can be executed in the current state.
    pub fn permits(&self, instruction: &Instruction) -> (ok: bool)
        requires
            self.wf(),
        ensures
            ok == self@.permits(*instruction),
    {
        if !self.registers.accepts(instruction) {
            return false;
        }
        let l: usize = self.registers.get_address() as usize;
        match *instruction {
            Instruction::DispSpr { n, .. } => self.memory.in_range(l, n as usize),
            Instruction::MemDumpBcdFromReg { .. } => self.memory.in_range(l, 3),
            Instruction::MemDump { endr } | Instruction::MemRead { endr } => self.memory.in_range(
                l,
                endr as usize + 1,
            ),
            Instruction::SkipKeyPressed { r } | Instruction::SkipKeyReleased { r } => {
                self.registers.general_register(r) <= 15 && self.registers.get_pc() <= 0xFFFB
            },
            _ => true,
        }
    }

    /// Executes `instruction` and carries out its side effect on memory,
    /// screen and machine state; returns the work left for the display.
    pub fn execute(&mut self, instruction: Instruction, random: u8) -> (render: Render)
        requires
            old(self).wf(),
            old(self)@.permits(instruction),
        ensures
            final(self).wf(),
            final(self)@ == old(self)@.execute(instruction, random),
            render@ == old(self)@.rendered(instruction),
    {
        proof {
            self.screen.lemma_len();
            self.keypad.lemma_len();
        }
        let effect = self.registers.update_registers_with(instruction, random);
        let render = match effect {
            Some(SideEffect::ClearDisplay) => {
                self.screen.clear();
                Render::Clear
            },
            Some(SideEffect::Draw { pos, n, l }) => {
                let sprite = self.memory.get_data_bytes(l as usize, n as usize);
                let (dirty_pixels, is_any_erased) = self.screen.draw(pos, sprite.as_slice());
                self.registers.update_vf(is_any_erased);
                Render::Pixels(dirty_pixels)
            },
            Some(SideEffect::MemDump { dump_vals, l }) => {
                self.memory.store_from(dump_vals.as_slice(), l);
                Render::Nothing
            },
            Some(SideEffect::MemRead { count, l }) => {
                let values = self.memory.get_data_bytes(l as usize, count as usize);
                self.registers.store_from_v0(values.as_slice());
                Render::Nothing
            },
            Some(SideEffect::WaitKeyPress { r }) => {
                self.state = MachineState::WaitKeyPress { r };
                Render::Nothing
            },
            Some(SideEffect::CheckKeyPressed { key }) => {
                if self.keypad.check_press(key) {
                    self.registers.increase_pc(2);
                } else {
                    self.registers.increase_pc(1);
                }
                Render::Nothing
            },
            Some(SideEffect::CheckKeyReleased { key }) => {
                if self.keypad.check_press(key) {
                    self.registers.increase_pc(1);
                } else {
                    self.registers.increase_pc(2);
                }
                Render::Nothing
            },
            None => Render::Nothing,
        };
        proof {
            self.screen.lemma_len();
        }
        render
    }

    /// Runs one frame with `random` as the random byte.
    ///
    /// The machine afterwards and the outcome are exactly
    /// [`MachineView::frame`] of the machine before.
    pub fn frame_with(&mut self, input: Input, tick_60hz: bool, random: u8) -> (outcome:
        FrameOutcome)
        requires
            old(self).wf(),
        ensures
            final(self).wf(),
            (final(self)@, outcome@) == old(self)@.frame(input, tick_60hz, random),
    {
        proof {
            self.screen.lemma_len();
            self.keypad.lemma_len();
        }
        let mut render = Render::Nothing;
        match input {
            Input::Exit => {
                return FrameOutcome::Exit;
            },
            Input::Key(chr) => {
                let pressed_code = self.keypad.set_press(chr);
                match (self.state, pressed_code) {
                    (MachineState::WaitKeyPress { r }, Some(keyval)) => {
                        self.registers.set_general_register(r, keyval);
                        self.state = MachineState::Normal;
                    },
                    _ => {},
                }
            },
            Input::Idle => {},
        }
        proof {
            self.keypad.lemma_len();
        }
        assert(self@ == old(self)@.after_input(input));
        let running: bool = match self.state {
            MachineState::Normal => true,
            MachineState::WaitKeyPress { .. } => false,
        };
        if running {
            match self.memory.parse_instruction(self.registers.get_pc()) {
                None => {
                    return FrameOutcome::DecodeFailure;
                },
                Some(instruction) => {
                    if !self.permits(&instruction) {
                        return FrameOutcome::InvariantViolation;
                    }
                    render = self.execute(instruction, random);
                },
            }
        }
        let sound = if tick_60hz {
            self.registers.update_timers()
        } else {
            TimerSideEffect::Silent
        };
        self.keypad.reset_all();
        FrameOutcome::Continue { render, sound }
    }

    /// Runs one frame, drawing a fresh random byte when the instruction at
    /// the program counter asks for one.
    ///
    /// Whatever byte was drawn, the frame is [`MachineView::frame`] for
    /// some random byte.
    pub fn frame(&mut self, input: Input, tick_60hz: bool) -> (outcome: FrameOutcome)
        requires
            old(self).wf(),
        ensures
            final(self).wf(),
            exists|rnd: u8|
                (final(self)@, outcome@) == #[trigger] old(self)@.frame(input, tick_60hz, rnd),
    {
        let random: u8 = match self.memory.parse_instruction(self.registers.get_pc()) {
            Some(Instruction::RndAnd { .. }) => random_byte(),
            _ => 0,
        };
        self.frame_with(input, tick_60hz, random)
    }
}

} // verus!
