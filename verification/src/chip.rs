//! The interpreter: the registers and the fetch-decode-execute cycle.

use crate::display::{Display, Plane, ScreenResolution};
use crate::error::{ExecutionError, Fault};
use crate::instruction::{lemma_decode_encode_round_trip, x_of, Instruction};
use crate::keyboard::Keyboard;
use crate::machine::{
    decimal_digits, dispatch, is_frame, is_frame_step, is_step, masked, range_count,
    range_register, rpl_count, run_steps, Effect, Machine,
};
use crate::memory::{first_unreadable, word_span, Memory};
use crate::platform::{ChipMode, QuirkSet, Quirks};
use crate::registers::memory::MemoryRegister;
use crate::registers::timer::TimerRegister;
use crate::rom::Rom;
use crate::stack::Stack;
use vstd::prelude::*;

verus! {

/// What the host is to do after an instruction or a frame.
#[derive(Debug, Clone, Copy, PartialEq, Eq, Structural)]
pub enum Signal {
    /// Go on with the next instruction.
    Continue,
    /// The program asked for the interpreter to exit.
    Exit,
}

/// What one move of a frame that the host drives step by step did.
#[derive(Debug, Clone, Copy, PartialEq, Eq, Structural)]
pub enum Progress {
    /// An instruction was carried out, and the frame goes on.
    Instruction,
    /// The frame had no instruction left: both timers were ticked, and the
    /// frame is over.
    FrameEnd,
    /// The program asked for the interpreter to exit.
    Exit,
}

/// Masking an address with the highest address keeps its lowest 12 bits.
proof fn lemma_mask(value: u16)
    by (bit_vector)
    ensures
        value & 0xFFF == value % 0x1000,
        value & 0xFFF == value ==> value <= 0xFFF,
{
}

/// Shifting a byte by one bit halves or doubles it, and the bit shifted out
/// is its lowest or its highest.
proof fn lemma_shifts(value: u8)
    by (bit_vector)
    ensures
        value >> 1 == value / 2,
        value & 1 == value % 2,
        value << 1 == ((value as u16 * 2) % 256) as u8,
        (value & 0b1000_0000 != 0) <==> value >= 128,
{
}

/// Whether `after` and `result` are what an instruction with the given
/// effect leaves of the machine `before`: the new machine, or the fault and
/// the machine untouched.
pub open spec fn applies(effect: Effect, before: Machine, after: Machine, result: Result<(), Fault>) -> bool {
    match effect {
        Ok(machine) => result is Ok && after == machine,
        Err(fault) => result == Err::<(), Fault>(fault) && after == before,
    }
}

/// Whether `after` and `result` are what the instruction `word` leaves of the
/// machine `before`, whose program counter is already behind the instruction.
pub open spec fn carried_out(
    before: Machine,
    word: u16,
    random: u8,
    after: Machine,
    result: Result<Signal, Fault>,
) -> bool {
    match dispatch(before, word, random) {
        (Ok(machine), signal) => result == Ok::<Signal, Fault>(signal) && after == machine,
        (Err(fault), _) => result == Err::<Signal, Fault>(fault) && after == before,
    }
}

/// An instruction that was carried out lets the machine go on.
fn went_on(result: Result<(), Fault>) -> (outcome: Result<Signal, Fault>)
    ensures
        match result {
            Ok(_) => outcome == Ok::<Signal, Fault>(Signal::Continue),
            Err(fault) => outcome == Err::<Signal, Fault>(fault),
        },
{
    match result {
        Ok(()) => Ok(Signal::Continue),
        Err(fault) => Err(fault),
    }
}

/// A byte from the thread-local random number generator of the `rand` crate:
/// one call of `rand::random::<u8>()`. Nothing is claimed of the byte, so
/// what is proved of its callers holds of every byte. The call panics where
/// the operating system cannot seed the generator.
#[verifier::external_body]
fn random_byte() -> u8 {
    rand::random::<u8>()
}

/// The machine for a program image, ready to run.
pub fn init_chip8(program: Vec<u8>, mode: &ChipMode, quirks: &QuirkSet, ticks: u16, sleep: Option<u8>) -> (chip:
    Chip8)
    requires
        program@.len() <= 0x1000 - 0x200,
    ensures
        chip.wf(),
        chip@ == Machine::initial(*mode, quirks@, program@, ticks as u32, sleep),
{
    let rom = Rom::new(program);
    Chip8::new(rom, mode, quirks, ticks as u32, sleep)
}

pub struct Chip8 {
    memory: Memory,
    stack: Stack,
    display: Display,
    keyboard: Keyboard,
    /// General purpose registers.
    registers: [u8; 16],
    /// `I` register is generally used to store memory addresses, so only
    /// the lowest (rightmost) 12 bits are usually used.
    i_register: MemoryRegister,
    /// Delay timer register.
    dt_register: TimerRegister,
    /// Sound timer register.
    st_register: TimerRegister,
    /// PC is used to store the currently executing address.
    program_counter: u16,
    audio_buffer: [u8; 16],
    pitch: u16,
    ticks_per_frame: u32,
    mode: ChipMode,
    quirks: QuirkSet,
    sleep_time: Option<u8>,
}

impl View for Chip8 {
    type V = Machine;

    closed spec fn view(&self) -> Machine {
        Machine {
            mode: self.mode,
            quirks: self.quirks@,
            memory: self.memory.bytes(),
            flags: self.memory.flags(),
            stack: self.stack@,
            v: self.registers@,
            i: self.i_register.value(),
            pc: self.program_counter,
            delay: self.dt_register@,
            sound: self.st_register@,
            keys: self.keyboard@,
            screen: self.display@,
            audio: self.audio_buffer@,
            pitch: self.pitch,
            ticks_per_frame: self.ticks_per_frame,
            sleep_time: self.sleep_time,
        }
    }
}

impl Chip8 {
    /// The mask that every address goes through.
    pub const ADDRESS_MIRRORING: u16 = 0xFFF;

    /// The parts of the machine are well-formed and agree on the platform
    /// and the quirks.
    pub closed spec fn wf(&self) -> bool {
        &&& self.memory.wf()
        &&& self.memory.mode() == self.mode
        &&& self.stack.wf()
        &&& self.display@.wf()
        &&& self.display@.wraps == self.quirks@.contains(Quirks::WrapsInsteadClipping)
        &&& self.i_register.wf()
        &&& self.i_register.limit() == 0xFFF
    }

    /// A well-formed interpreter holds a well-formed machine.
    pub proof fn lemma_wf(&self)
        requires
            self.wf(),
        ensures
            self@.wf(),
    {
        lemma_mask(self.i_register.value());
        self.stack.lemma_bounded();
        self.keyboard.lemma_sixteen_keys();
    }

    /// The machine with the program loaded at the start of the program space
    /// and the program counter on it.
    pub fn new(rom: Rom, mode: &ChipMode, quirks: &QuirkSet, ticks_per_frame: u32, sleep_time: Option<u8>) -> (chip:
        Chip8)
        requires
            rom@.len() <= 0x1000 - 0x200,
        ensures
            chip.wf(),
            chip@ == Machine::initial(*mode, quirks@, rom@, ticks_per_frame, sleep_time),
    {
        let memory = Memory::new(rom.content(), mode);
        let chip = Chip8 {
            memory,
            stack: Stack::default(),
            display: Display::new(quirks),
            keyboard: Keyboard::default(),
            i_register: MemoryRegister::new(Self::ADDRESS_MIRRORING),
            dt_register: TimerRegister::default(),
            st_register: TimerRegister::default(),
            program_counter: Memory::PROGRAM_ADDR_START,
            registers: [0;16],
            audio_buffer: [0xFF;16],
            pitch: 8000,
            mode: *mode,
            quirks: *quirks,
            ticks_per_frame,
            sleep_time,
        };
        assert(chip@ =~= Machine::initial(*mode, quirks@, rom@, ticks_per_frame, sleep_time));
        chip
    }

    /// The memory, for the host to inspect.
    pub fn memory(&self) -> (memory: &Memory)
        requires
            self.wf(),
        ensures
            memory.wf(),
            memory.bytes() == self@.memory,
            memory.flags() == self@.flags,
            memory.mode() == self@.mode,
    {
        &self.memory
    }

    /// The platform that the machine was made for.
    pub fn mode(&self) -> (mode: ChipMode)
        ensures
            mode == self@.mode,
    {
        self.mode
    }

    /// The number of subroutine calls that have not returned yet.
    pub fn stack_depth(&self) -> (depth: usize)
        requires
            self.wf(),
        ensures
            depth == self@.stack.len(),
    {
        self.stack.len()
    }

    /// The display, for the host to render.
    pub fn display(&self) -> (display: &Display)
        ensures
            display@ == self@.screen,
    {
        &self.display
    }

    /// The value of the sound timer: the host plays sound while it is not 0.
    pub fn sound_timer(&self) -> (value: u8)
        ensures
            value == self@.sound,
    {
        self.st_register.get()
    }

    /// The value of the delay timer.
    pub fn delay_timer(&self) -> (value: u8)
        ensures
            value == self@.delay,
    {
        self.dt_register.get()
    }

    /// The 16 bytes of the audio pattern.
    pub fn audio_buffer(&self) -> (pattern: &[u8; 16])
        ensures
            pattern@ == self@.audio,
    {
        &self.audio_buffer
    }

    /// The playback rate of the audio pattern.
    pub fn pitch(&self) -> (pitch: u16)
        ensures
            pitch == self@.pitch,
    {
        self.pitch
    }

    /// The number of instructions that make a frame.
    pub fn ticks_per_frame(&self) -> (ticks: u32)
        ensures
            ticks == self@.ticks_per_frame,
    {
        self.ticks_per_frame
    }

    /// The microseconds that the host is to wait after each instruction.
    pub fn sleep_time(&self) -> (sleep_time: Option<u8>)
        ensures
            sleep_time == self@.sleep_time,
    {
        self.sleep_time
    }

    /// The value of the register `VX`.
    pub fn register(&self, x: u8) -> (value: u8)
        requires
            x < 16,
        ensures
            self@.v.len() == 16,
            value == self@.v[x as int],
    {
        self.registers[x as usize]
    }

    /// The value of the address register `I`.
    pub fn i_register(&self) -> (value: u16)
        ensures
            value == self@.i,
    {
        self.i_register.get()
    }

    /// The address of the next instruction.
    pub fn program_counter(&self) -> (pc: u16)
        ensures
            pc == self@.pc,
    {
        self.program_counter
    }

    /// Marks a key as held down.
    pub fn press_key(&mut self, key: u8)
        requires
            key < 16,
            old(self).wf(),
        ensures
            final(self).wf(),
            final(self)@ == (Machine { keys: old(self)@.keys.update(key as int, true), ..old(self)@ }),
    {
        self.keyboard.press_key(key);
    }

    /// Marks a key as released.
    pub fn release_key(&mut self, key: u8)
        requires
            key < 16,
            old(self).wf(),
        ensures
            final(self).wf(),
            final(self)@ == (Machine { keys: old(self)@.keys.update(key as int, false), ..old(self)@ }),
    {
        self.keyboard.release_key(key);
    }

    /// Counts both timers down by one: the end of a frame.
    pub fn tick_timers(&mut self)
        requires
            old(self).wf(),
        ensures
            final(self).wf(),
            final(self)@ == old(self)@.tick_timers(),
    {
        self.dt_register.tick();
        self.st_register.tick();
    }

    /// Carries out one frame: as many instructions as the machine was made
    /// to run in a frame, then one tick of both timers. The frame ends early,
    /// with the timers as they are, where an instruction is refused or asks
    /// for the interpreter to exit.
    ///
    /// The host renders the display, plays the audio pattern and updates the
    /// keys between two frames.
    #[verifier::rlimit(40)]
    pub fn run_frame(&mut self) -> (result: Result<Signal, ExecutionError>)
        requires
            old(self).wf(),
        ensures
            final(self).wf(),
            exists|randoms: Seq<u8>| #[trigger] is_frame(old(self)@, randoms, final(self)@, result),
    {
        let ticks = self.ticks_per_frame;
        let ghost mut randoms: Seq<u8> = Seq::empty();
        let mut tick: u32 = 0;
        while tick < ticks
            invariant
                self.wf(),
                tick <= ticks == old(self)@.ticks_per_frame,
                randoms.len() == tick,
                self@ == run_steps(old(self)@, randoms).0,
                run_steps(old(self)@, randoms).1 == Ok::<Signal, ExecutionError>(Signal::Continue),
            decreases ticks - tick,
        {
            let ghost before = self@;
            let ghost drawn = randoms;
            let outcome = self.execute();
            proof {
                let random = choose|random: u8| is_step(before, random, self@, outcome);
                randoms = drawn.push(random);
                assert(randoms.drop_last() =~= drawn);
            }
            match outcome {
                Ok(Signal::Continue) => {},
                _ => {
                    assert(is_frame(old(self)@, randoms, self@, outcome));
                    return outcome;
                },
            }
            tick += 1;
        }
        self.tick_timers();
        assert(is_frame(old(self)@, randoms, self@, Ok(Signal::Continue)));
        Ok(Signal::Continue)
    }

    /// Makes the next move of a frame of which `executed` instructions were
    /// carried out already: one more instruction while the frame has any
    /// left, and the tick of both timers that ends the frame once it has
    /// none. A host that waits between the instructions of a frame drives
    /// the frame with this, counting the instructions from 0 in each frame;
    /// a frame driven so to its end is what [`Chip8::run_frame`] does.
    pub fn frame_step(&mut self, executed: u32) -> (result: Result<Progress, ExecutionError>)
        requires
            old(self).wf(),
        ensures
            final(self).wf(),
            exists|random: u8| #[trigger]
                is_frame_step(old(self)@, executed, random, final(self)@, result),
    {
        if executed < self.ticks_per_frame {
            let ghost before = self@;
            let outcome = self.execute();
            let result = match outcome {
                Ok(Signal::Continue) => Ok(Progress::Instruction),
                Ok(Signal::Exit) => Ok(Progress::Exit),
                Err(error) => Err(error),
            };
            proof {
                let random = choose|random: u8| is_step(before, random, self@, outcome);
                assert(is_frame_step(before, executed, random, self@, result));
            }
            result
        } else {
            self.tick_timers();
            assert(is_frame_step(old(self)@, executed, 0, self@, Ok(Progress::FrameEnd)));
            Ok(Progress::FrameEnd)
        }
    }

    /// Carries out the instruction at the program counter. Where the
    /// instruction asks for a random byte, one is drawn. An instruction that
    /// is refused leaves the machine as it was.
    pub fn execute(&mut self) -> (result: Result<Signal, ExecutionError>)
        requires
            old(self).wf(),
        ensures
            final(self).wf(),
            exists|random: u8| #[trigger] is_step(old(self)@, random, final(self)@, result),
    {
        self.step(None)
    }

    /// Carries out the instruction at the program counter. Where the
    /// instruction asks for a random byte, it gets `random`. An instruction
    /// that is refused leaves the machine as it was.
    pub fn execute_with(&mut self, random: u8) -> (result: Result<Signal, ExecutionError>)
        requires
            old(self).wf(),
        ensures
            final(self).wf(),
            is_step(old(self)@, random, final(self)@, result),
    {
        self.step(Some(random))
    }

    #[verifier::rlimit(40)]
    fn step(&mut self, random: Option<u8>) -> (result: Result<Signal, ExecutionError>)
        requires
            old(self).wf(),
        ensures
            final(self).wf(),
            exists|used: u8|
                (random is Some ==> random == Some(used)) && #[trigger] is_step(
                    old(self)@,
                    used,
                    final(self)@,
                    result,
                ),
    {
        let address = self.program_counter;
        let instruction = match self.next_instruction() {
            Ok(instruction) => instruction,
            Err(fault) => {
                let ghost used = match random {
                    Some(byte) => byte,
                    None => 0u8,
                };
                let refused = Err(ExecutionError { address, instruction: None, fault });
                assert(is_step(old(self)@, used, self@, refused));
                return refused;
            },
        };
        let ghost fetched = self@;
        match self.dispatch(instruction, random) {
            Ok(signal) => {
                proof {
                    let used = choose|used: u8|
                        (random is Some ==> random == Some(used)) && carried_out(
                            fetched,
                            instruction@,
                            used,
                            self@,
                            Ok(signal),
                        );
                    assert(is_step(old(self)@, used, self@, Ok(signal)));
                }
                Ok(signal)
            },
            Err(fault) => {
                proof {
                    let used = choose|used: u8|
                        (random is Some ==> random == Some(used)) && carried_out(
                            fetched,
                            instruction@,
                            used,
                            self@,
                            Err(fault),
                        );
                    assert(self@ == fetched);
                }
                self.program_counter = address;
                proof {
                    let used = choose|used: u8|
                        (random is Some ==> random == Some(used)) && carried_out(
                            fetched,
                            instruction@,
                            used,
                            fetched,
                            Err(fault),
                        );
                    assert(self@ =~= old(self)@);
                    assert(is_step(
                        old(self)@,
                        used,
                        self@,
                        Err(ExecutionError { address, instruction: Some(instruction@), fault }),
                    ));
                }
                Err(ExecutionError { address, instruction: Some(instruction.value()), fault })
            },
        }
    }

    /// Carries out an instruction that was fetched. Which instructions there
    /// are depends on the platform; a word that is none of them is refused.
    #[verifier::rlimit(40)]
    fn dispatch(&mut self, instruction: Instruction, random: Option<u8>) -> (result: Result<Signal, Fault>)
        requires
            old(self).wf(),
            2 <= old(self)@.pc <= 0x1000,
        ensures
            final(self).wf(),
            exists|used: u8|
                (random is Some ==> random == Some(used)) && #[trigger] carried_out(
                    old(self)@,
                    instruction@,
                    used,
                    final(self)@,
                    result,
                ),
    {
        let ghost mut used: u8 = match random {
            Some(byte) => byte,
            None => 0u8,
        };
        let extended = self.mode.extended();
        let xo = self.mode == ChipMode::XOChip;
        let result = match instruction.nibbles() {
            (0, 0, 0xC, n) if n > 0 => if extended {
                self.scroll_n_lines_down(instruction);
                Ok(Signal::Continue)
            } else {
                Err(Fault::UnknownInstruction)
            },
            (0, 0, 0xD, _) => if xo {
                self.scroll_n_lines_up(instruction);
                Ok(Signal::Continue)
            } else {
                Err(Fault::UnknownInstruction)
            },
            (0, 0, 0xE, 0) => {
                self.cls();
                Ok(Signal::Continue)
            },
            (0, 0, 0xE, 0xE) => went_on(self.ret()),
            (0, 0, 0xF, 0xB) => if extended {
                self.scroll_display_4_px_right();
                Ok(Signal::Continue)
            } else {
                Err(Fault::UnknownInstruction)
            },
            (0, 0, 0xF, 0xC) => if extended {
                self.scroll_display_4_px_left();
                Ok(Signal::Continue)
            } else {
                Err(Fault::UnknownInstruction)
            },
            (0, 0, 0xF, 0xD) => if extended {
                Ok(Signal::Exit)
            } else {
                Err(Fault::UnknownInstruction)
            },
            (0, 0, 0xF, 0xE) => if extended {
                self.disable_hires();
                Ok(Signal::Continue)
            } else {
                Err(Fault::UnknownInstruction)
            },
            (0, 0, 0xF, 0xF) => if extended {
                self.enable_hires();
                Ok(Signal::Continue)
            } else {
                Err(Fault::UnknownInstruction)
            },
            (0, _, _, _) if !extended => {
                self.jp_addr(instruction);
                Ok(Signal::Continue)
            },
            (1, _, _, _) => {
                self.jp_addr(instruction);
                Ok(Signal::Continue)
            },
            (2, _, _, _) => went_on(self.call_addr(instruction)),
            (3, _, _, _) => went_on(self.se_vx_byte(instruction)),
            (4, _, _, _) => went_on(self.sne_vx_byte(instruction)),
            (5, _, _, 2) => if xo {
                went_on(self.save_registers_range(instruction))
            } else {
                Err(Fault::UnknownInstruction)
            },
            (5, _, _, 3) => if xo {
                went_on(self.load_registers_range(instruction))
            } else {
                Err(Fault::UnknownInstruction)
            },
            (5, _, _, 0) => went_on(self.se_vx_vy(instruction)),
            (6, _, _, _) => {
                self.ld_vx_byte(instruction);
                Ok(Signal::Continue)
            },
            (7, _, _, _) => {
                self.add_vx_byte(instruction);
                Ok(Signal::Continue)
            },
            (8, _, _, 0) => {
                self.ld_vx_vy(instruction);
                Ok(Signal::Continue)
            },
            (8, _, _, 1) => {
                self.or_vx_vy(instruction);
                Ok(Signal::Continue)
            },
            (8, _, _, 2) => {
                self.and_vx_vy(instruction);
                Ok(Signal::Continue)
            },
            (8, _, _, 3) => {
                self.xor_vx_vy(instruction);
                Ok(Signal::Continue)
            },
            (8, _, _, 4) => {
                self.add_vx_vy(instruction);
                Ok(Signal::Continue)
            },
            (8, _, _, 5) => {
                self.sub_vx_vy(instruction);
                Ok(Signal::Continue)
            },
            (8, _, _, 6) => {
                self.shr_vx(instruction);
                Ok(Signal::Continue)
            },
            (8, _, _, 7) => {
                self.subn_vx_vy(instruction);
                Ok(Signal::Continue)
            },
            (8, _, _, 0xE) => {
                self.shl_vx(instruction);
                Ok(Signal::Continue)
            },
            (9, _, _, 0) => went_on(self.sne_vx_vy(instruction)),
            (0xA, _, _, _) => {
                self.ld_i_addr(instruction);
                Ok(Signal::Continue)
            },
            (0xB, _, _, _) => {
                self.jp_vo_addr(instruction);
                Ok(Signal::Continue)
            },
            (0xC, _, _, _) => {
                let byte = match random {
                    Some(byte) => byte,
                    None => random_byte(),
                };
                proof {
                    used = byte;
                }
                self.rnd_vx_byte(instruction, byte);
                Ok(Signal::Continue)
            },
            (0xD, _, _, _) => went_on(self.drw_vx_vy_n(instruction)),
            (0xE, _, 0x9, 0xE) => went_on(self.skp_vx(instruction)),
            (0xE, _, 0xA, 1) => went_on(self.sknp_vx(instruction)),
            (0xF, 0, 0, 0) => if xo {
                went_on(self.load_i())
            } else {
                Err(Fault::UnknownInstruction)
            },
            (0xF, _, 0, 1) => if xo {
                went_on(self.set_plane(instruction))
            } else {
                Err(Fault::UnknownInstruction)
            },
            (0xF, 0, 0, 2) => if xo {
                went_on(self.load_audio_buffer())
            } else {
                Err(Fault::UnknownInstruction)
            },
            (0xF, _, 0, 7) => {
                self.ld_vx_dt(instruction);
                Ok(Signal::Continue)
            },
            (0xF, _, 0, 0xA) => {
                self.ld_vx_k(instruction);
                Ok(Signal::Continue)
            },
            (0xF, _, 1, 5) => {
                self.ld_dt_vx(instruction);
                Ok(Signal::Continue)
            },
            (0xF, _, 1, 8) => {
                self.ld_st_vx(instruction);
                Ok(Signal::Continue)
            },
            (0xF, _, 1, 0xE) => {
                self.add_i_vx(instruction);
                Ok(Signal::Continue)
            },
            (0xF, _, 2, 9) => went_on(self.ld_f_vx(instruction)),
            (0xF, _, 3, 0) => if extended {
                went_on(self.load_10_byte_font_to_i(instruction))
            } else {
                Err(Fault::UnknownInstruction)
            },
            (0xF, _, 3, 3) => went_on(self.ld_b_vx(instruction)),
            (0xF, _, 3, 0xA) => if xo {
                went_on(self.set_pitch(instruction))
            } else {
                Err(Fault::UnknownInstruction)
            },
            (0xF, _, 5, 5) => went_on(self.ld_i_vx(instruction)),
            (0xF, _, 6, 5) => went_on(self.ld_vx_i(instruction)),
            (0xF, _, 7, 5) => if extended {
                went_on(self.load_rpl_flags(instruction))
            } else {
                Err(Fault::UnknownInstruction)
            },
            (0xF, _, 8, 5) => if extended {
                went_on(self.read_rpl_flags(instruction))
            } else {
                Err(Fault::UnknownInstruction)
            },
            _ => Err(Fault::UnknownInstruction),
        };
        assert(carried_out(old(self)@, instruction@, used, self@, result));
        assert(has_resolved(self));
        result
    }

    /// 00CN - Scroll display N lines down
    fn scroll_n_lines_down(&mut self, instruction: Instruction)
        requires
            old(self).wf(),
        ensures
            final(self).wf(),
            final(self)@ == old(self)@.scroll_n_lines_down(instruction@),
    {
        self.display.scroll_n_lines_down(instruction.n());
    }

    /// 00DN - Scroll display N lines up
    fn scroll_n_lines_up(&mut self, instruction: Instruction)
        requires
            old(self).wf(),
        ensures
            final(self).wf(),
            final(self)@ == old(self)@.scroll_n_lines_up(instruction@),
    {
        self.display.scroll_n_lines_up(instruction.n());
    }

    /// 00E0 - CLS
    /// Clear the display.
    fn cls(&mut self)
        requires
            old(self).wf(),
        ensures
            final(self).wf(),
            final(self)@ == old(self)@.cls(),
    {
        self.display.clear();
    }

    /// 00EE - RET
    /// Return from a subroutine.
    ///
    /// The interpreter sets the program counter to the address at the top of
    /// the stack, then takes that address off the stack.
    fn ret(&mut self) -> (result: Result<(), Fault>)
        requires
            old(self).wf(),
        ensures
            final(self).wf(),
            applies(old(self)@.ret(), old(self)@, final(self)@, result),
    {
        match self.stack.pull() {
            Ok(address) => {
                self.program_counter = address;
                assert(self@ =~= old(self)@.ret()->Ok_0);
                Ok(())
            },
            Err(fault) => {
                assert(self@ =~= old(self)@);
                Err(fault)
            },
        }
    }

    /// 00FB - Scroll display 4 pixels right
    fn scroll_display_4_px_right(&mut self)
        requires
            old(self).wf(),
        ensures
            final(self).wf(),
            final(self)@ == old(self)@.scroll_display_4_px_right(),
    {
        self.display.scroll_4_px_right();
    }

    /// 00FC - Scroll display 4 pixels left
    fn scroll_display_4_px_left(&mut self)
        requires
            old(self).wf(),
        ensures
            final(self).wf(),
            final(self)@ == old(self)@.scroll_display_4_px_left(),
    {
        self.display.scroll_4_px_left();
    }

    /// 00FE - Disable high resolution screen mode.
    fn disable_hires(&mut self)
        requires
            old(self).wf(),
        ensures
            final(self).wf(),
            final(self)@ == old(self)@.disable_hires(),
    {
        self.display.disable_hires();
    }

    /// 00FF - Enable high resolution screen mode.
    fn enable_hires(&mut self)
        requires
            old(self).wf(),
        ensures
            final(self).wf(),
            final(self)@ == old(self)@.enable_hires(),
    {
        self.display.enable_hires();
    }

    /// 1nnn - JP addr
    /// Jump to location nnn.
    fn jp_addr(&mut self, instruction: Instruction)
        requires
            old(self).wf(),
        ensures
            final(self).wf(),
            final(self)@ == old(self)@.jp_addr(instruction@),
    {
        self.program_counter = instruction.nnn();
    }

    /// 2nnn - CALL addr
    /// Call subroutine at nnn.
    ///
    /// The interpreter puts the current PC on the top of the stack. The PC is
    /// then set to nnn.
    fn call_addr(&mut self, instruction: Instruction) -> (result: Result<(), Fault>)
        requires
            old(self).wf(),
        ensures
            final(self).wf(),
            applies(old(self)@.call_addr(instruction@), old(self)@, final(self)@, result),
    {
        match self.stack.push(self.program_counter) {
            Ok(()) => {
                self.program_counter = instruction.nnn();
                assert(self@ =~= old(self)@.call_addr(instruction@)->Ok_0);
                Ok(())
            },
            Err(fault) => {
                assert(self@ =~= old(self)@);
                Err(fault)
            },
        }
    }

    fn skip_if(&mut self, condition: bool) -> (result: Result<(), Fault>)
        requires
            old(self).wf(),
            old(self)@.pc <= 0x1000,
        ensures
            final(self).wf(),
            applies(old(self)@.skip_if(condition), old(self)@, final(self)@, result),
    {
        if condition {
            self.skip_next_instruction()
        } else {
            Ok(())
        }
    }

    /// 3xkk - SE Vx, byte
    /// Skip next instruction if Vx = kk.
    fn se_vx_byte(&mut self, instruction: Instruction) -> (result: Result<(), Fault>)
        requires
            old(self).wf(),
            old(self)@.pc <= 0x1000,
        ensures
            final(self).wf(),
            applies(old(self)@.se_vx_byte(instruction@), old(self)@, final(self)@, result),
    {
        let register_x = self.registers[instruction.x() as usize];
        self.skip_if(register_x == instruction.kk())
    }

    /// 4xkk - SNE Vx, byte
    /// Skip next instruction if Vx != kk.
    fn sne_vx_byte(&mut self, instruction: Instruction) -> (result: Result<(), Fault>)
        requires
            old(self).wf(),
            old(self)@.pc <= 0x1000,
        ensures
            final(self).wf(),
            applies(old(self)@.sne_vx_byte(instruction@), old(self)@, final(self)@, result),
    {
        let register_x = self.registers[instruction.x() as usize];
        self.skip_if(register_x != instruction.kk())
    }

    /// 5xy0 - SE Vx, Vy
    /// Skip next instruction if Vx = Vy.
    fn se_vx_vy(&mut self, instruction: Instruction) -> (result: Result<(), Fault>)
        requires
            old(self).wf(),
            old(self)@.pc <= 0x1000,
        ensures
            final(self).wf(),
            applies(old(self)@.se_vx_vy(instruction@), old(self)@, final(self)@, result),
    {
        let register_x = self.registers[instruction.x() as usize];
        let register_y = self.registers[instruction.y() as usize];
        self.skip_if(register_x == register_y)
    }

    /// 6xkk - LD Vx, byte
    /// Set Vx = kk.
    fn ld_vx_byte(&mut self, instruction: Instruction)
        requires
            old(self).wf(),
        ensures
            final(self).wf(),
            final(self)@ == old(self)@.ld_vx_byte(instruction@),
    {
        self.registers[instruction.x() as usize] = instruction.kk();
    }

    /// 7xkk - ADD Vx, byte
    /// Set Vx = Vx + kk.
    fn add_vx_byte(&mut self, instruction: Instruction)
        requires
            old(self).wf(),
        ensures
            final(self).wf(),
            final(self)@ == old(self)@.add_vx_byte(instruction@),
    {
        let register_x = self.registers[instruction.x() as usize];
        self.registers[instruction.x() as usize] = register_x.wrapping_add(instruction.kk());
    }

    /// 8xy0 - LD Vx, Vy
    /// Set Vx = Vy.
    fn ld_vx_vy(&mut self, instruction: Instruction)
        requires
            old(self).wf(),
        ensures
            final(self).wf(),
            final(self)@ == old(self)@.ld_vx_vy(instruction@),
    {
        self.registers[instruction.x() as usize] = self.registers[instruction.y() as usize];
    }

    /// Writes the result of a bitwise operation to Vx; under the quirk, VF
    /// is reset after that.
    fn binary_op(&mut self, instruction: Instruction, value: u8)
        requires
            old(self).wf(),
        ensures
            final(self).wf(),
            final(self)@ == old(self)@.binary_op(instruction@, value),
    {
        self.registers[instruction.x() as usize] = value;
        if self.quirks.contains(&Quirks::BinaryOpResetVF) {
            self.registers[0xF] = 0;
        }
    }

    /// 8xy1 - OR Vx, Vy
    /// Set Vx = Vx OR Vy.
    fn or_vx_vy(&mut self, instruction: Instruction)
        requires
            old(self).wf(),
        ensures
            final(self).wf(),
            final(self)@ == old(self)@.or_vx_vy(instruction@),
    {
        let register_x = self.registers[instruction.x() as usize];
        let register_y = self.registers[instruction.y() as usize];
        self.binary_op(instruction, register_x | register_y);
    }

    /// 8xy2 - AND Vx, Vy
    /// Set Vx = Vx AND Vy.
    fn and_vx_vy(&mut self, instruction: Instruction)
        requires
            old(self).wf(),
        ensures
            final(self).wf(),
            final(self)@ == old(self)@.and_vx_vy(instruction@),
    {
        let register_x = self.registers[instruction.x() as usize];
        let register_y = self.registers[instruction.y() as usize];
        self.binary_op(instruction, register_x & register_y);
    }

    /// 8xy3 - XOR Vx, Vy
    /// Set Vx = Vx XOR Vy.
    fn xor_vx_vy(&mut self, instruction: Instruction)
        requires
            old(self).wf(),
        ensures
            final(self).wf(),
            final(self)@ == old(self)@.xor_vx_vy(instruction@),
    {
        let register_x = self.registers[instruction.x() as usize];
        let register_y = self.registers[instruction.y() as usize];
        self.binary_op(instruction, register_x ^ register_y);
    }

    /// 8xy4 - ADD Vx, Vy
    /// Set Vx = Vx + Vy, set VF = carry.
    ///
    /// The values of Vx and Vy are added together. Only the lowest 8 bits of
    /// the result are kept, and stored in Vx. After that VF is set to 1 if the
    /// result was greater than 8 bits, otherwise to 0.
    fn add_vx_vy(&mut self, instruction: Instruction)
        requires
            old(self).wf(),
        ensures
            final(self).wf(),
            final(self)@ == old(self)@.add_vx_vy(instruction@),
    {
        let register_x = self.registers[instruction.x() as usize];
        let register_y = self.registers[instruction.y() as usize];
        let result = register_x.wrapping_add(register_y);
        let carry_flag = register_x as u16 + register_y as u16 > 0xFF;
        self.registers[instruction.x() as usize] = result;
        self.registers[0xF] = if carry_flag {
            1
        } else {
            0
        };
    }

    /// 8xy5 - SUB Vx, Vy
    /// Set Vx = Vx - Vy, set VF = NOT borrow.
    ///
    /// Vy is subtracted from Vx, and the result stored in Vx. After that VF
    /// is set to 1 if Vx >= Vy held before, otherwise to 0.
    fn sub_vx_vy(&mut self, instruction: Instruction)
        requires
            old(self).wf(),
        ensures
            final(self).wf(),
            final(self)@ == old(self)@.sub_vx_vy(instruction@),
    {
        let register_x = self.registers[instruction.x() as usize];
        let register_y = self.registers[instruction.y() as usize];
        let result = register_x.wrapping_sub(register_y);
        let borrow_flag = register_x < register_y;
        self.registers[instruction.x() as usize] = result;
        self.registers[0xF] = if borrow_flag {
            0
        } else {
            1
        };
    }

    /// The register that the shifts read: Vx under the quirk, else Vy.
    fn shift_source(&self, instruction: Instruction) -> (register: u8)
        ensures
            register == self@.shift_source(instruction@),
            register < 16,
    {
        if self.quirks.contains(&Quirks::ShiftIgnoreVY) {
            instruction.x()
        } else {
            instruction.y()
        }
    }

    /// 8xy6 - SHR Vx {, Vy}
    /// Set Vx = Vx SHR 1.
    ///
    /// Vx gets the value shifted right by one bit. After that VF is set to
    /// the bit that was shifted out.
    fn shr_vx(&mut self, instruction: Instruction)
        requires
            old(self).wf(),
        ensures
            final(self).wf(),
            final(self)@ == old(self)@.shr_vx(instruction@),
    {
        let target_register = self.shift_source(instruction);
        let register_value = self.registers[target_register as usize];
        proof {
            lemma_shifts(register_value);
        }
        self.registers[instruction.x() as usize] = register_value >> 1;
        self.registers[0xF] = register_value & 1;
    }

    /// 8xy7 - SUBN Vx, Vy
    /// Set Vx = Vy - Vx, set VF = NOT borrow.
    ///
    /// Vx is subtracted from Vy, and the result stored in Vx. After that VF
    /// is set to 1 if Vy >= Vx held before, otherwise to 0.
    fn subn_vx_vy(&mut self, instruction: Instruction)
        requires
            old(self).wf(),
        ensures
            final(self).wf(),
            final(self)@ == old(self)@.subn_vx_vy(instruction@),
    {
        let register_x = self.registers[instruction.x() as usize];
        let register_y = self.registers[instruction.y() as usize];
        let result = register_y.wrapping_sub(register_x);
        let borrow_flag = register_y < register_x;
        self.registers[instruction.x() as usize] = result;
        self.registers[0xF] = if borrow_flag {
            0
        } else {
            1
        };
    }

    /// 8xyE - SHL Vx {, Vy}
    /// Set Vx = Vx SHL 1.
    ///
    /// Vx gets the value shifted left by one bit. After that VF is set to
    /// the bit that was shifted out.
    fn shl_vx(&mut self, instruction: Instruction)
        requires
            old(self).wf(),
        ensures
            final(self).wf(),
            final(self)@ == old(self)@.shl_vx(instruction@),
    {
        let target_register = self.shift_source(instruction);
        let register_value = self.registers[target_register as usize];
        proof {
            lemma_shifts(register_value);
        }
        self.registers[instruction.x() as usize] = register_value << 1;
        self.registers[0xF] = if register_value & 0b1000_0000 != 0 {
            1
        } else {
            0
        };
    }

    /// 9xy0 - SNE Vx, Vy
    /// Skip next instruction if Vx != Vy.
    fn sne_vx_vy(&mut self, instruction: Instruction) -> (result: Result<(), Fault>)
        requires
            old(self).wf(),
            old(self)@.pc <= 0x1000,
        ensures
            final(self).wf(),
            applies(old(self)@.sne_vx_vy(instruction@), old(self)@, final(self)@, result),
    {
        let register_x = self.registers[instruction.x() as usize];
        let register_y = self.registers[instruction.y() as usize];
        self.skip_if(register_x != register_y)
    }

    /// Sets I to an address, masked.
    fn set_i(&mut self, address: u16)
        requires
            old(self).wf(),
        ensures
            final(self).wf(),
            final(self)@ == old(self)@.with_i(address as int),
    {
        proof {
            lemma_mask(address);
        }
        self.i_register.set(address);
    }

    /// The address `offset` places behind I, masked.
    fn i_plus(&self, offset: u16) -> (address: u16)
        requires
            self.wf(),
        ensures
            address == masked(self@.i + offset),
            address <= 0xFFF,
    {
        proof {
            lemma_mask(((self@.i + offset) % 0x1_0000) as u16);
        }
        self.i_register.add(offset)
    }

    /// Annn - LD I, addr
    /// Set I = nnn.
    fn ld_i_addr(&mut self, instruction: Instruction)
        requires
            old(self).wf(),
        ensures
            final(self).wf(),
            final(self)@ == old(self)@.ld_i_addr(instruction@),
    {
        self.set_i(instruction.nnn());
    }

    /// *CHIP-8*
    /// Bnnn - JP V0, addr
    /// Jump to address nnn + V0.
    ///
    /// *SCHIP*
    /// Bxnn - JP Vx, addr
    /// Jump to address xnn + Vx.
    fn jp_vo_addr(&mut self, instruction: Instruction)
        requires
            old(self).wf(),
        ensures
            final(self).wf(),
            final(self)@ == old(self)@.jp_vo_addr(instruction@),
    {
        let target_register = if self.quirks.contains(&Quirks::JumpWithX) {
            instruction.x()
        } else {
            0
        };
        let register_value = self.registers[target_register as usize];
        self.program_counter = instruction.nnn() + register_value as u16;
    }

    /// Cxkk - RND Vx, byte
    /// Set Vx = random byte AND kk.
    fn rnd_vx_byte(&mut self, instruction: Instruction, random: u8)
        requires
            old(self).wf(),
        ensures
            final(self).wf(),
            final(self)@ == old(self)@.rnd_vx_byte(instruction@, random),
    {
        self.registers[instruction.x() as usize] = random & instruction.kk();
    }

    /// Skips the next instruction if the key that Vx names is held down, or
    /// is not, as `pressed` says.
    fn skip_on_key(&mut self, instruction: Instruction, pressed: bool) -> (result: Result<(), Fault>)
        requires
            old(self).wf(),
            old(self)@.pc <= 0x1000,
        ensures
            final(self).wf(),
            applies(old(self)@.skip_on_key(instruction@, pressed), old(self)@, final(self)@, result),
    {
        let register_x = self.registers[instruction.x() as usize];
        if register_x >= 16 {
            return Err(Fault::InvalidKey(register_x));
        }
        let is_pressed = self.keyboard.is_key_pressed(register_x);
        self.skip_if(is_pressed == pressed)
    }

    /// Ex9E - SKP Vx
    /// Skip next instruction if key with the value of Vx is pressed.
    fn skp_vx(&mut self, instruction: Instruction) -> (result: Result<(), Fault>)
        requires
            old(self).wf(),
            old(self)@.pc <= 0x1000,
        ensures
            final(self).wf(),
            applies(old(self)@.skp_vx(instruction@), old(self)@, final(self)@, result),
    {
        self.skip_on_key(instruction, true)
    }

    /// ExA1 - SKNP Vx
    /// Skip next instruction if key with the value of Vx is not pressed.
    fn sknp_vx(&mut self, instruction: Instruction) -> (result: Result<(), Fault>)
        requires
            old(self).wf(),
            old(self)@.pc <= 0x1000,
        ensures
            final(self).wf(),
            applies(old(self)@.sknp_vx(instruction@), old(self)@, final(self)@, result),
    {
        self.skip_on_key(instruction, false)
    }

    /// F000 NNNN - Load `I` with a 16-bit address.
    fn load_i(&mut self) -> (result: Result<(), Fault>)
        requires
            old(self).wf(),
        ensures
            final(self).wf(),
            applies(old(self)@.load_i(), old(self)@, final(self)@, result),
    {
        let new_i_value = match self.next_instruction() {
            Ok(instruction) => instruction.value(),
            Err(fault) => {
                return Err(fault);
            },
        };
        self.set_i(new_i_value);
        Ok(())
    }

    /// FX01 - Select zero or more drawing planes by bitmask (0 <= X <= 3).
    fn set_plane(&mut self, instruction: Instruction) -> (result: Result<(), Fault>)
        requires
            old(self).wf(),
        ensures
            final(self).wf(),
            applies(old(self)@.set_plane(instruction@), old(self)@, final(self)@, result),
    {
        let plane = match instruction.x() {
            0 => {
                return Ok(());
            },
            1 => Plane::First,
            2 => Plane::Second,
            3 => Plane::Both,
            invalid_plane => {
                return Err(Fault::InvalidPlane(invalid_plane));
            },
        };
        self.display.set_plane(plane);
        assert(self@ =~= old(self)@.set_plane(instruction@)->Ok_0);
        Ok(())
    }

    /// Fx07 - LD Vx, DT
    /// Set Vx = delay timer value.
    fn ld_vx_dt(&mut self, instruction: Instruction)
        requires
            old(self).wf(),
        ensures
            final(self).wf(),
            final(self)@ == old(self)@.ld_vx_dt(instruction@),
    {
        self.registers[instruction.x() as usize] = self.dt_register.get();
    }

    /// Fx0A - LD Vx, K
    /// Wait for a key press, store the value of the key in Vx.
    ///
    /// While no key is held down, the program counter is moved back onto
    /// this instruction, so that it is carried out again.
    fn ld_vx_k(&mut self, instruction: Instruction)
        requires
            old(self).wf(),
            old(self)@.pc >= 2,
        ensures
            final(self).wf(),
            final(self)@ == old(self)@.ld_vx_k(instruction@),
    {
        if let Some(pressed_key) = self.keyboard.pressed_key() {
            self.registers[instruction.x() as usize] = pressed_key;
        } else {
            self.program_counter -= 2;
        }
    }

    /// Fx15 - LD DT, Vx
    /// Set delay timer = Vx.
    fn ld_dt_vx(&mut self, instruction: Instruction)
        requires
            old(self).wf(),
        ensures
            final(self).wf(),
            final(self)@ == old(self)@.ld_dt_vx(instruction@),
    {
        let register_x = self.registers[instruction.x() as usize];
        self.dt_register.set(register_x);
    }

    /// Fx18 - LD ST, Vx
    /// Set sound timer = Vx.
    fn ld_st_vx(&mut self, instruction: Instruction)
        requires
            old(self).wf(),
        ensures
            final(self).wf(),
            final(self)@ == old(self)@.ld_st_vx(instruction@),
    {
        let register_x = self.registers[instruction.x() as usize];
        self.st_register.set(register_x);
    }

    /// Fx1E - ADD I, Vx
    /// Set I = I + Vx.
    fn add_i_vx(&mut self, instruction: Instruction)
        requires
            old(self).wf(),
        ensures
            final(self).wf(),
            final(self)@ == old(self)@.add_i_vx(instruction@),
    {
        let register_x = self.registers[instruction.x() as usize];
        let sum = self.i_plus(register_x as u16);
        self.set_i(sum);
    }

    /// Sets I to the location of the glyph for the digit in Vx.
    fn point_at_glyph(&mut self, instruction: Instruction, resolution: ScreenResolution) -> (result:
        Result<(), Fault>)
        requires
            old(self).wf(),
        ensures
            final(self).wf(),
            applies(old(self)@.point_at_glyph(instruction@, resolution), old(self)@, final(self)@, result),
    {
        let register_x = self.registers[instruction.x() as usize];
        match self.memory.get_font_address(register_x, resolution) {
            Ok(address) => {
                self.set_i(address);
                Ok(())
            },
            Err(fault) => Err(fault),
        }
    }

    /// Fx29 - LD F, Vx
    /// Set I = location of sprite for digit Vx.
    fn ld_f_vx(&mut self, instruction: Instruction) -> (result: Result<(), Fault>)
        requires
            old(self).wf(),
        ensures
            final(self).wf(),
            applies(old(self)@.ld_f_vx(instruction@), old(self)@, final(self)@, result),
    {
        self.point_at_glyph(instruction, ScreenResolution::Lores)
    }

    /// Fx30 - Point I to 10-byte font sprite for digit VX (0..9)
    fn load_10_byte_font_to_i(&mut self, instruction: Instruction) -> (result: Result<(), Fault>)
        requires
            old(self).wf(),
        ensures
            final(self).wf(),
            applies(old(self)@.load_10_byte_font_to_i(instruction@), old(self)@, final(self)@, result),
    {
        self.point_at_glyph(instruction, ScreenResolution::Hires)
    }

    /// FX3A - Set the audio pattern playback rate to
    /// 4000 * 2 ^ ((Vx - 64) / 48) Hz.
    fn set_pitch(&mut self, instruction: Instruction) -> (result: Result<(), Fault>)
        requires
            old(self).wf(),
        ensures
            final(self).wf(),
            applies(old(self)@.set_pitch(instruction@), old(self)@, final(self)@, result),
    {
        let register_x = self.registers[instruction.x() as usize];
        if register_x < 64 {
            return Err(Fault::InvalidPitch(register_x));
        }
        proof {
            vstd::arithmetic::power2::lemma2_to64();
        }
        let octaves: u8 = (register_x - 64) / 48;
        self.pitch = match octaves {
            0 => 4000,
            1 => 8000,
            2 => 16000,
            _ => 32000,
        };
        Ok(())
    }

    /// Stores bytes at I, I + 1, ... A store that would reach an address
    /// that cannot be written is refused as a whole.
    fn store_at_i(&mut self, values: &[u8]) -> (result: Result<(), Fault>)
        requires
            old(self).wf(),
            values@.len() <= 16,
        ensures
            final(self).wf(),
            applies(old(self)@.store(values@), old(self)@, final(self)@, result),
    {
        let count = values.len();
        let start = self.i_register.get();
        proof {
            old(self).lemma_wf();
        }
        if count == 0 {
            assert(self@ =~= old(self)@.store(values@)->Ok_0);
            return Ok(());
        }
        if start < Memory::PROGRAM_ADDR_START {
            return Err(Fault::ReservedWrite(start));
        }
        if start as usize + count > 0x1000 {
            return Err(Fault::ReservedWrite(0));
        }
        let mut k: usize = 0;
        while k < count
            invariant
                k <= count == values@.len() <= 16,
                0x200 <= start,
                start + count <= 0x1000,
                self.wf(),
                start == self@.i,
                self@ == (Machine { memory: self@.memory, ..old(self)@ }),
                self@.memory.len() == 4096,
                forall|addr: int|
                    0 <= addr < 4096 ==> self@.memory[addr] == if start <= addr < start + k {
                        values@[addr - start]
                    } else {
                        old(self)@.memory[addr]
                    },
            decreases count - k,
        {
            let address = self.i_plus(k as u16);
            self.memory.write(address, values[k])?;
            k += 1;
        }
        assert(self@ =~= old(self)@.store(values@)->Ok_0);
        Ok(())
    }

    /// The values of the registers V0 to V(count - 1).
    fn first_registers(&self, count: usize) -> (values: Vec<u8>)
        requires
            count <= 16,
        ensures
            values@ == self@.v.subrange(0, count as int),
    {
        let mut values: Vec<u8> = Vec::new();
        let mut register: usize = 0;
        while register < count
            invariant
                register <= count <= 16,
                values@ == self.registers@.subrange(0, register as int),
            decreases count - register,
        {
            values.push(self.registers[register]);
            assert(values@ =~= self.registers@.subrange(0, register + 1));
            register += 1;
        }
        values
    }

    /// I after FX55 and FX65: advanced by X + 1 under the quirk.
    fn after_transfer(&mut self, x: u8)
        requires
            old(self).wf(),
            x < 16,
        ensures
            final(self).wf(),
            final(self)@ == old(self)@.after_transfer(x as int),
    {
        proof {
            old(self).lemma_wf();
        }
        if self.quirks.contains(&Quirks::IRegisterIncrementedWithX) {
            self.set_i(self.i_register.get() + x as u16 + 1);
        }
    }

    /// 5XY2 - Save an inclusive range of registers Vx - Vy to memory
    /// starting at `I`.
    fn save_registers_range(&mut self, instruction: Instruction) -> (result: Result<(), Fault>)
        requires
            old(self).wf(),
        ensures
            final(self).wf(),
            applies(old(self)@.save_registers_range(instruction@), old(self)@, final(self)@, result),
    {
        let x = instruction.x();
        let y = instruction.y();
        let count: u8 = if x > y {
            x - y + 1
        } else {
            y - x + 1
        };
        let mut values: Vec<u8> = Vec::new();
        let mut k: u8 = 0;
        while k < count
            invariant
                x < 16,
                y < 16,
                k <= count == range_count(x as int, y as int),
                values@.len() == k,
                forall|j: int|
                    0 <= j < k ==> values@[j] == self.registers@[range_register(x as int, y as int, j)],
            decreases count - k,
        {
            let register = if x > y {
                x - k
            } else {
                x + k
            };
            values.push(self.registers[register as usize]);
            k += 1;
        }
        assert(values@ =~= Seq::new(
            range_count(x as int, y as int) as nat,
            |j: int| self@.v[range_register(x as int, y as int, j)],
        ));
        self.store_at_i(values.as_slice())
    }

    /// 5XY3 - Load an inclusive range of registers Vx - Vy from memory
    /// starting at `I`.
    fn load_registers_range(&mut self, instruction: Instruction) -> (result: Result<(), Fault>)
        requires
            old(self).wf(),
        ensures
            final(self).wf(),
            applies(
                Ok::<Machine, Fault>(old(self)@.load_registers_range(instruction@)),
                old(self)@,
                final(self)@,
                result,
            ),
    {
        let x = instruction.x();
        let y = instruction.y();
        let count: u8 = if x > y {
            x - y + 1
        } else {
            y - x + 1
        };
        let mut k: u8 = 0;
        while k < count
            invariant
                x < 16,
                y < 16,
                k <= count == range_count(x as int, y as int),
                self.wf(),
                self@ == (Machine { v: self@.v, ..old(self)@ }),
                self@.v.len() == 16,
                forall|r: int|
                    0 <= r < 16 ==> self@.v[r] == if x <= r <= y && r - x < k {
                        old(self)@.byte_at_i(r - x)
                    } else if y <= r <= x && x - r < k {
                        old(self)@.byte_at_i(x - r)
                    } else {
                        old(self)@.v[r]
                    },
            decreases count - k,
        {
            let register = if x > y {
                x - k
            } else {
                x + k
            };
            let address = self.i_plus(k as u16);
            self.registers[register as usize] = self.memory.read(address)?;
            k += 1;
        }
        assert(self@ =~= old(self)@.load_registers_range(instruction@));
        Ok(())
    }

    /// Fx33 - LD B, Vx
    /// Store BCD representation of Vx in memory locations I, I+1, and I+2.
    ///
    /// The interpreter takes the decimal value of Vx, and places the hundreds
    /// digit in memory at location in I, the tens digit at location I+1, and
    /// the ones digit at location I+2.
    fn ld_b_vx(&mut self, instruction: Instruction) -> (result: Result<(), Fault>)
        requires
            old(self).wf(),
        ensures
            final(self).wf(),
            applies(old(self)@.ld_b_vx(instruction@), old(self)@, final(self)@, result),
    {
        let register_x = self.registers[instruction.x() as usize];
        let digits: [u8; 3] = [register_x / 100, (register_x / 10) % 10, register_x % 10];
        assert(digits@ =~= decimal_digits(register_x));
        self.store_at_i(digits.as_slice())
    }

    /// Fx55 - LD [I], Vx
    /// Store registers V0 through Vx in memory starting at location `I`.
    fn ld_i_vx(&mut self, instruction: Instruction) -> (result: Result<(), Fault>)
        requires
            old(self).wf(),
        ensures
            final(self).wf(),
            applies(old(self)@.ld_i_vx(instruction@), old(self)@, final(self)@, result),
    {
        let values = self.first_registers(instruction.x() as usize + 1);
        self.store_at_i(values.as_slice())?;
        self.after_transfer(instruction.x());
        Ok(())
    }

    /// Fx65 - LD Vx, [I]
    /// Read registers V0 through Vx from memory starting at location `I`.
    fn ld_vx_i(&mut self, instruction: Instruction) -> (result: Result<(), Fault>)
        requires
            old(self).wf(),
        ensures
            final(self).wf(),
            applies(Ok::<Machine, Fault>(old(self)@.ld_vx_i(instruction@)), old(self)@, final(self)@, result),
    {
        let x = instruction.x();
        let mut register: u8 = 0;
        while register <= x
            invariant
                x < 16,
                register <= x + 1,
                self.wf(),
                self@ == (Machine { v: self@.v, ..old(self)@ }),
                self@.v.len() == 16,
                forall|r: int|
                    0 <= r < 16 ==> self@.v[r] == if r < register {
                        old(self)@.byte_at_i(r)
                    } else {
                        old(self)@.v[r]
                    },
            decreases x + 1 - register,
        {
            let address = self.i_plus(register as u16);
            self.registers[register as usize] = self.memory.read(address)?;
            register += 1;
        }
        assert(self@ =~= (Machine {
            v: Seq::new(
                16,
                |r: int|
                    if r <= x {
                        old(self)@.byte_at_i(r)
                    } else {
                        old(self)@.v[r]
                    },
            ),
            ..old(self)@
        }));
        self.after_transfer(x);
        Ok(())
    }

    /// The number of registers that Fx75 and Fx85 transfer, or why the
    /// platform refuses to.
    fn rpl_registers(&self, instruction: Instruction) -> (result: Result<usize, Fault>)
        ensures
            match self@.rpl_fault(instruction@) {
                Some(fault) => result == Err::<usize, Fault>(fault),
                None => result == Ok::<usize, Fault>(rpl_count(x_of(instruction@) as int) as usize),
            },
    {
        let x = instruction.x();
        if self.mode == ChipMode::SuperChip && x > 7 {
            Err(Fault::InvalidRplCount(x))
        } else if x > 7 {
            Ok(8)
        } else {
            Ok(x as usize + 1)
        }
    }

    /// Fx75 - Store V0..VX in RPL user flags
    fn load_rpl_flags(&mut self, instruction: Instruction) -> (result: Result<(), Fault>)
        requires
            old(self).wf(),
        ensures
            final(self).wf(),
            applies(old(self)@.load_rpl_flags(instruction@), old(self)@, final(self)@, result),
    {
        let register_quantity = self.rpl_registers(instruction)?;
        let values = self.first_registers(register_quantity);
        self.memory.write_rpl_flags(values.as_slice());
        assert(self@ =~= old(self)@.load_rpl_flags(instruction@)->Ok_0);
        Ok(())
    }

    /// Fx85 - Read V0..VX from RPL user flags
    fn read_rpl_flags(&mut self, instruction: Instruction) -> (result: Result<(), Fault>)
        requires
            old(self).wf(),
        ensures
            final(self).wf(),
            applies(old(self)@.read_rpl_flags(instruction@), old(self)@, final(self)@, result),
    {
        let register_quantity = self.rpl_registers(instruction)?;
        let flags = self.memory.read_rpl_flags();
        let mut register: usize = 0;
        while register < register_quantity
            invariant
                register <= register_quantity <= 8,
                flags@ == old(self)@.flags,
                flags@.len() == 8,
                self.wf(),
                self@ == (Machine { v: self@.v, ..old(self)@ }),
                self@.v.len() == 16,
                forall|r: int|
                    0 <= r < 16 ==> self@.v[r] == if r < register {
                        flags@[r]
                    } else {
                        old(self)@.v[r]
                    },
            decreases register_quantity - register,
        {
            self.registers[register] = flags[register];
            register += 1;
        }
        assert(self@ =~= old(self)@.read_rpl_flags(instruction@)->Ok_0);
        Ok(())
    }

    /// F002 - Store 16 bytes starting at `I` in the audio pattern buffer.
    fn load_audio_buffer(&mut self) -> (result: Result<(), Fault>)
        requires
            old(self).wf(),
        ensures
            final(self).wf(),
            applies(old(self)@.load_audio_buffer(), old(self)@, final(self)@, result),
    {
        let pattern = self.memory.read_n_bytes(self.i_register.get(), 16)?;
        let mut buffer: [u8; 16] = [0;16];
        let mut k: usize = 0;
        while k < 16
            invariant
                k <= 16,
                pattern@.len() == 16,
                forall|j: int| 0 <= j < k ==> buffer@[j] == pattern@[j],
            decreases 16 - k,
        {
            buffer[k] = pattern[k];
            k += 1;
        }
        self.audio_buffer = buffer;
        assert(self@ =~= old(self)@.load_audio_buffer()->Ok_0);
        Ok(())
    }

    /// The sprite of 16 rows of 16 pixels that memory holds at `addr`.
    fn read_large_sprite(&self, addr: u16) -> (result: Result<[u16; 16], Fault>)
        requires
            self.wf(),
        ensures
            match first_unreadable(addr, 32) {
                Some(failing) => result == Err::<[u16; 16], Fault>(Fault::OutOfBounds(failing)),
                None => result is Ok && result->Ok_0@ == word_span(self@.memory, addr as int, 16),
            },
    {
        let rows = self.memory.read_n_words(addr, 16)?;
        let mut sprite: [u16; 16] = [0;16];
        let mut row: usize = 0;
        while row < 16
            invariant
                row <= 16,
                rows@.len() == 16,
                forall|r: int| 0 <= r < row ==> sprite@[r] == rows@[r],
            decreases 16 - row,
        {
            sprite[row] = rows[row];
            row += 1;
        }
        assert(sprite@ =~= rows@);
        Ok(sprite)
    }

    /// *CHIP-8*
    /// Dxyn - DRW Vx, Vy, nibble
    /// Display n-byte sprite starting at memory location I at (Vx, Vy), set
    /// VF = collision.
    ///
    /// *SCHIP*
    /// If N=0 and hires mode, show 16x16 sprite.
    ///
    /// The interpreter reads n bytes from memory, starting at the address
    /// stored in I. These bytes are then displayed as sprites on screen at
    /// coordinates (Vx, Vy). Sprites are XORed onto the existing screen. If
    /// this causes any pixels to be erased, VF is set to 1, otherwise it is
    /// set to 0. With both planes selected, the sprite for the second plane
    /// follows the one for the first in memory.
    #[verifier::rlimit(40)]
    fn drw_vx_vy_n(&mut self, instruction: Instruction) -> (result: Result<(), Fault>)
        requires
            old(self).wf(),
        ensures
            final(self).wf(),
            applies(old(self)@.drw_vx_vy_n(instruction@), old(self)@, final(self)@, result),
    {
        let x = self.registers[instruction.x() as usize] as usize;
        let y = self.registers[instruction.y() as usize] as usize;
        let n = instruction.n();
        let plane = *self.display.get_current_plane();
        let start = self.i_register.get();
        let pixel_erased = if self.display.is_hires() && n == 0 {
            match plane {
                Plane::Both => {
                    let first = self.read_large_sprite(start)?;
                    let second = self.read_large_sprite(self.i_plus(32))?;
                    let first_erased = self.display.draw_16_16_sprite(x, y, first, Plane::First);
                    let second_erased = self.display.draw_16_16_sprite(x, y, second, Plane::Second);
                    first_erased || second_erased
                },
                plane => {
                    let sprite = self.read_large_sprite(start)?;
                    self.display.draw_16_16_sprite(x, y, sprite, plane)
                },
            }
        } else {
            match plane {
                Plane::Both => {
                    let first = self.memory.read_n_bytes(start, n as u16)?;
                    let second = self.memory.read_n_bytes(self.i_plus(n as u16), n as u16)?;
                    let first_erased = self.display.draw_sprite(x, y, first.as_slice(), Plane::First);
                    let second_erased = self.display.draw_sprite(x, y, second.as_slice(), Plane::Second);
                    first_erased || second_erased
                },
                plane => {
                    let sprite = self.memory.read_n_bytes(start, n as u16)?;
                    self.display.draw_sprite(x, y, sprite.as_slice(), plane)
                },
            }
        };
        self.registers[0xF] = if pixel_erased {
            1
        } else {
            0
        };
        assert(self@ =~= old(self)@.drw_vx_vy_n(instruction@)->Ok_0);
        Ok(())
    }

    fn skip_next_instruction(&mut self) -> (result: Result<(), Fault>)
        requires
            old(self).wf(),
            old(self)@.pc <= 0x1000,
        ensures
            final(self).wf(),
            match old(self)@.skip() {
                Ok(machine) => result is Ok && final(self)@ == machine,
                Err(fault) => result == Err::<(), Fault>(fault) && final(self)@ == old(self)@,
            },
    {
        if self.mode == ChipMode::XOChip {
            let next = match self.next_instruction() {
                Ok(instruction) => instruction,
                Err(fault) => {
                    return Err(fault);
                },
            };
            proof {
                lemma_decode_encode_round_trip(next@);
            }
            let (opcode, x, y, n) = next.nibbles();
            if opcode == 0xF && x == 0 && y == 0 && n == 0 {
                self.program_counter += 2;
            }
        } else {
            self.program_counter += 2;
        }
        Ok(())
    }

    fn next_instruction(&mut self) -> (result: Result<Instruction, Fault>)
        requires
            old(self).wf(),
        ensures
            final(self).wf(),
            match old(self)@.fetch() {
                Ok(word) => result is Ok && result->Ok_0@ == word && final(self)@ == old(self)@.advanced(),
                Err(fault) => result == Err::<Instruction, Fault>(fault) && final(self)@ == old(self)@,
            },
    {
        let high = match self.memory.read(self.program_counter) {
            Ok(byte) => byte,
            Err(fault) => {
                return Err(fault);
            },
        };
        let low = match self.memory.read(self.program_counter + 1) {
            Ok(byte) => byte,
            Err(fault) => {
                return Err(fault);
            },
        };
        self.program_counter += 2;
        Ok(Instruction::from_be_bytes(high, low))
    }
}

} // verus!
