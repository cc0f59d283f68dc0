//! The machine as a mathematical value, and what each instruction makes of
//! it. The contracts of [`crate::chip::Chip8`] are stated over these
//! functions.

use crate::chip::{Progress, Signal};
use crate::display::{Plane, ScreenResolution};
use crate::error::{ExecutionError, Fault};
use crate::instruction::{kk_of, n_of, nnn_of, opcode_of, word_of_bytes, x_of, y_of};
use crate::keyboard::first_pressed;
use crate::memory::{first_unreadable, font_address, reserved_byte, span, word_span};
use crate::platform::{ChipMode, Quirks};
use crate::registers::timer::ticked;
use crate::screen::{byte_rows, lemma_operations_keep_wf, Screen};
use vstd::arithmetic::power2::pow2;
use vstd::prelude::*;

verus! {

/// The whole state of the machine.
#[verifier::ext_equal]
pub struct Machine {
    pub mode: ChipMode,
    pub quirks: Set<Quirks>,
    /// The 4096 bytes of memory.
    pub memory: Seq<u8>,
    /// The 8 bytes of the persistent flag store.
    pub flags: Seq<u8>,
    /// The return addresses, the innermost call last.
    pub stack: Seq<u16>,
    /// The registers `V0` to `VF`.
    pub v: Seq<u8>,
    /// The address register `I`.
    pub i: u16,
    /// The program counter.
    pub pc: u16,
    /// The delay timer.
    pub delay: u8,
    /// The sound timer.
    pub sound: u8,
    /// For each of the 16 keys, whether it is held down.
    pub keys: Seq<bool>,
    pub screen: Screen,
    /// The 16 bytes of the audio pattern.
    pub audio: Seq<u8>,
    pub pitch: u16,
    /// The number of instructions that make a frame.
    pub ticks_per_frame: u32,
    /// The microseconds that the host is to wait after each instruction.
    pub sleep_time: Option<u8>,
}

/// An address brought into the address space: its lowest 12 bits.
pub open spec fn masked(address: int) -> u16 {
    (address % 0x1000) as u16
}

/// The fault that writing `count` bytes at `I`, `I + 1`, ... raises, each
/// address masked: the write stops at the first address below the program
/// space, which `I` itself may be, or else the address 0 that the addresses
/// wrap to behind the end of memory.
pub open spec fn store_fault(i: u16, count: int) -> Option<Fault> {
    if count <= 0 {
        None
    } else if i < 0x200 {
        Some(Fault::ReservedWrite(i))
    } else if i + count > 0x1000 {
        Some(Fault::ReservedWrite(0))
    } else {
        None
    }
}

/// The memory with `values` stored from `i` on.
pub open spec fn stored(memory: Seq<u8>, i: int, values: Seq<u8>) -> Seq<u8> {
    Seq::new(
        memory.len(),
        |addr: int|
            if i <= addr < i + values.len() {
                values[addr - i]
            } else {
                memory[addr]
            },
    )
}

/// The three decimal digits of a byte, the hundreds first.
pub open spec fn decimal_digits(value: u8) -> Seq<u8> {
    seq![value / 100, (value / 10) % 10, value % 10]
}

/// The playback rate that a pitch value of 64 or more selects:
/// 4000 * 2 ^ ((value - 64) / 48), the quotient rounded down.
pub open spec fn pitch_of(value: u8) -> u16 {
    (4000 * pow2(((value - 64) / 48) as nat)) as u16
}

/// The register that is `k` places from `VX` towards `VY`.
pub open spec fn range_register(x: int, y: int, k: int) -> int {
    if x > y {
        x - k
    } else {
        x + k
    }
}

/// The number of registers from `VX` to `VY`, both included.
pub open spec fn range_count(x: int, y: int) -> int {
    if x > y {
        x - y + 1
    } else {
        y - x + 1
    }
}

/// The number of flag registers that `FX75` and `FX85` transfer: `X + 1`, as
/// far as the store has room.
pub open spec fn rpl_count(x: int) -> int {
    if x + 1 > 8 {
        8
    } else {
        x + 1
    }
}

/// What an instruction made of the machine, or why it was refused.
pub type Effect = Result<Machine, Fault>;

impl Machine {
    /// The invariants of the machine's state.
    pub open spec fn wf(self) -> bool {
        &&& self.memory.len() == 4096
        &&& forall|addr: int| 0 <= addr < 0x200 ==> self.memory[addr] == reserved_byte(self.mode, addr)
        &&& self.flags.len() == 8
        &&& self.stack.len() <= 16
        &&& self.v.len() == 16
        &&& self.i <= 0xFFF
        &&& self.keys.len() == 16
        &&& self.screen.wf()
        &&& self.screen.wraps == self.quirks.contains(Quirks::WrapsInsteadClipping)
        &&& self.audio.len() == 16
    }

    /// The machine right after it was made for a program.
    pub open spec fn initial(
        mode: ChipMode,
        quirks: Set<Quirks>,
        program: Seq<u8>,
        ticks_per_frame: u32,
        sleep_time: Option<u8>,
    ) -> Machine {
        Machine {
            mode,
            quirks,
            memory: crate::memory::loaded_memory(mode, program),
            flags: Seq::new(8, |i: int| 0u8),
            stack: Seq::empty(),
            v: Seq::new(16, |i: int| 0u8),
            i: 0,
            pc: 0x200,
            delay: 0,
            sound: 0,
            keys: Seq::new(16, |i: int| false),
            screen: Screen::initial(quirks.contains(Quirks::WrapsInsteadClipping)),
            audio: Seq::new(16, |i: int| 0xFFu8),
            pitch: 8000,
            ticks_per_frame,
            sleep_time,
        }
    }

    pub open spec fn has(self, quirk: Quirks) -> bool {
        self.quirks.contains(quirk)
    }

    /// The machine with `value` in register `x`.
    pub open spec fn with_v(self, x: int, value: u8) -> Machine {
        Machine { v: self.v.update(x, value), ..self }
    }

    /// The machine with `value` in the flag register `VF`.
    pub open spec fn with_flag(self, value: u8) -> Machine {
        self.with_v(0xF, value)
    }

    pub open spec fn with_pc(self, pc: u16) -> Machine {
        Machine { pc, ..self }
    }

    /// The machine with the address in `I`, masked.
    pub open spec fn with_i(self, address: int) -> Machine {
        Machine { i: masked(address), ..self }
    }

    pub open spec fn with_screen(self, screen: Screen) -> Machine {
        Machine { screen, ..self }
    }

    /// The word at the program counter, or the fault that reading it raises.
    pub open spec fn fetch(self) -> Result<u16, Fault> {
        if self.pc > 0xFFF {
            Err(Fault::OutOfBounds(self.pc))
        } else if self.pc == 0xFFF {
            Err(Fault::OutOfBounds(0x1000))
        } else {
            Ok(word_of_bytes(self.memory[self.pc as int], self.memory[self.pc + 1]))
        }
    }

    /// The machine with the program counter behind the next word.
    pub open spec fn advanced(self) -> Machine {
        self.with_pc((self.pc + 2) as u16)
    }

    /// Skips the next instruction. On XO-CHIP, an instruction `F000` is
    /// skipped together with the address that follows it.
    pub open spec fn skip(self) -> Effect {
        if self.mode == ChipMode::XOChip {
            match self.fetch() {
                Ok(word) => Ok(
                    if word == 0xF000 {
                        self.with_pc((self.pc + 4) as u16)
                    } else {
                        self.advanced()
                    },
                ),
                Err(fault) => Err(fault),
            }
        } else {
            Ok(self.advanced())
        }
    }

    pub open spec fn skip_if(self, condition: bool) -> Effect {
        if condition {
            self.skip()
        } else {
            Ok(self)
        }
    }

    /// Stores `values` at `I`, `I + 1`, ...
    pub open spec fn store(self, values: Seq<u8>) -> Effect {
        match store_fault(self.i, values.len() as int) {
            Some(fault) => Err(fault),
            None => Ok(Machine { memory: stored(self.memory, self.i as int, values), ..self }),
        }
    }

    /// The byte at the address `k` places behind `I`, the address masked.
    pub open spec fn byte_at_i(self, k: int) -> u8 {
        self.memory[masked(self.i + k) as int]
    }

    /// `I` after `FX55` and `FX65`: advanced by `X + 1` under the quirk.
    pub open spec fn after_transfer(self, x: int) -> Machine {
        if self.has(Quirks::IRegisterIncrementedWithX) {
            self.with_i(self.i + x + 1)
        } else {
            self
        }
    }

    // 00CN, 00DN, 00E0, 00FB, 00FC, 00FE, 00FF
    pub open spec fn scroll_n_lines_down(self, word: u16) -> Machine {
        self.with_screen(self.screen.scroll_down(n_of(word) as int))
    }

    pub open spec fn scroll_n_lines_up(self, word: u16) -> Machine {
        self.with_screen(self.screen.scroll_up(n_of(word) as int))
    }

    pub open spec fn cls(self) -> Machine {
        self.with_screen(self.screen.clear())
    }

    pub open spec fn scroll_display_4_px_right(self) -> Machine {
        self.with_screen(self.screen.scroll_right())
    }

    pub open spec fn scroll_display_4_px_left(self) -> Machine {
        self.with_screen(self.screen.scroll_left())
    }

    pub open spec fn disable_hires(self) -> Machine {
        self.with_screen(self.screen.with_resolution(false))
    }

    pub open spec fn enable_hires(self) -> Machine {
        self.with_screen(self.screen.with_resolution(true))
    }

    /// 00EE: return from a subroutine.
    pub open spec fn ret(self) -> Effect {
        if self.stack.len() == 0 {
            Err(Fault::StackUnderflow)
        } else {
            Ok(Machine { pc: self.stack.last(), stack: self.stack.drop_last(), ..self })
        }
    }

    /// 1NNN: jump.
    pub open spec fn jp_addr(self, word: u16) -> Machine {
        self.with_pc(nnn_of(word))
    }

    /// 2NNN: call a subroutine.
    pub open spec fn call_addr(self, word: u16) -> Effect {
        if self.stack.len() >= 16 {
            Err(Fault::StackOverflow)
        } else {
            Ok(Machine { pc: nnn_of(word), stack: self.stack.push(self.pc), ..self })
        }
    }

    /// 3XKK: skip if `VX == KK`.
    pub open spec fn se_vx_byte(self, word: u16) -> Effect {
        self.skip_if(self.v[x_of(word) as int] == kk_of(word))
    }

    /// 4XKK: skip if `VX != KK`.
    pub open spec fn sne_vx_byte(self, word: u16) -> Effect {
        self.skip_if(self.v[x_of(word) as int] != kk_of(word))
    }

    /// 5XY2: store the registers from `VX` to `VY` at `I`.
    pub open spec fn save_registers_range(self, word: u16) -> Effect {
        let x = x_of(word) as int;
        let y = y_of(word) as int;
        self.store(Seq::new(range_count(x, y) as nat, |k: int| self.v[range_register(x, y, k)]))
    }

    /// 5XY3: load the registers from `VX` to `VY` from `I`.
    pub open spec fn load_registers_range(self, word: u16) -> Machine {
        let x = x_of(word) as int;
        let y = y_of(word) as int;
        Machine {
            v: Seq::new(
                16,
                |r: int|
                    if x <= r <= y {
                        self.byte_at_i(r - x)
                    } else if y <= r <= x {
                        self.byte_at_i(x - r)
                    } else {
                        self.v[r]
                    },
            ),
            ..self
        }
    }

    /// 5XY0: skip if `VX == VY`.
    pub open spec fn se_vx_vy(self, word: u16) -> Effect {
        self.skip_if(self.v[x_of(word) as int] == self.v[y_of(word) as int])
    }

    /// 6XKK: `VX = KK`.
    pub open spec fn ld_vx_byte(self, word: u16) -> Machine {
        self.with_v(x_of(word) as int, kk_of(word))
    }

    /// 7XKK: `VX = VX + KK`, wrapped to a byte; the flag stays as it is.
    pub open spec fn add_vx_byte(self, word: u16) -> Machine {
        self.with_v(x_of(word) as int, ((self.v[x_of(word) as int] + kk_of(word)) % 256) as u8)
    }

    /// 8XY0: `VX = VY`.
    pub open spec fn ld_vx_vy(self, word: u16) -> Machine {
        self.with_v(x_of(word) as int, self.v[y_of(word) as int])
    }

    /// The end of 8XY1, 8XY2 and 8XY3: `VX` gets the result, and under the
    /// quirk the flag is reset after that.
    pub open spec fn binary_op(self, word: u16, result: u8) -> Machine {
        let written = self.with_v(x_of(word) as int, result);
        if self.has(Quirks::BinaryOpResetVF) {
            written.with_flag(0)
        } else {
            written
        }
    }

    /// 8XY1: `VX = VX | VY`.
    pub open spec fn or_vx_vy(self, word: u16) -> Machine {
        self.binary_op(word, self.v[x_of(word) as int] | self.v[y_of(word) as int])
    }

    /// 8XY2: `VX = VX & VY`.
    pub open spec fn and_vx_vy(self, word: u16) -> Machine {
        self.binary_op(word, self.v[x_of(word) as int] & self.v[y_of(word) as int])
    }

    /// 8XY3: `VX = VX ^ VY`.
    pub open spec fn xor_vx_vy(self, word: u16) -> Machine {
        self.binary_op(word, self.v[x_of(word) as int] ^ self.v[y_of(word) as int])
    }

    /// 8XY4: `VX = VX + VY`, wrapped to a byte; then the flag tells whether
    /// the sum was more than a byte holds.
    pub open spec fn add_vx_vy(self, word: u16) -> Machine {
        let sum = self.v[x_of(word) as int] + self.v[y_of(word) as int];
        self.with_v(x_of(word) as int, (sum % 256) as u8).with_flag(
            if sum > 255 {
                1
            } else {
                0
            },
        )
    }

    /// 8XY5: `VX = VX - VY`, wrapped to a byte; then the flag tells whether
    /// nothing was borrowed: whether `VX >= VY` held before.
    pub open spec fn sub_vx_vy(self, word: u16) -> Machine {
        let minuend = self.v[x_of(word) as int];
        let subtrahend = self.v[y_of(word) as int];
        self.with_v(x_of(word) as int, ((minuend - subtrahend) % 256) as u8).with_flag(
            if minuend >= subtrahend {
                1
            } else {
                0
            },
        )
    }

    /// The register that 8XY6 and 8XYE shift: `VX` under the quirk, else `VY`.
    pub open spec fn shift_source(self, word: u16) -> int {
        if self.has(Quirks::ShiftIgnoreVY) {
            x_of(word) as int
        } else {
            y_of(word) as int
        }
    }

    /// 8XY6: `VX` gets the source shifted right by one; then the flag gets
    /// the bit shifted out.
    pub open spec fn shr_vx(self, word: u16) -> Machine {
        let value = self.v[self.shift_source(word)];
        self.with_v(x_of(word) as int, value / 2).with_flag(value % 2)
    }

    /// 8XY7: `VX = VY - VX`, wrapped to a byte; then the flag tells whether
    /// nothing was borrowed: whether `VY >= VX` held before.
    pub open spec fn subn_vx_vy(self, word: u16) -> Machine {
        let minuend = self.v[y_of(word) as int];
        let subtrahend = self.v[x_of(word) as int];
        self.with_v(x_of(word) as int, ((minuend - subtrahend) % 256) as u8).with_flag(
            if minuend >= subtrahend {
                1
            } else {
                0
            },
        )
    }

    /// 8XYE: `VX` gets the source shifted left by one; then the flag gets the
    /// bit shifted out.
    pub open spec fn shl_vx(self, word: u16) -> Machine {
        let value = self.v[self.shift_source(word)];
        self.with_v(x_of(word) as int, ((value * 2) % 256) as u8).with_flag(value / 128)
    }

    /// 9XY0: skip if `VX != VY`.
    pub open spec fn sne_vx_vy(self, word: u16) -> Effect {
        self.skip_if(self.v[x_of(word) as int] != self.v[y_of(word) as int])
    }

    /// ANNN: `I = NNN`.
    pub open spec fn ld_i_addr(self, word: u16) -> Machine {
        self.with_i(nnn_of(word) as int)
    }

    /// BNNN: jump to `NNN + V0`; under the quirk, to `XNN + VX`.
    pub open spec fn jp_vo_addr(self, word: u16) -> Machine {
        let register = if self.has(Quirks::JumpWithX) {
            x_of(word) as int
        } else {
            0
        };
        self.with_pc((nnn_of(word) + self.v[register]) as u16)
    }

    /// CXKK: `VX = random & KK`.
    pub open spec fn rnd_vx_byte(self, word: u16, random: u8) -> Machine {
        self.with_v(x_of(word) as int, random & kk_of(word))
    }

    /// Whether DXYN draws a sprite of 16 rows of 16 pixels: in the high
    /// resolution, where N is 0.
    pub open spec fn draws_large(self, word: u16) -> bool {
        self.screen.hires && n_of(word) == 0
    }

    /// The number of bytes that one plane's sprite takes in memory.
    pub open spec fn sprite_bytes(self, word: u16) -> int {
        if self.draws_large(word) {
            32
        } else {
            n_of(word) as int
        }
    }

    /// The rows of the sprite that DXYN reads at `addr`.
    pub open spec fn sprite_rows(self, word: u16, addr: int) -> Seq<u16> {
        if self.draws_large(word) {
            word_span(self.memory, addr, 16)
        } else {
            byte_rows(span(self.memory, addr, n_of(word) as int))
        }
    }

    /// The screen and the collision after one plane's share of DXYN: the
    /// sprite read at `addr` is drawn at column `VX` and line `VY`.
    pub open spec fn drawn(self, word: u16, plane: Plane, addr: int) -> (Screen, bool) {
        let sprite = self.screen.place(
            self.v[x_of(word) as int] as int,
            self.v[y_of(word) as int] as int,
            self.sprite_rows(word, addr),
            if self.draws_large(word) {
                16
            } else {
                8
            },
        );
        (self.screen.draw(plane, sprite), self.screen.draw_collides(plane, sprite))
    }

    /// DXYN: draw the sprite at `I` on the selected plane; then the flag
    /// tells whether a pixel was unset. With both planes selected, the first
    /// plane gets the sprite at `I` and the second the one behind it, and the
    /// flag tells whether either draw unset a pixel.
    pub open spec fn drw_vx_vy_n(self, word: u16) -> Effect {
        let size = self.sprite_bytes(word);
        let second = masked(self.i + size);
        match self.screen.selected {
            Plane::Both => match first_unreadable(self.i, size) {
                Some(failing) => Err(Fault::OutOfBounds(failing)),
                None => match first_unreadable(second, size) {
                    Some(failing) => Err(Fault::OutOfBounds(failing)),
                    None => {
                        let (screen1, erased1) = self.drawn(word, Plane::First, self.i as int);
                        let (screen2, erased2) = self.with_screen(screen1).drawn(
                            word,
                            Plane::Second,
                            second as int,
                        );
                        Ok(
                            self.with_screen(screen2).with_flag(
                                if erased1 || erased2 {
                                    1
                                } else {
                                    0
                                },
                            ),
                        )
                    },
                },
            },
            plane => match first_unreadable(self.i, size) {
                Some(failing) => Err(Fault::OutOfBounds(failing)),
                None => {
                    let (screen, erased) = self.drawn(word, plane, self.i as int);
                    Ok(
                        self.with_screen(screen).with_flag(
                            if erased {
                                1
                            } else {
                                0
                            },
                        ),
                    )
                },
            },
        }
    }

    /// The end of EX9E and EXA1: `VX` has to name a key.
    pub open spec fn skip_on_key(self, word: u16, pressed: bool) -> Effect {
        let key = self.v[x_of(word) as int];
        if key >= 16 {
            Err(Fault::InvalidKey(key))
        } else {
            self.skip_if(self.keys[key as int] == pressed)
        }
    }

    /// EX9E: skip if the key `VX` is held down.
    pub open spec fn skp_vx(self, word: u16) -> Effect {
        self.skip_on_key(word, true)
    }

    /// EXA1: skip if the key `VX` is not held down.
    pub open spec fn sknp_vx(self, word: u16) -> Effect {
        self.skip_on_key(word, false)
    }

    /// F000 NNNN: `I = NNNN`, the word behind the instruction.
    pub open spec fn load_i(self) -> Effect {
        match self.fetch() {
            Ok(address) => Ok(self.advanced().with_i(address as int)),
            Err(fault) => Err(fault),
        }
    }

    /// FX01: select the planes that the bitmask X names; 0 names none and
    /// leaves the selection as it is.
    pub open spec fn set_plane(self, word: u16) -> Effect {
        let mask = x_of(word);
        if mask == 0 {
            Ok(self)
        } else if mask == 1 {
            Ok(self.with_screen(Screen { selected: Plane::First, ..self.screen }))
        } else if mask == 2 {
            Ok(self.with_screen(Screen { selected: Plane::Second, ..self.screen }))
        } else if mask == 3 {
            Ok(self.with_screen(Screen { selected: Plane::Both, ..self.screen }))
        } else {
            Err(Fault::InvalidPlane(mask))
        }
    }

    /// F002: load the audio pattern with the 16 bytes at `I`.
    pub open spec fn load_audio_buffer(self) -> Effect {
        match first_unreadable(self.i, 16) {
            Some(failing) => Err(Fault::OutOfBounds(failing)),
            None => Ok(Machine { audio: span(self.memory, self.i as int, 16), ..self }),
        }
    }

    /// FX07: `VX` = delay timer.
    pub open spec fn ld_vx_dt(self, word: u16) -> Machine {
        self.with_v(x_of(word) as int, self.delay)
    }

    /// FX0A: `VX` = the lowest key held down; with no key held down, the
    /// instruction is the next one again.
    pub open spec fn ld_vx_k(self, word: u16) -> Machine {
        match first_pressed(self.keys) {
            Some(key) => self.with_v(x_of(word) as int, key),
            None => self.with_pc((self.pc - 2) as u16),
        }
    }

    /// FX15: delay timer = `VX`.
    pub open spec fn ld_dt_vx(self, word: u16) -> Machine {
        Machine { delay: self.v[x_of(word) as int], ..self }
    }

    /// FX18: sound timer = `VX`.
    pub open spec fn ld_st_vx(self, word: u16) -> Machine {
        Machine { sound: self.v[x_of(word) as int], ..self }
    }

    /// FX1E: `I = I + VX`, masked.
    pub open spec fn add_i_vx(self, word: u16) -> Machine {
        self.with_i(self.i + self.v[x_of(word) as int])
    }

    /// The end of FX29 and FX30: `I` = the address of the glyph of digit `VX`.
    pub open spec fn point_at_glyph(self, word: u16, resolution: ScreenResolution) -> Effect {
        let digit = self.v[x_of(word) as int];
        match font_address(self.mode, digit, resolution) {
            Some(address) => Ok(self.with_i(address as int)),
            None => Err(Fault::InvalidFontDigit(digit)),
        }
    }

    /// FX29: `I` = the address of the small glyph of digit `VX`.
    pub open spec fn ld_f_vx(self, word: u16) -> Effect {
        self.point_at_glyph(word, ScreenResolution::Lores)
    }

    /// FX30: `I` = the address of the large glyph of digit `VX`.
    pub open spec fn load_10_byte_font_to_i(self, word: u16) -> Effect {
        self.point_at_glyph(word, ScreenResolution::Hires)
    }

    /// FX33: store the three decimal digits of `VX` at `I`.
    pub open spec fn ld_b_vx(self, word: u16) -> Effect {
        self.store(decimal_digits(self.v[x_of(word) as int]))
    }

    /// FX3A: set the playback rate of the audio pattern from `VX`.
    pub open spec fn set_pitch(self, word: u16) -> Effect {
        let value = self.v[x_of(word) as int];
        if value < 64 {
            Err(Fault::InvalidPitch(value))
        } else {
            Ok(Machine { pitch: pitch_of(value), ..self })
        }
    }

    /// FX55: store `V0` to `VX` at `I`.
    pub open spec fn ld_i_vx(self, word: u16) -> Effect {
        let x = x_of(word) as int;
        match self.store(self.v.subrange(0, x + 1)) {
            Ok(machine) => Ok(machine.after_transfer(x)),
            Err(fault) => Err(fault),
        }
    }

    /// FX65: load `V0` to `VX` from `I`.
    pub open spec fn ld_vx_i(self, word: u16) -> Machine {
        let x = x_of(word) as int;
        Machine {
            v: Seq::new(
                16,
                |r: int|
                    if r <= x {
                        self.byte_at_i(r)
                    } else {
                        self.v[r]
                    },
            ),
            ..self
        }.after_transfer(x)
    }

    /// The fault of FX75 and FX85: SUPER-CHIP transfers 8 registers at most.
    pub open spec fn rpl_fault(self, word: u16) -> Option<Fault> {
        if self.mode == ChipMode::SuperChip && x_of(word) > 7 {
            Some(Fault::InvalidRplCount(x_of(word)))
        } else {
            None
        }
    }

    /// FX75: save `V0` to `VX` in the flag store.
    pub open spec fn load_rpl_flags(self, word: u16) -> Effect {
        let count = rpl_count(x_of(word) as int);
        match self.rpl_fault(word) {
            Some(fault) => Err(fault),
            None => Ok(Machine { flags: self.v.subrange(0, count) + self.flags.subrange(count, 8), ..self }),
        }
    }

    /// FX85: restore `V0` to `VX` from the flag store.
    pub open spec fn read_rpl_flags(self, word: u16) -> Effect {
        let count = rpl_count(x_of(word) as int);
        match self.rpl_fault(word) {
            Some(fault) => Err(fault),
            None => Ok(Machine { v: self.flags.subrange(0, count) + self.v.subrange(count, 16), ..self }),
        }
    }

    /// The machine after a frame's tick of both timers.
    pub open spec fn tick_timers(self) -> Machine {
        Machine { delay: ticked(self.delay), sound: ticked(self.sound), ..self }
    }
}

/// An effect that cannot fail, and goes on.
pub open spec fn goes_on(machine: Machine) -> (Effect, Signal) {
    (Ok(machine), Signal::Continue)
}

/// An effect that may fail, and goes on if it does not.
pub open spec fn may_fail(effect: Effect) -> (Effect, Signal) {
    (effect, Signal::Continue)
}

/// A word that is no instruction of the platform: it is refused.
pub open spec fn refused() -> (Effect, Signal) {
    (Err(Fault::UnknownInstruction), Signal::Continue)
}

/// An instruction that only some platforms have: where the platform is not
/// one of them, the word is refused.
pub open spec fn only_on(available: bool, outcome: (Effect, Signal)) -> (Effect, Signal) {
    if available {
        outcome
    } else {
        refused()
    }
}

/// What the instruction `word` makes of a machine whose program counter is
/// already behind it. Which instructions there are depends on the platform:
/// CHIP-8 refuses the instructions that SUPER-CHIP added, and both refuse
/// those that XO-CHIP added. A word that is no instruction of the platform
/// is refused. On CHIP-8 a word `0NNN` that is no instruction of any
/// platform calls machine code at `NNN`, which is carried out as a jump.
pub open spec fn dispatch(machine: Machine, word: u16, random: u8) -> (Effect, Signal) {
    let m = machine;
    let extended = m.mode.is_extended();
    let xo = m.mode == ChipMode::XOChip;
    match (opcode_of(word), x_of(word), y_of(word), n_of(word)) {
        (0, 0, 0xC, n) if n > 0 => only_on(extended, goes_on(m.scroll_n_lines_down(word))),
        (0, 0, 0xD, _) => only_on(xo, goes_on(m.scroll_n_lines_up(word))),
        (0, 0, 0xE, 0) => goes_on(m.cls()),
        (0, 0, 0xE, 0xE) => may_fail(m.ret()),
        (0, 0, 0xF, 0xB) => only_on(extended, goes_on(m.scroll_display_4_px_right())),
        (0, 0, 0xF, 0xC) => only_on(extended, goes_on(m.scroll_display_4_px_left())),
        (0, 0, 0xF, 0xD) => only_on(extended, (Ok(m), Signal::Exit)),
        (0, 0, 0xF, 0xE) => only_on(extended, goes_on(m.disable_hires())),
        (0, 0, 0xF, 0xF) => only_on(extended, goes_on(m.enable_hires())),
        (0, _, _, _) if !extended => goes_on(m.jp_addr(word)),
        (1, _, _, _) => goes_on(m.jp_addr(word)),
        (2, _, _, _) => may_fail(m.call_addr(word)),
        (3, _, _, _) => may_fail(m.se_vx_byte(word)),
        (4, _, _, _) => may_fail(m.sne_vx_byte(word)),
        (5, _, _, 2) => only_on(xo, may_fail(m.save_registers_range(word))),
        (5, _, _, 3) => only_on(xo, goes_on(m.load_registers_range(word))),
        (5, _, _, 0) => may_fail(m.se_vx_vy(word)),
        (6, _, _, _) => goes_on(m.ld_vx_byte(word)),
        (7, _, _, _) => goes_on(m.add_vx_byte(word)),
        (8, _, _, 0) => goes_on(m.ld_vx_vy(word)),
        (8, _, _, 1) => goes_on(m.or_vx_vy(word)),
        (8, _, _, 2) => goes_on(m.and_vx_vy(word)),
        (8, _, _, 3) => goes_on(m.xor_vx_vy(word)),
        (8, _, _, 4) => goes_on(m.add_vx_vy(word)),
        (8, _, _, 5) => goes_on(m.sub_vx_vy(word)),
        (8, _, _, 6) => goes_on(m.shr_vx(word)),
        (8, _, _, 7) => goes_on(m.subn_vx_vy(word)),
        (8, _, _, 0xE) => goes_on(m.shl_vx(word)),
        (9, _, _, 0) => may_fail(m.sne_vx_vy(word)),
        (0xA, _, _, _) => goes_on(m.ld_i_addr(word)),
        (0xB, _, _, _) => goes_on(m.jp_vo_addr(word)),
        (0xC, _, _, _) => goes_on(m.rnd_vx_byte(word, random)),
        (0xD, _, _, _) => may_fail(m.drw_vx_vy_n(word)),
        (0xE, _, 0x9, 0xE) => may_fail(m.skp_vx(word)),
        (0xE, _, 0xA, 1) => may_fail(m.sknp_vx(word)),
        (0xF, 0, 0, 0) => only_on(xo, may_fail(m.load_i())),
        (0xF, _, 0, 1) => only_on(xo, may_fail(m.set_plane(word))),
        (0xF, 0, 0, 2) => only_on(xo, may_fail(m.load_audio_buffer())),
        (0xF, _, 0, 7) => goes_on(m.ld_vx_dt(word)),
        (0xF, _, 0, 0xA) => goes_on(m.ld_vx_k(word)),
        (0xF, _, 1, 5) => goes_on(m.ld_dt_vx(word)),
        (0xF, _, 1, 8) => goes_on(m.ld_st_vx(word)),
        (0xF, _, 1, 0xE) => goes_on(m.add_i_vx(word)),
        (0xF, _, 2, 9) => may_fail(m.ld_f_vx(word)),
        (0xF, _, 3, 0) => only_on(extended, may_fail(m.load_10_byte_font_to_i(word))),
        (0xF, _, 3, 3) => may_fail(m.ld_b_vx(word)),
        (0xF, _, 3, 0xA) => only_on(xo, may_fail(m.set_pitch(word))),
        (0xF, _, 5, 5) => may_fail(m.ld_i_vx(word)),
        (0xF, _, 6, 5) => goes_on(m.ld_vx_i(word)),
        (0xF, _, 7, 5) => only_on(extended, may_fail(m.load_rpl_flags(word))),
        (0xF, _, 8, 5) => only_on(extended, may_fail(m.read_rpl_flags(word))),
        _ => refused(),
    }
}

/// One step of the machine: fetch the word at the program counter, move the
/// program counter behind it, and carry the instruction out. `random` is the
/// byte that the step uses where the instruction asks for a random one. A
/// step that is refused leaves the machine as it was.
pub open spec fn step(machine: Machine, random: u8) -> (Machine, Result<Signal, ExecutionError>) {
    match machine.fetch() {
        Err(fault) => (machine, Err(ExecutionError { address: machine.pc, instruction: None, fault })),
        Ok(word) => match dispatch(machine.advanced(), word, random) {
            (Ok(next), signal) => (next, Ok(signal)),
            (Err(fault), _) => (
                machine,
                Err(ExecutionError { address: machine.pc, instruction: Some(word), fault }),
            ),
        },
    }
}

/// The machine after as many steps as `randoms` has bytes, one byte for each
/// step, or as many as there were until a step was refused or the program
/// asked to exit.
pub open spec fn run_steps(machine: Machine, randoms: Seq<u8>) -> (Machine, Result<Signal, ExecutionError>)
    decreases randoms.len(),
{
    if randoms.len() == 0 {
        (machine, Ok(Signal::Continue))
    } else {
        let (reached, outcome) = run_steps(machine, randoms.drop_last());
        if outcome == Ok::<Signal, ExecutionError>(Signal::Continue) {
            step(reached, randoms.last())
        } else {
            (reached, outcome)
        }
    }
}

/// One frame: the steps, then one tick of both timers. The timers are not
/// ticked where the frame ends early.
pub open spec fn run_frame(machine: Machine, randoms: Seq<u8>) -> (Machine, Result<Signal, ExecutionError>) {
    let (reached, outcome) = run_steps(machine, randoms);
    if outcome == Ok::<Signal, ExecutionError>(Signal::Continue) {
        (reached.tick_timers(), outcome)
    } else {
        (reached, outcome)
    }
}

/// `FX55` is carried out exactly where the `X + 1` bytes from `I` on lie in
/// the program and data space.
pub proof fn lemma_store_is_owed(machine: Machine, store: u16)
    requires
        machine.wf(),
    ensures
        machine.ld_i_vx(store) is Ok <==> 0x200 <= machine.i && machine.i + x_of(store) <= 0xFFF,
{
}

/// Storing `V0` to `VX` at `I` with `FX55` and loading them with `FX65` from
/// the same `I` into registers that were all set to zero gives `V0` to `VX`
/// their values back. The load leaves the registers above `VX` at zero and
/// the memory as the store left it.
pub proof fn lemma_store_then_load(machine: Machine, store: u16, load: u16)
    requires
        machine.wf(),
        x_of(store) == x_of(load),
        machine.ld_i_vx(store) is Ok,
    ensures
        ({
            let stored = machine.ld_i_vx(store)->Ok_0;
            let zeroed = Machine { v: Seq::new(16, |r: int| 0u8), i: machine.i, ..stored };
            let loaded = zeroed.ld_vx_i(load);
            &&& forall|r: int| 0 <= r <= x_of(store) ==> loaded.v[r] == machine.v[r]
            &&& forall|r: int| x_of(store) < r < 16 ==> loaded.v[r] == 0
            &&& loaded.memory == stored.memory
            &&& forall|r: int|
                0 <= r <= x_of(store) ==> stored.memory[machine.i + r] == machine.v[r]
        }),
{
    let x = x_of(store) as int;
    let stored = machine.ld_i_vx(store)->Ok_0;
    let zeroed = Machine { v: Seq::new(16, |r: int| 0u8), i: machine.i, ..stored };
    let loaded = zeroed.ld_vx_i(load);
    assert(store_fault(machine.i, x + 1) is None);
    assert forall|r: int| 0 <= r <= x implies loaded.v[r] == machine.v[r] && stored.memory[machine.i
        + r] == machine.v[r] by {
        assert(masked(machine.i + r) == machine.i + r);
        assert(zeroed.byte_at_i(r) == stored.memory[machine.i + r]);
        assert(machine.v.subrange(0, x + 1)[r] == machine.v[r]);
    }
}

/// Whether SUPER-CHIP added the instruction: `00CN` with N above 0, `00FB`
/// to `00FF`, `FX30`, `FX75` and `FX85`.
pub open spec fn added_by_super_chip(word: u16) -> bool {
    let (opcode, x, y, n) = (opcode_of(word), x_of(word), y_of(word), n_of(word));
    ||| opcode == 0 && x == 0 && y == 0xC && n > 0
    ||| opcode == 0 && x == 0 && y == 0xF && n >= 0xB
    ||| opcode == 0xF && y == 3 && n == 0
    ||| opcode == 0xF && y == 7 && n == 5
    ||| opcode == 0xF && y == 8 && n == 5
}

/// Whether XO-CHIP added the instruction: `00DN`, `5XY2`, `5XY3`, `F000`,
/// `FX01`, `F002` and `FX3A`.
pub open spec fn added_by_xo_chip(word: u16) -> bool {
    let (opcode, x, y, n) = (opcode_of(word), x_of(word), y_of(word), n_of(word));
    ||| opcode == 0 && x == 0 && y == 0xD
    ||| opcode == 5 && (n == 2 || n == 3)
    ||| opcode == 0xF && x == 0 && y == 0 && n == 0
    ||| opcode == 0xF && y == 0 && n == 1
    ||| opcode == 0xF && x == 0 && y == 0 && n == 2
    ||| opcode == 0xF && y == 3 && n == 0xA
}

/// A platform refuses the instructions that a later platform added: CHIP-8
/// those of SUPER-CHIP and of XO-CHIP, SUPER-CHIP those of XO-CHIP. The step
/// is refused with the word in the error, and the machine stays as it was.
pub proof fn lemma_later_instructions_are_refused(machine: Machine, word: u16, random: u8)
    requires
        machine.fetch() == Ok::<u16, Fault>(word),
        (machine.mode == ChipMode::Chip8 && added_by_super_chip(word)) || (machine.mode
            != ChipMode::XOChip && added_by_xo_chip(word)),
    ensures
        step(machine, random) == (
            machine,
            Err::<Signal, ExecutionError>(
                ExecutionError {
                    address: machine.pc,
                    instruction: Some(word),
                    fault: Fault::UnknownInstruction,
                },
            ),
        ),
{
}

/// Of the words `5XYN`, `5XY0` alone is an instruction of every platform,
/// and of the words `9XYN`, `9XY0` alone: no platform compares registers on
/// any other of them.
pub proof fn lemma_compares_end_in_zero(machine: Machine, word: u16, random: u8)
    requires
        opcode_of(word) == 5 || opcode_of(word) == 9,
        n_of(word) != 0,
        !(machine.mode == ChipMode::XOChip && added_by_xo_chip(word)),
    ensures
        dispatch(machine, word, random) == refused(),
{
}

/// Whether `after` and `result` are what one step with the given random byte
/// leaves of the machine `before`.
pub open spec fn is_step(
    before: Machine,
    random: u8,
    after: Machine,
    result: Result<Signal, ExecutionError>,
) -> bool {
    after == step(before, random).0 && result == step(before, random).1
}

/// The outcome of a step, as a frame that is driven step by step reports it.
pub open spec fn progress_of(outcome: Result<Signal, ExecutionError>) -> Result<Progress, ExecutionError> {
    match outcome {
        Ok(Signal::Continue) => Ok(Progress::Instruction),
        Ok(Signal::Exit) => Ok(Progress::Exit),
        Err(error) => Err(error),
    }
}

/// Whether `after` and `result` are what the next move of a frame leaves of
/// the machine `before`, after `executed` instructions of the frame: one
/// more step while the frame has instructions left, and the tick of both
/// timers that ends the frame once it has none.
pub open spec fn is_frame_step(
    before: Machine,
    executed: u32,
    random: u8,
    after: Machine,
    result: Result<Progress, ExecutionError>,
) -> bool {
    if executed < before.ticks_per_frame {
        after == step(before, random).0 && result == progress_of(step(before, random).1)
    } else {
        after == before.tick_timers() && result == Ok::<Progress, ExecutionError>(Progress::FrameEnd)
    }
}

/// Whether `after` and `result` are what one frame leaves of the machine
/// `before`, with one random byte for each step that was made: as many
/// steps as a frame has instructions, or fewer where the frame ended early.
pub open spec fn is_frame(
    before: Machine,
    randoms: Seq<u8>,
    after: Machine,
    result: Result<Signal, ExecutionError>,
) -> bool {
    &&& randoms.len() <= before.ticks_per_frame
    &&& result == Ok::<Signal, ExecutionError>(Signal::Continue) ==> randoms.len()
        == before.ticks_per_frame
    &&& after == run_frame(before, randoms).0
    &&& result == run_frame(before, randoms).1
}

/// The random byte matters to the instruction `CXKK` alone: a step on any
/// other word comes out the same whatever the byte is.
pub proof fn lemma_random_is_for_rnd_alone(machine: Machine, first: u8, second: u8)
    requires
        machine.fetch() matches Ok(word) ==> opcode_of(word) != 0xC,
    ensures
        step(machine, first) == step(machine, second),
{
}

/// A machine starts with its invariants in place.
pub proof fn lemma_initial_is_wf(
    mode: ChipMode,
    quirks: Set<Quirks>,
    program: Seq<u8>,
    ticks_per_frame: u32,
    sleep_time: Option<u8>,
)
    ensures
        Machine::initial(mode, quirks, program, ticks_per_frame, sleep_time).wf(),
{
}

/// No step breaks the invariants of the machine: the reserved region keeps
/// the fonts, `I` stays in the address space, the stack stays within its 16
/// levels and the planes keep their size.
pub proof fn lemma_step_keeps_wf(machine: Machine, random: u8)
    requires
        machine.wf(),
    ensures
        step(machine, random).0.wf(),
{
    match machine.fetch() {
        Err(_) => {},
        Ok(word) => {
            let fetched = machine.advanced();
            lemma_dispatch_keeps_wf(fetched, word, random);
        },
    }
}

/// Whether an instruction that was carried out left the invariants of the
/// machine in place.
pub open spec fn keeps_wf(effect: Effect) -> bool {
    effect matches Ok(next) ==> next.wf()
}

proof fn lemma_screen_instructions_keep_wf(machine: Machine, word: u16)
    requires
        machine.wf(),
    ensures
        machine.scroll_n_lines_down(word).wf(),
        machine.scroll_n_lines_up(word).wf(),
        machine.cls().wf(),
        machine.scroll_display_4_px_right().wf(),
        machine.scroll_display_4_px_left().wf(),
        machine.disable_hires().wf(),
        machine.enable_hires().wf(),
        keeps_wf(machine.set_plane(word)),
{
    let sprite = machine.screen.place(0, 0, Seq::empty(), 8);
    lemma_operations_keep_wf(machine.screen, Plane::First, sprite, n_of(word) as int);
}

#[verifier::rlimit(40)]
proof fn lemma_flow_instructions_keep_wf(machine: Machine, word: u16)
    requires
        machine.wf(),
    ensures
        keeps_wf(machine.ret()),
        machine.jp_addr(word).wf(),
        keeps_wf(machine.call_addr(word)),
        keeps_wf(machine.se_vx_byte(word)),
        keeps_wf(machine.sne_vx_byte(word)),
        keeps_wf(machine.se_vx_vy(word)),
        keeps_wf(machine.sne_vx_vy(word)),
        machine.jp_vo_addr(word).wf(),
        keeps_wf(machine.skp_vx(word)),
        keeps_wf(machine.sknp_vx(word)),
        keeps_wf(machine.load_i()),
        machine.ld_vx_k(word).wf(),
{
}

#[verifier::rlimit(40)]
proof fn lemma_register_instructions_keep_wf(machine: Machine, word: u16, random: u8)
    requires
        machine.wf(),
    ensures
        machine.ld_vx_byte(word).wf(),
        machine.add_vx_byte(word).wf(),
        machine.ld_vx_vy(word).wf(),
        machine.or_vx_vy(word).wf(),
        machine.and_vx_vy(word).wf(),
        machine.xor_vx_vy(word).wf(),
        machine.add_vx_vy(word).wf(),
        machine.sub_vx_vy(word).wf(),
        machine.shr_vx(word).wf(),
        machine.subn_vx_vy(word).wf(),
        machine.shl_vx(word).wf(),
        machine.ld_i_addr(word).wf(),
        machine.rnd_vx_byte(word, random).wf(),
        machine.ld_vx_dt(word).wf(),
        machine.ld_dt_vx(word).wf(),
        machine.ld_st_vx(word).wf(),
        machine.add_i_vx(word).wf(),
        keeps_wf(machine.ld_f_vx(word)),
        keeps_wf(machine.load_10_byte_font_to_i(word)),
        keeps_wf(machine.set_pitch(word)),
{
}

#[verifier::rlimit(40)]
proof fn lemma_memory_instructions_keep_wf(machine: Machine, word: u16)
    requires
        machine.wf(),
    ensures
        keeps_wf(machine.save_registers_range(word)),
        machine.load_registers_range(word).wf(),
        keeps_wf(machine.ld_b_vx(word)),
        keeps_wf(machine.ld_i_vx(word)),
        machine.ld_vx_i(word).wf(),
        keeps_wf(machine.load_rpl_flags(word)),
        keeps_wf(machine.read_rpl_flags(word)),
        keeps_wf(machine.load_audio_buffer()),
{
}

#[verifier::rlimit(40)]
proof fn lemma_dispatch_keeps_wf(machine: Machine, word: u16, random: u8)
    requires
        machine.wf(),
    ensures
        keeps_wf(dispatch(machine, word, random).0),
{
    lemma_screen_instructions_keep_wf(machine, word);
    lemma_flow_instructions_keep_wf(machine, word);
    lemma_register_instructions_keep_wf(machine, word, random);
    lemma_memory_instructions_keep_wf(machine, word);
    lemma_draw_keeps_wf(machine, word);
}

#[verifier::rlimit(40)]
proof fn lemma_draw_keeps_wf(machine: Machine, word: u16)
    requires
        machine.wf(),
    ensures
        keeps_wf(machine.drw_vx_vy_n(word)),
{
    let m = machine;
    let size = m.sprite_bytes(word);
    let second = masked(m.i + size);
    match m.screen.selected {
        Plane::Both => {
            let (screen1, erased1) = m.drawn(word, Plane::First, m.i as int);
            let large = if m.draws_large(word) {
                16int
            } else {
                8int
            };
            let sprite1 = m.screen.place(
                m.v[x_of(word) as int] as int,
                m.v[y_of(word) as int] as int,
                m.sprite_rows(word, m.i as int),
                large,
            );
            lemma_operations_keep_wf(m.screen, Plane::First, sprite1, 0);
            let sprite2 = screen1.place(
                m.v[x_of(word) as int] as int,
                m.v[y_of(word) as int] as int,
                m.sprite_rows(word, second as int),
                large,
            );
            lemma_operations_keep_wf(screen1, Plane::Second, sprite2, 0);
        },
        plane => {
            let large = if m.draws_large(word) {
                16int
            } else {
                8int
            };
            let sprite = m.screen.place(
                m.v[x_of(word) as int] as int,
                m.v[y_of(word) as int] as int,
                m.sprite_rows(word, m.i as int),
                large,
            );
            lemma_operations_keep_wf(m.screen, plane, sprite, 0);
        },
    }
}

/// Whether two machines were made for the same platform, with the same
/// quirks and the same speed.
pub open spec fn same_configuration(first: Machine, second: Machine) -> bool {
    &&& first.mode == second.mode
    &&& first.quirks == second.quirks
    &&& first.ticks_per_frame == second.ticks_per_frame
    &&& first.sleep_time == second.sleep_time
}

#[verifier::rlimit(40)]
proof fn lemma_dispatch_keeps_configuration(machine: Machine, word: u16, random: u8)
    ensures
        dispatch(machine, word, random).0 matches Ok(next) ==> same_configuration(machine, next),
{
}

/// No step changes the platform, the quirks or the speed of the machine.
pub proof fn lemma_step_keeps_configuration(machine: Machine, random: u8)
    ensures
        same_configuration(machine, step(machine, random).0),
{
    match machine.fetch() {
        Err(_) => {},
        Ok(word) => {
            lemma_dispatch_keeps_configuration(machine.advanced(), word, random);
        },
    }
}

/// Nor does any number of steps.
pub proof fn lemma_steps_keep_configuration(machine: Machine, randoms: Seq<u8>)
    ensures
        same_configuration(machine, run_steps(machine, randoms).0),
    decreases randoms.len(),
{
    if randoms.len() > 0 {
        lemma_steps_keep_configuration(machine, randoms.drop_last());
        lemma_step_keeps_configuration(run_steps(machine, randoms.drop_last()).0, randoms.last());
    }
}

/// A frame that is driven move by move is the frame that is run at once.
/// After the steps that took the bytes of `randoms`, none of which ended the
/// frame, a move with the byte `random` is the next step of the frame while
/// the frame has instructions left, and ends the frame when it has none.
pub proof fn lemma_frame_move_by_move(
    machine: Machine,
    randoms: Seq<u8>,
    random: u8,
    after: Machine,
    result: Result<Progress, ExecutionError>,
)
    requires
        randoms.len() <= machine.ticks_per_frame,
        run_steps(machine, randoms).1 == Ok::<Signal, ExecutionError>(Signal::Continue),
        is_frame_step(run_steps(machine, randoms).0, randoms.len() as u32, random, after, result),
    ensures
        randoms.len() < machine.ticks_per_frame ==> after == run_steps(machine, randoms.push(random)).0
            && result == progress_of(run_steps(machine, randoms.push(random)).1),
        randoms.len() == machine.ticks_per_frame ==> result == Ok::<Progress, ExecutionError>(
            Progress::FrameEnd,
        ) && is_frame(machine, randoms, after, Ok(Signal::Continue)),
{
    lemma_steps_keep_configuration(machine, randoms);
    assert(randoms.push(random).drop_last() =~= randoms);
}

} // verus!
