//! The 4 KiB memory with its reserved font region, and the persistent flag
//! store beside it.
//!
//! ```text
//! +---------------+= 0xFFF (4095) end of memory
//! |               |
//! | 0x200 to 0xFFF|
//! |  program and  |
//! |     data      |
//! |               |
//! +---------------+= 0x200 (512) start of programs
//! | 0x000 to 0x1FF|
//! | reserved for  |
//! |  interpreter  |
//! +---------------+= 0x000 (0) start of memory
//! ```

use crate::display::ScreenResolution;
use crate::error::Fault;
use crate::instruction::{word_of_bytes, Instruction};
use crate::platform::ChipMode;
use vstd::prelude::*;

verus! {

/// The glyphs of the hex digits `0` to `F`: five bytes each, four pixels wide.
pub const SMALL_FONT: [u8; 80] = [
    0xF0, 0x90, 0x90, 0x90, 0xF0, // 0
    0x20, 0x60, 0x20, 0x20, 0x70, // 1
    0xF0, 0x10, 0xF0, 0x80, 0xF0, // 2
    0xF0, 0x10, 0xF0, 0x10, 0xF0, // 3
    0x90, 0x90, 0xF0, 0x10, 0x10, // 4
    0xF0, 0x80, 0xF0, 0x10, 0xF0, // 5
    0xF0, 0x80, 0xF0, 0x90, 0xF0, // 6
    0xF0, 0x10, 0x20, 0x40, 0x40, // 7
    0xF0, 0x90, 0xF0, 0x90, 0xF0, // 8
    0xF0, 0x90, 0xF0, 0x10, 0xF0, // 9
    0xF0, 0x90, 0xF0, 0x90, 0x90, // A
    0xE0, 0x90, 0xE0, 0x90, 0xE0, // B
    0xF0, 0x80, 0x80, 0x80, 0xF0, // C
    0xE0, 0x90, 0x90, 0x90, 0xE0, // D
    0xF0, 0x80, 0xF0, 0x80, 0xF0, // E
    0xF0, 0x80, 0xF0, 0x80, 0x80, // F
];

/// The large glyphs of the digits `0` to `9`: ten bytes each, eight pixels
/// wide.
pub const LARGE_FONT: [u8; 100] = [
    0xFF, 0xFF, 0xC3, 0xC3, 0xC3, 0xC3, 0xC3, 0xC3, 0xFF, 0xFF, // 0
    0x18, 0x78, 0x78, 0x18, 0x18, 0x18, 0x18, 0x18, 0xFF, 0xFF, // 1
    0xFF, 0xFF, 0x03, 0x03, 0xFF, 0xFF, 0xC0, 0xC0, 0xFF, 0xFF, // 2
    0xFF, 0xFF, 0x03, 0x03, 0xFF, 0xFF, 0x03, 0x03, 0xFF, 0xFF, // 3
    0xC3, 0xC3, 0xC3, 0xC3, 0xFF, 0xFF, 0x03, 0x03, 0x03, 0x03, // 4
    0xFF, 0xFF, 0xC0, 0xC0, 0xFF, 0xFF, 0x03, 0x03, 0xFF, 0xFF, // 5
    0xFF, 0xFF, 0xC0, 0xC0, 0xFF, 0xFF, 0xC3, 0xC3, 0xFF, 0xFF, // 6
    0xFF, 0xFF, 0x03, 0x03, 0x06, 0x0C, 0x18, 0x18, 0x18, 0x18, // 7
    0xFF, 0xFF, 0xC3, 0xC3, 0xFF, 0xFF, 0xC3, 0xC3, 0xFF, 0xFF, // 8
    0xFF, 0xFF, 0xC3, 0xC3, 0xFF, 0xFF, 0x03, 0x03, 0xFF, 0xFF, // 9
];

/// The byte that the interpreter keeps at an address of the reserved region:
/// the small font from address 0, the large font behind it on the platforms
/// that have one, and zero elsewhere.
pub open spec fn reserved_byte(mode: ChipMode, addr: int) -> u8 {
    if 0 <= addr < 80 {
        SMALL_FONT@[addr]
    } else if mode.is_extended() && 80 <= addr < 180 {
        LARGE_FONT@[addr - 80]
    } else {
        0
    }
}

/// The memory right after a program was loaded.
pub open spec fn loaded_memory(mode: ChipMode, program: Seq<u8>) -> Seq<u8> {
    Seq::new(
        4096,
        |addr: int|
            if addr < 0x200 {
                reserved_byte(mode, addr)
            } else if addr - 0x200 < program.len() {
                program[addr - 0x200]
            } else {
                0
            },
    )
}

/// The address of a digit's glyph, if the platform has one of that size.
pub open spec fn font_address(mode: ChipMode, digit: u8, resolution: ScreenResolution) -> Option<u16> {
    match resolution {
        ScreenResolution::Lores => if digit <= 0xF {
            Some((digit * 5) as u16)
        } else {
            None
        },
        ScreenResolution::Hires => if mode.is_extended() && digit <= 9 {
            Some((80 + digit * 10) as u16)
        } else {
            None
        },
    }
}

/// The first address above the end of memory that a read of `n` bytes from
/// `addr` on reaches, if it reaches one.
pub open spec fn first_unreadable(addr: u16, n: int) -> Option<u16> {
    if n <= 0 || addr + n <= 0x1000 {
        None
    } else if addr > 0xFFF {
        Some(addr)
    } else {
        Some(0x1000u16)
    }
}

/// The `n` bytes that the memory holds from `addr` on.
pub open spec fn span(bytes: Seq<u8>, addr: int, n: int) -> Seq<u8> {
    Seq::new(n as nat, |k: int| bytes[addr + k])
}

/// The `n` big-endian words that the memory holds from `addr` on.
pub open spec fn word_span(bytes: Seq<u8>, addr: int, n: int) -> Seq<u16> {
    Seq::new(n as nat, |k: int| word_of_bytes(bytes[addr + 2 * k], bytes[addr + 2 * k + 1]))
}

pub struct Memory {
    map: [u8; 4096],
    mode: ChipMode,
    rpl_flags: [u8; 8],
}

impl Memory {
    pub const PROGRAM_ADDR_START: u16 = 0x200;

    /// The highest address.
    pub const MEMORY_SIZE: u16 = 0xFFF;

    /// The 4096 bytes of the memory.
    pub closed spec fn bytes(&self) -> Seq<u8> {
        self.map@
    }

    /// The 8 bytes of the persistent flag store.
    pub closed spec fn flags(&self) -> Seq<u8> {
        self.rpl_flags@
    }

    pub closed spec fn mode(&self) -> ChipMode {
        self.mode
    }

    /// The reserved region holds what the interpreter put there.
    pub open spec fn wf(&self) -> bool {
        &&& self.bytes().len() == 4096
        &&& self.flags().len() == 8
        &&& forall|addr: int| 0 <= addr < 0x200 ==> self.bytes()[addr] == reserved_byte(self.mode(), addr)
    }

    /// The memory of a machine of the given platform with the fonts in the
    /// reserved region and the program behind it.
    pub fn new(program: &[u8], mode: &ChipMode) -> (memory: Memory)
        requires
            program@.len() <= 0x1000 - 0x200,
        ensures
            memory.wf(),
            memory.mode() == *mode,
            memory.bytes() == loaded_memory(*mode, program@),
            memory.flags() == Seq::new(8, |i: int| 0u8),
    {
        let mut memory = Memory { map: [0;4096], rpl_flags: [0;8], mode: *mode };
        memory.load_font_sprites();
        let mut i: usize = 0;
        while i < program.len()
            invariant
                i <= program@.len() <= 0x1000 - 0x200,
                memory.mode == *mode,
                memory.rpl_flags@ == Seq::new(8, |i: int| 0u8),
                forall|addr: int| 0 <= addr < 0x200 ==> memory.map@[addr] == reserved_byte(*mode, addr),
                forall|addr: int| 0x200 <= addr < 0x200 + i ==> memory.map@[addr] == program@[addr - 0x200],
                forall|addr: int| 0x200 + i <= addr < 4096 ==> memory.map@[addr] == 0,
            decreases program@.len() - i,
        {
            memory.map[Self::PROGRAM_ADDR_START as usize + i] = program[i];
            i += 1;
        }
        assert(memory.map@ =~= loaded_memory(*mode, program@));
        memory
    }

    /// Stores a byte in the program and data space.
    pub fn write(&mut self, addr: u16, val: u8) -> (result: Result<(), Fault>)
        requires
            old(self).wf(),
        ensures
            final(self).wf(),
            final(self).mode() == old(self).mode(),
            final(self).flags() == old(self).flags(),
            addr < 0x200 ==> result == Err::<(), Fault>(Fault::ReservedWrite(addr)),
            addr > 0xFFF ==> result == Err::<(), Fault>(Fault::OutOfBounds(addr)),
            0x200 <= addr <= 0xFFF ==> result == Ok::<(), Fault>(()),
            final(self).bytes() == if result is Ok {
                old(self).bytes().update(addr as int, val)
            } else {
                old(self).bytes()
            },
    {
        if addr < Self::PROGRAM_ADDR_START {
            Err(Fault::ReservedWrite(addr))
        } else if addr <= Self::MEMORY_SIZE {
            self.map[addr as usize] = val;
            Ok(())
        } else {
            Err(Fault::OutOfBounds(addr))
        }
    }

    pub fn read(&self, addr: u16) -> (result: Result<u8, Fault>)
        requires
            self.wf(),
        ensures
            addr <= 0xFFF ==> result == Ok::<u8, Fault>(self.bytes()[addr as int]),
            addr > 0xFFF ==> result == Err::<u8, Fault>(Fault::OutOfBounds(addr)),
    {
        if addr > Self::MEMORY_SIZE {
            return Err(Fault::OutOfBounds(addr));
        }
        Ok(self.map[addr as usize])
    }

    /// The `n` bytes from `addr` on. The read fails at the first address it
    /// reaches that lies above the end of memory.
    pub fn read_n_bytes(&self, addr: u16, n: u16) -> (result: Result<Vec<u8>, Fault>)
        requires
            self.wf(),
        ensures
            match first_unreadable(addr, n as int) {
                Some(failing) => result == Err::<Vec<u8>, Fault>(Fault::OutOfBounds(failing)),
                None => result is Ok && result->Ok_0@ == span(self.bytes(), addr as int, n as int),
            },
    {
        let mut bytes: Vec<u8> = Vec::new();
        let mut i: u16 = 0;
        while i < n
            invariant
                i <= n,
                self.wf(),
                i > 0 ==> addr + i <= 0x1000,
                bytes@.len() == i,
                forall|k: int| 0 <= k < i ==> bytes@[k] == self.bytes()[addr + k],
            decreases n - i,
        {
            if addr as u32 + i as u32 > 0xFFF {
                return Err(Fault::OutOfBounds((addr as u32 + i as u32) as u16));
            }
            bytes.push(self.map[addr as usize + i as usize]);
            i += 1;
        }
        assert(bytes@ =~= span(self.bytes(), addr as int, n as int));
        Ok(bytes)
    }

    /// The `n` big-endian words from `addr` on. The read fails at the first
    /// address it reaches that lies above the end of memory.
    pub fn read_n_words(&self, addr: u16, n: u16) -> (result: Result<Vec<u16>, Fault>)
        requires
            self.wf(),
        ensures
            match first_unreadable(addr, 2 * n) {
                Some(failing) => result == Err::<Vec<u16>, Fault>(Fault::OutOfBounds(failing)),
                None => result is Ok && result->Ok_0@ == word_span(self.bytes(), addr as int, n as int),
            },
    {
        let mut words: Vec<u16> = Vec::new();
        let mut i: u16 = 0;
        while i < n
            invariant
                i <= n,
                self.wf(),
                i > 0 ==> addr + 2 * i <= 0x1000,
                words@.len() == i,
                forall|k: int|
                    0 <= k < i ==> words@[k] == word_of_bytes(
                        self.bytes()[addr + 2 * k],
                        self.bytes()[addr + 2 * k + 1],
                    ),
            decreases n - i,
        {
            let high_addr: u32 = addr as u32 + 2 * (i as u32);
            if high_addr > 0xFFF {
                return Err(Fault::OutOfBounds(high_addr as u16));
            }
            if high_addr + 1 > 0xFFF {
                return Err(Fault::OutOfBounds((high_addr + 1) as u16));
            }
            let high: u8 = self.map[high_addr as usize];
            let low: u8 = self.map[high_addr as usize + 1];
            words.push(Instruction::from_be_bytes(high, low).value());
            i += 1;
        }
        assert(words@ =~= word_span(self.bytes(), addr as int, n as int));
        Ok(words)
    }

    /// The address of the glyph of a digit: of its small one for the low
    /// resolution, of its large one for the high resolution.
    pub fn get_font_address(&self, digit: u8, resolution: ScreenResolution) -> (result: Result<
        u16,
        Fault,
    >)
        ensures
            match font_address(self.mode(), digit, resolution) {
                Some(address) => result == Ok::<u16, Fault>(address),
                None => result == Err::<u16, Fault>(Fault::InvalidFontDigit(digit)),
            },
    {
        match resolution {
            ScreenResolution::Lores => {
                if digit <= 0xF {
                    Ok((digit * 5) as u16)
                } else {
                    Err(Fault::InvalidFontDigit(digit))
                }
            },
            ScreenResolution::Hires => {
                if self.mode.extended() && digit <= 9 {
                    Ok((16 * 5 + digit * 10) as u16)
                } else {
                    Err(Fault::InvalidFontDigit(digit))
                }
            },
        }
    }

    /// Overwrites the first bytes of the flag store with `flags`.
    pub fn write_rpl_flags(&mut self, flags: &[u8])
        requires
            flags@.len() <= 8,
            old(self).wf(),
        ensures
            final(self).wf(),
            final(self).mode() == old(self).mode(),
            final(self).bytes() == old(self).bytes(),
            final(self).flags() == flags@ + old(self).flags().subrange(flags@.len() as int, 8),
    {
        let mut i: usize = 0;
        while i < flags.len()
            invariant
                i <= flags@.len() <= 8,
                self.map == old(self).map,
                self.mode == old(self).mode,
                forall|k: int| 0 <= k < i ==> self.rpl_flags@[k] == flags@[k],
                forall|k: int| i <= k < 8 ==> self.rpl_flags@[k] == old(self).rpl_flags@[k],
            decreases flags@.len() - i,
        {
            self.rpl_flags[i] = flags[i];
            i += 1;
        }
        assert(self.rpl_flags@ =~= flags@ + old(self).flags().subrange(flags@.len() as int, 8));
    }

    pub fn read_rpl_flags(&self) -> (flags: &[u8])
        ensures
            flags@ == self.flags(),
    {
        self.rpl_flags.as_slice()
    }

    fn load_font_sprites(&mut self)
        requires
            forall|addr: int| 0 <= addr < 4096 ==> old(self).map@[addr] == 0,
        ensures
            final(self).mode == old(self).mode,
            final(self).rpl_flags == old(self).rpl_flags,
            forall|addr: int| 0 <= addr < 0x200 ==> final(self).map@[addr] == reserved_byte(final(self).mode, addr),
            forall|addr: int| 0x200 <= addr < 4096 ==> final(self).map@[addr] == 0,
    {
        let mut i: usize = 0;
        while i < 80
            invariant
                i <= 80,
                self.mode == old(self).mode,
                self.rpl_flags == old(self).rpl_flags,
                forall|addr: int| 0 <= addr < i ==> self.map@[addr] == SMALL_FONT@[addr],
                forall|addr: int| i <= addr < 4096 ==> self.map@[addr] == 0,
            decreases 80 - i,
        {
            self.map[i] = SMALL_FONT[i];
            i += 1;
        }
        if self.mode.extended() {
            let mut j: usize = 0;
            while j < 100
                invariant
                    j <= 100,
                    self.mode == old(self).mode,
                    self.rpl_flags == old(self).rpl_flags,
                    forall|addr: int| 0 <= addr < 80 ==> self.map@[addr] == SMALL_FONT@[addr],
                    forall|addr: int| 80 <= addr < 80 + j ==> self.map@[addr] == LARGE_FONT@[addr - 80],
                    forall|addr: int| 80 + j <= addr < 4096 ==> self.map@[addr] == 0,
                decreases 100 - j,
            {
                self.map[80 + j] = LARGE_FONT[j];
                j += 1;
            }
        }
    }
}

/// The bytes of the glyph of a digit: five of the small font, ten of the
/// large one.
pub open spec fn glyph(digit: u8, resolution: ScreenResolution) -> Seq<u8> {
    match resolution {
        ScreenResolution::Lores => SMALL_FONT@.subrange(digit * 5, digit * 5 + 5),
        ScreenResolution::Hires => LARGE_FONT@.subrange(digit * 10, digit * 10 + 10),
    }
}

/// Where a digit has a glyph, its address is in the reserved region, the
/// large font lies behind the small one, and the memory holds the glyph
/// there.
pub proof fn lemma_glyph_at_font_address(memory: Memory, digit: u8, resolution: ScreenResolution)
    requires
        memory.wf(),
        font_address(memory.mode(), digit, resolution) is Some,
    ensures
        ({
            let address = font_address(memory.mode(), digit, resolution)->Some_0;
            let glyph = glyph(digit, resolution);
            &&& address + glyph.len() <= 0x200
            &&& resolution == ScreenResolution::Hires ==> address >= 16 * 5
            &&& span(memory.bytes(), address as int, glyph.len() as int) == glyph
        }),
{
    let address = font_address(memory.mode(), digit, resolution)->Some_0;
    let glyph = glyph(digit, resolution);
    assert(span(memory.bytes(), address as int, glyph.len() as int) =~= glyph);
}

} // verus!
