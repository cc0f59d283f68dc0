//! What the host chooses before the machine starts: the platform, the
//! quirks, the speed and the colours.

use crate::display::Color;
use crate::platform::{ChipMode, QuirkSet, Quirks};
use vstd::prelude::*;

verus! {

/// The platform as the host names it.
#[derive(Debug, Clone, Copy, PartialEq, Eq, Structural)]
pub enum Platform {
    Chip8,
    SuperChip,
    XOChip,
}

/// A letter of the upper case as the same letter of the lower case; any
/// other byte as it is.
pub open spec fn ascii_lower(byte: u8) -> u8 {
    if 0x41 <= byte <= 0x5A {
        (byte + 0x20) as u8
    } else {
        byte
    }
}

/// Whether `input` spells `name`, whatever the case of its letters. `name`
/// is in the lower case.
pub open spec fn spells(input: Seq<u8>, name: Seq<u8>) -> bool {
    input.len() == name.len() && forall|i: int| 0 <= i < input.len() ==> ascii_lower(input[i]) == name[i]
}

/// The bytes of `chip8`.
pub open spec fn chip8_name() -> Seq<u8> {
    seq![0x63u8, 0x68, 0x69, 0x70, 0x38]
}

/// The bytes of `superchip`.
pub open spec fn superchip_name() -> Seq<u8> {
    seq![0x73u8, 0x75, 0x70, 0x65, 0x72, 0x63, 0x68, 0x69, 0x70]
}

/// The bytes of `xochip`.
pub open spec fn xochip_name() -> Seq<u8> {
    seq![0x78u8, 0x6F, 0x63, 0x68, 0x69, 0x70]
}

fn spells_name(input: &[u8], name: &[u8]) -> (same: bool)
    ensures
        same == spells(input@, name@),
{
    if input.len() != name.len() {
        return false;
    }
    let mut i: usize = 0;
    while i < input.len()
        invariant
            i <= input@.len() == name@.len(),
            forall|j: int| 0 <= j < i ==> ascii_lower(input@[j]) == name@[j],
        decreases input@.len() - i,
    {
        let byte = input[i];
        let lower = if 0x41 <= byte && byte <= 0x5A {
            byte + 0x20
        } else {
            byte
        };
        if lower != name[i] {
            return false;
        }
        i += 1;
    }
    true
}

impl Platform {
    /// The platform that `input` names: `chip8`, `superchip` or `xochip`,
    /// in letters of either case.
    pub fn from_name(input: &[u8]) -> (platform: Option<Platform>)
        ensures
            platform == if spells(input@, chip8_name()) {
                Some(Platform::Chip8)
            } else if spells(input@, superchip_name()) {
                Some(Platform::SuperChip)
            } else if spells(input@, xochip_name()) {
                Some(Platform::XOChip)
            } else {
                None
            },
    {
        let chip8: [u8; 5] = [0x63, 0x68, 0x69, 0x70, 0x38];
        let superchip: [u8; 9] = [0x73, 0x75, 0x70, 0x65, 0x72, 0x63, 0x68, 0x69, 0x70];
        let xochip: [u8; 6] = [0x78, 0x6F, 0x63, 0x68, 0x69, 0x70];
        assert(chip8@ =~= chip8_name());
        assert(superchip@ =~= superchip_name());
        assert(xochip@ =~= xochip_name());
        if spells_name(input, chip8.as_slice()) {
            Some(Platform::Chip8)
        } else if spells_name(input, superchip.as_slice()) {
            Some(Platform::SuperChip)
        } else if spells_name(input, xochip.as_slice()) {
            Some(Platform::XOChip)
        } else {
            None
        }
    }
}

/// What the host was asked for on its command line.
pub struct Args {
    /// Path to the program file.
    pub file: String,
    /// The platform to use.
    pub platform: Platform,
    /// Whether `FX55` and `FX65` leave `I` advanced.
    pub load_increment_i_with_x_quirk: bool,
    /// Whether `BNNN` jumps by `VX` in place of `V0`.
    pub jump_using_x_quirk: bool,
    /// Whether `8XY6` and `8XYE` shift `VX` in place.
    pub shift_ignore_vy_quirk: bool,
    /// Whether `8XY1`, `8XY2` and `8XY3` reset `VF`.
    pub binary_op_reset_vf_quirk: bool,
    /// Whether sprites wrap around the edges of the screen.
    pub wrap_instead_of_clipping_quirk: bool,
    /// Scale of the window.
    pub scale: u8,
    /// How many instructions are executed per video frame.
    pub instructions_per_frame: u16,
    /// The microseconds to wait after each instruction.
    pub sleep: Option<u8>,
    /// The colour `0xRRGGBB` of pixels that no plane has set.
    pub set_disabled_color: u32,
    /// The colour `0xRRGGBB` of pixels set on the first plane only.
    pub set_first_plane_color: u32,
    /// The colour `0xRRGGBB` of pixels set on the second plane only.
    pub set_second_plane_color: u32,
    /// The colour `0xRRGGBB` of pixels set on both planes.
    pub set_both_plane_color: u32,
}

/// The red, green and blue part of a colour `0xRRGGBB`; what is above the
/// lowest 24 bits does not count.
pub open spec fn rgb_of(color: u32) -> (u8, u8, u8) {
    (((color / 0x1_0000) % 0x100) as u8, ((color / 0x100) % 0x100) as u8, (color % 0x100) as u8)
}

proof fn lemma_rgb_as_bits(color: u32)
    by (bit_vector)
    ensures
        (color >> 16) as u8 == (color / 0x1_0000) % 0x100,
        (color >> 8) as u8 == (color / 0x100) % 0x100,
        color as u8 == color % 0x100,
{
}

fn rgb(color: u32) -> (parts: (u8, u8, u8))
    ensures
        parts == rgb_of(color),
{
    proof {
        lemma_rgb_as_bits(color);
    }
    let red = #[verifier::truncate] ((color >> 16) as u8);
    let green = #[verifier::truncate] ((color >> 8) as u8);
    let blue = #[verifier::truncate] (color as u8);
    (red, green, blue)
}

/// The colour that the host paints each kind of pixel in.
#[derive(Debug, Clone, Copy, PartialEq, Eq)]
pub struct Palette {
    pub disabled: (u8, u8, u8),
    pub only_first_plane: (u8, u8, u8),
    pub only_second_plane: (u8, u8, u8),
    pub both: (u8, u8, u8),
}

impl Palette {
    pub open spec fn rgb_of(self, color: Color) -> (u8, u8, u8) {
        match color {
            Color::Disabled => self.disabled,
            Color::OnlyFirstPlane => self.only_first_plane,
            Color::OnlySecondPlane => self.only_second_plane,
            Color::Both => self.both,
        }
    }

    /// The red, green and blue part of the colour of a pixel.
    pub fn get(&self, color: &Color) -> (parts: (u8, u8, u8))
        ensures
            parts == self.rgb_of(*color),
    {
        match color {
            Color::Disabled => self.disabled,
            Color::OnlyFirstPlane => self.only_first_plane,
            Color::OnlySecondPlane => self.only_second_plane,
            Color::Both => self.both,
        }
    }
}

pub struct EmulatorConfig {
    pub file: String,
    pub quirks: QuirkSet,
    pub mode: ChipMode,
    pub scale: u8,
    pub ticks: u16,
    pub sleep: Option<u8>,
    pub palette: Palette,
}

/// The quirks that the five switches of the command line turn on.
pub open spec fn quirks_of(args: Args) -> Set<Quirks> {
    Set::new(
        |quirk: Quirks|
            match quirk {
                Quirks::IRegisterIncrementedWithX => args.load_increment_i_with_x_quirk,
                Quirks::JumpWithX => args.jump_using_x_quirk,
                Quirks::ShiftIgnoreVY => args.shift_ignore_vy_quirk,
                Quirks::BinaryOpResetVF => args.binary_op_reset_vf_quirk,
                Quirks::WrapsInsteadClipping => args.wrap_instead_of_clipping_quirk,
            },
    )
}

impl EmulatorConfig {
    /// The configuration that the arguments ask for.
    pub fn new(args: Args) -> (config: EmulatorConfig)
        ensures
            config.file == args.file,
            config.quirks@ == quirks_of(args),
            config.mode == Self::chip_mode_of(args.platform),
            config.scale == args.scale,
            config.ticks == args.instructions_per_frame,
            config.sleep == args.sleep,
            config.palette == (Palette {
                disabled: rgb_of(args.set_disabled_color),
                only_first_plane: rgb_of(args.set_first_plane_color),
                only_second_plane: rgb_of(args.set_second_plane_color),
                both: rgb_of(args.set_both_plane_color),
            }),
    {
        let mut quirks = QuirkSet::new();
        if args.load_increment_i_with_x_quirk {
            quirks.insert(Quirks::IRegisterIncrementedWithX);
        }
        if args.jump_using_x_quirk {
            quirks.insert(Quirks::JumpWithX);
        }
        if args.shift_ignore_vy_quirk {
            quirks.insert(Quirks::ShiftIgnoreVY);
        }
        if args.binary_op_reset_vf_quirk {
            quirks.insert(Quirks::BinaryOpResetVF);
        }
        if args.wrap_instead_of_clipping_quirk {
            quirks.insert(Quirks::WrapsInsteadClipping);
        }
        assert(quirks@ =~= quirks_of(args));
        EmulatorConfig {
            mode: Self::get_chip_mode(&args.platform),
            scale: args.scale,
            ticks: args.instructions_per_frame,
            sleep: args.sleep,
            palette: Palette {
                disabled: rgb(args.set_disabled_color),
                only_first_plane: rgb(args.set_first_plane_color),
                only_second_plane: rgb(args.set_second_plane_color),
                both: rgb(args.set_both_plane_color),
            },
            quirks,
            file: args.file,
        }
    }

    pub open spec fn chip_mode_of(platform: Platform) -> ChipMode {
        match platform {
            Platform::Chip8 => ChipMode::Chip8,
            Platform::SuperChip => ChipMode::SuperChip,
            Platform::XOChip => ChipMode::XOChip,
        }
    }

    pub fn get_chip_mode(platform: &Platform) -> (mode: ChipMode)
        ensures
            mode == Self::chip_mode_of(*platform),
    {
        match platform {
            Platform::Chip8 => ChipMode::Chip8,
            Platform::SuperChip => ChipMode::SuperChip,
            Platform::XOChip => ChipMode::XOChip,
        }
    }
}

} // verus!
