//! The platform a program was written for, and the quirks of the historical
//! interpreter it expects.

use vstd::prelude::*;

verus! {

/// The instruction set the machine accepts.
#[derive(Debug, Clone, Copy, PartialEq, Eq, Structural)]
pub enum ChipMode {
    Chip8,
    SuperChip,
    XOChip,
}

impl ChipMode {
    /// Whether the platform has the SUPER-CHIP instructions and the large font.
    pub open spec fn is_extended(self) -> bool {
        self != ChipMode::Chip8
    }

    /// Whether the platform has the SUPER-CHIP instructions and the large font.
    #[verifier::when_used_as_spec(is_extended)]
    pub fn extended(self) -> (extended: bool)
        ensures
            extended == self.is_extended(),
    {
        match self {
            ChipMode::Chip8 => false,
            ChipMode::SuperChip => true,
            ChipMode::XOChip => true,
        }
    }

    /// The platform's customary name.
    pub fn name(&self) -> (name: &'static str)
        ensures
            *self == ChipMode::Chip8 ==> name@ == "CHIP-8"@,
            *self == ChipMode::SuperChip ==> name@ == "SUPER-CHIP"@,
            *self == ChipMode::XOChip ==> name@ == "XO-CHIP"@,
    {
        match self {
            ChipMode::Chip8 => "CHIP-8",
            ChipMode::SuperChip => "SUPER-CHIP",
            ChipMode::XOChip => "XO-CHIP",
        }
    }
}

/// An independently toggleable deviation from the hardware's first
/// interpreter, as one or another of the later interpreters had it.
#[derive(Debug, Clone, Copy, PartialEq, Eq, Hash, Structural)]
pub enum Quirks {
    /// For `FX55` and `FX65`.
    ///
    /// The CHIP-8 interpreter incremented `I` while it stored or loaded the
    /// registers, so that `I` ended as `I + X + 1`. Later interpreters used a
    /// temporary variable and left `I` as it was.
    IRegisterIncrementedWithX,
    /// For `BNNN`.
    ///
    /// The COSMAC VIP interpreter jumped to `NNN` plus `V0`. From CHIP-48 on the
    /// instruction works as `BXNN`: it jumps to `XNN` plus `VX`.
    JumpWithX,
    /// For `8XY6` and `8XYE`.
    ///
    /// The CHIP-8 interpreter shifted the value of `VY` into `VX`. From CHIP-48
    /// on the instructions shift `VX` in place and ignore `VY`.
    ShiftIgnoreVY,
    /// For `8XY1`, `8XY2` and `8XY3`.
    ///
    /// The AND, OR and XOR instructions reset the flag register in the end.
    BinaryOpResetVF,
    /// For `DXYN`.
    ///
    /// A sprite that crosses an edge of the screen continues on the opposite
    /// side instead of being cut off.
    WrapsInsteadClipping,
}

/// A set of quirks.
#[derive(Debug, Clone, Copy)]
pub struct QuirkSet {
    i_register_incremented_with_x: bool,
    jump_with_x: bool,
    shift_ignore_vy: bool,
    binary_op_reset_vf: bool,
    wraps_instead_clipping: bool,
}

impl View for QuirkSet {
    type V = Set<Quirks>;

    closed spec fn view(&self) -> Set<Quirks> {
        Set::new(
            |quirk: Quirks|
                match quirk {
                    Quirks::IRegisterIncrementedWithX => self.i_register_incremented_with_x,
                    Quirks::JumpWithX => self.jump_with_x,
                    Quirks::ShiftIgnoreVY => self.shift_ignore_vy,
                    Quirks::BinaryOpResetVF => self.binary_op_reset_vf,
                    Quirks::WrapsInsteadClipping => self.wraps_instead_clipping,
                },
        )
    }
}

impl QuirkSet {
    /// The empty set.
    pub fn new() -> (quirks: QuirkSet)
        ensures
            quirks@ == Set::<Quirks>::empty(),
    {
        let quirks = QuirkSet {
            i_register_incremented_with_x: false,
            jump_with_x: false,
            shift_ignore_vy: false,
            binary_op_reset_vf: false,
            wraps_instead_clipping: false,
        };
        assert(quirks@ =~= Set::<Quirks>::empty());
        quirks
    }

    /// Adds a quirk; returns whether it was absent before.
    pub fn insert(&mut self, quirk: Quirks) -> (added: bool)
        ensures
            final(self)@ == old(self)@.insert(quirk),
            added == !old(self)@.contains(quirk),
    {
        let added = !self.contains(&quirk);
        match quirk {
            Quirks::IRegisterIncrementedWithX => {
                self.i_register_incremented_with_x = true;
            },
            Quirks::JumpWithX => {
                self.jump_with_x = true;
            },
            Quirks::ShiftIgnoreVY => {
                self.shift_ignore_vy = true;
            },
            Quirks::BinaryOpResetVF => {
                self.binary_op_reset_vf = true;
            },
            Quirks::WrapsInsteadClipping => {
                self.wraps_instead_clipping = true;
            },
        }
        assert(self@ =~= old(self)@.insert(quirk));
        added
    }

    pub fn contains(&self, quirk: &Quirks) -> (present: bool)
        ensures
            present == self@.contains(*quirk),
    {
        match quirk {
            Quirks::IRegisterIncrementedWithX => self.i_register_incremented_with_x,
            Quirks::JumpWithX => self.jump_with_x,
            Quirks::ShiftIgnoreVY => self.shift_ignore_vy,
            Quirks::BinaryOpResetVF => self.binary_op_reset_vf,
            Quirks::WrapsInsteadClipping => self.wraps_instead_clipping,
        }
    }
}

} // verus!
