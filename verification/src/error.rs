//! The ways in which the virtual machine can refuse to go on.

use vstd::prelude::*;

verus! {

/// An error of the virtual machine.
#[derive(Copy, Clone, Debug, PartialEq, Eq, Structural)]
pub enum Chip8Error {
    /// A glyph was asked for that is not one of the digits 0x0 to 0xF; the
    /// field holds the value asked for. The machine can go on.
    OutOfRangeGlyph(u8),
    /// The two bytes at `pc` are no instruction of the machine. `instruction`
    /// holds the first byte in its high half and the second in its low half.
    /// The machine must not go on.
    UnsupportedInstruction { instruction: u16, pc: u16 },
    /// A call was made with all entries of the call stack in use.
    StackOverflow,
    /// A return was made with no call outstanding.
    StackUnderflow,
}

impl Chip8Error {
    /// What the error says in words.
    pub open spec fn text(self) -> Seq<char> {
        match self {
            Chip8Error::OutOfRangeGlyph(_) => "Ascii fonts contain value 0x0 through 0xF"@,
            Chip8Error::UnsupportedInstruction { .. } => "Unsupported instruction!"@,
            Chip8Error::StackOverflow => "Call stack overflow"@,
            Chip8Error::StackUnderflow => "Call stack underflow"@,
        }
    }

    /// Returns what the error says in words.
    pub fn message(&self) -> (words: &'static str)
        ensures
            words@ == self.text(),
    {
        match self {
            Chip8Error::OutOfRangeGlyph(_) => "Ascii fonts contain value 0x0 through 0xF",
            Chip8Error::UnsupportedInstruction { .. } => "Unsupported instruction!",
            Chip8Error::StackOverflow => "Call stack overflow",
            Chip8Error::StackUnderflow => "Call stack underflow",
        }
    }
}

} // verus!
