//! The machine's memory: 4096 bytes, with the built-in hexadecimal font in
//! its lowest 80 bytes and programs from address 0x200 on.

use crate::error::Chip8Error;
use vstd::prelude::*;
use vstd::slice::slice_subrange;

verus! {

/// Number of bytes of memory. Every address is taken modulo this number.
pub const MEMORY_SIZE: usize = 4096;

/// Address at which programs are loaded and started.
pub const PROGRAM_START: usize = 0x200;

/// Number of bytes of one glyph of the built-in font: one byte per pixel row.
pub const GLYPH_SIZE: usize = 5;

/// The built-in font as it lies in memory from address 0 on: the glyphs of
/// the digits 0x0 to 0xF in turn, each five rows of eight pixels, of which the
/// left four are used.
pub open spec fn glyph_table() -> Seq<u8> {
    seq![
        0xF0u8, 0x90u8, 0x90u8, 0x90u8, 0xF0u8,  // 0
        0x20u8, 0x60u8, 0x20u8, 0x20u8, 0x70u8,  // 1
        0xF0u8, 0x10u8, 0xF0u8, 0x80u8, 0xF0u8,  // 2
        0xF0u8, 0x10u8, 0xF0u8, 0x10u8, 0xF0u8,  // 3
        0x90u8, 0x90u8, 0xF0u8, 0x10u8, 0x10u8,  // 4
        0xF0u8, 0x80u8, 0xF0u8, 0x10u8, 0xF0u8,  // 5
        0xF0u8, 0x80u8, 0xF0u8, 0x90u8, 0xF0u8,  // 6
        0xF0u8, 0x10u8, 0x20u8, 0x40u8, 0x40u8,  // 7
        0xF0u8, 0x90u8, 0xF0u8, 0x90u8, 0xF0u8,  // 8
        0xF0u8, 0x90u8, 0xF0u8, 0x10u8, 0xF0u8,  // 9
        0xF0u8, 0x90u8, 0xF0u8, 0x90u8, 0x90u8,  // A
        0xE0u8, 0x90u8, 0xE0u8, 0x90u8, 0xE0u8,  // B
        0xF0u8, 0x80u8, 0x80u8, 0x80u8, 0xF0u8,  // C
        0xE0u8, 0x90u8, 0x90u8, 0x90u8, 0xE0u8,  // D
        0xF0u8, 0x80u8, 0xF0u8, 0x80u8, 0xF0u8,  // E
        0xF0u8, 0x80u8, 0xF0u8, 0x80u8, 0x80u8,  // F
    ]
}

/// The five bytes of the glyph for `digit`.
pub open spec fn glyph(digit: int) -> Seq<u8> {
    glyph_table().subrange(5 * digit, 5 * digit + 5)
}

/// Whether the built-in font lies at the bottom of memory `mem`.
pub open spec fn has_font(mem: Seq<u8>) -> bool {
    mem.len() == 4096 && mem.subrange(0, 80) == glyph_table()
}

/// The text that formatting with `{:x?}` makes of an array of these bytes.
pub uninterp spec fn hex_listing(bytes: Seq<u8>) -> Seq<char>;

/// The text that `format!` with `{:x?}` makes of `bytes`: the standard
/// library's debug formatting of an array, with the numbers in lower-case
/// hexadecimal. All that is claimed of the text is that it depends on the
/// bytes alone.
#[verifier::external_body]
fn hex_debug(bytes: &[u8; 4096]) -> (text: String)
    ensures
        text@ == hex_listing(bytes@),
{
    format!("{:x?}", bytes)
}

/// Struct wrapper for Chip-8 Memory. Contains actual memory storage, as well as helper functions
/// for working with Chip-8 Memory.
#[derive(Copy, Clone)]
pub struct Memory {
    /// Byte storage memory. 4096 Bytes represented as a 1D array of u8 type.
    pub mem: [u8; 4096],
}

impl View for Memory {
    type V = Seq<u8>;

    /// The 4096 bytes, by address.
    open spec fn view(&self) -> Seq<u8> {
        self.mem@
    }
}

impl Memory {
    /// Create a new Memory object. All memory values are initialized to 0.
    pub fn new() -> (res: Memory)
        ensures
            res@ == Seq::new(4096, |i: int| 0u8),
    {
        let res = Memory { mem: [0; 4096] };
        res
    }

    /// Returns the entire memory contents as a hex formatted string
    pub fn get_memory_as_string(&self) -> (text: String)
        ensures
            text@ == hex_listing(self@),
    {
        hex_debug(&self.mem)
    }

    /// Clears the memory. Sets all memory bytes to 0.
    pub fn clear(&mut self)
        ensures
            final(self)@ == Seq::new(4096, |i: int| 0u8),
    {
        self.mem = [0; 4096];
    }

    /// Returns the byte at `addr`, taken modulo the size of memory.
    pub fn read(&self, addr: usize) -> (value: u8)
        ensures
            value == self@[addr as int % 4096],
    {
        self.mem[addr % MEMORY_SIZE]
    }

    /// Stores `value` at `addr`, taken modulo the size of memory.
    pub fn write(&mut self, addr: usize, value: u8)
        ensures
            final(self)@ == old(self)@.update(addr as int % 4096, value),
    {
        self.mem[addr % MEMORY_SIZE] = value;
    }

    /// Loads ascii fonts 0-F hex into memory, as per CHIP-8 documentation.
    /// Ascii fonts occupy memory space 0x00 - 0x4F. Each Ascii font is an 8x5 sprite, that
    /// occupies 5 bytes per digit.
    pub fn load_ascii_fonts(&mut self)
        ensures
            final(self)@ == glyph_table() + old(self)@.subrange(80, 4096),
            has_font(final(self)@),
    {
        // Ascii 0
        self.mem[0x00] = 0xF0;
        self.mem[0x01] = 0x90;
        self.mem[0x02] = 0x90;
        self.mem[0x03] = 0x90;
        self.mem[0x04] = 0xF0;
        // Ascii 1
        self.mem[0x05] = 0x20;
        self.mem[0x06] = 0x60;
        self.mem[0x07] = 0x20;
        self.mem[0x08] = 0x20;
        self.mem[0x09] = 0x70;
        // Ascii 2
        self.mem[0x0A] = 0xF0;
        self.mem[0x0B] = 0x10;
        self.mem[0x0C] = 0xF0;
        self.mem[0x0D] = 0x80;
        self.mem[0x0E] = 0xF0;
        // Ascii 3
        self.mem[0x0F] = 0xF0;
        self.mem[0x10] = 0x10;
        self.mem[0x11] = 0xF0;
        self.mem[0x12] = 0x10;
        self.mem[0x13] = 0xF0;
        // Ascii 4
        self.mem[0x14] = 0x90;
        self.mem[0x15] = 0x90;
        self.mem[0x16] = 0xF0;
        self.mem[0x17] = 0x10;
        self.mem[0x18] = 0x10;
        // Ascii 5
        self.mem[0x19] = 0xF0;
        self.mem[0x1A] = 0x80;
        self.mem[0x1B] = 0xF0;
        self.mem[0x1C] = 0x10;
        self.mem[0x1D] = 0xF0;
        // Ascii 6
        self.mem[0x1E] = 0xF0;
        self.mem[0x1F] = 0x80;
        self.mem[0x20] = 0xF0;
        self.mem[0x21] = 0x90;
        self.mem[0x22] = 0xF0;
        // Ascii 7
        self.mem[0x23] = 0xF0;
        self.mem[0x24] = 0x10;
        self.mem[0x25] = 0x20;
        self.mem[0x26] = 0x40;
        self.mem[0x27] = 0x40;
        // Ascii 8
        self.mem[0x28] = 0xF0;
        self.mem[0x29] = 0x90;
        self.mem[0x2A] = 0xF0;
        self.mem[0x2B] = 0x90;
        self.mem[0x2C] = 0xF0;
        // Ascii 9
        self.mem[0x2D] = 0xF0;
        self.mem[0x2E] = 0x90;
        self.mem[0x2F] = 0xF0;
        self.mem[0x30] = 0x10;
        self.mem[0x31] = 0xF0;
        // Ascii A
        self.mem[0x32] = 0xF0;
        self.mem[0x33] = 0x90;
        self.mem[0x34] = 0xF0;
        self.mem[0x35] = 0x90;
        self.mem[0x36] = 0x90;
        // Ascii B
        self.mem[0x37] = 0xE0;
        self.mem[0x38] = 0x90;
        self.mem[0x39] = 0xE0;
        self.mem[0x3A] = 0x90;
        self.mem[0x3B] = 0xE0;
        // Ascii C
        self.mem[0x3C] = 0xF0;
        self.mem[0x3D] = 0x80;
        self.mem[0x3E] = 0x80;
        self.mem[0x3F] = 0x80;
        self.mem[0x40] = 0xF0;
        // Ascii D
        self.mem[0x41] = 0xE0;
        self.mem[0x42] = 0x90;
        self.mem[0x43] = 0x90;
        self.mem[0x44] = 0x90;
        self.mem[0x45] = 0xE0;
        // Ascii E
        self.mem[0x46] = 0xF0;
        self.mem[0x47] = 0x80;
        self.mem[0x48] = 0xF0;
        self.mem[0x49] = 0x80;
        self.mem[0x4A] = 0xF0;
        // Ascii F
        self.mem[0x4B] = 0xF0;
        self.mem[0x4C] = 0x80;
        self.mem[0x4D] = 0xF0;
        self.mem[0x4E] = 0x80;
        self.mem[0x4F] = 0x80;
        assert(self@.subrange(0, 80) =~= glyph_table());
    }

    /// Returns an array slice that contains the Ascii font sprite specified by parameter [val]:
    /// the five bytes that memory holds at the glyph's place.
    pub fn get_ascii_slice(&self, val: u8) -> (res: Result<&[u8], Chip8Error>)
        ensures
            val <= 0xF ==> (res matches Ok(slice) && slice@ == self@.subrange(
                5 * val as int,
                5 * val as int + 5,
            )),
            val > 0xF ==> res == Err::<&[u8], Chip8Error>(Chip8Error::OutOfRangeGlyph(val)),
    {
        if val > 0xF {
            return Err(Chip8Error::OutOfRangeGlyph(val));
        }
        let start = GLYPH_SIZE * val as usize;
        let end = start + GLYPH_SIZE;
        let slice = slice_subrange(self.mem.as_slice(), start, end);
        Ok(slice)
    }

    /// Copies `program` into memory from address 0x200 on, as far as memory
    /// reaches. Returns the number of bytes copied.
    pub fn load_program(&mut self, program: &[u8]) -> (loaded: usize)
        ensures
            loaded == if program@.len() <= 4096 - 0x200 {
                program@.len()
            } else {
                (4096 - 0x200) as nat
            },
            final(self)@ == old(self)@.subrange(0, 0x200) + program@.take(loaded as int) + old(
                self,
            )@.subrange(0x200 + loaded, 4096),
    {
        let room = MEMORY_SIZE - PROGRAM_START;
        let count = if program.len() <= room {
            program.len()
        } else {
            room
        };
        let mut i: usize = 0;
        while i < count
            invariant
                i <= count,
                count <= program@.len(),
                count <= 4096 - 0x200,
                self@ == old(self)@.subrange(0, 0x200) + program@.take(i as int) + old(
                    self,
                )@.subrange(0x200 + i, 4096),
            decreases count - i,
        {
            self.mem[PROGRAM_START + i] = program[i];
            i += 1;
        }
        count
    }
}

/// The glyph of every digit is the five bytes at five times the digit in a
/// memory that holds the font.
pub proof fn lemma_glyph_address(mem: Seq<u8>, digit: int)
    requires
        has_font(mem),
        0 <= digit <= 0xF,
    ensures
        mem.subrange(5 * digit, 5 * digit + 5) == glyph(digit),
{
}

} // verus!
