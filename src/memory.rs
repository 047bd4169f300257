use vstd::prelude::*;

use crate::error::Chip8Error;

verus! {

/// Size of the address space, in bytes.
pub const MEMORY_SIZE: usize = 4096;

/// First address of the program region.
pub const PROGRAM_START: usize = 0x200;

/// Largest program that fits the program region.
pub const MAX_PROGRAM_SIZE: usize = 0xE00;

/// Number of bytes in the font table.
pub const FONT_SIZE: usize = 80;

/// Bytes per font glyph.
pub const GLYPH_HEIGHT: usize = 5;

/// The built-in glyphs for the hex digits 0 to F, five rows each.
pub open spec fn font() -> Seq<u8> {
    seq![
        0xF0u8, 0x90, 0x90, 0x90, 0xF0, // 0
        0x20, 0x60, 0x20, 0x20, 0x70, // 1
        0xF0, 0x10, 0xF0, 0x80, 0xF0, // 2
        0xF0, 0x10, 0xF0, 0x10, 0xF0, // 3
        0x90, 0x90, 0xF0, 0x10, 0x10, // 4
        0xF0, 0x80, 0xF0, 0x10, 0xF0, // 5
        0xF0, 0x80, 0xF0, 0x90, 0xF0, // 6
        0xF0, 0x10, 0x20, 0x40, 0x40, // 7
        0xF0, 0x90, 0xF0, 0x90, 0xF0, // 8
        0xF0, 0x90, 0xF0, 0x10, 0xF0, // 9
        0xF0, 0x90, 0xF0, 0x90, 0x90, // A
        0xE0, 0x90, 0xE0, 0x90, 0xE0, // B
        0xF0, 0x80, 0x80, 0x80, 0xF0, // C
        0xE0, 0x90, 0x90, 0x90, 0xE0, // D
        0xF0, 0x80, 0xF0, 0x80, 0xF0, // E
        0xF0, 0x80, 0xF0, 0x80, 0x80, // F
    ]
}

/// Memory right after power-on: the font at address 0, zero elsewhere.
pub open spec fn initial_memory() -> Seq<u8> {
    Seq::new(MEMORY_SIZE as nat, |a: int| if a < FONT_SIZE { font()[a] } else { 0u8 })
}

/// The big-endian word stored at `a` and `a + 1`.
pub open spec fn word_at(m: Seq<u8>, a: int) -> u16 {
    (m[a] as int * 256 + m[a + 1] as int) as u16
}

/// `m` with the program region replaced by `program`, zero-filled past its end.
pub open spec fn with_program(m: Seq<u8>, program: Seq<u8>) -> Seq<u8> {
    Seq::new(
        m.len(),
        |a: int|
            if a < PROGRAM_START {
                m[a]
            } else if a - PROGRAM_START < program.len() {
                program[a - PROGRAM_START]
            } else {
                0u8
            },
    )
}

/// The 4096-byte address space.
pub struct Memory {
    bytes: Vec<u8>,
}

impl View for Memory {
    type V = Seq<u8>;

    closed spec fn view(&self) -> Seq<u8> {
        self.bytes@
    }
}

impl Memory {
    pub open spec fn wf(&self) -> bool {
        self@.len() == MEMORY_SIZE
    }

    /// Memory holding the font and nothing else.
    pub fn new() -> (r: Memory)
        ensures
            r.wf(),
            r@ == initial_memory(),
    {
        let glyphs: Vec<u8> = vec![
            0xF0u8, 0x90, 0x90, 0x90, 0xF0,
            0x20, 0x60, 0x20, 0x20, 0x70,
            0xF0, 0x10, 0xF0, 0x80, 0xF0,
            0xF0, 0x10, 0xF0, 0x10, 0xF0,
            0x90, 0x90, 0xF0, 0x10, 0x10,
            0xF0, 0x80, 0xF0, 0x10, 0xF0,
            0xF0, 0x80, 0xF0, 0x90, 0xF0,
            0xF0, 0x10, 0x20, 0x40, 0x40,
            0xF0, 0x90, 0xF0, 0x90, 0xF0,
            0xF0, 0x90, 0xF0, 0x10, 0xF0,
            0xF0, 0x90, 0xF0, 0x90, 0x90,
            0xE0, 0x90, 0xE0, 0x90, 0xE0,
            0xF0, 0x80, 0x80, 0x80, 0xF0,
            0xE0, 0x90, 0x90, 0x90, 0xE0,
            0xF0, 0x80, 0xF0, 0x80, 0xF0,
            0xF0, 0x80, 0xF0, 0x80, 0x80,
        ];
        assert(glyphs@ =~= font());
        let mut bytes: Vec<u8> = Vec::new();
        let mut a: usize = 0;
        while a < MEMORY_SIZE
            invariant
                a <= MEMORY_SIZE,
                glyphs@ == font(),
                bytes@.len() == a,
                forall|k: int| 0 <= k < a ==> bytes@[k] == initial_memory()[k],
            decreases MEMORY_SIZE - a,
        {
            if a < FONT_SIZE {
                bytes.push(glyphs[a]);
            } else {
                bytes.push(0);
            }
            a = a + 1;
        }
        let r = Memory { bytes };
        assert(r@ =~= initial_memory());
        r
    }

    /// The byte at `addr`.
    pub fn read_byte(&self, addr: u16) -> (r: Result<u8, Chip8Error>)
        requires
            self.wf(),
        ensures
            addr < MEMORY_SIZE ==> r == Ok::<u8, Chip8Error>(self@[addr as int]),
            addr >= MEMORY_SIZE ==> r == Err::<u8, Chip8Error>(Chip8Error::AddressOutOfBounds),
    {
        if (addr as usize) < MEMORY_SIZE {
            Ok(self.bytes[addr as usize])
        } else {
            Err(Chip8Error::AddressOutOfBounds)
        }
    }

    /// The big-endian word at `addr` and `addr + 1`.
    pub fn read_word(&self, addr: u16) -> (r: Result<u16, Chip8Error>)
        requires
            self.wf(),
        ensures
            addr + 1 < MEMORY_SIZE ==> r == Ok::<u16, Chip8Error>(word_at(self@, addr as int)),
            addr + 1 >= MEMORY_SIZE ==> r == Err::<u16, Chip8Error>(Chip8Error::AddressOutOfBounds),
    {
        if (addr as usize) + 1 < MEMORY_SIZE {
            let hi = self.bytes[addr as usize] as u16;
            let lo = self.bytes[addr as usize + 1] as u16;
            Ok(hi * 256 + lo)
        } else {
            Err(Chip8Error::AddressOutOfBounds)
        }
    }

    /// Stores `value` at `addr`.
    pub fn write_byte(&mut self, addr: u16, value: u8) -> (r: Result<(), Chip8Error>)
        requires
            old(self).wf(),
        ensures
            final(self).wf(),
            addr < MEMORY_SIZE ==> r is Ok && final(self)@ == old(self)@.update(addr as int, value),
            addr >= MEMORY_SIZE ==> r == Err::<(), Chip8Error>(Chip8Error::AddressOutOfBounds)
                && final(self)@ == old(self)@,
    {
        if (addr as usize) < MEMORY_SIZE {
            self.bytes.set(addr as usize, value);
            Ok(())
        } else {
            Err(Chip8Error::AddressOutOfBounds)
        }
    }

    /// Copies `program` to the program region and zeroes the rest of it.
    /// Fails, changing nothing, when the program does not fit.
    pub fn load_program(&mut self, program: &[u8]) -> (r: Result<(), Chip8Error>)
        requires
            old(self).wf(),
        ensures
            final(self).wf(),
            program@.len() <= MAX_PROGRAM_SIZE ==> r is Ok && final(self)@ == with_program(
                old(self)@,
                program@,
            ),
            program@.len() > MAX_PROGRAM_SIZE ==> r == Err::<(), Chip8Error>(
                Chip8Error::ProgramTooLarge,
            ) && final(self)@ == old(self)@,
    {
        if program.len() > MAX_PROGRAM_SIZE {
            return Err(Chip8Error::ProgramTooLarge);
        }
        let mut a: usize = PROGRAM_START;
        while a < MEMORY_SIZE
            invariant
                PROGRAM_START <= a <= MEMORY_SIZE,
                program@.len() <= MAX_PROGRAM_SIZE,
                self.bytes@.len() == MEMORY_SIZE,
                old(self)@.len() == MEMORY_SIZE,
                forall|k: int|
                    0 <= k < a ==> self.bytes@[k] == with_program(old(self)@, program@)[k],
                forall|k: int| a <= k < MEMORY_SIZE ==> self.bytes@[k] == old(self)@[k],
            decreases MEMORY_SIZE - a,
        {
            let offset: usize = a - PROGRAM_START;
            if offset < program.len() {
                self.bytes.set(a, program[offset]);
            } else {
                self.bytes.set(a, 0);
            }
            a = a + 1;
        }
        assert(self@ =~= with_program(old(self)@, program@));
        Ok(())
    }
}

} // verus!
