//! Flat byte-addressable memory: 4096 bytes, preloaded with the font table.

use vstd::prelude::*;

verus! {

/// Number of addressable bytes.
pub const MEM_SIZE: usize = 4096;

/// First address of the 80-byte font table.
pub const FONT_BASE: u16 = 0x50;

/// First address at which a program image is placed.
pub const ROM_BASE: u16 = 0x200;

/// The fixed font table: 16 hex-digit glyphs of 5 row bytes each, in order.
pub open spec fn font() -> Seq<u8> {
    seq![
        0xF0u8, 0x90, 0x90, 0x90, 0xF0, // 0
        0x20, 0x60, 0x20, 0x20, 0x70, // 1
        0xF0, 0x10, 0xF0, 0x80, 0xF0, // 2
        0xF0, 0x10, 0xF0, 0x10, 0xF0, // 3
        0x90, 0x90, 0xF0, 0x10, 0x10, // 4
        0xF0, 0x80, 0xF0, 0x10, 0xF0, // 5
        0xF0, 0x80, 0xF0, 0x90, 0xF0, // 6
        0xF0, 0x10, 0x20, 0x40, 0x40, // 7
        0xF0, 0x90, 0xF0, 0x90, 0xF0, // 8
        0xF0, 0x90, 0xF0, 0x10, 0xF0, // 9
        0xF0, 0x90, 0xF0, 0x90, 0x90, // A
        0xE0, 0x90, 0xE0, 0x90, 0xE0, // B
        0xF0, 0x80, 0x80, 0x80, 0xF0, // C
        0xE0, 0x90, 0x90, 0x90, 0xE0, // D
        0xF0, 0x80, 0xF0, 0x80, 0xF0, // E
        0xF0, 0x80, 0xF0, 0x80, 0x80, // F
    ]
}

/// The memory contents right after construction: the font table at
/// `FONT_BASE`, zero everywhere else.
pub open spec fn initial_memory() -> Seq<u8> {
    Seq::new(MEM_SIZE as nat, |k: int| if FONT_BASE <= k < FONT_BASE + 80 { font()[k - FONT_BASE] } else { 0u8 })
}

/// 4096 addressable bytes. Every address handed to an accessor must be in
/// range; the instruction set's 12-bit addresses guarantee that for
/// well-formed callers.
pub struct RAM {
    pub memory: [u8; 4096],
}

impl View for RAM {
    type V = Seq<u8>;

    open spec fn view(&self) -> Seq<u8> {
        self.memory@
    }
}

impl RAM {
    /// Fresh memory: all zero except the font table at `FONT_BASE`.
    pub fn new() -> (r: RAM)
        ensures
            r@ == initial_memory(),
    {
        let mut ram = RAM { memory: [0; 4096] };
        let font_rows: [u8; 80] = [
            0xF0, 0x90, 0x90, 0x90, 0xF0, // 0
            0x20, 0x60, 0x20, 0x20, 0x70, // 1
            0xF0, 0x10, 0xF0, 0x80, 0xF0, // 2
            0xF0, 0x10, 0xF0, 0x10, 0xF0, // 3
            0x90, 0x90, 0xF0, 0x10, 0x10, // 4
            0xF0, 0x80, 0xF0, 0x10, 0xF0, // 5
            0xF0, 0x80, 0xF0, 0x90, 0xF0, // 6
            0xF0, 0x10, 0x20, 0x40, 0x40, // 7
            0xF0, 0x90, 0xF0, 0x90, 0xF0, // 8
            0xF0, 0x90, 0xF0, 0x10, 0xF0, // 9
            0xF0, 0x90, 0xF0, 0x90, 0x90, // A
            0xE0, 0x90, 0xE0, 0x90, 0xE0, // B
            0xF0, 0x80, 0x80, 0x80, 0xF0, // C
            0xE0, 0x90, 0x90, 0x90, 0xE0, // D
            0xF0, 0x80, 0xF0, 0x80, 0xF0, // E
            0xF0, 0x80, 0xF0, 0x80, 0x80, // F
        ];
        assert(font_rows@ =~= font());
        for i in 0..80usize
            invariant
                forall|j: int| 0 <= j < i ==> ram.memory@[FONT_BASE + j] == font()[j],
                forall|k: int|
                    0 <= k < MEM_SIZE && !(FONT_BASE <= k < FONT_BASE + i) ==> ram.memory@[k]
                        == 0u8,
                font_rows@ == font(),
        {
            ram.write_byte(FONT_BASE + i as u16, font_rows[i]);
        }
        assert(ram@ =~= initial_memory());
        ram
    }

    /// The byte at `adr`.
    pub fn read_byte(&self, adr: u16) -> (r: u8)
        requires
            adr < MEM_SIZE,
        ensures
            r == self@[adr as int],
    {
        self.memory[adr as usize]
    }

    /// Store `val` at `adr`.
    pub fn write_byte(&mut self, adr: u16, val: u8)
        requires
            adr < MEM_SIZE,
        ensures
            final(self)@ == old(self)@.update(adr as int, val),
    {
        self.memory[adr as usize] = val;
    }

    /// The big-endian 16-bit word whose high byte sits at `adr`.
    pub fn read_word(&self, adr: u16) -> (r: u16)
        requires
            adr + 1 < MEM_SIZE,
        ensures
            r == self@[adr as int] * 256 + self@[adr as int + 1],
    {
        let first_byte = self.memory[adr as usize] as u16;
        let second_byte = self.memory[adr as usize + 1] as u16;
        first_byte * 256 + second_byte
    }

    /// Store `val` big-endian: high byte at `adr`, low byte at `adr + 1`.
    pub fn write_word(&mut self, adr: u16, val: u16)
        requires
            adr + 1 < MEM_SIZE,
        ensures
            final(self)@ == old(self)@.update(adr as int, (val / 256) as u8).update(
                adr as int + 1,
                (val % 256) as u8,
            ),
    {
        let first_byte = (val / 256) as u8;
        let second_byte = (val % 256) as u8;
        self.memory[adr as usize] = first_byte;
        self.memory[adr as usize + 1] = second_byte;
    }

    /// Copy a program image verbatim into memory starting at `ROM_BASE`.
    /// The image must fit in the remaining memory.
    pub fn load_rom(&mut self, rom: &Vec<u8>)
        requires
            ROM_BASE + rom@.len() <= MEM_SIZE,
        ensures
            forall|k: int|
                ROM_BASE <= k < ROM_BASE + rom@.len() ==> final(self)@[k] == rom@[k - ROM_BASE],
            forall|k: int|
                0 <= k < MEM_SIZE && !(ROM_BASE <= k < ROM_BASE + rom@.len()) ==> final(self)@[k]
                    == old(self)@[k],
    {
        for i in 0..rom.len()
            invariant
                ROM_BASE + rom@.len() <= MEM_SIZE,
                forall|j: int| 0 <= j < i ==> self.memory@[ROM_BASE + j] == rom@[j],
                forall|k: int|
                    0 <= k < MEM_SIZE && !(ROM_BASE <= k < ROM_BASE + i) ==> self.memory@[k]
                        == old(self)@[k],
        {
            self.write_byte(ROM_BASE + i as u16, rom[i]);
        }
    }
}

} // verus!
