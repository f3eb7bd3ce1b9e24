//! The byte store and the bitmap surface.
use vstd::prelude::*;

verus! {

/// Bytes of addressable memory.
pub const MEMORY_SIZE: usize = 4096;
/// Where a program image is loaded.
pub const PROGRAM_START: usize = 0x200;
/// The largest program image.
pub const MAX_IMAGE_LEN: usize = 3584;
/// Width of the bitmap surface in pixels: one row is one `u64`.
pub const DISPLAY_WIDTH: usize = 64;
/// Height of the bitmap surface in pixels.
pub const DISPLAY_HEIGHT: usize = 32;

/// Bytes of the built-in digit sprites, stored from address 0.
pub const FONT_LEN: usize = 80;

/// The sprites of the hexadecimal digits 0 to F, five rows each.
pub open spec fn font_sprites() -> Seq<u8> {
    seq![
        0xF0, 0x90, 0x90, 0x90, 0xF0,
        0x20, 0x60, 0x20, 0x20, 0x70,
        0xF0, 0x10, 0xF0, 0x80, 0xF0,
        0xF0, 0x10, 0xF0, 0x10, 0xF0,
        0x90, 0x90, 0xF0, 0x10, 0x10,
        0xF0, 0x80, 0xF0, 0x10, 0xF0,
        0xF0, 0x80, 0xF0, 0x90, 0xF0,
        0xF0, 0x10, 0x20, 0x40, 0x40,
        0xF0, 0x90, 0xF0, 0x90, 0xF0,
        0xF0, 0x90, 0xF0, 0x10, 0xF0,
        0xF0, 0x90, 0xF0, 0x90, 0x90,
        0xE0, 0x90, 0xE0, 0x90, 0xE0,
        0xF0, 0x80, 0x80, 0x80, 0xF0,
        0xE0, 0x90, 0x90, 0x90, 0xE0,
        0xF0, 0x80, 0xF0, 0x80, 0xF0,
        0xF0, 0x80, 0xF0, 0x80, 0x80,
    ]
}

/// A fault raised while executing; each one halts the machine.
#[derive(Debug, Clone, Copy, PartialEq, Eq, Structural)]
pub enum ExecFault {
    /// An access to an address beyond the memory.
    OutOfBounds { addr: usize },
    /// A word that is no instruction.
    UnknownOpcode { word: u16 },
    /// A call with the stack already full.
    StackOverflow,
    /// A return with the stack empty.
    StackUnderflow,
}

/// Why a program image was not loaded.
#[derive(Debug, Clone, Copy, PartialEq, Eq, Structural)]
pub enum LoadError {
    ImageTooLarge { len: usize },
}

/// The contents of a memory: its bytes and the rows of its bitmap surface.
/// Pixel `(x, y)` is bit `63 - x` of row `y`.
pub struct MmuState {
    pub ram: Seq<u8>,
    pub vram: Seq<u64>,
}

/// The word stored big-endian at `a`.
pub open spec fn word_at(ram: Seq<u8>, a: int) -> u16 {
    (ram[a] as int * 256 + ram[a + 1] as int) as u16
}

/// Whether pixel `(x, y)` is set.
pub open spec fn pixel_on(vram: Seq<u64>, x: int, y: int) -> bool {
    (vram[y] >> ((63 - x) as u64)) & 1 == 1
}

/// The row bits that sprite byte `b` covers when drawn at column `x`: the
/// byte's most significant bit lands on column `x % 64`, and the columns
/// wrap around the right edge.
pub open spec fn sprite_mask(b: u8, x: u8) -> u64 {
    let m = (b as u64) << 56u64;
    let s = (x % 64) as u64;
    if s == 0 {
        m
    } else {
        (m >> s) | (m << ((64 - s) as u64))
    }
}

/// Which sprite row lands on surface row `j` when drawing at row `y`.
pub open spec fn row_offset(j: int, y: u8) -> int {
    (j + 32 - (y % 32)) % 32
}

/// The rows after xor-drawing `sprite` at `(x, y)`, rows wrapping at the
/// bottom edge.
pub open spec fn drawn(vram: Seq<u64>, sprite: Seq<u8>, x: u8, y: u8) -> Seq<u64> {
    Seq::new(
        vram.len(),
        |j: int|
            if row_offset(j, y) < sprite.len() {
                vram[j] ^ sprite_mask(sprite[row_offset(j, y)], x)
            } else {
                vram[j]
            },
    )
}

/// Drawing `sprite` at `(x, y)` turns off some pixel that was on.
pub open spec fn collides(vram: Seq<u64>, sprite: Seq<u8>, x: u8, y: u8) -> bool {
    exists|r: int|
        0 <= r < sprite.len() && #[trigger] (vram[(y + r) % 32] & sprite_mask(sprite[r], x)) != 0
}

/// Memory and bitmap surface.
pub struct Mmu {
    ram: Vec<u8>,
    vram: Vec<u64>,
}

impl View for Mmu {
    type V = MmuState;

    closed spec fn view(&self) -> MmuState {
        MmuState { ram: self.ram@, vram: self.vram@ }
    }
}

proof fn lemma_row_offset(y: u8, r: int, j: int)
    requires
        0 <= r < 32,
        0 <= j < 32,
    ensures
        row_offset((y + r) % 32, y) == r,
        row_offset(j, y) == r ==> j == (y + r) % 32,
{
}

fn mask_of(b: u8, x: u8) -> (m: u64)
    ensures
        m == sprite_mask(b, x),
{
    let m: u64 = (b as u64) << 56u64;
    let s: u64 = (x % 64) as u64;
    if s == 0 {
        m
    } else {
        (m >> s) | (m << (64 - s))
    }
}

impl Mmu {
    /// Sizes are those of the machine.
    pub open spec fn wf(&self) -> bool {
        self@.ram.len() == MEMORY_SIZE && self@.vram.len() == DISPLAY_HEIGHT
    }

    /// A memory holding the digit sprites from address 0 and zero bytes
    /// elsewhere, with a clear surface.
    pub fn new() -> (m: Mmu)
        ensures
            m.wf(),
            m@.ram == Seq::new(
                MEMORY_SIZE as nat,
                |a: int|
                    if a < FONT_LEN {
                        font_sprites()[a]
                    } else {
                        0u8
                    },
            ),
            m@.vram == Seq::new(DISPLAY_HEIGHT as nat, |i: int| 0u64),
    {
        let font: Vec<u8> = vec![
            0xF0, 0x90, 0x90, 0x90, 0xF0,
            0x20, 0x60, 0x20, 0x20, 0x70,
            0xF0, 0x10, 0xF0, 0x80, 0xF0,
            0xF0, 0x10, 0xF0, 0x10, 0xF0,
            0x90, 0x90, 0xF0, 0x10, 0x10,
            0xF0, 0x80, 0xF0, 0x10, 0xF0,
            0xF0, 0x80, 0xF0, 0x90, 0xF0,
            0xF0, 0x10, 0x20, 0x40, 0x40,
            0xF0, 0x90, 0xF0, 0x90, 0xF0,
            0xF0, 0x90, 0xF0, 0x10, 0xF0,
            0xF0, 0x90, 0xF0, 0x90, 0x90,
            0xE0, 0x90, 0xE0, 0x90, 0xE0,
            0xF0, 0x80, 0x80, 0x80, 0xF0,
            0xE0, 0x90, 0x90, 0x90, 0xE0,
            0xF0, 0x80, 0xF0, 0x80, 0xF0,
            0xF0, 0x80, 0xF0, 0x80, 0x80,
        ];
        assert(font@ == font_sprites());
        let mut ram: Vec<u8> = vec![0u8; MEMORY_SIZE];
        let mut k: usize = 0;
        while k < FONT_LEN
            invariant
                k <= FONT_LEN,
                font@ == font_sprites(),
                ram@.len() == MEMORY_SIZE,
                forall|a: int|
                    0 <= a < MEMORY_SIZE ==> #[trigger] ram@[a] == if a < k {
                        font_sprites()[a]
                    } else {
                        0u8
                    },
            decreases FONT_LEN - k,
        {
            ram.set(k, font[k]);
            k += 1;
        }
        let m = Mmu { ram, vram: vec![0u64; DISPLAY_HEIGHT] };
        assert(m@.ram =~= Seq::new(
            MEMORY_SIZE as nat,
            |a: int|
                if a < FONT_LEN {
                    font_sprites()[a]
                } else {
                    0u8
                },
        ));
        assert(m@.vram =~= Seq::new(DISPLAY_HEIGHT as nat, |i: int| 0u64));
        m
    }

    /// The byte at `index`.
    pub fn read_byte(&self, index: usize) -> (r: Result<u8, ExecFault>)
        requires
            self.wf(),
        ensures
            index < MEMORY_SIZE ==> r == Ok::<u8, ExecFault>(self@.ram[index as int]),
            index >= MEMORY_SIZE ==> r == Err::<u8, ExecFault>(ExecFault::OutOfBounds { addr: index }),
    {
        if index >= self.ram.len() {
            Err(ExecFault::OutOfBounds { addr: index })
        } else {
            Ok(self.ram[index])
        }
    }

    /// The big-endian word at `index`; both its bytes must be in memory.
    pub fn read_word(&self, index: usize) -> (r: Result<u16, ExecFault>)
        requires
            self.wf(),
        ensures
            index + 1 < MEMORY_SIZE ==> r == Ok::<u16, ExecFault>(word_at(self@.ram, index as int)),
            index + 1 >= MEMORY_SIZE ==> r == Err::<u16, ExecFault>(
                ExecFault::OutOfBounds { addr: index },
            ),
    {
        if index >= self.ram.len() - 1 {
            Err(ExecFault::OutOfBounds { addr: index })
        } else {
            let hi: u8 = self.ram[index];
            let lo: u8 = self.ram[index + 1];
            let word: u16 = ((hi as u16) << 8u16) | lo as u16;
            assert(((hi as u16) << 8u16) | lo as u16 == hi * 256 + lo) by (bit_vector);
            Ok(word)
        }
    }

    /// Stores `value` at `index`.
    pub fn write_byte(&mut self, index: usize, value: u8) -> (r: Result<(), ExecFault>)
        requires
            old(self).wf(),
        ensures
            final(self).wf(),
            index < MEMORY_SIZE ==> r is Ok && final(self)@.ram == old(self)@.ram.update(
                index as int,
                value,
            ),
            index >= MEMORY_SIZE ==> r == Err::<(), ExecFault>(ExecFault::OutOfBounds { addr: index })
                && final(self)@.ram == old(self)@.ram,
            final(self)@.vram == old(self)@.vram,
    {
        if index >= self.ram.len() {
            Err(ExecFault::OutOfBounds { addr: index })
        } else {
            self.ram.set(index, value);
            Ok(())
        }
    }

    /// Stores `bytes` at `memory[i..i + bytes.len()]`. Nothing is written
    /// when the range runs past the end of memory.
    pub fn write_block(&mut self, i: u16, bytes: &Vec<u8>) -> (r: Result<(), ExecFault>)
        requires
            old(self).wf(),
            bytes.len() <= MEMORY_SIZE,
        ensures
            final(self).wf(),
            final(self)@.vram == old(self)@.vram,
            i + bytes.len() > MEMORY_SIZE ==> r == Err::<(), ExecFault>(
                ExecFault::OutOfBounds { addr: (i + bytes.len() - 1) as usize },
            ) && final(self)@ == old(self)@,
            i + bytes.len() <= MEMORY_SIZE ==> r is Ok && final(self)@.ram == Seq::new(
                MEMORY_SIZE as nat,
                |a: int|
                    if i <= a < i + bytes.len() {
                        bytes@[a - i]
                    } else {
                        old(self)@.ram[a]
                    },
            ),
    {
        let addr = i as usize;
        if addr + bytes.len() > MEMORY_SIZE {
            return Err(ExecFault::OutOfBounds { addr: addr + bytes.len() - 1 });
        }
        let ghost old_ram = self.ram@;
        let mut k: usize = 0;
        while k < bytes.len()
            invariant
                k <= bytes.len(),
                addr + bytes.len() <= MEMORY_SIZE,
                addr == i,
                self.ram@.len() == MEMORY_SIZE,
                self.vram@ == old(self)@.vram,
                old_ram == old(self)@.ram,
                forall|a: int|
                    0 <= a < MEMORY_SIZE ==> #[trigger] self.ram@[a] == if addr <= a < addr + k {
                        bytes@[a - addr]
                    } else {
                        old_ram[a]
                    },
            decreases bytes.len() - k,
        {
            self.ram.set(addr + k, bytes[k]);
            k += 1;
        }
        assert(self@.ram =~= Seq::new(
            MEMORY_SIZE as nat,
            |a: int|
                if i <= a < i + bytes.len() {
                    bytes@[a - i]
                } else {
                    old_ram[a]
                },
        ));
        Ok(())
    }

    /// The `len` bytes at `memory[i..i + len]`.
    pub fn read_block(&self, i: u16, len: usize) -> (r: Result<Vec<u8>, ExecFault>)
        requires
            self.wf(),
            len <= MEMORY_SIZE,
        ensures
            i + len > MEMORY_SIZE ==> r == Err::<Vec<u8>, ExecFault>(
                ExecFault::OutOfBounds { addr: (i + len - 1) as usize },
            ),
            i + len <= MEMORY_SIZE ==> r is Ok && r->Ok_0@ == self@.ram.subrange(i as int, i + len),
    {
        let addr = i as usize;
        if addr + len > MEMORY_SIZE {
            return Err(ExecFault::OutOfBounds { addr: addr + len - 1 });
        }
        let mut out: Vec<u8> = Vec::new();
        let mut k: usize = 0;
        while k < len
            invariant
                k <= len,
                addr + len <= MEMORY_SIZE,
                addr == i,
                self.wf(),
                out@ == self@.ram.subrange(i as int, i + k),
            decreases len - k,
        {
            out.push(self.ram[addr + k]);
            k += 1;
            assert(out@ =~= self@.ram.subrange(i as int, i + k));
        }
        Ok(out)
    }

    /// Copies a program image to memory at `PROGRAM_START`. An image longer
    /// than `MAX_IMAGE_LEN` is refused and nothing is written.
    pub fn load_rom(&mut self, rom: Vec<u8>) -> (r: Result<(), LoadError>)
        requires
            old(self).wf(),
        ensures
            final(self).wf(),
            final(self)@.vram == old(self)@.vram,
            rom.len() > MAX_IMAGE_LEN ==> r == Err::<(), LoadError>(
                LoadError::ImageTooLarge { len: rom.len() },
            ) && final(self)@ == old(self)@,
            rom.len() <= MAX_IMAGE_LEN ==> r is Ok && final(self)@.ram == Seq::new(
                MEMORY_SIZE as nat,
                |a: int|
                    if PROGRAM_START <= a < PROGRAM_START + rom.len() {
                        rom@[a - PROGRAM_START]
                    } else {
                        old(self)@.ram[a]
                    },
            ),
    {
        if rom.len() > MAX_IMAGE_LEN {
            return Err(LoadError::ImageTooLarge { len: rom.len() });
        }
        let ghost old_ram = self.ram@;
        let mut k: usize = 0;
        while k < rom.len()
            invariant
                k <= rom.len() <= MAX_IMAGE_LEN,
                self.ram@.len() == MEMORY_SIZE,
                self.vram@ == old(self)@.vram,
                old_ram == old(self)@.ram,
                forall|a: int|
                    0 <= a < MEMORY_SIZE ==> #[trigger] self.ram@[a] == if PROGRAM_START <= a
                        < PROGRAM_START + k {
                        rom@[a - PROGRAM_START]
                    } else {
                        old_ram[a]
                    },
            decreases rom.len() - k,
        {
            self.ram.set(PROGRAM_START + k, rom[k]);
            k += 1;
        }
        assert(self@.ram =~= Seq::new(
            MEMORY_SIZE as nat,
            |a: int|
                if PROGRAM_START <= a < PROGRAM_START + rom.len() {
                    rom@[a - PROGRAM_START]
                } else {
                    old_ram[a]
                },
        ));
        Ok(())
    }

    /// Clears every pixel of the surface.
    pub fn clear_vram(&mut self)
        requires
            old(self).wf(),
        ensures
            final(self).wf(),
            final(self)@.ram == old(self)@.ram,
            final(self)@.vram == Seq::new(DISPLAY_HEIGHT as nat, |i: int| 0u64),
    {
        let mut j: usize = 0;
        while j < DISPLAY_HEIGHT
            invariant
                j <= DISPLAY_HEIGHT,
                self.vram@.len() == DISPLAY_HEIGHT,
                self.ram@ == old(self)@.ram,
                forall|i: int| 0 <= i < j ==> self.vram@[i] == 0u64,
            decreases DISPLAY_HEIGHT - j,
        {
            self.vram.set(j, 0);
            j += 1;
        }
        assert(self@.vram =~= Seq::new(DISPLAY_HEIGHT as nat, |i: int| 0u64));
    }

    /// Row `y` of the surface: pixel `x` is bit `63 - x`.
    pub fn vram_row(&self, y: usize) -> (r: u64)
        requires
            self.wf(),
            y < DISPLAY_HEIGHT,
        ensures
            r == self@.vram[y as int],
    {
        self.vram[y]
    }

    /// Whether pixel `(x, y)` is set.
    pub fn pixel(&self, x: usize, y: usize) -> (r: bool)
        requires
            self.wf(),
            x < DISPLAY_WIDTH,
            y < DISPLAY_HEIGHT,
        ensures
            r == pixel_on(self@.vram, x as int, y as int),
    {
        (self.vram[y] >> ((63 - x) as u64)) & 1 == 1
    }

    /// Xor-draws the `n` bytes at `i` as a sprite at `(x, y)` and tells
    /// whether a set pixel was turned off. Nothing changes when the sprite's
    /// bytes run past the end of memory.
    pub fn draw_sprite(&mut self, i: u16, n: usize, x: u8, y: u8) -> (r: Result<bool, ExecFault>)
        requires
            old(self).wf(),
            n < 16,
        ensures
            final(self).wf(),
            final(self)@.ram == old(self)@.ram,
            i + n > MEMORY_SIZE ==> r == Err::<bool, ExecFault>(
                ExecFault::OutOfBounds { addr: (i + n - 1) as usize },
            ) && final(self)@ == old(self)@,
            i + n <= MEMORY_SIZE ==> r == Ok::<bool, ExecFault>(
                collides(old(self)@.vram, old(self)@.ram.subrange(i as int, i + n), x, y),
            ) && final(self)@.vram == drawn(
                old(self)@.vram,
                old(self)@.ram.subrange(i as int, i + n),
                x,
                y,
            ),
    {
        let addr = i as usize;
        if addr > MEMORY_SIZE - n {
            return Err(ExecFault::OutOfBounds { addr: addr + n - 1 });
        }
        let ghost sprite = self.ram@.subrange(addr as int, addr + n);
        let ghost old_vram = self.vram@;
        let mut hit = false;
        let mut r: usize = 0;
        while r < n
            invariant
                r <= n < 16,
                addr + n <= MEMORY_SIZE,
                self.wf(),
                self.ram@ == old(self)@.ram,
                sprite == self.ram@.subrange(addr as int, addr + n),
                old_vram == old(self)@.vram,
                self.vram@ == drawn(old_vram, sprite.subrange(0, r as int), x, y),
                hit == collides(old_vram, sprite.subrange(0, r as int), x, y),
            decreases n - r,
        {
            let j: usize = (y as usize + r) % DISPLAY_HEIGHT;
            let m = mask_of(self.ram[addr + r], x);
            let row = self.vram[j];
            proof {
                lemma_row_offset(y, r as int, j as int);
                assert forall|i: int| 0 <= i < 32 && #[trigger] row_offset(i, y) == r implies i
                    == j by {
                    lemma_row_offset(y, r as int, i);
                }
                assert(row == old_vram[j as int]);
            }
            if row & m != 0 {
                hit = true;
            }
            self.vram.set(j, row ^ m);
            proof {
                let s0 = sprite.subrange(0, r as int);
                let s1 = sprite.subrange(0, r + 1);
                assert(s1[r as int] == self.ram@[addr + r]);
                assert(self.vram@ =~= drawn(old_vram, s1, x, y));
                if hit {
                    if row & m != 0 {
                        assert(old_vram[(y + r) % 32] & sprite_mask(s1[r as int], x) != 0);
                    } else {
                        let k = choose|k: int|
                            0 <= k < s0.len() && #[trigger] (old_vram[(y + k) % 32] & sprite_mask(s0[k], x)) != 0;
                        assert(s1[k] == s0[k]);
                    }
                } else {
                    assert forall|k: int| 0 <= k < s1.len() implies #[trigger] (old_vram[(y + k) % 32]
                        & sprite_mask(s1[k], x)) == 0 by {
                        if k < r {
                            assert(s1[k] == s0[k]);
                        }
                    }
                }
            }
            r += 1;
        }
        assert(sprite.subrange(0, n as int) =~= sprite);
        Ok(hit)
    }
}

} // verus!
