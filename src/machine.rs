use vstd::prelude::*;

use crate::error::Chip8Error;
use crate::model::{
    execute_op, step_machine, tick, GLYPH_SIZE,
    add_index, add_regs, call, clear_screen, first_pressed, index_after_block, jump_offset, key_down,
    load_regs, return_from, shift_left, shift_right, store_bcd, store_regs, sub_regs, sub_rev_regs,
    wait_key,
    clip, draw, drawn_row, row_collides, sprite_pixel, LAST_ADDRESS,
    blank_display, font, initial_memory, initial_state, Chip8Implementation, Fault, MachineState,
    MAX_ROM_SIZE, FONT_ADDRESS, HEIGHT, WIDTH, MEMORY_SIZE, REGISTER_COUNT, ROM_ADDRESS,
};
use crate::stack::Stack;

verus! {

/// A CHIP-8 machine.
pub struct Chip8 {
    /// Rows of pixels, top first; `true` is lit.
    pub display: [[bool; 64]; 32],
    /// Which of the keys 0x0..=0xF are held; written by the host.
    pub keys_pressed: [bool; 16],
    memory: [u8; 4096],
    pc: u16,
    i: u16,
    delay_timer: u8,
    sound_timer: u8,
    stack: Stack,
    v: [u8; 16],
    implementation: Chip8Implementation,
    fault: Option<Fault>,
}

pub open spec fn rows_view(display: [[bool; 64]; 32]) -> Seq<Seq<bool>> {
    display@.map_values(|row: [bool; 64]| row@)
}

/// Relies on rand::random::<u8>: a byte from the thread-local generator;
/// any value may come back.
#[verifier::external_body]
fn random_byte() -> (r: u8) {
    rand::random::<u8>()
}

/// A failing instruction changes nothing.
proof fn lemma_failure_keeps_state(s: MachineState, op: u16, random: u8)
    ensures
        execute_op(s, op, random).1 is Err ==> execute_op(s, op, random).0 == s,
{
}

/// XORs the `cols` leftmost pixels of `byte` into `row` from column `x0`;
/// returns whether a lit pixel was turned off.
fn draw_row(row: &mut [bool; 64], x0: usize, cols: usize, byte: u8) -> (hit: bool)
    requires
        cols <= 8,
        x0 + cols <= WIDTH,
    ensures
        final(row)@ == drawn_row(old(row)@, x0 as int, cols as int, byte),
        hit == row_collides(old(row)@, x0 as int, cols as int, byte),
{
    let ghost orig = row@;
    let mut hit = false;
    let mut c: usize = 0;
    while c < cols
        invariant
            c <= cols <= 8,
            x0 + cols <= WIDTH,
            orig.len() == WIDTH,
            row@.len() == WIDTH,
            forall|xx: int|
                0 <= xx < WIDTH ==> #[trigger] row@[xx] == if x0 <= xx < x0 + c {
                    orig[xx] != sprite_pixel(byte, xx - x0)
                } else {
                    orig[xx]
                },
            hit == exists|k: int| 0 <= k < c && #[trigger] orig[x0 + k] && sprite_pixel(byte, k),
        decreases cols - c,
    {
        let shift: u8 = (7 - c) as u8;
        let lit = (byte >> shift) & 1 == 1;
        let before = row[x0 + c];
        let ghost prev = hit;
        assert(lit == sprite_pixel(byte, c as int));
        assert(before == orig[x0 + c]);
        if before && lit {
            hit = true;
        }
        row[x0 + c] = before != lit;
        proof {
            if before && lit {
                assert(orig[x0 + c] && sprite_pixel(byte, c as int));
            } else if !prev {
                assert forall|k: int| 0 <= k < c + 1 implies !(#[trigger] orig[x0 + k]
                    && sprite_pixel(byte, k)) by {
                    if k == c {
                        assert(x0 + k == x0 + c);
                    }
                }
            }
        }
        c = c + 1;
    }
    assert(row@ =~= drawn_row(orig, x0 as int, cols as int, byte));
    hit
}

impl View for Chip8 {
    type V = MachineState;

    closed spec fn view(&self) -> MachineState {
        MachineState {
            memory: self.memory@,
            v: self.v@,
            pc: self.pc,
            i: self.i,
            delay_timer: self.delay_timer,
            sound_timer: self.sound_timer,
            stack: self.stack@,
            display: rows_view(self.display),
            keys: self.keys_pressed@,
            implementation: self.implementation,
            fault: self.fault,
        }
    }
}

impl Chip8 {
    /// The stack's cursor stays within its storage.
    pub closed spec fn wf(&self) -> bool {
        self.stack.wf()
    }

    proof fn lemma_valid(&self)
        requires
            self.wf(),
        ensures
            self@.valid(),
            self@.display == rows_view(self.display),
    {
        self.stack.lemma_bounded();
        assert forall|y: int| 0 <= y < HEIGHT implies (#[trigger] self@.display[y]).len() == WIDTH by {
            assert(self.display@[y]@.len() == WIDTH);
        }
    }

    /// Builds a machine with the font and `rom` loaded, everything else zero
    /// and PC at `ROM_ADDRESS`. A ROM larger than `MAX_ROM_SIZE` is refused.
    pub fn new(rom: &[u8], implementation: Chip8Implementation) -> (r: Result<Self, Chip8Error>)
        ensures
            rom@.len() > MAX_ROM_SIZE ==> r == Err::<Self, Chip8Error>(
                Chip8Error::RomTooLarge(rom@.len() as usize),
            ),
            rom@.len() <= MAX_ROM_SIZE ==> r is Ok && r.unwrap().wf() && r.unwrap()@
                == initial_state(rom@, implementation),
    {
        if rom.len() > MAX_ROM_SIZE {
            return Err(Chip8Error::RomTooLarge(rom.len()));
        }
        let glyphs: [u8; 80] = [
            0xF0, 0x90, 0x90, 0x90, 0xF0,
            0x20, 0x60, 0x20, 0x20, 0x70,
            0xF0, 0x10, 0xF0, 0x80, 0xF0,
            0xF0, 0x10, 0xF0, 0x10, 0xF0,
            0x90, 0x90, 0xF0, 0x10, 0x10,
            0xF0, 0x80, 0xF0, 0x10, 0xF0,
            0xF0, 0x80, 0xF0, 0x90, 0xF0,
            0xF0, 0x10, 0x20, 0x40, 0x40,
            0xF0, 0x90, 0xF0, 0x90, 0xF0,
            0xF0, 0x90, 0xF0, 0x10, 0xF0,
            0xF0, 0x90, 0xF0, 0x90, 0x90,
            0xE0, 0x90, 0xE0, 0x90, 0xE0,
            0xF0, 0x80, 0x80, 0x80, 0xF0,
            0xE0, 0x90, 0x90, 0x90, 0xE0,
            0xF0, 0x80, 0xF0, 0x80, 0xF0,
            0xF0, 0x80, 0xF0, 0x80, 0x80,
        ];
        assert(glyphs@ =~= font());
        let mut memory: [u8; 4096] = [0; 4096];
        assert(forall|a: int| 0 <= a < MEMORY_SIZE ==> memory@[a] == 0u8);
        let mut k: usize = 0;
        while k < 80
            invariant
                k <= 80,
                glyphs@ == font(),
                memory@.len() == MEMORY_SIZE,
                forall|a: int|
                    0 <= a < MEMORY_SIZE ==> #[trigger] memory@[a] == if FONT_ADDRESS <= a
                        < FONT_ADDRESS + k {
                        font()[a - FONT_ADDRESS]
                    } else {
                        0u8
                    },
            decreases 80 - k,
        {
            memory[FONT_ADDRESS + k] = glyphs[k];
            k = k + 1;
        }
        let mut k: usize = 0;
        while k < rom.len()
            invariant
                k <= rom@.len() <= MAX_ROM_SIZE,
                memory@.len() == MEMORY_SIZE,
                forall|a: int|
                    0 <= a < MEMORY_SIZE ==> #[trigger] memory@[a] == if FONT_ADDRESS <= a
                        < FONT_ADDRESS + 80 {
                        font()[a - FONT_ADDRESS]
                    } else if ROM_ADDRESS <= a < ROM_ADDRESS + k {
                        rom@[a - ROM_ADDRESS]
                    } else {
                        0u8
                    },
            decreases rom@.len() - k,
        {
            memory[ROM_ADDRESS + k] = rom[k];
            k = k + 1;
        }
        let r = Chip8 {
            display: [[false; 64]; 32],
            keys_pressed: [false; 16],
            memory,
            pc: ROM_ADDRESS as u16,
            i: 0,
            delay_timer: 0,
            sound_timer: 0,
            stack: Stack::new(),
            v: [0; 16],
            implementation,
            fault: None,
        };
        assert(r@.memory =~= initial_memory(rom@));
        assert(r@.v =~= Seq::new(REGISTER_COUNT as nat, |k: int| 0u8));
        assert(r@.keys =~= Seq::new(REGISTER_COUNT as nat, |k: int| false));
        assert forall|y: int| 0 <= y < HEIGHT implies #[trigger] r@.display[y] =~= blank_display()[y] by {}
        assert(r@.display =~= blank_display());
        Ok(r)
    }

    /// DXYN: draws an N-row sprite from memory at I at (VX mod 64, VY mod 32),
    /// clipped at the right and bottom edges; VF reports a collision.
    fn fdxyn(&mut self, x: usize, y: usize, n: usize) -> (r: Result<bool, Chip8Error>)
        requires
            old(self).wf(),
            x < REGISTER_COUNT,
            y < REGISTER_COUNT,
            n < 16,
        ensures
            final(self).wf(),
            (final(self)@, r) == draw(old(self)@, x as int, y as int, n as int),
    {
        proof {
            self.lemma_valid();
        }
        let x0 = (self.v[x] % 64) as usize;
        let y0 = (self.v[y] % 32) as usize;
        let cols: usize = if x0 + 8 > WIDTH {
            WIDTH - x0
        } else {
            8
        };
        let rows: usize = if y0 + n > HEIGHT {
            HEIGHT - y0
        } else {
            n
        };
        let base = self.i as usize;
        if rows > 0 && base + rows - 1 > LAST_ADDRESS {
            return Err(Chip8Error::AddressOutOfRange((base + rows - 1) as u32));
        }
        let ghost s0 = self@;
        let mut display = self.display;
        let mut hit = false;
        let mut r: usize = 0;
        while r < rows
            invariant
                s0 == old(self)@,
                s0.valid(),
                self@ == s0,
                s0.display == rows_view(self.display),
                r <= rows,
                x < REGISTER_COUNT,
                y < REGISTER_COUNT,
                y0 + rows <= HEIGHT,
                x0 + cols <= WIDTH,
                cols <= 8,
                x0 == (s0.v[x as int] % 64) as int,
                y0 == (s0.v[y as int] % 32) as int,
                rows == clip(y0 as int, n as int, HEIGHT as int),
                cols == clip(x0 as int, 8, WIDTH as int),
                base == s0.i,
                rows > 0 ==> base + rows - 1 <= LAST_ADDRESS,
                forall|yy: int|
                    0 <= yy < HEIGHT ==> #[trigger] rows_view(display)[yy] == if y0 <= yy < y0
                        + r {
                        drawn_row(s0.display[yy], x0 as int, cols as int, s0.memory[base + (yy - y0)])
                    } else {
                        s0.display[yy]
                    },
                hit == exists|k: int|
                    0 <= k < r && #[trigger] row_collides(
                        s0.display[y0 + k],
                        x0 as int,
                        cols as int,
                        s0.memory[base + k],
                    ),
            decreases rows - r,
        {
            let byte = self.memory[base + r];
            let mut row = display[y0 + r];
            assert(rows_view(display)[y0 + r] == display@[y0 + r]@);
            assert(rows_view(display)[y0 + r] == s0.display[y0 + r]);
            let row_hit = draw_row(&mut row, x0, cols, byte);
            let ghost prev = hit;
            let ghost before = display;
            display[y0 + r] = row;
            hit = hit || row_hit;
            proof {
                assert forall|yy: int| 0 <= yy < HEIGHT implies #[trigger] rows_view(display)[yy]
                    == if y0 <= yy < y0 + r + 1 {
                    drawn_row(s0.display[yy], x0 as int, cols as int, s0.memory[base + (yy - y0)])
                } else {
                    s0.display[yy]
                } by {
                    if yy != y0 + r {
                        assert(rows_view(display)[yy] == rows_view(before)[yy]);
                    }
                }
                if row_hit {
                    assert(row_collides(s0.display[y0 + r], x0 as int, cols as int, s0.memory[base + r]));
                } else if !prev {
                    assert forall|k: int| 0 <= k < r + 1 implies !#[trigger] row_collides(
                        s0.display[y0 + k],
                        x0 as int,
                        cols as int,
                        s0.memory[base + k],
                    ) by {}
                }
            }
            r = r + 1;
        }
        self.display = display;
        self.v[15] = if hit {
            1
        } else {
            0
        };
        proof {
            let (t, res) = draw(s0, x as int, y as int, n as int);
            assert(self@.display =~= t.display);
            assert(self@.v =~= t.v);
            assert(self@ =~= t);
        }
        Ok(true)
    }

    /// 00E0: darkens every pixel.
    fn f00e0(&mut self)
        requires
            old(self).wf(),
        ensures
            final(self).wf(),
            (final(self)@, Ok::<bool, Chip8Error>(true)) == clear_screen(old(self)@),
    {
        self.display = [[false; 64]; 32];
        assert forall|y: int| 0 <= y < HEIGHT implies #[trigger] self@.display[y] =~= blank_display()[y] by {}
        assert(self@.display =~= blank_display());
        assert(self@ =~= clear_screen(old(self)@).0);
    }

    /// 00EE: returns to the address on top of the stack.
    fn f00ee(&mut self) -> (r: Result<bool, Chip8Error>)
        requires
            old(self).wf(),
        ensures
            final(self).wf(),
            (final(self)@, r) == return_from(old(self)@),
    {
        match self.stack.pop() {
            Ok(address) => {
                self.pc = address;
                Ok(false)
            },
            Err(e) => Err(e),
        }
    }

    /// 2NNN: pushes PC and jumps to NNN.
    fn f2nnn(&mut self, nnn: u16) -> (r: Result<bool, Chip8Error>)
        requires
            old(self).wf(),
        ensures
            final(self).wf(),
            (final(self)@, r) == call(old(self)@, nnn as int),
    {
        let pc = self.pc;
        match self.stack.push(pc) {
            Ok(()) => {
                self.pc = nnn;
                Ok(false)
            },
            Err(e) => Err(e),
        }
    }

    /// Skips the next instruction when `cond` holds.
    fn skip_if(&mut self, cond: bool)
        requires
            old(self).wf(),
            old(self)@.pc <= 0x1000,
        ensures
            final(self).wf(),
            final(self)@ == old(self)@.skip_if(cond),
    {
        if cond {
            self.pc = self.pc + 2;
        }
    }

    /// Sets register `x`.
    fn set_v(&mut self, x: usize, val: u8)
        requires
            old(self).wf(),
            x < REGISTER_COUNT,
        ensures
            final(self).wf(),
            final(self)@ == old(self)@.with_v(x as int, val),
    {
        self.v[x] = val;
        assert(self@ =~= old(self)@.with_v(x as int, val));
    }

    /// Sets register `x`, then VF.
    fn set_flagged(&mut self, x: usize, val: u8, flag: u8)
        requires
            old(self).wf(),
            x < REGISTER_COUNT,
        ensures
            final(self).wf(),
            final(self)@ == old(self)@.with_flagged(x as int, val, flag),
    {
        self.set_v(x, val);
        self.set_v(15, flag);
    }

    /// 8XY4: VX + VY, VF the carry.
    fn f8xy4(&mut self, x: usize, y: usize)
        requires
            old(self).wf(),
            x < REGISTER_COUNT,
            y < REGISTER_COUNT,
        ensures
            final(self).wf(),
            final(self)@ == add_regs(old(self)@, x as int, y as int),
    {
        let sum = self.v[x] as u16 + self.v[y] as u16;
        let carry: u8 = if sum > 255 {
            1
        } else {
            0
        };
        self.set_flagged(x, (sum % 256) as u8, carry);
    }

    /// 8XY5: VX - VY, VF set when nothing is borrowed.
    fn f8xy5(&mut self, x: usize, y: usize)
        requires
            old(self).wf(),
            x < REGISTER_COUNT,
            y < REGISTER_COUNT,
        ensures
            final(self).wf(),
            final(self)@ == sub_regs(old(self)@, x as int, y as int),
    {
        let vx = self.v[x];
        let vy = self.v[y];
        let no_borrow: u8 = if vx >= vy {
            1
        } else {
            0
        };
        let diff = (vx as u16 + 256 - vy as u16) % 256;
        assert(diff == (vx - vy) % 256);
        self.set_flagged(x, diff as u8, no_borrow);
    }

    /// 8XY7: VY - VX, VF set when nothing is borrowed.
    fn f8xy7(&mut self, x: usize, y: usize)
        requires
            old(self).wf(),
            x < REGISTER_COUNT,
            y < REGISTER_COUNT,
        ensures
            final(self).wf(),
            final(self)@ == sub_rev_regs(old(self)@, x as int, y as int),
    {
        let vx = self.v[x];
        let vy = self.v[y];
        let no_borrow: u8 = if vy >= vx {
            1
        } else {
            0
        };
        let diff = (vy as u16 + 256 - vx as u16) % 256;
        assert(diff == (vy - vx) % 256);
        self.set_flagged(x, diff as u8, no_borrow);
    }

    /// The operand of 8XY6 / 8XYE under this machine's flavour.
    fn shift_source(&self, x: usize, y: usize) -> (r: u8)
        requires
            self.wf(),
            x < REGISTER_COUNT,
            y < REGISTER_COUNT,
        ensures
            r == self@.shift_source(x as int, y as int),
    {
        match self.implementation {
            Chip8Implementation::CosmacVip => self.v[y],
            Chip8Implementation::Modern => self.v[x],
        }
    }

    /// 8XY6: shifts right by one, VF the bit shifted out.
    fn f8xy6(&mut self, x: usize, y: usize)
        requires
            old(self).wf(),
            x < REGISTER_COUNT,
            y < REGISTER_COUNT,
        ensures
            final(self).wf(),
            final(self)@ == shift_right(old(self)@, x as int, y as int),
    {
        let src = self.shift_source(x, y);
        self.set_flagged(x, src / 2, src % 2);
    }

    /// 8XYE: shifts left by one, VF the bit shifted out.
    fn f8xye(&mut self, x: usize, y: usize)
        requires
            old(self).wf(),
            x < REGISTER_COUNT,
            y < REGISTER_COUNT,
        ensures
            final(self).wf(),
            final(self)@ == shift_left(old(self)@, x as int, y as int),
    {
        let src = self.shift_source(x, y);
        let doubled = ((src as u16 * 2) % 256) as u8;
        self.set_flagged(x, doubled, src / 128);
    }

    /// BNNN: jumps to NNN plus V0 (COSMAC VIP) or plus VX (later interpreters).
    fn fbnnn(&mut self, x: usize, nnn: u16)
        requires
            old(self).wf(),
            x < REGISTER_COUNT,
            nnn <= LAST_ADDRESS,
        ensures
            final(self).wf(),
            final(self)@ == jump_offset(old(self)@, x as int, nnn as int),
    {
        let offset = match self.implementation {
            Chip8Implementation::CosmacVip => self.v[0],
            Chip8Implementation::Modern => self.v[x],
        };
        self.pc = nnn + offset as u16;
    }

    /// EX9E: skips when the key named by VX is held.
    fn fex9e(&mut self, x: usize)
        requires
            old(self).wf(),
            old(self)@.pc <= 0x1000,
            x < REGISTER_COUNT,
        ensures
            final(self).wf(),
            final(self)@ == old(self)@.skip_if(key_down(old(self)@.keys, old(self)@.v[x as int] as int)),
    {
        let key = self.v[x] as usize;
        let down = key < REGISTER_COUNT && self.keys_pressed[key];
        self.skip_if(down);
    }

    /// EXA1: skips when the key named by VX is not held.
    fn fexa1(&mut self, x: usize)
        requires
            old(self).wf(),
            old(self)@.pc <= 0x1000,
            x < REGISTER_COUNT,
        ensures
            final(self).wf(),
            final(self)@ == old(self)@.skip_if(!key_down(old(self)@.keys, old(self)@.v[x as int] as int)),
    {
        let key = self.v[x] as usize;
        let down = key < REGISTER_COUNT && self.keys_pressed[key];
        self.skip_if(!down);
    }

    /// FX0A: stores the lowest held key in VX, or steps back to wait for one.
    fn ffx0a(&mut self, x: usize)
        requires
            old(self).wf(),
            old(self)@.pc >= 2,
            x < REGISTER_COUNT,
        ensures
            final(self).wf(),
            final(self)@ == wait_key(old(self)@, x as int),
    {
        let mut k: usize = 0;
        while k < REGISTER_COUNT && !self.keys_pressed[k]
            invariant
                k <= REGISTER_COUNT,
                first_pressed(self@.keys, 0) == first_pressed(self@.keys, k as int),
            decreases REGISTER_COUNT - k,
        {
            k = k + 1;
        }
        if k == REGISTER_COUNT {
            self.pc = self.pc - 2;
        } else {
            self.set_v(x, k as u8);
        }
    }

    /// FX1E: adds VX to I; later interpreters flag a result past the end of memory.
    fn ffx1e(&mut self, x: usize)
        requires
            old(self).wf(),
            x < REGISTER_COUNT,
        ensures
            final(self).wf(),
            final(self)@ == add_index(old(self)@, x as int),
    {
        let sum = self.i as u32 + self.v[x] as u32;
        self.i = (sum % 65536) as u16;
        if self.implementation == Chip8Implementation::Modern && sum > LAST_ADDRESS as u32 {
            self.set_v(15, 1);
        }
    }

    /// FX29: points I at the glyph for the low nibble of VX.
    fn ffx29(&mut self, x: usize)
        requires
            old(self).wf(),
            x < REGISTER_COUNT,
        ensures
            final(self).wf(),
            final(self)@ == old(self)@.with_i(
                FONT_ADDRESS + (old(self)@.v[x as int] % 16) * GLYPH_SIZE,
            ),
    {
        let digit = (self.v[x] % 16) as u16;
        assert(digit * 5 <= 75) by (nonlinear_arith)
            requires
                digit < 16,
        ;
        self.i = FONT_ADDRESS as u16 + digit * GLYPH_SIZE as u16;
    }

    /// FX33: stores the decimal digits of VX at I, I+1 and I+2.
    fn ffx33(&mut self, x: usize) -> (r: Result<bool, Chip8Error>)
        requires
            old(self).wf(),
            x < REGISTER_COUNT,
        ensures
            final(self).wf(),
            (final(self)@, r) == store_bcd(old(self)@, x as int),
    {
        let base = self.i as usize;
        if base + 2 > LAST_ADDRESS {
            return Err(Chip8Error::AddressOutOfRange((base + 2) as u32));
        }
        let number = self.v[x];
        self.memory[base] = number / 100;
        self.memory[base + 1] = (number / 10) % 10;
        self.memory[base + 2] = number % 10;
        assert(self@ =~= store_bcd(old(self)@, x as int).0);
        Ok(false)
    }

    /// I after FX55 / FX65 over V0..=VX.
    fn index_after_block(&self, x: usize) -> (r: u16)
        requires
            self.i as int + x <= LAST_ADDRESS,
        ensures
            r == index_after_block(self@, x as int),
    {
        match self.implementation {
            Chip8Implementation::CosmacVip => self.i + x as u16 + 1,
            Chip8Implementation::Modern => self.i,
        }
    }

    /// FX55: stores V0..=VX at I onwards.
    fn ffx55(&mut self, x: usize) -> (r: Result<bool, Chip8Error>)
        requires
            old(self).wf(),
            x < REGISTER_COUNT,
        ensures
            final(self).wf(),
            (final(self)@, r) == store_regs(old(self)@, x as int),
    {
        let base = self.i as usize;
        if base + x > LAST_ADDRESS {
            return Err(Chip8Error::AddressOutOfRange((base + x) as u32));
        }
        let ghost s0 = self@;
        let mut k: usize = 0;
        while k <= x
            invariant
                x < REGISTER_COUNT,
                base == s0.i,
                base + x <= LAST_ADDRESS,
                k <= x + 1,
                self@ == (MachineState { memory: self@.memory, ..s0 }),
                self.wf(),
                self@.memory.len() == MEMORY_SIZE,
                s0.memory.len() == MEMORY_SIZE,
                s0.v.len() == REGISTER_COUNT,
                forall|a: int|
                    0 <= a < MEMORY_SIZE ==> #[trigger] self@.memory[a] == if base <= a < base + k {
                        s0.v[a - base]
                    } else {
                        s0.memory[a]
                    },
            decreases x + 1 - k,
        {
            self.memory[base + k] = self.v[k];
            k = k + 1;
        }
        self.i = self.index_after_block(x);
        assert(self@ =~= store_regs(s0, x as int).0);
        Ok(false)
    }

    /// FX65: loads V0..=VX from I onwards.
    fn ffx65(&mut self, x: usize) -> (r: Result<bool, Chip8Error>)
        requires
            old(self).wf(),
            x < REGISTER_COUNT,
        ensures
            final(self).wf(),
            (final(self)@, r) == load_regs(old(self)@, x as int),
    {
        let base = self.i as usize;
        if base + x > LAST_ADDRESS {
            return Err(Chip8Error::AddressOutOfRange((base + x) as u32));
        }
        let ghost s0 = self@;
        let mut k: usize = 0;
        while k <= x
            invariant
                x < REGISTER_COUNT,
                base == s0.i,
                base + x <= LAST_ADDRESS,
                k <= x + 1,
                self@ == (MachineState { v: self@.v, ..s0 }),
                self.wf(),
                self@.v.len() == REGISTER_COUNT,
                s0.memory.len() == MEMORY_SIZE,
                forall|r: int|
                    0 <= r < REGISTER_COUNT ==> #[trigger] self@.v[r] == if r < k {
                        s0.memory[base + r]
                    } else {
                        s0.v[r]
                    },
            decreases x + 1 - k,
        {
            self.v[k] = self.memory[base + k];
            k = k + 1;
        }
        self.i = self.index_after_block(x);
        assert(self@ =~= load_regs(s0, x as int).0);
        Ok(false)
    }

    /// Reads the big-endian word at PC and moves PC past it.
    fn fetch(&mut self) -> (op: u16)
        requires
            old(self).wf(),
            old(self)@.pc + 1 <= LAST_ADDRESS,
        ensures
            final(self).wf(),
            final(self)@ == old(self)@.with_pc(old(self)@.pc + 2),
            op == old(self)@.fetch(),
    {
        let pc = self.pc as usize;
        let high = self.memory[pc] as u16;
        let low = self.memory[pc + 1] as u16;
        self.pc = self.pc + 2;
        high * 256 + low
    }

    /// Splits `op` into its fields and runs the instruction it encodes;
    /// PC already points past `op`.
    fn decode(&mut self, op: u16, random: u8) -> (r: Result<bool, Chip8Error>)
        requires
            old(self).wf(),
            2 <= old(self)@.pc <= 0x1000,
        ensures
            final(self).wf(),
            (final(self)@, r) == execute_op(old(self)@, op, random),
    {
        proof {
            self.lemma_valid();
        }
        let x = ((op / 256) % 16) as usize;
        let y = ((op / 16) % 16) as usize;
        let n = op % 16;
        let nn = op % 256;
        let nnn = op % 4096;
        let vx = self.v[x];
        let vy = self.v[y];
        let unknown = Chip8Error::UnknownOpcode(op, self.pc - 2);
        match op / 4096 {
            0x0 => {
                if op == 0x00E0 {
                    self.f00e0();
                    Ok(true)
                } else if op == 0x00EE {
                    self.f00ee()
                } else {
                    Err(unknown)
                }
            },
            0x1 => {
                self.pc = nnn;
                Ok(false)
            },
            0x2 => self.f2nnn(nnn),
            0x3 => {
                self.skip_if(vx as u16 == nn);
                Ok(false)
            },
            0x4 => {
                self.skip_if(vx as u16 != nn);
                Ok(false)
            },
            0x5 => {
                if n == 0 {
                    self.skip_if(vx == vy);
                    Ok(false)
                } else {
                    Err(unknown)
                }
            },
            0x6 => {
                self.set_v(x, nn as u8);
                Ok(false)
            },
            0x7 => {
                self.set_v(x, ((vx as u16 + nn) % 256) as u8);
                Ok(false)
            },
            0x8 => {
                match n {
                    0x0 => self.set_v(x, vy),
                    0x1 => self.set_v(x, vx | vy),
                    0x2 => self.set_v(x, vx & vy),
                    0x3 => self.set_v(x, vx ^ vy),
                    0x4 => self.f8xy4(x, y),
                    0x5 => self.f8xy5(x, y),
                    0x6 => self.f8xy6(x, y),
                    0x7 => self.f8xy7(x, y),
                    0xE => self.f8xye(x, y),
                    _ => {
                        return Err(unknown);
                    },
                }
                Ok(false)
            },
            0x9 => {
                if n == 0 {
                    self.skip_if(vx != vy);
                    Ok(false)
                } else {
                    Err(unknown)
                }
            },
            0xA => {
                self.i = nnn;
                Ok(false)
            },
            0xB => {
                self.fbnnn(x, nnn);
                Ok(false)
            },
            0xC => {
                self.set_v(x, random & (nn as u8));
                Ok(false)
            },
            0xD => self.fdxyn(x, y, n as usize),
            0xE => {
                if nn == 0x9E {
                    self.fex9e(x);
                    Ok(false)
                } else if nn == 0xA1 {
                    self.fexa1(x);
                    Ok(false)
                } else {
                    Err(unknown)
                }
            },
            _ => {
                match nn {
                    0x07 => self.set_v(x, self.delay_timer),
                    0x0A => self.ffx0a(x),
                    0x15 => self.delay_timer = vx,
                    0x18 => self.sound_timer = vx,
                    0x1E => self.ffx1e(x),
                    0x29 => self.ffx29(x),
                    0x33 => {
                        return self.ffx33(x);
                    },
                    0x55 => {
                        return self.ffx55(x);
                    },
                    0x65 => {
                        return self.ffx65(x);
                    },
                    _ => {
                        return Err(unknown);
                    },
                }
                Ok(false)
            },
        }
    }

    /// Runs one instruction, with `random` as the byte that CXNN draws.
    /// A failure is recorded and returned again by every later step.
    pub fn step_with(&mut self, random: u8) -> (r: Result<bool, Fault>)
        requires
            old(self).wf(),
        ensures
            final(self).wf(),
            (final(self)@, r) == step_machine(old(self)@, random),
    {
        if let Some(f) = self.fault {
            return Err(f);
        }
        let pc = self.pc;
        if pc as usize + 1 > LAST_ADDRESS {
            let f = Fault { pc, opcode: 0, error: Chip8Error::AddressOutOfRange(pc as u32 + 1) };
            self.fault = Some(f);
            return Err(f);
        }
        let ghost s0 = self@;
        let op = self.fetch();
        proof {
            lemma_failure_keeps_state(self@, op, random);
        }
        match self.decode(op, random) {
            Ok(redraw) => Ok(redraw),
            Err(e) => {
                let f = Fault { pc, opcode: op, error: e };
                self.pc = pc;
                self.fault = Some(f);
                assert(self@ =~= (MachineState { fault: Some(f), ..s0 }));
                Err(f)
            },
        }
    }

    /// Runs one instruction; CXNN draws its byte from the thread's random generator.
    pub fn step(&mut self) -> (r: Result<bool, Fault>)
        requires
            old(self).wf(),
        ensures
            final(self).wf(),
            exists|random: u8| (final(self)@, r) == step_machine(old(self)@, random),
    {
        let random = random_byte();
        self.step_with(random)
    }

    /// One 60 Hz tick of the sound timer.
    pub fn decrease_sound_timer(&mut self)
        requires
            old(self).wf(),
        ensures
            final(self).wf(),
            final(self)@ == (MachineState { sound_timer: tick(old(self)@.sound_timer), ..old(self)@ }),
    {
        if self.sound_timer > 0 {
            self.sound_timer = self.sound_timer - 1;
        }
    }

    /// One 60 Hz tick of the delay timer.
    pub fn decrease_delay_timer(&mut self)
        requires
            old(self).wf(),
        ensures
            final(self).wf(),
            final(self)@ == (MachineState { delay_timer: tick(old(self)@.delay_timer), ..old(self)@ }),
    {
        if self.delay_timer > 0 {
            self.delay_timer = self.delay_timer - 1;
        }
    }

    /// One 60 Hz tick of both timers.
    pub fn tick_timers(&mut self)
        requires
            old(self).wf(),
        ensures
            final(self).wf(),
            final(self)@ == old(self)@.ticked(),
    {
        self.decrease_delay_timer();
        self.decrease_sound_timer();
    }

    /// Records whether key `index` is held.
    pub fn set_key(&mut self, index: usize, pressed: bool)
        requires
            old(self).wf(),
            index < REGISTER_COUNT,
        ensures
            final(self).wf(),
            final(self)@ == (MachineState { keys: old(self)@.keys.update(index as int, pressed), ..old(self)@ }),
    {
        self.keys_pressed[index] = pressed;
        assert(self@ =~= (MachineState { keys: old(self)@.keys.update(index as int, pressed), ..old(self)@ }));
    }

    /// The pixels, rows top first, `true` lit.
    pub fn framebuffer(&self) -> (r: &[[bool; 64]; 32])
        ensures
            rows_view(*r) == self@.display,
    {
        &self.display
    }

    /// Whether the host should sound its tone.
    pub fn sound_active(&self) -> (r: bool)
        ensures
            r == (self@.sound_timer > 0),
    {
        self.sound_timer > 0
    }

    pub fn pc(&self) -> (r: u16)
        ensures
            r == self@.pc,
    {
        self.pc
    }

    /// The index register I.
    pub fn index(&self) -> (r: u16)
        ensures
            r == self@.i,
    {
        self.i
    }

    /// Register V`x`.
    pub fn register(&self, x: usize) -> (r: u8)
        requires
            x < REGISTER_COUNT,
        ensures
            r == self@.v[x as int],
    {
        self.v[x]
    }

    pub fn delay_timer(&self) -> (r: u8)
        ensures
            r == self@.delay_timer,
    {
        self.delay_timer
    }

    pub fn sound_timer(&self) -> (r: u8)
        ensures
            r == self@.sound_timer,
    {
        self.sound_timer
    }

    /// The byte at `address`.
    pub fn memory_at(&self, address: usize) -> (r: u8)
        requires
            address < MEMORY_SIZE,
        ensures
            r == self@.memory[address as int],
    {
        self.memory[address]
    }

    /// How many return addresses are on the stack.
    pub fn stack_depth(&self) -> (r: usize)
        requires
            self.wf(),
        ensures
            r == self@.stack.len(),
    {
        self.stack.depth()
    }

    /// The failure that stopped the machine, if any.
    pub fn fault(&self) -> (r: Option<Fault>)
        ensures
            r == self@.fault,
    {
        self.fault
    }

    pub fn implementation(&self) -> (r: Chip8Implementation)
        ensures
            r == self@.implementation,
    {
        self.implementation
    }
}

} // verus!
