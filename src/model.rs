use vstd::prelude::*;

use crate::error::Chip8Error;
use crate::stack::STACK_DEPTH;

verus! {

/// Framebuffer width in pixels.
pub const WIDTH: usize = 64;

/// Framebuffer height in pixels.
pub const HEIGHT: usize = 32;

/// Size of the flat address space in bytes.
pub const MEMORY_SIZE: usize = 4096;

/// Highest valid address.
pub const LAST_ADDRESS: usize = 0xFFF;

/// Where the built-in hex font is stored.
pub const FONT_ADDRESS: usize = 0x050;

/// Where a ROM is loaded, and where execution starts.
pub const ROM_ADDRESS: usize = 0x200;

/// Largest ROM that fits between `ROM_ADDRESS` and the end of memory.
pub const MAX_ROM_SIZE: usize = 3584;

/// Number of general-purpose registers, and of keypad keys.
pub const REGISTER_COUNT: usize = 16;

/// Bytes per font glyph.
pub const GLYPH_SIZE: usize = 5;

/// Which historical interpreter the ambiguous opcodes follow.
#[derive(Clone, Copy, Debug, PartialEq, Eq, Structural)]
pub enum Chip8Implementation {
    /// The COSMAC VIP interpreter of 1977.
    CosmacVip,
    /// CHIP-48 / SUPER-CHIP and later interpreters.
    Modern,
}

/// A runtime failure: the address of the instruction, its word, and what went wrong.
/// When the word itself could not be fetched, `opcode` is zero.
#[derive(Clone, Copy, Debug, PartialEq, Eq, Structural)]
pub struct Fault {
    pub pc: u16,
    pub opcode: u16,
    pub error: Chip8Error,
}

/// The mathematical model of a machine.
#[verifier::ext_equal]
pub ghost struct MachineState {
    pub memory: Seq<u8>,
    pub v: Seq<u8>,
    pub pc: u16,
    pub i: u16,
    pub delay_timer: u8,
    pub sound_timer: u8,
    pub stack: Seq<u16>,
    /// Rows, top first; each row holds `WIDTH` pixels, left first; `true` is lit.
    pub display: Seq<Seq<bool>>,
    pub keys: Seq<bool>,
    pub implementation: Chip8Implementation,
    /// Set by the first failing step; the machine then refuses to run.
    pub fault: Option<Fault>,
}

/// What executing one instruction yields: the next state and either
/// whether the framebuffer was touched, or an error.
pub type Outcome = (MachineState, Result<bool, Chip8Error>);

/// The sixteen hex-digit glyphs, five rows each, pixels in the high nibble.
pub open spec fn font() -> Seq<u8> {
    seq![
        0xF0u8, 0x90, 0x90, 0x90, 0xF0,
        0x20, 0x60, 0x20, 0x20, 0x70,
        0xF0, 0x10, 0xF0, 0x80, 0xF0,
        0xF0, 0x10, 0xF0, 0x10, 0xF0,
        0x90, 0x90, 0xF0, 0x10, 0x10,
        0xF0, 0x80, 0xF0, 0x10, 0xF0,
        0xF0, 0x80, 0xF0, 0x90, 0xF0,
        0xF0, 0x10, 0x20, 0x40, 0x40,
        0xF0, 0x90, 0xF0, 0x90, 0xF0,
        0xF0, 0x90, 0xF0, 0x10, 0xF0,
        0xF0, 0x90, 0xF0, 0x90, 0x90,
        0xE0, 0x90, 0xE0, 0x90, 0xE0,
        0xF0, 0x80, 0x80, 0x80, 0xF0,
        0xE0, 0x90, 0x90, 0x90, 0xE0,
        0xF0, 0x80, 0xF0, 0x80, 0xF0,
        0xF0, 0x80, 0xF0, 0x80, 0x80,
    ]
}

/// A framebuffer with every pixel dark.
pub open spec fn blank_display() -> Seq<Seq<bool>> {
    Seq::new(HEIGHT as nat, |y: int| Seq::new(WIDTH as nat, |x: int| false))
}

/// Memory right after loading: the font at `FONT_ADDRESS`, the ROM at
/// `ROM_ADDRESS`, zero elsewhere.
pub open spec fn initial_memory(rom: Seq<u8>) -> Seq<u8> {
    Seq::new(
        MEMORY_SIZE as nat,
        |a: int|
            if FONT_ADDRESS <= a < FONT_ADDRESS + 80 {
                font()[a - FONT_ADDRESS]
            } else if ROM_ADDRESS <= a < ROM_ADDRESS + rom.len() {
                rom[a - ROM_ADDRESS]
            } else {
                0u8
            },
    )
}

/// A freshly constructed machine.
pub open spec fn initial_state(rom: Seq<u8>, implementation: Chip8Implementation) -> MachineState {
    MachineState {
        memory: initial_memory(rom),
        v: Seq::new(REGISTER_COUNT as nat, |k: int| 0u8),
        pc: ROM_ADDRESS as u16,
        i: 0,
        delay_timer: 0,
        sound_timer: 0,
        stack: Seq::empty(),
        display: blank_display(),
        keys: Seq::new(REGISTER_COUNT as nat, |k: int| false),
        implementation,
        fault: None,
    }
}

// Fields of an instruction word.
pub open spec fn op_family(op: u16) -> u16 {
    op / 4096
}

pub open spec fn op_x(op: u16) -> u16 {
    (op / 256) % 16
}

pub open spec fn op_y(op: u16) -> u16 {
    (op / 16) % 16
}

pub open spec fn op_n(op: u16) -> u16 {
    op % 16
}

pub open spec fn op_nn(op: u16) -> u16 {
    op % 256
}

pub open spec fn op_nnn(op: u16) -> u16 {
    op % 4096
}

/// One timer tick: one less, but never below zero.
pub open spec fn tick(t: u8) -> u8 {
    if t > 0 {
        (t - 1) as u8
    } else {
        0
    }
}

/// Is `key` an existing key that is held down?
pub open spec fn key_down(keys: Seq<bool>, key: int) -> bool {
    0 <= key < REGISTER_COUNT && keys[key]
}

/// The lowest index at or after `k` of a held key, or `REGISTER_COUNT` if none is held.
pub open spec fn first_pressed(keys: Seq<bool>, k: int) -> int
    decreases REGISTER_COUNT - k,
{
    if k >= REGISTER_COUNT {
        REGISTER_COUNT as int
    } else if keys[k] {
        k
    } else {
        first_pressed(keys, k + 1)
    }
}

/// Pixel `col` (0 is leftmost) of a sprite row.
pub open spec fn sprite_pixel(byte: u8, col: int) -> bool {
    (byte >> ((7 - col) as u8)) & 1u8 == 1u8
}

/// How much of a run of `len` starting at `start` fits below `limit`.
pub open spec fn clip(start: int, len: int, limit: int) -> int {
    if start + len > limit {
        limit - start
    } else {
        len
    }
}

/// A framebuffer row after XOR-ing the `cols` leftmost pixels of `byte` in at column `x0`.
pub open spec fn drawn_row(row: Seq<bool>, x0: int, cols: int, byte: u8) -> Seq<bool> {
    Seq::new(
        row.len(),
        |x: int|
            if x0 <= x < x0 + cols {
                row[x] != sprite_pixel(byte, x - x0)
            } else {
                row[x]
            },
    )
}

/// Does XOR-ing that part of `byte` in turn a lit pixel of `row` off?
pub open spec fn row_collides(row: Seq<bool>, x0: int, cols: int, byte: u8) -> bool {
    exists|c: int| 0 <= c < cols && #[trigger] row[x0 + c] && sprite_pixel(byte, c)
}

impl MachineState {
    /// The shapes that every reachable state has.
    pub open spec fn valid(self) -> bool {
        &&& self.memory.len() == MEMORY_SIZE
        &&& self.v.len() == REGISTER_COUNT
        &&& self.stack.len() <= STACK_DEPTH
        &&& self.display.len() == HEIGHT
        &&& forall|y: int| 0 <= y < HEIGHT ==> (#[trigger] self.display[y]).len() == WIDTH
        &&& self.keys.len() == REGISTER_COUNT
    }

    /// The word at `pc`, big-endian.
    pub open spec fn fetch(self) -> u16 {
        (self.memory[self.pc as int] * 256 + self.memory[self.pc + 1]) as u16
    }

    pub open spec fn with_v(self, r: int, val: u8) -> MachineState {
        MachineState { v: self.v.update(r, val), ..self }
    }

    pub open spec fn with_pc(self, pc: int) -> MachineState {
        MachineState { pc: pc as u16, ..self }
    }

    pub open spec fn with_i(self, i: int) -> MachineState {
        MachineState { i: i as u16, ..self }
    }

    /// Skips the next instruction when `cond` holds.
    pub open spec fn skip_if(self, cond: bool) -> MachineState {
        if cond {
            self.with_pc(self.pc + 2)
        } else {
            self
        }
    }

    /// Register `r` set to `val`, then VF to `flag`.
    pub open spec fn with_flagged(self, r: int, val: u8, flag: u8) -> MachineState {
        self.with_v(r, val).with_v(0xF, flag)
    }

    /// The operand of a shift: VY on the COSMAC VIP, VX on later interpreters.
    pub open spec fn shift_source(self, x: int, y: int) -> u8 {
        match self.implementation {
            Chip8Implementation::CosmacVip => self.v[y],
            Chip8Implementation::Modern => self.v[x],
        }
    }

    /// Timers one tick further down.
    pub open spec fn ticked(self) -> MachineState {
        MachineState {
            delay_timer: tick(self.delay_timer),
            sound_timer: tick(self.sound_timer),
            ..self
        }
    }
}

pub open spec fn ok(s: MachineState) -> Outcome {
    (s, Ok(false))
}

/// 00E0.
pub open spec fn clear_screen(s: MachineState) -> Outcome {
    (MachineState { display: blank_display(), ..s }, Ok(true))
}

/// 00EE.
pub open spec fn return_from(s: MachineState) -> Outcome {
    if s.stack.len() == 0 {
        (s, Err(Chip8Error::StackUnderflow))
    } else {
        ok(MachineState { pc: s.stack.last(), stack: s.stack.drop_last(), ..s })
    }
}

/// 2NNN.
pub open spec fn call(s: MachineState, nnn: int) -> Outcome {
    if s.stack.len() >= STACK_DEPTH {
        (s, Err(Chip8Error::StackOverflow))
    } else {
        ok(MachineState { pc: nnn as u16, stack: s.stack.push(s.pc), ..s })
    }
}

/// 8XY4: sum modulo 256, VF the carry.
pub open spec fn add_regs(s: MachineState, x: int, y: int) -> MachineState {
    let sum = s.v[x] + s.v[y];
    s.with_flagged(x, (sum % 256) as u8, if sum > 255 { 1 } else { 0 })
}

/// 8XY5: VX - VY modulo 256, VF set when nothing was borrowed.
pub open spec fn sub_regs(s: MachineState, x: int, y: int) -> MachineState {
    s.with_flagged(x, ((s.v[x] - s.v[y]) % 256) as u8, if s.v[x] >= s.v[y] { 1 } else { 0 })
}

/// 8XY7: VY - VX modulo 256, VF set when nothing was borrowed.
pub open spec fn sub_rev_regs(s: MachineState, x: int, y: int) -> MachineState {
    s.with_flagged(x, ((s.v[y] - s.v[x]) % 256) as u8, if s.v[y] >= s.v[x] { 1 } else { 0 })
}

/// 8XY6: halve, VF the bit shifted out.
pub open spec fn shift_right(s: MachineState, x: int, y: int) -> MachineState {
    let src = s.shift_source(x, y);
    s.with_flagged(x, src / 2, src % 2)
}

/// 8XYE: double modulo 256, VF the bit shifted out.
pub open spec fn shift_left(s: MachineState, x: int, y: int) -> MachineState {
    let src = s.shift_source(x, y);
    s.with_flagged(x, ((src * 2) % 256) as u8, src / 128)
}

/// BNNN.
pub open spec fn jump_offset(s: MachineState, x: int, nnn: int) -> MachineState {
    let offset = match s.implementation {
        Chip8Implementation::CosmacVip => s.v[0],
        Chip8Implementation::Modern => s.v[x],
    };
    s.with_pc(nnn + offset)
}

/// DXYN.
pub open spec fn draw(s: MachineState, x: int, y: int, n: int) -> Outcome {
    let x0 = (s.v[x] % 64) as int;
    let y0 = (s.v[y] % 32) as int;
    let cols = clip(x0, 8, WIDTH as int);
    let rows = clip(y0, n, HEIGHT as int);
    if rows > 0 && s.i + rows - 1 > LAST_ADDRESS {
        (s, Err(Chip8Error::AddressOutOfRange((s.i + rows - 1) as u32)))
    } else {
        let display = Seq::new(
            HEIGHT as nat,
            |yy: int|
                if y0 <= yy < y0 + rows {
                    drawn_row(s.display[yy], x0, cols, s.memory[s.i + (yy - y0)])
                } else {
                    s.display[yy]
                },
        );
        let hit = exists|r: int|
            0 <= r < rows && #[trigger] row_collides(
                s.display[y0 + r],
                x0,
                cols,
                s.memory[s.i + r],
            );
        (MachineState { display, ..s }.with_v(0xF, if hit { 1 } else { 0 }), Ok(true))
    }
}

/// FX0A.
pub open spec fn wait_key(s: MachineState, x: int) -> MachineState {
    let k = first_pressed(s.keys, 0);
    if k >= REGISTER_COUNT {
        s.with_pc(s.pc - 2)
    } else {
        s.with_v(x, k as u8)
    }
}

/// FX1E.
pub open spec fn add_index(s: MachineState, x: int) -> MachineState {
    let sum = s.i + s.v[x];
    let t = s.with_i(sum % 65536);
    if s.implementation == Chip8Implementation::Modern && sum > LAST_ADDRESS {
        t.with_v(0xF, 1)
    } else {
        t
    }
}

/// FX33.
pub open spec fn store_bcd(s: MachineState, x: int) -> Outcome {
    let vx = s.v[x];
    let i = s.i as int;
    if i + 2 > LAST_ADDRESS {
        (s, Err(Chip8Error::AddressOutOfRange((i + 2) as u32)))
    } else {
        ok(
            MachineState {
                memory: s.memory.update(i, vx / 100).update(i + 1, (vx / 10) % 10).update(
                    i + 2,
                    vx % 10,
                ),
                ..s
            },
        )
    }
}

/// Where I points after FX55 / FX65 over V0..=VX.
pub open spec fn index_after_block(s: MachineState, x: int) -> int {
    match s.implementation {
        Chip8Implementation::CosmacVip => s.i + x + 1,
        Chip8Implementation::Modern => s.i as int,
    }
}

/// FX55.
pub open spec fn store_regs(s: MachineState, x: int) -> Outcome {
    let i = s.i as int;
    if i + x > LAST_ADDRESS {
        (s, Err(Chip8Error::AddressOutOfRange((i + x) as u32)))
    } else {
        ok(
            MachineState {
                memory: Seq::new(
                    s.memory.len(),
                    |a: int|
                        if i <= a <= i + x {
                            s.v[a - i]
                        } else {
                            s.memory[a]
                        },
                ),
                i: index_after_block(s, x) as u16,
                ..s
            },
        )
    }
}

/// FX65.
pub open spec fn load_regs(s: MachineState, x: int) -> Outcome {
    let i = s.i as int;
    if i + x > LAST_ADDRESS {
        (s, Err(Chip8Error::AddressOutOfRange((i + x) as u32)))
    } else {
        ok(
            MachineState {
                v: Seq::new(
                    s.v.len(),
                    |k: int|
                        if k <= x {
                            s.memory[i + k]
                        } else {
                            s.v[k]
                        },
                ),
                i: index_after_block(s, x) as u16,
                ..s
            },
        )
    }
}

/// The effect of one instruction word `op` on a machine whose PC already
/// points past it; `random` is the byte CXNN draws.
pub open spec fn execute_op(s: MachineState, op: u16, random: u8) -> Outcome {
    let x = op_x(op) as int;
    let y = op_y(op) as int;
    let n = op_n(op);
    let nn = op_nn(op);
    let nnn = op_nnn(op) as int;
    let vx = s.v[x];
    let vy = s.v[y];
    let unknown = (s, Err(Chip8Error::UnknownOpcode(op, (s.pc - 2) as u16)));
    let family = op_family(op);
    if family == 0x0 {
        if op == 0x00E0 {
            clear_screen(s)
        } else if op == 0x00EE {
            return_from(s)
        } else {
            unknown
        }
    } else if family == 0x1 {
        ok(s.with_pc(nnn))
    } else if family == 0x2 {
        call(s, nnn)
    } else if family == 0x3 {
        ok(s.skip_if(vx == nn))
    } else if family == 0x4 {
        ok(s.skip_if(vx != nn))
    } else if family == 0x5 {
        if n == 0 {
            ok(s.skip_if(vx == vy))
        } else {
            unknown
        }
    } else if family == 0x6 {
        ok(s.with_v(x, nn as u8))
    } else if family == 0x7 {
        ok(s.with_v(x, ((vx + nn) % 256) as u8))
    } else if family == 0x8 {
        if n == 0x0 {
            ok(s.with_v(x, vy))
        } else if n == 0x1 {
            ok(s.with_v(x, vx | vy))
        } else if n == 0x2 {
            ok(s.with_v(x, vx & vy))
        } else if n == 0x3 {
            ok(s.with_v(x, vx ^ vy))
        } else if n == 0x4 {
            ok(add_regs(s, x, y))
        } else if n == 0x5 {
            ok(sub_regs(s, x, y))
        } else if n == 0x6 {
            ok(shift_right(s, x, y))
        } else if n == 0x7 {
            ok(sub_rev_regs(s, x, y))
        } else if n == 0xE {
            ok(shift_left(s, x, y))
        } else {
            unknown
        }
    } else if family == 0x9 {
        if n == 0 {
            ok(s.skip_if(vx != vy))
        } else {
            unknown
        }
    } else if family == 0xA {
        ok(s.with_i(nnn))
    } else if family == 0xB {
        ok(jump_offset(s, x, nnn))
    } else if family == 0xC {
        ok(s.with_v(x, random & (nn as u8)))
    } else if family == 0xD {
        draw(s, x, y, n as int)
    } else if family == 0xE {
        if nn == 0x9E {
            ok(s.skip_if(key_down(s.keys, vx as int)))
        } else if nn == 0xA1 {
            ok(s.skip_if(!key_down(s.keys, vx as int)))
        } else {
            unknown
        }
    } else {
        if nn == 0x07 {
            ok(s.with_v(x, s.delay_timer))
        } else if nn == 0x0A {
            ok(wait_key(s, x))
        } else if nn == 0x15 {
            ok(MachineState { delay_timer: vx, ..s })
        } else if nn == 0x18 {
            ok(MachineState { sound_timer: vx, ..s })
        } else if nn == 0x1E {
            ok(add_index(s, x))
        } else if nn == 0x29 {
            ok(s.with_i(FONT_ADDRESS + (vx % 16) * GLYPH_SIZE))
        } else if nn == 0x33 {
            store_bcd(s, x)
        } else if nn == 0x55 {
            store_regs(s, x)
        } else if nn == 0x65 {
            load_regs(s, x)
        } else {
            unknown
        }
    }
}

/// One `step`: refuse if faulted; otherwise fetch at PC, advance PC by 2 and
/// execute. A failure leaves the state as it was before the step, but for
/// the recorded fault.
pub open spec fn step_machine(s: MachineState, random: u8) -> (MachineState, Result<bool, Fault>) {
    if s.fault is Some {
        (s, Err(s.fault.unwrap()))
    } else if s.pc + 1 > LAST_ADDRESS {
        let f = Fault {
            pc: s.pc,
            opcode: 0,
            error: Chip8Error::AddressOutOfRange((s.pc + 1) as u32),
        };
        (MachineState { fault: Some(f), ..s }, Err(f))
    } else {
        let op = s.fetch();
        let (t, r) = execute_op(s.with_pc(s.pc + 2), op, random);
        match r {
            Ok(redraw) => (t, Ok(redraw)),
            Err(e) => {
                let f = Fault { pc: s.pc, opcode: op, error: e };
                (MachineState { fault: Some(f), ..s }, Err(f))
            },
        }
    }
}

} // verus!
