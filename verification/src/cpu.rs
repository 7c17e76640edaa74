//! The CHIP-8 execution engine: machine state and the operations on it.
//!
//! The engine owns all state and is advanced one step at a time by its
//! caller. `run_one_cycle` fetches, decodes and executes one instruction;
//! `update_timers` decrements the two timers at the caller's cadence. The
//! engine performs no I/O: diagnostics and the audible alert are the
//! caller's business (the alert is reported as `update_timers`' result).
//!
//! Conditions the classic CHIP-8 interpreter leaves undefined are
//! defined errors here: a call with a full stack, a return with an empty stack, a fetch
//! with the program counter at the top of memory, a memory operand that
//! would run past the end of memory, and a key test naming a slot above 15
//! all return an error from `run_one_cycle` and leave the machine state
//! exactly as it was.

use vstd::prelude::*;

use crate::instr::{AluOp, Instr, decode, lemma_decode_bounds, op_n, op_x, op_y, spec_decode};

verus! {

/// Size of addressable memory in bytes.
pub const MEMORY_SIZE: usize = 4096;

/// Address where loaded program bytes begin, and the initial program counter.
pub const PROGRAM_START: u16 = 0x200;

/// Address of the built-in font sprite table.
pub const FONT_START: u16 = 0x50;

/// Number of bytes in the font table: 16 glyphs of 5 rows each.
pub const FONT_BYTES: usize = 80;

/// Framebuffer width in pixels.
pub const SCREEN_WIDTH: usize = 64;

/// Framebuffer height in pixels.
pub const SCREEN_HEIGHT: usize = 32;

/// Number of pixels in the framebuffer.
pub const SCREEN_PIXELS: usize = 2048;

/// Number of general-purpose registers.
pub const NUM_REGISTERS: usize = 16;

/// Index of the flags register.
pub const FLAGS_REGISTER: usize = 15;

/// Capacity of the call stack.
pub const STACK_SIZE: usize = 16;

/// Number of keypad slots.
pub const NUM_KEYS: usize = 16;

/// What a successful cycle did.
#[derive(Clone, Copy, PartialEq, Eq, Structural, Debug)]
pub enum StepOutcome {
    /// A documented instruction was executed.
    Executed,
    /// An unrecognized instruction word was skipped as a no-op (non-strict
    /// mode); the word is reported so the caller can log it.
    UnknownOpcodeIgnored(u16),
}

/// Why a cycle was refused. In every error case the machine state is left
/// exactly as it was before the call.
#[derive(Clone, Copy, PartialEq, Eq, Structural, Debug)]
pub enum StepError {
    /// An unrecognized instruction word in strict mode.
    UnknownOpcode(u16),
    /// A call with the stack already at capacity.
    StackOverflow,
    /// A return with an empty stack.
    StackUnderflow,
    /// The program counter does not name two fetchable bytes.
    ProgramCounterOutOfRange,
    /// A memory operand would run past the end of memory.
    MemoryOutOfRange,
    /// A key test names a keypad slot above 15.
    KeyOutOfRange,
}

/// Why a program image was refused.
#[derive(Clone, Copy, PartialEq, Eq, Structural, Debug)]
pub enum LoadError {
    /// The image is longer than the memory left above the program origin.
    ProgramTooLarge,
}

/// The machine state: memory, framebuffer, registers, keypad, program
/// counter, index register, call stack, timers, and the two configuration
/// flags fixed at construction.
///
/// The framebuffer is row-major: pixel (x, y) is `screen[y * 64 + x]`, with
/// value 0 or 1.
pub struct CPU {
    /// Addressable memory, `MEMORY_SIZE` bytes.
    pub memory: Vec<u8>,
    /// Framebuffer, `SCREEN_PIXELS` binary pixels, row-major.
    pub screen: Vec<u8>,
    /// General-purpose registers `V0..=VF`.
    pub registers: Vec<u8>,
    /// Current key states, written by the host, read by the engine.
    pub keypad: Vec<bool>,
    /// Address of the next instruction to fetch.
    pub pc: u16,
    /// Index register: memory-address base for sprite, BCD and bulk
    /// register transfers.
    pub i: u16,
    /// Call stack of return addresses.
    pub stack: Vec<u16>,
    /// Number of live call stack entries.
    pub sp: usize,
    /// Delay timer, decremented toward zero by `update_timers`.
    pub delay_timer: u8,
    /// Sound timer, decremented toward zero by `update_timers`.
    pub sound_timer: u8,
    /// Whether the caller should emit per-step diagnostic traces.
    pub debug: bool,
    /// Whether an unrecognized instruction is fatal (strict) or a no-op.
    pub stop_on_missing_opcode: bool,
}

impl CPU {
    /// Well-formedness: every fixed-size piece of state has its size, the
    /// stack pointer is within capacity, and every pixel is 0 or 1.
    pub open spec fn wf(self) -> bool {
        &&& self.memory@.len() == MEMORY_SIZE
        &&& self.screen@.len() == SCREEN_PIXELS
        &&& self.registers@.len() == NUM_REGISTERS
        &&& self.keypad@.len() == NUM_KEYS
        &&& self.stack@.len() == STACK_SIZE
        &&& self.sp <= STACK_SIZE
        &&& forall|p: int|
            0 <= p < SCREEN_PIXELS ==> self.screen@[p] == 0 || self.screen@[p] == 1
    }

    /// The instruction word at the program counter: two bytes, high first.
    pub open spec fn spec_fetch(self) -> u16 {
        (self.memory@[self.pc as int] * 256 + self.memory@[self.pc as int + 1]) as u16
    }
}

/// The built-in font sprite table: 5-byte glyphs for the hexadecimal digits
/// 0 through F, in order.
pub open spec fn font_table() -> Seq<u8> {
    seq![
        0xF0u8, 0x90, 0x90, 0x90, 0xF0, 0x20, 0x60, 0x20, 0x20, 0x70, 0xF0, 0x10, 0xF0, 0x80,
        0xF0, 0xF0, 0x10, 0xF0, 0x10, 0xF0, 0x90, 0x90, 0xF0, 0x10, 0x10, 0xF0, 0x80, 0xF0,
        0x10, 0xF0, 0xF0, 0x80, 0xF0, 0x90, 0xF0, 0xF0, 0x10, 0x20, 0x40, 0x40, 0xF0, 0x90,
        0xF0, 0x90, 0xF0, 0xF0, 0x90, 0xF0, 0x10, 0xF0, 0xF0, 0x90, 0xF0, 0x90, 0x90, 0xE0,
        0x90, 0xE0, 0x90, 0xE0, 0xF0, 0x80, 0x80, 0x80, 0xF0, 0xE0, 0x90, 0x90, 0x90, 0xE0,
        0xF0, 0x80, 0xF0, 0x80, 0xF0, 0xF0, 0x80, 0xF0, 0x80, 0x80,
    ]
}

/// The font table as an executable vector, equal to `font_table()`.
fn font_data() -> (v: Vec<u8>)
    ensures
        v@ == font_table(),
{
    let v: Vec<u8> = vec![
        0xF0u8, 0x90, 0x90, 0x90, 0xF0, 0x20, 0x60, 0x20, 0x20, 0x70, 0xF0, 0x10, 0xF0, 0x80,
        0xF0, 0xF0, 0x10, 0xF0, 0x10, 0xF0, 0x90, 0x90, 0xF0, 0x10, 0x10, 0xF0, 0x80, 0xF0,
        0x10, 0xF0, 0xF0, 0x80, 0xF0, 0x90, 0xF0, 0xF0, 0x10, 0x20, 0x40, 0x40, 0xF0, 0x90,
        0xF0, 0x90, 0xF0, 0xF0, 0x90, 0xF0, 0x10, 0xF0, 0xF0, 0x90, 0xF0, 0x90, 0x90, 0xE0,
        0x90, 0xE0, 0x90, 0xE0, 0xF0, 0x80, 0x80, 0x80, 0xF0, 0xE0, 0x90, 0x90, 0x90, 0xE0,
        0xF0, 0x80, 0xF0, 0x80, 0xF0, 0xF0, 0x80, 0xF0, 0x80, 0x80,
    ];
    proof {
        assert(v@ =~= font_table());
    }
    v
}

impl CPU {
    /// Build a machine with everything zeroed except the program counter,
    /// which starts at the program origin, and the font table, which is
    /// written into its reserved memory range.
    pub fn new_with_flags(debug: bool, strict: bool) -> (cpu: CPU)
        ensures
            cpu.wf(),
            cpu.pc == PROGRAM_START,
            cpu.i == 0,
            cpu.sp == 0,
            cpu.delay_timer == 0,
            cpu.sound_timer == 0,
            cpu.debug == debug,
            cpu.stop_on_missing_opcode == strict,
            forall|j: int| 0 <= j < NUM_REGISTERS ==> cpu.registers@[j] == 0,
            forall|j: int| 0 <= j < NUM_KEYS ==> !cpu.keypad@[j],
            forall|j: int| 0 <= j < STACK_SIZE ==> cpu.stack@[j] == 0,
            forall|p: int| 0 <= p < SCREEN_PIXELS ==> cpu.screen@[p] == 0,
            forall|a: int|
                0 <= a < MEMORY_SIZE ==> cpu.memory@[a] == (if FONT_START <= a < FONT_START
                    + FONT_BYTES {
                    font_table()[a - FONT_START]
                } else {
                    0u8
                }),
    {
        let mut cpu = CPU {
            memory: vec![0u8; MEMORY_SIZE],
            screen: vec![0u8; SCREEN_PIXELS],
            registers: vec![0u8; NUM_REGISTERS],
            keypad: vec![false; NUM_KEYS],
            pc: PROGRAM_START,
            i: 0,
            stack: vec![0u16; STACK_SIZE],
            sp: 0,
            delay_timer: 0,
            sound_timer: 0,
            debug,
            stop_on_missing_opcode: strict,
        };
        cpu.load_font();
        cpu
    }

    /// Write the font table into its reserved memory range; no other state
    /// is touched.
    pub fn load_font(&mut self)
        requires
            old(self).wf(),
        ensures
            final(self).wf(),
            only_mem_changed(*old(self), *final(self)),
            forall|a: int|
                0 <= a < MEMORY_SIZE ==> final(self).memory@[a] == (if FONT_START <= a
                    < FONT_START + FONT_BYTES {
                    font_table()[a - FONT_START]
                } else {
                    old(self).memory@[a]
                }),
    {
        let font = font_data();
        let mut j: usize = 0;
        while j < FONT_BYTES
            invariant
                old(self).wf(),
                self.memory@.len() == MEMORY_SIZE,
                j <= FONT_BYTES,
                only_mem_changed(*old(self), *self),
                self.screen@ == old(self).screen@,
                font@ == font_table(),
                forall|a: int|
                    0 <= a < MEMORY_SIZE ==> self.memory@[a] == (if FONT_START <= a < FONT_START
                        + j {
                        font_table()[a - FONT_START]
                    } else {
                        old(self).memory@[a]
                    }),
            decreases FONT_BYTES - j,
        {
            let b = font[j];
            self.memory.set(FONT_START as usize + j, b);
            j = j + 1;
        }
    }

    /// Copy a program image into memory at the program origin. An image
    /// longer than the memory left above the origin is refused, and nothing
    /// at all is written.
    pub fn load_program(&mut self, program: &Vec<u8>) -> (r: Result<(), LoadError>)
        requires
            old(self).wf(),
        ensures
            final(self).wf(),
            r is Ok <==> program@.len() <= MEMORY_SIZE - PROGRAM_START,
            r is Err ==> machine_unchanged(*old(self), *final(self)) && r == Err::<(), LoadError>(
                LoadError::ProgramTooLarge,
            ),
            r is Ok ==> only_mem_changed(*old(self), *final(self)) && forall|a: int|
                0 <= a < MEMORY_SIZE ==> final(self).memory@[a] == (if PROGRAM_START <= a
                    < PROGRAM_START + program@.len() {
                    program@[a - PROGRAM_START]
                } else {
                    old(self).memory@[a]
                }),
    {
        if program.len() > MEMORY_SIZE - PROGRAM_START as usize {
            return Err(LoadError::ProgramTooLarge);
        }
        let mut j: usize = 0;
        while j < program.len()
            invariant
                old(self).wf(),
                self.memory@.len() == MEMORY_SIZE,
                j <= program@.len(),
                program@.len() <= MEMORY_SIZE - PROGRAM_START,
                only_mem_changed(*old(self), *self),
                self.screen@ == old(self).screen@,
                forall|a: int|
                    0 <= a < MEMORY_SIZE ==> self.memory@[a] == (if PROGRAM_START <= a
                        < PROGRAM_START + j {
                        program@[a - PROGRAM_START]
                    } else {
                        old(self).memory@[a]
                    }),
            decreases program@.len() - j,
        {
            let b = program[j];
            self.memory.set(PROGRAM_START as usize + j, b);
            j = j + 1;
        }
        Ok(())
    }

    /// Decrement each timer toward zero; a timer already at zero stays at
    /// zero. Returns true when the sound timer was nonzero at the instant
    /// of decrement: the caller's cue to emit the audible alert.
    pub fn update_timers(&mut self) -> (beep: bool)
        requires
            old(self).wf(),
        ensures
            final(self).wf(),
            only_timers_changed(*old(self), *final(self)),
            final(self).delay_timer == (if old(self).delay_timer > 0 {
                old(self).delay_timer - 1
            } else {
                0
            }),
            final(self).sound_timer == (if old(self).sound_timer > 0 {
                old(self).sound_timer - 1
            } else {
                0
            }),
            beep == (old(self).sound_timer > 0),
    {
        if self.delay_timer > 0 {
            self.delay_timer = self.delay_timer - 1;
        }
        if self.sound_timer > 0 {
            self.sound_timer = self.sound_timer - 1;
            return true;
        }
        false
    }
}

/// Subtraction modulo 256.
pub open spec fn wrap_sub(a: u8, b: u8) -> u8 {
    if a >= b {
        (a - b) as u8
    } else {
        (a - b + 256) as u8
    }
}

/// The register file after a register-to-register ALU operation with
/// destination `x` and source `y`. The operations that set the flags
/// register write the flag first and the result second, and the operand
/// reads for the result happen in between, which is observable when `x`
/// or `y` is 15.
pub open spec fn alu_regs(regs: Seq<u8>, x: int, y: int, op: AluOp) -> Seq<u8> {
    match op {
        AluOp::Assign => regs.update(x, regs[y]),
        AluOp::Or => regs.update(x, regs[x] | regs[y]),
        AluOp::And => regs.update(x, regs[x] & regs[y]),
        AluOp::Xor => regs.update(x, regs[x] ^ regs[y]),
        AluOp::AddCarry => {
            let carry: u8 = if regs[x] + regs[y] > 255 {
                1
            } else {
                0
            };
            let sum: u8 = ((regs[x] + regs[y]) % 256) as u8;
            regs.update(15, carry).update(x, sum)
        },
        AluOp::SubBorrow => {
            let flag: u8 = if regs[x] >= regs[y] {
                1
            } else {
                0
            };
            let s = regs.update(15, flag);
            s.update(x, wrap_sub(s[x], s[y]))
        },
        AluOp::ShiftRight => {
            let s = regs.update(15, regs[x] & 1);
            s.update(x, s[x] >> 1u8)
        },
        AluOp::SubReverse => {
            let flag: u8 = if regs[y] >= regs[x] {
                1
            } else {
                0
            };
            let s = regs.update(15, flag);
            s.update(x, wrap_sub(s[y], s[x]))
        },
        AluOp::ShiftLeft => {
            let s = regs.update(15, (regs[x] >> 7u8) & 1);
            s.update(x, s[x] << 1u8)
        },
    }
}

/// Bit `bit` of sprite row `row` (bit 0 is the most significant).
pub open spec fn sprite_bit(mem: Seq<u8>, base: int, row: int, bit: int) -> u8 {
    (mem[base + row] >> ((7 - bit) as u8)) & 1
}

/// The framebuffer pixel at column `cx`, row `cy`.
pub open spec fn pix(screen: Seq<u8>, cx: int, cy: int) -> u8 {
    screen[cy * 64 + cx]
}

/// Pixel (cx, cy) is toggled by one of the first `n` sprite bits, the bits
/// counted row-major (`8 * row + bit`): a set bit whose wrapped target is
/// (cx, cy).
pub open spec fn hits_within(
    mem: Seq<u8>,
    base: int,
    x0: int,
    y0: int,
    n: int,
    cx: int,
    cy: int,
) -> bool {
    exists|row: int, bit: int|
        0 <= row && 0 <= bit < 8 && 8 * row + bit < n && #[trigger] sprite_bit(mem, base, row, bit)
            == 1 && cx == (x0 + bit) % 64 && cy == (y0 + row) % 32
}

/// The sprite of `h` rows at memory `base`, drawn at origin (x0, y0),
/// toggles pixel (cx, cy). Both axes wrap, so a sprite can tear across the
/// screen edges.
pub open spec fn sprite_hits(
    mem: Seq<u8>,
    base: int,
    x0: int,
    y0: int,
    h: int,
    cx: int,
    cy: int,
) -> bool {
    hits_within(mem, base, x0, y0, 8 * h, cx, cy)
}

/// One of the first `n` sprite bits is set and lands on a pixel that is
/// already lit on `screen`.
pub open spec fn collision_within(
    screen: Seq<u8>,
    mem: Seq<u8>,
    base: int,
    x0: int,
    y0: int,
    n: int,
) -> bool {
    exists|row: int, bit: int|
        0 <= row && 0 <= bit < 8 && 8 * row + bit < n && #[trigger] sprite_bit(mem, base, row, bit)
            == 1 && pix(screen, (x0 + bit) % 64, (y0 + row) % 32) == 1
}

/// Drawing the sprite of `h` rows at (x0, y0) over `screen` reports a
/// collision: some set sprite bit lands on an already-lit pixel.
pub open spec fn draw_collides(
    screen: Seq<u8>,
    mem: Seq<u8>,
    base: int,
    x0: int,
    y0: int,
    h: int,
) -> bool {
    collision_within(screen, mem, base, x0, y0, 8 * h)
}

/// How the framebuffer changes when the sprite of `h` rows at memory
/// `base` is drawn at origin (x0, y0): every pixel some set sprite bit
/// lands on is toggled, every other pixel is untouched.
pub open spec fn draw_screen_post(
    pre: Seq<u8>,
    post: Seq<u8>,
    mem: Seq<u8>,
    base: int,
    x0: int,
    y0: int,
    h: int,
) -> bool {
    &&& post.len() == pre.len()
    &&& forall|cx: int, cy: int|
        0 <= cx < 64 && 0 <= cy < 32 ==> #[trigger] pix(post, cx, cy) == (if sprite_hits(
            mem,
            base,
            x0,
            y0,
            h,
            cx,
            cy,
        ) {
            (1 - pix(pre, cx, cy)) as u8
        } else {
            pix(pre, cx, cy)
        })
}

impl CPU {
    /// Draw the sprite named by a `DXYN` instruction word: `N` rows read
    /// from memory at the index register, drawn at the origin held in the
    /// two named registers, both axes wrapping. Every set sprite bit
    /// toggles its pixel; the flags register receives 1 when some toggle
    /// hit an already-lit pixel, 0 otherwise. The program counter is
    /// untouched.
    pub fn draw_sprite(&mut self, opcode: u16)
        requires
            old(self).wf(),
            old(self).i as int + op_n(opcode) <= MEMORY_SIZE,
        ensures
            final(self).wf(),
            only_pc_screen_regs_changed(*old(self), *final(self)),
            final(self).pc == old(self).pc,
            ({
                let mem = old(self).memory@;
                let base = old(self).i as int;
                let x0 = old(self).registers@[op_x(opcode) as int] as int;
                let y0 = old(self).registers@[op_y(opcode) as int] as int;
                let h = op_n(opcode) as int;
                &&& draw_screen_post(old(self).screen@, final(self).screen@, mem, base, x0, y0, h)
                &&& final(self).registers@ == old(self).registers@.update(
                    FLAGS_REGISTER as int,
                    if draw_collides(old(self).screen@, mem, base, x0, y0, h) {
                        1u8
                    } else {
                        0u8
                    },
                )
            }),
    {
        proof {
            crate::instr::lemma_decode_bounds(opcode);
        }
        let x_reg = ((opcode >> 8) & 0xF) as usize;
        let y_reg = ((opcode >> 4) & 0xF) as usize;
        let x0 = self.registers[x_reg] as usize;
        let y0 = self.registers[y_reg] as usize;
        let h = (opcode & 0xF) as usize;
        let base = self.i as usize;
        let ghost pre = *old(self);
        let ghost gx0 = x0 as int;
        let ghost gy0 = y0 as int;
        let ghost memg = pre.memory@;
        let ghost baseg = base as int;
        proof {
            assert(x_reg == op_x(opcode) as usize);
            assert(y_reg == op_y(opcode) as usize);
            assert(h == op_n(opcode) as usize);
        }
        self.registers.set(FLAGS_REGISTER, 0);
        let total = 8 * h;
        let mut k: usize = 0;
        while k < total
            invariant
                pre.wf(),
                self.memory@ == pre.memory@,
                self.keypad@ == pre.keypad@,
                self.stack@ == pre.stack@,
                self.sp == pre.sp,
                self.pc == pre.pc,
                self.i == pre.i,
                self.delay_timer == pre.delay_timer,
                self.sound_timer == pre.sound_timer,
                self.debug == pre.debug,
                self.stop_on_missing_opcode == pre.stop_on_missing_opcode,
                self.screen@.len() == SCREEN_PIXELS,
                self.registers@.len() == NUM_REGISTERS,
                gx0 == x0 as int,
                gy0 == y0 as int,
                memg == pre.memory@,
                baseg == base as int,
                x0 < 256,
                y0 < 256,
                h <= 15,
                total == 8 * h,
                base == pre.i,
                base + h <= MEMORY_SIZE,
                k <= total,
                forall|p: int|
                    0 <= p < SCREEN_PIXELS ==> self.screen@[p] == 0 || self.screen@[p] == 1,
                forall|cx: int, cy: int|
                    #![trigger pix(self.screen@, cx, cy)]
                    0 <= cx < 64 && 0 <= cy < 32 ==> pix(self.screen@, cx, cy) == (if hits_within(
                        memg,
                        baseg,
                        gx0,
                        gy0,
                        k as int,
                        cx,
                        cy,
                    ) {
                        (1 - pix(pre.screen@, cx, cy)) as u8
                    } else {
                        pix(pre.screen@, cx, cy)
                    }),
                self.registers@ == pre.registers@.update(
                    FLAGS_REGISTER as int,
                    if collision_within(pre.screen@, memg, baseg, gx0, gy0, k as int) {
                        1u8
                    } else {
                        0u8
                    },
                ),
            decreases total - k,
        {
            proof {
                vstd::arithmetic::div_mod::lemma_fundamental_div_mod(k as int, 8);
                vstd::arithmetic::div_mod::lemma_mod_pos_bound(k as int, 8);
            }
            let row = k / 8;
            let bit = k % 8;
            let srow = self.memory[base + row];
            let shift: u8 = (7 - bit) as u8;
            let bv = (srow >> shift) & 1;
            proof {
                assert(bv == sprite_bit(memg, baseg, row as int, bit as int));
            }
            if bv == 1 {
                let cx = (x0 + bit) % 64;
                let cy = (y0 + row) % 32;
                let idx = cy * 64 + cx;
                proof {
                    vstd::arithmetic::div_mod::lemma_mod_pos_bound((x0 + bit) as int, 64);
                    vstd::arithmetic::div_mod::lemma_mod_pos_bound((y0 + row) as int, 32);
                    // No earlier sprite bit has landed on this pixel: the
                    // column offsets and row offsets are small enough that
                    // wrapping is injective on them.
                    assert(!hits_within(memg, baseg, gx0, gy0, k as int, cx as int, cy as int)) by {
                        if hits_within(memg, baseg, gx0, gy0, k as int, cx as int, cy as int) {
                            let (r2, b2) = choose|r2: int, b2: int|
                                0 <= r2 && 0 <= b2 < 8 && 8 * r2 + b2 < k as int
                                    && #[trigger] sprite_bit(memg, baseg, r2, b2) == 1 && cx as int
                                    == (gx0 + b2) % 64 && cy as int == (gy0 + r2) % 32;
                            lemma_wrap_col_inj(gx0, b2, bit as int);
                            lemma_wrap_row_inj(gy0, r2, row as int);
                        }
                    }
                }
                let ghost scr0 = self.screen@;
                let ghost regs0 = self.registers@;
                let cur = self.screen[idx];
                proof {
                    assert(idx as int == (cy as int) * 64 + cx as int);
                    assert(pix(self.screen@, cx as int, cy as int) == cur);
                    assert(cur == pix(pre.screen@, cx as int, cy as int));
                }
                if cur == 1 {
                    self.registers.set(FLAGS_REGISTER, 1);
                }
                self.screen.set(idx, 1 - cur);
                proof {
                    assert(hits_within(
                        memg,
                        baseg,
                        gx0,
                        gy0,
                        k as int + 1,
                        cx as int,
                        cy as int,
                    )) by {
                        assert(0 <= row as int && 0 <= bit as int && (bit as int) < 8 && 8 * (row as int) + (
                        bit as int) < k as int + 1 && sprite_bit(memg, baseg, row as int, bit as int)
                            == 1 && cx as int == (gx0 + bit as int) % 64 && cy as int == (gy0
                            + row as int) % 32);
                    }
                    assert forall|ax: int, ay: int|
                        #![trigger pix(self.screen@, ax, ay)]
                        0 <= ax < 64 && 0 <= ay < 32 implies pix(self.screen@, ax, ay) == (
                    if hits_within(memg, baseg, gx0, gy0, k as int + 1, ax, ay) {
                        (1 - pix(pre.screen@, ax, ay)) as u8
                    } else {
                        pix(pre.screen@, ax, ay)
                    }) by {
                        if ax == cx as int && ay == cy as int {
                            assert(pix(self.screen@, ax, ay) == 1 - cur);
                        } else {
                            assert(ay * 64 + ax != idx);
                            assert(pix(self.screen@, ax, ay) == pix(scr0, ax, ay));
                            if hits_within(memg, baseg, gx0, gy0, k as int + 1, ax, ay) {
                                let (r2, b2) = choose|r2: int, b2: int|
                                    0 <= r2 && 0 <= b2 < 8 && 8 * r2 + b2 < k as int + 1
                                        && #[trigger] sprite_bit(memg, baseg, r2, b2) == 1
                                        && ax == (gx0 + b2) % 64 && ay == (gy0 + r2) % 32;
                                if 8 * r2 + b2 == k as int {
                                    assert(r2 == row as int && b2 == bit as int);
                                    assert(false);
                                }
                                assert(hits_within(memg, baseg, gx0, gy0, k as int, ax, ay));
                            }
                            if hits_within(memg, baseg, gx0, gy0, k as int, ax, ay) {
                                let (r2, b2) = choose|r2: int, b2: int|
                                    0 <= r2 && 0 <= b2 < 8 && 8 * r2 + b2 < k as int
                                        && #[trigger] sprite_bit(memg, baseg, r2, b2) == 1
                                        && ax == (gx0 + b2) % 64 && ay == (gy0 + r2) % 32;
                                assert(hits_within(memg, baseg, gx0, gy0, k as int + 1, ax, ay));
                            }
                        }
                    }
                    assert(self.registers@ == pre.registers@.update(
                        FLAGS_REGISTER as int,
                        if collision_within(pre.screen@, memg, baseg, gx0, gy0, k as int + 1) {
                            1u8
                        } else {
                            0u8
                        },
                    )) by {
                        if cur == 1 {
                            assert(collision_within(
                                pre.screen@,
                                memg,
                                baseg,
                                gx0,
                                gy0,
                                k as int + 1,
                            )) by {
                                assert(0 <= row as int && 0 <= bit as int && (bit as int) < 8 && 8 * (row as int)
                                    + (bit as int) < k as int + 1 && sprite_bit(
                                    memg,
                                    baseg,
                                    row as int,
                                    bit as int,
                                ) == 1 && pix(
                                    pre.screen@,
                                    (gx0 + bit as int) % 64,
                                    (gy0 + row as int) % 32,
                                ) == 1);
                            }
                            assert(self.registers@ =~= pre.registers@.update(
                                FLAGS_REGISTER as int,
                                1u8,
                            ));
                        } else {
                            assert(!collision_within(
                                pre.screen@,
                                memg,
                                baseg,
                                gx0,
                                gy0,
                                k as int + 1,
                            ) || collision_within(pre.screen@, memg, baseg, gx0, gy0, k as int))
                                by {
                                if collision_within(pre.screen@, memg, baseg, gx0, gy0, k as int
                                    + 1) {
                                    let (r2, b2) = choose|r2: int, b2: int|
                                        0 <= r2 && 0 <= b2 < 8 && 8 * r2 + b2 < k as int + 1
                                            && #[trigger] sprite_bit(memg, baseg, r2, b2) == 1
                                            && pix(pre.screen@, (gx0 + b2) % 64, (gy0 + r2) % 32)
                                            == 1;
                                    if 8 * r2 + b2 == k as int {
                                        assert(r2 == row as int && b2 == bit as int);
                                        assert(pix(pre.screen@, (gx0 + b2) % 64, (gy0 + r2) % 32)
                                            == cur);
                                        assert(false);
                                    }
                                    assert(collision_within(
                                        pre.screen@,
                                        memg,
                                        baseg,
                                        gx0,
                                        gy0,
                                        k as int,
                                    ));
                                }
                            }
                            assert(collision_within(pre.screen@, memg, baseg, gx0, gy0, k as int)
                                ==> collision_within(
                                pre.screen@,
                                memg,
                                baseg,
                                gx0,
                                gy0,
                                k as int + 1,
                            )) by {
                                if collision_within(pre.screen@, memg, baseg, gx0, gy0, k as int) {
                                    let (r2, b2) = choose|r2: int, b2: int|
                                        0 <= r2 && 0 <= b2 < 8 && 8 * r2 + b2 < k as int
                                            && #[trigger] sprite_bit(memg, baseg, r2, b2) == 1
                                            && pix(pre.screen@, (gx0 + b2) % 64, (gy0 + r2) % 32)
                                            == 1;
                                    assert(collision_within(
                                        pre.screen@,
                                        memg,
                                        baseg,
                                        gx0,
                                        gy0,
                                        k as int + 1,
                                    ));
                                }
                            }
                        }
                    }
                }
            } else {
                proof {
                    assert forall|ax: int, ay: int|
                        #![trigger pix(self.screen@, ax, ay)]
                        0 <= ax < 64 && 0 <= ay < 32 implies pix(self.screen@, ax, ay) == (
                    if hits_within(memg, baseg, gx0, gy0, k as int + 1, ax, ay) {
                        (1 - pix(pre.screen@, ax, ay)) as u8
                    } else {
                        pix(pre.screen@, ax, ay)
                    }) by {
                        if hits_within(memg, baseg, gx0, gy0, k as int + 1, ax, ay) {
                            let (r2, b2) = choose|r2: int, b2: int|
                                0 <= r2 && 0 <= b2 < 8 && 8 * r2 + b2 < k as int + 1
                                    && #[trigger] sprite_bit(memg, baseg, r2, b2) == 1 && ax == (
                                gx0 + b2) % 64 && ay == (gy0 + r2) % 32;
                            if 8 * r2 + b2 == k as int {
                                assert(sprite_bit(memg, baseg, r2, b2) == bv);
                                assert(false);
                            }
                            assert(hits_within(memg, baseg, gx0, gy0, k as int, ax, ay));
                        }
                        if hits_within(memg, baseg, gx0, gy0, k as int, ax, ay) {
                            let (r2, b2) = choose|r2: int, b2: int|
                                0 <= r2 && 0 <= b2 < 8 && 8 * r2 + b2 < k as int
                                    && #[trigger] sprite_bit(memg, baseg, r2, b2) == 1 && ax == (
                                gx0 + b2) % 64 && ay == (gy0 + r2) % 32;
                            assert(hits_within(memg, baseg, gx0, gy0, k as int + 1, ax, ay));
                        }
                    }
                    assert(collision_within(pre.screen@, memg, baseg, gx0, gy0, k as int + 1)
                        == collision_within(pre.screen@, memg, baseg, gx0, gy0, k as int)) by {
                        if collision_within(pre.screen@, memg, baseg, gx0, gy0, k as int + 1) {
                            let (r2, b2) = choose|r2: int, b2: int|
                                0 <= r2 && 0 <= b2 < 8 && 8 * r2 + b2 < k as int + 1
                                    && #[trigger] sprite_bit(memg, baseg, r2, b2) == 1 && pix(
                                    pre.screen@,
                                    (gx0 + b2) % 64,
                                    (gy0 + r2) % 32,
                                ) == 1;
                            if 8 * r2 + b2 == k as int {
                                assert(sprite_bit(memg, baseg, r2, b2) == bv);
                                assert(false);
                            }
                            assert(collision_within(pre.screen@, memg, baseg, gx0, gy0, k as int));
                        }
                        if collision_within(pre.screen@, memg, baseg, gx0, gy0, k as int) {
                            let (r2, b2) = choose|r2: int, b2: int|
                                0 <= r2 && 0 <= b2 < 8 && 8 * r2 + b2 < k as int
                                    && #[trigger] sprite_bit(memg, baseg, r2, b2) == 1 && pix(
                                    pre.screen@,
                                    (gx0 + b2) % 64,
                                    (gy0 + r2) % 32,
                                ) == 1;
                            assert(collision_within(pre.screen@, memg, baseg, gx0, gy0, k as int
                                + 1));
                        }
                    }
                }
            }
            k = k + 1;
        }
    }
}

/// Two in-range column offsets that wrap to the same column are equal.
pub proof fn lemma_wrap_col_inj(x0: int, b1: int, b2: int)
    requires
        0 <= x0,
        0 <= b1 < 8,
        0 <= b2 < 8,
        (x0 + b1) % 64 == (x0 + b2) % 64,
    ensures
        b1 == b2,
{
    vstd::arithmetic::div_mod::lemma_mod_equivalence(x0 + b1, x0 + b2, 64);
    if b1 > b2 {
        vstd::arithmetic::div_mod::lemma_small_mod((b1 - b2) as nat, 64);
    } else if b2 > b1 {
        vstd::arithmetic::div_mod::lemma_mod_equivalence(x0 + b2, x0 + b1, 64);
        vstd::arithmetic::div_mod::lemma_small_mod((b2 - b1) as nat, 64);
    }
}

/// Two in-range row offsets that wrap to the same row are equal.
pub proof fn lemma_wrap_row_inj(y0: int, r1: int, r2: int)
    requires
        0 <= y0,
        0 <= r1 < 32,
        0 <= r2 < 32,
        (y0 + r1) % 32 == (y0 + r2) % 32,
    ensures
        r1 == r2,
{
    vstd::arithmetic::div_mod::lemma_mod_equivalence(y0 + r1, y0 + r2, 32);
    if r1 > r2 {
        vstd::arithmetic::div_mod::lemma_small_mod((r1 - r2) as nat, 32);
    } else if r2 > r1 {
        vstd::arithmetic::div_mod::lemma_mod_equivalence(y0 + r2, y0 + r1, 32);
        vstd::arithmetic::div_mod::lemma_small_mod((r2 - r1) as nat, 32);
    }
}

/// The keypad and the two configuration flags are unchanged; the engine
/// never writes them.
pub open spec fn untouched_host_state(pre: CPU, post: CPU) -> bool {
    &&& post.keypad@ == pre.keypad@
    &&& post.debug == pre.debug
    &&& post.stop_on_missing_opcode == pre.stop_on_missing_opcode
}

/// No machine state changed at all.
pub open spec fn machine_unchanged(pre: CPU, post: CPU) -> bool {
    &&& untouched_host_state(pre, post)
    &&& post.memory@ == pre.memory@
    &&& post.screen@ == pre.screen@
    &&& post.registers@ == pre.registers@
    &&& post.pc == pre.pc
    &&& post.i == pre.i
    &&& post.stack@ == pre.stack@
    &&& post.sp == pre.sp
    &&& post.delay_timer == pre.delay_timer
    &&& post.sound_timer == pre.sound_timer
}

/// Only memory may differ.
pub open spec fn only_mem_changed(pre: CPU, post: CPU) -> bool {
    &&& untouched_host_state(pre, post)
    &&& post.screen@ == pre.screen@
    &&& post.registers@ == pre.registers@
    &&& post.pc == pre.pc
    &&& post.i == pre.i
    &&& post.stack@ == pre.stack@
    &&& post.sp == pre.sp
    &&& post.delay_timer == pre.delay_timer
    &&& post.sound_timer == pre.sound_timer
}

/// Only the two timers may differ.
pub open spec fn only_timers_changed(pre: CPU, post: CPU) -> bool {
    &&& untouched_host_state(pre, post)
    &&& post.memory@ == pre.memory@
    &&& post.screen@ == pre.screen@
    &&& post.registers@ == pre.registers@
    &&& post.pc == pre.pc
    &&& post.i == pre.i
    &&& post.stack@ == pre.stack@
    &&& post.sp == pre.sp
}

/// Only the program counter may differ.
pub open spec fn only_pc_changed(pre: CPU, post: CPU) -> bool {
    &&& untouched_host_state(pre, post)
    &&& post.memory@ == pre.memory@
    &&& post.screen@ == pre.screen@
    &&& post.registers@ == pre.registers@
    &&& post.i == pre.i
    &&& post.stack@ == pre.stack@
    &&& post.sp == pre.sp
    &&& post.delay_timer == pre.delay_timer
    &&& post.sound_timer == pre.sound_timer
}

/// Only the program counter and the registers may differ.
pub open spec fn only_pc_regs_changed(pre: CPU, post: CPU) -> bool {
    &&& untouched_host_state(pre, post)
    &&& post.memory@ == pre.memory@
    &&& post.screen@ == pre.screen@
    &&& post.i == pre.i
    &&& post.stack@ == pre.stack@
    &&& post.sp == pre.sp
    &&& post.delay_timer == pre.delay_timer
    &&& post.sound_timer == pre.sound_timer
}

/// Only the program counter and the framebuffer may differ.
pub open spec fn only_pc_screen_changed(pre: CPU, post: CPU) -> bool {
    &&& untouched_host_state(pre, post)
    &&& post.memory@ == pre.memory@
    &&& post.registers@ == pre.registers@
    &&& post.i == pre.i
    &&& post.stack@ == pre.stack@
    &&& post.sp == pre.sp
    &&& post.delay_timer == pre.delay_timer
    &&& post.sound_timer == pre.sound_timer
}

/// Only the program counter, the framebuffer and the registers may differ.
pub open spec fn only_pc_screen_regs_changed(pre: CPU, post: CPU) -> bool {
    &&& untouched_host_state(pre, post)
    &&& post.memory@ == pre.memory@
    &&& post.i == pre.i
    &&& post.stack@ == pre.stack@
    &&& post.sp == pre.sp
    &&& post.delay_timer == pre.delay_timer
    &&& post.sound_timer == pre.sound_timer
}

/// Only the program counter and the index register may differ.
pub open spec fn only_pc_index_changed(pre: CPU, post: CPU) -> bool {
    &&& untouched_host_state(pre, post)
    &&& post.memory@ == pre.memory@
    &&& post.screen@ == pre.screen@
    &&& post.registers@ == pre.registers@
    &&& post.stack@ == pre.stack@
    &&& post.sp == pre.sp
    &&& post.delay_timer == pre.delay_timer
    &&& post.sound_timer == pre.sound_timer
}

/// Only the program counter and the memory may differ.
pub open spec fn only_pc_mem_changed(pre: CPU, post: CPU) -> bool {
    &&& untouched_host_state(pre, post)
    &&& post.screen@ == pre.screen@
    &&& post.registers@ == pre.registers@
    &&& post.i == pre.i
    &&& post.stack@ == pre.stack@
    &&& post.sp == pre.sp
    &&& post.delay_timer == pre.delay_timer
    &&& post.sound_timer == pre.sound_timer
}

/// Only the program counter, the stack and the stack pointer may differ.
pub open spec fn only_pc_stack_changed(pre: CPU, post: CPU) -> bool {
    &&& untouched_host_state(pre, post)
    &&& post.memory@ == pre.memory@
    &&& post.screen@ == pre.screen@
    &&& post.registers@ == pre.registers@
    &&& post.i == pre.i
    &&& post.delay_timer == pre.delay_timer
    &&& post.sound_timer == pre.sound_timer
}

/// Only the program counter and the delay timer may differ.
pub open spec fn only_pc_delay_changed(pre: CPU, post: CPU) -> bool {
    &&& untouched_host_state(pre, post)
    &&& post.memory@ == pre.memory@
    &&& post.screen@ == pre.screen@
    &&& post.registers@ == pre.registers@
    &&& post.i == pre.i
    &&& post.stack@ == pre.stack@
    &&& post.sp == pre.sp
    &&& post.sound_timer == pre.sound_timer
}

/// Only the program counter and the sound timer may differ.
pub open spec fn only_pc_sound_changed(pre: CPU, post: CPU) -> bool {
    &&& untouched_host_state(pre, post)
    &&& post.memory@ == pre.memory@
    &&& post.screen@ == pre.screen@
    &&& post.registers@ == pre.registers@
    &&& post.i == pre.i
    &&& post.stack@ == pre.stack@
    &&& post.sp == pre.sp
    &&& post.delay_timer == pre.delay_timer
}

/// Combining two bytes big-endian by shift-and-or is the same as by
/// arithmetic.
proof fn lemma_fetch_word(hi: u8, lo: u8)
    by (bit_vector)
    ensures
        ((hi as u16) << 8u16) | (lo as u16) == hi as u16 * 256 + lo as u16,
{
}

/// What one call of `run_one_cycle` does: how the machine state after the
/// call relates to the state before it, and which result comes back. The
/// result is `Ok` exactly on the errors' complement: the program counter
/// names two fetchable bytes, and the decoded instruction neither
/// overruns the stack or memory, names a keypad slot above 15, nor is
/// unrecognized under strict mode.
pub open spec fn cycle_post(pre: CPU, post: CPU, r: Result<StepOutcome, StepError>) -> bool {
    if pre.pc as int + 2 > MEMORY_SIZE {
        &&& r == Err::<StepOutcome, StepError>(StepError::ProgramCounterOutOfRange)
        &&& machine_unchanged(pre, post)
    } else {
        let op = pre.spec_fetch();
        let pc2 = pre.pc as int + 2;
        let ok = r == Ok::<StepOutcome, StepError>(StepOutcome::Executed);
        match spec_decode(op) {
            Instr::ClearScreen => {
                &&& ok
                &&& only_pc_screen_changed(pre, post)
                &&& post.pc == pc2
                &&& forall|p: int| 0 <= p < SCREEN_PIXELS ==> post.screen@[p] == 0
            },
            Instr::Return => if pre.sp == 0 {
                &&& r == Err::<StepOutcome, StepError>(StepError::StackUnderflow)
                &&& machine_unchanged(pre, post)
            } else {
                &&& ok
                &&& only_pc_stack_changed(pre, post)
                &&& post.stack@ == pre.stack@
                &&& post.sp == pre.sp - 1
                &&& post.pc == pre.stack@[pre.sp - 1]
            },
            Instr::Jump(t) => {
                &&& ok
                &&& only_pc_changed(pre, post)
                &&& post.pc == t
            },
            Instr::Call(t) => if pre.sp == STACK_SIZE {
                &&& r == Err::<StepOutcome, StepError>(StepError::StackOverflow)
                &&& machine_unchanged(pre, post)
            } else {
                &&& ok
                &&& only_pc_stack_changed(pre, post)
                &&& post.stack@ == pre.stack@.update(pre.sp as int, pc2 as u16)
                &&& post.sp == pre.sp + 1
                &&& post.pc == t
            },
            Instr::SkipEqImm(x, nn) => {
                &&& ok
                &&& only_pc_changed(pre, post)
                &&& post.pc == (if pre.registers@[x as int] == nn {
                    pre.pc as int + 4
                } else {
                    pc2
                })
            },
            Instr::SkipNeImm(x, nn) => {
                &&& ok
                &&& only_pc_changed(pre, post)
                &&& post.pc == (if pre.registers@[x as int] != nn {
                    pre.pc as int + 4
                } else {
                    pc2
                })
            },
            Instr::SkipEqReg(x, y) => {
                &&& ok
                &&& only_pc_changed(pre, post)
                &&& post.pc == (if pre.registers@[x as int] == pre.registers@[y as int] {
                    pre.pc as int + 4
                } else {
                    pc2
                })
            },
            Instr::LoadImm(x, nn) => {
                &&& ok
                &&& only_pc_regs_changed(pre, post)
                &&& post.pc == pc2
                &&& post.registers@ == pre.registers@.update(x as int, nn)
            },
            Instr::AddImm(x, nn) => {
                &&& ok
                &&& only_pc_regs_changed(pre, post)
                &&& post.pc == pc2
                &&& post.registers@ == pre.registers@.update(
                    x as int,
                    ((pre.registers@[x as int] + nn) % 256) as u8,
                )
            },
            Instr::Alu(x, y, aop) => {
                &&& ok
                &&& only_pc_regs_changed(pre, post)
                &&& post.pc == pc2
                &&& post.registers@ == alu_regs(pre.registers@, x as int, y as int, aop)
            },
            Instr::SetIndex(t) => {
                &&& ok
                &&& only_pc_index_changed(pre, post)
                &&& post.pc == pc2
                &&& post.i == t
            },
            Instr::Random(x, nn) => {
                &&& ok
                &&& only_pc_regs_changed(pre, post)
                &&& post.pc == pc2
                &&& exists|b: u8| post.registers@ == pre.registers@.update(x as int, b & nn)
            },
            Instr::Draw(x, y, n) => if pre.i as int + n > MEMORY_SIZE {
                &&& r == Err::<StepOutcome, StepError>(StepError::MemoryOutOfRange)
                &&& machine_unchanged(pre, post)
            } else {
                let x0 = pre.registers@[x as int] as int;
                let y0 = pre.registers@[y as int] as int;
                &&& ok
                &&& only_pc_screen_regs_changed(pre, post)
                &&& post.pc == pc2
                &&& draw_screen_post(
                    pre.screen@,
                    post.screen@,
                    pre.memory@,
                    pre.i as int,
                    x0,
                    y0,
                    n as int,
                )
                &&& post.registers@ == pre.registers@.update(
                    FLAGS_REGISTER as int,
                    if draw_collides(pre.screen@, pre.memory@, pre.i as int, x0, y0, n as int) {
                        1u8
                    } else {
                        0u8
                    },
                )
            },
            Instr::SkipKeyDown(x) => if pre.registers@[x as int] >= NUM_KEYS {
                &&& r == Err::<StepOutcome, StepError>(StepError::KeyOutOfRange)
                &&& machine_unchanged(pre, post)
            } else {
                &&& ok
                &&& only_pc_changed(pre, post)
                &&& post.pc == (if pre.keypad@[pre.registers@[x as int] as int] {
                    pre.pc as int + 4
                } else {
                    pc2
                })
            },
            Instr::SkipKeyUp(x) => if pre.registers@[x as int] >= NUM_KEYS {
                &&& r == Err::<StepOutcome, StepError>(StepError::KeyOutOfRange)
                &&& machine_unchanged(pre, post)
            } else {
                &&& ok
                &&& only_pc_changed(pre, post)
                &&& post.pc == (if !pre.keypad@[pre.registers@[x as int] as int] {
                    pre.pc as int + 4
                } else {
                    pc2
                })
            },
            Instr::ReadDelay(x) => {
                &&& ok
                &&& only_pc_regs_changed(pre, post)
                &&& post.pc == pc2
                &&& post.registers@ == pre.registers@.update(x as int, pre.delay_timer)
            },
            Instr::WaitKey(x) => if exists|kk: int| 0 <= kk < NUM_KEYS && pre.keypad@[kk] {
                &&& ok
                &&& only_pc_regs_changed(pre, post)
                &&& post.pc == pc2
                &&& ({
                    let kv = post.registers@[x as int];
                    &&& kv < NUM_KEYS
                    &&& pre.keypad@[kv as int]
                    &&& forall|j: int| 0 <= j < kv ==> !pre.keypad@[j]
                    &&& post.registers@ == pre.registers@.update(x as int, kv)
                })
            } else {
                &&& ok
                &&& machine_unchanged(pre, post)
            },
            Instr::SetDelay(x) => {
                &&& ok
                &&& only_pc_delay_changed(pre, post)
                &&& post.pc == pc2
                &&& post.delay_timer == pre.registers@[x as int]
            },
            Instr::SetSound(x) => {
                &&& ok
                &&& only_pc_sound_changed(pre, post)
                &&& post.pc == pc2
                &&& post.sound_timer == pre.registers@[x as int]
            },
            Instr::AddIndex(x) => {
                &&& ok
                &&& only_pc_index_changed(pre, post)
                &&& post.pc == pc2
                &&& post.i == (pre.i + pre.registers@[x as int]) % 0x10000
            },
            Instr::FontAddr(x) => {
                &&& ok
                &&& only_pc_index_changed(pre, post)
                &&& post.pc == pc2
                &&& post.i == FONT_START + 5 * (pre.registers@[x as int] & 0xF)
            },
            Instr::StoreBcd(x) => if pre.i as int + 3 > MEMORY_SIZE {
                &&& r == Err::<StepOutcome, StepError>(StepError::MemoryOutOfRange)
                &&& machine_unchanged(pre, post)
            } else {
                let vx = pre.registers@[x as int];
                let base = pre.i as int;
                &&& ok
                &&& only_pc_mem_changed(pre, post)
                &&& post.pc == pc2
                &&& post.memory@ == pre.memory@.update(base, (vx / 100) as u8).update(
                    base + 1,
                    ((vx / 10) % 10) as u8,
                ).update(base + 2, (vx % 10) as u8)
            },
            Instr::StoreRegs(x) => if pre.i as int + x + 1 > MEMORY_SIZE {
                &&& r == Err::<StepOutcome, StepError>(StepError::MemoryOutOfRange)
                &&& machine_unchanged(pre, post)
            } else {
                &&& ok
                &&& only_pc_mem_changed(pre, post)
                &&& post.pc == pc2
                &&& post.memory@.len() == MEMORY_SIZE
                &&& forall|a: int|
                    0 <= a < MEMORY_SIZE ==> post.memory@[a] == (if pre.i <= a < pre.i + x + 1 {
                        pre.registers@[a - pre.i]
                    } else {
                        pre.memory@[a]
                    })
            },
            Instr::LoadRegs(x) => if pre.i as int + x + 1 > MEMORY_SIZE {
                &&& r == Err::<StepOutcome, StepError>(StepError::MemoryOutOfRange)
                &&& machine_unchanged(pre, post)
            } else {
                &&& ok
                &&& only_pc_regs_changed(pre, post)
                &&& post.pc == pc2
                &&& post.registers@.len() == NUM_REGISTERS
                &&& forall|j: int|
                    0 <= j < NUM_REGISTERS ==> post.registers@[j] == (if j < x + 1 {
                        pre.memory@[pre.i + j]
                    } else {
                        pre.registers@[j]
                    })
            },
            Instr::Unknown(w) => if pre.stop_on_missing_opcode {
                &&& r == Err::<StepOutcome, StepError>(StepError::UnknownOpcode(w))
                &&& machine_unchanged(pre, post)
            } else {
                &&& r == Ok::<StepOutcome, StepError>(StepOutcome::UnknownOpcodeIgnored(w))
                &&& only_pc_changed(pre, post)
                &&& post.pc == pc2
            },
        }
    }
}

/// Relies on rand::random: a pseudo-random byte from the thread-local
/// generator. Nothing is assumed about its value.
#[verifier::external_body]
fn random_byte() -> u8 {
    rand::random()
}

impl CPU {
    /// The lowest-numbered currently pressed key, if any key is pressed.
    fn first_pressed_key(&self) -> (r: Option<u8>)
        requires
            self.wf(),
        ensures
            match r {
                Some(k) => k < NUM_KEYS && self.keypad@[k as int] && forall|j: int|
                    0 <= j < k ==> !self.keypad@[j],
                None => forall|j: int| 0 <= j < NUM_KEYS ==> !self.keypad@[j],
            },
    {
        let mut j: usize = 0;
        while j < NUM_KEYS
            invariant
                self.wf(),
                j <= NUM_KEYS,
                forall|t: int| 0 <= t < j ==> !self.keypad@[t],
            decreases NUM_KEYS - j,
        {
            if self.keypad[j] {
                return Some(j as u8);
            }
            j = j + 1;
        }
        None
    }

    /// Run one cycle: fetch the instruction word at the program counter
    /// (big-endian), advance the program counter by 2, decode, and mutate
    /// the state as the instruction says; `cycle_post` states the exact
    /// effect of every instruction. The one wait instruction never blocks:
    /// with no key pressed it leaves the whole state unchanged (the
    /// program counter is rewound over the advance), so the caller keeps
    /// making progress by calling again.
    pub fn run_one_cycle(&mut self) -> (r: Result<StepOutcome, StepError>)
        requires
            old(self).wf(),
        ensures
            final(self).wf(),
            cycle_post(*old(self), *final(self), r),
    {
        let ghost pre = *old(self);
        if self.pc as usize + 2 > MEMORY_SIZE {
            return Err(StepError::ProgramCounterOutOfRange);
        }
        let pcu = self.pc as usize;
        let hi = self.memory[pcu];
        let lo = self.memory[pcu + 1];
        let op: u16 = ((hi as u16) << 8u16) | (lo as u16);
        proof {
            lemma_fetch_word(hi, lo);
            assert(op == pre.spec_fetch());
            lemma_decode_bounds(op);
        }
        let pc2: u16 = self.pc + 2;
        let instr = decode(op);
        match instr {
            Instr::ClearScreen => {
                self.pc = pc2;
                let mut p: usize = 0;
                while p < SCREEN_PIXELS
                    invariant
                        pre.wf(),
                        p <= SCREEN_PIXELS,
                        self.screen@.len() == SCREEN_PIXELS,
                        only_pc_screen_changed(pre, *self),
                        self.pc == pre.pc + 2,
                        forall|q: int| 0 <= q < p ==> self.screen@[q] == 0,
                        forall|q: int|
                            p <= q < SCREEN_PIXELS ==> self.screen@[q] == pre.screen@[q],
                    decreases SCREEN_PIXELS - p,
                {
                    self.screen.set(p, 0);
                    p = p + 1;
                }
                Ok(StepOutcome::Executed)
            },
            Instr::Return => {
                if self.sp == 0 {
                    return Err(StepError::StackUnderflow);
                }
                let t = self.stack[self.sp - 1];
                self.sp = self.sp - 1;
                self.pc = t;
                Ok(StepOutcome::Executed)
            },
            Instr::Jump(t) => {
                self.pc = t;
                Ok(StepOutcome::Executed)
            },
            Instr::Call(t) => {
                if self.sp == STACK_SIZE {
                    return Err(StepError::StackOverflow);
                }
                self.stack.set(self.sp, pc2);
                self.sp = self.sp + 1;
                self.pc = t;
                Ok(StepOutcome::Executed)
            },
            Instr::SkipEqImm(x, nn) => {
                let vx = self.registers[x as usize];
                self.pc = if vx == nn {
                    self.pc + 4
                } else {
                    pc2
                };
                Ok(StepOutcome::Executed)
            },
            Instr::SkipNeImm(x, nn) => {
                let vx = self.registers[x as usize];
                self.pc = if vx != nn {
                    self.pc + 4
                } else {
                    pc2
                };
                Ok(StepOutcome::Executed)
            },
            Instr::SkipEqReg(x, y) => {
                let vx = self.registers[x as usize];
                let vy = self.registers[y as usize];
                self.pc = if vx == vy {
                    self.pc + 4
                } else {
                    pc2
                };
                Ok(StepOutcome::Executed)
            },
            Instr::LoadImm(x, nn) => {
                self.pc = pc2;
                self.registers.set(x as usize, nn);
                Ok(StepOutcome::Executed)
            },
            Instr::AddImm(x, nn) => {
                self.pc = pc2;
                let vx = self.registers[x as usize];
                let sum: u16 = vx as u16 + nn as u16;
                self.registers.set(x as usize, (sum % 256) as u8);
                Ok(StepOutcome::Executed)
            },
            Instr::Alu(x, y, aop) => {
                self.pc = pc2;
                let xu = x as usize;
                let yu = y as usize;
                let vx = self.registers[xu];
                let vy = self.registers[yu];
                match aop {
                    AluOp::Assign => {
                        self.registers.set(xu, vy);
                    },
                    AluOp::Or => {
                        self.registers.set(xu, vx | vy);
                    },
                    AluOp::And => {
                        self.registers.set(xu, vx & vy);
                    },
                    AluOp::Xor => {
                        self.registers.set(xu, vx ^ vy);
                    },
                    AluOp::AddCarry => {
                        let sum: u16 = vx as u16 + vy as u16;
                        let carry: u8 = if sum > 255 {
                            1
                        } else {
                            0
                        };
                        self.registers.set(FLAGS_REGISTER, carry);
                        self.registers.set(xu, (sum % 256) as u8);
                    },
                    AluOp::SubBorrow => {
                        let flag: u8 = if vx >= vy {
                            1
                        } else {
                            0
                        };
                        self.registers.set(FLAGS_REGISTER, flag);
                        let a = self.registers[xu];
                        let b = self.registers[yu];
                        let res: u8 = if a >= b {
                            a - b
                        } else {
                            (a as u16 + 256 - b as u16) as u8
                        };
                        self.registers.set(xu, res);
                    },
                    AluOp::ShiftRight => {
                        self.registers.set(FLAGS_REGISTER, vx & 1);
                        let a = self.registers[xu];
                        self.registers.set(xu, a >> 1u8);
                    },
                    AluOp::SubReverse => {
                        let flag: u8 = if vy >= vx {
                            1
                        } else {
                            0
                        };
                        self.registers.set(FLAGS_REGISTER, flag);
                        let a = self.registers[xu];
                        let b = self.registers[yu];
                        let res: u8 = if b >= a {
                            b - a
                        } else {
                            (b as u16 + 256 - a as u16) as u8
                        };
                        self.registers.set(xu, res);
                    },
                    AluOp::ShiftLeft => {
                        self.registers.set(FLAGS_REGISTER, (vx >> 7u8) & 1);
                        let a = self.registers[xu];
                        self.registers.set(xu, a << 1u8);
                    },
                }
                proof {
                    assert(self.registers@ =~= alu_regs(pre.registers@, x as int, y as int, aop));
                }
                Ok(StepOutcome::Executed)
            },
            Instr::SetIndex(t) => {
                self.pc = pc2;
                self.i = t;
                Ok(StepOutcome::Executed)
            },
            Instr::Random(x, nn) => {
                let b = random_byte();
                self.pc = pc2;
                self.registers.set(x as usize, b & nn);
                proof {
                    assert(exists|bb: u8|
                        self.registers@ == pre.registers@.update(x as int, bb & nn)) by {
                        assert(self.registers@ == pre.registers@.update(x as int, (b & nn)));
                    }
                }
                Ok(StepOutcome::Executed)
            },
            Instr::Draw(x, y, n) => {
                if self.i as usize + n as usize > MEMORY_SIZE {
                    return Err(StepError::MemoryOutOfRange);
                }
                self.pc = pc2;
                self.draw_sprite(op);
                Ok(StepOutcome::Executed)
            },
            Instr::SkipKeyDown(x) => {
                let vx = self.registers[x as usize];
                if vx as usize >= NUM_KEYS {
                    return Err(StepError::KeyOutOfRange);
                }
                let down = self.keypad[vx as usize];
                self.pc = if down {
                    self.pc + 4
                } else {
                    pc2
                };
                Ok(StepOutcome::Executed)
            },
            Instr::SkipKeyUp(x) => {
                let vx = self.registers[x as usize];
                if vx as usize >= NUM_KEYS {
                    return Err(StepError::KeyOutOfRange);
                }
                let down = self.keypad[vx as usize];
                self.pc = if !down {
                    self.pc + 4
                } else {
                    pc2
                };
                Ok(StepOutcome::Executed)
            },
            Instr::ReadDelay(x) => {
                self.pc = pc2;
                let d = self.delay_timer;
                self.registers.set(x as usize, d);
                Ok(StepOutcome::Executed)
            },
            Instr::WaitKey(x) => {
                match self.first_pressed_key() {
                    Some(kv) => {
                        self.pc = pc2;
                        self.registers.set(x as usize, kv);
                        Ok(StepOutcome::Executed)
                    },
                    None => Ok(StepOutcome::Executed),
                }
            },
            Instr::SetDelay(x) => {
                self.pc = pc2;
                self.delay_timer = self.registers[x as usize];
                Ok(StepOutcome::Executed)
            },
            Instr::SetSound(x) => {
                self.pc = pc2;
                self.sound_timer = self.registers[x as usize];
                Ok(StepOutcome::Executed)
            },
            Instr::AddIndex(x) => {
                self.pc = pc2;
                let vx = self.registers[x as usize];
                let ni: u16 = ((self.i as u32 + vx as u32) % 0x10000) as u16;
                self.i = ni;
                Ok(StepOutcome::Executed)
            },
            Instr::FontAddr(x) => {
                self.pc = pc2;
                let vx = self.registers[x as usize];
                self.i = FONT_START + 5 * ((vx & 0xF) as u16);
                Ok(StepOutcome::Executed)
            },
            Instr::StoreBcd(x) => {
                if self.i as usize + 3 > MEMORY_SIZE {
                    return Err(StepError::MemoryOutOfRange);
                }
                self.pc = pc2;
                let vx = self.registers[x as usize];
                let iu = self.i as usize;
                self.memory.set(iu, vx / 100);
                self.memory.set(iu + 1, (vx / 10) % 10);
                self.memory.set(iu + 2, vx % 10);
                Ok(StepOutcome::Executed)
            },
            Instr::StoreRegs(x) => {
                let xu = x as usize;
                if self.i as usize + xu + 1 > MEMORY_SIZE {
                    return Err(StepError::MemoryOutOfRange);
                }
                self.pc = pc2;
                let iu = self.i as usize;
                let mut off: usize = 0;
                while off < xu + 1
                    invariant
                        pre.wf(),
                        xu < NUM_REGISTERS,
                        iu == pre.i,
                        iu + xu + 1 <= MEMORY_SIZE,
                        off <= xu + 1,
                        self.memory@.len() == MEMORY_SIZE,
                        only_pc_mem_changed(pre, *self),
                        self.pc == pre.pc + 2,
                        forall|a: int|
                            0 <= a < MEMORY_SIZE ==> self.memory@[a] == (if iu <= a < iu + off {
                                pre.registers@[a - iu]
                            } else {
                                pre.memory@[a]
                            }),
                    decreases xu + 1 - off,
                {
                    let v = self.registers[off];
                    self.memory.set(iu + off, v);
                    off = off + 1;
                }
                Ok(StepOutcome::Executed)
            },
            Instr::LoadRegs(x) => {
                let xu = x as usize;
                if self.i as usize + xu + 1 > MEMORY_SIZE {
                    return Err(StepError::MemoryOutOfRange);
                }
                self.pc = pc2;
                let iu = self.i as usize;
                let mut off: usize = 0;
                while off < xu + 1
                    invariant
                        pre.wf(),
                        xu < NUM_REGISTERS,
                        iu == pre.i,
                        iu + xu + 1 <= MEMORY_SIZE,
                        off <= xu + 1,
                        self.registers@.len() == NUM_REGISTERS,
                        only_pc_regs_changed(pre, *self),
                        self.pc == pre.pc + 2,
                        forall|j: int|
                            0 <= j < NUM_REGISTERS ==> self.registers@[j] == (if 0 <= j < off {
                                pre.memory@[iu + j]
                            } else {
                                pre.registers@[j]
                            }),
                    decreases xu + 1 - off,
                {
                    let v = self.memory[iu + off];
                    self.registers.set(off, v);
                    off = off + 1;
                }
                Ok(StepOutcome::Executed)
            },
            Instr::Unknown(w) => {
                if self.stop_on_missing_opcode {
                    Err(StepError::UnknownOpcode(w))
                } else {
                    self.pc = pc2;
                    Ok(StepOutcome::UnknownOpcodeIgnored(w))
                }
            },
        }
    }
}

} // verus!
