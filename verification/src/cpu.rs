//! The fetch-decode-execute control unit: registers, stack, timers and the
//! interpreter for the 16-bit instruction set.

use crate::graphics_buffer::{GraphicsBuffer, GRID_HEIGHT, GRID_SIZE, GRID_WIDTH, blank_grid, pixel_index};
use crate::ram::{FONT_BASE, MEM_SIZE, RAM};
use vstd::prelude::*;

verus! {

/// Report from one `cycle` on an instruction it could not execute normally.
#[derive(Clone, Copy, Debug, PartialEq, Eq, Structural)]
pub enum Diagnostic {
    /// The fetched word matches no documented operation. Non-fatal: the
    /// program counter has still advanced past the word.
    UnknownOpcode(u16),
    /// The instruction would have read or written past the end of memory.
    /// The machine state is left unchanged.
    AddressFault(u16),
    /// A call arrived with the return stack full. The machine state is left
    /// unchanged.
    StackOverflow,
    /// A return arrived with the return stack empty. The machine state is
    /// left unchanged.
    StackUnderflow,
    /// A key opcode asked about a key index above 15. The machine state is
    /// left unchanged.
    InvalidKey(u8),
}

/// Mathematical image of the machine: every register, the stack, the timers,
/// the key vector and the memory the control unit owns.
#[verifier::ext_equal]
pub ghost struct CpuState {
    pub v: Seq<u8>,
    pub index: u16,
    pub pc: u16,
    pub stack: Seq<u16>,
    pub sp: u8,
    pub delay_timer: u8,
    pub sound_timer: u8,
    pub draw_flag: bool,
    pub sound_flag: bool,
    pub keys: Seq<bool>,
    pub mem: Seq<u8>,
}

impl CpuState {
    /// The stack pointer stays within the sixteen stack slots (slot 0 is the
    /// unused base); every handler preserves this.
    pub open spec fn wf(self) -> bool {
        self.sp <= 16
    }
}

/// The control unit. It owns its memory; the framebuffer is passed into each
/// `cycle`. The fields are the machine state itself: plain values, one per
/// architectural register.
pub struct CPU {
    pub v: [u8; 16],
    pub index: u16,
    pub program_counter: u16,
    pub stack: [u16; 17],
    pub stack_pointer: u8,
    pub sound_timer: u8,
    pub delay_timer: u8,
    pub ram: RAM,
    pub draw_flag: bool,
    pub sound_flag: bool,
    pub keys_pressed: [bool; 16],
}

impl View for CPU {
    type V = CpuState;

    open spec fn view(&self) -> CpuState {
        CpuState {
            v: self.v@,
            index: self.index,
            pc: self.program_counter,
            stack: self.stack@,
            sp: self.stack_pointer,
            delay_timer: self.delay_timer,
            sound_timer: self.sound_timer,
            draw_flag: self.draw_flag,
            sound_flag: self.sound_flag,
            keys: self.keys_pressed@,
            mem: self.ram@,
        }
    }
}

/// The machine right after construction: cleared registers, program counter
/// at the first program address, and the given memory.
pub open spec fn initial_cpu(mem: Seq<u8>) -> CpuState {
    CpuState {
        v: Seq::new(16, |j: int| 0u8),
        index: 0,
        pc: 0x200,
        stack: Seq::new(17, |j: int| 0u16),
        sp: 0,
        delay_timer: 0,
        sound_timer: 0,
        draw_flag: false,
        sound_flag: false,
        keys: Seq::new(16, |j: int| false),
        mem,
    }
}

/// One 60 Hz timer tick: both timers count down and floor at zero, and the
/// sound flag reports whether the sound timer was still running.
pub open spec fn tick_spec(pre: CpuState) -> CpuState {
    CpuState {
        delay_timer: if pre.delay_timer > 0 { (pre.delay_timer - 1) as u8 } else { 0u8 },
        sound_timer: if pre.sound_timer > 0 { (pre.sound_timer - 1) as u8 } else { 0u8 },
        sound_flag: pre.sound_timer > 0,
        ..pre
    }
}

/// Highest nibble of an instruction word: the operation family.
pub open spec fn op_family(w: u16) -> u16 {
    w / 0x1000
}

/// Second nibble: the register index x.
pub open spec fn op_x(w: u16) -> int {
    ((w / 0x100) % 16) as int
}

/// Third nibble: the register index y.
pub open spec fn op_y(w: u16) -> int {
    ((w / 16) % 16) as int
}

/// Lowest nibble: the 4-bit immediate n.
pub open spec fn op_n(w: u16) -> u8 {
    (w % 16) as u8
}

/// Low byte: the 8-bit immediate kk.
pub open spec fn op_kk(w: u16) -> u8 {
    (w % 256) as u8
}

/// Low 12 bits: the address immediate nnn.
pub open spec fn op_nnn(w: u16) -> u16 {
    w % 0x1000
}

/// The big-endian word at the program counter.
pub open spec fn fetch_word(pre: CpuState) -> u16 {
    (pre.mem[pre.pc as int] * 256 + pre.mem[pre.pc as int + 1]) as u16
}

/// Sum modulo 256, and the carry flag: 1 exactly when the true sum
/// exceeds 255.
pub open spec fn add_with_carry(a: u8, b: u8) -> (u8, u8) {
    (((a + b) % 256) as u8, if a + b > 255 { 1u8 } else { 0u8 })
}

/// Difference modulo 256, and the no-borrow flag: 1 exactly when the
/// minuend is at least the subtrahend (so 1 on equal operands).
pub open spec fn sub_no_borrow(a: u8, b: u8) -> (u8, u8) {
    (((a + 256 - b) % 256) as u8, if a >= b { 1u8 } else { 0u8 })
}

/// Halved value, and the pre-shift low bit as the flag.
pub open spec fn shift_right(a: u8) -> (u8, u8) {
    ((a / 2) as u8, (a % 2) as u8)
}

/// Doubled value modulo 256, and the pre-shift high bit as the flag.
pub open spec fn shift_left(a: u8) -> (u8, u8) {
    (((a * 2) % 256) as u8, (a / 128) as u8)
}

/// The lowest pressed key index at or above `k`, if any.
pub open spec fn first_pressed_from(keys: Seq<bool>, k: nat) -> Option<u8>
    decreases 16 - k,
{
    if k >= 16 {
        None
    } else if keys[k as int] {
        Some(k as u8)
    } else {
        first_pressed_from(keys, k + 1)
    }
}

/// The lowest pressed key index, if any key is pressed.
pub open spec fn first_pressed(keys: Seq<bool>) -> Option<u8> {
    first_pressed_from(keys, 0)
}

/// Whether column `c` (0 is leftmost) of sprite row byte `b` is set.
pub open spec fn sprite_bit(b: u8, c: u8) -> bool {
    b & (0x80u8 >> c) != 0
}

/// Grid and collision flag after the first `c` columns of the sprite row
/// byte `b` drawn at row `y` starting from column `x0`. A set sprite bit
/// toggles the pixel and records a collision if the pixel was on; columns
/// past the right edge are clipped.
pub open spec fn draw_row_prefix(
    g: Seq<bool>,
    coll: bool,
    b: u8,
    x0: u8,
    y: u8,
    c: nat,
) -> (Seq<bool>, bool)
    decreases c,
{
    if c == 0 {
        (g, coll)
    } else {
        let done = draw_row_prefix(g, coll, b, x0, y, (c - 1) as nat);
        let px = x0 + c - 1;
        if px < GRID_WIDTH && sprite_bit(b, (c - 1) as u8) {
            let idx = pixel_index(px, y as int);
            (done.0.update(idx, !done.0[idx]), done.1 || done.0[idx])
        } else {
            done
        }
    }
}

/// Grid and collision flag after the first `r` rows of the sprite read from
/// `mem[i..]` and anchored at `(x0, y0)`. Rows past the bottom edge are
/// clipped.
pub open spec fn draw_prefix(
    g: Seq<bool>,
    coll: bool,
    mem: Seq<u8>,
    i: int,
    x0: u8,
    y0: u8,
    r: nat,
) -> (Seq<bool>, bool)
    decreases r,
{
    if r == 0 {
        (g, coll)
    } else {
        let done = draw_prefix(g, coll, mem, i, x0, y0, (r - 1) as nat);
        if y0 + r - 1 < GRID_HEIGHT {
            draw_row_prefix(done.0, done.1, mem[i + r - 1], x0, (y0 + r - 1) as u8, 8)
        } else {
            done
        }
    }
}

/// Grid and collision flag after drawing the whole `n`-row sprite read from
/// `mem[i..]` and anchored at `(x0, y0)`.
pub open spec fn draw_sprite(g: Seq<bool>, mem: Seq<u8>, i: int, x0: u8, y0: u8, n: u8) -> (
    Seq<bool>,
    bool,
) {
    draw_prefix(g, false, mem, i, x0, y0, n as nat)
}

/// Memory after the register block V0..=Vx is stored at `i`.
pub open spec fn store_regs(mem: Seq<u8>, v: Seq<u8>, i: int, x: int) -> Seq<u8> {
    Seq::new(mem.len(), |k: int| if i <= k <= i + x { v[k - i] } else { mem[k] })
}

/// Register file after V0..=Vx are loaded from memory at `i`.
pub open spec fn load_regs(mem: Seq<u8>, v: Seq<u8>, i: int, x: int) -> Seq<u8> {
    Seq::new(v.len(), |j: int| if j <= x { mem[i + j] } else { v[j] })
}

/// The machine, the framebuffer and the diagnostic after executing the
/// already-fetched word `w`; `rb` is the byte the random source produced
/// for this step. The default outcome advances the program counter by one
/// instruction; jump, call, return, the skips and key-wait override it.
pub open spec fn exec_instr(pre: CpuState, g: Seq<bool>, w: u16, rb: u8) -> (
    CpuState,
    Seq<bool>,
    Option<Diagnostic>,
) {
    let next = (pre.pc + 2) as u16;
    let x = op_x(w);
    let y = op_y(w);
    let n = op_n(w);
    let kk = op_kk(w);
    let nnn = op_nnn(w);
    let vx = pre.v[x];
    let vy = pre.v[y];
    if w == 0x0000 {
        (CpuState { pc: next, ..pre }, g, None)
    } else if w == 0x00E0 {
        (CpuState { pc: next, draw_flag: true, ..pre }, blank_grid(), None)
    } else if w == 0x00EE {
        if pre.sp == 0 {
            (pre, g, Some(Diagnostic::StackUnderflow))
        } else {
            (CpuState { pc: pre.stack[pre.sp as int], sp: (pre.sp - 1) as u8, ..pre }, g, None)
        }
    } else if op_family(w) == 0x1 {
        (CpuState { pc: nnn, ..pre }, g, None)
    } else if op_family(w) == 0x2 {
        if pre.sp >= 16 {
            (pre, g, Some(Diagnostic::StackOverflow))
        } else {
            (
                CpuState {
                    sp: (pre.sp + 1) as u8,
                    stack: pre.stack.update(pre.sp + 1, next),
                    pc: nnn,
                    ..pre
                },
                g,
                None,
            )
        }
    } else if op_family(w) == 0x3 {
        (CpuState { pc: if vx == kk { (next + 2) as u16 } else { next }, ..pre }, g, None)
    } else if op_family(w) == 0x4 {
        (CpuState { pc: if vx != kk { (next + 2) as u16 } else { next }, ..pre }, g, None)
    } else if op_family(w) == 0x5 && n == 0 {
        (CpuState { pc: if vx == vy { (next + 2) as u16 } else { next }, ..pre }, g, None)
    } else if op_family(w) == 0x6 {
        (CpuState { v: pre.v.update(x, kk), pc: next, ..pre }, g, None)
    } else if op_family(w) == 0x7 {
        (CpuState { v: pre.v.update(x, add_with_carry(vx, kk).0), pc: next, ..pre }, g, None)
    } else if op_family(w) == 0x8 && n == 0x0 {
        (CpuState { v: pre.v.update(x, vy), pc: next, ..pre }, g, None)
    } else if op_family(w) == 0x8 && n == 0x1 {
        (CpuState { v: pre.v.update(x, vx | vy), pc: next, ..pre }, g, None)
    } else if op_family(w) == 0x8 && n == 0x2 {
        (CpuState { v: pre.v.update(x, vx & vy), pc: next, ..pre }, g, None)
    } else if op_family(w) == 0x8 && n == 0x3 {
        (CpuState { v: pre.v.update(x, vx ^ vy), pc: next, ..pre }, g, None)
    } else if op_family(w) == 0x8 && n == 0x4 {
        let rf = add_with_carry(vx, vy);
        (CpuState { v: pre.v.update(15, rf.1).update(x, rf.0), pc: next, ..pre }, g, None)
    } else if op_family(w) == 0x8 && n == 0x5 {
        let rf = sub_no_borrow(vx, vy);
        (CpuState { v: pre.v.update(15, rf.1).update(x, rf.0), pc: next, ..pre }, g, None)
    } else if op_family(w) == 0x8 && n == 0x6 {
        let rf = shift_right(vx);
        (CpuState { v: pre.v.update(15, rf.1).update(x, rf.0), pc: next, ..pre }, g, None)
    } else if op_family(w) == 0x8 && n == 0x7 {
        let rf = sub_no_borrow(vy, vx);
        (CpuState { v: pre.v.update(15, rf.1).update(x, rf.0), pc: next, ..pre }, g, None)
    } else if op_family(w) == 0x8 && n == 0xE {
        let rf = shift_left(vx);
        (CpuState { v: pre.v.update(15, rf.1).update(x, rf.0), pc: next, ..pre }, g, None)
    } else if op_family(w) == 0x9 && n == 0 {
        (CpuState { pc: if vx != vy { (next + 2) as u16 } else { next }, ..pre }, g, None)
    } else if op_family(w) == 0xA {
        (CpuState { index: nnn, pc: next, ..pre }, g, None)
    } else if op_family(w) == 0xB {
        (CpuState { pc: (nnn + pre.v[0]) as u16, ..pre }, g, None)
    } else if op_family(w) == 0xC {
        (CpuState { v: pre.v.update(x, rb & kk), pc: next, ..pre }, g, None)
    } else if op_family(w) == 0xD {
        if n > 0 && pre.index + n - 1 >= MEM_SIZE {
            (pre, g, Some(Diagnostic::AddressFault(pre.index)))
        } else {
            let drawn = draw_sprite(
                g,
                pre.mem,
                pre.index as int,
                (vx % (GRID_WIDTH as u8)) as u8,
                (vy % (GRID_HEIGHT as u8)) as u8,
                n,
            );
            (
                CpuState {
                    v: pre.v.update(15, if drawn.1 { 1u8 } else { 0u8 }),
                    draw_flag: true,
                    pc: next,
                    ..pre
                },
                drawn.0,
                None,
            )
        }
    } else if op_family(w) == 0xE && kk == 0x9E {
        if vx >= 16 {
            (pre, g, Some(Diagnostic::InvalidKey(vx)))
        } else {
            (
                CpuState { pc: if pre.keys[vx as int] { (next + 2) as u16 } else { next }, ..pre },
                g,
                None,
            )
        }
    } else if op_family(w) == 0xE && kk == 0xA1 {
        if vx >= 16 {
            (pre, g, Some(Diagnostic::InvalidKey(vx)))
        } else {
            (
                CpuState { pc: if !pre.keys[vx as int] { (next + 2) as u16 } else { next }, ..pre },
                g,
                None,
            )
        }
    } else if op_family(w) == 0xF && kk == 0x07 {
        (CpuState { v: pre.v.update(x, pre.delay_timer), pc: next, ..pre }, g, None)
    } else if op_family(w) == 0xF && kk == 0x0A {
        match first_pressed(pre.keys) {
            Some(k) => (CpuState { v: pre.v.update(x, k), pc: next, ..pre }, g, None),
            None => (pre, g, None),
        }
    } else if op_family(w) == 0xF && kk == 0x15 {
        (CpuState { delay_timer: vx, pc: next, ..pre }, g, None)
    } else if op_family(w) == 0xF && kk == 0x18 {
        (CpuState { sound_timer: vx, pc: next, ..pre }, g, None)
    } else if op_family(w) == 0xF && kk == 0x1E {
        (CpuState { index: ((pre.index + vx) % 0x10000) as u16, pc: next, ..pre }, g, None)
    } else if op_family(w) == 0xF && kk == 0x29 {
        (CpuState { index: (FONT_BASE + 5 * vx) as u16, pc: next, ..pre }, g, None)
    } else if op_family(w) == 0xF && kk == 0x33 {
        if pre.index + 2 >= MEM_SIZE {
            (pre, g, Some(Diagnostic::AddressFault(pre.index)))
        } else {
            let i = pre.index as int;
            (
                CpuState {
                    mem: pre.mem.update(i, (vx / 100) as u8).update(
                        i + 1,
                        ((vx / 10) % 10) as u8,
                    ).update(i + 2, (vx % 10) as u8),
                    pc: next,
                    ..pre
                },
                g,
                None,
            )
        }
    } else if op_family(w) == 0xF && kk == 0x55 {
        if pre.index + x >= MEM_SIZE {
            (pre, g, Some(Diagnostic::AddressFault(pre.index)))
        } else {
            (CpuState { mem: store_regs(pre.mem, pre.v, pre.index as int, x), pc: next, ..pre }, g, None)
        }
    } else if op_family(w) == 0xF && kk == 0x65 {
        if pre.index + x >= MEM_SIZE {
            (pre, g, Some(Diagnostic::AddressFault(pre.index)))
        } else {
            (CpuState { v: load_regs(pre.mem, pre.v, pre.index as int, x), pc: next, ..pre }, g, None)
        }
    } else {
        (CpuState { pc: next, ..pre }, g, Some(Diagnostic::UnknownOpcode(w)))
    }
}

/// The machine, the framebuffer and the diagnostic after one whole step:
/// fetch the word at the program counter (a fault if it would read past the
/// end of memory), then execute it as `exec_instr` says.
pub open spec fn step_spec(pre: CpuState, g: Seq<bool>, rb: u8) -> (
    CpuState,
    Seq<bool>,
    Option<Diagnostic>,
) {
    if pre.pc + 1 >= MEM_SIZE {
        (pre, g, Some(Diagnostic::AddressFault(pre.pc)))
    } else {
        exec_instr(pre, g, fetch_word(pre), rb)
    }
}

/// Relies on rand::random: draws one byte from the thread-local generator.
/// Nothing is promised of the value; callers state what holds of every byte.
#[verifier::external_body]
fn random_byte() -> u8 {
    rand::random::<u8>()
}

/// Draw the `n`-row sprite read from `ram` at `i`, anchored at `(x0, y0)`,
/// onto `gfx`; report whether any set sprite bit landed on a pixel that was
/// already on.
fn exec_draw(gfx: &mut GraphicsBuffer, ram: &RAM, i: u16, x0: u8, y0: u8, n: u8) -> (coll: bool)
    requires
        x0 < GRID_WIDTH,
        y0 < GRID_HEIGHT,
        n <= 15,
        n > 0 ==> i + n - 1 < MEM_SIZE,
    ensures
        final(gfx)@ == draw_sprite(old(gfx)@, ram@, i as int, x0, y0, n).0,
        coll == draw_sprite(old(gfx)@, ram@, i as int, x0, y0, n).1,
{
    let mut coll = false;
    for row in 0..n
        invariant
            x0 < GRID_WIDTH,
            y0 < GRID_HEIGHT,
            n <= 15,
            n > 0 ==> i + n - 1 < MEM_SIZE,
            gfx@ == draw_prefix(old(gfx)@, false, ram@, i as int, x0, y0, row as nat).0,
            coll == draw_prefix(old(gfx)@, false, ram@, i as int, x0, y0, row as nat).1,
    {
        let row_byte = ram.read_byte(i + row as u16);
        if y0 + row < GRID_HEIGHT as u8 {
            let y = y0 + row;
            let ghost g_row = gfx@;
            let ghost c_row = coll;
            for col in 0..8u8
                invariant
                    x0 < GRID_WIDTH,
                    y < GRID_HEIGHT,
                    row_byte == ram@[i + row],
                    gfx@ == draw_row_prefix(g_row, c_row, row_byte, x0, y, col as nat).0,
                    coll == draw_row_prefix(g_row, c_row, row_byte, x0, y, col as nat).1,
            {
                let px = x0 + col;
                if px < GRID_WIDTH as u8 && (row_byte & (0x80u8 >> col)) != 0 {
                    if gfx.get(px, y) {
                        coll = true;
                    }
                    gfx.toggle(px, y);
                }
            }
        }
    }
    coll
}

/// Store the register block V0..=Vx into memory starting at `i`.
fn exec_store_regs(ram: &mut RAM, v: &[u8; 16], i: u16, x: u8)
    requires
        x < 16,
        i + x < MEM_SIZE,
    ensures
        final(ram)@ == store_regs(old(ram)@, v@, i as int, x as int),
{
    for j in 0..(x as usize + 1)
        invariant
            x < 16,
            i + x < MEM_SIZE,
            forall|k: int| i <= k < i + j ==> ram@[k] == v@[k - i],
            forall|k: int| 0 <= k < MEM_SIZE && !(i <= k < i + j) ==> ram@[k] == old(ram)@[k],
    {
        ram.write_byte(i + j as u16, v[j]);
    }
    assert(ram@ =~= store_regs(old(ram)@, v@, i as int, x as int));
}

/// Load the register block V0..=Vx from memory starting at `i`.
fn exec_load_regs(v: &mut [u8; 16], ram: &RAM, i: u16, x: u8)
    requires
        x < 16,
        i + x < MEM_SIZE,
    ensures
        final(v)@ == load_regs(ram@, old(v)@, i as int, x as int),
{
    for j in 0..(x as usize + 1)
        invariant
            x < 16,
            i + x < MEM_SIZE,
            forall|t: int| 0 <= t < j ==> v@[t] == ram@[i + t],
            forall|t: int| j <= t < 16 ==> v@[t] == old(v)@[t],
    {
        let b = ram.read_byte(i + j as u16);
        v[j] = b;
    }
    assert(v@ =~= load_regs(ram@, old(v)@, i as int, x as int));
}

impl CPU {
    /// A machine ready to run: program counter at the first program address,
    /// everything else cleared, owning the given memory.
    pub fn new(ram: RAM) -> (r: CPU)
        ensures
            r@ == initial_cpu(ram@),
            r@.wf(),
    {
        let cpu = CPU {
            ram,
            v: [0; 16],
            index: 0,
            program_counter: 0x200,
            stack: [0; 17],
            stack_pointer: 0,
            delay_timer: 0,
            sound_timer: 0,
            draw_flag: false,
            sound_flag: false,
            keys_pressed: [false; 16],
        };
        assert(cpu@ =~~= initial_cpu(cpu.ram@));
        cpu
    }

    /// Advance both timers by one 60 Hz tick. Each decrements if nonzero and
    /// floors at zero; the sound flag is set exactly while the sound timer
    /// was nonzero before this tick's decrement.
    pub fn timer(&mut self)
        ensures
            final(self)@ == tick_spec(old(self)@),
            final(self)@.sound_flag <==> old(self)@.sound_timer > 0,
    {
        if self.delay_timer > 0 {
            self.delay_timer = self.delay_timer - 1;
        }
        if self.sound_timer > 0 {
            self.sound_flag = true;
            self.sound_timer = self.sound_timer - 1;
        } else {
            self.sound_flag = false;
        }
        assert(self@ =~~= tick_spec(old(self)@));
    }

    /// Fetch, decode and execute one instruction, with `rb` as the byte the
    /// random source produced for this step. The whole effect on the machine,
    /// the framebuffer and the returned diagnostic is exactly `step_spec`.
    pub fn cycle_with_random(&mut self, gfx: &mut GraphicsBuffer, rb: u8) -> (r: Option<
        Diagnostic,
    >)
        requires
            old(self)@.wf(),
        ensures
            final(self)@.wf(),
            final(self)@ == step_spec(old(self)@, old(gfx)@, rb).0,
            final(gfx)@ == step_spec(old(self)@, old(gfx)@, rb).1,
            r == step_spec(old(self)@, old(gfx)@, rb).2,
    {
        let ghost pre = old(self)@;
        let ghost g0 = old(gfx)@;
        let ghost target = step_spec(pre, g0, rb);

        // fetch
        if self.program_counter >= (MEM_SIZE - 1) as u16 {
            return Some(Diagnostic::AddressFault(self.program_counter));
        }
        let curr_address = self.program_counter;
        let instruction = self.ram.read_word(curr_address);
        proof {
            assert(instruction == fetch_word(pre));
            assert(target == exec_instr(pre, g0, instruction, rb));
        }
        let next_pc = curr_address + 2;

        // nibbles
        let op_1 = instruction / 0x1000;
        let x = ((instruction / 0x100) % 16) as usize;
        let y = ((instruction / 16) % 16) as usize;
        let n = (instruction % 16) as u8;
        let kk = (instruction % 256) as u8;
        let nnn = instruction % 0x1000;
        let vx = self.v[x];
        let vy = self.v[y];

        // decode and execute
        if instruction == 0x0000 {
            self.program_counter = next_pc;
            proof {
                assert(self@ =~~= target.0);
            }
            None
        } else if instruction == 0x00E0 {
            gfx.clear();
            self.draw_flag = true;
            self.program_counter = next_pc;
            proof {
                assert(self@ =~~= target.0);
            }
            None
        } else if instruction == 0x00EE {
            if self.stack_pointer == 0 {
                return Some(Diagnostic::StackUnderflow);
            }
            self.program_counter = self.stack[self.stack_pointer as usize];
            self.stack_pointer = self.stack_pointer - 1;
            proof {
                assert(self@ =~~= target.0);
            }
            None
        } else if op_1 == 0x1 {
            self.program_counter = nnn;
            proof {
                assert(self@ =~~= target.0);
            }
            None
        } else if op_1 == 0x2 {
            if self.stack_pointer >= 16 {
                return Some(Diagnostic::StackOverflow);
            }
            self.stack_pointer = self.stack_pointer + 1;
            self.stack[self.stack_pointer as usize] = next_pc;
            self.program_counter = nnn;
            proof {
                assert(self@ =~~= target.0);
            }
            None
        } else if op_1 == 0x3 {
            self.program_counter = if vx == kk {
                next_pc + 2
            } else {
                next_pc
            };
            proof {
                assert(self@ =~~= target.0);
            }
            None
        } else if op_1 == 0x4 {
            self.program_counter = if vx != kk {
                next_pc + 2
            } else {
                next_pc
            };
            proof {
                assert(self@ =~~= target.0);
            }
            None
        } else if op_1 == 0x5 && n == 0x0 {
            self.program_counter = if vx == vy {
                next_pc + 2
            } else {
                next_pc
            };
            proof {
                assert(self@ =~~= target.0);
            }
            None
        } else if op_1 == 0x6 {
            self.v[x] = kk;
            self.program_counter = next_pc;
            proof {
                assert(self@ =~~= target.0);
            }
            None
        } else if op_1 == 0x7 {
            let sum = vx as u16 + kk as u16;
            self.v[x] = (sum % 256) as u8;
            self.program_counter = next_pc;
            proof {
                assert(self@ =~~= target.0);
            }
            None
        } else if op_1 == 0x8 && n == 0x0 {
            self.v[x] = vy;
            self.program_counter = next_pc;
            proof {
                assert(self@ =~~= target.0);
            }
            None
        } else if op_1 == 0x8 && n == 0x1 {
            self.v[x] = vx | vy;
            self.program_counter = next_pc;
            proof {
                assert(self@ =~~= target.0);
            }
            None
        } else if op_1 == 0x8 && n == 0x2 {
            self.v[x] = vx & vy;
            self.program_counter = next_pc;
            proof {
                assert(self@ =~~= target.0);
            }
            None
        } else if op_1 == 0x8 && n == 0x3 {
            self.v[x] = vx ^ vy;
            self.program_counter = next_pc;
            proof {
                assert(self@ =~~= target.0);
            }
            None
        } else if op_1 == 0x8 && n == 0x4 {
            let sum = vx as u16 + vy as u16;
            self.v[15] = if sum > 255 {
                1
            } else {
                0
            };
            self.v[x] = (sum % 256) as u8;
            self.program_counter = next_pc;
            proof {
                assert(self@ =~~= target.0);
            }
            None
        } else if op_1 == 0x8 && n == 0x5 {
            self.v[15] = if vx >= vy {
                1
            } else {
                0
            };
            self.v[x] = ((vx as u16 + 256 - vy as u16) % 256) as u8;
            self.program_counter = next_pc;
            proof {
                assert(self@ =~~= target.0);
            }
            None
        } else if op_1 == 0x8 && n == 0x6 {
            self.v[15] = vx % 2;
            self.v[x] = vx / 2;
            self.program_counter = next_pc;
            proof {
                assert(self@ =~~= target.0);
            }
            None
        } else if op_1 == 0x8 && n == 0x7 {
            self.v[15] = if vy >= vx {
                1
            } else {
                0
            };
            self.v[x] = ((vy as u16 + 256 - vx as u16) % 256) as u8;
            self.program_counter = next_pc;
            proof {
                assert(self@ =~~= target.0);
            }
            None
        } else if op_1 == 0x8 && n == 0xE {
            self.v[15] = vx / 128;
            self.v[x] = ((vx as u16 * 2) % 256) as u8;
            self.program_counter = next_pc;
            proof {
                assert(self@ =~~= target.0);
            }
            None
        } else if op_1 == 0x9 && n == 0x0 {
            self.program_counter = if vx != vy {
                next_pc + 2
            } else {
                next_pc
            };
            proof {
                assert(self@ =~~= target.0);
            }
            None
        } else if op_1 == 0xA {
            self.index = nnn;
            self.program_counter = next_pc;
            proof {
                assert(self@ =~~= target.0);
            }
            None
        } else if op_1 == 0xB {
            self.program_counter = nnn + self.v[0] as u16;
            proof {
                assert(self@ =~~= target.0);
            }
            None
        } else if op_1 == 0xC {
            self.v[x] = rb & kk;
            self.program_counter = next_pc;
            proof {
                assert(self@ =~~= target.0);
            }
            None
        } else if op_1 == 0xD {
            if n > 0 && self.index as u32 + n as u32 - 1 >= MEM_SIZE as u32 {
                return Some(Diagnostic::AddressFault(self.index));
            }
            let x0 = vx % (GRID_WIDTH as u8);
            let y0 = vy % (GRID_HEIGHT as u8);
            let coll = exec_draw(gfx, &self.ram, self.index, x0, y0, n);
            self.v[15] = if coll {
                1
            } else {
                0
            };
            self.draw_flag = true;
            self.program_counter = next_pc;
            proof {
                assert(self@ =~~= target.0);
            }
            None
        } else if op_1 == 0xE && kk == 0x9E {
            if vx >= 16 {
                return Some(Diagnostic::InvalidKey(vx));
            }
            self.program_counter = if self.keys_pressed[vx as usize] {
                next_pc + 2
            } else {
                next_pc
            };
            proof {
                assert(self@ =~~= target.0);
            }
            None
        } else if op_1 == 0xE && kk == 0xA1 {
            if vx >= 16 {
                return Some(Diagnostic::InvalidKey(vx));
            }
            self.program_counter = if !self.keys_pressed[vx as usize] {
                next_pc + 2
            } else {
                next_pc
            };
            proof {
                assert(self@ =~~= target.0);
            }
            None
        } else if op_1 == 0xF && kk == 0x07 {
            self.v[x] = self.delay_timer;
            self.program_counter = next_pc;
            proof {
                assert(self@ =~~= target.0);
            }
            None
        } else if op_1 == 0xF && kk == 0x0A {
            let mut k: usize = 0;
            while k < 16 && !self.keys_pressed[k]
                invariant
                    k <= 16,
                    self == old(self),
                    forall|j: int| 0 <= j < k ==> !self.keys_pressed@[j],
                decreases 16 - k,
            {
                k = k + 1;
            }
            proof {
                lemma_first_pressed_scan(pre.keys, k as nat);
            }
            if k < 16 {
                self.v[x] = k as u8;
                self.program_counter = next_pc;
            }
            proof {
                assert(self@ =~~= target.0);
            }
            None
        } else if op_1 == 0xF && kk == 0x15 {
            self.delay_timer = vx;
            self.program_counter = next_pc;
            proof {
                assert(self@ =~~= target.0);
            }
            None
        } else if op_1 == 0xF && kk == 0x18 {
            self.sound_timer = vx;
            self.program_counter = next_pc;
            proof {
                assert(self@ =~~= target.0);
            }
            None
        } else if op_1 == 0xF && kk == 0x1E {
            self.index = ((self.index as u32 + vx as u32) % 0x10000) as u16;
            self.program_counter = next_pc;
            proof {
                assert(self@ =~~= target.0);
            }
            None
        } else if op_1 == 0xF && kk == 0x29 {
            self.index = FONT_BASE + 5 * vx as u16;
            self.program_counter = next_pc;
            proof {
                assert(self@ =~~= target.0);
            }
            None
        } else if op_1 == 0xF && kk == 0x33 {
            if self.index as u32 + 2 >= MEM_SIZE as u32 {
                return Some(Diagnostic::AddressFault(self.index));
            }
            let location = self.index;
            self.ram.write_byte(location, vx / 100);
            self.ram.write_byte(location + 1, (vx / 10) % 10);
            self.ram.write_byte(location + 2, vx % 10);
            self.program_counter = next_pc;
            proof {
                assert(self@ =~~= target.0);
            }
            None
        } else if op_1 == 0xF && kk == 0x55 {
            if self.index as u32 + x as u32 >= MEM_SIZE as u32 {
                return Some(Diagnostic::AddressFault(self.index));
            }
            exec_store_regs(&mut self.ram, &self.v, self.index, x as u8);
            self.program_counter = next_pc;
            proof {
                assert(self@ =~~= target.0);
            }
            None
        } else if op_1 == 0xF && kk == 0x65 {
            if self.index as u32 + x as u32 >= MEM_SIZE as u32 {
                return Some(Diagnostic::AddressFault(self.index));
            }
            exec_load_regs(&mut self.v, &self.ram, self.index, x as u8);
            self.program_counter = next_pc;
            proof {
                assert(self@ =~~= target.0);
            }
            None
        } else {
            self.program_counter = next_pc;
            proof {
                assert(self@ =~~= target.0);
            }
            Some(Diagnostic::UnknownOpcode(instruction))
        }
    }

    /// Fetch, decode and execute one instruction, drawing the byte for the
    /// masked-random operation from the machine's random source. The effect
    /// is `step_spec` for whatever byte that source produced.
    pub fn cycle(&mut self, gfx: &mut GraphicsBuffer) -> (r: Option<Diagnostic>)
        requires
            old(self)@.wf(),
        ensures
            final(self)@.wf(),
            exists|rb: u8|
                {
                    let stepped = #[trigger] step_spec(old(self)@, old(gfx)@, rb);
                    final(self)@ == stepped.0 && final(gfx)@ == stepped.1 && r == stepped.2
                },
    {
        let rb = random_byte();
        let r = self.cycle_with_random(gfx, rb);
        proof {
            let stepped = step_spec(old(self)@, old(gfx)@, rb);
            assert(self@ == stepped.0 && gfx@ == stepped.1 && r == stepped.2);
        }
        r
    }
}

/// If no key below `k` is pressed, the scan of the whole key vector and the
/// scan starting at `k` agree.
pub proof fn lemma_first_pressed_scan(keys: Seq<bool>, k: nat)
    requires
        k <= 16,
        forall|j: int| 0 <= j < k ==> !keys[j],
    ensures
        first_pressed(keys) == first_pressed_from(keys, k),
    decreases k,
{
    if k > 0 {
        lemma_first_pressed_scan(keys, (k - 1) as nat);
    }
}

} // verus!
