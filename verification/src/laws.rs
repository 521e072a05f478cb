//! Laws of the instruction semantics, stated once over the spec functions
//! that the executable contracts use.

use crate::cpu::{
    CpuState, Diagnostic, add_with_carry, draw_prefix, draw_row_prefix, draw_sprite, fetch_word,
    first_pressed, first_pressed_from, lemma_first_pressed_scan, op_family, op_kk, op_x,
    shift_left, shift_right, sprite_bit, step_spec, sub_no_borrow,
};
use crate::graphics_buffer::{GRID_HEIGHT, GRID_SIZE, GRID_WIDTH, pixel_index};
use crate::ram::MEM_SIZE;
use vstd::prelude::*;

verus! {

/// Law: the register add sets the flag exactly when the true sum exceeds
/// 255, and stores the sum modulo 256.
pub proof fn lemma_add_with_carry(a: u8, b: u8)
    ensures
        add_with_carry(a, b).1 == 1 <==> a + b > 255,
        add_with_carry(a, b).0 == (a + b) % 256,
{
}

/// Law: shifting right reports the pre-shift bit 0 and yields the value
/// shifted right; shifting left reports the pre-shift bit 7 and yields the
/// value shifted left modulo 256.
pub proof fn lemma_shift_flags(a: u8)
    ensures
        shift_right(a).1 == a & 1,
        shift_right(a).0 == a >> 1u8,
        shift_left(a).1 == a >> 7u8,
        shift_left(a).0 == (a * 2) % 256,
{
    assert((a % 2) as u8 == a & 1) by (bit_vector);
    assert((a / 2) as u8 == a >> 1u8) by (bit_vector);
    assert((a / 128) as u8 == a >> 7u8) by (bit_vector);
}

/// Law: the subtract and reverse-subtract opcodes use one consistent borrow
/// convention: on equal operands both deterministically report "no borrow"
/// (flag 1) and a zero result.
pub proof fn lemma_sub_flags_agree(a: u8, b: u8)
    requires
        a == b,
    ensures
        sub_no_borrow(a, b).1 == sub_no_borrow(b, a).1,
        sub_no_borrow(a, b).1 == 1,
        sub_no_borrow(a, b).0 == 0,
{
}

/// Drawing a prefix of one sprite row never changes the grid's length.
pub proof fn lemma_draw_row_prefix_len(g: Seq<bool>, coll: bool, b: u8, x0: u8, y: u8, c: nat)
    requires
        g.len() == GRID_SIZE,
        y < GRID_HEIGHT,
    ensures
        draw_row_prefix(g, coll, b, x0, y, c).0.len() == g.len(),
    decreases c,
{
    if c > 0 {
        lemma_draw_row_prefix_len(g, coll, b, x0, y, (c - 1) as nat);
    }
}

/// Drawing a prefix of a sprite never changes the grid's length.
pub proof fn lemma_draw_prefix_len(
    g: Seq<bool>,
    coll: bool,
    mem: Seq<u8>,
    i: int,
    x0: u8,
    y0: u8,
    r: nat,
)
    requires
        g.len() == GRID_SIZE,
    ensures
        draw_prefix(g, coll, mem, i, x0, y0, r).0.len() == g.len(),
    decreases r,
{
    if r > 0 {
        lemma_draw_prefix_len(g, coll, mem, i, x0, y0, (r - 1) as nat);
        let done = draw_prefix(g, coll, mem, i, x0, y0, (r - 1) as nat);
        if y0 + r - 1 < GRID_HEIGHT {
            lemma_draw_row_prefix_len(
                done.0,
                done.1,
                mem[i + r - 1],
                x0,
                (y0 + r - 1) as u8,
                8,
            );
        }
    }
}

/// One sprite row only toggles pixels of its own row, in the `c` columns
/// starting at the anchor column; every other pixel keeps its value.
pub proof fn lemma_draw_row_prefix_outside(
    g: Seq<bool>,
    coll: bool,
    b: u8,
    x0: u8,
    y: u8,
    c: nat,
    px: int,
    py: int,
)
    requires
        g.len() == GRID_SIZE,
        y < GRID_HEIGHT,
        0 <= px < GRID_WIDTH,
        0 <= py < GRID_HEIGHT,
        c <= 8,
        px < x0 || px >= x0 + c || py != y,
    ensures
        draw_row_prefix(g, coll, b, x0, y, c).0[pixel_index(px, py)] == g[pixel_index(px, py)],
    decreases c,
{
    if c > 0 {
        lemma_draw_row_prefix_outside(g, coll, b, x0, y, (c - 1) as nat, px, py);
        lemma_draw_row_prefix_len(g, coll, b, x0, y, (c - 1) as nat);
    }
}

/// A sprite draw only toggles pixels in its window: the eight columns
/// starting at the anchor column and the `r` rows starting at the anchor
/// row, clipped at the screen edges; every other pixel keeps its value.
pub proof fn lemma_draw_prefix_outside(
    g: Seq<bool>,
    coll: bool,
    mem: Seq<u8>,
    i: int,
    x0: u8,
    y0: u8,
    r: nat,
    px: int,
    py: int,
)
    requires
        g.len() == GRID_SIZE,
        y0 < GRID_HEIGHT,
        0 <= px < GRID_WIDTH,
        0 <= py < GRID_HEIGHT,
        px < x0 || px >= x0 + 8 || py < y0 || py >= y0 + r,
    ensures
        draw_prefix(g, coll, mem, i, x0, y0, r).0[pixel_index(px, py)] == g[pixel_index(px, py)],
    decreases r,
{
    if r > 0 {
        lemma_draw_prefix_outside(g, coll, mem, i, x0, y0, (r - 1) as nat, px, py);
        let done = draw_prefix(g, coll, mem, i, x0, y0, (r - 1) as nat);
        if y0 + r - 1 < GRID_HEIGHT {
            lemma_draw_prefix_len(g, coll, mem, i, x0, y0, (r - 1) as nat);
            lemma_draw_row_prefix_outside(
                done.0,
                done.1,
                mem[i + r - 1],
                x0,
                (y0 + r - 1) as u8,
                8,
                px,
                py,
            );
        }
    }
}

/// Law: a sprite anchored at `(x0, y0)` can only toggle pixels in the eight
/// columns from `x0` and the `n` rows from `y0`; columns and rows clipped at
/// the screen edges are never touched.
pub proof fn lemma_draw_clips(
    g: Seq<bool>,
    mem: Seq<u8>,
    i: int,
    x0: u8,
    y0: u8,
    n: u8,
    px: int,
    py: int,
)
    requires
        g.len() == GRID_SIZE,
        x0 < GRID_WIDTH,
        y0 < GRID_HEIGHT,
        0 <= px < GRID_WIDTH,
        0 <= py < GRID_HEIGHT,
        px < x0 || px >= x0 + 8 || py < y0 || py >= y0 + n,
    ensures
        draw_sprite(g, mem, i, x0, y0, n).0[pixel_index(px, py)] == g[pixel_index(px, py)],
{
    lemma_draw_prefix_outside(g, false, mem, i, x0, y0, n as nat, px, py);
}

/// Inside one sprite row, the pixel at already-processed column `cp` holds
/// its old value toggled exactly when that column's sprite bit is set.
pub proof fn lemma_draw_row_prefix_pixel(
    g: Seq<bool>,
    coll: bool,
    b: u8,
    x0: u8,
    y: u8,
    c: nat,
    cp: nat,
)
    requires
        g.len() == GRID_SIZE,
        y < GRID_HEIGHT,
        c <= 8,
        cp < c,
        x0 + cp < GRID_WIDTH,
    ensures
        draw_row_prefix(g, coll, b, x0, y, c).0[pixel_index(x0 + cp, y as int)] == (
        if sprite_bit(b, cp as u8) {
            !g[pixel_index(x0 + cp, y as int)]
        } else {
            g[pixel_index(x0 + cp, y as int)]
        }),
    decreases c,
{
    if c == cp + 1 {
        lemma_draw_row_prefix_outside(g, coll, b, x0, y, (c - 1) as nat, x0 + cp, y as int);
        lemma_draw_row_prefix_len(g, coll, b, x0, y, (c - 1) as nat);
    } else {
        lemma_draw_row_prefix_pixel(g, coll, b, x0, y, (c - 1) as nat, cp);
        lemma_draw_row_prefix_len(g, coll, b, x0, y, (c - 1) as nat);
    }
}

/// Inside one sprite draw, the pixel at already-drawn row `rp` and column
/// `cp` holds its old value toggled exactly when that position's sprite bit
/// is set.
pub proof fn lemma_draw_prefix_pixel(
    g: Seq<bool>,
    coll: bool,
    mem: Seq<u8>,
    i: int,
    x0: u8,
    y0: u8,
    r: nat,
    rp: nat,
    cp: nat,
)
    requires
        g.len() == GRID_SIZE,
        y0 < GRID_HEIGHT,
        rp < r,
        cp < 8,
        x0 + cp < GRID_WIDTH,
        y0 + rp < GRID_HEIGHT,
    ensures
        draw_prefix(g, coll, mem, i, x0, y0, r).0[pixel_index(x0 + cp, y0 + rp)] == (
        if sprite_bit(mem[i + rp], cp as u8) {
            !g[pixel_index(x0 + cp, y0 + rp)]
        } else {
            g[pixel_index(x0 + cp, y0 + rp)]
        }),
    decreases r,
{
    let done = draw_prefix(g, coll, mem, i, x0, y0, (r - 1) as nat);
    lemma_draw_prefix_len(g, coll, mem, i, x0, y0, (r - 1) as nat);
    if r == rp + 1 {
        lemma_draw_prefix_outside(g, coll, mem, i, x0, y0, (r - 1) as nat, x0 + cp, y0 + rp);
        lemma_draw_row_prefix_pixel(done.0, done.1, mem[i + rp], x0, (y0 + rp) as u8, 8, cp);
    } else {
        lemma_draw_prefix_pixel(g, coll, mem, i, x0, y0, (r - 1) as nat, rp, cp);
        if y0 + r - 1 < GRID_HEIGHT {
            lemma_draw_row_prefix_outside(
                done.0,
                done.1,
                mem[i + r - 1],
                x0,
                (y0 + r - 1) as u8,
                8,
                x0 + cp,
                y0 + rp,
            );
        }
    }
}

/// Law: one drawn sprite bit toggles its pixel and a clear bit leaves it:
/// inside the sprite's clipped window the new pixel is the old one XORed
/// with the sprite bit, and outside the window every pixel keeps its value
/// (that is `lemma_draw_clips`).
pub proof fn lemma_draw_pixel(
    g: Seq<bool>,
    mem: Seq<u8>,
    i: int,
    x0: u8,
    y0: u8,
    n: u8,
    cp: nat,
    rp: nat,
)
    requires
        g.len() == GRID_SIZE,
        x0 < GRID_WIDTH,
        y0 < GRID_HEIGHT,
        rp < n,
        cp < 8,
        x0 + cp < GRID_WIDTH,
        y0 + rp < GRID_HEIGHT,
    ensures
        draw_sprite(g, mem, i, x0, y0, n).0[pixel_index(x0 + cp, y0 + rp)] == (g[pixel_index(
            x0 + cp,
            y0 + rp,
        )] ^ sprite_bit(mem[i + rp], cp as u8)),
{
    lemma_draw_prefix_pixel(g, false, mem, i, x0, y0, n as nat, rp, cp);
}

/// Law: XOR drawing is an involution: drawing the same sprite twice returns
/// every pixel of the grid to its original value.
pub proof fn lemma_draw_twice_restores(g: Seq<bool>, mem: Seq<u8>, i: int, x0: u8, y0: u8, n: u8)
    requires
        g.len() == GRID_SIZE,
        x0 < GRID_WIDTH,
        y0 < GRID_HEIGHT,
    ensures
        draw_sprite(draw_sprite(g, mem, i, x0, y0, n).0, mem, i, x0, y0, n).0 == g,
{
    let g1 = draw_sprite(g, mem, i, x0, y0, n).0;
    let g2 = draw_sprite(g1, mem, i, x0, y0, n).0;
    lemma_draw_prefix_len(g, false, mem, i, x0, y0, n as nat);
    lemma_draw_prefix_len(g1, false, mem, i, x0, y0, n as nat);
    assert forall|p: int| 0 <= p < GRID_SIZE implies g2[p] == g[p] by {
        let px = p % 64;
        let py = p / 64;
        assert(p == pixel_index(px, py));
        if x0 <= px < x0 + 8 && y0 <= py < y0 + n {
            let cp = (px - x0) as nat;
            let rp = (py - y0) as nat;
            lemma_draw_pixel(g, mem, i, x0, y0, n, cp, rp);
            lemma_draw_pixel(g1, mem, i, x0, y0, n, cp, rp);
        } else {
            lemma_draw_clips(g, mem, i, x0, y0, n, px, py);
            lemma_draw_clips(g1, mem, i, x0, y0, n, px, py);
        }
    }
    assert(g2 =~= g);
}

/// One sprite row reports no collision when every on-screen pixel it can
/// land on is off.
pub proof fn lemma_draw_row_prefix_no_collision(
    g: Seq<bool>,
    coll: bool,
    b: u8,
    x0: u8,
    y: u8,
    c: nat,
)
    requires
        g.len() == GRID_SIZE,
        y < GRID_HEIGHT,
        c <= 8,
        forall|px: int|
            x0 <= px < x0 + c && px < GRID_WIDTH ==> !g[#[trigger] pixel_index(px, y as int)],
    ensures
        draw_row_prefix(g, coll, b, x0, y, c).1 == coll,
    decreases c,
{
    if c > 0 {
        lemma_draw_row_prefix_no_collision(g, coll, b, x0, y, (c - 1) as nat);
        if x0 + c - 1 < GRID_WIDTH {
            lemma_draw_row_prefix_outside(g, coll, b, x0, y, (c - 1) as nat, x0 + c - 1, y as int);
        }
    }
}

/// A sprite prefix reports no collision when every on-screen pixel in its
/// window is off.
pub proof fn lemma_draw_prefix_no_collision(
    g: Seq<bool>,
    coll: bool,
    mem: Seq<u8>,
    i: int,
    x0: u8,
    y0: u8,
    r: nat,
)
    requires
        g.len() == GRID_SIZE,
        y0 < GRID_HEIGHT,
        forall|px: int, py: int|
            x0 <= px < x0 + 8 && px < GRID_WIDTH && y0 <= py < y0 + r && py < GRID_HEIGHT
                ==> !g[#[trigger] pixel_index(px, py)],
    ensures
        draw_prefix(g, coll, mem, i, x0, y0, r).1 == coll,
    decreases r,
{
    if r > 0 {
        lemma_draw_prefix_no_collision(g, coll, mem, i, x0, y0, (r - 1) as nat);
        let done = draw_prefix(g, coll, mem, i, x0, y0, (r - 1) as nat);
        if y0 + r - 1 < GRID_HEIGHT {
            lemma_draw_prefix_len(g, coll, mem, i, x0, y0, (r - 1) as nat);
            let y = (y0 + r - 1) as u8;
            assert forall|px: int|
                x0 <= px < x0 + 8 && px < GRID_WIDTH implies !done.0[#[trigger] pixel_index(
                px,
                y as int,
            )] by {
                lemma_draw_prefix_outside(g, coll, mem, i, x0, y0, (r - 1) as nat, px, y as int);
            }
            lemma_draw_row_prefix_no_collision(done.0, done.1, mem[i + r - 1], x0, y, 8);
        }
    }
}

/// Law: collision is only ever reported from on-screen pixels inside the
/// sprite's window. With every such pixel off, a draw reports no collision:
/// columns and rows clipped at the screen edges contribute none.
pub proof fn lemma_draw_window_off_no_collision(
    g: Seq<bool>,
    mem: Seq<u8>,
    i: int,
    x0: u8,
    y0: u8,
    n: u8,
)
    requires
        g.len() == GRID_SIZE,
        x0 < GRID_WIDTH,
        y0 < GRID_HEIGHT,
        forall|px: int, py: int|
            x0 <= px < x0 + 8 && px < GRID_WIDTH && y0 <= py < y0 + n && py < GRID_HEIGHT
                ==> !g[#[trigger] pixel_index(px, py)],
    ensures
        !draw_sprite(g, mem, i, x0, y0, n).1,
{
    lemma_draw_prefix_no_collision(g, false, mem, i, x0, y0, n as nat);
}

/// A collision already recorded stays recorded through the rest of the row.
pub proof fn lemma_draw_row_prefix_keeps_collision(g: Seq<bool>, b: u8, x0: u8, y: u8, c: nat)
    ensures
        draw_row_prefix(g, true, b, x0, y, c).1,
    decreases c,
{
    if c > 0 {
        lemma_draw_row_prefix_keeps_collision(g, b, x0, y, (c - 1) as nat);
    }
}

/// One sprite row reports a collision when one of its set bits lands on a
/// pixel that is on.
pub proof fn lemma_draw_row_prefix_finds_collision(
    g: Seq<bool>,
    coll: bool,
    b: u8,
    x0: u8,
    y: u8,
    c: nat,
    cp: nat,
)
    requires
        g.len() == GRID_SIZE,
        y < GRID_HEIGHT,
        c <= 8,
        cp < c,
        x0 + cp < GRID_WIDTH,
        sprite_bit(b, cp as u8),
        g[pixel_index(x0 + cp, y as int)],
    ensures
        draw_row_prefix(g, coll, b, x0, y, c).1,
    decreases c,
{
    if c == cp + 1 {
        lemma_draw_row_prefix_outside(g, coll, b, x0, y, (c - 1) as nat, x0 + cp, y as int);
    } else {
        lemma_draw_row_prefix_finds_collision(g, coll, b, x0, y, (c - 1) as nat, cp);
    }
}

/// A sprite prefix reports a collision when one of its set bits lands on a
/// pixel that is on.
pub proof fn lemma_draw_prefix_finds_collision(
    g: Seq<bool>,
    coll: bool,
    mem: Seq<u8>,
    i: int,
    x0: u8,
    y0: u8,
    r: nat,
    rp: nat,
    cp: nat,
)
    requires
        g.len() == GRID_SIZE,
        y0 < GRID_HEIGHT,
        rp < r,
        cp < 8,
        x0 + cp < GRID_WIDTH,
        y0 + rp < GRID_HEIGHT,
        sprite_bit(mem[i + rp], cp as u8),
        g[pixel_index(x0 + cp, y0 + rp)],
    ensures
        draw_prefix(g, coll, mem, i, x0, y0, r).1,
    decreases r,
{
    let done = draw_prefix(g, coll, mem, i, x0, y0, (r - 1) as nat);
    if r == rp + 1 {
        lemma_draw_prefix_outside(g, coll, mem, i, x0, y0, (r - 1) as nat, x0 + cp, y0 + rp);
        lemma_draw_prefix_len(g, coll, mem, i, x0, y0, (r - 1) as nat);
        lemma_draw_row_prefix_finds_collision(
            done.0,
            done.1,
            mem[i + rp],
            x0,
            (y0 + rp) as u8,
            8,
            cp,
        );
    } else {
        lemma_draw_prefix_finds_collision(g, coll, mem, i, x0, y0, (r - 1) as nat, rp, cp);
        if y0 + r - 1 < GRID_HEIGHT {
            lemma_draw_row_prefix_keeps_collision(
                done.0,
                mem[i + r - 1],
                x0,
                (y0 + r - 1) as u8,
                8,
            );
        }
    }
}

/// Law: a draw reports a collision whenever some set sprite bit lands on an
/// on-screen pixel that is already on. Together with
/// `lemma_draw_window_off_no_collision` this pins the collision flag down:
/// it is set exactly when a set bit meets a lit pixel inside the window.
pub proof fn lemma_draw_detects_collision(
    g: Seq<bool>,
    mem: Seq<u8>,
    i: int,
    x0: u8,
    y0: u8,
    n: u8,
    cp: nat,
    rp: nat,
)
    requires
        g.len() == GRID_SIZE,
        x0 < GRID_WIDTH,
        y0 < GRID_HEIGHT,
        rp < n,
        cp < 8,
        x0 + cp < GRID_WIDTH,
        y0 + rp < GRID_HEIGHT,
        sprite_bit(mem[i + rp], cp as u8),
        g[pixel_index(x0 + cp, y0 + rp)],
    ensures
        draw_sprite(g, mem, i, x0, y0, n).1,
{
    lemma_draw_prefix_finds_collision(g, false, mem, i, x0, y0, n as nat, rp, cp);
}

/// Law: a key-wait instruction with no key pressed leaves the machine and
/// the framebuffer exactly as they were and reports nothing, so repeated
/// cycles re-fetch the same instruction until a key appears.
pub proof fn lemma_key_wait_stationary(pre: CpuState, g: Seq<bool>, rb: u8)
    requires
        pre.keys.len() == 16,
        pre.pc + 1 < MEM_SIZE,
        op_family(fetch_word(pre)) == 0xF,
        op_kk(fetch_word(pre)) == 0x0A,
        forall|j: int| 0 <= j < 16 ==> !pre.keys[j],
    ensures
        step_spec(pre, g, rb) == (pre, g, Option::<Diagnostic>::None),
{
    lemma_first_pressed_scan(pre.keys, 16);
    assert(first_pressed(pre.keys) is None);
}

/// The key scan finds a key when one at or above its start is pressed.
pub proof fn lemma_first_pressed_finds(keys: Seq<bool>, k: nat, j: int)
    requires
        k <= j < 16,
        keys[j],
    ensures
        first_pressed_from(keys, k) is Some,
    decreases 16 - k,
{
    if !keys[k as int] {
        lemma_first_pressed_finds(keys, k + 1, j);
    }
}

/// Law: a key-wait instruction with some key pressed writes the lowest
/// pressed key's index into Vx and advances past the instruction.
pub proof fn lemma_key_wait_observes_key(pre: CpuState, g: Seq<bool>, rb: u8)
    requires
        pre.keys.len() == 16,
        pre.pc + 1 < MEM_SIZE,
        op_family(fetch_word(pre)) == 0xF,
        op_kk(fetch_word(pre)) == 0x0A,
        exists|j: int| 0 <= j < 16 && pre.keys[j],
    ensures
        first_pressed(pre.keys) is Some,
        step_spec(pre, g, rb) == (
            CpuState {
                v: pre.v.update(op_x(fetch_word(pre)), first_pressed(pre.keys)->Some_0),
                pc: (pre.pc + 2) as u16,
                ..pre
            },
            g,
            Option::<Diagnostic>::None,
        ),
{
    let j = choose|j: int| 0 <= j < 16 && pre.keys[j];
    lemma_first_pressed_finds(pre.keys, 0, j);
}

} // verus!
