use vstd::prelude::*;

use crate::display::{
    draw_collides, draw_rows, pixel_index, row_collides, sprite_bit, xor_row, HEIGHT, PIXELS, WIDTH,
};
use crate::error::Chip8Error;
use crate::instruction::{decode_word, Instruction};
use crate::machine::{execute_spec, next_pc, state_wf, MachineState, FLAG, STACK_DEPTH};
use crate::memory::MEMORY_SIZE;
use crate::memory::word_at;

verus! {

/// Decoding depends on the two fetched bytes alone: two memories that hold
/// the same bytes at two fetch addresses decode to the same instruction there,
/// whatever else they hold.
pub proof fn lemma_decode_depends_on_fetched_bytes(m1: Seq<u8>, a1: int, m2: Seq<u8>, a2: int)
    requires
        0 <= a1 && a1 + 1 < m1.len(),
        0 <= a2 && a2 + 1 < m2.len(),
        m1[a1] == m2[a2],
        m1[a1 + 1] == m2[a2 + 1],
    ensures
        word_at(m1, a1) == word_at(m2, a2),
        decode_word(word_at(m1, a1)) == decode_word(word_at(m2, a2)),
{
}

/// CLS succeeds and leaves every pixel off.
pub proof fn lemma_cls_clears_screen(s: MachineState)
    requires
        state_wf(s),
    ensures
        execute_spec(s, Instruction::Cls) is Ok,
        execute_spec(s, Instruction::Cls)->Ok_0.screen.len() == PIXELS,
        forall|k: int|
            0 <= k < PIXELS ==> !(#[trigger] execute_spec(s, Instruction::Cls)->Ok_0.screen[k]),
{
    reveal(execute_spec);
}

/// A CALL followed by a RET comes back to the instruction after the CALL,
/// with the stack as deep as before.
pub proof fn lemma_call_then_ret(s: MachineState, addr: u16)
    requires
        state_wf(s),
        s.sp < STACK_DEPTH,
        addr < 0x1000,
    ensures
        execute_spec(s, Instruction::Call { addr }) is Ok,
        execute_spec(execute_spec(s, Instruction::Call { addr })->Ok_0, Instruction::Ret) is Ok,
        execute_spec(execute_spec(s, Instruction::Call { addr })->Ok_0, Instruction::Ret)->Ok_0.pc
            == next_pc(s.pc),
        execute_spec(execute_spec(s, Instruction::Call { addr })->Ok_0, Instruction::Ret)->Ok_0.sp
            == s.sp,
{
    reveal(execute_spec);
}

/// ADD Vx, Vy sets VF to 1 exactly when the unsigned sum exceeds 255, and
/// (unless Vx is VF itself) Vx to the sum modulo 256.
pub proof fn lemma_add_carry(s: MachineState, x: u8, y: u8)
    requires
        state_wf(s),
        x < 16,
        y < 16,
    ensures
        execute_spec(s, Instruction::AddReg { x, y }) is Ok,
        execute_spec(s, Instruction::AddReg { x, y })->Ok_0.v[FLAG as int] == (if s.v[x as int]
            + s.v[y as int] > 255 {
            1u8
        } else {
            0u8
        }),
        x != FLAG ==> execute_spec(s, Instruction::AddReg { x, y })->Ok_0.v[x as int] == (s.v[x as int]
            + s.v[y as int]) % 256,
{
    reveal(execute_spec);
}

/// SUB Vx, Vy sets VF to 1 exactly when Vx >= Vy before the subtraction
/// (no borrow), else to 0.
pub proof fn lemma_sub_borrow(s: MachineState, x: u8, y: u8)
    requires
        state_wf(s),
        x < 16,
        y < 16,
    ensures
        execute_spec(s, Instruction::Sub { x, y }) is Ok,
        execute_spec(s, Instruction::Sub { x, y })->Ok_0.v[FLAG as int] == (if s.v[x as int]
            >= s.v[y as int] {
            1u8
        } else {
            0u8
        }),
        x != FLAG ==> execute_spec(s, Instruction::Sub { x, y })->Ok_0.v[x as int] == (s.v[x as int]
            - s.v[y as int]) % 256,
{
    reveal(execute_spec);
}

/// The stack holds sixteen return addresses: CALL fails with `StackOverflow`
/// exactly when it is full and otherwise deepens it by one; RET fails with
/// `StackUnderflow` exactly when it is empty and otherwise shortens it by one.
pub proof fn lemma_stack_depth(s: MachineState, addr: u16)
    requires
        state_wf(s),
        addr < 0x1000,
    ensures
        s.sp == STACK_DEPTH <==> execute_spec(s, Instruction::Call { addr }) == Err::<
            MachineState,
            Chip8Error,
        >(Chip8Error::StackOverflow),
        s.sp < STACK_DEPTH ==> execute_spec(s, Instruction::Call { addr }) is Ok
            && state_wf(execute_spec(s, Instruction::Call { addr })->Ok_0)
            && execute_spec(s, Instruction::Call { addr })->Ok_0.sp == s.sp + 1,
        s.sp == 0 <==> execute_spec(s, Instruction::Ret) == Err::<MachineState, Chip8Error>(
            Chip8Error::StackUnderflow,
        ),
        s.sp > 0 ==> execute_spec(s, Instruction::Ret) is Ok && state_wf(
            execute_spec(s, Instruction::Ret)->Ok_0,
        ) && execute_spec(s, Instruction::Ret)->Ok_0.sp == s.sp - 1,
{
    reveal(execute_spec);
}

/// Whether one of the first `c` columns of sprite row `b`, drawn at column
/// `x` of screen row `row`, is lit and lands on pixel `i`.
spec fn row_touches(x: int, row: int, b: u8, c: nat, i: int) -> bool
    decreases c,
{
    c > 0 && (row_touches(x, row, b, (c - 1) as nat, i) || (sprite_bit(b, (c - 1) as u8)
        && pixel_index((x + c - 1) % WIDTH as int, row) == i))
}

/// Whether one of the first `c` lit columns of sprite row `b` lands on a
/// pixel that is lit in `p`.
spec fn row_hits(p: Seq<bool>, x: int, row: int, b: u8, c: nat) -> bool
    decreases c,
{
    c > 0 && (row_hits(p, x, row, b, (c - 1) as nat) || (sprite_bit(b, (c - 1) as u8)
        && p[pixel_index((x + c - 1) % WIDTH as int, row)]))
}

/// Whether a lit bit of the first `k` rows of `sprite` lands on pixel `i`.
spec fn draw_touches(x: int, y: int, sprite: Seq<u8>, k: nat, i: int) -> bool
    decreases k,
{
    k > 0 && (draw_touches(x, y, sprite, (k - 1) as nat, i) || row_touches(
        x,
        (y + k - 1) % HEIGHT as int,
        sprite[k - 1],
        8,
        i,
    ))
}

/// Whether a lit bit of the first `k` rows of `sprite` lands on a pixel
/// that is lit in `p`.
spec fn draw_hits(p: Seq<bool>, x: int, y: int, sprite: Seq<u8>, k: nat) -> bool
    decreases k,
{
    k > 0 && (draw_hits(p, x, y, sprite, (k - 1) as nat) || row_hits(
        p,
        x,
        (y + k - 1) % HEIGHT as int,
        sprite[k - 1],
        8,
    ))
}

proof fn lemma_row_touches_in_row(x: int, row: int, b: u8, c: nat, i: int)
    requires
        0 <= x < WIDTH,
        row_touches(x, row, b, c, i),
    ensures
        row * WIDTH <= i < row * WIDTH + WIDTH,
    decreases c,
{
    if row_touches(x, row, b, (c - 1) as nat, i) {
        lemma_row_touches_in_row(x, row, b, (c - 1) as nat, i);
    }
}

proof fn lemma_later_column_untouched(x: int, row: int, b: u8, c: nat, c0: int)
    requires
        0 <= x < WIDTH,
        c <= c0 < 8,
    ensures
        !row_touches(x, row, b, c, pixel_index((x + c0) % WIDTH as int, row)),
    decreases c,
{
    if c > 0 {
        lemma_later_column_untouched(x, row, b, (c - 1) as nat, c0);
    }
}

proof fn lemma_xor_row_toggles(p: Seq<bool>, x: int, row: int, b: u8, c: nat)
    requires
        p.len() == PIXELS,
        0 <= x < WIDTH,
        0 <= row < HEIGHT,
        c <= 8,
    ensures
        xor_row(p, x, row, b, c).len() == PIXELS,
        forall|i: int|
            0 <= i < PIXELS ==> #[trigger] xor_row(p, x, row, b, c)[i] == (p[i] != row_touches(
                x,
                row,
                b,
                c,
                i,
            )),
    decreases c,
{
    if c > 0 {
        lemma_xor_row_toggles(p, x, row, b, (c - 1) as nat);
        lemma_later_column_untouched(x, row, b, (c - 1) as nat, c - 1);
    }
}

proof fn lemma_row_collides_is_hits(p: Seq<bool>, x: int, row: int, b: u8, c: nat)
    requires
        p.len() == PIXELS,
        0 <= x < WIDTH,
        0 <= row < HEIGHT,
        c <= 8,
    ensures
        row_collides(p, x, row, b, c) == row_hits(p, x, row, b, c),
    decreases c,
{
    if c > 0 {
        lemma_row_collides_is_hits(p, x, row, b, (c - 1) as nat);
        lemma_xor_row_toggles(p, x, row, b, (c - 1) as nat);
        lemma_later_column_untouched(x, row, b, (c - 1) as nat, c - 1);
    }
}

proof fn lemma_row_hits_same_row(p: Seq<bool>, q: Seq<bool>, x: int, row: int, b: u8, c: nat)
    requires
        0 <= x < WIDTH,
        forall|i: int| row * WIDTH <= i < row * WIDTH + WIDTH ==> p[i] == q[i],
    ensures
        row_hits(p, x, row, b, c) == row_hits(q, x, row, b, c),
    decreases c,
{
    if c > 0 {
        lemma_row_hits_same_row(p, q, x, row, b, (c - 1) as nat);
    }
}

proof fn lemma_row_hits_exists(p: Seq<bool>, x: int, row: int, b: u8, c: nat)
    requires
        p.len() == PIXELS,
        0 <= x < WIDTH,
        0 <= row < HEIGHT,
    ensures
        row_hits(p, x, row, b, c) <==> exists|i: int|
            0 <= i < PIXELS && p[i] && #[trigger] row_touches(x, row, b, c, i),
    decreases c,
{
    if c > 0 {
        lemma_row_hits_exists(p, x, row, b, (c - 1) as nat);
        let k = pixel_index((x + c - 1) % WIDTH as int, row);
        if row_hits(p, x, row, b, (c - 1) as nat) {
            let i = choose|i: int|
                0 <= i < PIXELS && p[i] && #[trigger] row_touches(x, row, b, (c - 1) as nat, i);
            assert(row_touches(x, row, b, c, i));
        } else if row_hits(p, x, row, b, c) {
            assert(0 <= k < PIXELS);
            assert(row_touches(x, row, b, c, k));
        }
        if exists|i: int| 0 <= i < PIXELS && p[i] && #[trigger] row_touches(x, row, b, c, i) {
            let i = choose|i: int| 0 <= i < PIXELS && p[i] && #[trigger] row_touches(x, row, b, c, i);
            if !row_touches(x, row, b, (c - 1) as nat, i) {
                assert(i == k);
            }
        }
    }
}

proof fn lemma_earlier_rows_miss_row(x: int, y: int, sprite: Seq<u8>, k: nat, k0: int, i: int)
    requires
        0 <= x < WIDTH,
        0 <= y < HEIGHT,
        k <= k0 < HEIGHT,
        ((y + k0) % HEIGHT as int) * WIDTH <= i < ((y + k0) % HEIGHT as int) * WIDTH + WIDTH,
    ensures
        !draw_touches(x, y, sprite, k, i),
    decreases k,
{
    if k > 0 {
        lemma_earlier_rows_miss_row(x, y, sprite, (k - 1) as nat, k0, i);
        let row = (y + k - 1) % HEIGHT as int;
        if row_touches(x, row, sprite[k - 1], 8, i) {
            lemma_row_touches_in_row(x, row, sprite[k - 1], 8, i);
        }
    }
}

proof fn lemma_draw_rows_toggles(p: Seq<bool>, x: int, y: int, sprite: Seq<u8>, k: nat)
    requires
        p.len() == PIXELS,
        0 <= x < WIDTH,
        0 <= y < HEIGHT,
        k <= sprite.len(),
        k <= HEIGHT,
    ensures
        draw_rows(p, x, y, sprite, k).len() == PIXELS,
        forall|i: int|
            0 <= i < PIXELS ==> #[trigger] draw_rows(p, x, y, sprite, k)[i] == (p[i]
                != draw_touches(x, y, sprite, k, i)),
        draw_collides(p, x, y, sprite, k) == draw_hits(p, x, y, sprite, k),
    decreases k,
{
    if k > 0 {
        let k1 = (k - 1) as nat;
        let d = draw_rows(p, x, y, sprite, k1);
        let row = (y + k - 1) % HEIGHT as int;
        lemma_draw_rows_toggles(p, x, y, sprite, k1);
        lemma_xor_row_toggles(d, x, row, sprite[k - 1], 8);
        lemma_row_collides_is_hits(d, x, row, sprite[k - 1], 8);
        assert forall|i: int| row * WIDTH <= i < row * WIDTH + WIDTH implies d[i] == p[i] by {
            lemma_earlier_rows_miss_row(x, y, sprite, k1, k - 1, i);
        }
        lemma_row_hits_same_row(d, p, x, row, sprite[k - 1], 8);
        assert forall|i: int| 0 <= i < PIXELS implies #[trigger] draw_rows(p, x, y, sprite, k)[i]
            == (p[i] != draw_touches(x, y, sprite, k, i)) by {
            if row_touches(x, row, sprite[k - 1], 8, i) {
                lemma_row_touches_in_row(x, row, sprite[k - 1], 8, i);
                lemma_earlier_rows_miss_row(x, y, sprite, k1, k - 1, i);
            }
        }
    }
}

proof fn lemma_draw_hits_exists(p: Seq<bool>, x: int, y: int, sprite: Seq<u8>, k: nat)
    requires
        p.len() == PIXELS,
        0 <= x < WIDTH,
        0 <= y < HEIGHT,
        k <= sprite.len(),
    ensures
        draw_hits(p, x, y, sprite, k) <==> exists|i: int|
            0 <= i < PIXELS && p[i] && #[trigger] draw_touches(x, y, sprite, k, i),
    decreases k,
{
    if k > 0 {
        let k1 = (k - 1) as nat;
        let row = (y + k - 1) % HEIGHT as int;
        lemma_draw_hits_exists(p, x, y, sprite, k1);
        lemma_row_hits_exists(p, x, row, sprite[k - 1], 8);
        if draw_hits(p, x, y, sprite, k1) {
            let i = choose|i: int|
                0 <= i < PIXELS && p[i] && #[trigger] draw_touches(x, y, sprite, k1, i);
            assert(draw_touches(x, y, sprite, k, i));
        } else if row_hits(p, x, row, sprite[k - 1], 8) {
            let i = choose|i: int|
                0 <= i < PIXELS && p[i] && #[trigger] row_touches(x, row, sprite[k - 1], 8, i);
            assert(draw_touches(x, y, sprite, k, i));
        }
        if exists|i: int| 0 <= i < PIXELS && p[i] && #[trigger] draw_touches(x, y, sprite, k, i) {
            let i = choose|i: int|
                0 <= i < PIXELS && p[i] && #[trigger] draw_touches(x, y, sprite, k, i);
            if !draw_touches(x, y, sprite, k1, i) {
                assert(row_touches(x, row, sprite[k - 1], 8, i));
            }
        }
    }
}

/// Drawing a sprite of at most 32 rows reports a collision exactly when some
/// pixel goes from lit to off.
pub proof fn lemma_collision_iff_pixel_cleared(p: Seq<bool>, x: int, y: int, sprite: Seq<u8>)
    requires
        p.len() == PIXELS,
        0 <= x < WIDTH,
        0 <= y < HEIGHT,
        sprite.len() <= HEIGHT,
    ensures
        draw_collides(p, x, y, sprite, sprite.len()) <==> exists|i: int|
            0 <= i < PIXELS && p[i] && !(#[trigger] draw_rows(p, x, y, sprite, sprite.len())[i]),
{
    lemma_draw_rows_toggles(p, x, y, sprite, sprite.len());
    lemma_draw_hits_exists(p, x, y, sprite, sprite.len());
    let q = draw_rows(p, x, y, sprite, sprite.len());
    if draw_collides(p, x, y, sprite, sprite.len()) {
        let i = choose|i: int|
            0 <= i < PIXELS && p[i] && #[trigger] draw_touches(x, y, sprite, sprite.len(), i);
        assert(!q[i]);
    }
    if exists|i: int| 0 <= i < PIXELS && p[i] && !(#[trigger] q[i]) {
        let i = choose|i: int| 0 <= i < PIXELS && p[i] && !(#[trigger] q[i]);
        assert(draw_touches(x, y, sprite, sprite.len(), i));
    }
}

/// DRW sets VF to 1 when some pixel goes from lit to off, and to 0 otherwise.
pub proof fn lemma_drw_flags_collision(s: MachineState, x: u8, y: u8, n: u8)
    requires
        state_wf(s),
        x < 16,
        y < 16,
        n < 16,
        s.i + n <= MEMORY_SIZE,
    ensures
        execute_spec(s, Instruction::Drw { x, y, n }) is Ok,
        execute_spec(s, Instruction::Drw { x, y, n })->Ok_0.v[FLAG as int] == 0
            || execute_spec(s, Instruction::Drw { x, y, n })->Ok_0.v[FLAG as int] == 1,
        execute_spec(s, Instruction::Drw { x, y, n })->Ok_0.v[FLAG as int] == 1 <==> exists|i: int|
            0 <= i < PIXELS && s.screen[i] && !(#[trigger] execute_spec(
                s,
                Instruction::Drw { x, y, n },
            )->Ok_0.screen[i]),
{
    reveal(execute_spec);
    let sprite = s.memory.subrange(s.i as int, s.i + n);
    lemma_collision_iff_pixel_cleared(
        s.screen,
        s.v[x as int] as int % 64,
        s.v[y as int] as int % 32,
        sprite,
    );
    let t = execute_spec(s, Instruction::Drw { x, y, n })->Ok_0;
    let q = draw_rows(s.screen, s.v[x as int] as int % 64, s.v[y as int] as int % 32, sprite, n as nat);
    assert(sprite.len() == n);
    assert(t.screen == q);
    if t.v[FLAG as int] == 1 {
        let i = choose|i: int| 0 <= i < PIXELS && s.screen[i] && !(#[trigger] q[i]);
        assert(!t.screen[i]);
    }
    if exists|i: int| 0 <= i < PIXELS && s.screen[i] && !(#[trigger] t.screen[i]) {
        let i = choose|i: int| 0 <= i < PIXELS && s.screen[i] && !(#[trigger] t.screen[i]);
        assert(!q[i]);
    }
}

} // verus!
