use vstd::prelude::*;

verus! {

/// Width of the screen, in pixels.
pub const WIDTH: usize = 64;

/// Height of the screen, in pixels.
pub const HEIGHT: usize = 32;

/// Number of pixels on the screen.
pub const PIXELS: usize = 2048;

/// Whether column `c` (0 is the leftmost) of a sprite row `b` is lit.
pub open spec fn sprite_bit(b: u8, c: u8) -> bool
    recommends
        c < 8,
{
    (b >> ((7 - c) as u8)) & 1u8 == 1u8
}

/// Index of the pixel at column `col` of screen row `row`.
pub open spec fn pixel_index(col: int, row: int) -> int {
    row * WIDTH + col
}

/// `p` after XOR-ing the first `c` columns of sprite row `b` into screen row
/// `row`, starting at column `x` and wrapping within the row.
pub open spec fn xor_row(p: Seq<bool>, x: int, row: int, b: u8, c: nat) -> Seq<bool>
    decreases c,
{
    if c == 0 {
        p
    } else {
        let q = xor_row(p, x, row, b, (c - 1) as nat);
        let k = pixel_index((x + c - 1) % WIDTH as int, row);
        if sprite_bit(b, (c - 1) as u8) {
            q.update(k, !q[k])
        } else {
            q
        }
    }
}

/// Whether XOR-ing the first `c` columns of sprite row `b` (as in `xor_row`)
/// turns a lit pixel off.
pub open spec fn row_collides(p: Seq<bool>, x: int, row: int, b: u8, c: nat) -> bool
    decreases c,
{
    if c == 0 {
        false
    } else {
        row_collides(p, x, row, b, (c - 1) as nat) || (sprite_bit(b, (c - 1) as u8)
            && xor_row(p, x, row, b, (c - 1) as nat)[pixel_index(
            (x + c - 1) % WIDTH as int,
            row,
        )])
    }
}

/// `p` after drawing the first `k` rows of `sprite` at column `x`, row `y`;
/// sprite row `r` lands on screen row `(y + r) mod 32`.
pub open spec fn draw_rows(p: Seq<bool>, x: int, y: int, sprite: Seq<u8>, k: nat) -> Seq<bool>
    decreases k,
{
    if k == 0 {
        p
    } else {
        xor_row(
            draw_rows(p, x, y, sprite, (k - 1) as nat),
            x,
            (y + k - 1) % HEIGHT as int,
            sprite[k - 1],
            8,
        )
    }
}

/// Whether drawing the first `k` rows of `sprite` (as in `draw_rows`) turns
/// a lit pixel off.
pub open spec fn draw_collides(p: Seq<bool>, x: int, y: int, sprite: Seq<u8>, k: nat) -> bool
    decreases k,
{
    if k == 0 {
        false
    } else {
        draw_collides(p, x, y, sprite, (k - 1) as nat) || row_collides(
            draw_rows(p, x, y, sprite, (k - 1) as nat),
            x,
            (y + k - 1) % HEIGHT as int,
            sprite[k - 1],
            8,
        )
    }
}

/// A blank screen.
pub open spec fn blank() -> Seq<bool> {
    Seq::new(PIXELS as nat, |i: int| false)
}

/// A 64 by 32 monochrome screen; pixel `(col, row)` is at `row * 64 + col`.
pub struct Display {
    pixels: Vec<bool>,
}

impl View for Display {
    type V = Seq<bool>;

    closed spec fn view(&self) -> Seq<bool> {
        self.pixels@
    }
}

impl Display {
    pub open spec fn wf(&self) -> bool {
        self@.len() == PIXELS
    }

    /// A screen with every pixel off.
    pub fn new() -> (r: Display)
        ensures
            r.wf(),
            r@ == blank(),
    {
        let mut pixels: Vec<bool> = Vec::new();
        let mut i: usize = 0;
        while i < PIXELS
            invariant
                i <= PIXELS,
                pixels@ == Seq::new(i as nat, |k: int| false),
            decreases PIXELS - i,
        {
            pixels.push(false);
            i = i + 1;
            assert(pixels@ =~= Seq::new(i as nat, |k: int| false));
        }
        Display { pixels }
    }

    /// Turns every pixel off.
    pub fn clear(&mut self)
        requires
            old(self).wf(),
        ensures
            final(self).wf(),
            final(self)@ == blank(),
    {
        let mut i: usize = 0;
        while i < PIXELS
            invariant
                i <= PIXELS,
                self.pixels@.len() == PIXELS,
                forall|k: int| 0 <= k < i ==> !self.pixels@[k],
            decreases PIXELS - i,
        {
            self.pixels.set(i, false);
            i = i + 1;
        }
        assert(self@ =~= blank());
    }

    /// Whether the pixel at column `x`, row `y` is lit.
    pub fn pixel(&self, x: usize, y: usize) -> (r: bool)
        requires
            self.wf(),
            x < WIDTH,
            y < HEIGHT,
        ensures
            r == self@[pixel_index(x as int, y as int)],
    {
        self.pixels[y * WIDTH + x]
    }

    /// All pixels, row after row.
    pub fn framebuffer(&self) -> (r: &Vec<bool>)
        ensures
            r@ == self@,
    {
        &self.pixels
    }

    /// XORs one sprite row into screen row `row` from column `x`; returns
    /// whether a lit pixel was turned off.
    fn draw_row(&mut self, x: usize, row: usize, b: u8) -> (r: bool)
        requires
            old(self).wf(),
            x < WIDTH,
            row < HEIGHT,
        ensures
            final(self).wf(),
            final(self)@ == xor_row(old(self)@, x as int, row as int, b, 8),
            r == row_collides(old(self)@, x as int, row as int, b, 8),
    {
        let mut collided = false;
        let mut c: u8 = 0;
        while c < 8
            invariant
                c <= 8,
                x < WIDTH,
                row < HEIGHT,
                self.pixels@.len() == PIXELS,
                self@ == xor_row(old(self)@, x as int, row as int, b, c as nat),
                collided == row_collides(old(self)@, x as int, row as int, b, c as nat),
            decreases 8 - c,
        {
            let k = row * WIDTH + (x + c as usize) % WIDTH;
            if (b >> (7 - c)) & 1u8 == 1u8 {
                let lit = self.pixels[k];
                if lit {
                    collided = true;
                }
                self.pixels.set(k, !lit);
            }
            c = c + 1;
        }
        collided
    }

    /// Draws `sprite` with its top-left corner at column `x mod 64`, row
    /// `y mod 32`, XOR-ing each row in and wrapping at the edges; returns
    /// whether a lit pixel was turned off.
    pub fn draw_sprite(&mut self, x: u8, y: u8, sprite: &[u8]) -> (collision: bool)
        requires
            old(self).wf(),
        ensures
            final(self).wf(),
            final(self)@ == draw_rows(
                old(self)@,
                x as int % WIDTH as int,
                y as int % HEIGHT as int,
                sprite@,
                sprite@.len(),
            ),
            collision == draw_collides(
                old(self)@,
                x as int % WIDTH as int,
                y as int % HEIGHT as int,
                sprite@,
                sprite@.len(),
            ),
    {
        let x0: usize = (x as usize) % WIDTH;
        let y0: usize = (y as usize) % HEIGHT;
        let mut collision = false;
        let mut r: usize = 0;
        while r < sprite.len()
            invariant
                r <= sprite@.len(),
                x0 == x as int % WIDTH as int,
                y0 == y as int % HEIGHT as int,
                self.wf(),
                self@ == draw_rows(old(self)@, x0 as int, y0 as int, sprite@, r as nat),
                collision == draw_collides(old(self)@, x0 as int, y0 as int, sprite@, r as nat),
            decreases sprite@.len() - r,
        {
            let row = (y0 + r % HEIGHT) % HEIGHT;
            assert(row == (y0 + r) as int % HEIGHT as int) by (nonlinear_arith)
                requires
                    row == (y0 + r as int % HEIGHT as int) % HEIGHT as int,
                    y0 < HEIGHT,
            ;
            let hit = self.draw_row(x0, row, sprite[r]);
            collision = collision || hit;
            r = r + 1;
        }
        collision
    }
}

} // verus!
