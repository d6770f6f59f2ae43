//! The 64x32 monochrome frame buffer with XOR sprite drawing.
//!
//! Sprites are drawn by XOR-ing each sprite bit into the grid; target
//! coordinates wrap toroidally on both axes.  Drawing reports whether any
//! lit pixel was erased (the collision signal), and a dirty flag records
//! whether any pixel's value actually changed.

use vstd::arithmetic::div_mod::{
    lemma_add_mod_noop, lemma_fundamental_div_mod, lemma_mod_bound, lemma_small_mod,
};
use vstd::arithmetic::mul::{lemma_mul_inequality, lemma_mul_is_distributive_sub};
use vstd::prelude::*;

use crate::constants::{CHIP8_HEIGHT, CHIP8_WIDTH};

verus! {

/// A well-formed grid: CHIP8_HEIGHT rows of CHIP8_WIDTH pixels.
pub open spec fn grid_wf(g: Seq<Seq<bool>>) -> bool {
    &&& g.len() == CHIP8_HEIGHT
    &&& forall|y: int| 0 <= y < g.len() ==> (#[trigger] g[y]).len() == CHIP8_WIDTH
}

/// The grid with every pixel off.
pub open spec fn blank_grid() -> Seq<Seq<bool>> {
    Seq::new(CHIP8_HEIGHT as nat, |y: int| Seq::new(CHIP8_WIDTH as nat, |x: int| false))
}

/// Whether some pixel of the grid is on.
pub open spec fn any_pixel_on(g: Seq<Seq<bool>>) -> bool {
    exists|y: int, x: int| 0 <= y < g.len() && 0 <= x < g[y].len() && g[y][x]
}

/// Column `i` of a sprite row byte, counting the most significant bit as
/// column 0.
pub open spec fn sprite_bit(byte: u8, i: int) -> bool {
    (byte >> ((7 - i) as u8)) & 1 == 1
}

/// Whether one of the first `n` columns of a sprite row byte drawn with
/// its left edge at `x_left` puts a set bit on column `x` of the grid
/// (wrapping at the right edge).
pub open spec fn row_covers_below(x_left: int, byte: u8, x: int, n: int) -> bool {
    exists|i: int| 0 <= i < n && (x_left + i) % (CHIP8_WIDTH as int) == x && sprite_bit(byte, i)
}

/// Whether a sprite row byte drawn with its left edge at `x_left` puts a
/// set bit on column `x` of the grid.
pub open spec fn row_covers(x_left: int, byte: u8, x: int) -> bool {
    row_covers_below(x_left, byte, x, 8)
}

/// The grid after one sprite row byte is XOR-drawn on row `y` (wrapped).
pub open spec fn xor_row(g: Seq<Seq<bool>>, x_left: int, y: int, byte: u8) -> Seq<Seq<bool>> {
    let yy = y % (CHIP8_HEIGHT as int);
    g.update(yy, Seq::new(g[yy].len(), |x: int| g[yy][x] != row_covers(x_left, byte, x)))
}

/// Whether XOR-drawing one sprite row byte on row `y` of grid `g` erases a
/// lit pixel.
pub open spec fn row_erases(g: Seq<Seq<bool>>, x_left: int, y: int, byte: u8) -> bool {
    let yy = y % (CHIP8_HEIGHT as int);
    exists|x: int| 0 <= x < g[yy].len() && row_covers(x_left, byte, x) && g[yy][x]
}

/// The grid after a whole sprite is XOR-drawn, one row byte after another,
/// from `y_top` downward (each row wrapped independently).
pub open spec fn draw_grid(
    g: Seq<Seq<bool>>,
    x_left: int,
    y_top: int,
    sprite: Seq<u8>,
) -> Seq<Seq<bool>>
    decreases sprite.len(),
{
    if sprite.len() == 0 {
        g
    } else {
        xor_row(
            draw_grid(g, x_left, y_top, sprite.drop_last()),
            x_left,
            y_top + sprite.len() - 1,
            sprite.last(),
        )
    }
}

/// Whether drawing the sprite erases some pixel that was lit at the moment
/// its row byte was drawn.
pub open spec fn draw_erases(g: Seq<Seq<bool>>, x_left: int, y_top: int, sprite: Seq<u8>) -> bool
    decreases sprite.len(),
{
    if sprite.len() == 0 {
        false
    } else {
        draw_erases(g, x_left, y_top, sprite.drop_last()) || row_erases(
            draw_grid(g, x_left, y_top, sprite.drop_last()),
            x_left,
            y_top + sprite.len() - 1,
            sprite.last(),
        )
    }
}

/// Whether any bit of the sprite is set.  XOR-drawing flips exactly the
/// pixels targeted by set bits, so this decides whether a draw changes the
/// grid at all.
pub open spec fn sprite_any_bit(sprite: Seq<u8>) -> bool {
    exists|j: int, i: int| 0 <= j < sprite.len() && 0 <= i < 8 && sprite_bit(sprite[j], i)
}

/// Two offsets less than `m` apart land on distinct wrapped coordinates.
proof fn lemma_wrap_distinct(x: int, a: int, b: int, m: int)
    requires
        0 < m,
        0 <= a < b,
        b - a < m,
    ensures
        (x + a) % m != (x + b) % m,
{
    lemma_fundamental_div_mod(x + a, m);
    lemma_fundamental_div_mod(x + b, m);
    lemma_mod_bound(x + a, m);
    lemma_mod_bound(x + b, m);
    if (x + a) % m == (x + b) % m {
        let qa = (x + a) / m;
        let qb = (x + b) / m;
        assert(m * (qb - qa) == m * qb - m * qa) by {
            lemma_mul_is_distributive_sub(m, qb, qa);
        }
        assert(b - a == m * (qb - qa));
        if qb - qa >= 1 {
            assert(m * 1 <= m * (qb - qa)) by {
                lemma_mul_inequality(1, qb - qa, m);
            }
            assert(false);
        } else {
            assert(m * (qb - qa) <= m * 0) by {
                lemma_mul_inequality(qb - qa, 0, m);
            }
            assert(false);
        }
    }
}

/// Owns the pixel grid and the per-step dirty flag.
pub struct Canvas {
    pub pixels: Vec<Vec<bool>>,
    pub have_pixels_changed: bool,
}

impl Canvas {
    /// The mathematical pixel grid.
    pub open spec fn grid(&self) -> Seq<Seq<bool>> {
        Seq::new(self.pixels@.len(), |y: int| self.pixels@[y]@)
    }

    pub open spec fn wf(&self) -> bool {
        grid_wf(self.grid())
    }

    pub fn new() -> (r: Self)
        ensures
            r.wf(),
            r.grid() == blank_grid(),
            !r.have_pixels_changed,
    {
        let mut pixels: Vec<Vec<bool>> = Vec::new();
        let mut y: usize = 0;
        while y < CHIP8_HEIGHT
            invariant
                y <= CHIP8_HEIGHT,
                pixels@.len() == y,
                forall|r: int|
                    0 <= r < y ==> (#[trigger] pixels@[r])@ =~= Seq::new(
                        CHIP8_WIDTH as nat,
                        |x: int| false,
                    ),
            decreases CHIP8_HEIGHT - y,
        {
            let mut row: Vec<bool> = Vec::new();
            let mut x: usize = 0;
            while x < CHIP8_WIDTH
                invariant
                    x <= CHIP8_WIDTH,
                    row@.len() == x,
                    forall|c: int| 0 <= c < x ==> !(#[trigger] row@[c]),
                decreases CHIP8_WIDTH - x,
            {
                row.push(false);
                x = x + 1;
            }
            assert(row@ =~= Seq::new(CHIP8_WIDTH as nat, |x: int| false));
            pixels.push(row);
            y = y + 1;
        }
        let r = Canvas { pixels, have_pixels_changed: false };
        assert(r.grid() =~~= blank_grid());
        r
    }

    /// Turn every pixel off; the dirty flag is raised exactly when some
    /// pixel was on.
    pub fn clean(&mut self)
        requires
            old(self).wf(),
        ensures
            final(self).wf(),
            final(self).grid() == blank_grid(),
            final(self).have_pixels_changed == (old(self).have_pixels_changed || any_pixel_on(
                old(self).grid(),
            )),
    {
        let ghost g0 = self.grid();
        let ghost changed0 = self.have_pixels_changed;
        let mut y: usize = 0;
        while y < CHIP8_HEIGHT
            invariant
                y <= CHIP8_HEIGHT,
                self.wf(),
                grid_wf(g0),
                forall|r: int, c: int|
                    0 <= r < y && 0 <= c < CHIP8_WIDTH ==> !(#[trigger] self.grid()[r][c]),
                forall|r: int| y <= r < CHIP8_HEIGHT ==> #[trigger] self.grid()[r] == g0[r],
                self.have_pixels_changed == (changed0 || exists|r: int, c: int|
                    0 <= r < y && 0 <= c < CHIP8_WIDTH && #[trigger] g0[r][c]),
            decreases CHIP8_HEIGHT - y,
        {
            let mut x: usize = 0;
            while x < CHIP8_WIDTH
                invariant
                    y < CHIP8_HEIGHT,
                    x <= CHIP8_WIDTH,
                    self.wf(),
                    grid_wf(g0),
                    forall|r: int, c: int|
                        0 <= r < y && 0 <= c < CHIP8_WIDTH ==> !(#[trigger] self.grid()[r][c]),
                    forall|c: int| 0 <= c < x ==> !(#[trigger] self.grid()[y as int][c]),
                    forall|c: int|
                        x <= c < CHIP8_WIDTH ==> #[trigger] self.grid()[y as int][c] == g0[y
                            as int][c],
                    forall|r: int| y < r < CHIP8_HEIGHT ==> #[trigger] self.grid()[r] == g0[r],
                    self.have_pixels_changed == (changed0 || exists|r: int, c: int|
                        (0 <= r < y || (r == y && 0 <= c < x)) && 0 <= c < CHIP8_WIDTH
                            && #[trigger] g0[r][c]),
                decreases CHIP8_WIDTH - x,
            {
                proof {
                    assert(self.pixels@.len() == CHIP8_HEIGHT);
                    assert(self.grid()[y as int] == self.pixels@[y as int]@);
                    assert(self.grid()[y as int].len() == CHIP8_WIDTH);
                }
                let ghost pre = self.grid();
                let old_pixel = self.pixels[y][x];
                self.pixels[y][x] = false;
                proof {
                    assert(self.grid().len() == pre.len());
                    assert forall|rr: int| 0 <= rr < pre.len() && rr != y implies
                        #[trigger] self.grid()[rr] == pre[rr] by {}
                    assert forall|c: int| 0 <= c < CHIP8_WIDTH && c != x implies
                        #[trigger] self.grid()[y as int][c] == pre[y as int][c] by {}
                    assert(!self.grid()[y as int][x as int]);
                }

                if old_pixel != self.pixels[y][x] {
                    self.have_pixels_changed = true;
                    proof {
                        assert(g0[y as int][x as int]);
                    }
                }
                x = x + 1;
            }
            y = y + 1;
        }
        assert(self.grid() =~~= blank_grid());
        proof {
            if any_pixel_on(g0) {
                let (r, c) = choose|r: int, c: int|
                    0 <= r < g0.len() && 0 <= c < g0[r].len() && g0[r][c];
                assert(0 <= r < CHIP8_HEIGHT && 0 <= c < CHIP8_WIDTH && g0[r][c]);
            }
            if exists|r: int, c: int| 0 <= r < CHIP8_HEIGHT && 0 <= c < CHIP8_WIDTH
                && #[trigger] g0[r][c] {
                let (r, c) = choose|r: int, c: int|
                    0 <= r < CHIP8_HEIGHT && 0 <= c < CHIP8_WIDTH && #[trigger] g0[r][c];
                assert(0 <= r < g0.len() && 0 <= c < g0[r].len() && g0[r][c]);
            }
        }
    }

    /// XOR-draw a sprite with its top-left corner at `(x_left, y_top)`,
    /// wrapping both coordinates; report whether any lit pixel was erased.
    pub fn draw_sprite(&mut self, x_left: usize, y_top: usize, sprite: &[u8]) -> (r: bool)
        requires
            old(self).wf(),
        ensures
            final(self).wf(),
            final(self).grid() == draw_grid(
                old(self).grid(),
                x_left as int,
                y_top as int,
                sprite@,
            ),
            r == draw_erases(old(self).grid(), x_left as int, y_top as int, sprite@),
            final(self).have_pixels_changed == (old(self).have_pixels_changed || sprite_any_bit(
                sprite@,
            )),
    {
        let ghost g0 = self.grid();
        let ghost changed0 = self.have_pixels_changed;
        let mut any_pixel_erased = false;
        let xl = x_left % CHIP8_WIDTH;

        let mut j: usize = 0;
        while j < sprite.len()
            invariant
                j <= sprite@.len(),
                xl == x_left % CHIP8_WIDTH,
                self.wf(),
                grid_wf(g0),
                self.grid() == draw_grid(g0, x_left as int, y_top as int, sprite@.take(j as int)),
                any_pixel_erased == draw_erases(
                    g0,
                    x_left as int,
                    y_top as int,
                    sprite@.take(j as int),
                ),
                self.have_pixels_changed == (changed0 || sprite_any_bit(sprite@.take(j as int))),
            decreases sprite@.len() - j,
        {
            let byte = sprite[j];
            let y = (y_top % CHIP8_HEIGHT + j % CHIP8_HEIGHT) % CHIP8_HEIGHT;
            proof {
                lemma_add_mod_noop(y_top as int, j as int, CHIP8_HEIGHT as int);
            }
            assert(y == (y_top + j) % (CHIP8_HEIGHT as int));

            let ghost g_row = self.grid();
            let ghost erased0 = any_pixel_erased;
            let ghost rowchanged0 = self.have_pixels_changed;

            let mut i: usize = 0;
            while i < 8
                invariant
                    i <= 8,
                    j < sprite@.len(),
                    byte == sprite@[j as int],
                    xl == x_left % CHIP8_WIDTH,
                    y == (y_top + j) % (CHIP8_HEIGHT as int),
                    0 <= y < CHIP8_HEIGHT,
                    self.wf(),
                    grid_wf(g_row),
                    forall|rr: int| 0 <= rr < CHIP8_HEIGHT && rr != y ==> #[trigger] self.grid()[rr]
                        == g_row[rr],
                    forall|c: int|
                        0 <= c < CHIP8_WIDTH ==> #[trigger] self.grid()[y as int][c] == (g_row[y
                            as int][c] != row_covers_below(x_left as int, byte, c, i as int)),
                    any_pixel_erased == (erased0 || exists|k: int|
                        0 <= k < i && #[trigger] sprite_bit(byte, k) && g_row[y as int][(x_left + k)
                            % (CHIP8_WIDTH as int)]),
                    self.have_pixels_changed == (rowchanged0 || exists|k: int|
                        0 <= k < i && #[trigger] sprite_bit(byte, k)),
                decreases 8 - i,
            {
                let x = (xl + i) % CHIP8_WIDTH;
                proof {
                    lemma_add_mod_noop(x_left as int, i as int, CHIP8_WIDTH as int);
                    lemma_small_mod(i as nat, CHIP8_WIDTH as nat);
                }
                assert(x == (x_left + i) % (CHIP8_WIDTH as int));

                let sh: u8 = (7 - i) as u8;
                let bit = (byte >> sh) & 1;
                let pixel_mask = bit == 1;
                assert(pixel_mask == sprite_bit(byte, i as int));

                proof {
                    // No earlier column of this row lands on x: wrapped
                    // columns of one row byte are pairwise distinct.
                    assert forall|k: int| 0 <= k < i implies #[trigger] ((x_left + k) % (
                    CHIP8_WIDTH as int)) != x by {
                        lemma_wrap_distinct(x_left as int, k, i as int, CHIP8_WIDTH as int);
                    }
                    assert(!row_covers_below(x_left as int, byte, x as int, i as int));
                }

                proof {
                    assert(self.pixels@.len() == CHIP8_HEIGHT);
                    assert(self.grid()[y as int] == self.pixels@[y as int]@);
                    assert(self.grid()[y as int].len() == CHIP8_WIDTH);
                }
                let ghost pre = self.grid();
                let old_pixel = self.pixels[y][x];
                self.pixels[y][x] = old_pixel ^ pixel_mask;
                proof {
                    assert(self.grid().len() == pre.len());
                    assert forall|rr: int| 0 <= rr < pre.len() && rr != y implies
                        #[trigger] self.grid()[rr] == pre[rr] by {}
                    assert forall|c: int| 0 <= c < CHIP8_WIDTH && c != x implies
                        #[trigger] self.grid()[y as int][c] == pre[y as int][c] by {}
                    assert(self.grid()[y as int][x as int] == (old_pixel ^ pixel_mask));
                }

                if old_pixel && !self.pixels[y][x] {
                    any_pixel_erased = true;
                }
                if old_pixel != self.pixels[y][x] {
                    self.have_pixels_changed = true;
                }

                proof {
                    let xli = x_left as int;
                    let ii = i as int;
                    // The grid invariant at i + 1: only column x changed.
                    assert forall|c: int| 0 <= c < CHIP8_WIDTH implies #[trigger] self.grid()[y
                        as int][c] == (g_row[y as int][c] != row_covers_below(
                        xli,
                        byte,
                        c,
                        ii + 1,
                    )) by {
                        if c == x {
                            assert(row_covers_below(xli, byte, c, ii + 1) == sprite_bit(byte, ii))
                                by {
                                if sprite_bit(byte, ii) {
                                    assert(0 <= ii < ii + 1 && (xli + ii) % (CHIP8_WIDTH as int)
                                        == c && sprite_bit(byte, ii));
                                }
                                if row_covers_below(xli, byte, c, ii + 1) {
                                    let k = choose|k: int|
                                        0 <= k < ii + 1 && (xli + k) % (CHIP8_WIDTH as int) == c
                                            && sprite_bit(byte, k);
                                    assert(k == ii);
                                }
                            }
                        } else {
                            assert(row_covers_below(xli, byte, c, ii + 1) == row_covers_below(
                                xli,
                                byte,
                                c,
                                ii,
                            )) by {
                                if row_covers_below(xli, byte, c, ii + 1) {
                                    let k = choose|k: int|
                                        0 <= k < ii + 1 && (xli + k) % (CHIP8_WIDTH as int) == c
                                            && sprite_bit(byte, k);
                                    assert(k != ii);
                                    assert(0 <= k < ii && (xli + k) % (CHIP8_WIDTH as int) == c
                                        && sprite_bit(byte, k));
                                }
                                if row_covers_below(xli, byte, c, ii) {
                                    let k = choose|k: int|
                                        0 <= k < ii && (xli + k) % (CHIP8_WIDTH as int) == c
                                            && sprite_bit(byte, k);
                                    assert(0 <= k < ii + 1 && (xli + k) % (CHIP8_WIDTH as int) == c
                                        && sprite_bit(byte, k));
                                }
                            }
                        }
                    }
                }
                i = i + 1;
            }

            // One full row byte has been drawn: fold it into the
            // row-by-row specification.
            proof {
                let xli = x_left as int;
                let yti = y_top as int;
                let jj = j as int;
                assert(self.grid() =~~= xor_row(g_row, xli, yti + jj, byte)) by {
                    assert((yti + jj) % (CHIP8_HEIGHT as int) == y);
                }
                assert(sprite@.take(jj + 1).drop_last() =~= sprite@.take(jj));
                assert(sprite@.take(jj + 1).last() == byte);
                assert(draw_grid(g0, xli, yti, sprite@.take(jj + 1)) == xor_row(
                    draw_grid(g0, xli, yti, sprite@.take(jj)),
                    xli,
                    yti + jj,
                    byte,
                ));

                // Collision: the tracked erasures over this row match
                // row_erases on the grid as it stood when the row began.
                assert((exists|k: int|
                    0 <= k < 8 && #[trigger] sprite_bit(byte, k) && g_row[y as int][(xli + k) % (
                    CHIP8_WIDTH as int)]) == row_erases(g_row, xli, yti + jj, byte)) by {
                    if exists|k: int|
                        0 <= k < 8 && #[trigger] sprite_bit(byte, k) && g_row[y as int][(xli + k)
                            % (CHIP8_WIDTH as int)] {
                        let k = choose|k: int|
                            0 <= k < 8 && #[trigger] sprite_bit(byte, k) && g_row[y as int][(xli
                                + k) % (CHIP8_WIDTH as int)];
                        let xx = (xli + k) % (CHIP8_WIDTH as int);
                        assert(0 <= xx < g_row[y as int].len() && row_covers(xli, byte, xx)
                            && g_row[y as int][xx]) by {
                            assert(0 <= k < 8 && (xli + k) % (CHIP8_WIDTH as int) == xx
                                && sprite_bit(byte, k));
                        }
                    }
                    if row_erases(g_row, xli, yti + jj, byte) {
                        let xx = choose|xx: int|
                            0 <= xx < g_row[y as int].len() && row_covers(xli, byte, xx) && g_row[y
                                as int][xx];
                        let k = choose|k: int|
                            0 <= k < 8 && (xli + k) % (CHIP8_WIDTH as int) == xx && sprite_bit(
                                byte,
                                k,
                            );
                        assert(0 <= k < 8 && sprite_bit(byte, k) && g_row[y as int][(xli + k) % (
                        CHIP8_WIDTH as int)]);
                    }
                }
                assert(any_pixel_erased == draw_erases(g0, xli, yti, sprite@.take(jj + 1)));

                // Dirty flag: fold this row's set bits into the sprite's.
                assert(sprite_any_bit(sprite@.take(jj + 1)) == (sprite_any_bit(sprite@.take(jj))
                    || exists|k: int| 0 <= k < 8 && #[trigger] sprite_bit(byte, k))) by {
                    let t1 = sprite@.take(jj + 1);
                    let t0 = sprite@.take(jj);
                    if sprite_any_bit(t1) {
                        let (a, b) = choose|a: int, b: int|
                            0 <= a < t1.len() && 0 <= b < 8 && sprite_bit(t1[a], b);
                        if a < jj {
                            assert(0 <= a < t0.len() && 0 <= b < 8 && sprite_bit(t0[a], b));
                        } else {
                            assert(t1[a] == byte);
                            assert(0 <= b < 8 && sprite_bit(byte, b));
                        }
                    }
                    if sprite_any_bit(t0) {
                        let (a, b) = choose|a: int, b: int|
                            0 <= a < t0.len() && 0 <= b < 8 && sprite_bit(t0[a], b);
                        assert(0 <= a < t1.len() && 0 <= b < 8 && sprite_bit(t1[a], b));
                    }
                    if exists|k: int| 0 <= k < 8 && #[trigger] sprite_bit(byte, k) {
                        let k = choose|k: int| 0 <= k < 8 && #[trigger] sprite_bit(byte, k);
                        assert(t1[jj] == byte);
                        assert(0 <= jj < t1.len() && 0 <= k < 8 && sprite_bit(t1[jj], k));
                    }
                }
            }
            j = j + 1;
        }
        proof {
            assert(sprite@.take(sprite@.len() as int) =~= sprite@);
        }
        any_pixel_erased
    }

    /// An independent copy of the pixel grid, for handing out snapshots
    /// rather than shared references.
    pub fn pixels_snapshot(&self) -> (r: Vec<Vec<bool>>)
        requires
            self.wf(),
        ensures
            r@.len() == CHIP8_HEIGHT,
            forall|y: int| 0 <= y < CHIP8_HEIGHT ==> (#[trigger] r@[y])@ == self.grid()[y],
    {
        let mut out: Vec<Vec<bool>> = Vec::new();
        let mut y: usize = 0;
        while y < CHIP8_HEIGHT
            invariant
                y <= CHIP8_HEIGHT,
                self.wf(),
                out@.len() == y,
                forall|r: int| 0 <= r < y ==> (#[trigger] out@[r])@ == self.grid()[r],
            decreases CHIP8_HEIGHT - y,
        {
            let mut row: Vec<bool> = Vec::new();
            let mut x: usize = 0;
            while x < CHIP8_WIDTH
                invariant
                    y < CHIP8_HEIGHT,
                    x <= CHIP8_WIDTH,
                    self.wf(),
                    row@.len() == x,
                    forall|c: int| 0 <= c < x ==> #[trigger] row@[c] == self.grid()[y as int][c],
                decreases CHIP8_WIDTH - x,
            {
                proof {
                    assert(self.grid()[y as int] == self.pixels@[y as int]@);
                    assert(self.grid()[y as int].len() == CHIP8_WIDTH);
                }
                row.push(self.pixels[y][x]);
                x = x + 1;
            }
            proof {
                assert(row@ =~= self.grid()[y as int]);
            }
            out.push(row);
            y = y + 1;
        }
        out
    }

    /// Lower the dirty flag without touching the pixels.
    pub fn reset_pixels_changed(&mut self)
        ensures
            final(self).grid() == old(self).grid(),
            final(self).pixels == old(self).pixels,
            !final(self).have_pixels_changed,
    {
        self.have_pixels_changed = false;
    }
}

/// Whether some set bit of the sprite, drawn at `(x_left, y_top)`, lands on
/// grid cell `(r, c)` after wrapping both coordinates.
pub open spec fn sprite_covers(x_left: int, y_top: int, sprite: Seq<u8>, r: int, c: int) -> bool {
    exists|j: int, i: int|
        0 <= j < sprite.len() && 0 <= i < 8 && (y_top + j) % (CHIP8_HEIGHT as int) == r && (x_left
            + i) % (CHIP8_WIDTH as int) == c && sprite_bit(sprite[j], i)
}

/// Drawing preserves the grid's shape.
pub proof fn lemma_draw_grid_wf(g: Seq<Seq<bool>>, x_left: int, y_top: int, sprite: Seq<u8>)
    requires
        grid_wf(g),
    ensures
        grid_wf(draw_grid(g, x_left, y_top, sprite)),
    decreases sprite.len(),
{
    if sprite.len() > 0 {
        lemma_draw_grid_wf(g, x_left, y_top, sprite.drop_last());
        let gp = draw_grid(g, x_left, y_top, sprite.drop_last());
        let yy = (y_top + sprite.len() - 1) % (CHIP8_HEIGHT as int);
        lemma_mod_bound(y_top + sprite.len() - 1, CHIP8_HEIGHT as int);
        assert(gp[yy].len() == CHIP8_WIDTH);
    }
}

/// For sprites no taller than the canvas, drawing XORs each cell with the
/// sprite's coverage of that cell: every affected pixel wraps to its target
/// independently of the others.
pub proof fn lemma_draw_grid_pointwise(
    g: Seq<Seq<bool>>,
    x_left: int,
    y_top: int,
    sprite: Seq<u8>,
    r: int,
    c: int,
)
    requires
        grid_wf(g),
        sprite.len() <= CHIP8_HEIGHT,
        0 <= r < CHIP8_HEIGHT,
        0 <= c < CHIP8_WIDTH,
    ensures
        draw_grid(g, x_left, y_top, sprite)[r][c] == (g[r][c] != sprite_covers(
            x_left,
            y_top,
            sprite,
            r,
            c,
        )),
    decreases sprite.len(),
{
    let h = CHIP8_HEIGHT as int;
    let w = CHIP8_WIDTH as int;
    if sprite.len() == 0 {
        assert(!sprite_covers(x_left, y_top, sprite, r, c));
    } else {
        let pre = sprite.drop_last();
        let n = sprite.len() as int;
        let byte = sprite.last();
        lemma_draw_grid_pointwise(g, x_left, y_top, pre, r, c);
        lemma_draw_grid_wf(g, x_left, y_top, pre);
        let gp = draw_grid(g, x_left, y_top, pre);
        let yy = (y_top + n - 1) % h;
        lemma_mod_bound(y_top + n - 1, h);
        if r == yy {
            assert(!sprite_covers(x_left, y_top, pre, r, c)) by {
                if sprite_covers(x_left, y_top, pre, r, c) {
                    let (j, i) = choose|j: int, i: int|
                        0 <= j < pre.len() && 0 <= i < 8 && (y_top + j) % h == r && (x_left + i)
                            % w == c && sprite_bit(pre[j], i);
                    lemma_wrap_distinct(y_top, j, n - 1, h);
                }
            }
            assert(sprite_covers(x_left, y_top, sprite, r, c) == row_covers(x_left, byte, c)) by {
                if sprite_covers(x_left, y_top, sprite, r, c) {
                    let (j, i) = choose|j: int, i: int|
                        0 <= j < sprite.len() && 0 <= i < 8 && (y_top + j) % h == r && (x_left + i)
                            % w == c && sprite_bit(sprite[j], i);
                    if j < n - 1 {
                        lemma_wrap_distinct(y_top, j, n - 1, h);
                    }
                    assert(j == n - 1);
                    assert(0 <= i < 8 && (x_left + i) % w == c && sprite_bit(byte, i));
                }
                if row_covers(x_left, byte, c) {
                    let i = choose|i: int|
                        0 <= i < 8 && (x_left + i) % w == c && sprite_bit(byte, i);
                    assert(0 <= n - 1 < sprite.len() && 0 <= i < 8 && (y_top + (n - 1)) % h == r
                        && (x_left + i) % w == c && sprite_bit(sprite[n - 1], i));
                }
            }
        } else {
            assert(sprite_covers(x_left, y_top, sprite, r, c) == sprite_covers(
                x_left,
                y_top,
                pre,
                r,
                c,
            )) by {
                if sprite_covers(x_left, y_top, sprite, r, c) {
                    let (j, i) = choose|j: int, i: int|
                        0 <= j < sprite.len() && 0 <= i < 8 && (y_top + j) % h == r && (x_left + i)
                            % w == c && sprite_bit(sprite[j], i);
                    assert(j != n - 1);
                    assert(0 <= j < pre.len() && 0 <= i < 8 && (y_top + j) % h == r && (x_left + i)
                        % w == c && sprite_bit(pre[j], i));
                }
                if sprite_covers(x_left, y_top, pre, r, c) {
                    let (j, i) = choose|j: int, i: int|
                        0 <= j < pre.len() && 0 <= i < 8 && (y_top + j) % h == r && (x_left + i)
                            % w == c && sprite_bit(pre[j], i);
                    assert(0 <= j < sprite.len() && 0 <= i < 8 && (y_top + j) % h == r && (x_left
                        + i) % w == c && sprite_bit(sprite[j], i));
                }
            }
        }
    }
}

/// For sprites no taller than the canvas, a draw reports a collision
/// exactly when some covered cell was lit.
pub proof fn lemma_draw_erases_char(g: Seq<Seq<bool>>, x_left: int, y_top: int, sprite: Seq<u8>)
    requires
        grid_wf(g),
        sprite.len() <= CHIP8_HEIGHT,
    ensures
        draw_erases(g, x_left, y_top, sprite) == (exists|r: int, c: int|
            0 <= r < CHIP8_HEIGHT && 0 <= c < CHIP8_WIDTH && #[trigger] sprite_covers(
                x_left,
                y_top,
                sprite,
                r,
                c,
            ) && g[r][c]),
    decreases sprite.len(),
{
    let h = CHIP8_HEIGHT as int;
    let w = CHIP8_WIDTH as int;
    if sprite.len() == 0 {
        assert(!draw_erases(g, x_left, y_top, sprite));
        if exists|r: int, c: int|
            0 <= r < h && 0 <= c < w && #[trigger] sprite_covers(x_left, y_top, sprite, r, c)
                && g[r][c] {
            let (r, c) = choose|r: int, c: int|
                0 <= r < h && 0 <= c < w && #[trigger] sprite_covers(x_left, y_top, sprite, r, c)
                    && g[r][c];
            assert(!sprite_covers(x_left, y_top, sprite, r, c));
        }
    } else {
        let pre = sprite.drop_last();
        let n = sprite.len() as int;
        let byte = sprite.last();
        lemma_draw_erases_char(g, x_left, y_top, pre);
        lemma_draw_grid_wf(g, x_left, y_top, pre);
        let gp = draw_grid(g, x_left, y_top, pre);
        let yy = (y_top + n - 1) % h;
        lemma_mod_bound(y_top + n - 1, h);

        // On its own row the earlier rows changed nothing, so row_erases
        // looks at the original grid.
        assert forall|x: int| 0 <= x < w implies #[trigger] gp[yy][x] == g[yy][x] by {
            lemma_draw_grid_pointwise(g, x_left, y_top, pre, yy, x);
            if sprite_covers(x_left, y_top, pre, yy, x) {
                let (j, i) = choose|j: int, i: int|
                    0 <= j < pre.len() && 0 <= i < 8 && (y_top + j) % h == yy && (x_left + i) % w
                        == x && sprite_bit(pre[j], i);
                lemma_wrap_distinct(y_top, j, n - 1, h);
            }
        }

        let rowpart = row_erases(gp, x_left, y_top + n - 1, byte);
        let allcov = exists|r: int, c: int|
            0 <= r < h && 0 <= c < w && #[trigger] sprite_covers(x_left, y_top, sprite, r, c)
                && g[r][c];
        let precov = exists|r: int, c: int|
            0 <= r < h && 0 <= c < w && #[trigger] sprite_covers(x_left, y_top, pre, r, c)
                && g[r][c];

        assert((precov || rowpart) == allcov) by {
            if precov {
                let (r, c) = choose|r: int, c: int|
                    0 <= r < h && 0 <= c < w && #[trigger] sprite_covers(x_left, y_top, pre, r, c)
                        && g[r][c];
                let (j, i) = choose|j: int, i: int|
                    0 <= j < pre.len() && 0 <= i < 8 && (y_top + j) % h == r && (x_left + i) % w
                        == c && sprite_bit(pre[j], i);
                assert(0 <= j < sprite.len() && 0 <= i < 8 && (y_top + j) % h == r && (x_left + i)
                    % w == c && sprite_bit(sprite[j], i));
                assert(sprite_covers(x_left, y_top, sprite, r, c) && g[r][c]);
            }
            if rowpart {
                let x = choose|x: int|
                    0 <= x < gp[yy].len() && row_covers(x_left, byte, x) && gp[yy][x];
                let i = choose|i: int| 0 <= i < 8 && (x_left + i) % w == x && sprite_bit(byte, i);
                assert(0 <= n - 1 < sprite.len() && 0 <= i < 8 && (y_top + (n - 1)) % h == yy && (
                x_left + i) % w == x && sprite_bit(sprite[n - 1], i));
                assert(sprite_covers(x_left, y_top, sprite, yy, x) && g[yy][x]);
            }
            if allcov && !precov {
                let (r, c) = choose|r: int, c: int|
                    0 <= r < h && 0 <= c < w && #[trigger] sprite_covers(
                        x_left,
                        y_top,
                        sprite,
                        r,
                        c,
                    ) && g[r][c];
                let (j, i) = choose|j: int, i: int|
                    0 <= j < sprite.len() && 0 <= i < 8 && (y_top + j) % h == r && (x_left + i) % w
                        == c && sprite_bit(sprite[j], i);
                if j < n - 1 {
                    assert(0 <= j < pre.len() && 0 <= i < 8 && (y_top + j) % h == r && (x_left + i)
                        % w == c && sprite_bit(pre[j], i));
                    assert(sprite_covers(x_left, y_top, pre, r, c) && g[r][c]);
                } else {
                    assert(r == yy);
                    assert(0 <= i < 8 && (x_left + i) % w == c && sprite_bit(byte, i));
                    assert(row_covers(x_left, byte, c));
                    assert(0 <= c < gp[yy].len() && row_covers(x_left, byte, c) && gp[yy][c]);
                }
            }
        }
    }
}

/// One XOR-drawn row preserves the grid's shape.
proof fn lemma_xor_row_wf(g: Seq<Seq<bool>>, x_left: int, y: int, byte: u8)
    requires
        grid_wf(g),
    ensures
        grid_wf(xor_row(g, x_left, y, byte)),
{
    lemma_mod_bound(y, CHIP8_HEIGHT as int);
}

/// XOR-drawn rows commute: each row's effect is a cellwise XOR, so the
/// order of two of them does not matter.
proof fn lemma_xor_row_commute(
    g: Seq<Seq<bool>>,
    x_left: int,
    y1: int,
    b1: u8,
    y2: int,
    b2: u8,
)
    requires
        grid_wf(g),
    ensures
        xor_row(xor_row(g, x_left, y1, b1), x_left, y2, b2) == xor_row(
            xor_row(g, x_left, y2, b2),
            x_left,
            y1,
            b1,
        ),
{
    let h = CHIP8_HEIGHT as int;
    lemma_mod_bound(y1, h);
    lemma_mod_bound(y2, h);
    lemma_xor_row_wf(g, x_left, y1, b1);
    lemma_xor_row_wf(g, x_left, y2, b2);
    let a = xor_row(xor_row(g, x_left, y1, b1), x_left, y2, b2);
    let b = xor_row(xor_row(g, x_left, y2, b2), x_left, y1, b1);
    assert(a =~~= b);
}

/// One XOR-drawn row is its own inverse.
proof fn lemma_xor_row_self_inverse(g: Seq<Seq<bool>>, x_left: int, y: int, byte: u8)
    requires
        grid_wf(g),
    ensures
        xor_row(xor_row(g, x_left, y, byte), x_left, y, byte) == g,
{
    lemma_mod_bound(y, CHIP8_HEIGHT as int);
    lemma_xor_row_wf(g, x_left, y, byte);
    assert(xor_row(xor_row(g, x_left, y, byte), x_left, y, byte) =~~= g);
}

/// An XOR-drawn row commutes past a whole drawn sprite.
proof fn lemma_draw_xor_commute(
    g: Seq<Seq<bool>>,
    x_left: int,
    y_top: int,
    sprite: Seq<u8>,
    y: int,
    byte: u8,
)
    requires
        grid_wf(g),
    ensures
        xor_row(draw_grid(g, x_left, y_top, sprite), x_left, y, byte) == draw_grid(
            xor_row(g, x_left, y, byte),
            x_left,
            y_top,
            sprite,
        ),
    decreases sprite.len(),
{
    if sprite.len() > 0 {
        let pre = sprite.drop_last();
        lemma_draw_grid_wf(g, x_left, y_top, pre);
        lemma_xor_row_commute(
            draw_grid(g, x_left, y_top, pre),
            x_left,
            y_top + sprite.len() - 1,
            sprite.last(),
            y,
            byte,
        );
        lemma_draw_xor_commute(g, x_left, y_top, pre, y, byte);
    }
}

/// Law: drawing the same sprite twice at the same coordinates restores
/// the canvas to its prior state: XOR drawing is self-inverse, whatever
/// the sprite's size or position.
pub proof fn lemma_draw_sprite_self_inverse(
    g: Seq<Seq<bool>>,
    x_left: int,
    y_top: int,
    sprite: Seq<u8>,
)
    requires
        grid_wf(g),
    ensures
        draw_grid(draw_grid(g, x_left, y_top, sprite), x_left, y_top, sprite) == g,
    decreases sprite.len(),
{
    if sprite.len() > 0 {
        let pre = sprite.drop_last();
        let byte = sprite.last();
        let yb = y_top + sprite.len() - 1;
        let g1 = draw_grid(g, x_left, y_top, sprite);
        lemma_draw_grid_wf(g, x_left, y_top, pre);
        // Pull this sprite's last row out in front of the second draw's
        // remaining rows, cancel the two copies of it, and recurse.
        lemma_draw_xor_commute(draw_grid(g, x_left, y_top, pre), x_left, y_top, pre, yb, byte);
        lemma_draw_sprite_self_inverse(g, x_left, y_top, pre);
        lemma_xor_row_self_inverse(g, x_left, yb, byte);
    }
}

/// Law: the second of two identical draws reports a collision exactly
/// when the sprite covers a pixel that was off before the first draw:
/// those are the pixels the first draw turned on, and they are the only
/// ones the second draw erases.  For sprites no taller than the canvas,
/// which every machine sprite is.
pub proof fn lemma_second_draw_collision(
    g: Seq<Seq<bool>>,
    x_left: int,
    y_top: int,
    sprite: Seq<u8>,
)
    requires
        grid_wf(g),
        sprite.len() <= CHIP8_HEIGHT,
    ensures
        draw_erases(draw_grid(g, x_left, y_top, sprite), x_left, y_top, sprite) == (exists|
            r: int,
            c: int,
        |
            0 <= r < CHIP8_HEIGHT && 0 <= c < CHIP8_WIDTH && #[trigger] sprite_covers(
                x_left,
                y_top,
                sprite,
                r,
                c,
            ) && !g[r][c]),
{
    let h = CHIP8_HEIGHT as int;
    let w = CHIP8_WIDTH as int;
    let g1 = draw_grid(g, x_left, y_top, sprite);
    lemma_draw_grid_wf(g, x_left, y_top, sprite);

    assert forall|r: int, c: int| 0 <= r < h && 0 <= c < w implies #[trigger] g1[r][c] == (g[r][c]
        != sprite_covers(x_left, y_top, sprite, r, c)) by {
        lemma_draw_grid_pointwise(g, x_left, y_top, sprite, r, c);
    }

    lemma_draw_erases_char(g1, x_left, y_top, sprite);
    let on1 = exists|r: int, c: int|
        0 <= r < h && 0 <= c < w && #[trigger] sprite_covers(x_left, y_top, sprite, r, c)
            && g1[r][c];
    let off0 = exists|r: int, c: int|
        0 <= r < h && 0 <= c < w && #[trigger] sprite_covers(x_left, y_top, sprite, r, c)
            && !g[r][c];
    assert(on1 == off0) by {
        if on1 {
            let (r, c) = choose|r: int, c: int|
                0 <= r < h && 0 <= c < w && #[trigger] sprite_covers(x_left, y_top, sprite, r, c)
                    && g1[r][c];
            assert(sprite_covers(x_left, y_top, sprite, r, c) && !g[r][c]);
        }
        if off0 {
            let (r, c) = choose|r: int, c: int|
                0 <= r < h && 0 <= c < w && #[trigger] sprite_covers(x_left, y_top, sprite, r, c)
                    && !g[r][c];
            assert(sprite_covers(x_left, y_top, sprite, r, c) && g1[r][c]);
        }
    }
}

/// Law: a sprite whose bounding box exceeds the canvas edges wraps each
/// affected pixel independently to the opposite edge on both axes: every
/// set bit flips exactly the pixel at its wrapped target coordinates.
pub proof fn lemma_draw_sprite_wraps(
    g: Seq<Seq<bool>>,
    x_left: int,
    y_top: int,
    sprite: Seq<u8>,
    j: int,
    i: int,
)
    requires
        grid_wf(g),
        sprite.len() <= CHIP8_HEIGHT,
        0 <= j < sprite.len(),
        0 <= i < 8,
        sprite_bit(sprite[j], i),
    ensures
        draw_grid(g, x_left, y_top, sprite)[(y_top + j) % (CHIP8_HEIGHT as int)][(x_left + i) % (
        CHIP8_WIDTH as int)] == !g[(y_top + j) % (CHIP8_HEIGHT as int)][(x_left + i) % (CHIP8_WIDTH
            as int)],
{
    let h = CHIP8_HEIGHT as int;
    let w = CHIP8_WIDTH as int;
    let r = (y_top + j) % h;
    let c = (x_left + i) % w;
    lemma_mod_bound(y_top + j, h);
    lemma_mod_bound(x_left + i, w);
    lemma_draw_grid_pointwise(g, x_left, y_top, sprite, r, c);
    assert(sprite_covers(x_left, y_top, sprite, r, c)) by {
        assert(0 <= j < sprite.len() && 0 <= i < 8 && (y_top + j) % h == r && (x_left + i) % w == c
            && sprite_bit(sprite[j], i));
    }
}

} // verus!
