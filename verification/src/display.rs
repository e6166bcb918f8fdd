//! The monochrome framebuffer: its resolutions and the buffer that sprites
//! are drawn into. What drawing means is defined in [`crate::screen`].

use crate::screen::{
    blank, blit, cleared, collides, cols, column_offset, flips, has_shape, lemma_column_offset,
    lit, row_hits, rows, sprite_bit, toggle_pixel, xor_row,
};
use vstd::arithmetic::div_mod::{
    lemma_add_mod_noop_right, lemma_fundamental_div_mod, lemma_fundamental_div_mod_converse_mod,
    lemma_mod_bound, lemma_sub_mod_noop_right,
};
use vstd::prelude::*;

verus! {

/// The resolutions the framebuffer can be operated in.
#[derive(Copy, Clone, Debug, PartialEq, Eq, Structural)]
pub enum DisplayMode {
    H64V32MONOCHROME,
    H128V64MONOCHROME,
}

impl DisplayMode {
    /// Number of pixel columns.
    pub open spec fn width(self) -> int {
        match self {
            DisplayMode::H64V32MONOCHROME => 64,
            DisplayMode::H128V64MONOCHROME => 128,
        }
    }

    /// Number of pixel rows.
    pub open spec fn height(self) -> int {
        match self {
            DisplayMode::H64V32MONOCHROME => 32,
            DisplayMode::H128V64MONOCHROME => 64,
        }
    }

    /// Returns the horizontal resolution, in pixels, of this mode.
    pub fn get_h_res(&self) -> (res: i32)
        ensures
            res == self.width(),
    {
        match *self {
            DisplayMode::H64V32MONOCHROME => 64,
            DisplayMode::H128V64MONOCHROME => 128,
        }
    }

    /// Returns the vertical resolution, in pixels, of this mode.
    pub fn get_v_res(&self) -> (res: i32)
        ensures
            res == self.height(),
    {
        match *self {
            DisplayMode::H64V32MONOCHROME => 32,
            DisplayMode::H128V64MONOCHROME => 64,
        }
    }
}

/// `row` after the first `k` pixels of `byte` are XORed onto it at column `x`.
spec fn xor_row_upto(row: Seq<bool>, x: int, byte: u8, k: int) -> Seq<bool> {
    Seq::new(
        row.len(),
        |px: int|
            row[px] != (column_offset(px, x, row.len() as int) < k && sprite_bit(
                byte,
                column_offset(px, x, row.len() as int),
            )),
    )
}

/// Whether one of the first `k` pixels of `byte` lands on a lit pixel of `row`.
spec fn row_hits_upto(row: Seq<bool>, x: int, byte: u8, k: int) -> bool {
    exists|j: int| 0 <= j < k && #[trigger] sprite_bit(byte, j) && row[(x + j) % (row.len() as int)]
}

/// Wrapper for display buffer memory. Includes helper methods for working with display memory.
#[derive(Copy, Clone)]
pub struct DisplayBuffer {
    /// 2D array that holds the largest resolution; a mode uses its top-left part.
    /// First dimension is the row (vertical dimension),
    /// second dimension is the column (horizontal dimension).
    buff: [[bool; 128]; 64],
    /// The DisplayMode of this DisplayBuffer
    display_mode: DisplayMode,
}

impl View for DisplayBuffer {
    type V = Seq<Seq<bool>>;

    /// The visible screen: `mode().height()` rows of `mode().width()` pixels.
    open spec fn view(&self) -> Seq<Seq<bool>> {
        Seq::new(
            self.mode().height() as nat,
            |y: int| Seq::new(self.mode().width() as nat, |x: int| self.cell(x, y)),
        )
    }
}

impl DisplayBuffer {
    /// The resolution this buffer is operated in.
    pub closed spec fn mode(&self) -> DisplayMode {
        self.display_mode
    }

    /// The stored state of the cell in column `x` of row `y`.
    pub closed spec fn cell(&self, x: int, y: int) -> bool {
        self.buff[y][x]
    }

    /// The view of a buffer always has the shape of its mode.
    pub proof fn lemma_view_shape(&self)
        ensures
            has_shape(self@, self.mode()),
    {
    }

    /// Constructs a new DisplayBuffer with every pixel off.
    pub fn new(mode: DisplayMode) -> (res: DisplayBuffer)
        ensures
            res.mode() == mode,
            res@ == blank(mode),
    {
        let res = DisplayBuffer { buff: [[false; 128]; 64], display_mode: mode };
        assert(res@ =~~= blank(mode));
        res
    }

    /// Clears the display buffer (sets all values to false)
    pub fn clear(&mut self)
        ensures
            final(self).mode() == old(self).mode(),
            final(self)@ == blank(old(self).mode()),
            final(self)@ == cleared(old(self)@),
    {
        self.buff = [[false; 128]; 64];
        assert(self@ =~~= blank(self.mode()));
        assert(self@ =~~= cleared(old(self)@));
    }

    /// Returns the DisplayMode of this DisplayBuffer
    pub fn get_display_mode(&self) -> (mode: DisplayMode)
        ensures
            mode == self.mode(),
    {
        self.display_mode
    }

    /// Returns whether the pixel that `(x, y)` wraps to is on.
    pub fn get_pixel(&self, x: i32, y: i32) -> (on: bool)
        ensures
            on == lit(self@, x as int, y as int),
    {
        let wx = wrap_coordinate(x, self.display_mode.get_h_res());
        let wy = wrap_coordinate(y, self.display_mode.get_v_res());
        proof {
            self.lemma_view_shape();
        }
        self.buff[wy as usize][wx as usize]
    }

    /// Inverts a pixel of the DisplayBuffer. If the pixel is already on (true),
    /// then a collision has occurred and the pixel goes off. Pixels off-screen
    /// (outside resolution bounds) roll over to the opposite edge.
    /// Returns true when a collision has occurred.
    pub fn set_pixel(&mut self, x: i32, y: i32) -> (collided: bool)
        ensures
            final(self).mode() == old(self).mode(),
            final(self)@ == toggle_pixel(old(self)@, x as int, y as int),
            collided == lit(old(self)@, x as int, y as int),
    {
        // Normalize (roll over) pixel values into resolution range
        let wx = wrap_coordinate(x, self.display_mode.get_h_res());
        let wy = wrap_coordinate(y, self.display_mode.get_v_res());
        let collided = self.buff[wy as usize][wx as usize];
        self.buff[wy as usize][wx as usize] = !collided;
        proof {
            let before = old(self)@;
            let after = toggle_pixel(before, x as int, y as int);
            assert(wx == x as int % cols(before));
            assert(wy == y as int % rows(before));
            assert forall|py: int, px: int|
                0 <= py < self.mode().height() && 0 <= px < self.mode().width() implies self.cell(
                px,
                py,
            ) == after[py][px] by {}
            assert(self@ =~~= after);
        }
        collided
    }

    /// XORs the eight pixels of `byte` onto row `y`, the leftmost at column `x`.
    /// Returns true when a lit pixel went off.
    fn draw_row(&mut self, x: i32, y: i32, byte: u8) -> (collided: bool)
        requires
            0 <= x < old(self).mode().width(),
            0 <= y < old(self).mode().height(),
        ensures
            final(self).mode() == old(self).mode(),
            final(self)@ == old(self)@.update(
                y as int,
                xor_row(old(self)@[y as int], x as int, byte),
            ),
            collided == row_hits(old(self)@[y as int], x as int, byte),
    {
        let ghost before = self@;
        let ghost mode = self.mode();
        let ghost row = before[y as int];
        let mut collided = false;
        let mut k: u8 = 0;
        proof {
            assert(xor_row_upto(row, x as int, byte, 0) =~= row);
            assert(before.update(y as int, row) =~= before);
        }
        while k < 8
            invariant
                k <= 8,
                0 <= x < mode.width(),
                0 <= y < mode.height(),
                self.mode() == mode,
                has_shape(before, mode),
                row == before[y as int],
                self@ == before.update(y as int, xor_row_upto(row, x as int, byte, k as int)),
                collided == row_hits_upto(row, x as int, byte, k as int),
            decreases 8 - k,
        {
            let ghost mid = self@;
            let ghost sofar = xor_row_upto(row, x as int, byte, k as int);
            let ghost c = (x + k) % mode.width();
            proof {
                lemma_row_step(row, mode, x as int, byte, k as int);
                assert(mid[y as int] == sofar);
                assert(rows(mid) == mode.height());
                assert(toggle_pixel(mid, x + k, y as int) == mid.update(
                    y as int,
                    sofar.update(c, !sofar[c]),
                ));
                assert(lit(mid, x + k, y as int) == sofar[c]);
            }
            if byte & (0x80u8 >> k) != 0 {
                if self.set_pixel(x + k as i32, y) {
                    collided = true;
                }
            }
            proof {
                assert(self@ =~= before.update(
                    y as int,
                    xor_row_upto(row, x as int, byte, k + 1),
                ));
            }
            k += 1;
        }
        proof {
            assert(xor_row_upto(row, x as int, byte, 8) =~= xor_row(row, x as int, byte));
        }
        collided
    }

    /// Draws `sprite_slice` with its top-left corner at `(x, y)`: one byte per
    /// row, top to bottom, the most significant bit leftmost. Every set bit
    /// inverts the pixel it wraps to. Returns true when any lit pixel went off.
    pub fn write_sprite(&mut self, x: i32, y: i32, sprite_slice: &[u8]) -> (collision: bool)
        ensures
            final(self).mode() == old(self).mode(),
            final(self)@ == blit(old(self)@, x as int, y as int, sprite_slice@),
            collision == collides(old(self)@, x as int, y as int, sprite_slice@),
    {
        let v_res = self.display_mode.get_v_res();
        let left = wrap_coordinate(x, self.display_mode.get_h_res());
        let top = wrap_coordinate(y, v_res);
        let ghost before = self@;
        let ghost mode = self.mode();
        let mut collision = false;
        let mut i: usize = 0;
        proof {
            assert(blit(before, x as int, y as int, sprite_slice@.take(0)) =~~= before);
        }
        while i < sprite_slice.len()
            invariant
                i <= sprite_slice.len(),
                self.mode() == mode,
                has_shape(before, mode),
                v_res == mode.height(),
                left == x as int % mode.width(),
                top == y as int % mode.height(),
                self@ == blit(before, x as int, y as int, sprite_slice@.take(i as int)),
                collision == collides(before, x as int, y as int, sprite_slice@.take(i as int)),
            decreases sprite_slice.len() - i,
        {
            let byte = sprite_slice[i];
            let row = wrapped_row(top, i, v_res);
            proof {
                lemma_step_from_wrapped(y as int, i as int, mode.height());
                lemma_blit_row(before, mode, x as int, y as int, sprite_slice@.take(i as int), byte);
                assert(sprite_slice@.take(i as int).push(byte) =~= sprite_slice@.take(i + 1));
            }
            if self.draw_row(left, row, byte) {
                collision = true;
            }
            i += 1;
        }
        proof {
            assert(sprite_slice@.take(sprite_slice@.len() as int) =~= sprite_slice@);
        }
        collision
    }
}

/// The remainder of the division that rounds towards zero, as `%` computes
/// it on machine integers.
spec fn truncated_remainder(v: int, n: int) -> int {
    if v >= 0 {
        v % n
    } else {
        -((-v) % n)
    }
}

/// A remainder below zero becomes the remainder of the mathematical division
/// when the divisor is added to it.
proof fn lemma_remainder_rolled_over(v: int, n: int)
    requires
        n > 0,
    ensures
        truncated_remainder(v, n) < 0 ==> truncated_remainder(v, n) + n == v % n,
        truncated_remainder(v, n) >= 0 ==> truncated_remainder(v, n) == v % n,
        0 <= v % n < n,
{
    lemma_mod_bound(v, n);
    if v < 0 {
        let q = (-v) / n;
        let r = (-v) % n;
        lemma_fundamental_div_mod(-v, n);
        assert(-v == n * q + r);
        if r == 0 {
            assert(v == (-q) * n + 0) by (nonlinear_arith)
                requires
                    -v == n * q + r,
                    r == 0,
            ;
            lemma_fundamental_div_mod_converse_mod(v, n, -q, 0);
        } else {
            assert(v == (-q - 1) * n + (n - r)) by (nonlinear_arith)
                requires
                    -v == n * q + r,
            ;
            lemma_fundamental_div_mod_converse_mod(v, n, -q - 1, n - r);
        }
    }
}

/// Rolls coordinate `v` over into `0..n`.
fn wrap_coordinate(v: i32, n: i32) -> (r: i32)
    requires
        n == 32 || n == 64 || n == 128,
    ensures
        0 <= r < n,
        r == v as int % n as int,
{
    let mut r = v % n;
    proof {
        assert(r == truncated_remainder(v as int, n as int));
        lemma_remainder_rolled_over(v as int, n as int);
    }
    if r < 0 {
        r += n;
    }
    r
}

/// The screen row that sprite row `i` lands on when the sprite's first row is
/// on row `top`.
fn wrapped_row(top: i32, i: usize, v_res: i32) -> (row: i32)
    requires
        v_res == 32 || v_res == 64,
        0 <= top < v_res,
    ensures
        row == (top + i) % (v_res as int),
{
    let step = (i % (v_res as usize)) as i32;
    proof {
        lemma_add_mod_noop_right(top as int, i as int, v_res as int);
    }
    (top + step) % v_res
}

/// `k` steps along an axis of length `n` from a wrapped coordinate end where
/// `k` steps from the coordinate itself do.
proof fn lemma_step_from_wrapped(x: int, k: int, n: int)
    requires
        n > 0,
    ensures
        (x % n + k) % n == (x + k) % n,
{
    lemma_add_mod_noop_right(k, x, n);
}

/// A column keeps its offset from the sprite's column when that is wrapped.
proof fn lemma_offset_from_wrapped(px: int, x: int, w: int)
    requires
        w > 0,
    ensures
        column_offset(px, x % w, w) == column_offset(px, x, w),
{
    lemma_sub_mod_noop_right(px, x, w);
}

/// Unfolds `flips` at the last row of a sprite.
proof fn lemma_flips_push(above: Seq<u8>, byte: u8, x: int, y: int, w: int, h: int, px: int, py: int)
    ensures
        flips(above.push(byte), x, y, w, h, px, py) == (flips(above, x, y, w, h, px, py) != ((y
            + above.len()) % h == py && sprite_bit(byte, column_offset(px, x, w)))),
{
    assert(above.push(byte).drop_last() =~= above);
}

/// One more pixel of a sprite row: what the `k`-th pixel of `byte` adds to the
/// first `k`.
proof fn lemma_row_step(row: Seq<bool>, mode: DisplayMode, x: int, byte: u8, k: int)
    requires
        row.len() == mode.width(),
        0 <= x < mode.width(),
        0 <= k < 8,
    ensures
        ({
            let c = (x + k) % mode.width();
            let sofar = xor_row_upto(row, x, byte, k);
            &&& sofar[c] == row[c]
            &&& sprite_bit(byte, k) ==> xor_row_upto(row, x, byte, k + 1) == sofar.update(
                c,
                !sofar[c],
            )
            &&& !sprite_bit(byte, k) ==> xor_row_upto(row, x, byte, k + 1) == sofar
            &&& row_hits_upto(row, x, byte, k + 1) == (row_hits_upto(row, x, byte, k) || (
            sprite_bit(byte, k) && row[c]))
        }),
{
    let w = mode.width();
    let c = (x + k) % w;
    let sofar = xor_row_upto(row, x, byte, k);
    let next = xor_row_upto(row, x, byte, k + 1);
    lemma_column_offset(c, x, k, w);
    assert forall|px: int| 0 <= px < w && px != c implies #[trigger] column_offset(px, x, w)
        != k by {
        lemma_column_offset(px, x, k, w);
    }
    if sprite_bit(byte, k) {
        assert(next =~= sofar.update(c, !sofar[c]));
    } else {
        assert(next =~= sofar);
    }
    if row_hits_upto(row, x, byte, k + 1) {
        let j = choose|j: int| 0 <= j < k + 1 && #[trigger] sprite_bit(byte, j) && row[(x + j) % w];
        if j < k {
            assert(row_hits_upto(row, x, byte, k));
        }
    }
    if row_hits_upto(row, x, byte, k) {
        let j = choose|j: int| 0 <= j < k && #[trigger] sprite_bit(byte, j) && row[(x + j) % w];
        assert(0 <= j < k + 1 && sprite_bit(byte, j) && row[(x + j) % w]);
    }
    if sprite_bit(byte, k) && row[c] {
        assert(0 <= k < k + 1 && sprite_bit(byte, k) && row[(x + k) % w]);
    }
}

/// One more row of a sprite: what drawing `byte` below the rows `above` adds.
proof fn lemma_blit_row(
    grid: Seq<Seq<bool>>,
    mode: DisplayMode,
    x: int,
    y: int,
    above: Seq<u8>,
    byte: u8,
)
    requires
        has_shape(grid, mode),
    ensures
        ({
            let wy = (y + above.len()) % mode.height();
            let wx = x % mode.width();
            let mid = blit(grid, x, y, above);
            &&& has_shape(mid, mode)
            &&& blit(grid, x, y, above.push(byte)) == mid.update(wy, xor_row(mid[wy], wx, byte))
            &&& collides(grid, x, y, above.push(byte)) == (collides(grid, x, y, above) || row_hits(
                mid[wy],
                wx,
                byte,
            ))
        }),
{
    let w = mode.width();
    let h = mode.height();
    let wy = (y + above.len()) % h;
    let wx = x % w;
    let mid = blit(grid, x, y, above);
    let whole = above.push(byte);
    let drawn = blit(grid, x, y, whole);
    let target = mid.update(wy, xor_row(mid[wy], wx, byte));
    assert(whole.drop_last() =~= above);
    assert(cols(grid) == w) by {
        assert(grid[0].len() == w);
    }
    assert(rows(grid) == h);
    assert forall|py: int| 0 <= py < h implies #[trigger] drawn[py] == target[py] by {
        assert(drawn[py].len() == w);
        assert(target[py].len() == w);
        assert forall|px: int| 0 <= px < w implies #[trigger] drawn[py][px] == target[py][px] by {
            lemma_offset_from_wrapped(px, x, w);
            lemma_flips_push(above, byte, x, y, w, h, px, py);
        }
        assert(drawn[py] =~= target[py]);
    }
    assert(drawn =~= target);
    if row_hits(mid[wy], wx, byte) {
        let k = choose|k: int|
            0 <= k < 8 && #[trigger] sprite_bit(byte, k) && mid[wy][(wx + k) % w];
        lemma_step_from_wrapped(x, k, w);
        assert(0 <= k < 8 && sprite_bit(byte, k) && mid[wy][(x + k) % w]);
    }
    if row_hits(mid[wy], x, byte) {
        let k = choose|k: int| 0 <= k < 8 && #[trigger] sprite_bit(byte, k) && mid[wy][(x + k) % w];
        lemma_step_from_wrapped(x, k, w);
        assert(0 <= k < 8 && sprite_bit(byte, k) && mid[wy][(wx + k) % w]);
    }
}

} // verus!
