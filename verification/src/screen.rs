//! The mathematical model of the screen and of sprite drawing.
//!
//! A screen is a `Seq<Seq<bool>>`: one inner sequence per pixel row, top row
//! first, each holding that row's pixels from left to right. Drawing never
//! overwrites: every set sprite pixel inverts the screen pixel it lands on,
//! and coordinates wrap around both edges.

use crate::display::DisplayMode;
use vstd::arithmetic::div_mod::{lemma_mod_bound, lemma_mod_equivalence, lemma_small_mod};
use vstd::prelude::*;

verus! {

/// Whether `grid` is a rectangle of exactly `mode`'s dimensions.
pub open spec fn has_shape(grid: Seq<Seq<bool>>, mode: DisplayMode) -> bool {
    &&& grid.len() == mode.height()
    &&& forall|y: int| 0 <= y < grid.len() ==> (#[trigger] grid[y]).len() == mode.width()
}

/// The screen of `mode`'s dimensions with every pixel off.
pub open spec fn blank(mode: DisplayMode) -> Seq<Seq<bool>> {
    Seq::new(mode.height() as nat, |y: int| Seq::new(mode.width() as nat, |x: int| false))
}

/// The screen of `grid`'s dimensions with every pixel off.
pub open spec fn cleared(grid: Seq<Seq<bool>>) -> Seq<Seq<bool>> {
    Seq::new(grid.len(), |y: int| Seq::new(grid[0].len(), |x: int| false))
}

/// Number of pixel rows of `grid`.
pub open spec fn rows(grid: Seq<Seq<bool>>) -> int {
    grid.len() as int
}

/// Number of pixel columns of `grid`.
pub open spec fn cols(grid: Seq<Seq<bool>>) -> int {
    grid[0].len() as int
}

/// The state of the pixel that coordinates `(x, y)` wrap to.
pub open spec fn lit(grid: Seq<Seq<bool>>, x: int, y: int) -> bool {
    grid[y % rows(grid)][x % cols(grid)]
}

/// `grid` with the pixel that `(x, y)` wraps to inverted.
pub open spec fn toggle_pixel(grid: Seq<Seq<bool>>, x: int, y: int) -> Seq<Seq<bool>> {
    let wy = y % rows(grid);
    let wx = x % cols(grid);
    grid.update(wy, grid[wy].update(wx, !grid[wy][wx]))
}

/// Whether pixel `k` of a sprite row is set, counting from the left: the most
/// significant bit of `byte` is pixel 0.
pub open spec fn sprite_bit(byte: u8, k: int) -> bool {
    0 <= k < 8 && byte & (0x80u8 >> (k as u8)) != 0
}

/// How many columns to the right of column `x` the column `px` lies on a
/// screen `w` pixels wide, going on from the right edge at column 0.
pub open spec fn column_offset(px: int, x: int, w: int) -> int {
    (px - x) % w
}

/// Whether any pixel of the sprite is set.
pub open spec fn has_set_bit(sprite: Seq<u8>) -> bool {
    exists|i: int, k: int| 0 <= i < sprite.len() && #[trigger] sprite_bit(sprite[i], k)
}

/// `row` after the eight pixels of `byte` are XORed onto it, the leftmost
/// at column `x` and the others following to the right, past the edge back to
/// column 0.
pub open spec fn xor_row(row: Seq<bool>, x: int, byte: u8) -> Seq<bool> {
    Seq::new(
        row.len(),
        |px: int| row[px] != sprite_bit(byte, column_offset(px, x, row.len() as int)),
    )
}

/// Whether XORing `byte` onto `row` at column `x` turns a lit pixel off.
pub open spec fn row_hits(row: Seq<bool>, x: int, byte: u8) -> bool {
    exists|k: int| 0 <= k < 8 && #[trigger] sprite_bit(byte, k) && row[(x + k) % (row.len() as int)]
}

/// Whether drawing `sprite` with its top-left corner at `(x, y)` on a screen
/// of `w` by `h` pixels inverts pixel `(px, py)`: whether an odd number of set
/// sprite pixels land on it.
pub open spec fn flips(sprite: Seq<u8>, x: int, y: int, w: int, h: int, px: int, py: int) -> bool
    decreases sprite.len(),
{
    if sprite.len() == 0 {
        false
    } else {
        let i = sprite.len() - 1;
        flips(sprite.drop_last(), x, y, w, h, px, py) != ((y + i) % h == py && sprite_bit(
            sprite[i],
            column_offset(px, x, w),
        ))
    }
}

/// `grid` after `sprite` is drawn with its top-left corner at `(x, y)`: each
/// byte is one row of eight pixels, rows run downwards, and every set sprite
/// pixel inverts the screen pixel it wraps to.
pub open spec fn blit(grid: Seq<Seq<bool>>, x: int, y: int, sprite: Seq<u8>) -> Seq<Seq<bool>> {
    Seq::new(
        grid.len(),
        |py: int|
            Seq::new(
                grid[0].len(),
                |px: int| grid[py][px] != flips(sprite, x, y, cols(grid), rows(grid), px, py),
            ),
    )
}

/// Whether drawing `sprite` at `(x, y)` turns off a pixel that is lit at the
/// moment the sprite row reaches it. Rows are drawn top to bottom, so a row
/// meets the screen as the rows above it have left it.
pub open spec fn collides(grid: Seq<Seq<bool>>, x: int, y: int, sprite: Seq<u8>) -> bool
    decreases sprite.len(),
{
    if sprite.len() == 0 {
        false
    } else {
        let i = sprite.len() - 1;
        let above = sprite.drop_last();
        collides(grid, x, y, above) || row_hits(
            blit(grid, x, y, above)[(y + i) % rows(grid)],
            x,
            sprite[i],
        )
    }
}

/// Whether some set pixel of `sprite`, drawn with its top-left corner at
/// `(x, y)` on a screen of `w` by `h` pixels, lands on pixel `(px, py)`.
pub open spec fn covers(sprite: Seq<u8>, x: int, y: int, w: int, h: int, px: int, py: int) -> bool {
    exists|i: int|
        0 <= i < sprite.len() && (y + i) % h == py && #[trigger] sprite_bit(
            sprite[i],
            column_offset(px, x, w),
        )
}

/// Whether some set pixel of `sprite`, drawn with its top-left corner at
/// `(x, y)`, lands on a pixel of `grid` that is on.
pub open spec fn overlaps(grid: Seq<Seq<bool>>, x: int, y: int, sprite: Seq<u8>) -> bool {
    exists|i: int, k: int|
        0 <= i < sprite.len() && 0 <= k < 8 && #[trigger] sprite_bit(sprite[i], k) && lit(
            grid,
            x + k,
            y + i,
        )
}

/// Two sprite rows less than a screen height apart land on different screen
/// rows.
proof fn lemma_rows_apart(mode: DisplayMode, y: int, i: int, j: int)
    requires
        0 <= j < i < j + mode.height(),
    ensures
        (y + j) % mode.height() != (y + i) % mode.height(),
{
    let h = mode.height();
    lemma_mod_equivalence(y + i, y + j, h);
    lemma_small_mod((i - j) as nat, h as nat);
}

/// Exactly one column of a screen `w` pixels wide lies `k` columns right of
/// column `x`, for `k` below `w`: the column that `x + k` wraps to.
pub proof fn lemma_column_offset(px: int, x: int, k: int, w: int)
    requires
        0 <= k < w,
        0 <= px < w,
    ensures
        column_offset(px, x, w) == k <==> px == (x + k) % w,
        0 <= (x + k) % w < w,
{
    lemma_mod_bound(x + k, w);
    lemma_small_mod(k as nat, w as nat);
    lemma_small_mod(px as nat, w as nat);
    lemma_mod_equivalence(px - x, k, w);
    lemma_mod_equivalence(px, x + k, w);
}

/// The screen pixel that pixel `k` of a sprite row lands on lies `k` columns
/// right of the sprite's column, and every wrapped coordinate is on the screen.
proof fn lemma_landing(mode: DisplayMode, x: int, y: int, k: int)
    requires
        0 <= k < 8,
    ensures
        column_offset((x + k) % mode.width(), x, mode.width()) == k,
        0 <= (x + k) % mode.width() < mode.width(),
        0 <= y % mode.height() < mode.height(),
{
    let w = mode.width();
    lemma_mod_bound(x + k, w);
    lemma_mod_bound(y, mode.height());
    lemma_column_offset((x + k) % w, x, k, w);
}

/// Drawing keeps the shape of the screen.
pub proof fn lemma_blit_shape(grid: Seq<Seq<bool>>, mode: DisplayMode, x: int, y: int, sprite: Seq<u8>)
    requires
        has_shape(grid, mode),
    ensures
        has_shape(blit(grid, x, y, sprite), mode),
        rows(blit(grid, x, y, sprite)) == mode.height(),
        cols(blit(grid, x, y, sprite)) == mode.width(),
        rows(grid) == mode.height(),
        cols(grid) == mode.width(),
{
    assert(grid[0].len() == mode.width());
}

/// Drawing the same sprite twice at the same place restores the screen: every
/// pixel that the first drawing inverted is inverted back by the second.
pub proof fn lemma_draw_twice_restores(
    grid: Seq<Seq<bool>>,
    mode: DisplayMode,
    x: int,
    y: int,
    sprite: Seq<u8>,
)
    requires
        has_shape(grid, mode),
    ensures
        blit(blit(grid, x, y, sprite), x, y, sprite) == grid,
{
    let once = blit(grid, x, y, sprite);
    let twice = blit(once, x, y, sprite);
    lemma_blit_shape(grid, mode, x, y, sprite);
    lemma_blit_shape(once, mode, x, y, sprite);
    assert forall|py: int| 0 <= py < mode.height() implies #[trigger] twice[py] == grid[py] by {
        assert(once[py].len() == mode.width());
        assert(twice[py] =~= grid[py]);
    }
    assert(twice =~= grid);
}

/// A sprite without a set pixel leaves its rows above without one too.
proof fn lemma_rows_above_blank(sprite: Seq<u8>)
    requires
        sprite.len() > 0,
        !has_set_bit(sprite),
    ensures
        !has_set_bit(sprite.drop_last()),
        forall|k: int| !#[trigger] sprite_bit(sprite.last(), k),
{
    let above = sprite.drop_last();
    if has_set_bit(above) {
        let (i, k) = choose|i: int, k: int| 0 <= i < above.len() && #[trigger] sprite_bit(above[i], k);
        assert(0 <= i < sprite.len() && sprite_bit(sprite[i], k));
    }
    assert forall|k: int| !#[trigger] sprite_bit(sprite.last(), k) by {
        if sprite_bit(sprite.last(), k) {
            assert(0 <= sprite.len() - 1 < sprite.len() && sprite_bit(sprite[sprite.len() - 1], k));
        }
    }
}

/// A sprite without a set pixel inverts no pixel.
proof fn lemma_blank_sprite_flips_nothing(
    sprite: Seq<u8>,
    x: int,
    y: int,
    w: int,
    h: int,
    px: int,
    py: int,
)
    requires
        !has_set_bit(sprite),
    ensures
        !flips(sprite, x, y, w, h, px, py),
    decreases sprite.len(),
{
    if sprite.len() > 0 {
        lemma_rows_above_blank(sprite);
        lemma_blank_sprite_flips_nothing(sprite.drop_last(), x, y, w, h, px, py);
    }
}

/// A sprite with no rows, or with no set pixel in any row, changes nothing
/// and reports no collision, whatever the screen shows.
pub proof fn lemma_blank_sprite_changes_nothing(
    grid: Seq<Seq<bool>>,
    mode: DisplayMode,
    x: int,
    y: int,
    sprite: Seq<u8>,
)
    requires
        has_shape(grid, mode),
        !has_set_bit(sprite),
    ensures
        blit(grid, x, y, sprite) == grid,
        !collides(grid, x, y, sprite),
    decreases sprite.len(),
{
    let drawn = blit(grid, x, y, sprite);
    assert forall|py: int| 0 <= py < mode.height() implies #[trigger] drawn[py] == grid[py] by {
        assert forall|px: int| 0 <= px < mode.width() implies #[trigger] drawn[py][px]
            == grid[py][px] by {
            lemma_blank_sprite_flips_nothing(sprite, x, y, mode.width(), mode.height(), px, py);
        }
        assert(drawn[py] =~= grid[py]);
    }
    assert(drawn =~= grid);
    if sprite.len() > 0 {
        lemma_rows_above_blank(sprite);
        lemma_blank_sprite_changes_nothing(grid, mode, x, y, sprite.drop_last());
    }
}

/// On a sprite no taller than the screen no two rows share a screen row, so a
/// pixel is inverted exactly when a set sprite pixel lands on it.
proof fn lemma_flips_is_covers(sprite: Seq<u8>, mode: DisplayMode, x: int, y: int, px: int, py: int)
    requires
        sprite.len() <= mode.height(),
    ensures
        flips(sprite, x, y, mode.width(), mode.height(), px, py) == covers(
            sprite,
            x,
            y,
            mode.width(),
            mode.height(),
            px,
            py,
        ),
    decreases sprite.len(),
{
    let w = mode.width();
    let h = mode.height();
    if sprite.len() > 0 {
        let above = sprite.drop_last();
        let i = sprite.len() - 1;
        let k = column_offset(px, x, w);
        lemma_flips_is_covers(above, mode, x, y, px, py);
        if covers(above, x, y, w, h, px, py) {
            let j = choose|j: int|
                0 <= j < above.len() && (y + j) % h == py && #[trigger] sprite_bit(above[j], k);
            assert(above[j] == sprite[j]);
            lemma_rows_apart(mode, y, i, j);
            assert(sprite_bit(sprite[j], k));
        }
        if covers(sprite, x, y, w, h, px, py) {
            let j = choose|j: int|
                0 <= j < sprite.len() && (y + j) % h == py && #[trigger] sprite_bit(sprite[j], k);
            if j < i {
                assert(above[j] == sprite[j]);
                lemma_rows_apart(mode, y, i, j);
                assert(sprite_bit(above[j], k));
            }
        }
        if (y + i) % h == py && sprite_bit(sprite[i], k) {
            assert(covers(sprite, x, y, w, h, px, py));
        }
    }
}

/// How a sprite no taller than the screen changes it: a pixel is inverted
/// exactly when a set sprite pixel lands on it, and is left alone otherwise.
pub proof fn lemma_fitting_sprite_pixels(
    grid: Seq<Seq<bool>>,
    mode: DisplayMode,
    x: int,
    y: int,
    sprite: Seq<u8>,
    px: int,
    py: int,
)
    requires
        has_shape(grid, mode),
        sprite.len() <= mode.height(),
        0 <= px < mode.width(),
        0 <= py < mode.height(),
    ensures
        blit(grid, x, y, sprite)[py][px] == (grid[py][px] != covers(
            sprite,
            x,
            y,
            mode.width(),
            mode.height(),
            px,
            py,
        )),
{
    lemma_flips_is_covers(sprite, mode, x, y, px, py);
}

/// Where the pixels of a sprite no taller than the screen land: pixel `k` of
/// row `i` inverts the screen pixel in column `(x + k) mod width` of row
/// `(y + i) mod height`, past the right and bottom edges back to the left and top.
pub proof fn lemma_sprite_pixel_wraps(
    grid: Seq<Seq<bool>>,
    mode: DisplayMode,
    x: int,
    y: int,
    sprite: Seq<u8>,
    i: int,
    k: int,
)
    requires
        has_shape(grid, mode),
        sprite.len() <= mode.height(),
        0 <= i < sprite.len(),
        0 <= k < 8,
    ensures
        lit(blit(grid, x, y, sprite), x + k, y + i) == (lit(grid, x + k, y + i) != sprite_bit(
            sprite[i],
            k,
        )),
{
    let w = mode.width();
    let h = mode.height();
    let px = (x + k) % w;
    let py = (y + i) % h;
    lemma_landing(mode, x, y + i, k);
    lemma_fitting_sprite_pixels(grid, mode, x, y, sprite, px, py);
    if covers(sprite, x, y, w, h, px, py) {
        let j = choose|j: int|
            0 <= j < sprite.len() && (y + j) % h == py && #[trigger] sprite_bit(sprite[j], k);
        if j < i {
            lemma_rows_apart(mode, y, i, j);
        }
        if i < j {
            lemma_rows_apart(mode, y, j, i);
        }
    }
    if sprite_bit(sprite[i], k) {
        assert(covers(sprite, x, y, w, h, px, py));
    }
}

/// When a sprite no taller than the screen collides: exactly when one of its
/// set pixels lands on a pixel that is on before the drawing starts.
pub proof fn lemma_fitting_sprite_collision(
    grid: Seq<Seq<bool>>,
    mode: DisplayMode,
    x: int,
    y: int,
    sprite: Seq<u8>,
)
    requires
        has_shape(grid, mode),
        sprite.len() <= mode.height(),
    ensures
        collides(grid, x, y, sprite) == overlaps(grid, x, y, sprite),
    decreases sprite.len(),
{
    let w = mode.width();
    let h = mode.height();
    if sprite.len() > 0 {
        let above = sprite.drop_last();
        let i = sprite.len() - 1;
        let wy = (y + i) % h;
        let mid = blit(grid, x, y, above);
        lemma_fitting_sprite_collision(grid, mode, x, y, above);
        lemma_landing(mode, x, y + i, 0);
        // the rows above leave row `wy` as it was
        assert forall|k: int| 0 <= k < 8 implies mid[wy][(x + k) % w] == #[trigger] lit(
            grid,
            x + k,
            y + i,
        ) by {
            let px = (x + k) % w;
            lemma_landing(mode, x, y, k);
            lemma_fitting_sprite_pixels(grid, mode, x, y, above, px, wy);
            if covers(above, x, y, w, h, px, wy) {
                let j = choose|j: int|
                    0 <= j < above.len() && (y + j) % h == wy && #[trigger] sprite_bit(
                        above[j],
                        column_offset(px, x, w),
                    );
                lemma_rows_apart(mode, y, i, j);
            }
        }
        if overlaps(grid, x, y, above) {
            let (j, k) = choose|j: int, k: int|
                0 <= j < above.len() && 0 <= k < 8 && #[trigger] sprite_bit(above[j], k) && lit(
                    grid,
                    x + k,
                    y + j,
                );
            assert(sprite_bit(sprite[j], k) && lit(grid, x + k, y + j));
        }
        if row_hits(mid[wy], x, sprite[i]) {
            let k = choose|k: int|
                0 <= k < 8 && #[trigger] sprite_bit(sprite[i], k) && mid[wy][(x + k) % w];
            assert(lit(grid, x + k, y + i));
            assert(sprite_bit(sprite[i], k) && lit(grid, x + k, y + i));
        }
        if overlaps(grid, x, y, sprite) {
            let (j, k) = choose|j: int, k: int|
                0 <= j < sprite.len() && 0 <= k < 8 && #[trigger] sprite_bit(sprite[j], k) && lit(
                    grid,
                    x + k,
                    y + j,
                );
            if j < i {
                assert(sprite_bit(above[j], k) && lit(grid, x + k, y + j));
            } else {
                assert(lit(grid, x + k, y + i));
                assert(sprite_bit(sprite[i], k) && mid[wy][(x + k) % w]);
            }
        }
    } else {
        assert(!overlaps(grid, x, y, sprite));
    }
}

/// Drawing a sprite no taller than the screen onto a blank screen reports no
/// collision; drawing it again at the same place reports a collision exactly
/// when the sprite has a set pixel, and leaves the screen blank again.
pub proof fn lemma_draw_then_erase(mode: DisplayMode, x: int, y: int, sprite: Seq<u8>)
    requires
        sprite.len() <= mode.height(),
    ensures
        !collides(blank(mode), x, y, sprite),
        collides(blit(blank(mode), x, y, sprite), x, y, sprite) == has_set_bit(sprite),
        blit(blit(blank(mode), x, y, sprite), x, y, sprite) == blank(mode),
{
    let empty = blank(mode);
    let drawn = blit(empty, x, y, sprite);
    lemma_draw_twice_restores(empty, mode, x, y, sprite);
    lemma_fitting_sprite_collision(empty, mode, x, y, sprite);
    lemma_fitting_sprite_collision(drawn, mode, x, y, sprite);
    if overlaps(empty, x, y, sprite) {
        let (i, k) = choose|i: int, k: int|
            0 <= i < sprite.len() && 0 <= k < 8 && #[trigger] sprite_bit(sprite[i], k) && lit(
                empty,
                x + k,
                y + i,
            );
        lemma_landing(mode, x, y + i, k);
    }
    if overlaps(drawn, x, y, sprite) {
        let (i, k) = choose|i: int, k: int|
            0 <= i < sprite.len() && 0 <= k < 8 && #[trigger] sprite_bit(sprite[i], k) && lit(
                drawn,
                x + k,
                y + i,
            );
        assert(has_set_bit(sprite));
    }
    if has_set_bit(sprite) {
        let (i, k) = choose|i: int, k: int|
            0 <= i < sprite.len() && #[trigger] sprite_bit(sprite[i], k);
        lemma_sprite_pixel_wraps(empty, mode, x, y, sprite, i, k);
        lemma_landing(mode, x, y + i, k);
        assert(!lit(empty, x + k, y + i));
        assert(sprite_bit(sprite[i], k) && lit(drawn, x + k, y + i));
    }
}

} // verus!
