//! The loops that change one plane of the display, cell by cell.

use crate::screen::{
    collides, erases, row_bit, scrolled_down, scrolled_left, scrolled_right, scrolled_up, sprite_lit,
    sprite_offset, stamped, Sprite,
};
use vstd::prelude::*;

verus! {

/// Whether the two numbers are the width and the height of one of the two
/// resolutions.
pub open spec fn is_resolution(w: int, h: int) -> bool {
    (w == 64 && h == 32) || (w == 128 && h == 64)
}

/// The number of visible cells at each resolution.
pub proof fn lemma_cells(w: int, h: int)
    requires
        is_resolution(w, h),
    ensures
        w * h == if w == 64 {
            2048int
        } else {
            8192int
        },
{
    if w == 64 {
        assert(w * h == 2048) by (nonlinear_arith)
            requires
                w == 64,
                h == 32,
        ;
    } else {
        assert(w * h == 8192) by (nonlinear_arith)
            requires
                w == 128,
                h == 64,
        ;
    }
}

/// A visible cell lies in a column and on a line of the screen, and on the
/// line `line` exactly if it is stored in the stretch that starts at
/// `line * w`.
proof fn lemma_index_of_cell(w: int, h: int, line: int, i: int)
    requires
        is_resolution(w, h),
        0 <= line < h,
        0 <= i < w * h,
    ensures
        0 <= i % w < w,
        0 <= i / w < h,
        (line * w <= i < line * w + w) <==> i / w == line,
        i / w == line ==> i % w == i - line * w,
        0 <= line * w,
        line * w + w <= w * h,
{
    lemma_cells(w, h);
    if w == 64 {
        assert(0 <= i / 64 < 32 && i == (i / 64) * 64 + i % 64);
        assert(line * w == line * 64);
    } else {
        assert(0 <= i / 128 < 64 && i == (i / 128) * 128 + i % 128);
        assert(line * w == line * 128);
    }
}

/// Column (or row) `k` of a sprite lands on the screen column (or line)
/// `landing`, and only there.
proof fn lemma_lands(origin: int, dim: int, wraps: bool, k: int, landing: int, c: int)
    requires
        0 <= origin < dim,
        0 <= k < dim,
        wraps || origin + k < dim,
        landing == if origin + k >= dim {
            origin + k - dim
        } else {
            origin + k
        },
        0 <= c < dim,
    ensures
        sprite_offset(origin, c, dim, wraps) == k <==> c == landing,
{
}

/// Whether a sprite row that starts at column `x` has a set pixel, among its
/// first `limit`, that lands on screen column `cx`.
#[verifier::opaque]
spec fn col_before(x: int, w: int, wraps: bool, row: u16, bits: int, limit: int, cx: int) -> bool {
    let col = sprite_offset(x, cx, w, wraps);
    0 <= col < bits && col < limit && row_bit(row, bits, col)
}

/// What drawing pixel `col` of a sprite row adds to the column `cx`: on the
/// column it lands on, the pixel; elsewhere, nothing.
#[verifier::rlimit(40)]
proof fn lemma_col_step(
    x: int,
    w: int,
    wraps: bool,
    row: u16,
    bits: int,
    col: int,
    next: int,
    x_cord: int,
    cx: int,
)
    requires
        w == 64 || w == 128,
        0 <= x < w,
        bits == 8 || bits == 16,
        0 <= col < bits,
        next == col + 1,
        wraps || x + col < w,
        x_cord == if x + col >= w {
            x + col - w
        } else {
            x + col
        },
        0 <= cx < w,
    ensures
        cx == x_cord ==> !col_before(x, w, wraps, row, bits, col, cx) && col_before(
            x,
            w,
            wraps,
            row,
            bits,
            next,
            cx,
        ) == row_bit(row, bits, col),
        cx != x_cord ==> col_before(x, w, wraps, row, bits, next, cx) == col_before(
            x,
            w,
            wraps,
            row,
            bits,
            col,
            cx,
        ),
{
    reveal(col_before);
    lemma_lands(x, w, wraps, col, x_cord, cx);
}

/// XORs one sprite row onto the line of the plane that starts at `base`.
/// Returns whether that unset a pixel.
#[verifier::rlimit(40)]
fn stamp_row(
    plane: &mut [bool; 8192],
    w: usize,
    wraps: bool,
    x: usize,
    base: usize,
    row: u16,
    bits: usize,
) -> (erased: bool)
    requires
        w == 64 || w == 128,
        x < w,
        base + w <= 8192,
        bits == 8 || bits == 16,
    ensures
        forall|i: int|
            base <= i < base + w ==> final(plane)@[i] == (old(plane)@[i] != col_before(
                x as int,
                w as int,
                wraps,
                row,
                bits as int,
                bits as int,
                i - base,
            )),
        forall|i: int| 0 <= i < 8192 && !(base <= i < base + w) ==> final(plane)@[i] == old(plane)@[i],
        erased == exists|i: int|
            base <= i < base + w && old(plane)@[i] && col_before(
                x as int,
                w as int,
                wraps,
                row,
                bits as int,
                bits as int,
                i - base,
            ),
{
    let ghost before = plane@;
    let ghost xi = x as int;
    let ghost wi = w as int;
    let ghost bi = bits as int;
    let mut erased = false;
    let mut col: usize = 0;
    proof {
        reveal(col_before);
    }
    while col < bits
        invariant
            w == 64 || w == 128,
            x < w,
            base + w <= 8192,
            bits == 8 || bits == 16,
            col <= bits,
            xi == x,
            wi == w,
            bi == bits,
            forall|i: int|
                base <= i < base + w ==> plane@[i] == (before[i] != col_before(
                    xi,
                    wi,
                    wraps,
                    row,
                    bi,
                    col as int,
                    i - base,
                )),
            forall|i: int| 0 <= i < 8192 && !(base <= i < base + w) ==> plane@[i] == before[i],
            erased == exists|i: int|
                base <= i < base + w && before[i] && col_before(xi, wi, wraps, row, bi, col as int, i - base),
        ensures
            col == bits || (!wraps && x + col >= w),
        decreases bits - col,
    {
        let mut x_cord: usize = x + col;
        if x_cord >= w {
            if wraps {
                x_cord = x_cord - w;
            } else {
                break ;
            }
        }
        let coord: usize = base + x_cord;
        let is_current_pixel_set: bool = plane[coord];
        let is_new_pixel_set: bool = ((row >> ((bits - 1 - col) as u16)) & 1) == 1;
        let ghost middle = plane@;
        let ghost erased_before = erased;
        plane[coord] = is_current_pixel_set != is_new_pixel_set;
        if is_current_pixel_set && is_new_pixel_set {
            erased = true;
        }
        proof {
            let done = col as int;
            let next = col + 1;
            assert(is_new_pixel_set == row_bit(row, bi, done));
            assert forall|i: int| base <= i < base + w implies plane@[i] == (before[i] != col_before(
                xi,
                wi,
                wraps,
                row,
                bi,
                next,
                i - base,
            )) by {
                lemma_col_step(xi, wi, wraps, row, bi, done, next, x_cord as int, i - base);
                assert(middle[i] == (before[i] != col_before(xi, wi, wraps, row, bi, done, i - base)));
            }
            lemma_col_step(xi, wi, wraps, row, bi, done, next, x_cord as int, x_cord as int);
            assert(middle[coord as int] == (before[coord as int] != col_before(
                xi,
                wi,
                wraps,
                row,
                bi,
                done,
                coord - base,
            )));
            if erased_before {
                let i = choose|i: int|
                    base <= i < base + w && before[i] && col_before(xi, wi, wraps, row, bi, done, i - base);
                lemma_col_step(xi, wi, wraps, row, bi, done, next, x_cord as int, i - base);
                assert(base <= i < base + w && before[i] && col_before(
                    xi,
                    wi,
                    wraps,
                    row,
                    bi,
                    next,
                    i - base,
                ));
            }
            if is_current_pixel_set && is_new_pixel_set {
                let i = coord as int;
                assert(base <= i < base + w && before[i] && col_before(
                    xi,
                    wi,
                    wraps,
                    row,
                    bi,
                    next,
                    i - base,
                ));
            }
            if exists|i: int|
                base <= i < base + w && before[i] && col_before(xi, wi, wraps, row, bi, next, i - base) {
                let i = choose|i: int|
                    base <= i < base + w && before[i] && col_before(xi, wi, wraps, row, bi, next, i - base);
                lemma_col_step(xi, wi, wraps, row, bi, done, next, x_cord as int, i - base);
                if i != coord {
                    assert(base <= i < base + w && before[i] && col_before(
                        xi,
                        wi,
                        wraps,
                        row,
                        bi,
                        done,
                        i - base,
                    ));
                }
            }
        }
        col += 1;
    }
    proof {
        reveal(col_before);
        let done = col as int;
        assert forall|i: int| base <= i < base + w implies col_before(
            xi,
            wi,
            wraps,
            row,
            bi,
            done,
            i - base,
        ) == #[trigger] col_before(xi, wi, wraps, row, bi, bi, i - base) by {}
    }
    erased
}

/// Whether the sprite has a set pixel, in one of its first `limit` rows, that
/// lands on the screen cell stored at index `i`.
#[verifier::opaque]
spec fn lit_before(sprite: Sprite, w: int, h: int, wraps: bool, limit: int, i: int) -> bool {
    sprite_lit(sprite, w, h, wraps, i % w, i / w) && sprite_offset(sprite.y, i / w, h, wraps) < limit
}

/// What drawing row `row` of a sprite on line `y_cord` adds to the cell at
/// `i`: on that line, the row's set pixels; elsewhere, nothing.
#[verifier::rlimit(40)]
proof fn lemma_stamp_step(
    sprite: Sprite,
    w: int,
    h: int,
    wraps: bool,
    row: int,
    next: int,
    y_cord: int,
    base: int,
    i: int,
)
    requires
        is_resolution(w, h),
        0 <= sprite.x < w,
        0 <= sprite.y < h,
        sprite.rows.len() <= 32,
        0 <= row < sprite.rows.len(),
        next == row + 1,
        wraps || sprite.y + row < h,
        y_cord == if sprite.y + row >= h {
            sprite.y + row - h
        } else {
            sprite.y + row
        },
        base == y_cord * w,
        0 <= i < w * h,
    ensures
        base <= i < base + w ==> !lit_before(sprite, w, h, wraps, row, i) && lit_before(
            sprite,
            w,
            h,
            wraps,
            next,
            i,
        ) == col_before(sprite.x, w, wraps, sprite.rows[row], sprite.bits, sprite.bits, i - base),
        !(base <= i < base + w) ==> lit_before(sprite, w, h, wraps, next, i) == lit_before(
            sprite,
            w,
            h,
            wraps,
            row,
            i,
        ),
{
    reveal(lit_before);
    reveal(col_before);
    lemma_index_of_cell(w, h, y_cord, i);
    lemma_lands(sprite.y, h, wraps, row, y_cord, i / w);
}

/// Once every row that reaches the screen was drawn, the rows drawn so far
/// are the whole sprite.
proof fn lemma_stamp_done(sprite: Sprite, w: int, h: int, wraps: bool, row: int, i: int)
    requires
        is_resolution(w, h),
        0 <= sprite.x < w,
        0 <= sprite.y < h,
        0 <= row <= sprite.rows.len(),
        row == sprite.rows.len() || (!wraps && sprite.y + row >= h),
        0 <= i < w * h,
    ensures
        lit_before(sprite, w, h, wraps, row, i) == sprite_lit(sprite, w, h, wraps, i % w, i / w),
{
    reveal(lit_before);
    lemma_index_of_cell(w, h, 0, i);
}

/// Before any row is drawn, nothing of the sprite is on the screen.
proof fn lemma_stamp_start(sprite: Sprite, w: int, h: int, wraps: bool, i: int)
    ensures
        !lit_before(sprite, w, h, wraps, 0, i),
{
    reveal(lit_before);
}

/// XORs a sprite onto a plane whose visible part has `w` columns and `h`
/// lines. Returns whether that unset a pixel.
#[verifier::rlimit(40)]
pub fn stamp_rows(
    plane: &mut [bool; 8192],
    w: usize,
    h: usize,
    wraps: bool,
    x: usize,
    y: usize,
    rows: &[u16],
    bits: usize,
) -> (erased: bool)
    requires
        is_resolution(w as int, h as int),
        x < w,
        y < h,
        rows@.len() <= 32,
        bits == 8 || bits == 16,
    ensures
        final(plane)@ == stamped(
            old(plane)@,
            w as int,
            h as int,
            wraps,
            Sprite { x: x as int, y: y as int, rows: rows@, bits: bits as int },
        ),
        erased == collides(
            old(plane)@,
            w as int,
            h as int,
            wraps,
            Sprite { x: x as int, y: y as int, rows: rows@, bits: bits as int },
        ),
{
    let ghost before = plane@;
    let ghost sprite = Sprite { x: x as int, y: y as int, rows: rows@, bits: bits as int };
    let ghost wi = w as int;
    let ghost hi = h as int;
    let ghost cells = wi * hi;
    let mut pixel_erased = false;
    let mut row: usize = 0;
    proof {
        lemma_cells(wi, hi);
        assert forall|i: int| !#[trigger] lit_before(sprite, wi, hi, wraps, 0, i) by {
            lemma_stamp_start(sprite, wi, hi, wraps, i);
        }
    }
    while row < rows.len()
        invariant
            is_resolution(wi, hi),
            x < w,
            y < h,
            rows@.len() <= 32,
            bits == 8 || bits == 16,
            row <= rows@.len(),
            wi == w,
            hi == h,
            cells == wi * hi,
            cells == 2048 || cells == 8192,
            sprite == (Sprite { x: x as int, y: y as int, rows: rows@, bits: bits as int }),
            forall|i: int|
                0 <= i < cells ==> plane@[i] == (before[i] != lit_before(
                    sprite,
                    wi,
                    hi,
                    wraps,
                    row as int,
                    i,
                )),
            forall|i: int| cells <= i < 8192 ==> plane@[i] == before[i],
            pixel_erased == exists|i: int|
                0 <= i < cells && before[i] && lit_before(sprite, wi, hi, wraps, row as int, i),
        ensures
            row == rows@.len() || (!wraps && y + row >= h),
        decreases rows@.len() - row,
    {
        let mut y_cord: usize = y + row;
        if y_cord >= h {
            if wraps {
                y_cord = y_cord - h;
            } else {
                break ;
            }
        }
        proof {
            lemma_index_of_cell(wi, hi, y_cord as int, 0);
        }
        let base: usize = y_cord * w;
        let ghost middle = plane@;
        let ghost erased_before = pixel_erased;
        let erased_in_row = stamp_row(plane, w, wraps, x, base, rows[row], bits);
        pixel_erased = pixel_erased || erased_in_row;
        proof {
            let done = row as int;
            let next = row + 1;
            let yc = y_cord as int;
            let bs = base as int;
            let pattern = rows@[row as int];
            let bi = bits as int;
            assert forall|i: int| 0 <= i < cells implies plane@[i] == (before[i] != lit_before(
                sprite,
                wi,
                hi,
                wraps,
                next,
                i,
            )) by {
                lemma_stamp_step(sprite, wi, hi, wraps, done, next, yc, bs, i);
                assert(middle[i] == (before[i] != lit_before(sprite, wi, hi, wraps, done, i)));
            }
            if erased_before {
                let i = choose|i: int|
                    0 <= i < cells && before[i] && lit_before(sprite, wi, hi, wraps, done, i);
                lemma_stamp_step(sprite, wi, hi, wraps, done, next, yc, bs, i);
                assert(0 <= i < cells && before[i] && lit_before(sprite, wi, hi, wraps, next, i));
            }
            if erased_in_row {
                let i = choose|i: int|
                    bs <= i < bs + w && middle[i] && col_before(x as int, wi, wraps, pattern, bi, bi, i - bs);
                lemma_stamp_step(sprite, wi, hi, wraps, done, next, yc, bs, i);
                assert(middle[i] == (before[i] != lit_before(sprite, wi, hi, wraps, done, i)));
                assert(0 <= i < cells && before[i] && lit_before(sprite, wi, hi, wraps, next, i));
            }
            if exists|i: int| 0 <= i < cells && before[i] && lit_before(sprite, wi, hi, wraps, next, i) {
                let i = choose|i: int|
                    0 <= i < cells && before[i] && lit_before(sprite, wi, hi, wraps, next, i);
                lemma_stamp_step(sprite, wi, hi, wraps, done, next, yc, bs, i);
                assert(middle[i] == (before[i] != lit_before(sprite, wi, hi, wraps, done, i)));
                if bs <= i < bs + w {
                    assert(bs <= i < bs + w && middle[i] && col_before(
                        x as int,
                        wi,
                        wraps,
                        pattern,
                        bi,
                        bi,
                        i - bs,
                    ));
                } else {
                    assert(0 <= i < cells && before[i] && lit_before(sprite, wi, hi, wraps, done, i));
                }
            }
        }
        row += 1;
    }
    proof {
        let done = row as int;
        assert forall|i: int| 0 <= i < cells implies #[trigger] lit_before(
            sprite,
            wi,
            hi,
            wraps,
            done,
            i,
        ) == sprite_lit(sprite, wi, hi, wraps, i % wi, i / wi) by {
            lemma_stamp_done(sprite, wi, hi, wraps, done, i);
        }
        assert(plane@ =~= stamped(before, wi, hi, wraps, sprite));
        if pixel_erased {
            let i = choose|i: int|
                0 <= i < cells && before[i] && lit_before(sprite, wi, hi, wraps, done, i);
            assert(erases(before, wi, hi, wraps, sprite, i));
        }
        if collides(before, wi, hi, wraps, sprite) {
            let i = choose|i: int| erases(before, wi, hi, wraps, sprite, i);
            assert(0 <= i < cells && before[i] && lit_before(sprite, wi, hi, wraps, done, i));
        }
    }
    pixel_erased
}

/// Moves the visible content of a plane down by `lines` lines.
pub fn scroll_plane_down(plane: &mut [bool; 8192], w: usize, h: usize, lines: usize)
    requires
        is_resolution(w as int, h as int),
        lines <= 255,
    ensures
        final(plane)@ == scrolled_down(old(plane)@, w as int, h as int, lines as int),
{
    let ghost before = plane@;
    proof {
        lemma_cells(w as int, h as int);
        assert(lines * w <= 255 * 128) by (nonlinear_arith)
            requires
                lines <= 255,
                w <= 128,
        ;
    }
    let cells: usize = w * h;
    let shift: usize = lines * w;
    let mut i: usize = cells;
    while i > 0
        invariant
            i <= cells <= 8192,
            forall|j: int| i <= j < cells ==> plane@[j] == (j >= shift && before[j - shift]),
            forall|j: int| 0 <= j < 8192 && !(i <= j < cells) ==> plane@[j] == before[j],
        decreases i,
    {
        i -= 1;
        plane[i] = if i >= shift {
            plane[i - shift]
        } else {
            false
        };
    }
    assert(plane@ =~= scrolled_down(before, w as int, h as int, lines as int));
}

/// Moves the visible content of a plane up by `lines` lines.
pub fn scroll_plane_up(plane: &mut [bool; 8192], w: usize, h: usize, lines: usize)
    requires
        is_resolution(w as int, h as int),
        lines <= 255,
    ensures
        final(plane)@ == scrolled_up(old(plane)@, w as int, h as int, lines as int),
{
    let ghost before = plane@;
    proof {
        lemma_cells(w as int, h as int);
        assert(lines * w <= 255 * 128) by (nonlinear_arith)
            requires
                lines <= 255,
                w <= 128,
        ;
    }
    let cells: usize = w * h;
    let shift: usize = lines * w;
    let mut i: usize = 0;
    while i < cells
        invariant
            i <= cells <= 8192,
            shift <= 255 * 128,
            forall|j: int| 0 <= j < i ==> plane@[j] == (j + shift < cells && before[j + shift]),
            forall|j: int| i <= j < 8192 ==> plane@[j] == before[j],
        decreases cells - i,
    {
        plane[i] = if i + shift < cells {
            plane[i + shift]
        } else {
            false
        };
        i += 1;
    }
    assert(plane@ =~= scrolled_up(before, w as int, h as int, lines as int));
}

/// Moves the visible content of a plane right by four columns.
pub fn scroll_plane_right(plane: &mut [bool; 8192], w: usize, h: usize)
    requires
        is_resolution(w as int, h as int),
    ensures
        final(plane)@ == scrolled_right(old(plane)@, w as int, h as int),
{
    let ghost before = plane@;
    proof {
        lemma_cells(w as int, h as int);
    }
    let cells: usize = w * h;
    let mut i: usize = cells;
    while i > 0
        invariant
            is_resolution(w as int, h as int),
            i <= cells <= 8192,
            cells == w * h,
            forall|j: int| i <= j < cells ==> plane@[j] == (j % (w as int) >= 4 && before[j - 4]),
            forall|j: int| 0 <= j < 8192 && !(i <= j < cells) ==> plane@[j] == before[j],
        decreases i,
    {
        i -= 1;
        proof {
            lemma_index_of_cell(w as int, h as int, 0, i as int);
            lemma_index_of_cell(w as int, h as int, (i / w) as int, i as int);
        }
        plane[i] = if i % w >= 4 {
            plane[i - 4]
        } else {
            false
        };
    }
    assert(plane@ =~= scrolled_right(before, w as int, h as int));
}

/// Moves the visible content of a plane left by four columns.
pub fn scroll_plane_left(plane: &mut [bool; 8192], w: usize, h: usize)
    requires
        is_resolution(w as int, h as int),
    ensures
        final(plane)@ == scrolled_left(old(plane)@, w as int, h as int),
{
    let ghost before = plane@;
    proof {
        lemma_cells(w as int, h as int);
    }
    let cells: usize = w * h;
    let mut i: usize = 0;
    while i < cells
        invariant
            is_resolution(w as int, h as int),
            i <= cells <= 8192,
            cells == w * h,
            forall|j: int| 0 <= j < i ==> plane@[j] == (j % (w as int) < w - 4 && before[j + 4]),
            forall|j: int| i <= j < 8192 ==> plane@[j] == before[j],
        decreases cells - i,
    {
        proof {
            lemma_index_of_cell(w as int, h as int, 0, i as int);
            lemma_index_of_cell(w as int, h as int, (i / w) as int, i as int);
        }
        plane[i] = if i % w < w - 4 {
            plane[i + 4]
        } else {
            false
        };
        i += 1;
    }
    assert(plane@ =~= scrolled_left(before, w as int, h as int));
}

} // verus!
