//! The display as a mathematical value: two planes of pixels, and what
//! drawing a sprite and scrolling make of them.

use crate::display::{Color, Plane};
use vstd::prelude::*;

verus! {

/// The number of cells each plane holds: enough for the high resolution.
pub const PLANE_SIZE: usize = 8192;

/// The colour made of a pixel's bit on the first and on the second plane.
pub open spec fn color_of(first: bool, second: bool) -> Color {
    if first {
        if second {
            Color::Both
        } else {
            Color::OnlyFirstPlane
        }
    } else {
        if second {
            Color::OnlySecondPlane
        } else {
            Color::Disabled
        }
    }
}

/// A sprite placed on the screen: `rows` from the top down, each row holding
/// `bits` pixels from its highest bit on the left to its lowest on the right,
/// with its top left corner at column `x` and line `y` of the screen.
pub struct Sprite {
    pub x: int,
    pub y: int,
    pub rows: Seq<u16>,
    pub bits: int,
}

/// Whether the pixel in column `col` of a sprite row of `bits` pixels is set.
pub open spec fn row_bit(row: u16, bits: int, col: int) -> bool {
    (row >> ((bits - 1 - col) as u16)) & 1 == 1
}

/// The column (or row) of a sprite that lands on the screen column (or line)
/// `c`, where the sprite starts at `origin` and the screen has `dim` columns
/// (or lines): a sprite that crosses the edge continues at 0 if it wraps and
/// ends at the edge if it does not. A result of -1 says that nothing lands
/// there.
pub open spec fn sprite_offset(origin: int, c: int, dim: int, wraps: bool) -> int {
    if c >= origin {
        c - origin
    } else if wraps {
        c - origin + dim
    } else {
        -1
    }
}

/// Whether the sprite has a set pixel that lands on the screen cell at column
/// `cx` and line `cy`.
pub open spec fn sprite_lit(sprite: Sprite, w: int, h: int, wraps: bool, cx: int, cy: int) -> bool {
    let col = sprite_offset(sprite.x, cx, w, wraps);
    let row = sprite_offset(sprite.y, cy, h, wraps);
    0 <= col < sprite.bits && 0 <= row < sprite.rows.len() && row_bit(sprite.rows[row], sprite.bits, col)
}

/// The plane after the sprite was XORed onto it. A plane stores the cell at
/// column `cx` and line `cy` at index `cx + cy * w`.
pub open spec fn stamped(plane: Seq<bool>, w: int, h: int, wraps: bool, sprite: Sprite) -> Seq<bool> {
    Seq::new(
        plane.len(),
        |i: int|
            if i < w * h {
                plane[i] != sprite_lit(sprite, w, h, wraps, i % w, i / w)
            } else {
                plane[i]
            },
    )
}

/// Whether the sprite has a set pixel that lands on the cell stored at `i`
/// while that cell is set: drawing unsets it.
pub open spec fn erases(plane: Seq<bool>, w: int, h: int, wraps: bool, sprite: Sprite, i: int) -> bool {
    0 <= i < w * h && i < plane.len() && plane[i] && sprite_lit(sprite, w, h, wraps, i % w, i / w)
}

/// Whether drawing the sprite unsets any pixel of the plane.
pub open spec fn collides(plane: Seq<bool>, w: int, h: int, wraps: bool, sprite: Sprite) -> bool {
    exists|i: int| erases(plane, w, h, wraps, sprite, i)
}

/// The rows of a sprite given as bytes, one byte per row.
pub open spec fn byte_rows(sprite: Seq<u8>) -> Seq<u16> {
    Seq::new(sprite.len(), |row: int| sprite[row] as u16)
}

/// The plane with its visible content moved down by `lines` lines; the lines
/// vacated at the top are unset.
pub open spec fn scrolled_down(plane: Seq<bool>, w: int, h: int, lines: int) -> Seq<bool> {
    Seq::new(
        plane.len(),
        |i: int|
            if i < w * h {
                i >= lines * w && plane[i - lines * w]
            } else {
                plane[i]
            },
    )
}

/// The plane with its visible content moved up by `lines` lines; the lines
/// vacated at the bottom are unset.
pub open spec fn scrolled_up(plane: Seq<bool>, w: int, h: int, lines: int) -> Seq<bool> {
    Seq::new(
        plane.len(),
        |i: int|
            if i < w * h {
                i + lines * w < w * h && plane[i + lines * w]
            } else {
                plane[i]
            },
    )
}

/// The plane with its visible content moved right by four columns; the
/// columns vacated on the left are unset.
pub open spec fn scrolled_right(plane: Seq<bool>, w: int, h: int) -> Seq<bool> {
    Seq::new(
        plane.len(),
        |i: int|
            if i < w * h {
                i % w >= 4 && plane[i - 4]
            } else {
                plane[i]
            },
    )
}

/// The plane with its visible content moved left by four columns; the columns
/// vacated on the right are unset.
pub open spec fn scrolled_left(plane: Seq<bool>, w: int, h: int) -> Seq<bool> {
    Seq::new(
        plane.len(),
        |i: int|
            if i < w * h {
                i % w < w - 4 && plane[i + 4]
            } else {
                plane[i]
            },
    )
}

/// A plane with no pixel set.
pub open spec fn blank_plane() -> Seq<bool> {
    Seq::new(PLANE_SIZE as nat, |i: int| false)
}

/// The display as a value: what the contracts of [`Display`] speak of.
#[verifier::ext_equal]
pub struct Screen {
    pub first: Seq<bool>,
    pub second: Seq<bool>,
    pub hires: bool,
    pub selected: Plane,
    pub wraps: bool,
}

impl Screen {
    pub open spec fn width(self) -> int {
        if self.hires {
            128
        } else {
            64
        }
    }

    pub open spec fn height(self) -> int {
        if self.hires {
            64
        } else {
            32
        }
    }

    /// The number of cells that the current resolution shows.
    pub open spec fn cells(self) -> int {
        if self.hires {
            8192
        } else {
            2048
        }
    }

    /// Both planes have their full size, and no pixel is set outside the
    /// part of them that the current resolution shows.
    pub open spec fn wf(self) -> bool {
        &&& self.first.len() == PLANE_SIZE
        &&& self.second.len() == PLANE_SIZE
        &&& forall|i: int| self.cells() <= i < PLANE_SIZE ==> !self.first[i] && !self.second[i]
    }

    /// The bit of the first and of the second plane at column `x`, line `y`.
    pub open spec fn pixel(self, x: int, y: int) -> (bool, bool) {
        (self.first[x + y * self.width()], self.second[x + y * self.width()])
    }

    /// A freshly started display.
    pub open spec fn initial(wraps: bool) -> Screen {
        Screen { first: blank_plane(), second: blank_plane(), hires: false, selected: Plane::First, wraps }
    }

    /// The screen after `change` was applied to each selected plane.
    pub open spec fn on_selected(self, change: spec_fn(Seq<bool>) -> Seq<bool>) -> Screen {
        Screen {
            first: if self.selected.has_first() {
                change(self.first)
            } else {
                self.first
            },
            second: if self.selected.has_second() {
                change(self.second)
            } else {
                self.second
            },
            ..self
        }
    }

    /// The sprite that a draw at column `x` and line `y` puts on the screen:
    /// its corner is placed modulo the width and the height.
    pub open spec fn place(self, x: int, y: int, rows: Seq<u16>, bits: int) -> Sprite {
        Sprite { x: x % self.width(), y: y % self.height(), rows, bits }
    }

    /// The screen after the sprite was drawn on one plane.
    pub open spec fn draw(self, plane: Plane, sprite: Sprite) -> Screen {
        match plane {
            Plane::First => Screen {
                first: stamped(self.first, self.width(), self.height(), self.wraps, sprite),
                ..self
            },
            Plane::Second => Screen {
                second: stamped(self.second, self.width(), self.height(), self.wraps, sprite),
                ..self
            },
            Plane::Both => self,
        }
    }

    /// Whether drawing the sprite on one plane unsets a pixel.
    pub open spec fn draw_collides(self, plane: Plane, sprite: Sprite) -> bool {
        match plane {
            Plane::First => collides(self.first, self.width(), self.height(), self.wraps, sprite),
            Plane::Second => collides(self.second, self.width(), self.height(), self.wraps, sprite),
            Plane::Both => false,
        }
    }

    pub open spec fn scroll_down(self, lines: int) -> Screen {
        self.on_selected(|p: Seq<bool>| scrolled_down(p, self.width(), self.height(), lines))
    }

    pub open spec fn scroll_up(self, lines: int) -> Screen {
        self.on_selected(|p: Seq<bool>| scrolled_up(p, self.width(), self.height(), lines))
    }

    pub open spec fn scroll_right(self) -> Screen {
        self.on_selected(|p: Seq<bool>| scrolled_right(p, self.width(), self.height()))
    }

    pub open spec fn scroll_left(self) -> Screen {
        self.on_selected(|p: Seq<bool>| scrolled_left(p, self.width(), self.height()))
    }

    pub open spec fn clear(self) -> Screen {
        self.on_selected(|p: Seq<bool>| blank_plane())
    }

    /// The screen after a switch of resolution: both planes are blank.
    pub open spec fn with_resolution(self, hires: bool) -> Screen {
        Screen { first: blank_plane(), second: blank_plane(), hires, ..self }
    }

    /// The colour of every cell, in the order of the planes.
    pub open spec fn colors(self) -> Seq<Color> {
        Seq::new(PLANE_SIZE as nat, |i: int| color_of(self.first[i], self.second[i]))
    }
}

/// The plane of a screen that a draw on `plane` changes.
pub open spec fn plane_of(screen: Screen, plane: Plane) -> Seq<bool> {
    if plane == Plane::Second {
        screen.second
    } else {
        screen.first
    }
}

/// Drawing is an XOR: drawing the same sprite twice at the same place leaves
/// the screen as it was.
pub proof fn lemma_draw_twice_restores(screen: Screen, plane: Plane, sprite: Sprite)
    requires
        screen.wf(),
    ensures
        screen.draw(plane, sprite).draw(plane, sprite) == screen,
{
    let once = screen.draw(plane, sprite);
    let twice = once.draw(plane, sprite);
    assert(twice.first =~= screen.first);
    assert(twice.second =~= screen.second);
}

/// Drawing on a blank plane unsets nothing and sets exactly the pixels of the
/// sprite that reach the screen; drawing the same sprite there again unsets
/// them, and reports a collision if there was any such pixel.
pub proof fn lemma_draw_on_blank(screen: Screen, plane: Plane, sprite: Sprite)
    requires
        screen.wf(),
        plane != Plane::Both,
        plane_of(screen, plane) == blank_plane(),
    ensures
        !screen.draw_collides(plane, sprite),
        forall|i: int|
            0 <= i < screen.cells() ==> #[trigger] plane_of(screen.draw(plane, sprite), plane)[i]
                == sprite_lit(
                sprite,
                screen.width(),
                screen.height(),
                screen.wraps,
                i % screen.width(),
                i / screen.width(),
            ),
        screen.draw(plane, sprite).draw_collides(plane, sprite) == exists|i: int|
            0 <= i < screen.cells() && #[trigger] sprite_lit(
                sprite,
                screen.width(),
                screen.height(),
                screen.wraps,
                i % screen.width(),
                i / screen.width(),
            ),
        plane_of(screen.draw(plane, sprite).draw(plane, sprite), plane) == blank_plane(),
{
    let w = screen.width();
    let h = screen.height();
    assert(w * h == screen.cells());
    let blank = plane_of(screen, plane);
    let once = screen.draw(plane, sprite);
    let drawn = plane_of(once, plane);
    assert(drawn == stamped(blank, w, h, screen.wraps, sprite));
    assert forall|i: int| !erases(blank, w, h, screen.wraps, sprite, i) by {}
    if collides(drawn, w, h, screen.wraps, sprite) {
        let i = choose|i: int| erases(drawn, w, h, screen.wraps, sprite, i);
        assert(sprite_lit(sprite, w, h, screen.wraps, i % w, i / w));
    }
    if exists|i: int| 0 <= i < screen.cells() && #[trigger] sprite_lit(sprite, w, h, screen.wraps, i % w, i / w) {
        let i = choose|i: int|
            0 <= i < screen.cells() && #[trigger] sprite_lit(sprite, w, h, screen.wraps, i % w, i / w);
        assert(erases(drawn, w, h, screen.wraps, sprite, i));
    }
    lemma_draw_twice_restores(screen, plane, sprite);
}

/// No operation of the display changes the size of a plane or sets a pixel
/// outside the part that the resolution shows.
pub proof fn lemma_operations_keep_wf(screen: Screen, plane: Plane, sprite: Sprite, lines: int)
    requires
        screen.wf(),
    ensures
        screen.draw(plane, sprite).wf(),
        screen.scroll_down(lines).wf(),
        screen.scroll_up(lines).wf(),
        screen.scroll_right().wf(),
        screen.scroll_left().wf(),
        screen.clear().wf(),
        screen.with_resolution(true).wf(),
        screen.with_resolution(false).wf(),
{
    assert(screen.width() * screen.height() == screen.cells());
}

} // verus!
