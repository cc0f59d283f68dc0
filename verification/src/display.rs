//! The two-plane display: sprite drawing with collision detection, scrolling,
//! and the switch between the low and the high resolution.

use crate::platform::{QuirkSet, Quirks};
use crate::raster::{
    lemma_cells, scroll_plane_down, scroll_plane_left, scroll_plane_right, scroll_plane_up, stamp_rows,
};
use crate::screen::{byte_rows, color_of, Screen};
use vstd::prelude::*;

verus! {

/// Which plane, or planes, an operation targets.
#[derive(Debug, Clone, Copy, PartialEq, Eq, Structural)]
pub enum Plane {
    First,
    Second,
    Both,
}

impl Plane {
    pub open spec fn has_first(self) -> bool {
        self != Plane::Second
    }

    pub open spec fn has_second(self) -> bool {
        self != Plane::First
    }
}

#[derive(Debug, Clone, Copy, PartialEq, Eq, Structural)]
pub enum ScreenResolution {
    Lores,
    Hires,
}

/// The colour of a pixel: which of the two planes have it set.
#[derive(Debug, Clone, Copy, PartialEq, Eq, Hash, Structural)]
pub enum Color {
    Disabled,
    OnlyFirstPlane,
    OnlySecondPlane,
    Both,
}

pub struct Display {
    first_plane: [bool; 8192],
    second_plane: [bool; 8192],
    is_hires: bool,
    current_plane: Plane,
    quirks: QuirkSet,
}

impl View for Display {
    type V = Screen;

    closed spec fn view(&self) -> Screen {
        Screen {
            first: self.first_plane@,
            second: self.second_plane@,
            hires: self.is_hires,
            selected: self.current_plane,
            wraps: self.quirks@.contains(Quirks::WrapsInsteadClipping),
        }
    }
}

impl Display {
    pub const WIDTH: usize = 64;

    pub const HEIGHT: usize = 32;

    pub const HIRES_WIDTH: usize = 128;

    pub const HIRES_HEIGHT: usize = 64;

    pub fn new(quirks: &QuirkSet) -> (display: Display)
        ensures
            display@ == Screen::initial(quirks@.contains(Quirks::WrapsInsteadClipping)),
            display@.wf(),
    {
        let display = Display {
            first_plane: [false;8192],
            second_plane: [false;8192],
            is_hires: false,
            current_plane: Plane::First,
            quirks: *quirks,
        };
        assert(display@ =~= Screen::initial(quirks@.contains(Quirks::WrapsInsteadClipping)));
        display
    }

    /// XORs a sprite of 8 pixels a row, one byte per row, onto one plane, with
    /// its corner at column `x` and line `y` modulo the size of the screen.
    /// Returns whether that unset a pixel.
    pub fn draw_sprite(&mut self, x: usize, y: usize, sprite: &[u8], plane: Plane) -> (erased: bool)
        requires
            old(self)@.wf(),
            sprite@.len() <= 32,
            plane != Plane::Both,
        ensures
            final(self)@ == old(self)@.draw(
                plane,
                old(self)@.place(x as int, y as int, byte_rows(sprite@), 8),
            ),
            erased == old(self)@.draw_collides(
                plane,
                old(self)@.place(x as int, y as int, byte_rows(sprite@), 8),
            ),
            final(self)@.wf(),
    {
        let mut rows: Vec<u16> = Vec::new();
        let mut row: usize = 0;
        while row < sprite.len()
            invariant
                row <= sprite@.len(),
                rows@.len() == row,
                forall|r: int| 0 <= r < row ==> rows@[r] == sprite@[r] as u16,
            decreases sprite@.len() - row,
        {
            rows.push(sprite[row] as u16);
            row += 1;
        }
        assert(rows@ =~= byte_rows(sprite@));
        self.draw_rows(x, y, rows.as_slice(), 8, plane)
    }

    /// XORs a sprite of 16 rows of 16 pixels onto one plane, with its corner
    /// at column `x` and line `y` modulo the size of the screen. Returns
    /// whether that unset a pixel.
    pub fn draw_16_16_sprite(&mut self, x: usize, y: usize, sprite: [u16; 16], plane: Plane) -> (erased:
        bool)
        requires
            old(self)@.wf(),
            plane != Plane::Both,
        ensures
            final(self)@ == old(self)@.draw(plane, old(self)@.place(x as int, y as int, sprite@, 16)),
            erased == old(self)@.draw_collides(
                plane,
                old(self)@.place(x as int, y as int, sprite@, 16),
            ),
            final(self)@.wf(),
    {
        self.draw_rows(x, y, sprite.as_slice(), 16, plane)
    }

    fn draw_rows(&mut self, x: usize, y: usize, rows: &[u16], bits: usize, plane: Plane) -> (erased:
        bool)
        requires
            old(self)@.wf(),
            rows@.len() <= 32,
            bits == 8 || bits == 16,
            plane != Plane::Both,
        ensures
            final(self)@ == old(self)@.draw(plane, old(self)@.place(x as int, y as int, rows@, bits as int)),
            erased == old(self)@.draw_collides(
                plane,
                old(self)@.place(x as int, y as int, rows@, bits as int),
            ),
            final(self)@.wf(),
    {
        let screen_width = self.width();
        let screen_height = self.height();
        let wraps_instead_clipping = self.quirks.contains(&Quirks::WrapsInsteadClipping);
        proof {
            lemma_cells(screen_width as int, screen_height as int);
        }
        let x = x % screen_width;
        let y = y % screen_height;
        let erased = match plane {
            Plane::First => stamp_rows(
                &mut self.first_plane,
                screen_width,
                screen_height,
                wraps_instead_clipping,
                x,
                y,
                rows,
                bits,
            ),
            _ => stamp_rows(
                &mut self.second_plane,
                screen_width,
                screen_height,
                wraps_instead_clipping,
                x,
                y,
                rows,
                bits,
            ),
        };
        assert(self@ =~= old(self)@.draw(plane, old(self)@.place(x as int, y as int, rows@, bits as int)));
        erased
    }

    /// Moves the content of the selected planes down by `lines` lines.
    pub fn scroll_n_lines_down(&mut self, lines: u8)
        requires
            old(self)@.wf(),
        ensures
            final(self)@ == old(self)@.scroll_down(lines as int),
            final(self)@.wf(),
    {
        let width = self.width();
        let height = self.height();
        if self.selects_first() {
            scroll_plane_down(&mut self.first_plane, width, height, lines as usize);
        }
        if self.selects_second() {
            scroll_plane_down(&mut self.second_plane, width, height, lines as usize);
        }
        assert(self@ =~= old(self)@.scroll_down(lines as int));
    }

    /// Moves the content of the selected planes up by `lines` lines.
    pub fn scroll_n_lines_up(&mut self, lines: u8)
        requires
            old(self)@.wf(),
        ensures
            final(self)@ == old(self)@.scroll_up(lines as int),
            final(self)@.wf(),
    {
        let width = self.width();
        let height = self.height();
        if self.selects_first() {
            scroll_plane_up(&mut self.first_plane, width, height, lines as usize);
        }
        if self.selects_second() {
            scroll_plane_up(&mut self.second_plane, width, height, lines as usize);
        }
        assert(self@ =~= old(self)@.scroll_up(lines as int));
    }

    /// Moves the content of the selected planes right by four columns.
    pub fn scroll_4_px_right(&mut self)
        requires
            old(self)@.wf(),
        ensures
            final(self)@ == old(self)@.scroll_right(),
            final(self)@.wf(),
    {
        let width = self.width();
        let height = self.height();
        if self.selects_first() {
            scroll_plane_right(&mut self.first_plane, width, height);
        }
        if self.selects_second() {
            scroll_plane_right(&mut self.second_plane, width, height);
        }
        assert(self@ =~= old(self)@.scroll_right());
    }

    /// Moves the content of the selected planes left by four columns.
    pub fn scroll_4_px_left(&mut self)
        requires
            old(self)@.wf(),
        ensures
            final(self)@ == old(self)@.scroll_left(),
            final(self)@.wf(),
    {
        let width = self.width();
        let height = self.height();
        if self.selects_first() {
            scroll_plane_left(&mut self.first_plane, width, height);
        }
        if self.selects_second() {
            scroll_plane_left(&mut self.second_plane, width, height);
        }
        assert(self@ =~= old(self)@.scroll_left());
    }

    /// Unsets every pixel of the selected planes.
    pub fn clear(&mut self)
        requires
            old(self)@.wf(),
        ensures
            final(self)@ == old(self)@.clear(),
            final(self)@.wf(),
    {
        if self.selects_first() {
            self.first_plane = [false;8192];
        }
        if self.selects_second() {
            self.second_plane = [false;8192];
        }
        assert(self@ =~= old(self)@.clear());
    }

    /// The colour of every cell of the planes; the cell at column `x` and
    /// line `y` of the screen is at index `x + y * width`.
    pub fn display_bitplane(&self) -> (colors: [Color; 8192])
        ensures
            colors@ == self@.colors(),
    {
        let mut colors: [Color; 8192] = [Color::Disabled;8192];
        let mut i: usize = 0;
        while i < 8192
            invariant
                i <= 8192,
                forall|j: int|
                    0 <= j < i ==> colors@[j] == color_of(self.first_plane@[j], self.second_plane@[j]),
            decreases 8192 - i,
        {
            colors[i] = match (self.first_plane[i], self.second_plane[i]) {
                (false, false) => Color::Disabled,
                (true, false) => Color::OnlyFirstPlane,
                (false, true) => Color::OnlySecondPlane,
                (true, true) => Color::Both,
            };
            i += 1;
        }
        assert(colors@ =~= self@.colors());
        colors
    }

    /// Switches to the high resolution and blanks both planes.
    pub fn enable_hires(&mut self)
        ensures
            final(self)@ == old(self)@.with_resolution(true),
            final(self)@.wf(),
    {
        self.first_plane = [false;8192];
        self.second_plane = [false;8192];
        self.is_hires = true;
        assert(self@ =~= old(self)@.with_resolution(true));
    }

    /// Switches to the low resolution and blanks both planes.
    pub fn disable_hires(&mut self)
        ensures
            final(self)@ == old(self)@.with_resolution(false),
            final(self)@.wf(),
    {
        self.first_plane = [false;8192];
        self.second_plane = [false;8192];
        self.is_hires = false;
        assert(self@ =~= old(self)@.with_resolution(false));
    }

    fn selects_first(&self) -> (selected: bool)
        ensures
            selected == self@.selected.has_first(),
    {
        match self.current_plane {
            Plane::Second => false,
            _ => true,
        }
    }

    fn selects_second(&self) -> (selected: bool)
        ensures
            selected == self@.selected.has_second(),
    {
        match self.current_plane {
            Plane::First => false,
            _ => true,
        }
    }

    pub fn set_plane(&mut self, plane: Plane)
        ensures
            final(self)@ == (Screen { selected: plane, ..old(self)@ }),
    {
        self.current_plane = plane;
    }

    pub fn get_current_plane(&self) -> (plane: &Plane)
        ensures
            *plane == self@.selected,
    {
        &self.current_plane
    }

    pub fn is_hires(&self) -> (hires: bool)
        ensures
            hires == self@.hires,
    {
        self.is_hires
    }

    pub fn width(&self) -> (width: usize)
        ensures
            width == self@.width(),
    {
        if self.is_hires {
            Self::HIRES_WIDTH
        } else {
            Self::WIDTH
        }
    }

    pub fn height(&self) -> (height: usize)
        ensures
            height == self@.height(),
    {
        if self.is_hires {
            Self::HIRES_HEIGHT
        } else {
            Self::HEIGHT
        }
    }
}

} // verus!
