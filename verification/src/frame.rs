//! The picture that the host hands to its window: three bytes a pixel.

use crate::config::Palette;
use crate::display::{Color, Display};
use vstd::prelude::*;

verus! {

/// The bytes of a picture: for each cell of the planes, in their order, the
/// red, the green and the blue part of its colour.
pub open spec fn painted(colors: Seq<Color>, palette: Palette) -> Seq<u8> {
    Seq::new(
        3 * colors.len(),
        |byte: int|
            {
                let rgb = palette.rgb_of(colors[byte / 3]);
                if byte % 3 == 0 {
                    rgb.0
                } else if byte % 3 == 1 {
                    rgb.1
                } else {
                    rgb.2
                }
            },
    )
}

pub struct Frame {
    pixels: [u8; 24576],
}

impl View for Frame {
    type V = Seq<u8>;

    closed spec fn view(&self) -> Seq<u8> {
        self.pixels@
    }
}

impl Default for Frame {
    fn default() -> (frame: Frame)
        ensures
            frame@ == Seq::new(24576, |byte: int| 0u8),
    {
        let frame = Frame { pixels: [0;24576] };
        assert(frame@ =~= Seq::new(24576, |byte: int| 0u8));
        frame
    }
}

impl Frame {
    /// Paints the display with the colours of the palette.
    pub fn update(&mut self, display: &Display, palette: &Palette)
        ensures
            final(self)@ == painted(display@.colors(), *palette),
    {
        let colors = display.display_bitplane();
        let mut pixel: usize = 0;
        while pixel < 8192
            invariant
                pixel <= 8192,
                colors@ == display@.colors(),
                colors@.len() == 8192,
                forall|p: int|
                    0 <= p < pixel ==> self.pixels@[3 * p] == palette.rgb_of(colors@[p]).0
                        && self.pixels@[3 * p + 1] == palette.rgb_of(colors@[p]).1
                        && self.pixels@[3 * p + 2] == palette.rgb_of(colors@[p]).2,
            decreases 8192 - pixel,
        {
            let rgb = palette.get(&colors[pixel]);
            self.pixels[pixel * 3] = rgb.0;
            self.pixels[pixel * 3 + 1] = rgb.1;
            self.pixels[pixel * 3 + 2] = rgb.2;
            pixel += 1;
        }
        assert forall|byte: int| 0 <= byte < 24576 implies self.pixels@[byte] == painted(
            display@.colors(),
            *palette,
        )[byte] by {
            let p = byte / 3;
            assert(byte == 3 * p + byte % 3);
        }
        assert(self@ =~= painted(display@.colors(), *palette));
    }

    pub fn pixels(&self) -> (pixels: &[u8])
        ensures
            pixels@ == self@,
    {
        self.pixels.as_slice()
    }
}

} // verus!
