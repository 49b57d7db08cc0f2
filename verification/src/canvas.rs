//! The pixel grid that a text is drawn on.

use crate::color::Color;
use vstd::prelude::*;

verus! {

/// What a canvas holds: its size, and its pixels row by row from the top
/// left, so that the pixel at column `x` of row `y` stands at
/// `y * width + x`.
pub struct CanvasView {
    pub width: nat,
    pub height: nat,
    pub pixels: Seq<Color>,
}

impl CanvasView {
    /// There is one pixel for each place of the grid.
    pub open spec fn wf(self) -> bool {
        self.pixels.len() == self.width * self.height
    }

    /// The pixel at column `x` of row `y`.
    pub open spec fn pixel(self, x: int, y: int) -> Color {
        self.pixels[y * self.width + x]
    }
}

/// A grid of `width` by `height` pixels. It always holds exactly
/// `width * height` of them.
#[derive(Debug, PartialEq, Eq)]
pub struct Canvas {
    width: u32,
    height: u32,
    pixels: Vec<Color>,
}

impl View for Canvas {
    type V = CanvasView;

    closed spec fn view(&self) -> CanvasView {
        CanvasView {
            width: self.width as nat,
            height: self.height as nat,
            pixels: self.pixels@,
        }
    }
}

/// One channel of a colour: 0 red, 1 green, 2 blue, anything else alpha.
pub open spec fn channel(color: Color, k: int) -> u8 {
    if k == 0 {
        color.r
    } else if k == 1 {
        color.g
    } else if k == 2 {
        color.b
    } else {
        color.a
    }
}

/// Pixels as bytes: four for each pixel, red, green, blue, alpha.
pub open spec fn rgba_bytes(pixels: Seq<Color>) -> Seq<u8> {
    Seq::new(4 * pixels.len(), |i: int| channel(pixels[i / 4], i % 4))
}

/// Bytes as pixels: each four bytes make one pixel. Bytes that are left
/// over at the end make none.
pub open spec fn rgba_pixels(bytes: Seq<u8>) -> Seq<Color> {
    Seq::new(
        bytes.len() / 4,
        |i: int|
            Color {
                r: bytes[4 * i],
                g: bytes[4 * i + 1],
                b: bytes[4 * i + 2],
                a: bytes[4 * i + 3],
            },
    )
}

/// Pixels written as bytes and read back are the same pixels.
pub proof fn lemma_rgba_round_trip(pixels: Seq<Color>)
    ensures
        rgba_pixels(rgba_bytes(pixels)) == pixels,
{
    assert(rgba_pixels(rgba_bytes(pixels)) =~= pixels);
}

proof fn lemma_index_in_grid(x: int, y: int, width: int, height: int)
    requires
        0 <= x < width,
        0 <= y < height,
    ensures
        0 <= y * width + x < width * height,
{
    assert(y * width + x < width * height) by (nonlinear_arith)
        requires
            0 <= x < width,
            0 <= y < height,
    {
        assert((y + 1) * width <= height * width);
    }
    assert(0 <= y * width) by (nonlinear_arith)
        requires
            0 <= y,
            0 <= width,
    ;
}

impl Clone for Canvas {
    fn clone(&self) -> (copy: Self)
        ensures
            copy@ == self@,
    {
        proof {
            use_type_invariant(self);
        }
        let pixels = self.pixels.clone();
        assert(pixels@ =~= self.pixels@);
        Canvas { width: self.width, height: self.height, pixels }
    }
}

impl Canvas {
    #[verifier::type_invariant]
    spec fn holds_every_pixel(self) -> bool {
        self.pixels.len() == self.width * self.height
    }

    /// A canvas on which every pixel has the same colour.
    pub fn filled(width: u32, height: u32, color: Color) -> (canvas: Canvas)
        requires
            width * height <= usize::MAX,
        ensures
            canvas@.wf(),
            canvas@.width == width,
            canvas@.height == height,
            canvas@.pixels == Seq::new((width * height) as nat, |i: int| color),
    {
        let count: usize = width as usize * height as usize;
        let pixels: Vec<Color> = vec![color; count];
        assert(pixels@ =~= Seq::new((width * height) as nat, |i: int| color));
        Canvas { width, height, pixels }
    }

    /// The number of columns.
    pub fn width(&self) -> (w: u32)
        ensures
            w == self@.width,
            self@.wf(),
    {
        proof {
            use_type_invariant(self);
        }
        self.width
    }

    /// The number of rows.
    pub fn height(&self) -> (h: u32)
        ensures
            h == self@.height,
            self@.wf(),
    {
        proof {
            use_type_invariant(self);
        }
        self.height
    }

    /// The pixel at column `x` of row `y`.
    pub fn get_pixel(&self, x: u32, y: u32) -> (color: Color)
        requires
            x < self@.width,
            y < self@.height,
        ensures
            color == self@.pixel(x as int, y as int),
    {
        proof {
            use_type_invariant(self);
            lemma_index_in_grid(x as int, y as int, self.width as int, self.height as int);
        }
        self.pixels[y as usize * self.width as usize + x as usize]
    }

    /// The pixels as bytes, four for each: red, green, blue, alpha.
    pub fn to_rgba_bytes(&self) -> (bytes: Vec<u8>)
        ensures
            bytes@ == rgba_bytes(self@.pixels),
            bytes@.len() == 4 * self@.width * self@.height,
    {
        proof {
            use_type_invariant(self);
        }
        let mut bytes: Vec<u8> = Vec::new();
        let mut i: usize = 0;
        while i < self.pixels.len()
            invariant
                i <= self.pixels.len(),
                bytes@ == rgba_bytes(self.pixels@.take(i as int)),
            decreases self.pixels.len() - i,
        {
            let p = self.pixels[i];
            bytes.push(p.r);
            bytes.push(p.g);
            bytes.push(p.b);
            bytes.push(p.a);
            i += 1;
            assert(bytes@ =~= rgba_bytes(self.pixels@.take(i as int)));
        }
        assert(self.pixels@.take(i as int) =~= self.pixels@);
        assert(4 * (self.width * self.height) == 4 * self.width * self.height) by (nonlinear_arith);
        bytes
    }

    /// A canvas from its size and its pixels as bytes. There is one exactly
    /// where the number of bytes is four times that of the pixels.
    pub fn from_rgba_bytes(width: u32, height: u32, bytes: &[u8]) -> (canvas: Option<Canvas>)
        ensures
            canvas is Some <==> bytes@.len() == 4 * width * height,
            canvas matches Some(c) ==> {
                &&& c@.wf()
                &&& c@.width == width
                &&& c@.height == height
                &&& c@.pixels == rgba_pixels(bytes@)
            },
    {
        assert(width * height <= 0xFFFF_FFFF * 0xFFFF_FFFF) by (nonlinear_arith)
            requires
                width <= 0xFFFF_FFFF,
                height <= 0xFFFF_FFFF,
        ;
        let area: u64 = width as u64 * height as u64;
        let wanted: u128 = 4 * (area as u128);
        assert(wanted == 4 * width * height) by (nonlinear_arith)
            requires
                wanted == 4 * area,
                area == width * height,
        ;
        if bytes.len() as u128 != wanted {
            return None;
        }
        assert(width * height == bytes@.len() / 4) by (nonlinear_arith)
            requires
                bytes@.len() == 4 * width * height,
        ;
        let total: usize = bytes.len();
        let count: usize = total / 4;
        let mut pixels: Vec<Color> = Vec::new();
        let mut i: usize = 0;
        while i < count
            invariant
                i <= count,
                total == bytes@.len(),
                count == total / 4,
                pixels@ == rgba_pixels(bytes@).take(i as int),
            decreases count - i,
        {
            assert(4 * i + 3 < total);
            pixels.push(
                Color {
                    r: bytes[4 * i],
                    g: bytes[4 * i + 1],
                    b: bytes[4 * i + 2],
                    a: bytes[4 * i + 3],
                },
            );
            i += 1;
            assert(pixels@ =~= rgba_pixels(bytes@).take(i as int));
        }
        assert(rgba_pixels(bytes@).take(i as int) =~= rgba_pixels(bytes@));
        Some(Canvas { width, height, pixels })
    }
}

} // verus!
