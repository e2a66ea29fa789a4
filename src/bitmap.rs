//! Grey-scale bitmaps and the side-by-side comparison of the network's
//! image with the expected one.
use vstd::prelude::*;
use vstd::arithmetic::div_mod::lemma_multiply_divide_le;

use crate::draw::{Pixel, Point};
use crate::layout::Rect;
use crate::UNIT;

verus! {

/// How many screen pixels wide and high each bitmap pixel is drawn.
pub const ZOOM: u32 = 3;

/// A grey-scale image, row by row.
#[derive(Debug)]
pub struct Bitmap {
    pub width: u32,
    pub height: u32,
    pub pixels: Vec<u8>,
}

impl Bitmap {
    pub open spec fn wf(&self) -> bool {
        self.pixels@.len() == self.width * self.height
    }

    /// The intensity at column `x`, row `y`.
    pub open spec fn at(&self, x: int, y: int) -> u8 {
        self.pixels@[y * self.width + x]
    }

    /// A bitmap of the given size; `None` unless `pixels` holds exactly one
    /// intensity per pixel.
    pub fn new(width: u32, height: u32, pixels: Vec<u8>) -> (r: Option<Bitmap>)
        ensures
            r is Some <==> pixels@.len() == width * height,
            r matches Some(b) ==> b.width == width && b.height == height && b.pixels@ == pixels@,
    {
        assert(width * height <= u32::MAX * u32::MAX) by (nonlinear_arith)
            requires
                width <= u32::MAX,
                height <= u32::MAX,
        ;
        if (pixels.len() as u128) == (width as u128) * (height as u128) {
            Some(Bitmap { width, height, pixels })
        } else {
            None
        }
    }

    /// A bitmap whose pixel `i` is the intensity of fixed-point value `i`;
    /// `None` unless there is exactly one value per pixel.
    pub fn from_values(width: u32, height: u32, values: &Vec<i64>) -> (r: Option<Bitmap>)
        ensures
            r is Some <==> values@.len() == width * height,
            r matches Some(b) ==> {
                &&& b.width == width
                &&& b.height == height
                &&& b.wf()
                &&& forall|i: int| 0 <= i < values@.len() ==> #[trigger] b.pixels@[i] == intensity_of(values@[i] as int)
            },
    {
        assert(width * height <= u32::MAX * u32::MAX) by (nonlinear_arith)
            requires
                width <= u32::MAX,
                height <= u32::MAX,
        ;
        if (values.len() as u128) != (width as u128) * (height as u128) {
            return None;
        }
        let mut pixels: Vec<u8> = Vec::new();
        let mut i: usize = 0;
        while i < values.len()
            invariant
                0 <= i <= values@.len(),
                pixels@.len() == i,
                forall|j: int| 0 <= j < i ==> #[trigger] pixels@[j] == intensity_of(values@[j] as int),
            decreases values@.len() - i,
        {
            pixels.push(intensity(values[i]));
            i = i + 1;
        }
        Some(Bitmap { width, height, pixels })
    }

    /// The same image as RGBA, each grey level copied to the three colour
    /// channels, fully opaque.
    pub fn to_rgba(&self) -> (r: Vec<Pixel>)
        ensures
            r@.len() == self.pixels@.len(),
            forall|i: int| 0 <= i < r@.len() ==> #[trigger] r@[i] == grey(self.pixels@[i]),
    {
        let mut out: Vec<Pixel> = Vec::new();
        let mut i: usize = 0;
        while i < self.pixels.len()
            invariant
                0 <= i <= self.pixels@.len(),
                out@.len() == i,
                forall|j: int| 0 <= j < i ==> #[trigger] out@[j] == grey(self.pixels@[j]),
            decreases self.pixels@.len() - i,
        {
            let p = self.pixels[i];
            out.push(Pixel { r: p, g: p, b: p, a: 255 });
            i = i + 1;
        }
        out
    }
}

/// The side of the square digit images.
pub const DIGIT_SIDE: u32 = 28;

/// The expected digit image: one pixel per target value when there are
/// exactly `DIGIT_SIDE * DIGIT_SIDE` of them, else all black.
pub fn expected_img(targets: &Vec<i64>) -> (b: Bitmap)
    ensures
        b.width == DIGIT_SIDE,
        b.height == DIGIT_SIDE,
        b.wf(),
        targets@.len() == DIGIT_SIDE * DIGIT_SIDE ==> forall|i: int|
            0 <= i < targets@.len() ==> #[trigger] b.pixels@[i] == intensity_of(targets@[i] as int),
        targets@.len() != DIGIT_SIDE * DIGIT_SIDE ==> forall|i: int|
            0 <= i < b.pixels@.len() ==> #[trigger] b.pixels@[i] == 0,
{
    match Bitmap::from_values(DIGIT_SIDE, DIGIT_SIDE, targets) {
        Some(b) => b,
        None => {
            let mut pixels: Vec<u8> = Vec::new();
            let mut i: usize = 0;
            while i < 784
                invariant
                    0 <= i <= 784,
                    pixels@.len() == i,
                    forall|j: int| 0 <= j < i ==> #[trigger] pixels@[j] == 0,
                decreases 784 - i,
            {
                pixels.push(0);
                i = i + 1;
            }
            Bitmap { width: DIGIT_SIDE, height: DIGIT_SIDE, pixels }
        },
    }
}

/// The opaque grey pixel of level `v`.
pub open spec fn grey(v: u8) -> Pixel {
    Pixel { r: v, g: v, b: v, a: 255 }
}

/// The grey level of fixed-point value `v`: `v` as a share of 255, rounded
/// towards zero, at most 255 and at least 0.
pub open spec fn intensity_of(v: int) -> u8 {
    if v <= 0 {
        0
    } else if v >= UNIT {
        255
    } else {
        (v * 255 / (UNIT as int)) as u8
    }
}

/// The grey level of fixed-point value `v`.
pub fn intensity(v: i64) -> (r: u8)
    ensures
        r == intensity_of(v as int),
{
    if v <= 0 {
        0
    } else if v >= UNIT {
        255
    } else {
        proof {
            assert(v * 255 <= UNIT * 255) by (nonlinear_arith)
                requires
                    v < UNIT,
            ;
            lemma_multiply_divide_le((v * 255) as int, UNIT as int, 255);
        }
        (v * 255 / UNIT) as u8
    }
}

/// The two bitmaps of an image comparison, placed side by side and centred
/// in a widget: the expected one left, the network's one right.
#[derive(Debug)]
pub struct ImagePair {
    pub expected_at: Point,
    pub output_at: Point,
    pub width: u32,
    pub height: u32,
    pub zoom: u32,
    pub expected: Vec<Pixel>,
    pub output: Vec<Pixel>,
}

/// Where the expected bitmap of size `w` x `h` goes in box `r`.
pub open spec fn expected_corner(r: Rect, w: int, h: int) -> Point {
    Point { x: (r.x + r.w / 2 - w * ZOOM) as i64, y: (r.y + r.h / 2 - (h * ZOOM) / 2) as i64 }
}

/// `p` places bitmaps `e` (expected) and `o` (network output) in box `r`.
pub open spec fn pair_of(p: ImagePair, r: Rect, e: Bitmap, o: Bitmap) -> bool {
    &&& p.width == e.width
    &&& p.height == e.height
    &&& p.zoom == ZOOM
    &&& p.expected_at == expected_corner(r, e.width as int, e.height as int)
    &&& p.output_at == (Point { x: (p.expected_at.x + e.width * ZOOM) as i64, y: p.expected_at.y })
    &&& p.expected@.len() == e.pixels@.len()
    &&& p.output@.len() == o.pixels@.len()
    &&& forall|i: int| 0 <= i < e.pixels@.len() ==> #[trigger] p.expected@[i] == grey(e.pixels@[i])
    &&& forall|i: int| 0 <= i < o.pixels@.len() ==> #[trigger] p.output@[i] == grey(o.pixels@[i])
}

/// The comparison of `expected` with `output` in box `r`; `None`, and
/// nothing drawn, when either is missing or their sizes differ.
pub fn image_pair(r: Rect, expected: &Option<Bitmap>, output: &Option<Bitmap>) -> (p: Option<ImagePair>)
    ensures
        p is Some <==> (expected is Some && output is Some && expected->Some_0.width
            == output->Some_0.width && expected->Some_0.height == output->Some_0.height),
        p matches Some(pair) ==> pair_of(pair, r, expected->Some_0, output->Some_0),
{
    match (expected, output) {
        (Some(e), Some(o)) => {
            if e.width != o.width || e.height != o.height {
                return None;
            }
            let x: i64 = r.x as i64 + (r.w / 2) as i64 - (e.width as i64) * (ZOOM as i64);
            let y: i64 = r.y as i64 + (r.h / 2) as i64 - ((e.height as i64) * (ZOOM as i64)) / 2;
            let expected_at = Point { x, y };
            let output_at = Point { x: x + (e.width as i64) * (ZOOM as i64), y };
            Some(ImagePair {
                expected_at,
                output_at,
                width: e.width,
                height: e.height,
                zoom: ZOOM,
                expected: e.to_rgba(),
                output: o.to_rgba(),
            })
        },
        _ => None,
    }
}

} // verus!
