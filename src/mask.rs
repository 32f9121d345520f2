//! The level's solid mask: which pixels block movement.
use vstd::prelude::*;

verus! {

/// A pixel of the level's reference image.
#[derive(Clone, Copy, Debug, PartialEq, Eq, Structural)]
pub struct Color {
    pub r: u8,
    pub g: u8,
    pub b: u8,
    pub a: u8,
}

/// The reference color that marks a solid pixel: opaque black.
pub open spec fn black() -> Color {
    Color { r: 0, g: 0, b: 0, a: 255 }
}

impl Color {
    pub fn black() -> (r: Color)
        ensures
            r == black(),
    {
        Color { r: 0, g: 0, b: 0, a: 255 }
    }

    pub fn is_black(&self) -> (r: bool)
        ensures
            r == (*self == black()),
    {
        self.r == 0 && self.g == 0 && self.b == 0 && self.a == 255
    }
}

/// Largest width or height, in pixels, of a mask.
pub const PIXELS_MAX: i64 = 0x8000_0000;

/// Per-pixel solidity of a `width` by `height` level, row by row.
pub struct SolidMask {
    width: i64,
    height: i64,
    cells: Vec<bool>,
}

impl SolidMask {
    pub closed spec fn wf(&self) -> bool {
        &&& 0 <= self.width <= PIXELS_MAX
        &&& 0 <= self.height <= PIXELS_MAX
        &&& self.cells@.len() == self.width * self.height
    }

    pub closed spec fn spec_width(&self) -> int {
        self.width as int
    }

    pub closed spec fn spec_height(&self) -> int {
        self.height as int
    }

    /// The pixel at column `px`, row `py` is solid; pixels off the grid never are.
    pub closed spec fn solid(&self, px: int, py: int) -> bool {
        &&& 0 <= px < self.width
        &&& 0 <= py < self.height
        &&& self.cells@[py * self.width + px]
    }

    /// Classifies each pixel of a `width` by `height` image, given row by row:
    /// a pixel is solid exactly when it is opaque black.
    pub fn from_colors(width: usize, height: usize, pixels: &Vec<Color>) -> (r: SolidMask)
        requires
            pixels@.len() == width * height,
            width <= PIXELS_MAX,
            height <= PIXELS_MAX,
        ensures
            r.wf(),
            r.spec_width() == width,
            r.spec_height() == height,
            forall|px: int, py: int|
                0 <= px < width && 0 <= py < height ==> (#[trigger] r.solid(px, py) == (
                pixels@[py * width + px] == black())),
    {
        let mut cells: Vec<bool> = Vec::new();
        let mut i: usize = 0;
        while i < pixels.len()
            invariant
                i <= pixels@.len(),
                cells@.len() == i,
                forall|k: int| 0 <= k < i ==> cells@[k] == (pixels@[k] == black()),
            decreases pixels@.len() - i,
        {
            cells.push(pixels[i].is_black());
            i = i + 1;
        }
        let r = SolidMask { width: width as i64, height: height as i64, cells };
        assert forall|px: int, py: int| 0 <= px < width && 0 <= py < height implies #[trigger] r.solid(
            px,
            py,
        ) == (pixels@[py * width + px] == black()) by {
            lemma_cell_index(px, py, width as int, height as int);
        }
        r
    }

    pub fn width(&self) -> (r: i64)
        requires
            self.wf(),
        ensures
            0 <= r <= PIXELS_MAX,
            r == self.spec_width(),
    {
        self.width
    }

    pub fn height(&self) -> (r: i64)
        requires
            self.wf(),
        ensures
            0 <= r <= PIXELS_MAX,
            r == self.spec_height(),
    {
        self.height
    }

    pub proof fn lemma_off_grid(&self, px: int, py: int)
        ensures
            !(0 <= px < self.spec_width() && 0 <= py < self.spec_height()) ==> !self.solid(px, py),
    {
    }

    pub fn is_solid(&self, px: i64, py: i64) -> (r: bool)
        requires
            self.wf(),
        ensures
            r == self.solid(px as int, py as int),
    {
        if px < 0 || py < 0 || px >= self.width || py >= self.height {
            false
        } else {
            proof {
                lemma_cell_index(px as int, py as int, self.width as int, self.height as int);
                assert(self.width * self.height <= PIXELS_MAX * PIXELS_MAX) by (nonlinear_arith)
                    requires
                        0 <= self.width <= PIXELS_MAX,
                        0 <= self.height <= PIXELS_MAX,
                ;
            }
            assert(py * self.width + px < self.cells@.len());
            let len = self.cells.len();
            let idx = (py * self.width + px) as usize;
            assert(idx < len);
            self.cells[idx]
        }
    }
}

proof fn lemma_cell_index(px: int, py: int, w: int, h: int)
    requires
        0 <= px < w,
        0 <= py < h,
    ensures
        0 <= py * w + px < w * h,
        py * w <= w * h,
{
    assert(py * w + px < w * h) by (nonlinear_arith)
        requires
            0 <= px < w,
            0 <= py < h,
    ;
    assert(py * w >= 0) by (nonlinear_arith)
        requires
            0 <= py,
            0 <= w,
    ;
}

} // verus!
