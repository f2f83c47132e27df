use image::Pixel;
use vstd::prelude::*;

verus! {

/// Gray level of an sRGB pixel: the Rec. 709 luma weights, in parts per
/// ten thousand, with the fraction dropped. Alpha plays no part.
pub open spec fn luma_spec(r: u8, g: u8, b: u8) -> int {
    (2126 * r + 7152 * g + 722 * b) / 10000
}

/// Relies on image's `Pixel::to_luma` for `Rgba<u8>`: the weighted channel sum
/// `2126 r + 7152 g + 722 b`, divided by 10000 in `u32` arithmetic.
#[verifier::external_body]
fn rgba_to_luma(r: u8, g: u8, b: u8, a: u8) -> (l: u8)
    ensures
        l as int == luma_spec(r, g, b),
{
    image::Rgba([r, g, b, a]).to_luma().0[0]
}

/// A rectangular grid of 8-bit intensities, stored row by row, top row first.
pub struct Image {
    data: Vec<u8>,
    width: usize,
}

impl Image {
    /// The intensities, row-major.
    pub closed spec fn pixels(&self) -> Seq<u8> {
        self.data@
    }

    /// The number of columns.
    pub closed spec fn grid_width(&self) -> nat {
        self.width as nat
    }

    /// At least one row and one column, and only whole rows.
    pub open spec fn wf(&self) -> bool {
        &&& self.grid_width() > 0
        &&& self.pixels().len() > 0
        &&& self.pixels().len() % self.grid_width() == 0
    }

    /// The number of rows.
    pub open spec fn grid_height(&self) -> nat {
        self.pixels().len() / self.grid_width()
    }

    /// Row `i`, left to right.
    pub open spec fn row(&self, i: int) -> Seq<u8> {
        self.pixels().subrange(i * self.grid_width(), (i + 1) * self.grid_width())
    }

    /// A grid over `data`, `width` intensities to a row. There is none when
    /// the grid would be empty or its last row short.
    pub fn new(data: Vec<u8>, width: usize) -> (r: Option<Image>)
        ensures
            r is Some <==> (width > 0 && data@.len() > 0 && data@.len() % (width as nat) == 0),
            r matches Some(img) ==> img.wf() && img.pixels() == data@ && img.grid_width() == width,
    {
        if width == 0 || data.len() == 0 || data.len() % width != 0 {
            None
        } else {
            Some(Image { data, width })
        }
    }

    /// The gray-level grid of a `width` by `height` picture given as RGBA
    /// bytes, four per pixel, row-major. There is none when the picture is
    /// empty or the byte count does not match its size.
    pub fn from_rgba(width: usize, height: usize, rgba: &Vec<u8>) -> (r: Option<Image>)
        ensures
            r is Some <==> (width > 0 && height > 0 && rgba@.len() == 4 * width * height),
            r matches Some(img) ==> {
                &&& img.wf()
                &&& img.grid_width() == width
                &&& img.pixels().len() == width * height
                &&& forall|k: int|
                    0 <= k < width * height ==> #[trigger] img.pixels()[k] as int == luma_spec(
                        rgba@[4 * k],
                        rgba@[4 * k + 1],
                        rgba@[4 * k + 2],
                    )
            },
    {
        let n = rgba.len();
        if width == 0 || height == 0 {
            return None;
        }
        let count = match width.checked_mul(height) {
            Some(c) => c,
            None => {
                proof {
                    assert(4 * width * height > usize::MAX) by (nonlinear_arith)
                        requires
                            width as int * height as int > usize::MAX,
                    ;
                }
                return None;
            },
        };
        assert(4 * width * height == 4 * count) by (nonlinear_arith)
            requires
                count == width * height,
        ;
        if count > n / 4 || n != 4 * count {
            return None;
        }
        let mut data: Vec<u8> = Vec::new();
        let mut k: usize = 0;
        while k < count
            invariant
                k <= count,
                count == width * height,
                rgba@.len() == 4 * count,
                n == 4 * count,
                data@.len() == k,
                forall|m: int|
                    0 <= m < k ==> #[trigger] data@[m] as int == luma_spec(
                        rgba@[4 * m],
                        rgba@[4 * m + 1],
                        rgba@[4 * m + 2],
                    ),
            decreases count - k,
        {
            let l = rgba_to_luma(rgba[4 * k], rgba[4 * k + 1], rgba[4 * k + 2], rgba[4 * k + 3]);
            data.push(l);
            k = k + 1;
        }
        proof {
            assert(count % width == 0 && count > 0) by (nonlinear_arith)
                requires
                    count == width * height,
                    width > 0,
                    height > 0,
            ;
        }
        Some(Image { data, width })
    }

    /// The number of rows.
    pub fn height(&self) -> (r: usize)
        requires
            self.wf(),
        ensures
            r == self.grid_height(),
    {
        self.data.len() / self.width
    }

    /// The number of columns.
    pub fn width(&self) -> (r: usize)
        ensures
            r == self.grid_width(),
    {
        self.width
    }

    /// The rows, top first, each left to right.
    pub fn rows(&self) -> (r: Vec<Vec<u8>>)
        requires
            self.wf(),
        ensures
            r@.len() == self.grid_height(),
            forall|i: int| 0 <= i < r@.len() ==> #[trigger] r@[i]@ == self.row(i),
            forall|i: int| 0 <= i < r@.len() ==> #[trigger] r@[i]@.len() == self.grid_width(),
    {
        let w = self.width;
        let len = self.data.len();
        let h = len / w;
        let mut out: Vec<Vec<u8>> = Vec::new();
        let mut i: usize = 0;
        let mut start: usize = 0;
        while i < h
            invariant
                w == self.grid_width(),
                w > 0,
                len == self.data@.len(),
                h == self.grid_height(),
                self.wf(),
                i <= h,
                start == i * w,
                out@.len() == i,
                forall|m: int| 0 <= m < i ==> #[trigger] out@[m]@ == self.row(m),
                forall|m: int| 0 <= m < i ==> #[trigger] out@[m]@.len() == w,
            decreases h - i,
        {
            proof {
                let len = self.data@.len() as int;
                assert((i + 1) * w <= len) by (nonlinear_arith)
                    requires
                        i < h,
                        h == len / (w as int),
                        len % (w as int) == 0,
                        w > 0,
                ;
                assert((i + 1) * w == i * w + w) by (nonlinear_arith);
            }
            let mut row: Vec<u8> = Vec::new();
            let mut j: usize = 0;
            while j < w
                invariant
                    j <= w,
                    start + w <= self.data@.len(),
                    len == self.data@.len(),
                    row@ == self.data@.subrange(start as int, start + j),
                decreases w - j,
            {
                row.push(self.data[start + j]);
                j = j + 1;
                assert(row@ =~= self.data@.subrange(start as int, start + j));
            }
            out.push(row);
            i = i + 1;
            start = start + w;
            assert(out@[i - 1]@ == self.row(i - 1));
        }
        out
    }
}

} // verus!
