use crate::grid::Image;
use vstd::prelude::*;

verus! {

/// One image row as a frequency band: the row's intensities, left to right
/// (one per time block), and the band's frequency as a number of frequency
/// steps above the bottom of the range.
pub struct IntensityBand {
    pub frequency_step: usize,
    pub intensities: Vec<u8>,
}

/// One band per row, top row first. The top row lies highest in frequency:
/// row `i` of `H` sits `H - 1 - i` steps above the bottom of the range.
pub fn decompose(image: &Image) -> (r: Vec<IntensityBand>)
    requires
        image.wf(),
    ensures
        r@.len() == image.grid_height(),
        forall|i: int|
            0 <= i < r@.len() ==> {
                &&& #[trigger] r@[i].frequency_step == image.grid_height() - 1 - i
                &&& r@[i].intensities@ == image.row(i)
                &&& r@[i].intensities@.len() == image.grid_width()
            },
{
    let h = image.height();
    let rows = image.rows();
    let mut out: Vec<IntensityBand> = Vec::new();
    let mut i: usize = 0;
    while i < h
        invariant
            h == image.grid_height(),
            rows@.len() == h,
            forall|m: int| 0 <= m < h ==> #[trigger] rows@[m]@ == image.row(m),
            forall|m: int| 0 <= m < h ==> #[trigger] rows@[m]@.len() == image.grid_width(),
            i <= h,
            out@.len() == i,
            forall|m: int|
                0 <= m < i ==> {
                    &&& #[trigger] out@[m].frequency_step == h - 1 - m
                    &&& out@[m].intensities@ == image.row(m)
                    &&& out@[m].intensities@.len() == image.grid_width()
                },
        decreases h - i,
    {
        let intensities = rows[i].clone();
        assert(intensities@ =~= rows@[i as int]@);
        out.push(IntensityBand { frequency_step: h - 1 - i, intensities });
        i = i + 1;
    }
    out
}

} // verus!
