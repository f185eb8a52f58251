//! RGBA8 raster buffers at source resolution.
use vstd::prelude::*;
use vstd::arithmetic::div_mod::{
    lemma_fundamental_div_mod_converse_div,
    lemma_fundamental_div_mod_converse_mod,
};
use crate::error::ExtractionError;

verus! {

/// One picture as tightly packed RGBA8 pixels, row after row.
#[derive(Debug)]
pub struct RasterFrame {
    pub width: u32,
    pub height: u32,
    pub data: Vec<u8>,
}

/// Bytes in a tightly packed RGBA8 buffer of the given size.
pub open spec fn rgba_len(width: int, height: int) -> int {
    width * height * 4
}

impl RasterFrame {
    /// Whether the buffer holds exactly `width * height * 4` bytes.
    pub open spec fn well_shaped(&self) -> bool {
        self.data@.len() == rgba_len(self.width as int, self.height as int)
    }
}

/// Whether a plane of `plane_len` bytes whose rows start every `stride` bytes
/// holds `height` rows of `width` RGBA8 pixels.
pub open spec fn plane_holds(plane_len: int, stride: int, width: int, height: int) -> bool {
    &&& stride >= 4 * width
    &&& (height == 0 || (height - 1) * stride + 4 * width <= plane_len)
}

/// The tightly packed pixels of a strided plane: byte `i` of the result is
/// byte `i % row` of row `i / row`, where `row` is `4 * width`.
pub open spec fn packed(plane: Seq<u8>, stride: int, width: int, height: int) -> Seq<u8> {
    Seq::new(
        (height * (4 * width)) as nat,
        |i: int| plane[(i / (4 * width)) * stride + i % (4 * width)],
    )
}

/// Copies the pixels of a converted picture, whose rows start every `stride`
/// bytes of `plane` (rows may be padded), into a tightly packed RGBA8 buffer.
/// Fails with a scale error when the plane is too short or its rows too
/// narrow for the given size.
pub fn pack_rows(plane: &[u8], stride: usize, width: u32, height: u32) -> (r: Result<
    RasterFrame,
    ExtractionError,
>)
    ensures
        r is Ok <==> plane_holds(plane@.len() as int, stride as int, width as int, height as int),
        r is Err ==> r == Err::<RasterFrame, ExtractionError>(ExtractionError::Scale),
        r is Ok ==> ({
            let f = r->Ok_0;
            &&& f.width == width
            &&& f.height == height
            &&& f.well_shaped()
            &&& f.data@ == packed(plane@, stride as int, width as int, height as int)
        }),
{
    let row_wide: u128 = width as u128 * 4;
    if (stride as u128) < row_wide {
        return Err(ExtractionError::Scale);
    }
    if height > 0 {
        assert((height - 1) as u128 * stride as u128 <= 0x1_0000_0000u128 * 0x1_0000_0000_0000_0000u128) by (nonlinear_arith)
            requires height - 1 < 0x1_0000_0000u128, stride < 0x1_0000_0000_0000_0000u128, height >= 1;
        let last_start: u128 = (height - 1) as u128 * stride as u128;
        if last_start + row_wide > plane.len() as u128 {
            return Err(ExtractionError::Scale);
        }
    }
    let plane_len = plane.len();
    let row = row_wide as usize;
    let h = height as usize;
    let ghost wanted = packed(plane@, stride as int, width as int, height as int);
    let mut data: Vec<u8> = Vec::new();
    let mut y: usize = 0;
    while y < h
        invariant
            h == height,
            row == 4 * width,
            stride >= row,
            height == 0 || (height - 1) * stride + row <= plane@.len(),
            plane_len == plane@.len(),
            y <= h,
            data@.len() == y * row,
            forall|i: int| 0 <= i < data@.len() ==> #[trigger] data@[i] == plane@[(i / row as int) * stride + i % row as int],
        decreases h - y,
    {
        assert(y * stride + row <= plane@.len()) by (nonlinear_arith)
            requires y < h, h == height, (height - 1) * stride + row <= plane@.len(), stride >= 0;
        let start = y * stride;
        let mut x: usize = 0;
        while x < row
            invariant
                h == height,
                row == 4 * width,
                y < h,
                start == y * stride,
                start + row <= plane@.len(),
                plane_len == plane@.len(),
                x <= row,
                data@.len() == y * row + x,
                forall|i: int| 0 <= i < data@.len() ==> #[trigger] data@[i] == plane@[(i / row as int) * stride + i % row as int],
            decreases row - x,
        {
            proof {
                let i = y * row + x;
                lemma_fundamental_div_mod_converse_div(i, row as int, y as int, x as int);
                lemma_fundamental_div_mod_converse_mod(i, row as int, y as int, x as int);
            }
            data.push(plane[start + x]);
            x += 1;
        }
        assert(y * row + row == (y + 1) * row) by (nonlinear_arith);
        y += 1;
    }
    proof {
        assert(h * row == height * (4 * width));
        assert(height * (4 * width) == rgba_len(width as int, height as int)) by (nonlinear_arith);
        assert(data@.len() == wanted.len());
        assert forall|i: int| 0 <= i < data@.len() implies data@[i] == wanted[i] by {
            assert(row as int == 4 * width);
        }
        assert(data@ =~= wanted);
    }
    Ok(RasterFrame { width, height, data })
}

} // verus!
