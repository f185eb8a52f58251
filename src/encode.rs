//! PNG encoding of raster buffers.
use vstd::prelude::*;
use crate::error::EncodeError;
use crate::raster::{rgba_len, RasterFrame};

verus! {

#[verifier::external_type_specification]
#[verifier::external_body]
pub struct ExImageError(image::ImageError);

/// The PNG bytes that the image codec writes for an RGBA8 buffer of the given
/// size.
pub uninterp spec fn png_of(width: u32, height: u32, rgba: Seq<u8>) -> Seq<u8>;

/// Relies on `image::write_buffer_with_format`, with `ExtendedColorType::Rgba8`
/// and `ImageFormat::Png`, writing into memory: the PNG bytes depend on the
/// pixels and the size alone. It panics unless the buffer holds exactly
/// `width * height * 4` bytes; the PNG writer refuses a zero width or height,
/// and writing into memory does not fail otherwise.
#[verifier::external_body]
fn write_png(width: u32, height: u32, rgba: &[u8]) -> (r: Result<Vec<u8>, image::ImageError>)
    requires
        rgba@.len() == rgba_len(width as int, height as int),
    ensures
        r.is_ok() == (width > 0 && height > 0),
        r is Ok ==> r->Ok_0@ == png_of(width, height, rgba@),
{
    let mut out = std::io::Cursor::new(Vec::new());
    match image::write_buffer_with_format(
        &mut out,
        rgba,
        width,
        height,
        image::ExtendedColorType::Rgba8,
        image::ImageFormat::Png,
    ) {
        Ok(()) => Ok(out.into_inner()),
        Err(e) => Err(e),
    }
}

/// Whether a raster frame can be encoded: its buffer has the right length
/// and the picture is not empty.
pub open spec fn encodable(frame: RasterFrame) -> bool {
    frame.well_shaped() && frame.width > 0 && frame.height > 0
}

/// The error that encoding a frame gives when it is not encodable.
pub open spec fn encode_error_of(frame: RasterFrame) -> EncodeError {
    if frame.well_shaped() {
        EncodeError::Codec
    } else {
        EncodeError::BufferLength
    }
}

/// Encodes a raster frame as a PNG image. A buffer whose length is not
/// `width * height * 4` is refused with `BufferLength`; nothing is
/// substituted for it. A picture of zero width or height is refused by the
/// codec.
pub fn encode_preview(frame: &RasterFrame) -> (r: Result<Vec<u8>, EncodeError>)
    ensures
        r is Ok <==> encodable(*frame),
        r is Err ==> r->Err_0 == encode_error_of(*frame),
        r is Ok ==> r->Ok_0@ == png_of(frame.width, frame.height, frame.data@),
{
    assert(frame.width as u128 * frame.height as u128 * 4 <= 0x1_0000_0000u128 * 0x1_0000_0000u128 * 4) by (nonlinear_arith)
        requires frame.width < 0x1_0000_0000u128, frame.height < 0x1_0000_0000u128;
    let expected: u128 = frame.width as u128 * frame.height as u128 * 4;
    if frame.data.len() as u128 != expected {
        return Err(EncodeError::BufferLength);
    }
    match write_png(frame.width, frame.height, frame.data.as_slice()) {
        Ok(png) => Ok(png),
        Err(_) => Err(EncodeError::Codec),
    }
}

} // verus!
