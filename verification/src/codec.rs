//! The image codec boundary: decoding raster bytes to RGBA pixels and
//! encoding RGBA pixels to lossless WebP bytes.
//!
//! Both calls compute from plain byte values to plain byte values; each
//! stands behind a trusted wrapper.  The lossy encode is not here: its
//! quality argument is a float, so that call is left to the caller, which
//! hands it a buffer this library has already decoded and validated.

use vstd::prelude::*;
use vstd::string::StringExecFns;

use crate::errors::ConvError;

verus! {

/// The largest width or height the WebP encoder accepts
/// (libwebp's documented `WEBP_MAX_DIMENSION`).
pub const WEBP_MAX_DIMENSION: u32 = 16383;

/// The largest width or height the decoder hands back
/// (stb_image's documented `STBI_MAX_DIMENSIONS`).
pub const DECODER_MAX_DIMENSION: u32 = 0x1000000;

/// A decoded image: RGBA8 pixels in row-major order.
pub struct PixelBuffer {
    pub width: u32,
    pub height: u32,
    pub pixels: Vec<u8>,
}

impl PixelBuffer {
    /// Four bytes per pixel, one pixel per cell of the grid.
    pub open spec fn wf(&self) -> bool {
        self.pixels@.len() == 4 * (self.width as int) * (self.height as int)
    }

    /// Whether the WebP encoder accepts this buffer's dimensions.
    pub open spec fn spec_encodable(&self) -> bool {
        1 <= self.width <= WEBP_MAX_DIMENSION && 1 <= self.height <= WEBP_MAX_DIMENSION
    }

    pub fn encodable(&self) -> (r: bool)
        ensures
            r == self.spec_encodable(),
    {
        1 <= self.width && self.width <= WEBP_MAX_DIMENSION && 1 <= self.height
            && self.height <= WEBP_MAX_DIMENSION
    }
}

/// What the decoder handed back, before it is mapped to the library's
/// error type.
enum RawDecode {
    Rgba(PixelBuffer),
    Fail(String),
    HighDepth,
}

/// The RGBA8 image that the raster decoder produces from `bytes` at a
/// forced depth of four channels — width, height and pixels — or `None`
/// when it rejects the bytes or reports float (HDR) output.  The decoder
/// is a deterministic function of the bytes alone.
pub uninterp spec fn stb_rgba_of(bytes: Seq<u8>) -> Option<(u32, u32, Seq<u8>)>;

/// Relies on stb_image::image::load_from_memory_with_depth, called with a
/// forced depth of 4 channels: a deterministic function of the bytes, so
/// its result is named by `stb_rgba_of`.  On success it returns an
/// `ImageU8` whose `data` holds exactly `width * height * 4` bytes (the
/// crate builds the vector with that length from the decoder's buffer),
/// and stb_image rejects images wider or taller than 2^24 (its
/// `STBI_MAX_DIMENSIONS`).  HDR input is reported as `ImageF32` and
/// mapped to `HighDepth`.
#[verifier::external_body]
fn stb_decode_rgba(bytes: &Vec<u8>) -> (r: RawDecode)
    ensures
        (r is Rgba) <==> (stb_rgba_of(bytes@) is Some),
        r matches RawDecode::Rgba(b) ==> b.wf() && b.width <= DECODER_MAX_DIMENSION
            && b.height <= DECODER_MAX_DIMENSION && stb_rgba_of(bytes@) == Some(
            (b.width, b.height, b.pixels@),
        ),
{
    match stb_image::image::load_from_memory_with_depth(bytes.as_slice(), 4, false) {
        stb_image::image::LoadResult::ImageU8(img) => RawDecode::Rgba(
            PixelBuffer { width: img.width as u32, height: img.height as u32, pixels: img.data },
        ),
        stb_image::image::LoadResult::Error(msg) => RawDecode::Fail(msg),
        stb_image::image::LoadResult::ImageF32(_) => RawDecode::HighDepth,
    }
}

/// Decodes raster bytes (any recognized input format) into RGBA8 pixels.
/// Succeeds exactly on the bytes the decoder accepts, and then returns
/// precisely the decoder's image, a well-formed buffer.
pub fn decode_image(bytes: &Vec<u8>) -> (r: Result<PixelBuffer, ConvError>)
    ensures
        (r is Ok) <==> (stb_rgba_of(bytes@) is Some),
        r matches Ok(b) ==> b.wf() && b.width <= DECODER_MAX_DIMENSION
            && b.height <= DECODER_MAX_DIMENSION && stb_rgba_of(bytes@) == Some(
            (b.width, b.height, b.pixels@),
        ),
        r matches Err(e) ==> e is DecodeError,
{
    match stb_decode_rgba(bytes) {
        RawDecode::Rgba(b) => Ok(b),
        RawDecode::Fail(msg) => {
            let mut s = String::from_str("stb_image failed: ");
            s.append(msg.as_str());
            Err(ConvError::DecodeError(s))
        },
        RawDecode::HighDepth => Err(
            ConvError::DecodeError(String::from_str("Unsupported format")),
        ),
    }
}

/// The lossless WebP encoding of an RGBA8 buffer.  libwebp's lossless
/// encoder is a deterministic function of the pixels and the dimensions.
pub uninterp spec fn webp_lossless_bytes(pixels: Seq<u8>, width: int, height: int) -> Seq<u8>;

/// Relies on webp::Encoder::from_rgba and Encoder::encode_lossless over
/// libwebp: a deterministic encoding of the pixels and dimensions alone.
/// from_rgba panics when the buffer holds fewer than `width * height * 4`
/// bytes, and encode_lossless unwraps the encoder's result, which fails
/// for dimensions of zero or above `WEBP_MAX_DIMENSION`; the requires
/// leave those inputs out.
#[verifier::external_body]
fn webp_encode_lossless_raw(buf: &PixelBuffer) -> (r: Vec<u8>)
    requires
        buf.wf(),
        buf.spec_encodable(),
    ensures
        r@ == webp_lossless_bytes(buf.pixels@, buf.width as int, buf.height as int),
{
    let mem = webp::Encoder::from_rgba(buf.pixels.as_slice(), buf.width, buf.height)
        .encode_lossless();
    mem.to_vec()
}

/// Encodes a well-formed RGBA8 buffer as lossless WebP.  Succeeds exactly
/// on the dimensions the encoder accepts; anything else is an
/// `EncodeError` and nothing is encoded.
pub fn encode_lossless_image(buf: &PixelBuffer) -> (r: Result<Vec<u8>, ConvError>)
    requires
        buf.wf(),
    ensures
        buf.spec_encodable() ==> (r matches Ok(v) && v@ == webp_lossless_bytes(
            buf.pixels@,
            buf.width as int,
            buf.height as int,
        )),
        !buf.spec_encodable() ==> (r matches Err(e) && e is EncodeError),
{
    if buf.encodable() {
        Ok(webp_encode_lossless_raw(buf))
    } else {
        Err(ConvError::EncodeError(String::from_str("Image dimensions unsupported by the WebP encoder")))
    }
}

} // verus!
