//! The image loader: decodes a raster image from its bytes and resizes it to
//! the bounded working resolution the quantization backends run on.
//!
//! The decoding and resampling themselves are done by the `image` crate
//! behind trusted declarations; everything the pipeline reads out of them is
//! a plain RGBA byte buffer with its dimensions, held in [`PixelBuffer`].

use vstd::prelude::*;

use crate::PaletteError;

verus! {

#[verifier::external_type_specification]
#[verifier::external_body]
pub struct ExDynamicImage(image::DynamicImage);

/// An RGBA buffer of the `image` crate, held behind an opaque field because
/// its type cannot be declared to the verifier; everything read out of it
/// goes through the trusted accessors below.
#[verifier::external_body]
pub struct RgbaBuffer {
    inner: image::RgbaImage,
}

/// What decoding yields for given bytes: the decoded image's pixel contents
/// and its width and height, or nothing where the bytes are corrupt or of an
/// unsupported format. Decoding sniffs the format from the content alone, so
/// the outcome depends on the bytes alone.
pub uninterp spec fn decode_of(bytes: Seq<u8>) -> Option<(Seq<u8>, nat, nat)>;

/// The pixel contents a decoded image holds.
pub uninterp spec fn dyn_data(img: image::DynamicImage) -> Seq<u8>;

/// The width and height of a decoded image.
pub uninterp spec fn dyn_dims(img: image::DynamicImage) -> (nat, nat);

/// What Lanczos3 resizing to fit the bounds `(w, h)` yields for an image
/// with the given contents and dimensions: the resized contents and
/// dimensions.
pub uninterp spec fn resize_of(data: Seq<u8>, dims: (nat, nat), w: u32, h: u32) -> (
    Seq<u8>,
    (nat, nat),
);

/// The row-major RGBA bytes of the conversion of an image with the given
/// contents and dimensions.
pub uninterp spec fn rgba_of(data: Seq<u8>, dims: (nat, nat)) -> Seq<u8>;

/// The raw contents an RGBA buffer holds: row-major, 4 bytes per pixel.
pub uninterp spec fn rgba_data(img: RgbaBuffer) -> Seq<u8>;

/// The width and height of an RGBA buffer.
pub uninterp spec fn rgba_dims(img: RgbaBuffer) -> (nat, nat);

/// Relies on image::load_from_memory: decodes after guessing the format from
/// the byte content; a deterministic function of the bytes alone.
#[verifier::external_body]
fn decode_image(bytes: &[u8]) -> (r: Option<image::DynamicImage>)
    ensures
        r is Some <==> decode_of(bytes@) is Some,
        r matches Some(img) ==> {
            let d = decode_of(bytes@).unwrap();
            dyn_data(img) == d.0 && dyn_dims(img) == (d.1, d.2)
        },
{
    image::load_from_memory(bytes).ok()
}

/// Relies on image::DynamicImage::dimensions (GenericImageView): reports the
/// image's width and height.
#[verifier::external_body]
fn image_dims(img: &image::DynamicImage) -> (r: (u32, u32))
    ensures
        (r.0 as nat, r.1 as nat) == dyn_dims(*img),
{
    image::GenericImageView::dimensions(img)
}

/// Relies on image::DynamicImage::resize with the Lanczos3 filter: scales to
/// the largest size fitting within the bounds that preserves aspect ratio; a
/// deterministic function of the image and the bounds, and never produces a
/// zero dimension when the bounds are at least 1 each.
#[verifier::external_body]
fn resize_image(img: &image::DynamicImage, w: u32, h: u32) -> (r: image::DynamicImage)
    ensures
        (dyn_data(r), dyn_dims(r)) == resize_of(dyn_data(*img), dyn_dims(*img), w, h),
        w >= 1 && h >= 1 ==> dyn_dims(r).0 >= 1 && dyn_dims(r).1 >= 1,
{
    img.resize(w, h, image::imageops::FilterType::Lanczos3)
}

/// Relies on image::DynamicImage::to_rgba8: converts to a tightly packed
/// row-major RGBA buffer of the same dimensions, 4 bytes per pixel.
#[verifier::external_body]
fn image_to_rgba(img: &image::DynamicImage) -> (r: RgbaBuffer)
    ensures
        rgba_dims(r) == dyn_dims(*img),
        rgba_data(r) == rgba_of(dyn_data(*img), dyn_dims(*img)),
        rgba_data(r).len() == 4 * dyn_dims(*img).0 * dyn_dims(*img).1,
{
    RgbaBuffer { inner: img.to_rgba8() }
}

/// Relies on image::ImageBuffer::dimensions: reports the buffer's width and
/// height.
#[verifier::external_body]
fn rgba_dimensions(img: &RgbaBuffer) -> (r: (u32, u32))
    ensures
        (r.0 as nat, r.1 as nat) == rgba_dims(*img),
{
    img.inner.dimensions()
}

/// Relies on image::ImageBuffer::into_raw: hands out the underlying raw
/// sample container unchanged.
#[verifier::external_body]
fn rgba_into_raw(img: RgbaBuffer) -> (r: Vec<u8>)
    ensures
        r@ == rgba_data(img),
{
    img.inner.into_raw()
}

/// An owned row-major RGBA raster: the working buffer all quantization runs
/// on, produced once per invocation and read-only thereafter.
pub struct PixelBuffer {
    pub width: u32,
    pub height: u32,
    pub data: Vec<u8>,
}

impl PixelBuffer {
    /// The buffer is nonempty and tightly packed: 4 bytes per pixel.
    pub open spec fn wf(&self) -> bool {
        &&& self.data@.len() == 4 * self.width * self.height
        &&& self.width >= 1
        &&& self.height >= 1
    }
}

/// The bytes decode to an image with at least one pixel.
pub open spec fn decode_accepts(bytes: Seq<u8>) -> bool {
    match decode_of(bytes) {
        Some(d) => d.1 >= 1 && d.2 >= 1,
        None => false,
    }
}

/// The working width every image is resized to before quantization.
pub const WORKING_WIDTH: u32 = 400;

/// The resize bound on the height: the decoded height scaled by the ratio of
/// the working width to the decoded width, kept within `u32` and above zero.
pub open spec fn target_height_spec(w0: nat, h0: nat) -> u32
    recommends
        w0 >= 1,
{
    let scaled = (h0 * WORKING_WIDTH) as int / w0 as int;
    if scaled == 0 {
        1u32
    } else if scaled > u32::MAX as int {
        u32::MAX
    } else {
        scaled as u32
    }
}

/// The RGBA working buffer the pipeline derives from given image bytes: the
/// decoded image, resized to the working width, converted to RGBA. The whole
/// chain is a function of the bytes alone.
pub open spec fn decoded_buffer_of(bytes: Seq<u8>) -> (Seq<u8>, (nat, nat))
    recommends
        decode_accepts(bytes),
{
    let d = decode_of(bytes).unwrap();
    let rs = resize_of(d.0, (d.1, d.2), WORKING_WIDTH, target_height_spec(d.1, d.2));
    (rgba_of(rs.0, rs.1), rs.1)
}

/// Decodes an image from its bytes and resizes it to the working width,
/// preserving aspect ratio with Lanczos3 resampling.
///
/// Fails with `ImageDecodeError`, and with nothing else, exactly where the
/// bytes do not decode to an image with at least one pixel.
pub fn decode_rgba(bytes: &[u8]) -> (r: Result<PixelBuffer, PaletteError>)
    ensures
        r is Ok <==> decode_accepts(bytes@),
        r matches Ok(buf) ==> buf.wf() && buf.data@ == decoded_buffer_of(bytes@).0 && (
        buf.width as nat,
        buf.height as nat,
        ) == decoded_buffer_of(bytes@).1,
        r matches Err(e) ==> e == PaletteError::ImageDecodeError,
{
    let img = match decode_image(bytes) {
        Some(i) => i,
        None => {
            return Err(PaletteError::ImageDecodeError);
        },
    };
    let (w0, h0) = image_dims(&img);
    if w0 == 0 || h0 == 0 {
        return Err(PaletteError::ImageDecodeError);
    }
    let scaled: u64 = (h0 as u64) * (WORKING_WIDTH as u64) / (w0 as u64);
    let target_h: u32 = if scaled == 0 {
        1
    } else if scaled > u32::MAX as u64 {
        u32::MAX
    } else {
        scaled as u32
    };
    let resized = resize_image(&img, WORKING_WIDTH, target_h);
    let rgba = image_to_rgba(&resized);
    let (w, h) = rgba_dimensions(&rgba);
    let data = rgba_into_raw(rgba);
    Ok(PixelBuffer { width: w, height: h, data })
}

} // verus!
