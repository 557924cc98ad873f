//! What the `image` crate does for the engine: it reads and writes image
//! files, resamples, and blends one raster over another.

use vstd::prelude::*;

use crate::blueprint::raster::{Raster, RasterView};

verus! {

/// The error of the `image` crate. What is inside is not looked at.
#[verifier::external_type_specification]
#[verifier::external_body]
pub struct ExImageError(image::error::ImageError);

/// The bytes of `bottom` after `top` was blended over it with its corner at
/// `(x, y)`.
pub uninterp spec fn overlaid(bottom: RasterView, top: RasterView, x: int, y: int) -> Seq<u8>;

/// The width and height of the image that an image file holds, if the
/// bytes are one that the decoders read.
pub uninterp spec fn decoded_size(bytes: Seq<u8>) -> Option<(nat, nat)>;

/// The PNG file of an image, if it has one.
pub uninterp spec fn png_of(image: RasterView) -> Option<Seq<u8>>;

/// What blending keeps exact: `after` has the size of `bottom`; away from
/// `top`, and under pixels of `top` with alpha 0, it holds the pixels of
/// `bottom`; under pixels of `top` with alpha 255 it holds the pixels of
/// `top`. Nothing is said here of pixels under other alphas.
pub open spec fn blended(
    bottom: RasterView,
    top: RasterView,
    x: int,
    y: int,
    after: RasterView,
) -> bool {
    &&& after.width == bottom.width
    &&& after.height == bottom.height
    &&& after.wf()
    &&& forall|px: int, py: int|
        bottom.covers(px, py) && !top.covers(px - x, py - y) ==> #[trigger] after.pixel(px, py)
            == bottom.pixel(px, py)
    &&& forall|px: int, py: int|
        bottom.covers(px, py) && top.covers(px - x, py - y) && top.alpha(px - x, py - y) == 0
            ==> #[trigger] after.pixel(px, py) == bottom.pixel(px, py)
    &&& forall|px: int, py: int|
        bottom.covers(px, py) && top.covers(px - x, py - y) && top.alpha(px - x, py - y) == 255
            ==> #[trigger] after.pixel(px, py) == top.pixel(px - x, py - y)
}

/// The sizes up to which a raster can be resampled: the rows of the result
/// fit in memory as bytes and, with the source's width, as floats.
pub open spec fn resizable(source: RasterView, width: nat, height: nat) -> bool {
    &&& 16 * (source.width * height) <= isize::MAX
    &&& 16 * (width * height) <= isize::MAX
}

/// Calls `image::imageops::overlay`, which blends `top` over `bottom` with
/// the corner of `top` at `(x, y)` and drops what falls outside. Its source
/// shows that the size stays, that pixels away from `top` or under a pixel
/// with alpha 0 stay, and that a pixel with alpha 255 replaces what is
/// under it.
#[verifier::external_body]
pub(crate) fn overlay_image(bottom: &mut Raster, top: &Raster, x: i64, y: i64)
    requires
        old(bottom).wf(),
        top.wf(),
    ensures
        final(bottom)@.pixels == overlaid(old(bottom)@, top@, x as int, y as int),
        blended(old(bottom)@, top@, x as int, y as int, final(bottom)@),
{
    let under = std::mem::take(&mut bottom.pixels);
    let mut image = image::RgbaImage::from_raw(bottom.width, bottom.height, under).unwrap();
    let above = image::ImageBuffer::<image::Rgba<u8>, &[u8]>::from_raw(
        top.width,
        top.height,
        top.pixels.as_slice(),
    ).unwrap();
    image::imageops::overlay(&mut image, &above, x, y);
    bottom.pixels = image.into_raw();
}

/// Calls `image::imageops::resize` with the filter `Lanczos3`. The result
/// has the size asked for, and its source shows that a raster resized to its
/// own size is copied. What the resampled pixels are is not said: the
/// filter goes through functions whose precision is the machine's.
#[verifier::external_body]
pub(crate) fn resize_image(source: &Raster, width: u32, height: u32) -> (result: Raster)
    requires
        source.wf(),
        resizable(source@, width as nat, height as nat),
    ensures
        result.wf(),
        result@.width == width,
        result@.height == height,
        width == source@.width && height == source@.height ==> result@ == source@,
{
    let image = image::ImageBuffer::<image::Rgba<u8>, &[u8]>::from_raw(
        source.width,
        source.height,
        source.pixels.as_slice(),
    ).unwrap();
    let sized = image::imageops::resize(&image, width, height, image::imageops::FilterType::Lanczos3);
    Raster { width, height, pixels: sized.into_raw() }
}

/// Reads an image file with `image::io::Reader`: the format is guessed from
/// the first bytes, the file is decoded, and the image is turned into RGBA
/// with eight bits a channel, four bytes for each pixel. Whether the bytes
/// are read, and how large the image is, goes by the bytes alone: the
/// reader's limit on the memory of a decoded image is the same number on
/// every machine. What the pixels are is not said: some decoders go through
/// functions whose precision is the machine's.
#[verifier::external_body]
pub(crate) fn decode_image(bytes: &Vec<u8>) -> (result: Result<Raster, image::error::ImageError>)
    ensures
        match result {
            Ok(raster) => raster.wf() && decoded_size(bytes@) == Some(
                (raster@.width, raster@.height),
            ),
            Err(_) => decoded_size(bytes@) is None,
        },
{
    let reader = image::io::Reader::new(std::io::Cursor::new(bytes.as_slice()));
    let reader = reader.with_guessed_format().map_err(image::error::ImageError::IoError)?;
    let image = reader.decode()?.into_rgba8();
    Ok(Raster { width: image.width(), height: image.height(), pixels: image.into_raw() })
}

/// Writes a raster as a PNG file with `image::codecs::png::PngEncoder`.
#[verifier::external_body]
pub(crate) fn encode_png(raster: &Raster) -> (result: Result<Vec<u8>, image::error::ImageError>)
    requires
        raster.wf(),
    ensures
        match result {
            Ok(bytes) => png_of(raster@) == Some(bytes@),
            Err(_) => png_of(raster@) is None,
        },
{
    let image = image::ImageBuffer::<image::Rgba<u8>, &[u8]>::from_raw(
        raster.width,
        raster.height,
        raster.pixels.as_slice(),
    ).unwrap();
    let mut bytes = Vec::new();
    image.write_with_encoder(image::codecs::png::PngEncoder::new(&mut bytes))?;
    Ok(bytes)
}

/// The words of an `image::error::ImageError`, as its `to_string` gives
/// them.
#[verifier::external_body]
pub(crate) fn error_text(error: &image::error::ImageError) -> (text: String) {
    error.to_string()
}

} // verus!
