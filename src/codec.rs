//! Image codec adapter: decides on resizing, encodes to JPEG and optionally
//! adds a zlib layer. Pixel work is done by the `image` crate, the zlib layer
//! by `flate2`.
use vstd::prelude::*;

use crate::config::{PageConfig, PageSize};
use crate::error::Error;
use crate::layout::{resize_target, spec_resize_target, spec_usable};

verus! {

#[verifier::external_type_specification]
#[verifier::external_body]
pub struct ExDynamicImage(image::DynamicImage);

#[verifier::external_type_specification]
#[verifier::external_body]
pub struct ExImageError(image::ImageError);

#[verifier::external_type_specification]
#[verifier::external_body]
pub struct ExIoError(std::io::Error);

/// The zlib stream that `flate2` produces for `data` at its default level.
pub uninterp spec fn zlib_of(data: Seq<u8>) -> Seq<u8>;

/// The width and height of a decoded image.
pub uninterp spec fn dims_of(image: image::DynamicImage) -> (u32, u32);

/// The JPEG encoding of an image at `quality`, or `None` where the encoder
/// refuses the image.
pub uninterp spec fn jpeg_of(image: image::DynamicImage, quality: u8) -> Option<Seq<u8>>;

/// Relies on `image::GenericImageView::dimensions`: the width and height of
/// the decoded image.
#[verifier::external_body]
pub(crate) fn image_dimensions(image: &image::DynamicImage) -> (r: (u32, u32))
    ensures
        r == dims_of(*image),
{
    image::GenericImageView::dimensions(image)
}

/// A `w` x `h` image is an aspect-preserving fit of a `width` x `height`
/// image into `bw` x `bh`: it fits, one side reaches its bound, and the
/// aspect ratio is kept up to rounding each side.
pub open spec fn fitted(width: u32, height: u32, bw: u32, bh: u32, w: u32, h: u32) -> bool {
    &&& w <= bw
    &&& h <= bh
    &&& (width >= 1 || height >= 1) ==> (w == bw || h == bh)
    &&& -(width + height) <= (w as int) * (height as int) - (h as int) * (width as int) <= width
        + height
}

/// Relies on `image::DynamicImage::resize` with the Lanczos3 filter: the
/// image is scaled to the largest size that fits the bounds, keeping its
/// aspect ratio (each side rounded, and at least 1). The pixels are not
/// stated: the filter's weights come from `f32::sin`.
#[verifier::external_body]
fn resize_image(image: &image::DynamicImage, width: u32, height: u32) -> (r: image::DynamicImage)
    ensures
        width >= 1 && height >= 1 ==> fitted(
            dims_of(*image).0,
            dims_of(*image).1,
            width,
            height,
            dims_of(r).0,
            dims_of(r).1,
        ),
{
    image.resize(width, height, image::imageops::FilterType::Lanczos3)
}

/// Relies on `image::DynamicImage::write_to` with `ImageOutputFormat::Jpeg`:
/// the JPEG encoding of the image at the given quality.
#[verifier::external_body]
fn encode_jpeg(image: &image::DynamicImage, quality: u8) -> (r: Result<Vec<u8>, image::ImageError>)
    ensures
        r is Ok <==> jpeg_of(*image, quality) is Some,
        r is Ok ==> r->Ok_0@ == jpeg_of(*image, quality)->Some_0,
{
    let mut data = Vec::new();
    match image.write_to(
        &mut std::io::Cursor::new(&mut data),
        image::ImageOutputFormat::Jpeg(quality),
    ) {
        Ok(()) => Ok(data),
        Err(e) => Err(e),
    }
}

/// Relies on `flate2::write::ZlibEncoder` at `Compression::default()`: the
/// bytes written through it, once finished, are the zlib stream of `data`.
#[verifier::external_body]
fn zlib_compress(data: &Vec<u8>) -> (r: Result<Vec<u8>, std::io::Error>)
    ensures
        r is Ok ==> r->Ok_0@ == zlib_of(data@),
{
    let mut encoder = flate2::write::ZlibEncoder::new(Vec::new(), flate2::Compression::default());
    match std::io::Write::write_all(&mut encoder, data) {
        Ok(()) => encoder.finish(),
        Err(e) => Err(e),
    }
}

/// The usable area of a fixed-size page is at least one pixel each way, or
/// the page takes the image's size.
pub open spec fn has_room(cfg: PageConfig) -> bool {
    cfg.size == PageSize::Image || (spec_usable(cfg).0 >= 1 && spec_usable(cfg).1 >= 1)
}

/// `r` is what `preprocess` may hand back for `image` on a page laid out
/// with `cfg`: the image itself when it needs no resize, otherwise an
/// aspect-preserving fit into the bounds `resize_target` gives.
pub open spec fn preprocessed(image: image::DynamicImage, r: image::DynamicImage, cfg: PageConfig) -> bool {
    match spec_resize_target(dims_of(image).0, dims_of(image).1, cfg) {
        None => r == image,
        Some(t) => t.0 >= 1 && t.1 >= 1 ==> fitted(
            dims_of(image).0,
            dims_of(image).1,
            t.0,
            t.1,
            dims_of(r).0,
            dims_of(r).1,
        ),
    }
}

/// Resizes the image when it does not fit the usable area of the page
/// (see `resize_target`); otherwise hands it back untouched. Where the page
/// has room, the result fits, so running this again changes nothing.
pub fn preprocess(image: image::DynamicImage, page_config: &PageConfig) -> (r: image::DynamicImage)
    ensures
        preprocessed(image, r, *page_config),
        has_room(*page_config) ==> spec_resize_target(dims_of(r).0, dims_of(r).1, *page_config) is None,
{
    let (width, height) = image_dimensions(&image);
    match resize_target(width, height, page_config) {
        Some((w, h)) => resize_image(&image, w, h),
        None => image,
    }
}

/// The stream that is stored for an already JPEG-encoded image: the JPEG
/// bytes themselves, or their zlib stream when `compress` is set.
pub open spec fn spec_stream(jpeg: Seq<u8>, compress: bool) -> Seq<u8> {
    if compress {
        zlib_of(jpeg)
    } else {
        jpeg
    }
}

/// Adds the optional zlib layer over JPEG bytes.
pub fn compress_stream(jpeg: Vec<u8>, compress: bool) -> (r: Result<Vec<u8>, Error>)
    ensures
        !compress ==> r is Ok,
        r is Ok ==> r->Ok_0@ == spec_stream(jpeg@, compress),
        r is Err ==> r->Err_0 is Io,
{
    if compress {
        match zlib_compress(&jpeg) {
            Ok(data) => Ok(data),
            Err(e) => Err(Error::Io(e)),
        }
    } else {
        Ok(jpeg)
    }
}

/// Encodes the image as JPEG at `quality`, then adds the zlib layer when
/// `compress` is set. A codec failure is an `Image` error, a zlib failure an
/// `Io` error.
pub fn encode_image(image: &image::DynamicImage, quality: u8, compress: bool) -> (r: Result<Vec<u8>, Error>)
    ensures
        jpeg_of(*image, quality) is None ==> r is Err && r->Err_0 is Image,
        jpeg_of(*image, quality) is Some && !compress ==> r is Ok,
        jpeg_of(*image, quality) is Some && r is Err ==> compress && r->Err_0 is Io,
        r is Ok ==> r->Ok_0@ == spec_stream(jpeg_of(*image, quality)->Some_0, compress),
{
    match encode_jpeg(image, quality) {
        Ok(jpeg) => compress_stream(jpeg, compress),
        Err(e) => Err(Error::Image(e)),
    }
}

} // verus!
