//! Trusted wrappers around the image crate: decoding, pixel-format
//! classification, raw bytes, and the half-resolution resampling used to
//! build mipmap chains.
//!
//! Nothing is assumed about the pixel data a decode or a resample yields:
//! the verified mipmap builder tracks dimensions itself and checks every
//! byte length it is handed.

use vstd::prelude::*;

verus! {

/// The decoded pixel layouts the renderer can upload directly.
#[derive(Clone, Copy, PartialEq, Eq, Structural, Debug)]
pub enum PixelFormat {
    Rgb8,
    Rgba8,
    Rgb16,
    Rgba16,
    Unsupported,
}

#[verifier::external_type_specification]
#[verifier::external_body]
pub struct ExDynamicImage(image::DynamicImage);

/// Relies on `image::load_from_memory`: decodes an encoded image, or fails.
#[verifier::external_body]
pub(crate) fn decode_image(bytes: &[u8]) -> (r: Option<image::DynamicImage>) {
    image::load_from_memory(bytes).ok()
}

/// Relies on `image::DynamicImage::width`.
#[verifier::external_body]
pub(crate) fn image_width(img: &image::DynamicImage) -> (r: u32) {
    img.width()
}

/// Relies on `image::DynamicImage::height`.
#[verifier::external_body]
pub(crate) fn image_height(img: &image::DynamicImage) -> (r: u32) {
    img.height()
}

/// Relies on the `image::DynamicImage` variant tags: tells the four
/// directly uploadable layouts apart from everything else.
#[verifier::external_body]
pub(crate) fn image_format(img: &image::DynamicImage) -> (r: PixelFormat) {
    match img {
        image::DynamicImage::ImageRgb8(_) => PixelFormat::Rgb8,
        image::DynamicImage::ImageRgba8(_) => PixelFormat::Rgba8,
        image::DynamicImage::ImageRgb16(_) => PixelFormat::Rgb16,
        image::DynamicImage::ImageRgba16(_) => PixelFormat::Rgba16,
        _ => PixelFormat::Unsupported,
    }
}

/// Relies on `image::DynamicImage::as_bytes`: the raw pixel bytes.
#[verifier::external_body]
pub(crate) fn image_bytes(img: &image::DynamicImage) -> (r: Vec<u8>) {
    img.as_bytes().to_vec()
}

/// Relies on `image::DynamicImage::resize_exact`: resamples to the given
/// dimensions, with a higher-quality filter for gamma-encoded images (to
/// reduce visible banding after re-linearization) than for linear data.
#[verifier::external_body]
pub(crate) fn image_resize(img: &image::DynamicImage, width: u32, height: u32, smooth: bool) -> (r:
    image::DynamicImage) {
    img.resize_exact(
        width,
        height,
        if smooth {
            image::imageops::FilterType::CatmullRom
        } else {
            image::imageops::FilterType::Triangle
        },
    )
}

} // verus!
