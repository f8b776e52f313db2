//! The image operations the library relies on.
use vstd::prelude::*;
use image::DynamicImage;

verus! {

#[verifier::external_type_specification]
#[verifier::external_body]
pub struct ExDynamicImage(DynamicImage);

/// The width in pixels of an image.
pub uninterp spec fn pixel_width(img: DynamicImage) -> u32;

/// The part of `img` that `DynamicImage::crop_imm` cuts out at the given
/// pixel offset and extent.
pub uninterp spec fn cropped(img: DynamicImage, x: u32, y: u32, width: u32, height: u32) -> DynamicImage;

/// Relies on `DynamicImage::width`: the width of the underlying buffer.
pub assume_specification[ DynamicImage::width ](img: &DynamicImage) -> (r: u32)
    ensures
        r == pixel_width(*img),
;

/// Relies on `DynamicImage::crop_imm`: a new image holding the cut-out, whose
/// contents depend on the image and the rectangle alone. The rectangle is
/// clamped to the image, so no input makes it fail.
pub assume_specification[ DynamicImage::crop_imm ](
    img: &DynamicImage,
    x: u32,
    y: u32,
    width: u32,
    height: u32,
) -> (r: DynamicImage)
    ensures
        r == cropped(*img, x, y, width, height),
;

} // verus!
