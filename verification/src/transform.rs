//! The transform pipeline on decoded images: reading the dimensions of an
//! `image::DynamicImage`, planning the target dimensions, and resampling
//! through the `image` crate. Decoding from and encoding to disk are left to
//! the caller.

use vstd::prelude::*;
use image::GenericImageView;
use crate::dims::RescaleMode;
use crate::dims::TransformError;
use crate::dims::mode_wf;
use crate::dims::plan_spec;
use crate::dims::lemma_u32_product_bound;

verus! {

#[verifier::external_type_specification]
#[verifier::external_body]
pub struct ExDynamicImage(image::DynamicImage);

/// The width and height of a decoded image.
pub uninterp spec fn image_dims(img: image::DynamicImage) -> (u32, u32);

/// The resampling buffers stay within the allocation limit: a pixel takes at
/// most 16 bytes, and the resampler builds one buffer of the source width by
/// the target height and one of the target dimensions.
pub open spec fn resample_fits(src_w: nat, w: nat, h: nat) -> bool {
    &&& 16 * (src_w * h) <= isize::MAX as nat
    &&& 16 * (w * h) <= isize::MAX as nat
}

/// Relies on `<image::DynamicImage as GenericImageView>::dimensions`: the
/// width and height of the image, a function of the image value alone.
#[verifier::external_body]
fn dimensions_of(img: &image::DynamicImage) -> (r: (u32, u32))
    ensures
        r == image_dims(*img),
{
    img.dimensions()
}

/// Relies on `image::DynamicImage::resize_exact` with the triangle
/// (bilinear) filter: the result is a new image whose dimensions are exactly
/// the requested ones.
#[verifier::external_body]
fn resize_exact_triangle(img: &image::DynamicImage, w: u32, h: u32) -> (r: image::DynamicImage)
    requires
        resample_fits(image_dims(*img).0 as nat, w as nat, h as nat),
    ensures
        image_dims(r) == (w, h),
{
    img.resize_exact(w, h, image::imageops::FilterType::Triangle)
}

/// Decides whether the resampling buffers for the given source width and
/// target dimensions stay within the allocation limit.
fn resample_fits_check(src_w: u32, w: u32, h: u32) -> (b: bool)
    ensures
        b == resample_fits(src_w as nat, w as nat, h as nat),
{
    proof {
        lemma_u32_product_bound(src_w as nat, h as nat);
        lemma_u32_product_bound(w as nat, h as nat);
    }
    let p: u128 = (src_w as u128) * (h as u128);
    let q: u128 = (w as u128) * (h as u128);
    16 * p <= isize::MAX as u128 && 16 * q <= isize::MAX as u128
}

/// Resizes `img` to exactly `width` by `height` pixels, ignoring its aspect
/// ratio; fails exactly when the resampling buffers would not fit in memory.
pub fn resize_image(img: &image::DynamicImage, width: u32, height: u32) -> (res: Result<
    image::DynamicImage,
    TransformError,
>)
    ensures
        ({
            let fits = resample_fits(image_dims(*img).0 as nat, width as nat, height as nat);
            match res {
                Ok(out) => image_dims(out) == (width, height) && fits,
                Err(e) => e == TransformError::DimensionOverflow && !fits,
            }
        }),
{
    let (w, _) = dimensions_of(img);
    if resample_fits_check(w, width, height) {
        Ok(resize_exact_triangle(img, width, height))
    } else {
        Err(TransformError::DimensionOverflow)
    }
}

/// Rescales `img` as the mode directs: plans the target dimensions from the
/// image's own dimensions, then resamples to exactly those dimensions. On
/// success the new image is returned together with its dimensions, which the
/// caller embeds in the output file name.
pub fn rescale_image(img: &image::DynamicImage, mode: &RescaleMode) -> (res: Result<
    (image::DynamicImage, u32, u32),
    TransformError,
>)
    requires
        mode_wf(*mode),
    ensures
        ({
            let dims = image_dims(*img);
            let p = plan_spec(dims.0 as nat, dims.1 as nat, *mode);
            match res {
                Ok(t) => {
                    &&& p == Result::<(nat, nat), TransformError>::Ok(
                        ((t.1 as nat), (t.2 as nat)),
                    )
                    &&& image_dims(t.0) == (t.1, t.2)
                    &&& resample_fits(dims.0 as nat, t.1 as nat, t.2 as nat)
                },
                Err(e) => match p {
                    Result::Ok(d) => e == TransformError::DimensionOverflow && !resample_fits(
                        dims.0 as nat,
                        d.0,
                        d.1,
                    ),
                    Result::Err(pe) => e == pe,
                },
            }
        }),
{
    let (w, h) = dimensions_of(img);
    match crate::dims::plan_rescale(w, h, mode) {
        Ok(d) => {
            if resample_fits_check(w, d.0, d.1) {
                Ok((resize_exact_triangle(img, d.0, d.1), d.0, d.1))
            } else {
                Err(TransformError::DimensionOverflow)
            }
        },
        Err(e) => Err(e),
    }
}

} // verus!
