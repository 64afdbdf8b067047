use image::ColorType;
use image::DynamicImage;
use image::GenericImageView;
use rescaler::dims::RescaleMode;
use rescaler::paths::rescale_output_path;
use rescaler::transform::rescale_image;
use rescaler::transform::resize_image;

#[test]
fn resize_produces_exact_dimensions() {
    let img = DynamicImage::new(800, 600, ColorType::Rgb8);
    let out = resize_image(&img, 100, 50).unwrap();
    assert_eq!(out.dimensions(), (100, 50));
}

#[test]
fn resize_ignores_aspect_ratio() {
    let img = DynamicImage::new(10, 10, ColorType::Rgba8);
    let out = resize_image(&img, 300, 7).unwrap();
    assert_eq!(out.dimensions(), (300, 7));
}

#[test]
fn rescale_by_ratio_rounds_each_axis() {
    let img = DynamicImage::new(800, 600, ColorType::Rgb8);
    let mode = RescaleMode::Ratio { num: 1, den: 2 };
    let (out, w, h) = rescale_image(&img, &mode).unwrap();
    assert_eq!((w, h), (400, 300));
    assert_eq!(out.dimensions(), (400, 300));
}

#[test]
fn rescale_to_min_size_scales_longer_side() {
    let img = DynamicImage::new(800, 600, ColorType::Rgb8);
    let mode = RescaleMode::MinSize { size: 300 };
    let (out, w, h) = rescale_image(&img, &mode).unwrap();
    assert_eq!((w, h), (300, 225));
    assert_eq!(out.dimensions(), (300, 225));
}

#[test]
fn rescale_and_name_output() {
    let img = DynamicImage::new(800, 600, ColorType::Rgb8);
    let mode = RescaleMode::MinSize { size: 300 };
    let (_, w, h) = rescale_image(&img, &mode).unwrap();
    let path = rescale_output_path("photo.png", None, w, h).unwrap();
    assert_eq!(path, "photo_300x225.jpg");
}
