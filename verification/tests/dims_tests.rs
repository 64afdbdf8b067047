use rescaler::dims::RescaleMode;
use rescaler::dims::TransformError;
use rescaler::dims::plan_rescale;
use rescaler::dims::select_mode;
use rescaler::return_error;

#[test]
fn mode_requires_exactly_one_argument() {
    assert_eq!(select_mode(None, None), Err(TransformError::MissingMode));
    assert_eq!(
        select_mode(Some((1, 2)), Some(300)),
        Err(TransformError::ConflictingModes)
    );
}

#[test]
fn mode_rejects_non_positive_ratio() {
    assert_eq!(select_mode(Some((0, 5)), None), Err(TransformError::InvalidRatio));
    assert_eq!(select_mode(Some((5, 0)), None), Err(TransformError::InvalidRatio));
}

#[test]
fn mode_accepts_valid_arguments() {
    assert_eq!(
        select_mode(Some((3, 8)), None),
        Ok(RescaleMode::Ratio { num: 3, den: 8 })
    );
    assert_eq!(select_mode(None, Some(300)), Ok(RescaleMode::MinSize { size: 300 }));
}

#[test]
fn ratio_halves_dimensions() {
    let mode = RescaleMode::Ratio { num: 1, den: 2 };
    assert_eq!(plan_rescale(800, 600, &mode), Ok((400, 300)));
}

#[test]
fn ratio_rounds_to_nearest() {
    // 5 * 1 / 3 = 1.67, which rounds to 2 on both axes.
    let mode = RescaleMode::Ratio { num: 1, den: 3 };
    assert_eq!(plan_rescale(5, 5, &mode), Ok((2, 2)));
    // 375 / 1000 of 800 x 600 is exactly 300 x 225.
    let mode = RescaleMode::Ratio { num: 375, den: 1000 };
    assert_eq!(plan_rescale(800, 600, &mode), Ok((300, 225)));
}

#[test]
fn ratio_overflow_is_reported() {
    let mode = RescaleMode::Ratio { num: u32::MAX, den: 1 };
    assert_eq!(
        plan_rescale(u32::MAX, 1, &mode),
        Err(TransformError::DimensionOverflow)
    );
}

#[test]
fn min_size_scales_longer_side() {
    let mode = RescaleMode::MinSize { size: 300 };
    assert_eq!(plan_rescale(800, 600, &mode), Ok((300, 225)));
    assert_eq!(plan_rescale(600, 800, &mode), Ok((225, 300)));
}

#[test]
fn min_size_square_image() {
    let mode = RescaleMode::MinSize { size: 100 };
    assert_eq!(plan_rescale(500, 500, &mode), Ok((100, 100)));
}

#[test]
fn min_size_can_upscale() {
    let mode = RescaleMode::MinSize { size: 200 };
    assert_eq!(plan_rescale(100, 50, &mode), Ok((200, 100)));
}

#[test]
fn min_size_empty_image_is_rejected() {
    let mode = RescaleMode::MinSize { size: 300 };
    assert_eq!(plan_rescale(0, 0, &mode), Err(TransformError::ZeroDimension));
    // One degenerate axis is fine: the other still sets the scale.
    assert_eq!(plan_rescale(0, 600, &mode), Ok((0, 300)));
}

#[test]
fn return_error_wraps_message() {
    assert_eq!(return_error("boom".to_string()), Err("boom".to_string()));
}
