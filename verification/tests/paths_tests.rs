use rescaler::dims::TransformError;
use rescaler::paths::derive_output_path;
use rescaler::paths::file_stem_of;
use rescaler::paths::find_last;
use rescaler::paths::rescale_output_path;
use rescaler::paths::rescaled_file_name;
use rescaler::paths::resize_output_path;
use rescaler::paths::transformed_file_name;
use rescaler::paths::u32_to_dec;

#[test]
fn find_last_basic() {
    assert_eq!(find_last("a/b/c", '/'), Some(3));
    assert_eq!(find_last("abc", '/'), None);
    assert_eq!(find_last("", '.'), None);
    assert_eq!(find_last("a.b.c", '.'), Some(3));
}

#[test]
fn stem_plain_name() {
    assert_eq!(file_stem_of("photo.png"), Some("photo"));
}

#[test]
fn stem_with_directory() {
    assert_eq!(file_stem_of("dir/photo.tar.gz"), Some("photo.tar"));
}

#[test]
fn stem_hidden_file() {
    assert_eq!(file_stem_of(".bashrc"), Some(".bashrc"));
}

#[test]
fn stem_no_extension() {
    assert_eq!(file_stem_of("noext"), Some("noext"));
}

#[test]
fn stem_trailing_dot() {
    assert_eq!(file_stem_of("photo."), Some("photo"));
}

#[test]
fn stem_missing_file_name() {
    assert_eq!(file_stem_of("dir/"), None);
    assert_eq!(file_stem_of(""), None);
}

#[test]
fn decimal_rendering() {
    assert_eq!(u32_to_dec(0), "0");
    assert_eq!(u32_to_dec(7), "7");
    assert_eq!(u32_to_dec(400), "400");
    assert_eq!(u32_to_dec(4294967295), "4294967295");
}

#[test]
fn transformed_name() {
    assert_eq!(transformed_file_name("photo"), "photo_transformed.jpg");
}

#[test]
fn rescaled_name() {
    assert_eq!(rescaled_file_name("photo", 300, 225), "photo_300x225.jpg");
}

#[test]
fn output_beside_input() {
    assert_eq!(
        derive_output_path("a/b/photo.png", None, "photo_transformed.jpg"),
        "a/b/photo_transformed.jpg"
    );
    assert_eq!(
        derive_output_path("photo.png", None, "photo_transformed.jpg"),
        "photo_transformed.jpg"
    );
}

#[test]
fn output_under_directory() {
    assert_eq!(
        derive_output_path("a/photo.png", Some("out"), "photo_transformed.jpg"),
        "out/photo_transformed.jpg"
    );
    assert_eq!(
        derive_output_path("a/photo.png", Some("out/"), "photo_transformed.jpg"),
        "out/photo_transformed.jpg"
    );
    assert_eq!(
        derive_output_path("a/photo.png", Some(""), "photo_transformed.jpg"),
        "photo_transformed.jpg"
    );
}

#[test]
fn resize_path_example() {
    assert_eq!(
        resize_output_path("photo.png", None),
        Ok("photo_transformed.jpg".to_string())
    );
}

#[test]
fn rescale_path_example() {
    assert_eq!(
        rescale_output_path("photo.png", None, 300, 225),
        Ok("photo_300x225.jpg".to_string())
    );
    assert_eq!(
        rescale_output_path("shots/photo.png", Some("out"), 400, 300),
        Ok("out/photo_400x300.jpg".to_string())
    );
    assert_eq!(
        rescale_output_path("shots/photo.png", None, 400, 300),
        Ok("shots/photo_400x300.jpg".to_string())
    );
}

#[test]
fn rescale_path_empty_file_name() {
    assert_eq!(
        rescale_output_path("dir/", None, 1, 1),
        Err(TransformError::EmptyFileName)
    );
    assert_eq!(resize_output_path("", None), Err(TransformError::EmptyFileName));
}
