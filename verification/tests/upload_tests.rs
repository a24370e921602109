use outline_backend::error::ApiError;
use outline_backend::filename::{
    file_extension, sanitize_component, sanitize_filename, MAX_FILENAME_LENGTH,
};
use outline_backend::signature::verify_image_magic_number;
use outline_backend::upload::{
    check_image, is_allowed_extension, stored_filename, stored_upload, upload_directory,
    upload_file, validate_upload, UploadField, MAX_FILE_SIZE,
};

const JPEG: [u8; 6] = [0xFF, 0xD8, 0xFF, 0xE0, 0x00, 0x10];
const PNG: [u8; 9] = [0x89, 0x50, 0x4E, 0x47, 0x0D, 0x0A, 0x1A, 0x0A, 0x00];
const GIF: [u8; 6] = [0x47, 0x49, 0x46, 0x38, 0x39, 0x61];
const WEBP: [u8; 12] = [0x52, 0x49, 0x46, 0x46, 0x24, 0x00, 0x00, 0x00, 0x57, 0x45, 0x42, 0x50];

fn field(name: &str, body: &[u8]) -> UploadField {
    UploadField { file_name: Some(name.to_string()), body: Some(body.to_vec()) }
}

#[test]
fn jpeg_bytes_pass_as_jpg_and_fail_as_png() {
    let ok = upload_file(Some(&field("photo.jpg", &JPEG)), 1700000000).unwrap();
    assert_eq!(ok.filename, "1700000000_photo.jpg");
    assert_eq!(ok.url, "/uploads/1700000000_photo.jpg");
    assert_eq!(ok.path, "../uploads/1700000000_photo.jpg");
    let refused = upload_file(Some(&field("photo.png", &JPEG)), 1700000000);
    assert!(matches!(refused, Err(ApiError::BadRequest)));
}

#[test]
fn traversal_is_reduced_to_the_basename() {
    assert_eq!(sanitize_filename("../../etc/passwd.png"), "passwd.png");
    let ok = upload_file(Some(&field("../../etc/passwd.png", &PNG)), 42).unwrap();
    assert_eq!(ok.filename, "42_passwd.png");
    assert_eq!(ok.path, "../uploads/42_passwd.png");
    assert!(!ok.filename.contains('/'));
    assert!(!ok.filename.contains(".."));
}

#[test]
fn each_format_is_known_by_its_signature() {
    assert!(verify_image_magic_number(&JPEG, ".jpg"));
    assert!(verify_image_magic_number(&JPEG, ".jpeg"));
    assert!(verify_image_magic_number(&PNG, ".png"));
    assert!(verify_image_magic_number(&GIF, ".gif"));
    assert!(verify_image_magic_number(&WEBP, ".webp"));
    assert!(!verify_image_magic_number(&PNG, ".jpg"));
    assert!(!verify_image_magic_number(&JPEG, ".gif"));
    assert!(!verify_image_magic_number(&GIF, ".webp"));
    assert!(!verify_image_magic_number(&WEBP, ".png"));
    assert!(!verify_image_magic_number(&PNG, ".bmp"));
    assert!(!verify_image_magic_number(&PNG, "png"));
    assert!(!verify_image_magic_number(&PNG, ".PNG"));
    assert!(!verify_image_magic_number(&[], ".png"));
}

#[test]
fn a_signature_must_be_whole() {
    assert!(verify_image_magic_number(&[0xFF, 0xD8, 0xFF], ".jpg"));
    assert!(!verify_image_magic_number(&[0xFF, 0xD8], ".jpg"));
    assert!(!verify_image_magic_number(&PNG[..7], ".png"));
    assert!(verify_image_magic_number(&PNG[..8], ".png"));
    assert!(!verify_image_magic_number(&GIF[..3], ".gif"));
    assert!(!verify_image_magic_number(&WEBP[..11], ".webp"));
    let mut riff_wave = WEBP;
    riff_wave[8] = 0x57;
    riff_wave[9] = 0x41;
    riff_wave[10] = 0x56;
    riff_wave[11] = 0x45;
    assert!(!verify_image_magic_number(&riff_wave, ".webp"));
    let mut other_length = WEBP;
    other_length[4] = 0xAB;
    other_length[7] = 0xCD;
    assert!(verify_image_magic_number(&other_length, ".webp"));
}

#[test]
fn unsafe_characters_become_underscores() {
    assert_eq!(sanitize_filename("my photo (1).png"), "my_photo__1_.png");
    assert_eq!(sanitize_filename("a-b_c.d.PNG"), "a-b_c.d.PNG");
    assert_eq!(sanitize_filename("h\u{e9}llo w\u{f6}rld.png"), "h\u{e9}llo_w\u{f6}rld.png");
    assert_eq!(sanitize_filename("a\\b.png"), "a_b.png");
    assert_eq!(sanitize_filename("a\u{2192}b\u{1f49d}.png"), "a_b_.png");
    assert_eq!(sanitize_filename("\u{4e2d}\u{6587}\u{0663}.png"), "\u{4e2d}\u{6587}\u{0663}.png");
    assert_eq!(sanitize_filename("semi;colon&amp.gif"), "semi_colon_amp.gif");
    assert_eq!(sanitize_component(Some("x/y z")), "x_y_z");
}

#[test]
fn a_path_without_a_final_component_is_called_unknown() {
    assert_eq!(sanitize_filename(""), "unknown");
    assert_eq!(sanitize_filename(".."), "unknown");
    assert_eq!(sanitize_filename("/"), "unknown");
    assert_eq!(sanitize_filename("a/.."), "unknown");
    assert_eq!(sanitize_component(None), "unknown");
    assert_eq!(sanitize_filename("dir/"), "dir");
    assert_eq!(sanitize_filename("/usr/bin/tool.png"), "tool.png");
}

#[test]
fn a_long_name_is_cut_and_keeps_its_extension() {
    let long = format!("{}.png", "a".repeat(300));
    let cut = sanitize_filename(&long);
    assert_eq!(cut.chars().count(), MAX_FILENAME_LENGTH);
    assert_eq!(cut, format!("{}.png", "a".repeat(251)));
    assert_eq!(file_extension(&cut), Some(".png".to_string()));

    let just_over = format!("{}.png", "b".repeat(252));
    assert_eq!(sanitize_filename(&just_over), format!("{}.png", "b".repeat(251)));

    let at_limit = format!("{}.png", "c".repeat(251));
    assert_eq!(sanitize_filename(&at_limit), at_limit);
}

#[test]
fn a_long_name_without_extension_is_cut_hard() {
    let long = "d".repeat(400);
    assert_eq!(sanitize_filename(&long), "d".repeat(255));
    let long_extension = format!("a.{}", "e".repeat(300));
    assert_eq!(sanitize_filename(&long_extension), format!("a.{}", "e".repeat(253)));
    let extension_fills_limit = format!("{}.{}", "f".repeat(10), "g".repeat(254));
    assert_eq!(sanitize_filename(&extension_fills_limit), format!(".{}", "g".repeat(254)));
}

#[test]
fn length_is_counted_in_characters() {
    let long = format!("{}.png", "\u{4e2d}".repeat(260));
    let cut = sanitize_filename(&long);
    assert_eq!(cut.chars().count(), 255);
    assert_eq!(cut, format!("{}.png", "\u{4e2d}".repeat(251)));
}

#[test]
fn the_extension_follows_the_last_dot_in_lower_case() {
    assert_eq!(file_extension("photo.JPG"), Some(".jpg".to_string()));
    assert_eq!(file_extension("archive.tar.GZ"), Some(".gz".to_string()));
    assert_eq!(file_extension("photo."), Some(".".to_string()));
    assert_eq!(file_extension(".png"), Some(".png".to_string()));
    assert_eq!(file_extension("photo"), None);
    assert_eq!(file_extension(""), None);
}

#[test]
fn only_five_extensions_are_allowed() {
    for allowed in [".jpg", ".jpeg", ".png", ".gif", ".webp"] {
        assert!(is_allowed_extension(allowed));
    }
    for refused in [".bmp", ".svg", ".exe", ".", "", "jpg", ".JPG", ".jpg ", ".png.exe"] {
        assert!(!is_allowed_extension(refused));
    }
}

#[test]
fn check_image_wants_extension_and_signature() {
    assert_eq!(check_image(Some(".png"), &PNG), Ok(()));
    assert_eq!(check_image(Some(".png"), &JPEG), Err(ApiError::BadRequest));
    assert_eq!(check_image(Some(".exe"), &PNG), Err(ApiError::BadRequest));
    assert_eq!(check_image(None, &PNG), Err(ApiError::BadRequest));
}

#[test]
fn upper_case_extension_is_accepted() {
    let ok = upload_file(Some(&field("Photo.JPG", &JPEG)), 7).unwrap();
    assert_eq!(ok.filename, "7_Photo.JPG");
    assert_eq!(ok.url, "/uploads/7_Photo.JPG");
}

#[test]
fn an_upload_without_field_name_or_body_is_a_bad_request() {
    assert!(matches!(upload_file(None, 1), Err(ApiError::BadRequest)));
    let no_name = UploadField { file_name: None, body: Some(PNG.to_vec()) };
    assert!(matches!(upload_file(Some(&no_name), 1), Err(ApiError::BadRequest)));
    let no_body = UploadField { file_name: Some("a.png".to_string()), body: None };
    assert!(matches!(upload_file(Some(&no_body), 1), Err(ApiError::BadRequest)));
    assert_eq!(validate_upload(None), Err(ApiError::BadRequest));
}

#[test]
fn an_upload_without_allowed_extension_is_a_bad_request() {
    assert!(matches!(upload_file(Some(&field("photo", &PNG)), 1), Err(ApiError::BadRequest)));
    assert!(matches!(upload_file(Some(&field("photo.exe", &PNG)), 1), Err(ApiError::BadRequest)));
    assert!(matches!(upload_file(Some(&field("photo.", &PNG)), 1), Err(ApiError::BadRequest)));
    assert!(matches!(upload_file(Some(&field("..", &PNG)), 1), Err(ApiError::BadRequest)));
}

#[test]
fn an_oversized_upload_is_too_large_whatever_it_holds() {
    let mut big = vec![0u8; MAX_FILE_SIZE + 1];
    big[..8].copy_from_slice(&PNG[..8]);
    assert!(matches!(upload_file(Some(&field("a.png", &big)), 1), Err(ApiError::PayloadTooLarge)));
    assert!(matches!(upload_file(Some(&field("a.exe", &big)), 1), Err(ApiError::PayloadTooLarge)));
    assert!(matches!(upload_file(Some(&field("a.jpg", &big)), 1), Err(ApiError::PayloadTooLarge)));
    assert!(matches!(upload_file(Some(&field("noext", &big)), 1), Err(ApiError::PayloadTooLarge)));
    big.truncate(MAX_FILE_SIZE);
    assert_eq!(MAX_FILE_SIZE, 10 * 1024 * 1024);
    let ok = upload_file(Some(&field("a.png", &big)), 1).unwrap();
    assert_eq!(ok.filename, "1_a.png");
}

#[test]
fn a_missing_file_name_comes_before_the_size() {
    let big = vec![0u8; MAX_FILE_SIZE + 1];
    let no_name = UploadField { file_name: None, body: Some(big) };
    assert!(matches!(upload_file(Some(&no_name), 1), Err(ApiError::BadRequest)));
}

#[test]
fn the_stored_name_is_time_underscore_name() {
    assert_eq!(stored_filename(0, "a.png"), "0_a.png");
    assert_eq!(stored_filename(7, "a.png"), "7_a.png");
    assert_eq!(stored_filename(10, "a.png"), "10_a.png");
    assert_eq!(stored_filename(1700000000, "photo.jpg"), "1700000000_photo.jpg");
    assert_eq!(stored_filename(u64::MAX, "x"), "18446744073709551615_x");
    assert_eq!(upload_directory(), "../uploads");
    let stored = stored_upload(99, "cat.gif");
    assert_eq!(stored.filename, "99_cat.gif");
    assert_eq!(stored.url, "/uploads/99_cat.gif");
    assert_eq!(stored.path, "../uploads/99_cat.gif");
}

#[test]
fn validation_gives_the_sanitized_name() {
    assert_eq!(validate_upload(Some(&field("/tmp/my cat.gif", &GIF))), Ok("my_cat.gif".to_string()));
    assert_eq!(validate_upload(Some(&field("pic.webp", &WEBP))), Ok("pic.webp".to_string()));
    assert_eq!(validate_upload(Some(&field(".png", &PNG))), Ok(".png".to_string()));
    assert_eq!(validate_upload(Some(&field("pic.webp", &PNG))), Err(ApiError::BadRequest));
}

#[test]
fn each_error_has_its_status() {
    assert_eq!(ApiError::NotFound.status_code(), 404);
    assert_eq!(ApiError::BadRequest.status_code(), 400);
    assert_eq!(ApiError::PayloadTooLarge.status_code(), 413);
    assert_eq!(ApiError::InternalError.status_code(), 500);
}
