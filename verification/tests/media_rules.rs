use clann_server::auth::ClannAuth;
use clann_server::media::{
    check_not_empty, check_storage_quota, ext_for_mime, file_extension, image_too_large, life_media_ext,
    media_filename, mime_for_ext, profile_image_ext, replaced_extensions, served_content_type, MediaError,
    MAX_IMAGE_BYTES,
};

#[test]
fn mime_and_extension_tables() {
    assert_eq!(ext_for_mime("image/jpeg"), Some("jpg"));
    assert_eq!(ext_for_mime("image/jpg"), Some("jpg"));
    assert_eq!(ext_for_mime("audio/x-wav"), Some("wav"));
    assert_eq!(ext_for_mime("video/quicktime"), Some("mov"));
    assert_eq!(ext_for_mime("text/plain"), None);
    assert_eq!(mime_for_ext("jpeg"), "image/jpeg");
    assert_eq!(mime_for_ext("mov"), "video/quicktime");
    assert_eq!(mime_for_ext("exe"), "application/octet-stream");
    for m in ["image/png", "audio/mp3", "application/pdf", "audio/wave"] {
        let e = ext_for_mime(m).unwrap();
        assert_eq!(ext_for_mime(mime_for_ext(e)), Some(e));
    }
}

#[test]
fn profile_pictures_are_jpg_or_png() {
    assert_eq!(profile_image_ext(Some("image/jpeg")), Ok("jpg"));
    assert_eq!(profile_image_ext(Some("image/png")), Ok("png"));
    assert_eq!(profile_image_ext(Some("image/gif")), Err(MediaError::UnsupportedImageType("image/gif".to_string())));
    assert_eq!(profile_image_ext(None), Err(MediaError::MissingContentType));
    assert_eq!(image_too_large(MAX_IMAGE_BYTES), Ok(()));
    assert_eq!(image_too_large(MAX_IMAGE_BYTES + 1), Err(MediaError::TooLarge(2097153)));
    assert_eq!(check_not_empty(0), Err(MediaError::Empty));
    assert_eq!(check_not_empty(1), Ok(()));
}

#[test]
fn life_media_depends_on_plan() {
    let ind = ClannAuth::from_claims("u".to_string(), "a".to_string(), None, vec![]);
    let pro = ClannAuth::from_claims("u".to_string(), "a".to_string(), Some(("professional".to_string(), "active".to_string())), vec![]);
    assert_eq!(life_media_ext(&ind, Some("image/webp")), Ok("webp"));
    assert_eq!(life_media_ext(&ind, Some("video/mp4")), Err(MediaError::PlanDisallows("video/mp4".to_string())));
    assert_eq!(life_media_ext(&pro, Some("video/mp4")), Ok("mp4"));
    assert_eq!(life_media_ext(&pro, Some("audio/flac")), Err(MediaError::UnsupportedMediaType("audio/flac".to_string())));
    assert_eq!(life_media_ext(&ind, Some("image/tiff")), Err(MediaError::UnsupportedMediaType("image/tiff".to_string())));
}

#[test]
fn storage_quota() {
    let limit = Some(100 * 1024 * 1024);
    assert_eq!(check_storage_quota(limit, 100 * 1024 * 1024, Some(10), 10), Ok(()));
    assert_eq!(check_storage_quota(limit, 100 * 1024 * 1024, Some(10), 11), Err(MediaError::StorageLimit(100)));
    assert_eq!(check_storage_quota(Some(5 * 1024 * 1024 * 1024), 0, None, 6 * 1024 * 1024 * 1024), Err(MediaError::StorageLimit(5120)));
    assert_eq!(check_storage_quota(None, i64::MAX, None, i64::MAX), Ok(()));
    assert_eq!(check_storage_quota(Some(-1048577), 0, None, 0), Err(MediaError::StorageLimit(-1)));
}

#[test]
fn stored_file_names() {
    assert_eq!(file_extension("abc.jpg"), "jpg");
    assert_eq!(file_extension("a.b.c.png"), "png");
    assert_eq!(file_extension("noext"), "noext");
    assert_eq!(file_extension("trailing."), "");
    assert_eq!(served_content_type("x_life.mp3"), "audio/mpeg");
    assert_eq!(served_content_type("x"), "application/octet-stream");
    assert_eq!(media_filename("01abc", "png", false), "01abc.png");
    assert_eq!(media_filename("01abc", "pdf", true), "01abc_life.pdf");
    assert_eq!(replaced_extensions(false), vec!["jpg", "png"]);
    assert_eq!(replaced_extensions(true).len(), 12);
}
