//! Tests of the media classification logic.

use garden_core::models::BlockContent;
use garden_core::services::MediaInfo;
use garden_core::services::MediaType;
use garden_core::services::get_extension_for_mime;
use garden_core::services::media_file_name;
use garden_core::services::primary_mime;

#[test]
fn test_media_type_from_mime() {
    assert_eq!(MediaType::from_mime("image/jpeg"), Some(MediaType::Image));
    assert_eq!(MediaType::from_mime("video/mp4"), Some(MediaType::Video));
    assert_eq!(MediaType::from_mime("audio/mpeg"), Some(MediaType::Audio));
    assert_eq!(MediaType::from_mime("text/plain"), None);
}

#[test]
fn test_media_type_subdir() {
    assert_eq!(MediaType::Image.subdir(), "images");
    assert_eq!(MediaType::Video.subdir(), "videos");
    assert_eq!(MediaType::Audio.subdir(), "audio");
}

#[test]
fn test_get_extension_for_mime() {
    assert_eq!(get_extension_for_mime("image/jpeg"), Some("jpg"));
    assert_eq!(get_extension_for_mime("video/mp4"), Some("mp4"));
    assert_eq!(get_extension_for_mime("audio/mpeg"), Some("mp3"));
    assert_eq!(get_extension_for_mime("unknown/type"), None);
}

#[test]
fn test_media_info_into_block_content() {
    let info = MediaInfo {
        file_path: "images/test.jpg".to_string(),
        mime_type: "image/jpeg".to_string(),
        width: Some(800),
        height: Some(600),
        duration_millis: None,
        original_url: Some("https://example.com/test.jpg".to_string()),
    };

    let content = info.into_block_content();
    match content {
        BlockContent::Image { file_path, width, height, .. } => {
            assert_eq!(file_path, "images/test.jpg");
            assert_eq!(width, Some(800));
            assert_eq!(height, Some(600));
        }
        _ => panic!("Expected Image content"),
    }
}

#[test]
fn media_info_audio_becomes_audio_content() {
    let info = MediaInfo {
        file_path: "audio/test.mp3".to_string(),
        mime_type: "audio/mpeg".to_string(),
        width: None,
        height: None,
        duration_millis: Some(245000),
        original_url: None,
    };

    let content = info.into_block_content();
    match content {
        BlockContent::Audio { file_path, duration_millis, .. } => {
            assert_eq!(file_path, "audio/test.mp3");
            assert_eq!(duration_millis, Some(245000));
        }
        _ => panic!("Expected Audio content"),
    }
}

#[test]
fn primary_mime_strips_parameters_and_whitespace() {
    assert_eq!(primary_mime("image/jpeg; charset=utf-8"), "image/jpeg");
    assert_eq!(primary_mime("  text/plain  "), "text/plain");
    assert_eq!(primary_mime("video/mp4"), "video/mp4");
}

#[test]
fn media_file_name_has_subdir_id_and_extension() {
    let name = media_file_name(MediaType::Image, "jpg");
    assert!(name.starts_with("images/"));
    assert!(name.ends_with(".jpg"));
    // "images/" + a 36-character id + ".jpg"
    assert_eq!(name.len(), 7 + 36 + 4);
}
