//! Tests of the validation rules: URLs, text fields, file paths, MIME
//! types, and whole content variants.

use garden_core::models::BlockContent;
use garden_core::validation::validate_block_content;
use garden_core::validation::validate_channel_title;
use garden_core::validation::validate_file_path;
use garden_core::validation::validate_mime_type;
use garden_core::validation::validate_optional_text;
use garden_core::validation::validate_text;
use garden_core::validation::validate_url;

// ── URL validation ──────────────────────────────────────────────────────

#[test]
fn valid_https_url() {
    assert!(validate_url("https://example.com").is_ok());
    assert!(validate_url("https://example.com/path").is_ok());
    assert!(validate_url("https://example.com/path?query=value").is_ok());
    assert!(validate_url("https://sub.example.com").is_ok());
    assert!(validate_url("https://example.com:8080").is_ok());
}

#[test]
fn valid_http_url() {
    assert!(validate_url("http://example.com").is_ok());
    assert!(validate_url("http://localhost").is_ok());
    assert!(validate_url("http://localhost:3000").is_ok());
}

#[test]
fn empty_url_fails() {
    assert!(validate_url("").is_err());
    assert!(validate_url("   ").is_err());
}

#[test]
fn missing_scheme_fails() {
    let result = validate_url("example.com");
    assert!(result.is_err());
    assert!(result.unwrap_err().message().contains("invalid URL"));
}

#[test]
fn invalid_scheme_fails() {
    let result = validate_url("ftp://example.com");
    assert!(result.is_err());
    assert!(result.unwrap_err().message().contains("not allowed"));

    let result = validate_url("file:///etc/passwd");
    assert!(result.is_err());

    let result = validate_url("javascript:alert(1)");
    assert!(result.is_err());
}

#[test]
fn malformed_url_fails() {
    assert!(validate_url("https://").is_err());
    assert!(validate_url("http://").is_err());
    assert!(validate_url("not a url at all").is_err());
    assert!(validate_url("https:// spaces.com").is_err());
}

#[test]
fn url_with_special_characters() {
    assert!(validate_url("https://example.com/path%20with%20spaces").is_ok());
    assert!(validate_url("https://example.com/path?q=hello+world").is_ok());
    assert!(validate_url("https://example.com/#anchor").is_ok());
}

// ── Text validation ─────────────────────────────────────────────────────

#[test]
fn valid_text() {
    assert!(validate_text("Hello, world!").is_ok());
    assert!(validate_text("  Hello  ").is_ok());
}

#[test]
fn empty_text_fails() {
    assert!(validate_text("").is_err());
    assert!(validate_text("   ").is_err());
    assert!(validate_text("\t\n").is_err());
}

#[test]
fn optional_text_allows_empty_but_not_whitespace() {
    assert!(validate_optional_text("title", "").is_ok());
    assert!(validate_optional_text("title", "something").is_ok());
    assert!(validate_optional_text("title", "   ").is_err());
}

// ── Block content validation ────────────────────────────────────────────

#[test]
fn valid_text_block() {
    let content = BlockContent::text("Hello".to_string());
    assert!(validate_block_content(&content).is_ok());
}

#[test]
fn valid_link_block() {
    let content = BlockContent::link("https://example.com".to_string());
    assert!(validate_block_content(&content).is_ok());
}

#[test]
fn link_block_with_metadata() {
    let content = BlockContent::Link {
        url: "https://example.com".to_string(),
        title: Some("Example".to_string()),
        description: Some("An example site".to_string()),
        alt_text: None,
    };
    assert!(validate_block_content(&content).is_ok());
}

#[test]
fn link_block_whitespace_title_fails() {
    let content = BlockContent::Link {
        url: "https://example.com".to_string(),
        title: Some("   ".to_string()),
        description: None,
        alt_text: None,
    };
    assert!(validate_block_content(&content).is_err());
}

#[test]
fn validate_empty_text_fails() {
    let content = BlockContent::text("   ".to_string());
    assert!(validate_block_content(&content).is_err());
}

#[test]
fn validate_valid_text_succeeds() {
    let content = BlockContent::text("Hello, world!".to_string());
    assert!(validate_block_content(&content).is_ok());
}

#[test]
fn validate_empty_url_fails() {
    let content = BlockContent::link("".to_string());
    assert!(validate_block_content(&content).is_err());
}

#[test]
fn validate_invalid_url_fails() {
    let content = BlockContent::link("not-a-url".to_string());
    assert!(validate_block_content(&content).is_err());
}

#[test]
fn validate_valid_url_succeeds() {
    let content = BlockContent::link("https://example.com".to_string());
    assert!(validate_block_content(&content).is_ok());
}

// ── Channel title validation ────────────────────────────────────────────

#[test]
fn valid_channel_title() {
    assert!(validate_channel_title("My Channel").is_ok());
    assert!(validate_channel_title("  Spaced  ").is_ok());
}

#[test]
fn empty_channel_title_fails() {
    assert!(validate_channel_title("").is_err());
    assert!(validate_channel_title("   ").is_err());
}

// ── File path validation ────────────────────────────────────────────────

#[test]
fn valid_file_path() {
    assert!(validate_file_path("images/abc123.jpg").is_ok());
    assert!(validate_file_path("videos/xyz789.mp4").is_ok());
    assert!(validate_file_path("audio/song.mp3").is_ok());
}

#[test]
fn empty_file_path_fails() {
    assert!(validate_file_path("").is_err());
    assert!(validate_file_path("   ").is_err());
}

#[test]
fn path_traversal_fails() {
    assert!(validate_file_path("../etc/passwd").is_err());
    assert!(validate_file_path("images/../../../secret").is_err());
}

#[test]
fn absolute_path_fails() {
    assert!(validate_file_path("/etc/passwd").is_err());
    assert!(validate_file_path("\\Windows\\System32").is_err());
}

// ── MIME type validation ────────────────────────────────────────────────

#[test]
fn valid_image_mime_types() {
    assert!(validate_mime_type("image/jpeg", "image").is_ok());
    assert!(validate_mime_type("image/png", "image").is_ok());
    assert!(validate_mime_type("image/gif", "image").is_ok());
    assert!(validate_mime_type("image/webp", "image").is_ok());
}

#[test]
fn valid_video_mime_types() {
    assert!(validate_mime_type("video/mp4", "video").is_ok());
    assert!(validate_mime_type("video/webm", "video").is_ok());
    assert!(validate_mime_type("video/quicktime", "video").is_ok());
}

#[test]
fn valid_audio_mime_types() {
    assert!(validate_mime_type("audio/mpeg", "audio").is_ok());
    assert!(validate_mime_type("audio/ogg", "audio").is_ok());
    assert!(validate_mime_type("audio/wav", "audio").is_ok());
}

#[test]
fn wrong_mime_category_fails() {
    assert!(validate_mime_type("video/mp4", "image").is_err());
    assert!(validate_mime_type("audio/mpeg", "video").is_err());
    assert!(validate_mime_type("image/jpeg", "audio").is_err());
}

#[test]
fn empty_mime_type_fails() {
    assert!(validate_mime_type("", "image").is_err());
    assert!(validate_mime_type("   ", "video").is_err());
}

// ── Media block content validation ──────────────────────────────────────

#[test]
fn valid_image_block() {
    let content = BlockContent::image("images/test.jpg".to_string(), "image/jpeg".to_string());
    assert!(validate_block_content(&content).is_ok());
}

#[test]
fn valid_video_block() {
    let content = BlockContent::video("videos/test.mp4".to_string(), "video/mp4".to_string());
    assert!(validate_block_content(&content).is_ok());
}

#[test]
fn valid_audio_block() {
    let content = BlockContent::audio("audio/test.mp3".to_string(), "audio/mpeg".to_string());
    assert!(validate_block_content(&content).is_ok());
}

#[test]
fn image_block_wrong_mime_fails() {
    let content = BlockContent::image("images/test.jpg".to_string(), "video/mp4".to_string());
    assert!(validate_block_content(&content).is_err());
}

#[test]
fn media_block_with_original_url() {
    let content = BlockContent::image_with_meta(
        "images/test.jpg".to_string(),
        "image/jpeg".to_string(),
        Some("https://example.com/original.jpg".to_string()),
        Some(800),
        Some(600),
        Some("A test image".to_string()),
    );
    assert!(validate_block_content(&content).is_ok());
}

#[test]
fn media_block_invalid_original_url_fails() {
    let content = BlockContent::image_with_meta(
        "images/test.jpg".to_string(),
        "image/jpeg".to_string(),
        Some("not-a-valid-url".to_string()),
        None,
        None,
        None,
    );
    assert!(validate_block_content(&content).is_err());
}
