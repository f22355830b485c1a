//! Tests of the domain models: identifiers, field updates, pagination,
//! block content and display titles.

use garden_core::models::Block;
use garden_core::models::BlockContent;
use garden_core::models::BlockId;
use garden_core::models::Channel;
use garden_core::models::ChannelId;
use garden_core::models::Connection;
use garden_core::models::FieldUpdate;
use garden_core::models::NewBlock;
use garden_core::models::Page;

#[test]
fn block_id_generates_unique_ids() {
    let id1 = BlockId::new();
    let id2 = BlockId::new();
    assert_ne!(id1, id2);
}

#[test]
fn channel_id_generates_unique_ids() {
    let id1 = ChannelId::new();
    let id2 = ChannelId::new();
    assert_ne!(id1, id2);
}

#[test]
fn channel_new_sets_timestamps() {
    let channel = Channel::new("Test Channel".to_string());
    assert_eq!(channel.title, "Test Channel");
    assert!(channel.description.is_none());
    assert!(channel.created_at <= chrono::Utc::now().timestamp_millis());
}

#[test]
fn field_update_keep() {
    assert_eq!(
        FieldUpdate::<String>::Keep.apply(Some("old".to_string())),
        Some("old".to_string())
    );
    assert_eq!(FieldUpdate::<String>::Keep.apply(None), None);
}

#[test]
fn field_update_clear() {
    assert_eq!(FieldUpdate::<String>::Clear.apply(Some("old".to_string())), None);
    assert_eq!(FieldUpdate::<String>::Clear.apply(None), None);
}

#[test]
fn field_update_set() {
    assert_eq!(
        FieldUpdate::Assign("new".to_string()).apply(Some("old".to_string())),
        Some("new".to_string())
    );
    assert_eq!(
        FieldUpdate::Assign("new".to_string()).apply(None),
        Some("new".to_string())
    );
}

#[test]
fn page_has_next() {
    let page: Page<i32> = Page::new(vec![1, 2, 3], 10, 0, 3);
    assert!(page.has_next());

    let last_page: Page<i32> = Page::new(vec![10], 10, 9, 3);
    assert!(!last_page.has_next());
}

#[test]
fn page_numbers() {
    let page: Page<i32> = Page::new(vec![1, 2, 3], 10, 6, 3);
    assert_eq!(page.page_number(), 2);
    assert_eq!(page.total_pages(), 4);
}

#[test]
fn connection_creation() {
    let block_id = BlockId::new();
    let channel_id = ChannelId::new();
    let conn = Connection::new(block_id.clone(), channel_id.clone(), 0);

    assert_eq!(conn.block_id, block_id);
    assert_eq!(conn.channel_id, channel_id);
    assert_eq!(conn.position, 0);
}

#[test]
fn text_block_display_title() {
    let block = Block::text("Hello, world!\nSecond line".to_string());
    assert_eq!(block.display_title(), "Hello, world!");
}

#[test]
fn link_block_display_title_uses_title() {
    let block = Block::new(BlockContent::link_with_meta(
        "https://example.com".to_string(),
        Some("Example Site".to_string()),
        None,
        None,
    ));
    assert_eq!(block.display_title(), "Example Site");
}

#[test]
fn link_block_display_title_falls_back_to_url() {
    let block = Block::link("https://example.com".to_string());
    assert_eq!(block.display_title(), "https://example.com");
}

#[test]
fn image_block_creation() {
    let block = Block::image("images/abc123.jpg".to_string(), "image/jpeg".to_string());
    assert!(block.is_media());
    assert_eq!(block.content.file_path(), Some("images/abc123.jpg"));
    assert_eq!(block.content.mime_type(), Some("image/jpeg"));
}

#[test]
fn image_block_display_title_uses_alt_text() {
    let block = Block::new(BlockContent::image_with_meta(
        "images/abc123.jpg".to_string(),
        "image/jpeg".to_string(),
        None,
        Some(800),
        Some(600),
        Some("A beautiful sunset".to_string()),
    ));
    assert_eq!(block.display_title(), "A beautiful sunset");
}

#[test]
fn image_block_display_title_falls_back_to_path() {
    let block = Block::image("images/abc123.jpg".to_string(), "image/jpeg".to_string());
    assert_eq!(block.display_title(), "images/abc123.jpg");
}

#[test]
fn video_block_creation() {
    let block = Block::video("videos/xyz789.mp4".to_string(), "video/mp4".to_string());
    assert!(block.is_media());
    assert_eq!(block.content.file_path(), Some("videos/xyz789.mp4"));
    assert_eq!(block.content.mime_type(), Some("video/mp4"));
}

#[test]
fn video_block_with_metadata() {
    // 120.5 seconds, held as milliseconds.
    let content = BlockContent::video_with_meta(
        "videos/xyz789.mp4".to_string(),
        "video/mp4".to_string(),
        Some("https://example.com/video.mp4".to_string()),
        Some(1920),
        Some(1080),
        Some(120500),
        Some("Tutorial video".to_string()),
    );
    let block = Block::new(content);
    assert_eq!(block.display_title(), "Tutorial video");
    if let BlockContent::Video { width, height, duration_millis, .. } = &block.content {
        assert_eq!(*width, Some(1920));
        assert_eq!(*height, Some(1080));
        assert_eq!(*duration_millis, Some(120500));
    } else {
        panic!("Expected Video content");
    }
}

#[test]
fn audio_block_creation() {
    let block = Block::audio("audio/song123.mp3".to_string(), "audio/mpeg".to_string());
    assert!(block.is_media());
    assert_eq!(block.content.file_path(), Some("audio/song123.mp3"));
    assert_eq!(block.content.mime_type(), Some("audio/mpeg"));
}

#[test]
fn audio_block_display_title_uses_title() {
    let content = BlockContent::audio_with_meta(
        "audio/song123.mp3".to_string(),
        "audio/mpeg".to_string(),
        None,
        Some(245000),
        Some("Bohemian Rhapsody".to_string()),
        Some("Queen".to_string()),
    );
    let block = Block::new(content);
    assert_eq!(block.display_title(), "Bohemian Rhapsody");
}

#[test]
fn audio_block_display_title_falls_back_to_artist() {
    let content = BlockContent::audio_with_meta(
        "audio/song123.mp3".to_string(),
        "audio/mpeg".to_string(),
        None,
        Some(245000),
        None,
        Some("Queen".to_string()),
    );
    let block = Block::new(content);
    assert_eq!(block.display_title(), "Queen");
}

#[test]
fn audio_block_display_title_falls_back_to_path() {
    let block = Block::audio("audio/song123.mp3".to_string(), "audio/mpeg".to_string());
    assert_eq!(block.display_title(), "audio/song123.mp3");
}

#[test]
fn text_block_is_not_media() {
    let block = Block::text("Hello".to_string());
    assert!(!block.is_media());
    assert!(block.content.file_path().is_none());
    assert!(block.content.mime_type().is_none());
}

#[test]
fn link_block_is_not_media() {
    let block = Block::link("https://example.com".to_string());
    assert!(!block.is_media());
}

#[test]
fn new_block_with_source_url() {
    let new_block = NewBlock::image("images/abc.jpg".to_string(), "image/jpeg".to_string())
        .with_source_url("https://example.com/original.jpg".to_string());
    assert_eq!(
        new_block.source_url,
        Some("https://example.com/original.jpg".to_string())
    );
}

#[test]
fn display_title_truncates_long_first_line() {
    let long = "x".repeat(80);
    let block = Block::text(long);
    assert_eq!(block.display_title().chars().count(), 50);
}

#[test]
fn display_title_strips_carriage_return() {
    let block = Block::text("first line\r\nsecond".to_string());
    assert_eq!(block.display_title(), "first line");
}
