//! Tests of the garden service over the in-memory repositories.

use garden_core::error::DomainError;
use garden_core::models::Block;
use garden_core::models::BlockContent;
use garden_core::models::BlockId;
use garden_core::models::BlockUpdate;
use garden_core::models::Channel;
use garden_core::models::ChannelId;
use garden_core::models::ChannelUpdate;
use garden_core::models::FieldUpdate;
use garden_core::models::NewBlock;
use garden_core::models::NewChannel;
use garden_core::ports::InMemoryBlockRepository;
use garden_core::ports::InMemoryChannelRepository;
use garden_core::ports::InMemoryConnectionRepository;
use garden_core::services::GardenService;

type Service = GardenService<
    InMemoryChannelRepository,
    InMemoryBlockRepository,
    InMemoryConnectionRepository,
>;

/// Helper to create a test service over fresh in-memory repositories.
fn test_service() -> Service {
    GardenService::new(
        InMemoryChannelRepository::new(),
        InMemoryBlockRepository::new(),
        InMemoryConnectionRepository::new(),
    )
}

// ── Channel operations ──────────────────────────────────────────────────

#[test]
fn create_channel_success() {
    let mut service = test_service();
    let channel = service
        .create_channel(NewChannel { title: "Test Channel".to_string(), description: None })
        .unwrap();

    assert_eq!(channel.title, "Test Channel");
    assert!(channel.description.is_none());
}

#[test]
fn create_channel_with_description() {
    let mut service = test_service();
    let channel = service
        .create_channel(NewChannel {
            title: "Test".to_string(),
            description: Some("A description".to_string()),
        })
        .unwrap();

    assert_eq!(channel.description, Some("A description".to_string()));
}

#[test]
fn create_channel_empty_title_fails() {
    let mut service = test_service();
    let result =
        service.create_channel(NewChannel { title: "   ".to_string(), description: None });

    assert!(matches!(result, Err(DomainError::InvalidInput(_))));
}

#[test]
fn get_channel_not_found() {
    let service = test_service();
    let result = service.get_channel(&ChannelId::new());

    assert!(matches!(result, Err(DomainError::ChannelNotFound(_))));
}

#[test]
fn list_channels_pagination() {
    let mut service = test_service();

    for i in 0..5 {
        service
            .create_channel(NewChannel { title: format!("Channel {}", i), description: None })
            .unwrap();
    }

    let page1 = service.list_channels(2, 0).unwrap();
    assert_eq!(page1.items.len(), 2);
    assert_eq!(page1.total, 5);
    assert!(page1.has_next());

    let page2 = service.list_channels(2, 2).unwrap();
    assert_eq!(page2.items.len(), 2);
    assert!(page2.has_next());

    let page3 = service.list_channels(2, 4).unwrap();
    assert_eq!(page3.items.len(), 1);
    assert!(!page3.has_next());
}

#[test]
fn update_channel_title() {
    let mut service = test_service();
    let channel = service
        .create_channel(NewChannel { title: "Original".to_string(), description: None })
        .unwrap();

    let updated = service
        .update_channel(
            &channel.id,
            ChannelUpdate { title: Some("Updated".to_string()), description: FieldUpdate::Keep },
        )
        .unwrap();

    assert_eq!(updated.title, "Updated");
}

#[test]
fn update_channel_set_description() {
    let mut service = test_service();
    let channel = service
        .create_channel(NewChannel { title: "Test".to_string(), description: None })
        .unwrap();

    let updated = service
        .update_channel(
            &channel.id,
            ChannelUpdate {
                title: None,
                description: FieldUpdate::Assign("New description".to_string()),
            },
        )
        .unwrap();

    assert_eq!(updated.description, Some("New description".to_string()));
}

#[test]
fn update_channel_clear_description() {
    let mut service = test_service();
    let channel = service
        .create_channel(NewChannel {
            title: "Test".to_string(),
            description: Some("Has description".to_string()),
        })
        .unwrap();

    let updated = service
        .update_channel(
            &channel.id,
            ChannelUpdate { title: None, description: FieldUpdate::Clear },
        )
        .unwrap();

    assert!(updated.description.is_none());
}

#[test]
fn delete_channel_success() {
    let mut service = test_service();
    let channel = service
        .create_channel(NewChannel { title: "Test".to_string(), description: None })
        .unwrap();

    service.delete_channel(&channel.id).unwrap();

    let result = service.get_channel(&channel.id);
    assert!(matches!(result, Err(DomainError::ChannelNotFound(_))));
}

// ── Block operations ────────────────────────────────────────────────────

#[test]
fn create_text_block_success() {
    let mut service = test_service();
    let block = service.create_block(NewBlock::text("Hello, world!".to_string())).unwrap();

    match &block.content {
        BlockContent::Text { body } => assert_eq!(body, "Hello, world!"),
        _ => panic!("Expected text block"),
    }
}

#[test]
fn create_link_block_success() {
    let mut service = test_service();
    let block = service
        .create_block(NewBlock::link("https://example.com".to_string()))
        .unwrap();

    match &block.content {
        BlockContent::Link { url, .. } => assert_eq!(url, "https://example.com"),
        _ => panic!("Expected link block"),
    }
}

#[test]
fn create_block_empty_text_fails() {
    let mut service = test_service();
    let result = service.create_block(NewBlock::text("   ".to_string()));

    assert!(matches!(result, Err(DomainError::InvalidInput(_))));
}

#[test]
fn create_block_invalid_url_fails() {
    let mut service = test_service();
    let result = service.create_block(NewBlock::link("not-a-url".to_string()));

    assert!(matches!(result, Err(DomainError::InvalidInput(_))));
}

#[test]
fn create_blocks_batch() {
    let mut service = test_service();
    let blocks = service
        .create_blocks(vec![
            NewBlock::text("One".to_string()),
            NewBlock::text("Two".to_string()),
            NewBlock::text("Three".to_string()),
        ])
        .unwrap();

    assert_eq!(blocks.len(), 3);
}

#[test]
fn get_block_not_found() {
    let service = test_service();
    let result = service.get_block(&BlockId::new());

    assert!(matches!(result, Err(DomainError::BlockNotFound(_))));
}

#[test]
fn update_block_content() {
    let mut service = test_service();
    let block = service.create_block(NewBlock::text("Original".to_string())).unwrap();

    let updated = service
        .update_block(
            &block.id,
            BlockUpdate {
                content: Some(BlockContent::text("Updated".to_string())),
                ..Default::default()
            },
        )
        .unwrap();

    match &updated.content {
        BlockContent::Text { body } => assert_eq!(body, "Updated"),
        _ => panic!("Expected text block"),
    }
}

#[test]
fn update_block_metadata() {
    let mut service = test_service();
    let block = service.create_block(NewBlock::text("Test".to_string())).unwrap();

    let updated = service
        .update_block(
            &block.id,
            BlockUpdate {
                source_url: Some(FieldUpdate::Assign("https://example.com".to_string())),
                creator: Some(FieldUpdate::Assign("John Doe".to_string())),
                ..Default::default()
            },
        )
        .unwrap();

    assert_eq!(updated.source_url, Some("https://example.com".to_string()));
    assert_eq!(updated.creator, Some("John Doe".to_string()));

    // Clear one field; the omitted field keeps its value.
    let updated2 = service
        .update_block(
            &block.id,
            BlockUpdate { source_url: Some(FieldUpdate::Clear), ..Default::default() },
        )
        .unwrap();

    assert_eq!(updated2.source_url, None);
    assert_eq!(updated2.creator, Some("John Doe".to_string()));
}

#[test]
fn delete_block_success() {
    let mut service = test_service();
    let block = service.create_block(NewBlock::text("Test".to_string())).unwrap();

    service.delete_block(&block.id).unwrap();

    let result = service.get_block(&block.id);
    assert!(matches!(result, Err(DomainError::BlockNotFound(_))));
}

// ── Connection operations ───────────────────────────────────────────────

/// Helper to create a service with a pre-existing channel and block.
fn service_with_channel_and_block() -> (Service, Channel, Block) {
    let mut service = test_service();

    let channel = service
        .create_channel(NewChannel { title: "Test Channel".to_string(), description: None })
        .unwrap();

    let block = service.create_block(NewBlock::text("Test Block".to_string())).unwrap();

    (service, channel, block)
}

#[test]
fn connect_block_success() {
    let (mut service, channel, block) = service_with_channel_and_block();

    let connection = service.connect_block(&block.id, &channel.id, None).unwrap();

    assert_eq!(connection.block_id, block.id);
    assert_eq!(connection.channel_id, channel.id);
    assert_eq!(connection.position, 0);
}

#[test]
fn connect_block_with_position() {
    let (mut service, channel, block) = service_with_channel_and_block();

    let connection = service.connect_block(&block.id, &channel.id, Some(5)).unwrap();

    assert_eq!(connection.position, 5);
}

#[test]
fn connect_block_nonexistent_block_fails() {
    let mut service = test_service();
    let channel = service
        .create_channel(NewChannel { title: "Test".to_string(), description: None })
        .unwrap();

    let result = service.connect_block(&BlockId::new(), &channel.id, None);

    assert!(matches!(result, Err(DomainError::BlockNotFound(_))));
}

#[test]
fn connect_block_nonexistent_channel_fails() {
    let mut service = test_service();
    let block = service.create_block(NewBlock::text("Test".to_string())).unwrap();

    let result = service.connect_block(&block.id, &ChannelId::new(), None);

    assert!(matches!(result, Err(DomainError::ChannelNotFound(_))));
}

#[test]
fn connect_block_already_connected_fails() {
    let (mut service, channel, block) = service_with_channel_and_block();

    service.connect_block(&block.id, &channel.id, None).unwrap();

    let result = service.connect_block(&block.id, &channel.id, None);
    assert!(matches!(result, Err(DomainError::InvalidInput(_))));
}

#[test]
fn disconnect_block_success() {
    let (mut service, channel, block) = service_with_channel_and_block();

    service.connect_block(&block.id, &channel.id, None).unwrap();
    service.disconnect_block(&block.id, &channel.id).unwrap();

    let result = service.get_connection(&block.id, &channel.id);
    assert!(matches!(result, Err(DomainError::ConnectionNotFound(_, _))));
}

#[test]
fn disconnect_nonexistent_connection_fails() {
    let mut service = test_service();
    let result = service.disconnect_block(&BlockId::new(), &ChannelId::new());

    assert!(matches!(result, Err(DomainError::ConnectionNotFound(_, _))));
}

#[test]
fn get_blocks_in_channel() {
    let mut service = test_service();

    let channel = service
        .create_channel(NewChannel { title: "Test Channel".to_string(), description: None })
        .unwrap();

    let block1 = service.create_block(NewBlock::text("Block 1".to_string())).unwrap();
    let block2 = service.create_block(NewBlock::text("Block 2".to_string())).unwrap();

    service.connect_block(&block1.id, &channel.id, Some(0)).unwrap();
    service.connect_block(&block2.id, &channel.id, Some(1)).unwrap();

    let blocks = service.get_blocks_in_channel(&channel.id).unwrap();
    assert_eq!(blocks.len(), 2);
}

#[test]
fn get_channels_for_block() {
    let mut service = test_service();

    let channel1 = service
        .create_channel(NewChannel { title: "Channel 1".to_string(), description: None })
        .unwrap();
    let channel2 = service
        .create_channel(NewChannel { title: "Channel 2".to_string(), description: None })
        .unwrap();

    let block = service.create_block(NewBlock::text("Test Block".to_string())).unwrap();

    service.connect_block(&block.id, &channel1.id, None).unwrap();
    service.connect_block(&block.id, &channel2.id, None).unwrap();

    let channels = service.get_channels_for_block(&block.id).unwrap();
    assert_eq!(channels.len(), 2);
}

#[test]
fn reorder_block_success() {
    let (mut service, channel, block) = service_with_channel_and_block();

    service.connect_block(&block.id, &channel.id, Some(0)).unwrap();
    service.reorder_block(&channel.id, &block.id, 10).unwrap();

    let connection = service.get_connection(&block.id, &channel.id).unwrap();
    assert_eq!(connection.position, 10);
}

#[test]
fn reorder_nonexistent_connection_fails() {
    let mut service = test_service();
    let result = service.reorder_block(&ChannelId::new(), &BlockId::new(), 5);

    assert!(matches!(result, Err(DomainError::ConnectionNotFound(_, _))));
}

#[test]
fn connect_blocks_batch_assigns_consecutive_positions() {
    let mut service = test_service();
    let channel = service
        .create_channel(NewChannel { title: "Batch".to_string(), description: None })
        .unwrap();
    let b1 = service.create_block(NewBlock::text("one".to_string())).unwrap();
    let b2 = service.create_block(NewBlock::text("two".to_string())).unwrap();
    let b3 = service.create_block(NewBlock::text("three".to_string())).unwrap();

    let conns = service
        .connect_blocks(&vec![b1.id.clone(), b2.id.clone(), b3.id.clone()], &channel.id, Some(4))
        .unwrap();

    assert_eq!(conns.len(), 3);
    assert_eq!(conns[0].position, 4);
    assert_eq!(conns[1].position, 5);
    assert_eq!(conns[2].position, 6);
    assert_eq!(conns[0].block_id, b1.id);
    assert_eq!(conns[2].block_id, b3.id);
}

#[test]
fn connect_blocks_rejects_missing_block_before_any_write() {
    let mut service = test_service();
    let channel = service
        .create_channel(NewChannel { title: "Batch".to_string(), description: None })
        .unwrap();
    let b1 = service.create_block(NewBlock::text("one".to_string())).unwrap();

    let result =
        service.connect_blocks(&vec![b1.id.clone(), BlockId::new()], &channel.id, None);
    assert!(matches!(result, Err(DomainError::BlockNotFound(_))));

    // Nothing was written, not even for the block that exists.
    let check = service.get_connection(&b1.id, &channel.id);
    assert!(matches!(check, Err(DomainError::ConnectionNotFound(_, _))));
}
