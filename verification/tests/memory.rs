//! Tests of the in-memory repository adapters.

use garden_core::models::Block;
use garden_core::models::BlockContent;
use garden_core::models::Channel;
use garden_core::models::NewBlock;
use garden_core::models::NewChannel;
use garden_core::ports::BlockRepository;
use garden_core::ports::ChannelRepository;
use garden_core::ports::ConnectionRepository;
use garden_core::ports::InMemoryBlockRepository;
use garden_core::ports::InMemoryChannelRepository;
use garden_core::ports::InMemoryConnectionRepository;
use garden_core::services::GardenService;

#[test]
fn channel_repo_crud() {
    let mut repo = InMemoryChannelRepository::new();
    let channel = Channel::new("Test".to_string());

    // Create
    repo.create(&channel).unwrap();

    // Get
    let retrieved = repo.get(&channel.id).unwrap().unwrap();
    assert_eq!(retrieved.title, "Test");

    // List
    let page = repo.list(10, 0).unwrap();
    assert_eq!(page.total, 1);
    assert_eq!(page.items.len(), 1);

    // Update
    let mut updated = channel.clone();
    updated.title = "Updated".to_string();
    repo.update(&updated).unwrap();
    let retrieved = repo.get(&channel.id).unwrap().unwrap();
    assert_eq!(retrieved.title, "Updated");

    // Delete
    repo.delete(&channel.id).unwrap();
    assert!(repo.get(&channel.id).unwrap().is_none());
}

#[test]
fn block_repo_batch_create() {
    let mut repo = InMemoryBlockRepository::new();
    let blocks = vec![
        Block::text("One".to_string()),
        Block::text("Two".to_string()),
        Block::text("Three".to_string()),
    ];

    repo.create_batch(&blocks).unwrap();

    for block in &blocks {
        assert!(repo.get(&block.id).unwrap().is_some());
    }
}

#[test]
fn block_repo_batch_is_atomic_on_duplicate() {
    let mut repo = InMemoryBlockRepository::new();
    let one = Block::text("One".to_string());
    let two = Block::text("Two".to_string());
    repo.create(&one).unwrap();

    // The second item collides with the stored block: nothing of the
    // batch may be persisted.
    let result = repo.create_batch(&vec![two.clone(), one.clone()]);
    assert!(result.is_err());
    assert!(repo.get(&two.id).unwrap().is_none());
}

#[test]
fn connection_repo_operations() {
    let mut channel_repo = InMemoryChannelRepository::new();
    let mut block_repo = InMemoryBlockRepository::new();
    let mut conn_repo = InMemoryConnectionRepository::new();

    let block = Block::text("Test block".to_string());
    let channel = Channel::new("Test channel".to_string());

    block_repo.create(&block).unwrap();
    channel_repo.create(&channel).unwrap();

    // Connect
    conn_repo.connect(&block.id, &channel.id, 0).unwrap();

    // Get connection
    let conn = conn_repo.get_connection(&block.id, &channel.id).unwrap();
    assert!(conn.is_some());

    // Connections in channel
    let in_channel = conn_repo.connections_in_channel(&channel.id).unwrap();
    assert_eq!(in_channel.len(), 1);

    // Connections for block
    let for_block = conn_repo.connections_for_block(&block.id).unwrap();
    assert_eq!(for_block.len(), 1);

    // Disconnect
    conn_repo.disconnect(&block.id, &channel.id).unwrap();
    assert!(conn_repo.get_connection(&block.id, &channel.id).unwrap().is_none());
}

#[test]
fn connection_repo_duplicate_pair_rejected() {
    let mut conn_repo = InMemoryConnectionRepository::new();
    let block = Block::text("b".to_string());
    let channel = Channel::new("c".to_string());

    conn_repo.connect(&block.id, &channel.id, 0).unwrap();
    let second = conn_repo.connect(&block.id, &channel.id, 7);
    assert!(second.is_err());
}

#[test]
fn connection_repo_next_position() {
    let mut conn_repo = InMemoryConnectionRepository::new();
    let channel = Channel::new("c".to_string());

    assert_eq!(conn_repo.next_position(&channel.id).unwrap(), 0);

    let b1 = Block::text("one".to_string());
    conn_repo.connect(&b1.id, &channel.id, 0).unwrap();
    assert_eq!(conn_repo.next_position(&channel.id).unwrap(), 1);

    let b2 = Block::text("two".to_string());
    conn_repo.connect(&b2.id, &channel.id, 9).unwrap();
    assert_eq!(conn_repo.next_position(&channel.id).unwrap(), 10);
}

#[test]
fn test_fixture_service_integration() {
    let mut service = GardenService::new(
        InMemoryChannelRepository::new(),
        InMemoryBlockRepository::new(),
        InMemoryConnectionRepository::new(),
    );

    let channel = service
        .create_channel(NewChannel { title: "Test Channel".to_string(), description: None })
        .unwrap();

    let block = service
        .create_block(NewBlock::new(BlockContent::text("Test Block".to_string())))
        .unwrap();

    service.connect_block(&block.id, &channel.id, None).unwrap();

    let blocks = service.get_blocks_in_channel(&channel.id).unwrap();
    assert_eq!(blocks.len(), 1);
    assert_eq!(blocks[0].id, block.id);

    let channels = service.get_channels_for_block(&block.id).unwrap();
    assert_eq!(channels.len(), 1);
    assert_eq!(channels[0].id, channel.id);
}
