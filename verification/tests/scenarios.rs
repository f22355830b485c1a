//! End-to-end scenarios of the connection and ordering subsystem.

use garden_core::error::DomainError;
use garden_core::error::RepoError;
use garden_core::models::BlockId;
use garden_core::models::Channel;
use garden_core::models::NewBlock;
use garden_core::models::NewChannel;
use garden_core::ports::ChannelRepository;
use garden_core::ports::ConnectionRepository;
use garden_core::ports::InMemoryBlockRepository;
use garden_core::ports::InMemoryChannelRepository;
use garden_core::ports::InMemoryConnectionRepository;
use garden_core::services::GardenService;

type Service = GardenService<
    InMemoryChannelRepository,
    InMemoryBlockRepository,
    InMemoryConnectionRepository,
>;

fn service() -> Service {
    GardenService::new(
        InMemoryChannelRepository::new(),
        InMemoryBlockRepository::new(),
        InMemoryConnectionRepository::new(),
    )
}

#[test]
fn generated_ids_have_uuid_length() {
    assert_eq!(BlockId::new().0.len(), 36);
}

#[test]
fn append_position_is_monotonic() {
    let mut s = service();
    let channel = s
        .create_channel(NewChannel { title: "positions".to_string(), description: None })
        .unwrap();

    // An empty channel hands out position 0, then 1, then 2.
    for expected in 0..3 {
        let block = s.create_block(NewBlock::text(format!("block {}", expected))).unwrap();
        let conn = s.connect_block(&block.id, &channel.id, None).unwrap();
        assert_eq!(conn.position, expected);
    }

    // After an explicit jump to position 7, appending continues at 8.
    let jumper = s.create_block(NewBlock::text("jumper".to_string())).unwrap();
    s.connect_block(&jumper.id, &channel.id, Some(7)).unwrap();

    let next = s.create_block(NewBlock::text("next".to_string())).unwrap();
    let conn = s.connect_block(&next.id, &channel.id, None).unwrap();
    assert_eq!(conn.position, 8);
}

#[test]
fn ordering_is_preserved() {
    let mut s = service();
    let channel = s
        .create_channel(NewChannel { title: "ordered".to_string(), description: None })
        .unwrap();
    let b1 = s.create_block(NewBlock::text("B1".to_string())).unwrap();
    let b2 = s.create_block(NewBlock::text("B2".to_string())).unwrap();
    let b3 = s.create_block(NewBlock::text("B3".to_string())).unwrap();

    // Connect out of order: B1 at 1, B2 at 0, B3 at 2.
    s.connect_block(&b1.id, &channel.id, Some(1)).unwrap();
    s.connect_block(&b2.id, &channel.id, Some(0)).unwrap();
    s.connect_block(&b3.id, &channel.id, Some(2)).unwrap();

    let listed = s.get_blocks_in_channel_with_positions(&channel.id).unwrap();
    assert_eq!(listed.len(), 3);
    assert_eq!(listed[0].0.id, b2.id);
    assert_eq!(listed[0].1, 0);
    assert_eq!(listed[1].0.id, b1.id);
    assert_eq!(listed[1].1, 1);
    assert_eq!(listed[2].0.id, b3.id);
    assert_eq!(listed[2].1, 2);
}

#[test]
fn cascade_delete_channel_removes_connections() {
    let mut s = service();
    let channel = s
        .create_channel(NewChannel { title: "doomed".to_string(), description: None })
        .unwrap();
    let block = s.create_block(NewBlock::text("survivor".to_string())).unwrap();
    s.connect_block(&block.id, &channel.id, None).unwrap();

    s.delete_channel(&channel.id).unwrap();

    // The connection is gone, the block is intact and queryable.
    let conn = s.get_connection(&block.id, &channel.id);
    assert!(matches!(conn, Err(DomainError::ConnectionNotFound(_, _))));
    assert!(s.get_block(&block.id).is_ok());
}

#[test]
fn cascade_delete_block_removes_connections() {
    let mut s = service();
    let channel = s
        .create_channel(NewChannel { title: "kept".to_string(), description: None })
        .unwrap();
    let block = s.create_block(NewBlock::text("doomed".to_string())).unwrap();
    s.connect_block(&block.id, &channel.id, None).unwrap();

    s.delete_block(&block.id).unwrap();

    let conn = s.get_connection(&block.id, &channel.id);
    assert!(matches!(conn, Err(DomainError::ConnectionNotFound(_, _))));
    assert!(s.get_channel(&channel.id).is_ok());
}

#[test]
fn batch_with_invalid_item_rejected_before_any_write() {
    let mut s = service();
    let result = s.create_blocks(vec![
        NewBlock::text("fine".to_string()),
        NewBlock::text("   ".to_string()),
        NewBlock::text("also fine".to_string()),
    ]);
    assert!(matches!(result, Err(DomainError::InvalidInput(_))));
}

#[test]
fn end_to_end_reading_list() {
    let mut s = service();

    let channel = s
        .create_channel(NewChannel { title: "Reading List".to_string(), description: None })
        .unwrap();

    let block = s.create_block(NewBlock::text("hello".to_string())).unwrap();
    let conn = s.connect_block(&block.id, &channel.id, None).unwrap();
    assert_eq!(conn.position, 0);

    let block2 = s.create_block(NewBlock::text("world".to_string())).unwrap();
    let conn2 = s.connect_block(&block2.id, &channel.id, None).unwrap();
    assert_eq!(conn2.position, 1);

    let blocks = s.get_blocks_in_channel(&channel.id).unwrap();
    assert_eq!(blocks.len(), 2);
    assert_eq!(blocks[0].id, block.id);
    assert_eq!(blocks[1].id, block2.id);

    s.reorder_block(&channel.id, &block.id, 5).unwrap();

    let listed = s.get_blocks_in_channel_with_positions(&channel.id).unwrap();
    assert_eq!(listed[0].0.id, block2.id);
    assert_eq!(listed[0].1, 1);
    assert_eq!(listed[1].0.id, block.id);
    assert_eq!(listed[1].1, 5);
}

#[test]
fn disconnect_then_reconnect() {
    let mut s = service();
    let channel = s
        .create_channel(NewChannel { title: "again".to_string(), description: None })
        .unwrap();
    let block = s.create_block(NewBlock::text("b".to_string())).unwrap();

    s.connect_block(&block.id, &channel.id, Some(0)).unwrap();
    s.disconnect_block(&block.id, &channel.id).unwrap();

    let gone = s.get_connection(&block.id, &channel.id);
    assert!(matches!(gone, Err(DomainError::ConnectionNotFound(_, _))));

    // No stale residue: the same pair can be connected again.
    let conn = s.connect_block(&block.id, &channel.id, Some(0)).unwrap();
    assert_eq!(conn.position, 0);
}

#[test]
fn duplicate_channel_id_rejected_by_repository() {
    let mut repo = InMemoryChannelRepository::new();
    let channel = Channel::new("once".to_string());
    repo.create(&channel).unwrap();
    let again = repo.create(&channel);
    assert!(matches!(again, Err(RepoError::Duplicate)));
}

#[test]
fn update_missing_channel_is_not_found() {
    let mut repo = InMemoryChannelRepository::new();
    let channel = Channel::new("ghost".to_string());
    let result = repo.update(&channel);
    assert!(matches!(result, Err(RepoError::NotFound)));
}

#[test]
fn next_position_overflow_is_a_database_error() {
    let mut s = service();
    let channel = s
        .create_channel(NewChannel { title: "edge".to_string(), description: None })
        .unwrap();
    let block = s.create_block(NewBlock::text("ceiling".to_string())).unwrap();
    s.connect_block(&block.id, &channel.id, Some(i32::MAX)).unwrap();

    let other = s.create_block(NewBlock::text("over".to_string())).unwrap();
    let result = s.connect_block(&other.id, &channel.id, None);
    assert!(matches!(result, Err(DomainError::Repository(RepoError::Database(_)))));
}

#[test]
fn serialization_error_keeps_its_message() {
    let err = RepoError::serialization("bad payload".to_string());
    assert_eq!(err.message(), "serialization error: bad payload");
}

#[test]
fn list_channels_orders_newest_first() {
    let mut repo = InMemoryChannelRepository::new();
    let mut older = Channel::new("older".to_string());
    let mut newer = Channel::new("newer".to_string());
    older.created_at = 1000;
    newer.created_at = 2000;
    repo.create(&older).unwrap();
    repo.create(&newer).unwrap();

    let page = repo.list(10, 0).unwrap();
    assert_eq!(page.items[0].title, "newer");
    assert_eq!(page.items[1].title, "older");
}

#[test]
fn equal_positions_are_tolerated_and_keep_insertion_order() {
    let mut s = service();
    let channel = s
        .create_channel(NewChannel { title: "ties".to_string(), description: None })
        .unwrap();
    let first = s.create_block(NewBlock::text("first".to_string())).unwrap();
    let second = s.create_block(NewBlock::text("second".to_string())).unwrap();

    s.connect_block(&first.id, &channel.id, Some(3)).unwrap();
    s.connect_block(&second.id, &channel.id, Some(3)).unwrap();

    let listed = s.get_blocks_in_channel_with_positions(&channel.id).unwrap();
    assert_eq!(listed.len(), 2);
    assert_eq!(listed[0].0.id, first.id);
    assert_eq!(listed[0].1, 3);
    assert_eq!(listed[1].0.id, second.id);
    assert_eq!(listed[1].1, 3);
}

#[test]
fn reorder_onto_an_occupied_position_is_permitted() {
    let mut s = service();
    let channel = s
        .create_channel(NewChannel { title: "collide".to_string(), description: None })
        .unwrap();
    let a = s.create_block(NewBlock::text("a".to_string())).unwrap();
    let b = s.create_block(NewBlock::text("b".to_string())).unwrap();
    s.connect_block(&a.id, &channel.id, Some(0)).unwrap();
    s.connect_block(&b.id, &channel.id, Some(1)).unwrap();

    // Moving b onto a's position is not rejected and not renumbered.
    s.reorder_block(&channel.id, &b.id, 0).unwrap();
    let listed = s.get_blocks_in_channel_with_positions(&channel.id).unwrap();
    assert_eq!(listed[0].1, 0);
    assert_eq!(listed[1].1, 0);
    assert_eq!(listed[0].0.id, a.id);
    assert_eq!(listed[1].0.id, b.id);
}
