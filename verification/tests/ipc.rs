//! Tests of the IPC error translation layer.

use garden_core::error::DomainError;
use garden_core::error::RepoError;
use garden_core::ipc::CommandResult;
use garden_core::ipc::ErrorCode;
use garden_core::ipc::TauriError;
use garden_core::models::BlockId;
use garden_core::models::ChannelId;

#[test]
fn channel_not_found_includes_id() {
    let channel_id = ChannelId("test-123".to_string());
    let domain_err = DomainError::ChannelNotFound(channel_id);
    let tauri_err: TauriError = domain_err.into();

    assert_eq!(tauri_err.code, ErrorCode::ChannelNotFound);
    assert_eq!(tauri_err.entity_id, Some("test-123".to_string()));
    assert!(tauri_err.message.contains("test-123"));
}

#[test]
fn block_not_found_includes_id() {
    let block_id = BlockId("block-456".to_string());
    let domain_err = DomainError::BlockNotFound(block_id);
    let tauri_err: TauriError = domain_err.into();

    assert_eq!(tauri_err.code, ErrorCode::BlockNotFound);
    assert_eq!(tauri_err.entity_id, Some("block-456".to_string()));
}

#[test]
fn validation_error_preserves_message() {
    let domain_err = DomainError::InvalidInput("Title cannot be empty".to_string());
    let tauri_err: TauriError = domain_err.into();

    assert_eq!(tauri_err.code, ErrorCode::ValidationError);
    assert_eq!(tauri_err.message, "Title cannot be empty");
    assert!(tauri_err.entity_id.is_none());
}

#[test]
fn duplicate_error_from_repo() {
    let repo_err = RepoError::Duplicate;
    let tauri_err: TauriError = repo_err.into();

    assert_eq!(tauri_err.code, ErrorCode::DuplicateError);
}

#[test]
fn exports_are_available() {
    // Verify key types are exported
    let _: fn() -> CommandResult<()> = || Ok(());
}

#[test]
fn connection_not_found_names_both_ids() {
    let err = DomainError::ConnectionNotFound(
        BlockId("b-1".to_string()),
        ChannelId("c-2".to_string()),
    );
    let tauri_err = TauriError::from_domain(err);

    assert_eq!(tauri_err.code, ErrorCode::ConnectionNotFound);
    assert!(tauri_err.message.contains("b-1"));
    assert!(tauri_err.message.contains("c-2"));
    assert!(tauri_err.entity_id.is_none());
}
