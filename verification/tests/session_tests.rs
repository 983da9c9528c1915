//! Session token behavior: generation, validation, clearing.

use delta_sync::session::{constant_time_eq, create_session_manager, SessionManager};

#[test]
fn test_generate_token() {
    let mut manager = SessionManager::new();
    let token = manager.generate_token();

    // Token should be 64 hex characters (32 bytes)
    assert_eq!(token.len(), 64);
    assert!(token.chars().all(|c| c.is_ascii_hexdigit()));
}

#[test]
fn test_validate_token() {
    let mut manager = SessionManager::new();
    let token = manager.generate_token();

    assert!(manager.validate_token(&token));
    assert!(!manager.validate_token("invalid_token"));
}

#[test]
fn test_clear_token() {
    let mut manager = SessionManager::new();
    let token = manager.generate_token();

    assert!(manager.validate_token(&token));
    manager.clear_token();
    assert!(!manager.validate_token(&token));
}

#[test]
fn test_has_active_session() {
    let mut manager = SessionManager::new();

    assert!(!manager.has_active_session());
    manager.generate_token();
    assert!(manager.has_active_session());
    manager.clear_token();
    assert!(!manager.has_active_session());
}

#[test]
fn test_create_session_manager_starts_empty() {
    let manager = create_session_manager();
    assert!(!manager.has_active_session());
}

#[test]
fn test_constant_time_eq() {
    assert!(constant_time_eq(b"abc", b"abc"));
    assert!(!constant_time_eq(b"abc", b"abd"));
    assert!(!constant_time_eq(b"abc", b"abcd"));
    assert!(constant_time_eq(b"", b""));
}
