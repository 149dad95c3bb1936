use rustganizer::error::{Error, ErrorContext, ErrorHandler, IoErrorKind};

#[test]
fn test_error_messages_per_variant() {
    let e = Error::FileSystem { kind: IoErrorKind::Other, message: "disk full".to_string() };
    assert_eq!(e.message(), "File system error: disk full");

    let e = Error::UserNotFound { username: "sam".to_string() };
    assert_eq!(e.message(), "User not found: sam");

    let e = Error::EmptyUsername;
    assert_eq!(e.message(), "Empty username provided");

    let e = Error::PermissionDenied { path: "/root/secret".to_string() };
    assert_eq!(e.message(), "Permission denied: /root/secret");

    let e = Error::InvalidExtension { extension: "mp33".to_string() };
    assert_eq!(e.message(), "Invalid file extension: mp33");

    let e = Error::InvalidLanguage { language: "tlh".to_string() };
    assert_eq!(e.message(), "Invalid language code: tlh");

    let e = Error::Cancelled;
    assert_eq!(e.message(), "Cancelled operation");

    let e = Error::InvalidConfig { message: "bad table".to_string() };
    assert_eq!(e.message(), "Invalid configuration: bad table");
}

#[test]
fn test_handle_file_operation() {
    let e = ErrorHandler::handle_file_operation("rename", "/tmp/a", "busy");
    assert_eq!(e.message(), "File operation failed: rename on /tmp/a - busy");
    assert!(!ErrorHandler::is_fatal_error(&e));
}

#[test]
fn test_handle_directory_operation() {
    let e = ErrorHandler::handle_directory_operation("create", "/tmp/d", "exists");
    assert_eq!(e.message(), "Directory operation failed: create on /tmp/d - exists");
    assert!(!ErrorHandler::is_fatal_error(&e));
}

#[test]
fn test_is_retryable_error() {
    let would_block = Error::FileSystem {
        kind: IoErrorKind::WouldBlock,
        message: "would block".to_string(),
    };
    assert!(ErrorHandler::is_retryable_error(&would_block));
    let interrupted = Error::FileSystem {
        kind: IoErrorKind::Interrupted,
        message: "interrupted".to_string(),
    };
    assert!(ErrorHandler::is_retryable_error(&interrupted));
    let other = Error::FileSystem { kind: IoErrorKind::Other, message: "denied".to_string() };
    assert!(!ErrorHandler::is_retryable_error(&other));
    assert!(!ErrorHandler::is_retryable_error(&Error::Cancelled));
}

#[test]
fn test_is_fatal_error() {
    assert!(ErrorHandler::is_fatal_error(&Error::EmptyUsername));
    assert!(ErrorHandler::is_fatal_error(&Error::PermissionDenied { path: "p".to_string() }));
    assert!(ErrorHandler::is_fatal_error(&Error::InvalidLanguage { language: "x".to_string() }));
    assert!(ErrorHandler::is_fatal_error(&Error::InvalidConfig { message: "m".to_string() }));
    assert!(!ErrorHandler::is_fatal_error(&Error::Cancelled));
    assert!(!ErrorHandler::is_fatal_error(&Error::UserNotFound { username: "u".to_string() }));
}

#[test]
fn test_error_context_builders() {
    let ctx = ErrorContext::new("scan");
    assert_eq!(ctx.operation, "scan");
    assert_eq!(ctx.path, None);
    assert_eq!(ctx.user_info, None);

    let ctx = ctx.with_path("/home/sam/Downloads").with_user_info("sam");
    assert_eq!(ctx.operation, "scan");
    assert_eq!(ctx.path.as_deref(), Some("/home/sam/Downloads"));
    assert_eq!(ctx.user_info.as_deref(), Some("sam"));
}
