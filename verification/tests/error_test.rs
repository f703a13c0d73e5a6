//! Tests for the error taxonomy and the conversions from collaborator
//! error types.

use ghost_core::error::GhostError;

#[test]
fn io_error_converts_to_io_kind() {
    let err = std::io::Error::new(std::io::ErrorKind::NotFound, "no such file");
    let g = GhostError::from_io(err);
    match g {
        GhostError::Io { message } => assert!(message.contains("no such file")),
        _ => panic!("expected Io"),
    }
}

#[test]
fn serde_json_error_converts_to_serialization_kind() {
    let err = serde_json::from_str::<serde_json::Value>("{ not json").unwrap_err();
    let g = GhostError::from_serde_json(err);
    assert!(matches!(g, GhostError::Serialization { .. }));
}

#[test]
fn toml_error_converts_to_configuration_kind() {
    let err = toml::from_str::<toml::Value>("= not toml").unwrap_err();
    let g = GhostError::from_toml_de(err);
    assert!(matches!(g, GhostError::Configuration { .. }));
}

#[test]
fn messages_render_kind_and_payload() {
    assert_eq!(
        GhostError::AccessDenied { pid: 1234 }.message(),
        "Process access denied (PID: 1234)"
    );
    assert_eq!(
        GhostError::ProcessNotFound { pid: 0 }.message(),
        "Process not found (PID: 0)"
    );
    assert_eq!(
        GhostError::ProcessNotFound { pid: u32::MAX }.message(),
        "Process not found (PID: 4294967295)"
    );
    assert_eq!(
        GhostError::MemoryEnumeration {
            reason: String::from("page gone")
        }
        .message(),
        "Memory enumeration failed: page gone"
    );
    assert_eq!(
        GhostError::InsufficientPrivileges.message(),
        "Insufficient privileges for operation"
    );
    assert_eq!(
        GhostError::PlatformNotSupported {
            feature: String::from("import table")
        }
        .message(),
        "Platform not supported: import table"
    );
    assert_eq!(
        GhostError::InvalidInput {
            message: String::from("bad pid")
        }
        .message(),
        "Invalid input: bad pid"
    );
}

#[test]
fn fatal_kinds_are_exactly_the_open_failures() {
    assert!(GhostError::AccessDenied { pid: 1 }.is_fatal());
    assert!(GhostError::ProcessNotFound { pid: 1 }.is_fatal());
    assert!(GhostError::InsufficientPrivileges.is_fatal());
    assert!(GhostError::InvalidInput {
        message: String::from("bad pid")
    }
    .is_fatal());
    assert!(!GhostError::MemoryEnumeration {
        reason: String::from("transient")
    }
    .is_fatal());
    assert!(!GhostError::ThreadEnumeration {
        reason: String::from("transient")
    }
    .is_fatal());
    assert!(!GhostError::PlatformNotSupported {
        feature: String::from("import table")
    }
    .is_fatal());
}
