//! The error taxonomy shared by every component of the engine, so that
//! callers can tell "the target cannot be inspected at all" from "one
//! technique could not be checked".

use vstd::prelude::*;

verus! {

/// The character of one decimal digit.
pub open spec fn digit_char(d: int) -> char {
    if d == 0 {
        '0'
    } else if d == 1 {
        '1'
    } else if d == 2 {
        '2'
    } else if d == 3 {
        '3'
    } else if d == 4 {
        '4'
    } else if d == 5 {
        '5'
    } else if d == 6 {
        '6'
    } else if d == 7 {
        '7'
    } else if d == 8 {
        '8'
    } else {
        '9'
    }
}

/// The decimal rendering of a non-negative number, most significant
/// digit first.
pub open spec fn dec_digits(n: int) -> Seq<char>
    decreases n,
{
    if n < 10 {
        seq![digit_char(n)]
    } else {
        dec_digits(n / 10) + seq![digit_char(n % 10)]
    }
}

/// Renders a number in decimal.
pub fn u32_to_decimal(n: u32) -> (r: String)
    ensures
        r@ == dec_digits(n as int),
    decreases n,
{
    let digit = n % 10;
    let ds: &str = match digit {
        0 => "0",
        1 => "1",
        2 => "2",
        3 => "3",
        4 => "4",
        5 => "5",
        6 => "6",
        7 => "7",
        8 => "8",
        _ => "9",
    };
    proof {
        reveal_strlit("0");
        reveal_strlit("1");
        reveal_strlit("2");
        reveal_strlit("3");
        reveal_strlit("4");
        reveal_strlit("5");
        reveal_strlit("6");
        reveal_strlit("7");
        reveal_strlit("8");
        reveal_strlit("9");
        assert(ds@ =~= seq![digit_char(digit as int)]);
    }
    if n < 10 {
        ds.to_owned()
    } else {
        let mut s = u32_to_decimal(n / 10);
        s.append(ds);
        proof {
            assert(s@ =~= dec_digits(n as int));
        }
        s
    }
}

/// Error type for the detection engine.
///
/// Fatal kinds (`AccessDenied`, `ProcessNotFound`, `InsufficientPrivileges`,
/// `InvalidInput`) abort a scan before any technique runs; the enumeration
/// kinds (`MemoryEnumeration`, `ThreadEnumeration`) accompany a partial
/// result as warnings; the remaining kinds cover collaborator boundaries.
#[derive(Debug, Clone)]
pub enum GhostError {
    AccessDenied { pid: u32 },
    ProcessNotFound { pid: u32 },
    MemoryEnumeration { reason: String },
    ThreadEnumeration { reason: String },
    InsufficientPrivileges,
    WindowsApi { message: String },
    Detection { message: String },
    Configuration { message: String },
    Io { message: String },
    Serialization { message: String },
    LockPoisoned { resource: String },
    ThreatIntel { message: String },
    MitreAnalysis { message: String },
    Ebpf { message: String },
    PlatformNotSupported { feature: String },
    InvalidInput { message: String },
}

/// The `serde_json` error type, carried through opaquely so that a
/// serialization failure at a collaborator boundary can be converted
/// into the engine's own taxonomy.
#[verifier::external_type_specification]
#[verifier::external_body]
pub struct ExSerdeJsonError(serde_json::Error);

/// The `toml` deserialization error type, carried through opaquely so
/// that a configuration-parse failure can be converted into the engine's
/// own taxonomy.
#[verifier::external_type_specification]
#[verifier::external_body]
pub struct ExTomlDeError(toml::de::Error);

/// The std I/O error type, carried through opaquely so that an I/O
/// failure at a collaborator boundary can be converted into the engine's
/// own taxonomy.
#[verifier::external_type_specification]
#[verifier::external_body]
pub struct ExIoError(std::io::Error);

impl GhostError {
    /// Converts an I/O failure into the engine's taxonomy, keeping its
    /// rendered message.
    pub fn from_io(err: std::io::Error) -> (r: GhostError)
        ensures
            r matches GhostError::Io { message }
                && vstd::string::to_string_from_display_ensures::<std::io::Error>(&err, message),
    {
        GhostError::Io { message: err.to_string() }
    }

    /// Converts a serialization failure into the engine's taxonomy,
    /// keeping its rendered message.
    pub fn from_serde_json(err: serde_json::Error) -> (r: GhostError)
        ensures
            r matches GhostError::Serialization { message }
                && vstd::string::to_string_from_display_ensures::<serde_json::Error>(
                &err,
                message,
            ),
    {
        GhostError::Serialization { message: err.to_string() }
    }

    /// Converts a configuration-parse failure into the engine's taxonomy,
    /// keeping its rendered message.
    pub fn from_toml_de(err: toml::de::Error) -> (r: GhostError)
        ensures
            r matches GhostError::Configuration { message }
                && vstd::string::to_string_from_display_ensures::<toml::de::Error>(&err, message),
    {
        GhostError::Configuration { message: err.to_string() }
    }

    /// Renders the error as the stable, human-readable message of its
    /// kind, with its payload interpolated.
    pub fn message(&self) -> (r: String)
        ensures
            *self matches GhostError::AccessDenied { pid } ==> r@ == "Process access denied (PID: "@
                + dec_digits(pid as int) + ")"@,
            *self matches GhostError::ProcessNotFound { pid } ==> r@ == "Process not found (PID: "@
                + dec_digits(pid as int) + ")"@,
            *self matches GhostError::MemoryEnumeration { reason } ==> r@
                == "Memory enumeration failed: "@ + reason@,
            *self matches GhostError::ThreadEnumeration { reason } ==> r@
                == "Thread enumeration failed: "@ + reason@,
            *self matches GhostError::InsufficientPrivileges ==> r@
                == "Insufficient privileges for operation"@,
            *self matches GhostError::WindowsApi { message } ==> r@ == "Windows API error: "@
                + message@,
            *self matches GhostError::Detection { message } ==> r@ == "Detection engine error: "@
                + message@,
            *self matches GhostError::Configuration { message } ==> r@ == "Configuration error: "@
                + message@,
            *self matches GhostError::Io { message } ==> r@ == "IO error: "@ + message@,
            *self matches GhostError::Serialization { message } ==> r@ == "Serialization error: "@
                + message@,
            *self matches GhostError::LockPoisoned { resource } ==> r@
                == "Lock acquisition failed: "@ + resource@,
            *self matches GhostError::ThreatIntel { message } ==> r@
                == "Threat intelligence error: "@ + message@,
            *self matches GhostError::MitreAnalysis { message } ==> r@
                == "MITRE ATT&CK analysis error: "@ + message@,
            *self matches GhostError::Ebpf { message } ==> r@ == "eBPF error: "@ + message@,
            *self matches GhostError::PlatformNotSupported { feature } ==> r@
                == "Platform not supported: "@ + feature@,
            *self matches GhostError::InvalidInput { message } ==> r@ == "Invalid input: "@
                + message@,
    {
        match self {
            GhostError::AccessDenied { pid } => {
                let mut s = "Process access denied (PID: ".to_owned();
                s.append(u32_to_decimal(*pid).as_str());
                s.append(")");
                s
            }
            GhostError::ProcessNotFound { pid } => {
                let mut s = "Process not found (PID: ".to_owned();
                s.append(u32_to_decimal(*pid).as_str());
                s.append(")");
                s
            }
            GhostError::MemoryEnumeration { reason } => {
                let mut s = "Memory enumeration failed: ".to_owned();
                s.append(reason.as_str());
                s
            }
            GhostError::ThreadEnumeration { reason } => {
                let mut s = "Thread enumeration failed: ".to_owned();
                s.append(reason.as_str());
                s
            }
            GhostError::InsufficientPrivileges => "Insufficient privileges for operation".to_owned(),
            GhostError::WindowsApi { message } => {
                let mut s = "Windows API error: ".to_owned();
                s.append(message.as_str());
                s
            }
            GhostError::Detection { message } => {
                let mut s = "Detection engine error: ".to_owned();
                s.append(message.as_str());
                s
            }
            GhostError::Configuration { message } => {
                let mut s = "Configuration error: ".to_owned();
                s.append(message.as_str());
                s
            }
            GhostError::Io { message } => {
                let mut s = "IO error: ".to_owned();
                s.append(message.as_str());
                s
            }
            GhostError::Serialization { message } => {
                let mut s = "Serialization error: ".to_owned();
                s.append(message.as_str());
                s
            }
            GhostError::LockPoisoned { resource } => {
                let mut s = "Lock acquisition failed: ".to_owned();
                s.append(resource.as_str());
                s
            }
            GhostError::ThreatIntel { message } => {
                let mut s = "Threat intelligence error: ".to_owned();
                s.append(message.as_str());
                s
            }
            GhostError::MitreAnalysis { message } => {
                let mut s = "MITRE ATT&CK analysis error: ".to_owned();
                s.append(message.as_str());
                s
            }
            GhostError::Ebpf { message } => {
                let mut s = "eBPF error: ".to_owned();
                s.append(message.as_str());
                s
            }
            GhostError::PlatformNotSupported { feature } => {
                let mut s = "Platform not supported: ".to_owned();
                s.append(feature.as_str());
                s
            }
            GhostError::InvalidInput { message } => {
                let mut s = "Invalid input: ".to_owned();
                s.append(message.as_str());
                s
            }
        }
    }

    /// Whether this error is fatal to a whole scan: no technique can run
    /// once the target cannot be opened or the input is malformed.
    pub fn is_fatal(&self) -> (r: bool)
        ensures
            r == (*self matches GhostError::AccessDenied { .. }
                || *self matches GhostError::ProcessNotFound { .. }
                || *self matches GhostError::InsufficientPrivileges
                || *self matches GhostError::InvalidInput { .. }),
    {
        matches!(
            self,
            GhostError::AccessDenied { .. }
                | GhostError::ProcessNotFound { .. }
                | GhostError::InsufficientPrivileges
                | GhostError::InvalidInput { .. }
        )
    }
}

} // verus!
