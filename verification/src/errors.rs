//! The error taxonomy that the engine surfaces.

use vstd::prelude::*;

verus! {

/// Unified error type of the engine.
///
/// Variants that carry a `String` hold a human-readable message; the
/// parameterless variants are distinct kinds that the UI tells apart.
#[derive(Debug, Clone)]
pub enum AppError {
    /// Underlying file-system failure, surfaced by the I/O shell.
    Io(String),
    /// Overlay failure: unreachable peer, timeout, send/receive failure.
    Network(String),
    /// AEAD tag verification failed: ciphertext tampered or key mismatch.
    Crypto(String),
    /// Domain error of a transfer (not-paired, unknown-file-id, chunk-range,
    /// checksum-mismatch, user-cancelled, permission-denied).
    Transfer(String),
    /// A command was issued before the node was started.
    NodeNotStarted,
    /// The pairing code has passed its expiry time.
    ExpiredCode,
    /// The pairing code does not match the active one, or none is active.
    InvalidCode,
    /// Malformed key material or registration failure.
    Identity(String),
    /// Any other failure.
    Unknown(String),
}

/// Result alias used throughout the engine.
pub type AppResult<T> = Result<T, AppError>;

impl AppError {
    /// A stable label for the error kind, for logs and the UI.
    pub fn kind(&self) -> (r: &'static str)
        ensures
            (self is ExpiredCode) ==> r@ == "ExpiredCode"@,
            (self is InvalidCode) ==> r@ == "InvalidCode"@,
            (self is NodeNotStarted) ==> r@ == "NodeNotStarted"@,
    {
        match self {
            AppError::Io(_) => "Io",
            AppError::Network(_) => "Network",
            AppError::Crypto(_) => "Crypto",
            AppError::Transfer(_) => "Transfer",
            AppError::NodeNotStarted => "NodeNotStarted",
            AppError::ExpiredCode => "ExpiredCode",
            AppError::InvalidCode => "InvalidCode",
            AppError::Identity(_) => "Identity",
            AppError::Unknown(_) => "Unknown",
        }
    }

    /// The message carried by the variant, or an empty string.
    pub fn message(&self) -> (r: String)
        ensures
            self matches AppError::Transfer(m) ==> r@ == m@,
            self matches AppError::Crypto(m) ==> r@ == m@,
            self matches AppError::Network(m) ==> r@ == m@,
            self matches AppError::Io(m) ==> r@ == m@,
    {
        match self {
            AppError::Io(m) => m.clone(),
            AppError::Network(m) => m.clone(),
            AppError::Crypto(m) => m.clone(),
            AppError::Transfer(m) => m.clone(),
            AppError::NodeNotStarted => String::new(),
            AppError::ExpiredCode => String::new(),
            AppError::InvalidCode => String::new(),
            AppError::Identity(m) => m.clone(),
            AppError::Unknown(m) => m.clone(),
        }
    }
}

} // verus!
