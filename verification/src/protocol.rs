//! The application protocol spoken between two nodes.
//!
//! Request/response pairs carried by the overlay's request-response
//! transport.  Peers are named by their peer-id string; sessions by a
//! 128-bit identifier.

use vstd::prelude::*;

use crate::device::OsInfo;

verus! {

/// A pairing request as received from a peer.
#[derive(Debug)]
pub struct PairingRequest {
    pub os_info: OsInfo,
    pub timestamp: i64,
    pub method: PairingMethod,
}

/// How a peer asks to pair: with a short code, or directly on the LAN.
#[derive(Debug)]
pub enum PairingMethod {
    Code { code: String },
    Direct,
}

/// The answer to a pairing request.
#[derive(Debug)]
pub enum PairingResponse {
    Success,
    Refused { reason: String },
}

impl Clone for PairingResponse {
    fn clone(&self) -> (r: Self)
        ensures
            r == *self,
    {
        match self {
            PairingResponse::Success => PairingResponse::Success,
            PairingResponse::Refused { reason } => PairingResponse::Refused {
                reason: reason.clone(),
            },
        }
    }
}

/// Metadata of one file carried in an offer.
#[derive(Debug)]
pub struct FileInfo {
    /// Dense identifier, assigned from zero.
    pub file_id: u32,
    /// File name.
    pub name: String,
    /// Forward-slash relative path, used to rebuild the directory tree.
    pub relative_path: String,
    /// File size in bytes.
    pub size: u64,
    /// BLAKE3 checksum of the whole file, in hex.
    pub checksum: String,
}

impl Clone for FileInfo {
    fn clone(&self) -> (r: Self)
        ensures
            r == *self,
    {
        FileInfo {
            file_id: self.file_id,
            name: self.name.clone(),
            relative_path: self.relative_path.clone(),
            size: self.size,
            checksum: self.checksum.clone(),
        }
    }
}

/// A transfer-protocol request.
#[derive(Debug)]
pub enum TransferRequest {
    /// The sender proposes a transfer.
    Offer { session_id: u128, files: Vec<FileInfo>, total_size: u64 },
    /// The receiver pulls one chunk.
    ChunkRequest { session_id: u128, file_id: u32, chunk_index: u32 },
    /// The receiver reports the transfer finished.
    Complete { session_id: u128 },
    /// Either side abandons the transfer.
    Cancel { session_id: u128, reason: String },
}

/// A transfer-protocol response.
#[derive(Debug)]
pub enum TransferResponse {
    /// The receiver's answer to an offer; on acceptance it carries the fresh
    /// 256-bit session key.
    OfferResult { accepted: bool, key: Option<[u8; 32]>, reason: Option<String> },
    /// One encrypted chunk.
    Chunk { session_id: u128, file_id: u32, chunk_index: u32, data: Vec<u8>, is_last: bool },
    /// Plain acknowledgement.
    Ack { session_id: u128 },
}

/// Any request of the application protocol.
#[derive(Debug)]
pub enum AppRequest {
    Pairing(PairingRequest),
    Transfer(TransferRequest),
}

/// Any response of the application protocol.
#[derive(Debug)]
pub enum AppResponse {
    Pairing(PairingResponse),
    Transfer(TransferResponse),
}

} // verus!
