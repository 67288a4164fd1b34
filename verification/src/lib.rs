//! Verified core of a peer-to-peer file-drop engine.
//!
//! Two paired endpoints transfer files and directory trees end-to-end
//! encrypted over a P2P overlay.  This crate holds the engine itself — the
//! chunk codec, the pairing and transfer state machines, the progress
//! tracker, and the part-file write model — each with a contract checked by
//! Verus.  The overlay, the real file system and the UI shell drive these
//! state machines from outside and are no part of the verified core.

pub mod checksum;
pub mod device;
pub mod device_manager;
pub mod dispatch;
pub mod dht_key;
pub mod errors;
pub mod crypto;
pub mod fs_scan;
pub mod pairing;
pub mod progress;
pub mod protocol;
pub mod receiver;
pub mod registry;
pub mod sender;
pub mod sink;
pub mod source;
pub mod transfer_manager;
