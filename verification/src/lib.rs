//! Signature-based malware detection: a scanning engine over a flat,
//! line-oriented signature database.
//!
//! The engine performs no input or output of its own. Callers read the
//! database, walk directories and hash files, and hand the engine what they
//! obtained; every operation answers with a [`report::ScanReport`] that holds
//! the outcome together with the notices to pass on to the message sink.

pub mod config;
pub mod detector;
pub mod digest;
pub mod dispatch;
pub mod error;
pub mod report;
pub mod scanner;
pub mod signature;
pub mod text;
pub mod tree;
pub mod walker;

pub use digest::calculate_sha256_hash;
pub use dispatch::shell_antivirus;
pub use scanner::{active_malware_scanner, search_malware_hash, search_malware_pattern};
pub use walker::list_files_and_folders;
