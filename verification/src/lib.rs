//! Publishing derived artifacts onto a tagged release.
//!
//! A release carries named assets. A run selects some of them by glob pattern,
//! derives new files from their content (checksum files, detached signatures, a
//! packaged binary) and publishes those files back onto the release, replacing
//! any asset that already carries the same name.
//!
//! This crate holds the decisions of that pipeline and proves them against
//! their contracts. Network, subprocess and file-system access are left to the
//! caller, which hands plain values in and performs the actions handed back.

pub mod apt;
pub mod archive;
pub mod cargo;
pub mod checksums;
pub mod env;
pub mod executor;
pub mod glob;
pub mod gpg;
pub mod hashing;
pub mod http;
pub mod options;
pub mod process;
pub mod publish;
pub mod release;
pub mod rustup;
pub mod signing;
pub mod text;
pub mod toolchain;
pub mod triple;
