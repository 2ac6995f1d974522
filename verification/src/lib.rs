//! Encrypted, append-only diary records.
//!
//! A diary is a list of text lines. Each line holds one entry, sealed with
//! AES-256-GCM under a key derived from the owner's password and written in
//! standard base64. This crate derives keys, builds and reads such lines, and
//! lists or exports the entries that a sequence of lines holds.

pub mod codec;
pub mod entry;
pub mod error;
pub mod key;
pub mod primitives;
pub mod record;
pub mod report;
pub mod service;
