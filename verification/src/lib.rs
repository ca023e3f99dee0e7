//! Verified extraction of release metadata from Android application packages.
//!
//! The crate decodes two binary formats that arrive from untrusted input:
//! the APK Signing Block (signature schemes V2 and V3), a length-prefixed
//! container appended near the end of a ZIP-based file, and Android's
//! compiled binary XML chunk stream, used to read the application manifest.
//! Both decoders work on in-memory byte buffers; all file, archive and
//! network handling stays with the caller.

pub mod axml;
pub mod config;
pub mod errors;
pub mod manifest;
pub mod repo;
pub mod signing_block;
pub mod text;
pub mod tlv;
