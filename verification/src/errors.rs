//! Failure taxonomy of the signing-block pipeline.
//!
//! Fatal failures fall into three families: a malformed container (the
//! trailer magic is missing, the redundant size fields disagree, or a
//! declared length is not consumed exactly), a truncated slice (a length
//! prefix claims more bytes than remain), and a cross-check mismatch (the
//! redundant SDK pair of a V3 block disagrees).

use vstd::prelude::*;

verus! {

/// A fatal decode failure. Non-fatal conditions (an unknown scheme id, an
/// unknown algorithm id) never surface here; the offending unit is skipped.
#[derive(Debug, Clone, Copy, PartialEq, Eq, Structural)]
pub enum ApkError {
    /// No trailer magic was found while scanning backward from the end.
    SigningBlockNotFound,
    /// The size field before the magic exceeds the length of the file.
    BlockLargerThanFile { size: u64, file_len: u64 },
    /// The block would begin before the start of the file, or its body is
    /// too small to hold the mandatory fields, or an entry's declared
    /// length does not land exactly on the declared body length.
    TruncatedSigningBlock,
    /// The two redundant size fields bracketing the block disagree.
    InconsistentBlockSize { size1: u64, size2: u64 },
    /// A length prefix claims more bytes than remain in its slice.
    TruncatedOrOversized,
    /// A decoded layer does not have the shape the scheme requires.
    MalformedContainer,
    /// The outer and signed-data SDK pairs of a V3 block differ.
    SignedSdkMismatch,
}

impl ApkError {
    /// The container itself is malformed: magic not found, size fields
    /// inconsistent, or a declared length not consumed exactly.
    pub open spec fn spec_is_malformed_container(self) -> bool {
        match self {
            ApkError::SigningBlockNotFound => true,
            ApkError::BlockLargerThanFile { .. } => true,
            ApkError::TruncatedSigningBlock => true,
            ApkError::InconsistentBlockSize { .. } => true,
            ApkError::MalformedContainer => true,
            ApkError::TruncatedOrOversized => false,
            ApkError::SignedSdkMismatch => false,
        }
    }

    /// Classifies this failure as a malformed container.
    pub fn is_malformed_container(&self) -> (r: bool)
        ensures
            r == self.spec_is_malformed_container(),
    {
        match self {
            ApkError::SigningBlockNotFound => true,
            ApkError::BlockLargerThanFile { .. } => true,
            ApkError::TruncatedSigningBlock => true,
            ApkError::InconsistentBlockSize { .. } => true,
            ApkError::MalformedContainer => true,
            ApkError::TruncatedOrOversized => false,
            ApkError::SignedSdkMismatch => false,
        }
    }

    /// A truncated slice: a length prefix claimed more bytes than remain.
    pub open spec fn spec_is_truncated_slice(self) -> bool {
        self is TruncatedOrOversized
    }

    /// Classifies this failure as a truncated slice.
    pub fn is_truncated_slice(&self) -> (r: bool)
        ensures
            r == self.spec_is_truncated_slice(),
    {
        matches!(self, ApkError::TruncatedOrOversized)
    }

    /// A cross-check mismatch: redundant copies of a field disagree,
    /// which is treated as evidence of tampering.
    pub open spec fn spec_is_cross_check_mismatch(self) -> bool {
        self is SignedSdkMismatch
    }

    /// Classifies this failure as a cross-check mismatch.
    pub fn is_cross_check_mismatch(&self) -> (r: bool)
        ensures
            r == self.spec_is_cross_check_mismatch(),
    {
        matches!(self, ApkError::SignedSdkMismatch)
    }
}

/// A fatal failure of the binary-XML chunk parser. Unknown chunk types
/// are never fatal: such a chunk is skipped wholesale using its declared
/// size.
#[derive(Debug, Clone, Copy, PartialEq, Eq, Structural)]
pub enum AxmlError {
    /// A chunk header, field or string overruns its enclosing chunk.
    Truncated,
    /// A string-pool entry is not terminated or is not valid UTF-16.
    BadString,
    /// The root chunk of the document is not an XML chunk.
    NotXml,
    /// The first child of the document is not the string pool.
    MissingStringPool,
}

} // verus!
