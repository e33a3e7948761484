//! The error kinds that the library's operations surface to callers.

use vstd::prelude::*;

verus! {

/// Every failure a split or a recovery can report, as one flat enumeration.
#[derive(Debug, Clone, PartialEq, Eq)]
pub enum Error {
    /// The threshold `k` exceeds the share count `n`.
    InvalidThreshold(u8, u8),
    /// `k` or `n` is zero.
    InvalidSplitParametersZero(u8, u8),
    /// No shares were supplied.
    EmptyShares,
    /// The shares disagree on the threshold or on the Merkle root; the
    /// payload groups the offending shares.
    IncompatibleSets(Vec<Vec<u8>>),
    /// A share identifier lies outside `[1, n]`.
    ShareIdentifierTooBig(u8, u8),
    /// Fewer shares than the threshold requires: `(required, provided)`.
    MissingShares(usize, usize),
    /// The same share identifier was seen twice.
    DuplicateShareId(u8),
    /// The same share data was seen twice while the threshold is not 1.
    DuplicateShareData(u8),
    /// A share string is malformed: `(share index, raw text)`.
    ShareParsing(u8, String),
    /// A share's payload failed to decode.
    CorruptedShare(u8),
    /// Signature verification was requested on an unsigned share.
    MissingSignature(u8),
    /// A share's signature failed to verify: `(share id, detail)`.
    InvalidSignature(u8, String),
    /// The recovered bytes do not decode as a secret envelope.
    SecretDeserialization,
    /// The operating system's random source failed.
    CannotGenerateRandomNumbers,
}

} // verus!
