//! Validation errors for variant records.

use vstd::prelude::*;

verus! {

/// The four ways a `(reference, alternate)` pair can fail validation.
///
/// The two invalid-symbol variants carry the offending allele string for
/// diagnostics. Every variant is caller-correctable: the record itself is
/// malformed and no amount of retrying changes that.
#[derive(Debug, PartialEq, Eq)]
pub enum Error {
    /// The reference allele is the empty string.
    RefBasesEmptyError(),
    /// The alternate allele is the empty string.
    AltBasesEmptyError(),
    /// The reference allele holds a character outside the nucleotide alphabet.
    RefBasesInvalidSymbolError(String),
    /// The alternate allele holds a character outside the nucleotide alphabet.
    AltBasesInvalidSymbolError(String),
}

} // verus!
