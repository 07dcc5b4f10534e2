//! Normalization and classification of a single genomic variant record.
//!
//! A variant is a `(position, reference allele, alternate allele)` triple.
//! [`record::normalize`] validates the two alleles against the nucleotide
//! alphabet, trims shared trailing and then shared leading bases (adjusting
//! the position), and returns the minimal canonical triple.
//! [`record::variant_type`] classifies a normalized pair of alleles by
//! structural type.

use vstd::prelude::*;

pub mod errors;
pub mod record;

verus! {

/// Structural type of a normalized variant.
#[derive(Debug, PartialEq, Eq, Structural)]
pub enum VariantType {
    /// Both alleles have length one and differ.
    SNV,
    /// The reference is longer and the alternate is its anchored single-base prefix.
    Deletion,
    /// The alternate is longer and the reference is its anchored single-base prefix.
    Insertion,
    /// The alleles have different lengths and no anchor-base relation.
    Indel,
    /// The alleles have the same length, greater than one, and differ.
    MNV,
}

} // verus!
