//! Errors surfaced by proof construction and deserialization.
//!
//! Hard proof-generation failures (malformed inputs to constraint helpers,
//! inconsistent witnesses, set-membership misses) and recoverable caller
//! errors (bad wire encodings) share this one type; the variant says which
//! condition was violated.

use vstd::prelude::*;

verus! {

/// A typed error of the proof-construction layer.
#[derive(Clone, Copy, Debug, PartialEq, Eq, Structural)]
pub enum ProofError {
    /// A serialized proof bundle does not parse.
    BadProofEncoding,
    /// A proof's verifier key is not in the circuit set it was checked against.
    NoCircuitForVerifierKey,
    /// A branch node was given no child proofs, or more than it supports.
    InvalidChildProofCount,
    /// A trie node's byte length exceeds the configured maximum.
    NodeTooLong,
    /// Sibling proofs disagree on their key prefix or pointer.
    MismatchedChildKeys,
    /// Sibling proofs disagree on a shared identity field.
    MismatchedSiblingFields,
    /// Two ranges to be merged are not adjacent.
    RangesNotAdjacent,
    /// An aggregated result would overflow its 256-bit accumulator.
    ResultOverflow,
    /// A division by zero was attempted in result computation.
    DivisionByZero,
    /// A public-input vector does not have the length its layout declares.
    BadPublicInputLength,
    /// The two proofs bound by the revelation step expose different roots.
    MismatchedRoots,
    /// The database proof does not start from the empty tree.
    BadInitialRoot,
    /// The clamped query bounds do not match the proved range.
    BoundsMismatch,
    /// The result entries are not strictly ordered.
    UnorderedResults,
    /// A recomputed digest does not match the one a proof exposes.
    DigestMismatch,
}

} // verus!
