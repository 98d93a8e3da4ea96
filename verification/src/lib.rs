//! A recursive proof-composition framework for blockchain-state queries,
//! with its value-level logic verified.
//!
//! Small circuits prove local facts: a trie leaf holds a mapping entry, a
//! branch merges sibling subtrees, a state proof binds a storage root into
//! one block, an aggregation node merges two adjacent block ranges.  Larger
//! circuits consume the smaller ones' proofs through a universal verifier
//! that accepts any member of a declared circuit set, until one terminal
//! revelation proof binds a whole range claim to a block database and
//! exposes the externally consumable result.
//!
//! Layers communicate only through fixed-offset public-input vectors, so
//! this crate states, for every circuit of the family, exactly which words
//! its proofs expose as a function of its witness and its children's words:
//! the arithmetic of the 256-bit accumulators, the hashing discipline of the
//! commitments, the digest accumulation that excludes padding children, the
//! set-membership rule of the universal verifier, and the clamping of query
//! bounds at revelation.

pub mod bundle;
pub mod circuit_set;
pub mod digest;
pub mod erc20_block;
pub mod erc20_state;
pub mod erc20_storage;
pub mod errors;
pub mod hash;
pub mod limbs;
pub mod mapping;
pub mod pack;
pub mod query2_revelation;
pub mod query2_storage;
pub mod revelation;
pub mod u256;
