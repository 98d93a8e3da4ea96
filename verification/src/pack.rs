//! Packed word encodings used in public-input vectors.
//!
//! Public-input vectors are flat word sequences; a 256-bit value occupies 8
//! words each holding one 32-bit limb, and a 20-byte address occupies 5 such
//! words.  These helpers convert between [`UInt256`] values, packed byte
//! strings and their word encodings, with the word sequences given exact
//! integer values.

use vstd::prelude::*;
use vstd::arithmetic::power2::*;

use crate::limbs::{limbs_val, limbs_val_prefix};
use crate::u256::UInt256;

verus! {

/// Value of the first `n` words of `s`, each expected to hold a 32-bit limb,
/// weighted by `2^(32*i)`.
pub open spec fn words_val_prefix(s: Seq<u64>, n: int) -> int
    decreases n,
{
    if n <= 0 {
        0
    } else {
        words_val_prefix(s, n - 1) + s[n - 1] * pow2((32 * (n - 1)) as nat)
    }
}

/// Value of a whole packed word sequence.
pub open spec fn words_val(s: Seq<u64>) -> int {
    words_val_prefix(s, s.len() as int)
}

/// Every word of the sequence fits in 32 bits.
pub open spec fn words_in_u32_range(s: Seq<u64>) -> bool {
    forall|i: int| 0 <= i < s.len() ==> s[i] < 0x1_0000_0000
}

/// A word sequence holding exactly a limb sequence denotes the same value.
pub proof fn lemma_words_val_matches_limbs(ws: Seq<u64>, ls: Seq<u32>, n: int)
    requires
        0 <= n <= ws.len(),
        n <= ls.len(),
        forall|i: int| 0 <= i < n ==> ws[i] == ls[i] as u64,
    ensures
        words_val_prefix(ws, n) == limbs_val_prefix(ls, n),
    decreases n,
{
    if n > 0 {
        lemma_words_val_matches_limbs(ws, ls, n - 1);
    }
}

/// Encode a 256-bit value as its 8 packed words, little-endian limb order.
pub fn u256_to_words(x: &UInt256) -> (r: Vec<u64>)
    ensures
        r@.len() == 8,
        words_in_u32_range(r@),
        words_val(r@) == x.val(),
        forall|i: int| 0 <= i < 8 ==> r@[i] == x.limbs@[i] as u64,
{
    let mut out: Vec<u64> = Vec::new();
    let mut i: usize = 0;
    while i < 8
        invariant
            i <= 8,
            out@.len() == i,
            forall|j: int| 0 <= j < i ==> out@[j] == x.limbs@[j] as u64,
        decreases 8 - i,
    {
        out.push(x.limbs[i] as u64);
        i = i + 1;
    }
    proof {
        lemma_words_val_matches_limbs(out@, x.limbs@, 8);
    }
    out
}

/// Decode 8 packed words back into a 256-bit value.
pub fn u256_from_words(words: &[u64]) -> (r: Option<UInt256>)
    ensures
        r is Some <==> words@.len() == 8 && words_in_u32_range(words@),
        r is Some ==> r->0.val() == words_val(words@),
        r is Some ==> forall|i: int| 0 <= i < 8 ==> r->0.limbs@[i] as u64 == words@[i],
{
    if words.len() != 8 {
        return None;
    }
    let mut limbs: [u32; 8] = [0u32; 8];
    let mut i: usize = 0;
    while i < 8
        invariant
            i <= 8,
            words@.len() == 8,
            forall|j: int| 0 <= j < i ==> limbs@[j] as u64 == words@[j],
            forall|j: int| 0 <= j < i ==> words@[j] < 0x1_0000_0000,
        decreases 8 - i,
    {
        let w: u64 = words[i];
        if w >= 0x1_0000_0000 {
            return None;
        }
        limbs[i] = w as u32;
        i = i + 1;
    }
    let r = UInt256 { limbs };
    proof {
        lemma_words_val_matches_limbs(words@, limbs@, 8);
    }
    Some(r)
}

/// Left-pad a byte string to 32 bytes: the value sits at the end, as a
/// big-endian byte string does.
pub fn left_pad32(bytes: &[u8]) -> (r: Option<Vec<u8>>)
    ensures
        r is Some <==> bytes@.len() <= 32,
        r is Some ==> r->0@.len() == 32,
        r is Some ==> forall|i: int| 0 <= i < 32 - bytes@.len() ==> r->0@[i] == 0,
        r is Some ==> forall|i: int| 32 - bytes@.len() <= i < 32
            ==> r->0@[i] == bytes@[i - (32 - bytes@.len())],
{
    if bytes.len() > 32 {
        return None;
    }
    let pad: usize = 32 - bytes.len();
    let mut out: Vec<u8> = Vec::new();
    let mut i: usize = 0;
    while i < pad
        invariant
            i <= pad,
            pad == 32 - bytes@.len(),
            out@.len() == i,
            forall|j: int| 0 <= j < i ==> out@[j] == 0,
        decreases pad - i,
    {
        out.push(0u8);
        i = i + 1;
    }
    let mut k: usize = 0;
    while k < bytes.len()
        invariant
            k <= bytes@.len(),
            pad == 32 - bytes@.len(),
            out@.len() == pad + k,
            forall|j: int| 0 <= j < pad ==> out@[j] == 0,
            forall|j: int| 0 <= j < k ==> out@[pad + j] == bytes@[j],
        decreases bytes@.len() - k,
    {
        out.push(bytes[k]);
        k = k + 1;
    }
    Some(out)
}

/// The word packing of a 32-byte string: 8 words, each holding 4 consecutive
/// bytes in little-endian order.
pub open spec fn packed_bytes_word(s: Seq<u8>, i: int) -> u64 {
    (s[4 * i] + s[4 * i + 1] * 0x100 + s[4 * i + 2] * 0x1_0000 + s[4 * i + 3] * 0x100_0000) as u64
}

/// Pack a 32-byte string into its 8 words.
pub fn pack_bytes32(bytes: &Vec<u8>) -> (r: Vec<u64>)
    requires
        bytes@.len() == 32,
    ensures
        r@.len() == 8,
        words_in_u32_range(r@),
        forall|i: int| 0 <= i < 8 ==> r@[i] == packed_bytes_word(bytes@, i),
{
    let mut out: Vec<u64> = Vec::new();
    let mut i: usize = 0;
    while i < 8
        invariant
            i <= 8,
            bytes@.len() == 32,
            out@.len() == i,
            forall|j: int| 0 <= j < i ==> out@[j] == packed_bytes_word(bytes@, j)
                && out@[j] < 0x1_0000_0000,
        decreases 8 - i,
    {
        let w: u64 = bytes[4 * i] as u64 + bytes[4 * i + 1] as u64 * 0x100
            + bytes[4 * i + 2] as u64 * 0x1_0000 + bytes[4 * i + 3] as u64 * 0x100_0000;
        out.push(w);
        i = i + 1;
    }
    out
}

/// Pack a byte string of at most 32 bytes: left-pad, then pack.
pub fn pack_left_pad32(bytes: &[u8]) -> (r: Option<Vec<u64>>)
    ensures
        r is Some <==> bytes@.len() <= 32,
        r is Some ==> r->0@.len() == 8 && words_in_u32_range(r->0@),
{
    match left_pad32(bytes) {
        Some(padded) => Some(pack_bytes32(&padded)),
        None => None,
    }
}

} // verus!
