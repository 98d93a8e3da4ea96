//! The commitment hash of the circuit family.
//!
//! Every in-circuit commitment (trie node roots, circuit digests, circuit-set
//! digests) is a 4-word hash of a word sequence: the words are laid out as
//! little-endian bytes, hashed with Keccak-256, and the 32 output bytes are
//! read back as 4 little-endian words.  Only the Keccak permutation itself is
//! an outside call; the byte layout around it is verified.

use vstd::prelude::*;
use vstd::arithmetic::power2::*;
use vstd::arithmetic::div_mod::*;

verus! {

/// What Keccak-256 returns for a byte sequence.
pub uninterp spec fn keccak_of(s: Seq<u8>) -> Seq<u8>;

/// Relies on `ethers_core::utils::keccak256`: the Keccak-256 digest of the
/// input bytes, 32 bytes long, a function of the input alone.
#[verifier::external_body]
pub(crate) fn keccak256_bytes(input: &[u8]) -> (r: Vec<u8>)
    ensures
        r@ == keccak_of(input@),
        r@.len() == 32,
{
    ethers_core::utils::keccak256(input).to_vec()
}

/// Byte `k` (little-endian) of a 64-bit word.
pub open spec fn byte_of_word(w: u64, k: int) -> u8 {
    (((w as int) / (pow2((8 * k) as nat) as int)) % 256) as u8
}

/// The little-endian byte layout of a word sequence: 8 bytes per word.
pub open spec fn le_bytes_of_words(s: Seq<u64>) -> Seq<u8> {
    Seq::new(8 * s.len(), |i: int| byte_of_word(s[i / 8], i % 8))
}

/// Value of the byte suffix `s[n..8]`, least significant byte first.
pub open spec fn bytes_suffix_val(s: Seq<u8>, n: int) -> int
    decreases 8 - n,
{
    if n < 0 || n >= 8 {
        0
    } else {
        s[n] + 256 * bytes_suffix_val(s, n + 1)
    }
}

/// The word denoted by 8 little-endian bytes.
pub open spec fn word_from_bytes(s: Seq<u8>) -> u64 {
    bytes_suffix_val(s, 0) as u64
}

/// The 4 words read from a 32-byte hash output.
pub open spec fn words_from_hash_bytes(s: Seq<u8>) -> Seq<u64> {
    Seq::new(4, |i: int| word_from_bytes(s.subrange(8 * i, 8 * i + 8)))
}

/// The commitment hash of a word sequence, as 4 words.
pub open spec fn node_hash_of(s: Seq<u64>) -> Seq<u64> {
    words_from_hash_bytes(keccak_of(le_bytes_of_words(s)))
}

/// A byte suffix of length `8 - n` denotes a value below `2^(8*(8-n))`.
pub proof fn lemma_bytes_suffix_val_bound(s: Seq<u8>, n: int)
    requires
        0 <= n <= 8,
        s.len() >= 8,
    ensures
        0 <= bytes_suffix_val(s, n) < pow2((8 * (8 - n)) as nat),
    decreases 8 - n,
{
    lemma2_to64();
    if n < 8 {
        lemma_bytes_suffix_val_bound(s, n + 1);
        lemma_pow2_adds(8, (8 * (8 - n - 1)) as nat);
    }
}

/// Lay a word sequence out as little-endian bytes.
pub fn words_to_le_bytes(words: &Vec<u64>) -> (r: Vec<u8>)
    ensures
        r@ == le_bytes_of_words(words@),
{
    let mut out: Vec<u8> = Vec::new();
    let mut n: usize = 0;
    while n < words.len()
        invariant
            n <= words@.len(),
            out@.len() == 8 * n,
            forall|i: int| 0 <= i < 8 * n ==> out@[i] == byte_of_word(words@[i / 8], i % 8),
        decreases words@.len() - n,
    {
        let w: u64 = words[n];
        let mut x: u64 = w;
        let mut k: usize = 0;
        proof {
            lemma2_to64();
            lemma_fundamental_div_mod_converse(w as int, 1, w as int, 0);
        }
        while k < 8
            invariant
                k <= 8,
                n < words@.len(),
                w == words@[n as int],
                x == (w as int) / (pow2((8 * k) as nat) as int),
                out@.len() == 8 * n + k,
                forall|i: int| 0 <= i < 8 * n + k
                    ==> out@[i] == byte_of_word(words@[i / 8], i % 8),
            decreases 8 - k,
        {
            let b: u8 = (x % 256) as u8;
            proof {
                lemma2_to64();
                assert(b == byte_of_word(w, k as int));
                let idx = 8 * n + k;
                assert(idx / 8 == n && idx % 8 == k as int) by (nonlinear_arith)
                    requires
                        idx == 8 * n + k,
                        0 <= k < 8,
                        0 <= n,
                ;
                lemma_pow2_pos((8 * k) as nat);
                lemma_div_denominator(w as int, pow2((8 * k) as nat) as int, 256);
                lemma_pow2_adds((8 * k) as nat, 8);
            }
            out.push(b);
            x = x / 256;
            k = k + 1;
        }
        n = n + 1;
    }
    proof {
        assert(out@ =~= le_bytes_of_words(words@));
    }
    out
}

/// Read 4 little-endian words back from a 32-byte hash output.
fn words_from_bytes32(bytes: &Vec<u8>) -> (r: [u64; 4])
    requires
        bytes@.len() == 32,
    ensures
        r@ == words_from_hash_bytes(bytes@),
{
    let mut out: [u64; 4] = [0u64; 4];
    let mut i: usize = 0;
    while i < 4
        invariant
            i <= 4,
            bytes@.len() == 32,
            forall|j: int| 0 <= j < i
                ==> out@[j] == word_from_bytes(bytes@.subrange(8 * j, 8 * j + 8)),
        decreases 4 - i,
    {
        let ghost chunk = bytes@.subrange(8 * i as int, 8 * i as int + 8);
        let mut w: u64 = 0;
        let mut m: usize = 0;
        while m < 8
            invariant
                m <= 8,
                i < 4,
                bytes@.len() == 32,
                chunk == bytes@.subrange(8 * i as int, 8 * i as int + 8),
                w == bytes_suffix_val(chunk, 8 - m),
            decreases 8 - m,
        {
            proof {
                lemma_bytes_suffix_val_bound(chunk, 8 - m);
                lemma2_to64();
                lemma2_to64_rest();
                if 8 * m < 56 {
                    lemma_pow2_strictly_increases((8 * m) as nat, 56);
                }
                assert(w < pow2(56));
            }
            let b: u8 = bytes[8 * i + 7 - m];
            proof {
                assert(chunk[7 - m] == bytes@[8 * i + 7 - m]);
            }
            w = w * 256 + b as u64;
            m = m + 1;
        }
        out[i] = w;
        i = i + 1;
    }
    proof {
        assert(out@ =~= words_from_hash_bytes(bytes@));
    }
    out
}

/// The commitment hash of a raw byte string, as 4 words.
pub open spec fn bytes_node_hash_of(s: Seq<u8>) -> Seq<u64> {
    words_from_hash_bytes(keccak_of(s))
}

/// Hash a raw byte string into a 4-word commitment.
pub fn bytes_node_hash(bytes: &Vec<u8>) -> (r: [u64; 4])
    ensures
        r@ == bytes_node_hash_of(bytes@),
{
    let h = keccak256_bytes(bytes.as_slice());
    words_from_bytes32(&h)
}

/// The commitment hash of a word sequence: Keccak-256 over its little-endian
/// byte layout, read back as 4 words.
pub fn node_hash(words: &Vec<u64>) -> (r: [u64; 4])
    ensures
        r@ == node_hash_of(words@),
{
    let bytes = words_to_le_bytes(words);
    let h = keccak256_bytes(bytes.as_slice());
    words_from_bytes32(&h)
}

} // verus!
