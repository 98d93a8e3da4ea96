//! The proof-bundle wire format.
//!
//! A proof travels between layers as its flat public-input words together
//! with the digest of the verifier key it was produced under, serialized as
//! a versioned little-endian word layout: a word count, the public inputs,
//! then the 4 key-digest words.  Serialization and parsing are verified and
//! proved inverse to each other.

use vstd::prelude::*;
use vstd::arithmetic::power2::*;
use vstd::arithmetic::div_mod::*;

use crate::errors::ProofError;
use crate::hash::{
    byte_of_word, le_bytes_of_words, words_to_le_bytes, word_from_bytes, bytes_suffix_val,
};

verus! {

/// The prover output of one circuit invocation: its exposed public inputs.
#[derive(Clone, Debug)]
pub struct ProofData {
    pub public_inputs: Vec<u64>,
}

/// A proof together with the digest of the verifier key that checks it,
/// the bundle exchanged between recursion layers.
#[derive(Clone, Debug)]
pub struct ProofWithVK {
    pub proof: ProofData,
    pub vk: [u64; 4],
}

impl ProofWithVK {
    /// The word layout this bundle serializes to: its public-input count,
    /// the public inputs, then the verifier-key digest.
    pub open spec fn wire_words(self) -> Seq<u64> {
        seq![self.proof.public_inputs@.len() as u64] + self.proof.public_inputs@ + self.vk@
    }

    /// Serialize the bundle into its little-endian byte layout.
    pub fn serialize(&self) -> (r: Vec<u8>)
        ensures
            r@ == le_bytes_of_words(self.wire_words()),
    {
        let mut words: Vec<u64> = Vec::new();
        words.push(self.proof.public_inputs.len() as u64);
        let mut i: usize = 0;
        while i < self.public_input_count()
            invariant
                i <= self.proof.public_inputs@.len(),
                words@.len() == 1 + i,
                words@[0] == self.proof.public_inputs@.len() as u64,
                forall|j: int| 0 <= j < i ==> words@[1 + j] == self.proof.public_inputs@[j],
            decreases self.proof.public_inputs@.len() - i,
        {
            words.push(self.proof.public_inputs[i]);
            i = i + 1;
        }
        let mut k: usize = 0;
        while k < 4
            invariant
                k <= 4,
                words@.len() == 1 + self.proof.public_inputs@.len() + k,
                words@[0] == self.proof.public_inputs@.len() as u64,
                forall|j: int| 0 <= j < self.proof.public_inputs@.len()
                    ==> words@[1 + j] == self.proof.public_inputs@[j],
                forall|j: int| 0 <= j < k
                    ==> words@[1 + self.proof.public_inputs@.len() + j] == self.vk@[j],
            decreases 4 - k,
        {
            words.push(self.vk[k]);
            k = k + 1;
        }
        proof {
            assert(words@ =~= self.wire_words());
        }
        words_to_le_bytes(&words)
    }

    fn public_input_count(&self) -> (r: usize)
        ensures
            r == self.proof.public_inputs@.len(),
    {
        self.proof.public_inputs.len()
    }

    /// Parse a bundle back from its byte layout.  Succeeds exactly on the
    /// well-formed encodings, and on those returns the encoded bundle.
    pub fn deserialize(bytes: &Vec<u8>) -> (r: Result<ProofWithVK, ProofError>)
        ensures
            r is Ok <==> valid_wire_bytes(bytes@),
            r is Ok ==> r->Ok_0.wire_words() == words_of_bytes(bytes@)
                && bytes@ == le_bytes_of_words(r->Ok_0.wire_words()),
            r is Err ==> r->Err_0 == ProofError::BadProofEncoding,
    {
        if bytes.len() % 8 != 0 {
            return Err(ProofError::BadProofEncoding);
        }
        let n_words: usize = bytes.len() / 8;
        if n_words < 5 {
            return Err(ProofError::BadProofEncoding);
        }
        let words = words_from_le_bytes(bytes);
        if words[0] != (n_words - 5) as u64 {
            return Err(ProofError::BadProofEncoding);
        }
        let n_pi: usize = n_words - 5;
        let mut public_inputs: Vec<u64> = Vec::new();
        let mut i: usize = 0;
        while i < n_pi
            invariant
                i <= n_pi,
                n_pi + 5 == words@.len(),
                public_inputs@ == words@.subrange(1, 1 + i as int),
            decreases n_pi - i,
        {
            let ghost pre = public_inputs@;
            public_inputs.push(words[1 + i]);
            proof {
                assert(public_inputs@ =~= words@.subrange(1, 1 + (i + 1)));
            }
            i = i + 1;
        }
        let vk: [u64; 4] = [
            words[n_pi + 1],
            words[n_pi + 2],
            words[n_pi + 3],
            words[n_pi + 4],
        ];
        let out = ProofWithVK { proof: ProofData { public_inputs }, vk };
        proof {
            assert(out.wire_words() =~= words_of_bytes(bytes@));
            lemma_bytes_of_words_of_bytes(bytes@);
        }
        Ok(out)
    }
}

/// Whether a byte sequence is a well-formed bundle encoding: whole words,
/// room for the count and the key digest, and a count word that matches.
pub open spec fn valid_wire_bytes(s: Seq<u8>) -> bool {
    &&& s.len() % 8 == 0
    &&& s.len() / 8 >= 5
    &&& words_of_bytes(s)[0] == (s.len() / 8 - 5) as u64
}

/// The words read from a byte sequence, 8 little-endian bytes each.
pub open spec fn words_of_bytes(s: Seq<u8>) -> Seq<u64> {
    Seq::new(s.len() as nat / 8, |i: int| word_from_bytes(s.subrange(8 * i, 8 * i + 8)))
}

/// Read back all little-endian words of a byte vector.
fn words_from_le_bytes(bytes: &Vec<u8>) -> (r: Vec<u64>)
    requires
        bytes@.len() % 8 == 0,
    ensures
        r@ == words_of_bytes(bytes@),
{
    let total: usize = bytes.len();
    let n: usize = total / 8;
    proof {
        lemma_fundamental_div_mod(total as int, 8);
    }
    let mut out: Vec<u64> = Vec::new();
    let mut i: usize = 0;
    while i < n
        invariant
            i <= n,
            total == bytes@.len(),
            total == 8 * n,
            n == bytes@.len() / 8,
            bytes@.len() % 8 == 0,
            out@.len() == i,
            forall|j: int| 0 <= j < i
                ==> out@[j] == word_from_bytes(bytes@.subrange(8 * j, 8 * j + 8)),
        decreases n - i,
    {
        let ghost chunk = bytes@.subrange(8 * i as int, 8 * i as int + 8);
        let mut w: u64 = 0;
        let mut m: usize = 0;
        while m < 8
            invariant
                m <= 8,
                i < n,
                total == bytes@.len(),
                total == 8 * n,
                chunk == bytes@.subrange(8 * i as int, 8 * i as int + 8),
                w == bytes_suffix_val(chunk, 8 - m),
            decreases 8 - m,
        {
            proof {
                crate::hash::lemma_bytes_suffix_val_bound(chunk, 8 - m);
                lemma2_to64();
                lemma2_to64_rest();
                if 8 * m < 56 {
                    lemma_pow2_strictly_increases((8 * m) as nat, 56);
                }
                assert(w < pow2(56));
                assert(8 * i + 8 <= total);
            }
            let b: u8 = bytes[8 * i + 7 - m];
            proof {
                assert(chunk[7 - m] == bytes@[8 * i + 7 - m]);
            }
            w = w * 256 + b as u64;
            m = m + 1;
        }
        out.push(w);
        i = i + 1;
    }
    proof {
        assert(out@ =~= words_of_bytes(bytes@));
    }
    out
}

/// Reading a word back from its little-endian bytes recovers the word.
pub proof fn lemma_word_round_trip(w: u64)
    ensures
        word_from_bytes(Seq::new(8, |k: int| byte_of_word(w, k))) == w,
{
    let s = Seq::new(8, |k: int| byte_of_word(w, k));
    lemma_suffix_recovers(w, s, 8);
    lemma2_to64();
    assert(pow2(0) == 1);
    lemma_fundamental_div_mod_converse(w as int, 1, w as int, 0);
}

/// The byte suffix from position `n` of a word's layout denotes the word
/// shifted down by `8n` bits.
proof fn lemma_suffix_recovers(w: u64, s: Seq<u8>, count: int)
    requires
        0 <= count <= 8,
        s == Seq::new(8, |k: int| byte_of_word(w, k)),
    ensures
        bytes_suffix_val(s, 8 - count) == (w as int) / (pow2((8 * (8 - count)) as nat) as int),
    decreases count,
{
    lemma2_to64();
    lemma2_to64_rest();
    if count == 0 {
        lemma_pow2_pos(64);
        assert(pow2(64) == 0x1_0000_0000_0000_0000);
        lemma_basic_div_specific_divisor(pow2(64) as int);
    } else {
        let n = 8 - count;
        lemma_suffix_recovers(w, s, count - 1);
        let p = pow2((8 * n) as nat) as int;
        lemma_pow2_pos((8 * n) as nat);
        let q = (w as int) / p;
        lemma_div_pos_is_pos(w as int, p);
        lemma_pow2_adds((8 * n) as nat, 8);
        lemma_div_denominator(w as int, p, 256);
        assert(s[n] == byte_of_word(w, n));
        assert(byte_of_word(w, n) == q % 256);
        lemma_fundamental_div_mod(q, 256);
        assert(bytes_suffix_val(s, n) == s[n] + 256 * bytes_suffix_val(s, n + 1));
    }
}

/// The whole wire layout is invertible: the words read back from a word
/// sequence's byte layout are that word sequence.
pub proof fn lemma_wire_round_trip(ws: Seq<u64>)
    ensures
        words_of_bytes(le_bytes_of_words(ws)) == ws,
{
    let bytes = le_bytes_of_words(ws);
    assert(bytes.len() == 8 * ws.len());
    assert forall|i: int| 0 <= i < ws.len()
        implies words_of_bytes(bytes)[i] == ws[i] by {
        let chunk = bytes.subrange(8 * i, 8 * i + 8);
        let direct = Seq::new(8, |k: int| byte_of_word(ws[i], k));
        assert forall|k: int| 0 <= k < 8 implies chunk[k] == direct[k] by {
            assert(chunk[k] == bytes[8 * i + k]);
            assert((8 * i + k) / 8 == i && (8 * i + k) % 8 == k) by (nonlinear_arith)
                requires
                    0 <= k < 8,
                    0 <= i,
            ;
        }
        assert(chunk =~= direct);
        lemma_word_round_trip(ws[i]);
    }
    assert(words_of_bytes(bytes) =~= ws);
}

/// A serialized bundle always parses back to itself: its byte layout is a
/// well-formed encoding and decodes to the same words.
pub proof fn lemma_bundle_round_trip(p: ProofWithVK)
    requires
        p.proof.public_inputs@.len() < 0x1_0000_0000,
    ensures
        valid_wire_bytes(le_bytes_of_words(p.wire_words())),
        words_of_bytes(le_bytes_of_words(p.wire_words())) == p.wire_words(),
{
    let ws = p.wire_words();
    lemma_wire_round_trip(ws);
    let bytes = le_bytes_of_words(ws);
    assert(bytes.len() == 8 * ws.len());
    lemma_mod_multiples_basic(ws.len() as int, 8);
    lemma_div_by_multiple(ws.len() as int, 8);
    assert(ws[0] == p.proof.public_inputs@.len() as u64);
}

/// If a byte sequence's word count and length agree, re-laying its decoded
/// words out as bytes gives the sequence back.
proof fn lemma_bytes_of_words_of_bytes(s: Seq<u8>)
    requires
        s.len() % 8 == 0,
    ensures
        le_bytes_of_words(words_of_bytes(s)) == s,
{
    let ws = words_of_bytes(s);
    lemma_fundamental_div_mod(s.len() as int, 8);
    assert(s.len() == 8 * ws.len());
    let back = le_bytes_of_words(ws);
    assert forall|i: int| 0 <= i < s.len() implies back[i] == s[i] by {
        let wi = i / 8;
        let k = i % 8;
        lemma_fundamental_div_mod(i, 8);
        lemma_mod_bound(i, 8);
        lemma_div_pos_is_pos(i, 8);
        assert(back[i] == byte_of_word(ws[wi], k));
        let chunk = s.subrange(8 * wi, 8 * wi + 8);
        assert(ws[wi] == word_from_bytes(chunk));
        lemma_bytes_recover(chunk);
        assert(byte_of_word(word_from_bytes(chunk), k) == chunk[k]);
        assert(chunk[k] == s[8 * wi + k]);
    }
    assert(back =~= s);
}

/// Each byte of an 8-byte chunk is recovered from the word it denotes.
proof fn lemma_bytes_recover(chunk: Seq<u8>)
    requires
        chunk.len() == 8,
    ensures
        forall|k: int| 0 <= k < 8
            ==> #[trigger] byte_of_word(word_from_bytes(chunk), k) == chunk[k],
{
    let w = word_from_bytes(chunk);
    crate::hash::lemma_bytes_suffix_val_bound(chunk, 0);
    assert forall|k: int| 0 <= k < 8
        implies #[trigger] byte_of_word(w, k) == chunk[k] by {
        lemma_chunk_byte(chunk, k);
    }
}

proof fn lemma_chunk_byte(chunk: Seq<u8>, k: int)
    requires
        chunk.len() == 8,
        0 <= k < 8,
    ensures
        byte_of_word(word_from_bytes(chunk), k) == chunk[k],
{
    let w = word_from_bytes(chunk);
    crate::hash::lemma_bytes_suffix_val_bound(chunk, 0);
    lemma2_to64();
    // The suffix value at k splits off exactly the byte at k.
    lemma_suffix_div(chunk, k);
    let p = pow2((8 * k) as nat) as int;
    lemma_pow2_pos((8 * k) as nat);
    crate::hash::lemma_bytes_suffix_val_bound(chunk, k);
    crate::hash::lemma_bytes_suffix_val_bound(chunk, k + 1);
    assert((w as int) / p == bytes_suffix_val(chunk, k));
    assert(bytes_suffix_val(chunk, k) == chunk[k] + 256 * bytes_suffix_val(chunk, k + 1));
    lemma_fundamental_div_mod_converse(
        bytes_suffix_val(chunk, k),
        256,
        bytes_suffix_val(chunk, k + 1),
        chunk[k] as int,
    );
}

/// The value of a byte chunk shifted down by `8k` bits is its suffix value
/// from position `k`.
proof fn lemma_suffix_div(chunk: Seq<u8>, k: int)
    requires
        chunk.len() == 8,
        0 <= k <= 8,
    ensures
        (word_from_bytes(chunk) as int) / (pow2((8 * k) as nat) as int)
            == bytes_suffix_val(chunk, k),
    decreases k,
{
    lemma2_to64();
    crate::hash::lemma_bytes_suffix_val_bound(chunk, 0);
    let w = word_from_bytes(chunk) as int;
    if k == 0 {
        lemma_fundamental_div_mod_converse(w, 1, w, 0);
    } else {
        lemma_suffix_div(chunk, k - 1);
        let p0 = pow2((8 * (k - 1)) as nat) as int;
        lemma_pow2_pos((8 * (k - 1)) as nat);
        lemma_pow2_adds((8 * (k - 1)) as nat, 8);
        lemma_div_denominator(w, p0, 256);
        // w / p0 is the suffix at k-1, whose low byte is chunk[k-1].
        assert(bytes_suffix_val(chunk, k - 1)
            == chunk[k - 1] + 256 * bytes_suffix_val(chunk, k));
        crate::hash::lemma_bytes_suffix_val_bound(chunk, k);
        lemma_fundamental_div_mod_converse(
            bytes_suffix_val(chunk, k - 1),
            256,
            bytes_suffix_val(chunk, k),
            chunk[k - 1] as int,
        );
        assert((w / p0) / 256 == bytes_suffix_val(chunk, k));
    }
}

/// The verifier-key words at the tail of an encoded bundle.
pub open spec fn encoded_vk(bytes: Seq<u8>) -> Seq<u64> {
    let ws = words_of_bytes(bytes);
    ws.subrange(ws.len() - 4, ws.len() as int)
}

/// The public-input words inside an encoded bundle: everything between the
/// leading count word and the trailing verifier-key digest.
pub open spec fn encoded_public_inputs(bytes: Seq<u8>) -> Seq<u64> {
    let ws = words_of_bytes(bytes);
    ws.subrange(1, ws.len() - 4)
}

/// A serialized bundle carries its verifier-key digest as its last words.
pub proof fn lemma_encoded_vk(p: ProofWithVK)
    requires
        p.proof.public_inputs@.len() < 0x1_0000_0000,
    ensures
        encoded_vk(le_bytes_of_words(p.wire_words())) == p.vk@,
{
    lemma_wire_round_trip(p.wire_words());
    let ws = p.wire_words();
    assert(ws.subrange(ws.len() - 4, ws.len() as int) =~= p.vk@);
}

/// A serialized bundle carries its public-input words between the leading
/// count word and the trailing key digest.
pub proof fn lemma_encoded_pis(p: ProofWithVK)
    requires
        p.proof.public_inputs@.len() < 0x1_0000_0000,
    ensures
        encoded_public_inputs(le_bytes_of_words(p.wire_words())) == p.proof.public_inputs@,
{
    lemma_wire_round_trip(p.wire_words());
    let ws = p.wire_words();
    assert(ws.subrange(1, ws.len() - 4) =~= p.proof.public_inputs@);
}

/// Inputs for a circuit that recursively verifies child proofs: its own
/// witness data plus the children's serialized bundles.
pub struct ProofInputSerialized<T> {
    pub input: T,
    pub serialized_child_proofs: Vec<Vec<u8>>,
}

impl<T> ProofInputSerialized<T> {
    /// Deserialize all child proofs; fails if any encoding is malformed.
    pub fn get_child_proofs(&self) -> (r: Result<Vec<ProofWithVK>, ProofError>)
        ensures
            r is Ok <==> (forall|i: int| 0 <= i < self.serialized_child_proofs@.len()
                ==> valid_wire_bytes(#[trigger] self.serialized_child_proofs@[i]@)),
            r is Ok ==> r->Ok_0@.len() == self.serialized_child_proofs@.len(),
            r is Ok ==> forall|i: int| 0 <= i < self.serialized_child_proofs@.len()
                ==> (#[trigger] r->Ok_0@[i]).wire_words()
                    == words_of_bytes(self.serialized_child_proofs@[i]@),
            r is Err ==> r->Err_0 == ProofError::BadProofEncoding,
    {
        let mut out: Vec<ProofWithVK> = Vec::new();
        let mut i: usize = 0;
        while i < self.serialized_child_proofs.len()
            invariant
                i <= self.serialized_child_proofs@.len(),
                out@.len() == i,
                forall|j: int| 0 <= j < i
                    ==> valid_wire_bytes(#[trigger] self.serialized_child_proofs@[j]@),
                forall|j: int| 0 <= j < i
                    ==> (#[trigger] out@[j]).wire_words()
                        == words_of_bytes(self.serialized_child_proofs@[j]@),
            decreases self.serialized_child_proofs@.len() - i,
        {
            match ProofWithVK::deserialize(&self.serialized_child_proofs[i]) {
                Ok(p) => {
                    out.push(p);
                }
                Err(e) => {
                    return Err(e);
                }
            }
            i = i + 1;
        }
        Ok(out)
    }
}

} // verus!
