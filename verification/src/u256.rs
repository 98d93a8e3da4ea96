//! 256-bit unsigned integers over 8 little-endian 32-bit limbs, with
//! explicit carry, borrow, overflow and division-by-zero signalling.
//!
//! Every operation states its exact integer semantics over [`UInt256::val`];
//! no overflow is ever silent: additions and subtractions return their carry
//! or borrow, multiplication returns an overflow flag, and division returns
//! a division-by-zero flag.

use vstd::prelude::*;
use vstd::arithmetic::power2::*;
use vstd::arithmetic::mul::*;
use vstd::arithmetic::div_mod::*;

use crate::limbs::{
    limbs_val, limbs_val_prefix, lemma_limbs_val_prefix_bound,
    lemma_limbs_val_prefix_update_beyond, lemma_limbs_val_prefix_update_within,
    lemma_limbs_val_prefix_congruence, lemma_limbs_val_prefix_injective,
};

verus! {

/// Number of 32-bit limbs employed to represent a 256-bit unsigned integer.
pub const NUM_LIMBS: usize = 8;

/// A 256-bit unsigned integer as 8 little-endian 32-bit limbs.
#[derive(Clone, Copy, Debug)]
pub struct UInt256 {
    pub limbs: [u32; 8],
}

impl UInt256 {
    /// Mathematical value of this integer.
    pub open spec fn val(self) -> int {
        limbs_val(self.limbs@)
    }

    /// The zero value.
    pub fn zero_u256() -> (r: Self)
        ensures
            r.val() == 0,
    {
        let r = UInt256 { limbs: [0u32; 8] };
        proof {
            lemma_val_zero(r.limbs@);
        }
        r
    }

    /// Build a value from little-endian limbs; fails unless exactly 8 limbs
    /// are provided.
    pub fn new_from_limbs(limbs: &[u32]) -> (r: Option<Self>)
        ensures
            r is Some <==> limbs@.len() == 8,
            r is Some ==> r->0.limbs@ == limbs@,
    {
        if limbs.len() == 8 {
            let mut out: [u32; 8] = [0u32; 8];
            let mut i: usize = 0;
            while i < 8
                invariant
                    i <= 8,
                    limbs@.len() == 8,
                    forall|j: int| 0 <= j < i ==> out@[j] == limbs@[j],
                decreases 8 - i,
            {
                out[i] = limbs[i];
                i = i + 1;
            }
            proof {
                assert(out@ =~= limbs@);
            }
            Some(UInt256 { limbs: out })
        } else {
            None
        }
    }

    /// Little-endian limbs reversed into big-endian order, the explicit
    /// conversion step used when a value enters a byte-ordered hash preimage.
    pub fn to_big_endian_limbs(&self) -> (r: [u32; 8])
        ensures
            forall|i: int| 0 <= i < 8 ==> r@[i] == self.limbs@[7 - i],
    {
        let mut out: [u32; 8] = [0u32; 8];
        let mut i: usize = 0;
        while i < 8
            invariant
                i <= 8,
                forall|j: int| 0 <= j < i ==> out@[j] == self.limbs@[7 - j],
            decreases 8 - i,
        {
            out[i] = self.limbs[7 - i];
            i = i + 1;
        }
        out
    }

    /// Ripple-carry addition; returns the sum modulo `2^256` and the carry.
    pub fn add_u256(&self, other: &Self) -> (r: (Self, bool))
        ensures
            r.0.val() + (if r.1 { pow2(256) as int } else { 0 }) == self.val() + other.val(),
            r.1 <==> self.val() + other.val() >= pow2(256),
    {
        let mut out: [u32; 8] = [0u32; 8];
        let mut carry: u32 = 0;
        let mut i: usize = 0;
        proof {
            lemma_val_zero(out@);
            lemma2_to64();
        }
        while i < 8
            invariant
                i <= 8,
                carry <= 1,
                limbs_val_prefix(out@, i as int) + carry * pow2((32 * i) as nat)
                    == limbs_val_prefix(self.limbs@, i as int)
                        + limbs_val_prefix(other.limbs@, i as int),
                forall|k: int| i <= k < 8 ==> out@[k] == 0,
            decreases 8 - i,
        {
            let t: u64 = self.limbs[i] as u64 + other.limbs[i] as u64 + carry as u64;
            let lo: u64 = t % 0x1_0000_0000;
            let hi: u64 = t / 0x1_0000_0000;
            let ghost pre = out@;
            out[i] = lo as u32;
            proof {
                lemma_step_extend(pre, out@, self.limbs@, other.limbs@, i as int,
                    carry as int, lo as int, hi as int, t as int);
            }
            carry = hi as u32;
            i = i + 1;
        }
        proof {
            assert(limbs_val_prefix(out@, 8) == limbs_val(out@));
            lemma_limbs_val_prefix_bound(out@, 8);
            lemma_limbs_val_prefix_bound(self.limbs@, 8);
            lemma_limbs_val_prefix_bound(other.limbs@, 8);
        }
        (UInt256 { limbs: out }, carry == 1)
    }

    /// Ripple-borrow subtraction; returns the difference modulo `2^256` and
    /// the borrow.  The borrow is set exactly when `self < other`.
    pub fn sub_u256(&self, other: &Self) -> (r: (Self, bool))
        ensures
            r.0.val() == self.val() - other.val() + (if r.1 { pow2(256) as int } else { 0 }),
            r.1 <==> self.val() < other.val(),
    {
        let mut out: [u32; 8] = [0u32; 8];
        let mut borrow: u32 = 0;
        let mut i: usize = 0;
        proof {
            lemma_val_zero(out@);
            lemma2_to64();
        }
        while i < 8
            invariant
                i <= 8,
                borrow <= 1,
                limbs_val_prefix(out@, i as int)
                    == limbs_val_prefix(self.limbs@, i as int)
                        - limbs_val_prefix(other.limbs@, i as int)
                        + borrow * pow2((32 * i) as nat),
                forall|k: int| i <= k < 8 ==> out@[k] == 0,
            decreases 8 - i,
        {
            let a: u64 = self.limbs[i] as u64;
            let b: u64 = other.limbs[i] as u64 + borrow as u64;
            let ghost pre = out@;
            let new_borrow: u32;
            if a >= b {
                out[i] = (a - b) as u32;
                new_borrow = 0;
            } else {
                out[i] = (a + 0x1_0000_0000 - b) as u32;
                new_borrow = 1;
            }
            proof {
                lemma_sub_step_extend(pre, out@, self.limbs@, other.limbs@, i as int,
                    borrow as int, new_borrow as int);
            }
            borrow = new_borrow;
            i = i + 1;
        }
        proof {
            lemma_limbs_val_prefix_bound(out@, 8);
            lemma_limbs_val_prefix_bound(self.limbs@, 8);
            lemma_limbs_val_prefix_bound(other.limbs@, 8);
        }
        (UInt256 { limbs: out }, borrow == 1)
    }

    /// `self < other`, computed as "subtraction requires a borrow".
    pub fn is_less_than_u256(&self, other: &Self) -> (r: bool)
        ensures
            r <==> self.val() < other.val(),
    {
        let (_, borrow) = self.sub_u256(other);
        borrow
    }

    /// Equality of the two values.
    pub fn is_equal_u256(&self, other: &Self) -> (r: bool)
        ensures
            r <==> self.val() == other.val(),
    {
        let mut i: usize = 0;
        let mut eq: bool = true;
        while i < 8
            invariant
                i <= 8,
                eq <==> (forall|k: int| 0 <= k < i ==> self.limbs@[k] == other.limbs@[k]),
            decreases 8 - i,
        {
            if self.limbs[i] != other.limbs[i] {
                eq = false;
            }
            i = i + 1;
        }
        proof {
            if eq {
                lemma_limbs_val_prefix_congruence(self.limbs@, other.limbs@, 8);
            } else {
                if self.val() == other.val() {
                    lemma_limbs_val_prefix_injective(self.limbs@, other.limbs@, 8);
                }
            }
        }
        eq
    }

    /// Whether the value is zero.
    pub fn is_zero_u256(&self) -> (r: bool)
        ensures
            r <==> self.val() == 0,
    {
        let z = Self::zero_u256();
        self.is_equal_u256(&z)
    }

    /// Schoolbook multiplication over 32-bit limbs; returns the product
    /// modulo `2^256` and a flag that is set exactly when the mathematical
    /// product does not fit in 256 bits.  Partial products landing beyond
    /// the 8th limb are accumulated and only decide the flag; they are never
    /// silently discarded without it.
    pub fn mul_u256(&self, other: &Self) -> (r: (Self, bool))
        ensures
            r.0.val() == (self.val() * other.val()) % (pow2(256) as int),
            r.1 <==> self.val() * other.val() >= pow2(256),
    {
        let mut wide: [u32; 16] = [0u32; 16];
        proof {
            lemma_val_zero(wide@);
            lemma_limbs_val_prefix_bound(self.limbs@, 8);
            lemma_limbs_val_prefix_bound(other.limbs@, 8);
            lemma_mul_nonnegative(self.val(), other.val());
        }
        let mut i: usize = 0;
        while i < 8
            invariant
                i <= 8,
                limbs_val_prefix(wide@, 16)
                    == self.val() * limbs_val_prefix(other.limbs@, i as int),
                forall|k: int| i + 8 <= k < 16 ==> wide@[k] == 0,
            decreases 8 - i,
        {
            let bi: u64 = other.limbs[i] as u64;
            let mut carry: u64 = 0;
            let mut j: usize = 0;
            proof {
                lemma_mul_basics(self.val());
            }
            while j < 8
                invariant
                    i < 8,
                    j <= 8,
                    carry < 0x1_0000_0000,
                    bi == other.limbs@[i as int],
                    limbs_val_prefix(wide@, 16) + carry * pow2((32 * (i + j)) as nat)
                        == self.val() * limbs_val_prefix(other.limbs@, i as int)
                            + limbs_val_prefix(self.limbs@, j as int)
                                * other.limbs@[i as int] * pow2((32 * i) as nat),
                    forall|k: int| i + 8 <= k < 16 ==> wide@[k] == 0,
                decreases 8 - j,
            {
                proof {
                    lemma_mul_upper_bound(self.limbs@[j as int] as int, 0xFFFF_FFFF,
                        bi as int, 0xFFFF_FFFF);
                }
                let t: u64 = wide[i + j] as u64 + self.limbs[j] as u64 * bi + carry;
                let lo: u64 = t % 0x1_0000_0000;
                let hi: u64 = t / 0x1_0000_0000;
                let ghost pre = wide@;
                wide[i + j] = lo as u32;
                proof {
                    lemma_mul_inner_step(pre, wide@, self.limbs@, other.limbs@,
                        i as int, j as int, carry as int, t as int, lo as int, hi as int,
                        self.val());
                }
                carry = hi;
                j = j + 1;
            }
            let ghost pre = wide@;
            wide[i + 8] = carry as u32;
            proof {
                lemma_mul_row_finish(pre, wide@, self.limbs@, other.limbs@, i as int,
                    carry as int, self.val());
            }
            i = i + 1;
        }
        // The low 8 limbs are the result; any nonzero high limb means the
        // product overflowed 256 bits.
        let mut out: [u32; 8] = [0u32; 8];
        let mut any_high: bool = false;
        let mut k: usize = 0;
        while k < 8
            invariant
                k <= 8,
                forall|j: int| 0 <= j < k ==> out@[j] == wide@[j],
                any_high <==> exists|j: int| 8 <= j < 8 + k && wide@[j] != 0,
            decreases 8 - k,
        {
            out[k] = wide[k];
            if wide[8 + k] != 0 {
                any_high = true;
            }
            k = k + 1;
        }
        proof {
            lemma_mul_split(wide@, out@, any_high, self.val() * other.val());
        }
        (UInt256 { limbs: out }, any_high)
    }

    /// Division with remainder and an explicit division-by-zero flag.  For a
    /// zero divisor the quotient is zero, the remainder is the dividend and
    /// the flag is set; otherwise quotient and remainder are exact and the
    /// flag is clear.
    pub fn div_u256(&self, other: &Self) -> (r: (Self, Self, bool))
        ensures
            r.2 <==> other.val() == 0,
            other.val() == 0 ==> r.0.val() == 0 && r.1.val() == self.val(),
            other.val() != 0 ==> r.0.val() == self.val() / other.val()
                && r.1.val() == self.val() % other.val(),
    {
        if other.is_zero_u256() {
            (Self::zero_u256(), *self, true)
        } else {
            let (q, rem) = div_rem_nonzero(self, other);
            (q, rem, false)
        }
    }

    /// Conditional selection: the left value when `cond` holds, else the right.
    pub fn select_u256(cond: bool, left: &Self, right: &Self) -> (r: Self)
        ensures
            r.val() == if cond { left.val() } else { right.val() },
            r.limbs@ == if cond { left.limbs@ } else { right.limbs@ },
    {
        if cond {
            *left
        } else {
            *right
        }
    }
}

/// The value of any 8-limb integer lies in `[0, 2^256)`.
pub proof fn lemma_val_bound(x: UInt256)
    ensures
        0 <= x.val() < pow2(256),
{
    lemma_limbs_val_prefix_bound(x.limbs@, 8);
}

/// Relies on `ethers_core::types::U256::div_mod`: for a nonzero divisor it
/// returns exactly the integer quotient and remainder of its operands.
#[verifier::external_body]
fn div_rem_nonzero(a: &UInt256, b: &UInt256) -> (r: (UInt256, UInt256))
    requires
        b.val() != 0,
    ensures
        r.0.val() == a.val() / b.val(),
        r.1.val() == a.val() % b.val(),
{
    let enc = |x: &UInt256| -> [u8; 32] {
        core::array::from_fn(|i| x.limbs[i / 4].to_le_bytes()[i % 4])
    };
    let dec = |v: ethers_core::types::U256| -> UInt256 {
        let mut bs = [0u8; 32];
        v.to_little_endian(&mut bs);
        UInt256 {
            limbs: core::array::from_fn(|i| {
                u32::from_le_bytes([bs[4 * i], bs[4 * i + 1], bs[4 * i + 2], bs[4 * i + 3]])
            }),
        }
    };
    let (q, rem) = ethers_core::types::U256::from_little_endian(&enc(a))
        .div_mod(ethers_core::types::U256::from_little_endian(&enc(b)));
    (dec(q), dec(rem))
}

/// U256 division is the exact inverse of multiplication when no overflow
/// occurred: if `a * b` fits in 256 bits and `b` is nonzero, then dividing
/// the product by `b` yields quotient `a` and remainder zero.  The
/// hypotheses are exactly what [`UInt256::mul_u256`] and
/// [`UInt256::div_u256`] establish about their results.
pub proof fn lemma_div_inverts_mul(av: int, bv: int, pv: int, qv: int, rv: int)
    requires
        0 <= av,
        0 < bv,
        av * bv < pow2(256),
        pv == (av * bv) % (pow2(256) as int),
        qv == pv / bv,
        rv == pv % bv,
    ensures
        qv == av,
        rv == 0,
{
    lemma_pow2_pos(256);
    lemma_mul_nonnegative(av, bv);
    lemma_small_mod((av * bv) as nat, pow2(256));
    assert(pv == av * bv);
    lemma_div_by_multiple(av, bv);
    lemma_mod_multiples_basic(av, bv);
}

/// A sequence of zero limbs denotes zero.
proof fn lemma_val_zero(s: Seq<u32>)
    requires
        forall|i: int| 0 <= i < s.len() ==> s[i] == 0,
    ensures
        forall|n: int| 0 <= n <= s.len() ==> limbs_val_prefix(s, n) == 0,
{
    assert forall|n: int| 0 <= n <= s.len() implies limbs_val_prefix(s, n) == 0 by {
        lemma_val_zero_aux(s, n);
    }
}

proof fn lemma_val_zero_aux(s: Seq<u32>, n: int)
    requires
        0 <= n <= s.len(),
        forall|i: int| 0 <= i < s.len() ==> s[i] == 0,
    ensures
        limbs_val_prefix(s, n) == 0,
    decreases n,
{
    if n > 0 {
        lemma_val_zero_aux(s, n - 1);
        assert(s[n - 1] == 0);
    }
}

/// One multiply-accumulate step of the schoolbook product: folding
/// `a[j] * b[i]` plus the running carry into limb `i + j` of the wide
/// accumulator extends the row invariant by one limb.
proof fn lemma_mul_inner_step(
    pre: Seq<u32>,
    post: Seq<u32>,
    a: Seq<u32>,
    b: Seq<u32>,
    i: int,
    j: int,
    carry: int,
    t: int,
    lo: int,
    hi: int,
    va: int,
)
    requires
        pre.len() == 16,
        a.len() == 8,
        b.len() == 8,
        0 <= i < 8,
        0 <= j < 8,
        post == pre.update(i + j, lo as u32),
        t == pre[i + j] + a[j] * b[i] + carry,
        0 <= t < 0x1_0000_0000_0000_0000,
        lo == t % 0x1_0000_0000,
        hi == t / 0x1_0000_0000,
        0 <= carry < 0x1_0000_0000,
        va == limbs_val_prefix(a, 8),
        limbs_val_prefix(pre, 16) + carry * pow2((32 * (i + j)) as nat)
            == va * limbs_val_prefix(b, i)
                + limbs_val_prefix(a, j) * b[i] * pow2((32 * i) as nat),
        forall|k: int| i + 8 <= k < 16 ==> pre[k] == 0,
    ensures
        limbs_val_prefix(post, 16) + hi * pow2((32 * (i + j + 1)) as nat)
            == va * limbs_val_prefix(b, i)
                + limbs_val_prefix(a, j + 1) * b[i] * pow2((32 * i) as nat),
        0 <= hi < 0x1_0000_0000,
        forall|k: int| i + 8 <= k < 16 ==> post[k] == 0,
{
    let p = pow2((32 * (i + j)) as nat) as int;
    let p1 = pow2((32 * (i + j + 1)) as nat) as int;
    let pi = pow2((32 * i) as nat) as int;
    let pj = pow2((32 * j) as nat) as int;
    lemma_pow2_adds((32 * (i + j)) as nat, 32);
    lemma_pow2_adds((32 * i) as nat, (32 * j) as nat);
    lemma2_to64();
    lemma_pow2_pos((32 * (i + j)) as nat);
    assert(p1 == p * 0x1_0000_0000);
    assert(pi * pj == p);
    lemma_fundamental_div_mod(t, 0x1_0000_0000);
    assert(t == 0x1_0000_0000 * hi + lo);
    assert(0 <= lo < 0x1_0000_0000);
    assert(0 <= hi < 0x1_0000_0000) by (nonlinear_arith)
        requires
            t == 0x1_0000_0000 * hi + lo,
            0 <= lo < 0x1_0000_0000,
            0 <= t < 0x1_0000_0000_0000_0000,
    ;
    lemma_limbs_val_prefix_update_within(pre, 16, i + j, (lo as u32));
    assert(limbs_val_prefix(post, 16)
        == limbs_val_prefix(pre, 16) + (lo - pre[i + j]) * p);
    assert(limbs_val_prefix(a, j + 1) == limbs_val_prefix(a, j) + a[j] * pj);
    // Regroup the written limb and the carry into the accumulated product.
    assert(lo - pre[i + j] == a[j] * b[i] + carry - 0x1_0000_0000 * hi);
    assert((lo - pre[i + j]) * p + hi * p1 == (a[j] * b[i]) * p + carry * p)
        by (nonlinear_arith)
        requires
            lo - pre[i + j] == a[j] * b[i] + carry - 0x1_0000_0000 * hi,
            p1 == p * 0x1_0000_0000,
    ;
    assert(limbs_val_prefix(post, 16) + hi * p1
        == va * limbs_val_prefix(b, i) + limbs_val_prefix(a, j) * b[i] * pi
            + (a[j] * b[i]) * p);
    // The new partial row equals the old one plus that same product term.
    assert((limbs_val_prefix(a, j) + a[j] * pj) * b[i] * pi
        == limbs_val_prefix(a, j) * b[i] * pi + (a[j] * b[i]) * p)
        by (nonlinear_arith)
        requires
            pi * pj == p,
    ;
    assert forall|k: int| i + 8 <= k < 16 implies post[k] == 0 by {
        assert(post[k] == pre[k]);
    }
}

/// Finishing a row of the schoolbook product: depositing the row's final
/// carry into limb `i + 8` turns the row invariant into the outer invariant
/// for `i + 1` rows.
proof fn lemma_mul_row_finish(
    pre: Seq<u32>,
    post: Seq<u32>,
    a: Seq<u32>,
    b: Seq<u32>,
    i: int,
    carry: int,
    va: int,
)
    requires
        pre.len() == 16,
        a.len() == 8,
        b.len() == 8,
        0 <= i < 8,
        0 <= carry < 0x1_0000_0000,
        post == pre.update(i + 8, carry as u32),
        va == limbs_val_prefix(a, 8),
        limbs_val_prefix(pre, 16) + carry * pow2((32 * (i + 8)) as nat)
            == va * limbs_val_prefix(b, i)
                + limbs_val_prefix(a, 8) * b[i] * pow2((32 * i) as nat),
        forall|k: int| i + 8 <= k < 16 ==> pre[k] == 0,
    ensures
        limbs_val_prefix(post, 16) == va * limbs_val_prefix(b, i + 1),
        forall|k: int| i + 1 + 8 <= k < 16 ==> post[k] == 0,
{
    let p8 = pow2((32 * (i + 8)) as nat) as int;
    let pi = pow2((32 * i) as nat) as int;
    lemma_limbs_val_prefix_update_within(pre, 16, i + 8, (carry as u32));
    assert(pre[i + 8] == 0);
    assert(limbs_val_prefix(post, 16) == limbs_val_prefix(pre, 16) + carry * p8);
    assert(limbs_val_prefix(b, i + 1) == limbs_val_prefix(b, i) + b[i] * pi);
    assert(limbs_val_prefix(pre, 16) + carry * p8
        == va * (limbs_val_prefix(b, i) + b[i] * pi)) by (nonlinear_arith)
        requires
            limbs_val_prefix(pre, 16) + carry * p8
                == va * limbs_val_prefix(b, i) + va * b[i] * pi,
    ;
    assert forall|k: int| i + 1 + 8 <= k < 16 implies post[k] == 0 by {
        assert(post[k] == pre[k]);
    }
}

/// The 16-limb accumulator splits into its low 8 limbs (the result modulo
/// `2^256`) and its high limbs (the overflow witness).
proof fn lemma_mul_split(wide: Seq<u32>, out: Seq<u32>, any_high: bool, prod: int)
    requires
        wide.len() == 16,
        out.len() == 8,
        forall|j: int| 0 <= j < 8 ==> out[j] == wide[j],
        any_high <==> exists|j: int| 8 <= j < 16 && wide[j] != 0,
        limbs_val_prefix(wide, 16) == prod,
        prod >= 0,
    ensures
        limbs_val(out) == prod % (pow2(256) as int),
        any_high <==> prod >= pow2(256),
{
    let high = wide.subrange(8, 16);
    lemma_prefix_split_high(wide, 8);
    let hv = limbs_val_prefix(high, 8);
    lemma_limbs_val_prefix_congruence(out, wide, 8);
    lemma_limbs_val_prefix_bound(wide, 8);
    lemma_limbs_val_prefix_bound(high, 8);
    lemma_pow2_pos(256);
    assert(prod == hv * (pow2(256) as int) + limbs_val_prefix(wide, 8)) by {
        lemma_mul_is_commutative(pow2(256) as int, hv);
    }
    lemma_fundamental_div_mod_converse(prod, pow2(256) as int, hv, limbs_val_prefix(wide, 8));
    assert(limbs_val(out) == limbs_val_prefix(out, 8));
    if any_high {
        // Some high limb is set, so the high value is nonzero.
        if hv == 0 {
            let zeros = Seq::<u32>::new(8, |i: int| 0u32);
            lemma_val_zero(zeros);
            lemma_limbs_val_prefix_injective(high, zeros, 8);
            assert forall|j: int| 8 <= j < 16 implies wide[j] == 0 by {
                assert(high[j - 8] == zeros[j - 8]);
            }
            assert(false);
        }
        lemma_mul_inequality(1, hv, pow2(256) as int);
        assert(hv * (pow2(256) as int) >= pow2(256));
        assert(prod >= pow2(256));
    } else {
        assert forall|j: int| 0 <= j < 8 implies high[j] == 0 by {
            assert(high[j] == wide[j + 8]);
            assert(wide[j + 8] == 0);
        }
        lemma_val_zero(high);
        assert(hv == 0);
        assert(hv * (pow2(256) as int) == 0) by (nonlinear_arith)
            requires
                hv == 0,
        ;
        assert(prod == limbs_val_prefix(wide, 8));
        assert(prod < pow2(256));
    }
}

/// Splitting a 16-limb prefix at limb 8: the upper limbs contribute their
/// own value scaled by `2^256`.
proof fn lemma_prefix_split_high(s: Seq<u32>, m: int)
    requires
        s.len() == 16,
        0 <= m <= 8,
    ensures
        limbs_val_prefix(s, 8 + m)
            == limbs_val_prefix(s, 8)
                + pow2(256) * limbs_val_prefix(s.subrange(8, 16), m),
    decreases m,
{
    let high = s.subrange(8, 16);
    if m == 0 {
        lemma_mul_basics(pow2(256) as int);
    } else {
        lemma_prefix_split_high(s, m - 1);
        lemma_pow2_adds(256, (32 * (m - 1)) as nat);
        let pm = pow2((32 * (m - 1)) as nat) as int;
        assert(high[m - 1] == s[8 + m - 1]);
        assert(limbs_val_prefix(s, 8 + m)
            == limbs_val_prefix(s, 8 + m - 1) + s[8 + m - 1] * pow2((32 * (8 + m - 1)) as nat));
        assert(pow2((32 * (8 + m - 1)) as nat) == pow2(256) * pm);
        assert(limbs_val_prefix(s, 8)
                + pow2(256) * limbs_val_prefix(high, m - 1)
                + s[8 + m - 1] * (pow2(256) * pm)
            == limbs_val_prefix(s, 8)
                + pow2(256) * (limbs_val_prefix(high, m - 1) + high[m - 1] * pm))
            by (nonlinear_arith)
            requires
                high[m - 1] == s[8 + m - 1],
        ;
        assert(limbs_val_prefix(high, m) == limbs_val_prefix(high, m - 1) + high[m - 1] * pm);
    }
}

/// One step of the ripple-borrow subtraction loop: the freshly written limb
/// and the new borrow extend the prefix invariant by one limb.
proof fn lemma_sub_step_extend(
    pre: Seq<u32>,
    post: Seq<u32>,
    a: Seq<u32>,
    b: Seq<u32>,
    i: int,
    borrow: int,
    nb: int,
)
    requires
        pre.len() == 8,
        a.len() == 8,
        b.len() == 8,
        0 <= i < 8,
        0 <= borrow <= 1,
        0 <= nb <= 1,
        post == pre.update(i, ((a[i] - b[i] - borrow + nb * 0x1_0000_0000int) as u32)),
        a[i] - b[i] - borrow + nb * 0x1_0000_0000int == post[i],
        0 <= a[i] - b[i] - borrow + nb * 0x1_0000_0000int < 0x1_0000_0000,
        limbs_val_prefix(pre, i)
            == limbs_val_prefix(a, i) - limbs_val_prefix(b, i) + borrow * pow2((32 * i) as nat),
    ensures
        limbs_val_prefix(post, i + 1)
            == limbs_val_prefix(a, i + 1) - limbs_val_prefix(b, i + 1)
                + nb * pow2((32 * (i + 1)) as nat),
{
    let pi = pow2((32 * i) as nat) as int;
    let pi1 = pow2((32 * (i + 1)) as nat) as int;
    lemma_pow2_adds((32 * i) as nat, 32);
    lemma2_to64();
    lemma_pow2_pos((32 * i) as nat);
    assert(pi * 0x1_0000_0000 == pi1);
    let d = post[i] as int;
    lemma_limbs_val_prefix_update_beyond(pre, i, i, post[i]);
    lemma_limbs_val_prefix_congruence(pre, post, i);
    assert(limbs_val_prefix(post, i + 1) == limbs_val_prefix(pre, i) + d * pi);
    assert(limbs_val_prefix(a, i + 1) == limbs_val_prefix(a, i) + a[i] * pi);
    assert(limbs_val_prefix(b, i + 1) == limbs_val_prefix(b, i) + b[i] * pi);
    assert(limbs_val_prefix(pre, i) + d * pi
        == (limbs_val_prefix(a, i) + a[i] * pi) - (limbs_val_prefix(b, i) + b[i] * pi)
            + nb * pi1) by (nonlinear_arith)
        requires
            limbs_val_prefix(pre, i)
                == limbs_val_prefix(a, i) - limbs_val_prefix(b, i) + borrow * pi,
            d == a[i] - b[i] - borrow + nb * 0x1_0000_0000int,
            pi1 == pi * 0x1_0000_0000,
    ;
}

/// One step of the ripple-carry addition loop: writing the low 32 bits of
/// `t = a[i] + b[i] + carry` and keeping its high bits as the next carry
/// extends the prefix invariant by one limb.
proof fn lemma_step_extend(
    pre: Seq<u32>,
    post: Seq<u32>,
    a: Seq<u32>,
    b: Seq<u32>,
    i: int,
    carry: int,
    lo: int,
    hi: int,
    t: int,
)
    requires
        pre.len() == 8,
        a.len() == 8,
        b.len() == 8,
        0 <= i < 8,
        post == pre.update(i, lo as u32),
        0 <= lo < 0x1_0000_0000,
        t == a[i] + b[i] + carry,
        lo == t % 0x1_0000_0000,
        hi == t / 0x1_0000_0000,
        0 <= carry <= 1,
        limbs_val_prefix(pre, i) + carry * pow2((32 * i) as nat)
            == limbs_val_prefix(a, i) + limbs_val_prefix(b, i),
    ensures
        limbs_val_prefix(post, i + 1) + hi * pow2((32 * (i + 1)) as nat)
            == limbs_val_prefix(a, i + 1) + limbs_val_prefix(b, i + 1),
        0 <= hi <= 1,
{
    let pi = pow2((32 * i) as nat) as int;
    let pi1 = pow2((32 * (i + 1)) as nat) as int;
    lemma_pow2_adds((32 * i) as nat, 32);
    lemma2_to64();
    lemma_pow2_pos((32 * i) as nat);
    assert(pi * 0x1_0000_0000 == pi1);
    lemma_fundamental_div_mod(t, 0x1_0000_0000);
    assert(t == 0x1_0000_0000 * hi + lo);
    assert(t <= 0xFFFF_FFFF + 0xFFFF_FFFF + 1);
    assert(0 <= hi <= 1) by (nonlinear_arith)
        requires
            t == 0x1_0000_0000 * hi + lo,
            0 <= lo < 0x1_0000_0000,
            0 <= t < 2 * 0x1_0000_0000,
    ;
    lemma_limbs_val_prefix_update_beyond(pre, i, i, (lo as u32));
    lemma_limbs_val_prefix_congruence(pre, post, i);
    assert(post[i] == lo as u32);
    assert(limbs_val_prefix(post, i + 1) == limbs_val_prefix(post, i) + lo * pi);
    // (lo + 2^32 * hi) * pi == t * pi == (a[i] + b[i] + carry) * pi
    lemma_mul_is_distributive_add_other_way(pi, lo, 0x1_0000_0000 * hi);
    lemma_mul_is_associative(hi, 0x1_0000_0000, pi);
    lemma_mul_is_distributive_add_other_way(pi, a[i] as int + b[i] as int, carry);
    lemma_mul_is_distributive_add_other_way(pi, a[i] as int, b[i] as int);
}

} // verus!
