//! Value semantics of the 256-bit integer operations, checked against an
//! independent big-integer implementation.

use ethers_core::types::U256;
use mrp2_circuits::u256::UInt256;
use rand::{thread_rng, Rng};

fn to_uint256(v: U256) -> UInt256 {
    let mut bytes = [0u8; 32];
    v.to_little_endian(&mut bytes);
    let mut limbs = [0u32; 8];
    for i in 0..8 {
        limbs[i] = u32::from_le_bytes([
            bytes[4 * i],
            bytes[4 * i + 1],
            bytes[4 * i + 2],
            bytes[4 * i + 3],
        ]);
    }
    UInt256 { limbs }
}

fn from_uint256(v: &UInt256) -> U256 {
    let mut bytes = [0u8; 32];
    for i in 0..8 {
        bytes[4 * i..4 * i + 4].copy_from_slice(&v.limbs[i].to_le_bytes());
    }
    U256::from_little_endian(&bytes)
}

fn gen_random_u256<R: Rng>(rng: &mut R) -> U256 {
    let bytes: [u8; 32] = rng.gen();
    U256::from_little_endian(bytes.as_slice())
}

fn check_result(result: U256, carry: bool, got: (UInt256, bool), test_case: &str) {
    assert_eq!(
        result,
        from_uint256(&got.0),
        "result not correct for test: {}",
        test_case
    );
    assert_eq!(carry, got.1, "carry not correct for test: {}", test_case);
}

#[test]
fn test_u256_add() {
    let rng = &mut thread_rng();
    let left = gen_random_u256(rng);
    let right = gen_random_u256(rng);

    let got = to_uint256(left).add_u256(&to_uint256(right));
    let (res, carry) = left.overflowing_add(right);
    check_result(res, carry, got, "add");

    let zero = U256::zero();
    let got = to_uint256(left).add_u256(&to_uint256(zero));
    check_result(left, false, got, "add by 0");

    let got = to_uint256(right).add_u256(&to_uint256(right));
    let (res, carry) = right.overflowing_add(right);
    check_result(res, carry, got, "double");
}

#[test]
fn test_u256_sub() {
    let rng = &mut thread_rng();
    let left = gen_random_u256(rng);
    let right = gen_random_u256(rng);

    let got = to_uint256(left).sub_u256(&to_uint256(right));
    let (res, borrow) = left.overflowing_sub(right);
    check_result(res, borrow, got, "sub");

    let got = to_uint256(left).sub_u256(&to_uint256(U256::zero()));
    check_result(left, false, got, "sub by 0");

    let got = to_uint256(left).sub_u256(&to_uint256(left));
    check_result(U256::zero(), false, got, "sub by itself");

    let got = to_uint256(U256::zero()).sub_u256(&to_uint256(right));
    let res = U256::max_value() - right + U256::one();
    check_result(res, true, got, "negation");
}

#[test]
fn test_u256_mul() {
    let rng = &mut thread_rng();
    let left = gen_random_u256(rng);
    let right = gen_random_u256(rng);

    let got = to_uint256(left).mul_u256(&to_uint256(right));
    let (res, overflow) = left.overflowing_mul(right);
    check_result(res, overflow, got, "mul");

    let got = to_uint256(left).mul_u256(&to_uint256(U256::zero()));
    check_result(U256::zero(), false, got, "mul by 0");

    let got = to_uint256(left).mul_u256(&to_uint256(U256::one()));
    check_result(left, false, got, "mul by 1");

    let left = U256::from(rng.gen::<u128>());
    let right = U256::from(rng.gen::<u128>());
    let got = to_uint256(left).mul_u256(&to_uint256(right));
    let (res, overflow) = left.overflowing_mul(right);
    assert!(!overflow);
    check_result(res, overflow, got, "mul no overflow");
}

#[test]
fn test_u256_div() {
    let check_div_result =
        |quotient: U256, remainder: U256, div_zero: bool, got: &(UInt256, UInt256, bool), test_case: &str| {
            assert_eq!(
                quotient,
                from_uint256(&got.0),
                "quotient not correct for test: {}",
                test_case
            );
            assert_eq!(
                remainder,
                from_uint256(&got.1),
                "remainder not correct for test: {}",
                test_case
            );
            assert_eq!(
                div_zero, got.2,
                "div by zero flag not correct for test: {}",
                test_case
            );
        };

    let rng = &mut thread_rng();
    let left = gen_random_u256(rng);
    let right = gen_random_u256(rng);

    let got = to_uint256(left).div_u256(&to_uint256(right));
    let (quotient, remainder) = left.div_mod(right);
    check_div_result(quotient, remainder, right.is_zero(), &got, "div");

    let got = to_uint256(left).div_u256(&to_uint256(U256::zero()));
    check_div_result(U256::zero(), left, true, &got, "div by 0");

    let got = to_uint256(left).div_u256(&to_uint256(U256::one()));
    check_div_result(left, U256::zero(), false, &got, "div by 1");

    let left = U256::from(rng.gen::<u128>());
    let right = U256::from(rng.gen::<u128>());
    let (prod, overflow) = left.overflowing_mul(right);
    assert!(!overflow);
    let got = to_uint256(prod).div_u256(&to_uint256(right));
    check_div_result(left, U256::zero(), false, &got, "div after mul");
}

#[test]
fn test_u256_eq() {
    let rng = &mut thread_rng();
    let left = gen_random_u256(rng);
    let right = gen_random_u256(rng);

    let got = to_uint256(left).is_equal_u256(&to_uint256(right));
    assert_eq!(left == right, got);

    let got = to_uint256(left).is_equal_u256(&to_uint256(left));
    assert!(got);

    let one = to_uint256(U256::one());
    let two = to_uint256(U256::from(2u64));
    assert!(!one.is_equal_u256(&two));
}

#[test]
fn test_u256_is_less_than() {
    let rng = &mut thread_rng();
    let left = gen_random_u256(rng);
    let right = gen_random_u256(rng);

    let got = to_uint256(left).is_less_than_u256(&to_uint256(right));
    assert_eq!(left < right, got);

    let got = to_uint256(left).is_less_than_u256(&to_uint256(left));
    assert!(!got);

    let got = to_uint256(U256::zero()).is_less_than_u256(&to_uint256(right));
    assert_eq!(!right.is_zero(), got);

    let got = to_uint256(left).is_less_than_u256(&to_uint256(U256::zero()));
    assert!(!got);
}

#[test]
fn test_u256_is_zero() {
    let rng = &mut thread_rng();
    let input = gen_random_u256(rng);

    let got = to_uint256(input).is_zero_u256();
    assert_eq!(input.is_zero(), got);

    assert!(to_uint256(U256::zero()).is_zero_u256());
}

#[test]
fn test_u256_select_and_limbs() {
    let rng = &mut thread_rng();
    let a = gen_random_u256(rng);
    let b = gen_random_u256(rng);
    let av = to_uint256(a);
    let bv = to_uint256(b);

    let picked = UInt256::select_u256(true, &av, &bv);
    assert_eq!(a, from_uint256(&picked));
    let picked = UInt256::select_u256(false, &av, &bv);
    assert_eq!(b, from_uint256(&picked));

    // Big-endian conversion is an explicit reversal of the limbs.
    let be = av.to_big_endian_limbs();
    for i in 0..8 {
        assert_eq!(be[i], av.limbs[7 - i]);
    }

    // Limb construction round-trips through the accessor.
    let rebuilt = UInt256::new_from_limbs(&av.limbs).unwrap();
    assert_eq!(a, from_uint256(&rebuilt));
    assert!(UInt256::new_from_limbs(&av.limbs[..5]).is_none());
}
