use gau_rs::wide::U256;

fn halves(n: U256) -> (u128, u128) {
    (n.high(), n.low())
}

fn small(n: u128) -> U256 {
    U256::product(n, 1)
}

#[test]
fn small_products() {
    assert_eq!(halves(U256::product(0, u128::MAX)), (0, 0));
    assert_eq!(halves(U256::product(6, 7)), (0, 42));
    assert_eq!(halves(U256::product(1 << 64, 1 << 63)), (0, 1 << 127));
    assert_eq!(
        halves(U256::product(u64::MAX as u128, u64::MAX as u128)),
        (0, 0xFFFF_FFFF_FFFF_FFFE_0000_0000_0000_0001)
    );
    assert_eq!(halves(U256::zero()), (0, 0));
    assert_eq!(halves(small(u128::MAX)), (0, u128::MAX));
    assert_eq!(U256::product(0, 5), U256::zero());
}

#[test]
fn wide_products() {
    // 2^64 * 2^64 = 2^128
    let p = U256::product(1 << 64, 1 << 64);
    assert_eq!((p.high(), p.low()), (1, 0));
    // (2^128 - 1)^2 = 2^256 - 2^129 + 1
    let p = U256::product(u128::MAX, u128::MAX);
    assert_eq!((p.high(), p.low()), (u128::MAX - 1, 1));
    // (2^128 - 1) * 2 = 2^129 - 2
    let p = U256::product(u128::MAX, 2);
    assert_eq!((p.high(), p.low()), (1, u128::MAX - 1));
    // 0x1_0000_0000_0000_0001 * 0xFFFF_FFFF_FFFF_FFFF_FFFF_FFFF_FFFF_FFFF
    let p = U256::product((1 << 64) + 1, u128::MAX);
    assert_eq!((p.high(), p.low()), (1 << 64, u128::MAX - (1 << 64)));
    let a = 0x0123_4567_89AB_CDEF_FEDC_BA98_7654_3210u128;
    let b = 0x0F1E_2D3C_4B5A_6978_8796_A5B4_C3D2_E1F0u128;
    let p = U256::product(a, b);
    let q = U256::product(b, a);
    assert_eq!(p, q);
    assert_eq!(p.low(), a.wrapping_mul(b));
}

#[test]
fn sums_and_differences() {
    let one = small(1);
    let top = small(u128::MAX);
    let sum = top.plus(one);
    assert_eq!((sum.high(), sum.low()), (1, 0));
    assert_eq!(sum.minus(one), top);
    assert_eq!(sum.minus(top), one);
    assert_eq!(sum.minus(sum), U256::zero());
    let square = U256::product(u128::MAX, u128::MAX);
    let more = square.plus(top).plus(top);
    // (2^128 - 1)^2 + 2 * (2^128 - 1) = 2^256 - 1
    assert_eq!((more.high(), more.low()), (u128::MAX, u128::MAX));
    assert_eq!(more.minus(top).minus(top), square);
    let a = U256::product(3 << 100, 5 << 90);
    let b = U256::product(7 << 80, 11 << 70);
    assert_eq!(a.plus(b).minus(a), b);
    assert_eq!(a.plus(b).minus(b), a);
}

#[test]
fn order() {
    let lesser = small(u128::MAX);
    let large = U256::product(1 << 64, 1 << 64);
    assert!(lesser.at_most(&large));
    assert!(!large.at_most(&lesser));
    assert!(lesser.at_most(&lesser));
    assert!(large.at_most(&large));
    assert!(U256::zero().at_most(&lesser));
    let a = U256::product(u128::MAX, 5);
    let b = U256::product(u128::MAX, 6);
    assert!(a.at_most(&b));
    assert!(!b.at_most(&a));
    let c = a.plus(small(1));
    assert!(a.at_most(&c));
    assert!(!c.at_most(&a));
}

#[test]
fn quotients() {
    assert_eq!(small(0).quotient(7), 0);
    assert_eq!(small(41).quotient(7), 5);
    assert_eq!(small(42).quotient(7), 6);
    assert_eq!(small(u128::MAX).quotient(1), u128::MAX);
    assert_eq!(small(u128::MAX).quotient(u128::MAX), 1);
    assert_eq!(small(u128::MAX - 1).quotient(u128::MAX), 0);
    let a = 0x0123_4567_89AB_CDEF_FEDC_BA98_7654_3210u128;
    let b = 0x0F1E_2D3C_4B5A_6978_8796_A5B4_C3D2_E1F0u128;
    assert_eq!(U256::product(a, b).quotient(b), a);
    assert_eq!(U256::product(a, b).quotient(a), b);
    assert_eq!(U256::product(a, b).plus(small(b - 1)).quotient(b), a);
    assert_eq!(U256::product(a, b).minus(small(1)).quotient(b), a - 1);
    assert_eq!(U256::product(u128::MAX, u128::MAX).quotient(u128::MAX), u128::MAX);
}
