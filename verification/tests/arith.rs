use ray_tracing::arith::isqrt;

#[test]
fn isqrt_small_values() {
    assert_eq!(isqrt(0), 0);
    assert_eq!(isqrt(1), 1);
    assert_eq!(isqrt(2), 1);
    assert_eq!(isqrt(3), 1);
    assert_eq!(isqrt(4), 2);
    assert_eq!(isqrt(15), 3);
    assert_eq!(isqrt(16), 4);
    assert_eq!(isqrt(17), 4);
}

#[test]
fn isqrt_perfect_squares() {
    for r in 0..2000u128 {
        assert_eq!(isqrt(r * r), r);
        if r > 0 {
            assert_eq!(isqrt(r * r - 1), r - 1);
            assert_eq!(isqrt(r * r + 1), r);
        }
    }
}

#[test]
fn isqrt_large_values() {
    assert_eq!(isqrt(u64::MAX as u128), 4_294_967_295);
    assert_eq!(isqrt(u128::MAX), 18_446_744_073_709_551_615);
}
