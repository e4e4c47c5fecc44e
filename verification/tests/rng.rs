use litebox::rng::FastRng;

#[test]
fn rng_first_number() {
    let mut rng = FastRng::new_from_seed(1);
    assert_eq!(rng.next_u64(), 0x4082_2041);
}

#[test]
fn rng_numbers_in_a_range() {
    let mut rng = FastRng::new_from_seed(7);
    for _ in 0..1000 {
        let n = rng.next_in_range_u32(49152, 65536);
        assert!((49152..65536).contains(&n));
    }
}

#[test]
fn rng_never_returns_zero() {
    let mut rng = FastRng::new_from_seed(u64::MAX);
    for _ in 0..1000 {
        assert_ne!(rng.next_u64(), 0);
    }
}
