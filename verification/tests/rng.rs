use bms_rs::bms::rng::{JavaRandom, RandRng, Rng};
use rand::SeedableRng;

#[test]
fn test_java_random_consistency() {
    let mut rng = JavaRandom::new(123456789);
    println!("First nextInt(): {}", rng.next_int());
    println!("Second nextInt(): {}", rng.next_int());
    println!("Third nextInt(): {}", rng.next_int());

    let mut rng2 = JavaRandom::new(123456789);
    println!("First nextInt(100): {}", rng2.next_int_bound(100));
    println!("Second nextInt(100): {}", rng2.next_int_bound(100));
    println!("Third nextInt(100): {}", rng2.next_int_bound(100));

    assert!(rng2.next_int_bound(100) >= 0 && rng2.next_int_bound(100) < 100);
}

#[test]
fn java_random_matches_java_sequence() {
    // java.util.Random(42): nextInt() = -1170105035, nextInt(10) afterwards = 3 (new Random(42).nextInt(10) = 0).
    let mut rng = JavaRandom::new(42);
    assert_eq!(rng.next_int(), -1170105035);
    let mut rng = JavaRandom::new(42);
    assert_eq!(rng.next_int_bound(10), 0);
}

#[test]
fn java_random_generate_stays_in_range() {
    let mut rng = JavaRandom::new(7);
    for _ in 0..100 {
        let v = rng.generate(1..=3);
        assert!((1..=3).contains(&v));
    }
}

#[test]
fn test_rand_rng_big_range() {
    let mut rng = RandRng(rand::rngs::StdRng::seed_from_u64(42));
    let range = 1u64..=100u64;
    let n1 = rng.generate(range);
    let n2 = rng.generate(1u64..=100u64);
    let n3 = rng.generate(1u64..=100u64);
    assert!((1..=100).contains(&n1), "n1 out of range");
    assert!((1..=100).contains(&n2), "n2 out of range");
    assert!((1..=100).contains(&n3), "n3 out of range");
}

#[test]
fn java_random_wide_range_is_reproducible_and_in_range() {
    let start: u64 = 5_000_000_000;
    let end: u64 = start + (1u64 << 40);
    let mut a = JavaRandom::new(99);
    let mut b = JavaRandom::new(99);
    for _ in 0..20 {
        let x = a.generate(start..=end);
        assert!(start <= x && x <= end);
        assert_eq!(x, b.generate(start..=end));
    }
    let mut c = JavaRandom::new(1);
    assert_eq!(c.generate(7..=7), 7);
    assert_eq!(JavaRandom::new(1).generate(3..=u64::MAX), 3);
}
