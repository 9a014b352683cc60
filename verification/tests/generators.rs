//! Tests of the pseudo-random sequence generators.

use queuing_generator::lemer_gen;
use queuing_generator::rust_gen;

#[test]
fn lemer_recurrence_is_deterministic() {
    let mut rng = lemer_gen::Rng::new(1);
    // (25173 * 1 + 13849) % 65536 == 39022, and 39022 % 100 == 22.
    assert_eq!(rng.next(100), 22);
    // (25173 * 39022 + 13849) % 65536 == 61087, and 61087 % 100 == 87.
    assert_eq!(rng.next(100), 87);
    assert_eq!(rng.next(100), 96);
}

#[test]
fn lemer_seed_is_reduced_modulo_the_modulus() {
    let mut a = lemer_gen::Rng::new(3);
    let mut b = lemer_gen::Rng::new(65536 + 3);
    for _ in 0..10 {
        assert_eq!(a.next(1000), b.next(1000));
    }
}

#[test]
fn lemer_generate_yields_values_below_one_hundred() {
    let numbers = lemer_gen::generate(50);
    assert_eq!(numbers.len(), 50);
    for value in numbers {
        assert!(value < 100);
    }
}

#[test]
fn lemer_generate_of_size_zero_is_empty() {
    assert!(lemer_gen::generate(0).is_empty());
}

#[test]
fn rust_generate_yields_values_from_one_to_ninety_nine() {
    let numbers = rust_gen::generate(50);
    assert_eq!(numbers.len(), 50);
    for value in numbers {
        assert!(value >= 1);
        assert!(value < 100);
    }
}

#[test]
fn rust_generate_of_size_zero_is_empty() {
    assert!(rust_gen::generate(0).is_empty());
}
