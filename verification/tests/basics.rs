use raytracing::algs::{bin_search, get_min, nth_prime};
use raytracing::fix::{add_fx, div_fx, mul_fx, sqrt_fx, sub_fx};
use raytracing::rng::{random_int, scramble};
use raytracing::vec3::Vec3;

#[test]
fn min_of_sample_array() {
    let arr = [3, 1, 4, 1, 5, 9, 2, 6, 5, 3];
    assert_eq!(get_min(&arr), 1);
}

#[test]
fn min_of_all_equal() {
    let arr = [7; 10];
    assert_eq!(get_min(&arr), 7);
}

#[test]
fn binary_search_sample_array() {
    let arr = [1, 2, 2, 2, 3, 3, 4, 5, 9, 100];
    assert!(bin_search(&arr, 2));
    assert!(!bin_search(&arr, 6));
    assert!(!bin_search(&arr, 8));
    assert!(bin_search(&arr, 1));
    assert!(bin_search(&arr, 100));
    assert!(!bin_search(&arr, 0));
    assert!(!bin_search(&arr, 101));
}

#[test]
fn nth_prime_samples() {
    assert_eq!(nth_prime(1), 2);
    assert_eq!(nth_prime(2), 3);
    assert_eq!(nth_prime(3), 5);
    assert_eq!(nth_prime(42), 181);
}

#[test]
fn scramble_mixes_the_seed() {
    assert_eq!(scramble(0), 0);
    assert_eq!(scramble(1), 0x2200011);
    assert_ne!(scramble(12345), 12345);
    // Same seed, same value.
    assert_eq!(scramble(987654321), scramble(987654321));
}

#[test]
fn random_int_runs() {
    let a = random_int();
    let b = random_int();
    // Nothing is promised of the values; the calls must simply succeed.
    let _ = a;
    let _ = b;
}

#[test]
fn fixed_point_arithmetic_saturates() {
    assert_eq!(add_fx(i64::MAX, 1), i64::MAX);
    assert_eq!(sub_fx(-i64::MAX, 5), -i64::MAX);
    assert_eq!(mul_fx(3072, 2048), 6144);
    assert_eq!(mul_fx(-3072, 2048), -6144);
    assert_eq!(div_fx(1024, 2048), 512);
    assert_eq!(div_fx(1024, 0), 0);
    assert_eq!(sqrt_fx(4 * 1024), 2 * 1024);
    assert_eq!(sqrt_fx(0), 0);
}

#[test]
fn vector_normalize_keeps_zero() {
    let z = Vec3 { x: 0, y: 0, z: 0 };
    assert_eq!(z.normalize(), z);
    let v = Vec3 { x: 0, y: 3072, z: 0 };
    assert_eq!(v.normalize(), Vec3 { x: 0, y: 1024, z: 0 });
    assert_eq!(v.length(), 3072);
    assert_eq!(v.dot(v), 9216);
}

#[test]
fn binary_search_accepts_unsorted_arrays() {
    // On an unsorted array the result is unspecified, but the call must
    // complete without panicking.
    let arr = [9, 8, 7, 6, 5, 4, 3, 2, 1, 0];
    let _ = bin_search(&arr, 9);
    let _ = bin_search(&arr, 0);
    let _ = bin_search(&arr, 42);
}
