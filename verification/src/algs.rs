//! Small standalone algorithms: array minimum, binary search, n-th prime.

use vstd::prelude::*;

use vstd::arithmetic::div_mod::{lemma_fundamental_div_mod, lemma_mod_multiples_basic};

verus! {

/// The sequence is sorted in non-decreasing order.
pub open spec fn sorted(s: Seq<i32>) -> bool {
    forall|i: int, j: int| #![trigger s[i], s[j]] 0 <= i <= j < s.len() ==> s[i] <= s[j]
}

/// The least element of the array.
pub fn get_min(arr: &[i32; 10]) -> (min: i32)
    ensures
        exists|k: int| 0 <= k < 10 && arr@[k] == min,
        forall|k: int| 0 <= k < 10 ==> min <= arr@[k],
{
    let mut min: i32 = arr[0];
    let mut i: usize = 0;
    while i < 10
        invariant
            i <= 10,
            exists|k: int| 0 <= k < 10 && arr@[k] == min,
            forall|k: int| 0 <= k < i ==> min <= arr@[k],
        decreases 10 - i,
    {
        if arr[i] < min {
            min = arr[i];
        }
        i = i + 1;
    }
    min
}

/// Bisection search. Any array is accepted and the call never panics; when
/// the array is sorted, the result says whether `value` occurs in it.
pub fn bin_search(arr: &[i32; 10], value: i32) -> (found: bool)
    ensures
        sorted(arr@) ==> found == exists|k: int| 0 <= k < 10 && arr@[k] == value,
{
    let mut lower_bound: usize = 0;
    let mut upper_bound: usize = arr.len();
    while upper_bound - lower_bound > 1
        invariant
            0 <= lower_bound < upper_bound <= 10,
            sorted(arr@) ==> lower_bound == 0 || arr@[lower_bound as int] <= value,
            sorted(arr@) ==> forall|k: int| upper_bound <= k < 10 ==> value < arr@[k],
        decreases upper_bound - lower_bound,
    {
        let mid: usize = (lower_bound + upper_bound) / 2;
        if arr[mid] > value {
            proof {
                if sorted(arr@) {
                    assert forall|k: int| mid <= k < 10 implies value < arr@[k] by {
                        assert(arr@[mid as int] <= arr@[k]);
                    }
                }
            }
            upper_bound = mid;
        } else {
            lower_bound = mid;
        }
    }
    if arr[lower_bound] == value {
        assert(0 <= lower_bound < 10 && arr@[lower_bound as int] == value);
        true
    } else {
        proof {
            if sorted(arr@) {
                assert forall|k: int| 0 <= k < 10 implies arr@[k] != value by {
                    if k <= lower_bound {
                        assert(arr@[k] <= arr@[lower_bound as int]);
                    } else {
                        assert(upper_bound <= k);
                    }
                }
            }
        }
        false
    }
}

/// `p` has no divisor between 2 and itself.
pub open spec fn is_prime(p: int) -> bool {
    2 <= p && forall|d: int| 2 <= d < p ==> #[trigger] (p % d) != 0
}

/// Number of primes up to and including `x`.
pub open spec fn prime_count(x: int) -> int
    decreases x,
{
    if x < 2 {
        0
    } else {
        prime_count(x - 1) + if is_prime(x) {
            1int
        } else {
            0int
        }
    }
}

/// `prime_count` never decreases.
pub proof fn lemma_prime_count_monotonic(a: int, b: int)
    requires
        a <= b,
    ensures
        prime_count(a) <= prime_count(b),
    decreases b - a,
{
    if a < b {
        lemma_prime_count_monotonic(a, b - 1);
    }
}

/// A number with no divisor below its square root is prime.
proof fn lemma_no_small_divisor(i: int, j: int)
    requires
        2 <= i,
        2 <= j,
        j * j > i,
        forall|d: int| 2 <= d < j ==> #[trigger] (i % d) != 0,
    ensures
        is_prime(i),
{
    assert forall|d: int| 2 <= d < i implies #[trigger] (i % d) != 0 by {
        if d >= j && i % d == 0 {
            let e = i / d;
            lemma_fundamental_div_mod(i, d);
            assert(i == d * e);
            assert(2 <= e && e < j) by (nonlinear_arith)
                requires
                    i == d * e,
                    2 <= j <= d < i,
                    j * j > i,
            ;
            lemma_mod_multiples_basic(d, e);
            assert((d * e) % e == 0);
            assert(i % e != 0);
        }
    }
}

/// `j <= iu / j` means `j * j <= iu`.
proof fn lemma_div_check_le(iu: int, j: int)
    requires
        2 <= j,
        1 <= iu,
        j <= iu / j,
    ensures
        j * j <= iu,
{
    lemma_fundamental_div_mod(iu, j);
    assert(j * j <= (iu / j) * j) by (nonlinear_arith)
        requires
            0 <= j,
            j <= iu / j,
    ;
    assert((iu / j) * j <= iu) by (nonlinear_arith)
        requires
            iu == j * (iu / j) + iu % j,
            0 <= iu % j,
    ;
}

/// `j > iu / j` means `j * j > iu`.
proof fn lemma_div_check_gt(iu: int, j: int)
    requires
        2 <= j,
        1 <= iu,
        j > iu / j,
    ensures
        j * j > iu,
{
    lemma_fundamental_div_mod(iu, j);
    assert(j * j > iu) by (nonlinear_arith)
        requires
            iu == j * (iu / j) + iu % j,
            iu % j < j,
            iu / j < j,
            0 <= j,
    ;
}

/// The `n`-th prime, counting from `nth_prime(1) == 2`, found by trial
/// division. The precondition asks that the `n`-th prime exists below
/// `i32::MAX`, which is where the search stops.
pub fn nth_prime(n: i32) -> (r: i32)
    requires
        1 <= n,
        exists|p: int|
            2 <= p < i32::MAX && #[trigger] is_prime(p) && prime_count(p) == n,
    ensures
        is_prime(r as int),
        prime_count(r as int) == n,
{
    let mut i: i32 = 2;
    let mut count: i32 = 0;
    while i < i32::MAX
        invariant
            2 <= i,
            0 <= count < n,
            count == prime_count(i - 1),
            exists|p: int|
                2 <= p < i32::MAX && #[trigger] is_prime(p) && prime_count(p) == n,
            n <= i32::MAX,
        decreases i32::MAX - i,
    {
        let iu: u64 = i as u64;
        let mut j: u64 = 2;
        let mut is_p: bool = true;
        while is_p && j <= iu / j
            invariant
                2 <= j <= iu + 1,
                iu == i,
                2 <= i,
                is_p ==> forall|d: int| 2 <= d < j ==> #[trigger] ((i as int) % d) != 0,
                !is_p ==> !is_prime(i as int),
            decreases (if is_p { 1int } else { 0int }), iu + 1 - j,
        {
            proof {
                lemma_div_check_le(iu as int, j as int);
            }
            if iu % j == 0 {
                proof {
                    assert(2 <= (j as int) && (j as int) < (i as int)) by (nonlinear_arith)
                        requires
                            2 <= (j as int),
                            (j as int) * (j as int) <= (i as int),
                    ;
                    assert((i as int) % (j as int) == 0);
                    assert(!is_prime(i as int));
                }
                is_p = false;
            } else {
                proof {
                    assert((j as int) + 1 <= (iu as int) + 1) by (nonlinear_arith)
                        requires
                            2 <= (j as int),
                            (j as int) * (j as int) <= (iu as int),
                    ;
                }
                j = j + 1;
            }
        }
        proof {
            if is_p {
                lemma_div_check_gt(iu as int, j as int);
                assert((j as int) * (j as int) > (i as int));
                lemma_no_small_divisor(i as int, j as int);
                assert(is_prime(i as int));
            }
        }
        if is_p {
            count = count + 1;
            if count == n {
                assert(prime_count(i as int) == n);
                return i;
            }
        }
        proof {
            assert(prime_count(i as int) == count);
        }
        i = i + 1;
    }
    proof {
        let p = choose|p: int|
            2 <= p < i32::MAX && #[trigger] is_prime(p) && prime_count(p) == n;
        lemma_prime_count_monotonic(p, i32::MAX - 1);
        assert(false);
    }
    2
}

} // verus!
