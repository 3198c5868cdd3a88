//! The Fibonacci exercise: the first two values are 0 and 1 and every
//! later value is the sum of the previous two.

use vstd::prelude::*;

verus! {

/// The value at position `n` (positions start at 1): 0, 1, 1, 2, 3, ...
pub open spec fn spec_fib(n: nat) -> nat
    decreases n,
{
    if n <= 1 {
        0
    } else if n == 2 {
        1
    } else {
        spec_fib((n - 1) as nat) + spec_fib((n - 2) as nat)
    }
}

/// The sequence never decreases.
pub proof fn lemma_fib_monotonic(i: nat, j: nat)
    requires
        i <= j,
    ensures
        spec_fib(i) <= spec_fib(j),
    decreases j,
{
    if i < j && j > 2 {
        lemma_fib_monotonic(i, (j - 1) as nat);
    }
}

/// Iterative Fibonacci: two running values hold the previous two
/// entries of the sequence; the precondition rules out positions whose
/// value would not fit the result type.
#[allow(non_snake_case)]
pub fn fib_N(n: u8) -> (r: u32)
    requires
        n >= 1,
        spec_fib(n as nat) <= u32::MAX,
    ensures
        r as nat == spec_fib(n as nat),
{
    if n == 1 {
        return 0;
    } else if n == 2 {
        return 1;
    }
    let mut a: u32 = 0;
    let mut b: u32 = 1;
    let mut k: u8 = 3;
    while k < n
        invariant
            3 <= k <= n,
            spec_fib(n as nat) <= u32::MAX,
            a as nat == spec_fib((k - 2) as nat),
            b as nat == spec_fib((k - 1) as nat),
        decreases n - k,
    {
        proof {
            lemma_fib_monotonic(k as nat, n as nat);
        }
        let tmp = b;
        b = b + a;
        a = tmp;
        k = k + 1;
    }
    a + b
}

} // verus!
