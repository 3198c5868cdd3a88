//! The GCD engine: the Euclidean algorithm, specified against a
//! mathematical greatest-common-divisor function and its laws.

use vstd::prelude::*;

use crate::divisibility::divides;
use crate::divisibility::lemma_divides_antisym;
use crate::divisibility::lemma_divides_refl;
use crate::divisibility::lemma_divides_trans;
use crate::divisibility::lemma_divides_zero;
use crate::divisibility::lemma_mod_common_divisors;

verus! {

/// The greatest common divisor of two natural numbers, defined by the
/// Euclidean recursion. `spec_gcd(a, 0) == a`, so `0` is the neutral
/// element on either side.
pub open spec fn spec_gcd(a: nat, b: nat) -> nat
    decreases b,
{
    if b == 0 {
        a
    } else {
        spec_gcd(b, a % b)
    }
}

/// `spec_gcd(a, b)` is a common divisor of `a` and `b`, and is positive
/// as soon as one of the two is.
pub proof fn lemma_gcd_divides_both(a: nat, b: nat)
    ensures
        divides(spec_gcd(a, b), a),
        divides(spec_gcd(a, b), b),
        a > 0 || b > 0 ==> spec_gcd(a, b) > 0,
    decreases b,
{
    if b == 0 {
        lemma_divides_refl(a);
        lemma_divides_zero(a);
    } else {
        lemma_gcd_divides_both(b, a % b);
        lemma_mod_common_divisors(spec_gcd(b, a % b), a, b);
    }
}

/// Every common divisor of `a` and `b` divides `spec_gcd(a, b)`: the
/// greatest common divisor is greatest in the divisibility order.
pub proof fn lemma_gcd_greatest(a: nat, b: nat, d: nat)
    requires
        divides(d, a),
        divides(d, b),
    ensures
        divides(d, spec_gcd(a, b)),
    decreases b,
{
    if b == 0 {
    } else {
        lemma_mod_common_divisors(d, a, b);
        lemma_gcd_greatest(b, a % b, d);
    }
}

/// A number divides the greatest common divisor exactly when it divides
/// both arguments.
pub proof fn lemma_gcd_characterization(d: nat, a: nat, b: nat)
    ensures
        divides(d, spec_gcd(a, b)) <==> divides(d, a) && divides(d, b),
{
    lemma_gcd_divides_both(a, b);
    if divides(d, spec_gcd(a, b)) {
        lemma_divides_trans(d, spec_gcd(a, b), a);
        lemma_divides_trans(d, spec_gcd(a, b), b);
    }
    if divides(d, a) && divides(d, b) {
        lemma_gcd_greatest(a, b, d);
    }
}

/// The greatest common divisor does not depend on the order of its
/// arguments.
pub proof fn lemma_gcd_commutes(a: nat, b: nat)
    ensures
        spec_gcd(a, b) == spec_gcd(b, a),
{
    let g1 = spec_gcd(a, b);
    let g2 = spec_gcd(b, a);
    lemma_gcd_divides_both(a, b);
    lemma_gcd_divides_both(b, a);
    lemma_gcd_greatest(b, a, g1);
    lemma_gcd_greatest(a, b, g2);
    lemma_divides_antisym(g1, g2);
}

/// The greatest common divisor is associative.
pub proof fn lemma_gcd_assoc(a: nat, b: nat, c: nat)
    ensures
        spec_gcd(spec_gcd(a, b), c) == spec_gcd(a, spec_gcd(b, c)),
{
    let l = spec_gcd(spec_gcd(a, b), c);
    let r = spec_gcd(a, spec_gcd(b, c));
    lemma_gcd_characterization(l, a, b);
    lemma_gcd_characterization(l, spec_gcd(a, b), c);
    lemma_gcd_characterization(l, b, c);
    lemma_gcd_characterization(l, a, spec_gcd(b, c));
    lemma_divides_refl(l);
    lemma_gcd_characterization(r, b, c);
    lemma_gcd_characterization(r, a, spec_gcd(b, c));
    lemma_gcd_characterization(r, a, b);
    lemma_gcd_characterization(r, spec_gcd(a, b), c);
    lemma_divides_refl(r);
    lemma_divides_antisym(l, r);
}

/// A number is its own greatest common divisor with itself.
pub proof fn lemma_gcd_self(a: nat)
    ensures
        spec_gcd(a, a) == a,
{
    if a > 0 {
        assert(a % a == 0);
        assert(spec_gcd(a, 0) == a);
    }
}

/// One is the greatest common divisor of any number and one.
pub proof fn lemma_gcd_one(a: nat)
    ensures
        spec_gcd(a, 1) == 1,
{
    assert(a % 1 == 0);
    assert(spec_gcd(1, 0) == 1);
}

/// Zero is neutral on the left as well as on the right.
pub proof fn lemma_gcd_zero_left(x: nat)
    ensures
        spec_gcd(0, x) == x,
{
    if x > 0 {
        assert(0nat % x == 0);
        assert(spec_gcd(x, 0) == x);
    }
}

/// With `n > 0`, reducing the second argument modulo the first leaves
/// the greatest common divisor unchanged: the loop step of the
/// Euclidean algorithm.
proof fn lemma_gcd_mod_step(n: nat, m: nat)
    requires
        n > 0,
    ensures
        spec_gcd(n, m) == spec_gcd(n, m % n),
{
    lemma_gcd_commutes(n, m);
    assert(spec_gcd(m, n) == spec_gcd(n, m % n));
}

/// The Euclidean algorithm by repeated remainder: at each step the pair
/// is ordered so that the first component is the lesser, then the
/// second is reduced modulo the first; the first component is the
/// answer once the second reaches zero.
pub fn gcd(n: u64, m: u64) -> (r: u64)
    requires
        n > 0,
        m > 0,
    ensures
        r as nat == spec_gcd(n as nat, m as nat),
        r > 0,
{
    let mut n = n;
    let mut m = m;
    let ghost g: nat = spec_gcd(n as nat, m as nat);
    while m != 0
        invariant
            n > 0,
            spec_gcd(n as nat, m as nat) == g,
        decreases m,
    {
        if m < n {
            let t = m;
            m = n;
            n = t;
            proof {
                lemma_gcd_commutes(n as nat, m as nat);
            }
        }
        proof {
            lemma_gcd_mod_step(n as nat, m as nat);
        }
        m = m % n;
    }
    n
}

/// The engine under its longer historical name; it computes the same
/// greatest common divisor.
pub fn greatest_cmn_divisor(n: u64, m: u64) -> (r: u64)
    requires
        n > 0,
        m > 0,
    ensures
        r as nat == spec_gcd(n as nat, m as nat),
        r > 0,
{
    gcd(n, m)
}

} // verus!
