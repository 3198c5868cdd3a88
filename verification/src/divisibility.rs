//! Divisibility over natural numbers, the vocabulary in which the
//! greatest-common-divisor contracts are stated.

use vstd::prelude::*;

verus! {

/// `d` divides `n`: some multiple of `d` equals `n`.
pub open spec fn divides(d: nat, n: nat) -> bool {
    exists|k: nat| n == #[trigger] (d * k)
}

/// Every number divides itself.
pub proof fn lemma_divides_refl(a: nat)
    ensures
        divides(a, a),
{
    assert(a == a * 1);
}

/// Every number divides zero.
pub proof fn lemma_divides_zero(d: nat)
    ensures
        divides(d, 0),
{
    assert(0nat == d * 0);
}

/// A divisor of a positive number is positive and no larger than it.
pub proof fn lemma_divides_bound(d: nat, n: nat)
    requires
        divides(d, n),
        n > 0,
    ensures
        0 < d <= n,
{
    let k = choose|k: nat| n == #[trigger] (d * k);
    assert(0 < d <= d * k) by (nonlinear_arith)
        requires
            d * k > 0,
    ;
}

/// Divisibility is transitive.
pub proof fn lemma_divides_trans(d: nat, m: nat, n: nat)
    requires
        divides(d, m),
        divides(m, n),
    ensures
        divides(d, n),
{
    let k1 = choose|k: nat| m == #[trigger] (d * k);
    let k2 = choose|k: nat| n == #[trigger] (m * k);
    assert(n == d * (k1 * k2)) by (nonlinear_arith)
        requires
            m == d * k1,
            n == m * k2,
    ;
}

/// Two numbers that divide each other are equal.
pub proof fn lemma_divides_antisym(a: nat, b: nat)
    requires
        divides(a, b),
        divides(b, a),
    ensures
        a == b,
{
    if a == 0 {
        let k = choose|k: nat| b == #[trigger] (a * k);
        assert(b == 0);
    } else if b == 0 {
        let k = choose|k: nat| a == #[trigger] (b * k);
        assert(a == 0);
    } else {
        lemma_divides_bound(a, b);
        lemma_divides_bound(b, a);
    }
}

/// With `b > 0`, the pairs `(a, b)` and `(b, a % b)` have the same
/// common divisors: this is the step the Euclidean algorithm rests on.
pub proof fn lemma_mod_common_divisors(d: nat, a: nat, b: nat)
    requires
        b > 0,
        divides(d, b),
    ensures
        divides(d, a) ==> divides(d, a % b),
        divides(d, a % b) ==> divides(d, a),
{
    let ai = a as int;
    let bi = b as int;
    vstd::arithmetic::div_mod::lemma_fundamental_div_mod(ai, bi);
    let q = ai / bi;
    let r = ai % bi;
    let kb = choose|k: nat| b == #[trigger] (d * k);
    vstd::arithmetic::div_mod::lemma_div_pos_is_pos(ai, bi);
    assert(d > 0) by (nonlinear_arith)
        requires
            b == d * kb,
            b > 0,
    ;
    if divides(d, a) {
        let ka = choose|k: nat| a == #[trigger] (d * k);
        let m = ka - kb * q;
        assert(r == d * m) by (nonlinear_arith)
            requires
                ai == bi * q + r,
                ai == d * ka,
                bi == d * kb,
                m == ka - kb * q,
        ;
        assert(m >= 0) by (nonlinear_arith)
            requires
                r == d * m,
                r >= 0,
                d > 0,
        ;
        assert(a % b == d * (m as nat));
    }
    if divides(d, a % b) {
        let kr = choose|k: nat| a % b == #[trigger] (d * k);
        let s = kb * q + kr;
        assert(ai == d * s) by (nonlinear_arith)
            requires
                ai == bi * q + r,
                r == d * kr,
                bi == d * kb,
                s == kb * q + kr,
        ;
        assert(s >= 0) by (nonlinear_arith)
            requires
                ai == d * s,
                ai >= 0,
                d > 0,
        ;
        assert(a == d * (s as nat));
    }
}

} // verus!
