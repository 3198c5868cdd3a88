//! Extending the GCD engine to a list of operands by a left fold, as
//! the driver applies it, together with the law that the result does
//! not depend on the order of the operands.

use vstd::prelude::*;

use crate::gcd::gcd;
use crate::gcd::lemma_gcd_assoc;
use crate::gcd::lemma_gcd_commutes;
use crate::gcd::lemma_gcd_zero_left;
use crate::gcd::spec_gcd;

verus! {

/// The folding step: absorb one operand into the accumulator.
pub open spec fn gcd_fold_op() -> spec_fn(nat, u64) -> nat {
    |acc: nat, x: u64| spec_gcd(acc, x as nat)
}

/// The greatest common divisor of a whole list, as a left fold starting
/// from zero. Zero is neutral for `spec_gcd`, so on a non-empty list
/// this equals the fold that starts from the first element, which is
/// how the driver computes it.
pub open spec fn gcd_seq(s: Seq<u64>) -> nat {
    s.fold_left(0nat, gcd_fold_op())
}

/// One folding step over a prefix of the list.
proof fn lemma_gcd_seq_step(s: Seq<u64>, i: int)
    requires
        0 <= i < s.len(),
    ensures
        gcd_seq(s.take(i + 1)) == spec_gcd(gcd_seq(s.take(i)), s[i] as nat),
{
    assert(s.take(i + 1).drop_last() =~= s.take(i));
    assert(s.take(i + 1).last() == s[i]);
}

/// The GCD of a list equals the GCD of any permutation of that list:
/// folding the engine over the operands in any order gives the same
/// result.
pub proof fn lemma_gcd_seq_permutation(s1: Seq<u64>, s2: Seq<u64>)
    requires
        s1.to_multiset() == s2.to_multiset(),
    ensures
        gcd_seq(s1) == gcd_seq(s2),
{
    let f = gcd_fold_op();
    assert forall|x: u64, y: u64, v: nat| #[trigger] f(f(v, x), y) == f(f(v, y), x) by {
        lemma_gcd_assoc(v, x as nat, y as nat);
        lemma_gcd_assoc(v, y as nat, x as nat);
        lemma_gcd_commutes(x as nat, y as nat);
    }
    assert(vstd::seq_lib::commutative_foldl(f));
    vstd::seq_lib::lemma_fold_left_permutation(s1, s2, f, 0nat);
}

/// Folds the engine across the operand list, the first element as the
/// initial accumulator, each further operand absorbed in order.
pub fn gcd_of_list(ops: &Vec<u64>) -> (r: u64)
    requires
        ops@.len() > 0,
        forall|j: int| 0 <= j < ops@.len() ==> ops@[j] > 0,
    ensures
        r as nat == gcd_seq(ops@),
        r > 0,
{
    let mut d = ops[0];
    proof {
        assert(ops@.take(0).len() == 0);
        lemma_gcd_seq_step(ops@, 0);
        lemma_gcd_zero_left(ops@[0] as nat);
    }
    let mut i: usize = 1;
    while i < ops.len()
        invariant
            1 <= i <= ops@.len(),
            forall|j: int| 0 <= j < ops@.len() ==> ops@[j] > 0,
            d > 0,
            d as nat == gcd_seq(ops@.take(i as int)),
        decreases ops@.len() - i,
    {
        d = gcd(d, ops[i]);
        proof {
            lemma_gcd_seq_step(ops@, i as int);
        }
        i = i + 1;
    }
    proof {
        assert(ops@.take(ops@.len() as int) =~= ops@);
    }
    d
}

} // verus!
