//! Integer square roots.

use integer_sqrt::IntegerSquareRoot;
use vstd::prelude::*;

verus! {

/// `root` is the integer square root of `value`: the largest natural number
/// whose square does not exceed it.
pub open spec fn is_sqrt(value: nat, root: nat) -> bool {
    root * root <= value < (root + 1) * (root + 1)
}

/// The integer square root of `value`.
pub open spec fn isqrt(value: nat) -> nat {
    choose|root: nat| is_sqrt(value, root)
}

/// Every natural number has an integer square root.
pub proof fn lemma_sqrt_exists(value: nat)
    ensures
        exists|root: nat| is_sqrt(value, root),
    decreases value,
{
    if value == 0 {
        assert(0nat * 0nat == 0 && (0nat + 1) * (0nat + 1) == 1) by (nonlinear_arith);
        assert(is_sqrt(0, 0));
    } else {
        lemma_sqrt_exists((value - 1) as nat);
        let below = isqrt((value - 1) as nat);
        assert(is_sqrt((value - 1) as nat, below));
        if value < (below + 1) * (below + 1) {
            assert(is_sqrt(value, below));
        } else {
            assert((below + 1) * (below + 1) < (below + 1 + 1) * (below + 1 + 1))
                by (nonlinear_arith);
            assert(is_sqrt(value, below + 1));
        }
    }
}

/// No natural number has two integer square roots.
pub proof fn lemma_sqrt_unique(value: nat, a: nat, b: nat)
    requires
        is_sqrt(value, a),
        is_sqrt(value, b),
    ensures
        a == b,
{
    if a < b {
        assert((a + 1) * (a + 1) <= b * b) by (nonlinear_arith)
            requires
                a + 1 <= b,
        ;
    } else if b < a {
        assert((b + 1) * (b + 1) <= a * a) by (nonlinear_arith)
            requires
                b + 1 <= a,
        ;
    }
}

/// [`isqrt`] is the integer square root, and the only one.
pub proof fn lemma_isqrt(value: nat, root: nat)
    ensures
        is_sqrt(value, isqrt(value)),
        is_sqrt(value, root) ==> root == isqrt(value),
{
    lemma_sqrt_exists(value);
    if is_sqrt(value, root) {
        lemma_sqrt_unique(value, root, isqrt(value));
    }
}

/// The integer square root, as `integer_sqrt::IntegerSquareRoot::integer_sqrt`
/// computes it for `u128`. Trusted: the result is the largest number whose
/// square does not exceed `value`, which is what that crate documents; on an
/// unsigned argument the call does not panic.
#[verifier::external_body]
pub(crate) fn integer_sqrt(value: u128) -> (root: u128)
    ensures
        is_sqrt(value as nat, root as nat),
{
    value.integer_sqrt()
}

} // verus!
