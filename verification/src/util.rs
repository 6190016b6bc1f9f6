//! Integer square root of a perfect square.

use vstd::prelude::*;

verus! {

/// A number is a perfect square when it is some non-negative integer
/// multiplied by itself.
pub open spec fn is_square(n: int) -> bool {
    exists|r: int| 0 <= r && #[trigger] (r * r) == n
}

/// The non-negative square root of a perfect square, as a specification
/// value.
pub open spec fn spec_sqrt(n: int) -> int {
    choose|r: int| 0 <= r && #[trigger] (r * r) == n
}

/// The non-negative integer square root is unique: whenever `a * a == b * b`
/// for non-negative `a` and `b`, the two roots coincide.  In particular any
/// result `r` of [`usize_sqrt`] on `k * k` equals `k`.
pub proof fn lemma_square_root_unique(a: int, b: int)
    requires
        0 <= a,
        0 <= b,
        a * a == b * b,
    ensures
        a == b,
{
    if a < b {
        assert(a * a < b * b) by (nonlinear_arith)
            requires
                0 <= a < b,
        ;
    }
    if b < a {
        assert(b * b < a * a) by (nonlinear_arith)
            requires
                0 <= b < a,
        ;
    }
}

/// Take the square root of the given usize.
///
/// The argument must be a perfect square; a non-square count reaching this
/// function signals a malformed matrix upstream, not bad user input.
pub fn usize_sqrt(num: usize) -> (r: usize)
    requires
        is_square(num as int),
    ensures
        r * r == num,
{
    let ghost root: int = choose|r: int| 0 <= r && #[trigger] (r * r) == num as int;
    proof {
        assert(root <= num) by (nonlinear_arith)
            requires
                0 <= root,
                root * root == num as int,
        ;
    }
    let mut s: usize = 0;
    while s * s < num
        invariant
            0 <= s <= root,
            root <= num <= usize::MAX,
            root * root == num as int,
            s * s <= num,
        decreases root - s,
    {
        proof {
            // `s` is still strictly below the root, so stepping stays in bounds.
            if s == root {
                assert(false);
            }
            assert((s + 1) * (s + 1) <= root * root) by (nonlinear_arith)
                requires
                    0 <= s + 1 <= root,
            ;
        }
        s = s + 1;
    }
    proof {
        assert(s * s <= root * root) by (nonlinear_arith)
            requires
                0 <= s <= root,
        ;
    }
    s
}

} // verus!
