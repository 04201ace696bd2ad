//! Deterministic integer square root, used by the quadratic-funding formula.

use vstd::prelude::*;

verus! {

/// The floor of the square root of `n`, defined recursively so that other
/// specifications (for example the quadratic-funding score) can use it.
pub open spec fn spec_sqrt(n: nat) -> nat
    decreases n,
{
    if n == 0 {
        0
    } else {
        let r = spec_sqrt((n - 1) as nat);
        if (r + 1) * (r + 1) <= n {
            r + 1
        } else {
            r
        }
    }
}

/// `spec_sqrt(n)` really is the floor of the square root: it satisfies
/// `r * r <= n < (r + 1) * (r + 1)`.
pub proof fn lemma_spec_sqrt_bounds(n: nat)
    ensures
        spec_sqrt(n) * spec_sqrt(n) <= n,
        n < (spec_sqrt(n) + 1) * (spec_sqrt(n) + 1),
    decreases n,
{
    if n == 0 {
        assert(spec_sqrt(0) == 0);
        assert((spec_sqrt(n) + 1) * (spec_sqrt(n) + 1) == 1) by (nonlinear_arith)
            requires
                spec_sqrt(n) == 0,
        {}
    } else {
        let m = (n - 1) as nat;
        let r = spec_sqrt(m);
        lemma_spec_sqrt_bounds(m);
        assert(spec_sqrt(n) == if (r + 1) * (r + 1) <= n {
            r + 1
        } else {
            r
        });
        if (r + 1) * (r + 1) <= n {
            assert(n <= (r + 1) * (r + 1));
            assert(n < (r + 2) * (r + 2)) by (nonlinear_arith)
                requires
                    n <= (r + 1) * (r + 1),
            {}
        }
    }
}

/// One Babylonian step from `x` never lands below the integer square root:
/// for `x >= 1`, `(x + n / x) / 2 >= spec_sqrt(n)`.
proof fn lemma_step_at_least_root(n: nat, x: nat)
    requires
        1 <= x,
    ensures
        spec_sqrt(n) <= (x + n / x) / 2,
{
    let r = spec_sqrt(n);
    lemma_spec_sqrt_bounds(n);
    assert(n / x >= (r * r) / x) by {
        vstd::arithmetic::div_mod::lemma_div_is_ordered((r * r) as int, n as int, x as int);
    }
    assert(x + (r * r) / x >= 2 * r) by {
        vstd::arithmetic::div_mod::lemma_fundamental_div_mod((r * r) as int, x as int);
        assert(x * x + r * r >= 2 * r * x) by (nonlinear_arith) {}
        assert(x * (x + (r * r) / x) > (2 * r - 1) * x) by (nonlinear_arith)
            requires
                r * r == x * ((r * r) / x) + (r * r) % x,
                (r * r) % x < x,
                x * x + r * r >= 2 * r * x,
                x >= 1,
        {}
        assert(x + (r * r) / x > 2 * r - 1) by (nonlinear_arith)
            requires
                x * (x + (r * r) / x) > (2 * r - 1) * x,
                x >= 1,
        {}
    }
    assert((x + n / x) / 2 >= (2 * r) / 2) by {
        vstd::arithmetic::div_mod::lemma_div_is_ordered((2 * r) as int, (x + n / x) as int, 2);
    }
    assert((2 * r) / 2 == r);
}

/// With `root = spec_sqrt(n)` and `root <= x`, the quotient `n / x` is at
/// most `root + 2`; this bounds the Babylonian step against overflow.
proof fn lemma_quotient_bound(n: nat, x: nat)
    requires
        1 <= spec_sqrt(n) <= x,
    ensures
        n / x <= spec_sqrt(n) + 2,
{
    let r = spec_sqrt(n);
    lemma_spec_sqrt_bounds(n);
    assert(n / x <= n / r) by {
        vstd::arithmetic::div_mod::lemma_div_is_ordered_by_denominator(
            n as int,
            r as int,
            x as int,
        );
    }
    assert(n / r <= r + 2) by {
        vstd::arithmetic::div_mod::lemma_fundamental_div_mod(n as int, r as int);
        assert(n == r * (n / r) + n % r);
        assert(r * (n / r) <= n);
        assert(n < (r + 1) * (r + 1));
        assert(n / r <= r + 2) by (nonlinear_arith)
            requires
                r * ((n as int) / (r as int)) <= n,
                n < (r + 1) * (r + 1),
                r >= 1,
        {}
    }
}

/// One exec Babylonian step: `(x + n / x) / 2`, shown not to overflow and
/// not to land below the integer square root.
fn babylonian_step(n: u128, x: u128) -> (y: u128)
    requires
        1 <= spec_sqrt(n as nat),
        spec_sqrt(n as nat) <= x,
        x <= n / 2 + 1,
    ensures
        y == ((x + n / x) / 2) as u128,
        spec_sqrt(n as nat) <= y,
{
    proof {
        let root = spec_sqrt(n as nat);
        lemma_spec_sqrt_bounds(n as nat);
        lemma_quotient_bound(n as nat, x as nat);
        lemma_step_at_least_root(n as nat, x as nat);
        // The root fits in 64 bits, so the sum stays far from overflow.
        assert(root <= 0xFFFF_FFFF_FFFF_FFFFu128) by (nonlinear_arith)
            requires
                root * root <= n as nat,
                n <= u128::MAX,
        {}
        assert(n / 2 <= u128::MAX / 2) by {
            vstd::arithmetic::div_mod::lemma_div_is_ordered(n as int, u128::MAX as int, 2);
        }
    }
    (x + n / x) / 2
}

/// The floor of the square root of `n`, computed by the Babylonian (Newton)
/// iteration on integers: deterministic, and free of floating point.
pub fn sqrt(n: u128) -> (r: u128)
    ensures
        r == spec_sqrt(n as nat),
{
    if n == 0 {
        return 0;
    }
    let ghost root: nat = spec_sqrt(n as nat);
    proof {
        lemma_spec_sqrt_bounds(n as nat);
        assert(root >= 1) by (nonlinear_arith)
            requires
                n >= 1,
                n < (root + 1) * (root + 1),
        {}
        // root <= n / 2 + 1, because (n / 2 + 2) squared exceeds n
        assert(root <= n / 2 + 1) by {
            let h = (n / 2) as int;
            assert(n <= 2 * h + 1) by {
                vstd::arithmetic::div_mod::lemma_fundamental_div_mod(n as int, 2);
            }
            assert(root <= h + 1) by (nonlinear_arith)
                requires
                    root * root <= n as int,
                    n as int <= 2 * h + 1,
                    h >= 0,
            {}
        }
    }
    let mut x: u128 = n / 2 + 1;
    let mut y: u128 = babylonian_step(n, x);
    while y < x
        invariant
            n >= 1,
            root == spec_sqrt(n as nat),
            1 <= root <= x,
            x <= n / 2 + 1,
            root <= y,
            y == ((x + n / x) / 2) as u128,
            root * root <= n as nat,
            (n as nat) < (root + 1) * (root + 1),
        decreases x,
    {
        x = y;
        y = babylonian_step(n, x);
    }
    // On exit y >= x, so x + n / x >= 2 * x, so n / x >= x, so x * x <= n;
    // together with root <= x this forces x == root.
    proof {
        assert(x + n / x >= 2 * x) by {
            vstd::arithmetic::div_mod::lemma_fundamental_div_mod((x + n / x) as int, 2);
        }
        assert(n as nat >= (n / x) * x) by {
            vstd::arithmetic::div_mod::lemma_fundamental_div_mod(n as int, x as int);
            assert((n / x) * x == x * (n / x)) by (nonlinear_arith) {}
        }
        assert(x * x <= n as nat) by (nonlinear_arith)
            requires
                n / x >= x,
                x >= 1,
                n as nat >= (n / x) * x,
        {}
        assert(x == root) by (nonlinear_arith)
            requires
                x * x <= n as nat,
                (n as nat) < (root + 1) * (root + 1),
                root <= x,
        {}
    }
    x
}

} // verus!
