//! Powers of two, and the least one that holds a number of gates: the size
//! that a setup is asked for.

use vstd::prelude::*;

verus! {

/// Whether `n` is a power of two.
pub open spec fn is_pow2(n: nat) -> bool
    decreases n,
{
    n == 1 || (n >= 2 && n % 2 == 0 && is_pow2(n / 2))
}

/// The least power of two that is at least `n`.
pub open spec fn next_pow2(n: nat) -> nat
    decreases n,
{
    if n <= 1 {
        1
    } else {
        2 * next_pow2((n + 1) / 2)
    }
}

/// Of two powers of two, the greater is at least twice the smaller.
pub proof fn lemma_pow2_gap(p: nat, q: nat)
    requires
        is_pow2(p),
        is_pow2(q),
        p < q,
    ensures
        2 * p <= q,
    decreases p,
{
    if p > 1 {
        lemma_pow2_gap(p / 2, q / 2);
    }
}

/// `next_pow2(n)` is a power of two, it is at least `n`, and no power of two
/// that is at least `n` is smaller.
pub proof fn lemma_next_pow2(n: nat)
    ensures
        is_pow2(next_pow2(n)),
        n <= next_pow2(n),
        forall|q: nat| is_pow2(q) && n <= q ==> next_pow2(n) <= q,
    decreases n,
{
    if n > 1 {
        let half = (n + 1) / 2;
        lemma_next_pow2(half);
        assert(is_pow2(2 * next_pow2(half)));
        assert forall|q: nat| is_pow2(q) && n <= q implies next_pow2(n) <= q by {
            assert(is_pow2(q / 2) && half <= q / 2);
        }
    }
}

/// A power of two is its own next power of two: a number of gates that is a
/// power of two already asks for no more.
pub proof fn lemma_next_pow2_of_pow2(n: nat)
    requires
        is_pow2(n),
    ensures
        next_pow2(n) == n,
{
    lemma_next_pow2(n);
    if next_pow2(n) > n {
        lemma_pow2_gap(n, next_pow2(n));
        assert(is_pow2(n) && n <= n);
    }
}

/// Taking the next power of two a second time changes nothing.
pub proof fn lemma_next_pow2_idempotent(n: nat)
    ensures
        next_pow2(next_pow2(n)) == next_pow2(n),
{
    lemma_next_pow2(n);
    lemma_next_pow2_of_pow2(next_pow2(n));
}

/// The least power of two that is at least `n`, or `None` where that power
/// does not fit in a `usize`.
pub fn next_power_of_two(n: usize) -> (r: Option<usize>)
    ensures
        r == if next_pow2(n as nat) <= usize::MAX {
            Some(next_pow2(n as nat) as usize)
        } else {
            None
        },
{
    let mut p: usize = 1;
    proof {
        lemma_next_pow2(n as nat);
    }
    while p < n
        invariant
            1 <= p,
            is_pow2(p as nat),
            p <= next_pow2(n as nat),
            is_pow2(next_pow2(n as nat)),
            n <= next_pow2(n as nat),
        decreases
                (if p < n {
                    n - p
                } else {
                    0
                }),
    {
        proof {
            lemma_pow2_gap(p as nat, next_pow2(n as nat));
        }
        if p > usize::MAX / 2 {
            return None;
        }
        p = 2 * p;
    }
    proof {
        assert(next_pow2(n as nat) <= p) by {
            lemma_next_pow2(n as nat);
        }
    }
    Some(p)
}

} // verus!
