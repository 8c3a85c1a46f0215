//! The squaring circuit's numbers: what comes out when a field element is
//! squared a number of times, which is the circuit's one public input.

use crate::compat::{PublicInput, PublicValues};
use crate::scalar::{modulus, Scalar};
use vstd::arithmetic::div_mod::{lemma_mul_mod_noop_general, lemma_small_mod};
use vstd::arithmetic::power::{lemma_pow1, lemma_pow_adds, pow};
use vstd::arithmetic::power2::{lemma_pow2_unfold, pow2};
use vstd::prelude::*;

verus! {

/// `x` squared `steps` times in the field.
pub open spec fn squared_times(x: nat, steps: nat) -> nat
    decreases steps,
{
    if steps == 0 {
        x
    } else {
        let y = squared_times(x, (steps - 1) as nat);
        (y * y) % modulus()
    }
}

/// Squaring a field element `steps` times raises it to the power of two to
/// the `steps`.
pub proof fn lemma_squared_times_is_power(x: nat, steps: nat)
    requires
        x < modulus(),
    ensures
        squared_times(x, steps) == pow(x as int, pow2(steps)) % (modulus() as int),
    decreases steps,
{
    let m = modulus() as int;
    if steps == 0 {
        assert(pow2(0) == 1) by {
            vstd::arithmetic::power2::lemma2_to64();
        }
        lemma_pow1(x as int);
        lemma_small_mod(x, modulus());
    } else {
        let before = (steps - 1) as nat;
        lemma_squared_times_is_power(x, before);
        let half = pow(x as int, pow2(before));
        lemma_pow2_unfold(steps);
        assert(pow2(steps) == pow2(before) + pow2(before));
        lemma_pow_adds(x as int, pow2(before), pow2(before));
        lemma_mul_mod_noop_general(half, half, m);
    }
}

/// `start` squared `steps` times in the field: what the squaring circuit of
/// `steps` steps puts out for the input `start`.
pub fn squaring_output(start: Scalar, steps: usize) -> (r: Scalar)
    requires
        start.wf(),
    ensures
        r.wf(),
        r@ == squared_times(start@, steps as nat),
{
    let mut r = start;
    let mut i: usize = 0;
    while i < steps
        invariant
            i <= steps,
            r.wf(),
            r@ == squared_times(start@, i as nat),
        decreases steps - i,
    {
        r = r.mul(&r);
        i = i + 1;
    }
    r
}

/// The public inputs of the squaring circuit of `steps` steps for the input
/// `start`: the one named `out`, whose value is `start` squared `steps`
/// times.
pub fn squaring_public_values(start: Scalar, steps: usize) -> (p: PublicValues)
    requires
        start.wf(),
    ensures
        p.wf(),
        p@ == seq![("out"@, squared_times(start@, steps as nat))],
{
    let value = squaring_output(start, steps);
    let mut entries: Vec<PublicInput> = Vec::new();
    entries.push(PublicInput { name: "out".to_owned(), value });
    let p = PublicValues { entries };
    assert(p@ =~= seq![("out"@, squared_times(start@, steps as nat))]);
    p
}

} // verus!
