//! Taking in a padded circuit. Padding fills a circuit with gates that
//! constrain nothing until the number of its gates is a power of two. The
//! proof system pads and counts the gates; what it hands back is held here to
//! what padding may do, and the verifier's circuit is taken from the padded
//! circuit and from no other.

use crate::circuit::{PlonkCircuit, Shape};
use crate::error::Error;
use crate::pow2::{is_pow2, lemma_next_pow2, lemma_next_pow2_of_pow2, next_pow2, next_power_of_two};
use crate::scalar::Scalar;
use vstd::prelude::*;

verus! {

/// Whether a circuit of shape `after` and of `gates_after` gates may be the
/// padding of one of shape `before` and of `gates_before` gates: it has the
/// least power of two of gates that is at least `gates_before`, and where
/// `gates_before` is a power of two already, the constraints and the names of
/// the public wires are as before.
pub open spec fn is_padding(before: Shape, gates_before: nat, after: Shape, gates_after: nat) -> bool {
    &&& gates_after == next_pow2(gates_before)
    &&& is_pow2(gates_before) ==> {
        &&& after.prods == before.prods
        &&& after.sums == before.sums
        &&& after.pub_vars == before.pub_vars
    }
}

/// A padded circuit has a power of two of gates, and no fewer than before.
pub proof fn lemma_padding_reaches_power_of_two(
    before: Shape,
    gates_before: nat,
    after: Shape,
    gates_after: nat,
)
    requires
        is_padding(before, gates_before, after, gates_after),
    ensures
        is_pow2(gates_after),
        gates_before <= gates_after,
{
    lemma_next_pow2(gates_before);
}

/// Padding a circuit whose number of gates is a power of two already leaves
/// the number of gates, the constraints and the names of the public wires as
/// they are.
pub proof fn lemma_padding_of_power_of_two(
    before: Shape,
    gates_before: nat,
    after: Shape,
    gates_after: nat,
)
    requires
        is_pow2(gates_before),
        is_padding(before, gates_before, after, gates_after),
    ensures
        gates_after == gates_before,
        after.prods == before.prods,
        after.sums == before.sums,
        after.pub_vars == before.pub_vars,
{
    lemma_next_pow2_of_pow2(gates_before);
}

/// A padded circuit can be padded again, and is then as it was.
pub proof fn lemma_padding_twice(
    before: Shape,
    gates_before: nat,
    after: Shape,
    gates_after: nat,
)
    requires
        is_padding(before, gates_before, after, gates_after),
    ensures
        is_padding(after, gates_after, after, gates_after),
{
    lemma_next_pow2(gates_before);
    lemma_next_pow2_of_pow2(gates_after);
}

/// Takes in the circuit `after` of `gates_after` gates as the padding of
/// `before`, which had `gates_before` gates, and gives the verifier's circuit
/// beside it: the padded circuit without its witness. What is no padding of
/// `before` is refused.
pub fn accept_padding<V, W>(
    before: &PlonkCircuit<V>,
    gates_before: usize,
    after: PlonkCircuit<W>,
    gates_after: usize,
) -> (r: Result<(PlonkCircuit<Scalar>, PlonkCircuit<W>), Error>)
    ensures
        match r {
            Ok((verifier, prover)) => {
                &&& is_padding(
                    before.shape(),
                    gates_before as nat,
                    after.shape(),
                    gates_after as nat,
                )
                &&& prover == after
                &&& verifier.shape() == prover.shape()
                &&& verifier.values is None
            },
            Err(e) => {
                &&& e == Error::BadPadding
                &&& !is_padding(
                    before.shape(),
                    gates_before as nat,
                    after.shape(),
                    gates_after as nat,
                )
            },
        },
{
    proof {
        lemma_next_pow2(gates_before as nat);
        if is_pow2(gates_before as nat) {
            lemma_next_pow2_of_pow2(gates_before as nat);
        }
    }
    let target = next_power_of_two(gates_before);
    if target != Some(gates_after) {
        return Err(Error::BadPadding);
    }
    if gates_after == gates_before {
        if !before.same_shape_but_wires(&after) {
            return Err(Error::BadPadding);
        }
    }
    let verifier = after.without_witness();
    Ok((verifier, after))
}

} // verus!
