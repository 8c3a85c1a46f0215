//! The witness of a described circuit, in the form that each way of proving
//! asks for: plain field elements for one party, and for several parties
//! additive shares beside publicly known elements.

use crate::circuit::PlonkCircuit;
use crate::compat::{CompatCircuitR1csJson, Description, PublicValues, Wire};
use crate::error::Error;
use crate::gather::{gather, lemma_gather_prefix_failure};
use crate::scalar::{field_of_decimal, Scalar};
use vstd::prelude::*;

verus! {

/// A wire value among several parties.
#[derive(Clone, Copy, Debug, PartialEq, Eq)]
pub enum SharedValue {
    /// This party's additive share of a secret field element.
    AdditiveShare(Scalar),
    /// A field element that every party knows.
    Public(Scalar),
}

/// A wire value among several parties, as a number.
pub enum SharedNumber {
    /// This party's additive share of a secret field element.
    AdditiveShare(nat),
    /// A field element that every party knows.
    Public(nat),
}

impl View for SharedValue {
    type V = SharedNumber;

    open spec fn view(&self) -> SharedNumber {
        match self {
            SharedValue::AdditiveShare(x) => SharedNumber::AdditiveShare(x@),
            SharedValue::Public(x) => SharedNumber::Public(x@),
        }
    }
}

impl SharedValue {
    /// Whether the value holds a canonical integer of the field.
    pub open spec fn wf(&self) -> bool {
        match self {
            SharedValue::AdditiveShare(x) => x.wf(),
            SharedValue::Public(x) => x.wf(),
        }
    }
}

/// The numbers that the field elements `v` hold.
pub open spec fn plain_numbers(v: Seq<Scalar>) -> Seq<nat> {
    Seq::new(v.len(), |i: int| v[i]@)
}

/// The numbers that the shared values `v` hold.
pub open spec fn shared_numbers(v: Seq<SharedValue>) -> Seq<SharedNumber> {
    Seq::new(v.len(), |i: int| v[i]@)
}

/// The value of a wire in a plaintext witness: the field element that its
/// numeral denotes. A wire that is marked as a secret share has none, and a
/// wire whose value is no numeral has none.
pub open spec fn plain_outcome(w: Wire) -> Result<nat, Error> {
    if w.is_secret_share {
        Err(Error::SecretWireInPlaintext)
    } else {
        match field_of_decimal(w.value) {
            Some(v) => Ok(v),
            None => Err(Error::MalformedValue),
        }
    }
}

/// The value of a wire in a witness among several parties: the field element
/// that its numeral denotes, as an additive share where the wire is marked as
/// a secret share and as a public element where it is not. A wire whose value
/// is no numeral has none.
pub open spec fn shared_outcome(w: Wire) -> Result<SharedNumber, Error> {
    match field_of_decimal(w.value) {
        Some(v) => Ok(
            if w.is_secret_share {
                SharedNumber::AdditiveShare(v)
            } else {
                SharedNumber::Public(v)
            },
        ),
        None => Err(Error::MalformedValue),
    }
}

impl Description {
    /// The plaintext witness: the value of every wire in order, or the
    /// failure of the first wire that has none.
    pub open spec fn plain_witness(self) -> Result<Seq<nat>, Error> {
        gather(self.wires.map_values(|w: Wire| plain_outcome(w)))
    }

    /// The witness among several parties: the value of every wire in order,
    /// or the failure of the first wire that has none.
    pub open spec fn shared_witness(self) -> Result<Seq<SharedNumber>, Error> {
        gather(self.wires.map_values(|w: Wire| shared_outcome(w)))
    }
}

impl CompatCircuitR1csJson {
    /// The value of every wire as a plain field element.
    fn plain_values(&self) -> (r: Result<Vec<Scalar>, Error>)
        ensures
            match (r, self@.plain_witness()) {
                (Ok(v), Ok(w)) => {
                    &&& plain_numbers(v@) == w
                    &&& v@.len() == self.wire_values@.len()
                    &&& forall|i: int| 0 <= i < v@.len() ==> (#[trigger] v@[i]).wf()
                },
                (Err(e), Err(f)) => e == f,
                _ => false,
            },
    {
        let ghost outcomes = self@.wires.map_values(|w: Wire| plain_outcome(w));
        let mut out: Vec<Scalar> = Vec::new();
        let mut i: usize = 0;
        assert(outcomes.take(0) =~= Seq::empty());
        assert(plain_numbers(out@) =~= Seq::empty());
        while i < self.wire_values.len()
            invariant
                i <= self.wire_values@.len(),
                outcomes == self@.wires.map_values(|w: Wire| plain_outcome(w)),
                gather(outcomes.take(i as int)) == Ok::<Seq<nat>, Error>(plain_numbers(out@)),
                out@.len() == i,
                forall|j: int| 0 <= j < out@.len() ==> (#[trigger] out@[j]).wf(),
            decreases self.wire_values@.len() - i,
        {
            let wire = &self.wire_values[i];
            proof {
                assert(outcomes.take(i + 1).drop_last() =~= outcomes.take(i as int));
                assert(outcomes.take(i + 1).last() == plain_outcome(wire@));
            }
            if wire.is_secret_share {
                proof {
                    lemma_gather_prefix_failure(outcomes, i + 1);
                }
                return Err(Error::SecretWireInPlaintext);
            }
            let value = match Scalar::parse(wire.value.as_str()) {
                Some(v) => v,
                None => {
                    proof {
                        lemma_gather_prefix_failure(outcomes, i + 1);
                    }
                    return Err(Error::MalformedValue);
                },
            };
            let ghost before = plain_numbers(out@);
            out.push(value);
            assert(plain_numbers(out@) =~= before.push(value@));
            i = i + 1;
        }
        assert(outcomes.take(self.wire_values@.len() as int) =~= outcomes);
        Ok(out)
    }

    /// The value of every wire among several parties.
    fn shared_values(&self) -> (r: Result<Vec<SharedValue>, Error>)
        ensures
            match (r, self@.shared_witness()) {
                (Ok(v), Ok(w)) => {
                    &&& shared_numbers(v@) == w
                    &&& v@.len() == self.wire_values@.len()
                    &&& forall|i: int| 0 <= i < v@.len() ==> (#[trigger] v@[i]).wf()
                },
                (Err(e), Err(f)) => e == f,
                _ => false,
            },
    {
        let ghost outcomes = self@.wires.map_values(|w: Wire| shared_outcome(w));
        let mut out: Vec<SharedValue> = Vec::new();
        let mut i: usize = 0;
        assert(outcomes.take(0) =~= Seq::empty());
        assert(shared_numbers(out@) =~= Seq::empty());
        while i < self.wire_values.len()
            invariant
                i <= self.wire_values@.len(),
                outcomes == self@.wires.map_values(|w: Wire| shared_outcome(w)),
                gather(outcomes.take(i as int)) == Ok::<Seq<SharedNumber>, Error>(
                    shared_numbers(out@),
                ),
                out@.len() == i,
                forall|j: int| 0 <= j < out@.len() ==> (#[trigger] out@[j]).wf(),
            decreases self.wire_values@.len() - i,
        {
            let wire = &self.wire_values[i];
            proof {
                assert(outcomes.take(i + 1).drop_last() =~= outcomes.take(i as int));
                assert(outcomes.take(i + 1).last() == shared_outcome(wire@));
            }
            let parsed = match Scalar::parse(wire.value.as_str()) {
                Some(v) => v,
                None => {
                    proof {
                        lemma_gather_prefix_failure(outcomes, i + 1);
                    }
                    return Err(Error::MalformedValue);
                },
            };
            let value = if wire.is_secret_share {
                SharedValue::AdditiveShare(parsed)
            } else {
                SharedValue::Public(parsed)
            };
            let ghost before = shared_numbers(out@);
            out.push(value);
            assert(shared_numbers(out@) =~= before.push(value@));
            i = i + 1;
        }
        assert(outcomes.take(self.wire_values@.len() as int) =~= outcomes);
        Ok(out)
    }

    /// The prover's circuit for one party, not yet padded, with the public
    /// inputs by name: the described circuit, and for its witness the value
    /// of every wire as a plain field element. No wire may be marked as a
    /// secret share. A failure of the described circuit comes before one of
    /// the witness.
    pub fn to_plonk_circuit_local(&self) -> (r: Result<(PlonkCircuit<Scalar>, PublicValues), Error>)
        ensures
            match self@.empty_circuit() {
                Err(e) => r == Err::<(PlonkCircuit<Scalar>, PublicValues), Error>(e),
                Ok((shape, inputs)) => match self@.plain_witness() {
                    Err(e) => r == Err::<(PlonkCircuit<Scalar>, PublicValues), Error>(e),
                    Ok(w) => {
                        &&& r matches Ok((c, p))
                        &&& c.shape() == shape
                        &&& c.values matches Some(v)
                        &&& plain_numbers(v@) == w
                        &&& v@.len() == c.n_vars
                        &&& forall|i: int| 0 <= i < v@.len() ==> (#[trigger] v@[i]).wf()
                        &&& p.wf()
                        &&& p@ == inputs
                    },
                },
            },
    {
        let (empty, public) = match self.to_empty_plonk_circuit() {
            Ok(built) => built,
            Err(e) => {
                return Err(e);
            },
        };
        let values = match self.plain_values() {
            Ok(v) => v,
            Err(e) => {
                return Err(e);
            },
        };
        let circuit = PlonkCircuit {
            n_vars: empty.n_vars,
            pub_vars: empty.pub_vars,
            prods: empty.prods,
            sums: empty.sums,
            values: Some(values),
        };
        Ok((circuit, public))
    }

    /// The prover's circuit for several parties, not yet padded, with the
    /// public inputs by name: the described circuit, and for its witness the
    /// value of every wire, an additive share where the wire is marked as a
    /// secret share and a public element where it is not. A failure of the
    /// described circuit comes before one of the witness.
    pub fn to_plonk_circuit_multi_party(&self) -> (r: Result<
        (PlonkCircuit<SharedValue>, PublicValues),
        Error,
    >)
        ensures
            match self@.empty_circuit() {
                Err(e) => r == Err::<(PlonkCircuit<SharedValue>, PublicValues), Error>(e),
                Ok((shape, inputs)) => match self@.shared_witness() {
                    Err(e) => r == Err::<(PlonkCircuit<SharedValue>, PublicValues), Error>(e),
                    Ok(w) => {
                        &&& r matches Ok((c, p))
                        &&& c.shape() == shape
                        &&& c.values matches Some(v)
                        &&& shared_numbers(v@) == w
                        &&& v@.len() == c.n_vars
                        &&& forall|i: int| 0 <= i < v@.len() ==> (#[trigger] v@[i]).wf()
                        &&& p.wf()
                        &&& p@ == inputs
                    },
                },
            },
    {
        let (empty, public) = match self.to_empty_plonk_circuit() {
            Ok(built) => built,
            Err(e) => {
                return Err(e);
            },
        };
        let values = match self.shared_values() {
            Ok(v) => v,
            Err(e) => {
                return Err(e);
            },
        };
        let circuit = PlonkCircuit {
            n_vars: empty.n_vars,
            pub_vars: empty.pub_vars,
            prods: empty.prods,
            sums: empty.sums,
            values: Some(values),
        };
        Ok((circuit, public))
    }
}

} // verus!
