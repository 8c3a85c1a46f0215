//! The compatibility description of a circuit, and the circuit that it
//! describes: wires with their values, a count of leading wires that may be
//! public, and product and sum constraints written as tokens.

use crate::circuit::{in_range, names_of, PlonkCircuit, Shape};
use crate::decimal::{decimal_digits, decimal_string, lemma_decimal_digits_injective};
use crate::error::Error;
use crate::gather::{
    gather, lemma_gather_failure, lemma_gather_prefix_failure, lemma_gather_values,
};
use crate::scalar::{field_of_decimal, Scalar};
use crate::token::{constraint_of, parse_constraint};
use std::collections::HashMap;
use vstd::prelude::*;

verus! {

broadcast use vstd::std_specs::hash::group_hash_axioms;

/// A wire of the description.
#[derive(Clone, Debug, PartialEq, Eq)]
pub struct WireValue {
    /// The value on the wire, as a decimal numeral.
    pub value: String,
    /// Whether the value is one party's share of a secret.
    pub is_secret_share: bool,
}

/// A wire of the description, its text as characters.
pub struct Wire {
    /// The value on the wire, as a decimal numeral.
    pub value: Seq<char>,
    /// Whether the value is one party's share of a secret.
    pub is_secret_share: bool,
}

impl View for WireValue {
    type V = Wire;

    open spec fn view(&self) -> Wire {
        Wire { value: self.value@, is_secret_share: self.is_secret_share }
    }
}

/// The description of a circuit.
#[derive(Clone, Debug, PartialEq, Eq)]
pub struct CompatCircuitR1csJson {
    /// The wires, each at the position of its index.
    pub wire_values: Vec<WireValue>,
    /// The number of wires.
    pub wire_count: u32,
    /// The number of leading wires that may be public inputs.
    pub public_wire_count: u32,
    /// The product constraints, as tokens `(A|B|C)`.
    pub product_constraints: Vec<String>,
    /// The sum constraints, as tokens `(A|B|C)`.
    pub sum_constraints: Vec<String>,
}

/// The description of a circuit, its texts as characters.
pub struct Description {
    /// The wires, each at the position of its index.
    pub wires: Seq<Wire>,
    /// The number of wires.
    pub wire_count: u32,
    /// The number of leading wires that may be public inputs.
    pub public_wire_count: u32,
    /// The product constraints, as tokens.
    pub products: Seq<Seq<char>>,
    /// The sum constraints, as tokens.
    pub sums: Seq<Seq<char>>,
}

/// The characters of each of the strings `v`.
pub open spec fn texts(v: Seq<String>) -> Seq<Seq<char>> {
    Seq::new(v.len(), |i: int| v[i]@)
}

impl View for CompatCircuitR1csJson {
    type V = Description;

    open spec fn view(&self) -> Description {
        Description {
            wires: Seq::new(self.wire_values@.len(), |i: int| self.wire_values@[i]@),
            wire_count: self.wire_count,
            public_wire_count: self.public_wire_count,
            products: texts(self.product_constraints@),
            sums: texts(self.sum_constraints@),
        }
    }
}

/// A public input: the name of a public wire and the value on it.
#[derive(Clone, Debug, PartialEq, Eq)]
pub struct PublicInput {
    /// The name of the wire.
    pub name: String,
    /// The value on the wire.
    pub value: Scalar,
}

/// The public inputs of a circuit, by name.
#[derive(Clone, Debug, PartialEq, Eq)]
pub struct PublicValues {
    /// The inputs, by rising wire index.
    pub entries: Vec<PublicInput>,
}

impl View for PublicValues {
    type V = Seq<(Seq<char>, nat)>;

    open spec fn view(&self) -> Seq<(Seq<char>, nat)> {
        Seq::new(self.entries@.len(), |k: int| (self.entries@[k].name@, self.entries@[k].value@))
    }
}

impl PublicValues {
    /// Whether every value is a canonical integer of the field and no name
    /// occurs twice.
    pub open spec fn wf(&self) -> bool {
        &&& forall|k: int| 0 <= k < self.entries@.len() ==> (#[trigger] self.entries@[k]).value.wf()
        &&& distinct_names(self@)
    }

    /// The number of public inputs.
    pub fn len(&self) -> (n: usize)
        ensures
            n == self@.len(),
    {
        self.entries.len()
    }

    /// The value of the public input named `name`: that of the first input
    /// of that name, and none where no input has that name.
    pub fn get(&self, name: &str) -> (r: Option<Scalar>)
        ensures
            match r {
                Some(x) => exists|k: int|
                    0 <= k < self.entries@.len() && (#[trigger] self.entries@[k]).name@ == name@
                        && self.entries@[k].value == x && forall|j: int|
                        0 <= j < k ==> (#[trigger] self.entries@[j]).name@ != name@,
                None => forall|k: int|
                    0 <= k < self.entries@.len() ==> (#[trigger] self.entries@[k]).name@ != name@,
            },
    {
        let wanted = name.to_owned();
        let mut k: usize = 0;
        while k < self.entries.len()
            invariant
                k <= self.entries@.len(),
                wanted@ == name@,
                forall|j: int| 0 <= j < k ==> (#[trigger] self.entries@[j]).name@ != name@,
            decreases self.entries@.len() - k,
        {
            if self.entries[k].name == wanted {
                return Some(self.entries[k].value);
            }
            k = k + 1;
        }
        None
    }
}

/// Whether no two of the inputs have the same name.
pub open spec fn distinct_names(inputs: Seq<(Seq<char>, nat)>) -> bool {
    forall|j: int, k: int| 0 <= j < k < inputs.len() ==> (#[trigger] inputs[j]).0 != (
    #[trigger] inputs[k]).0
}

/// The triple of a token, or the failure of a malformed one.
pub open spec fn token_outcome(token: Seq<char>) -> Result<(u32, u32, u32), Error> {
    match constraint_of(token) {
        Some(t) => Ok(t),
        None => Err(Error::MalformedConstraint),
    }
}

/// The triples of the tokens, or the failure of the first malformed one.
pub open spec fn parse_tokens(tokens: Seq<Seq<char>>) -> Result<Seq<(u32, u32, u32)>, Error> {
    gather(tokens.map_values(|t: Seq<char>| token_outcome(t)))
}

/// Whether wire `i` is the first or the second of some constraint of `cs`.
/// The third, a constraint's output, does not count.
pub open spec fn is_operand(i: u32, cs: Seq<(u32, u32, u32)>) -> bool {
    exists|k: int| 0 <= k < cs.len() && ((#[trigger] cs[k]).0 == i || cs[k].1 == i)
}

/// Whether wire `i` is an operand of some product or sum constraint.
pub open spec fn is_used(i: u32, prods: Seq<(u32, u32, u32)>, sums: Seq<(u32, u32, u32)>) -> bool {
    is_operand(i, prods) || is_operand(i, sums)
}

/// The wires below `bound` that the constraints use as an operand, by rising
/// index.
pub open spec fn retained(
    bound: nat,
    prods: Seq<(u32, u32, u32)>,
    sums: Seq<(u32, u32, u32)>,
) -> Seq<u32>
    decreases bound,
{
    if bound == 0 {
        Seq::empty()
    } else {
        let below = retained((bound - 1) as nat, prods, sums);
        if is_used((bound - 1) as u32, prods, sums) {
            below.push((bound - 1) as u32)
        } else {
            below
        }
    }
}

/// The value of a wire as a public input: the field element that its numeral
/// denotes. A wire that is marked as a secret share has none, and a wire
/// whose value is no numeral has none.
pub open spec fn public_outcome(w: Wire) -> Result<nat, Error> {
    if w.is_secret_share {
        Err(Error::SecretPublicWire)
    } else {
        match field_of_decimal(w.value) {
            Some(v) => Ok(v),
            None => Err(Error::MalformedValue),
        }
    }
}

/// The names of the public wires `r`: each wire is named by the decimal
/// numeral of its index.
pub open spec fn public_names(r: Seq<u32>) -> Map<u32, Seq<char>> {
    Map::new(|i: u32| r.contains(i), |i: u32| decimal_digits(i as nat))
}

/// The public inputs of the wires `r` with the values `v`, by name.
pub open spec fn named_values(r: Seq<u32>, v: Seq<nat>) -> Seq<(Seq<char>, nat)> {
    Seq::new(r.len(), |k: int| (decimal_digits(r[k] as nat), v[k]))
}

impl Description {
    /// The public wires: those below the public wire count that the
    /// constraints `prods` and `sums` use as an operand.
    pub open spec fn public_wires(
        self,
        prods: Seq<(u32, u32, u32)>,
        sums: Seq<(u32, u32, u32)>,
    ) -> Seq<u32> {
        retained(self.public_wire_count as nat, prods, sums)
    }

    /// The value of each of the wires `r` as a public input, or the failure of
    /// the first wire that has none.
    pub open spec fn public_inputs(self, r: Seq<u32>) -> Result<Seq<nat>, Error> {
        gather(r.map_values(|i: u32| public_outcome(self.wires[i as int])))
    }

    /// The verifier's circuit that is described, with its public inputs by
    /// name; or the failure that comes first of: a malformed product token, a
    /// malformed sum token, a wire count that is not the number of wires, a
    /// constraint on a wire that does not exist, and a public wire without a
    /// public value.
    pub open spec fn empty_circuit(self) -> Result<(Shape, Seq<(Seq<char>, nat)>), Error> {
        match (parse_tokens(self.products), parse_tokens(self.sums)) {
            (Err(e), _) => Err(e),
            (Ok(_), Err(e)) => Err(e),
            (Ok(prods), Ok(sums)) => {
                if self.wire_count != self.wires.len() {
                    Err(Error::WireCountMismatch)
                } else if !(in_range(prods, self.wire_count) && in_range(sums, self.wire_count)) {
                    Err(Error::WireOutOfRange)
                } else {
                    let r = self.public_wires(prods, sums);
                    match self.public_inputs(r) {
                        Err(e) => Err(e),
                        Ok(values) => Ok(
                            (
                                Shape {
                                    n_vars: self.wire_count,
                                    pub_vars: public_names(r),
                                    prods,
                                    sums,
                                },
                                named_values(r, values),
                            ),
                        ),
                    }
                }
            },
        }
    }
}

/// The wires that `retained` keeps are below the bound, used as an operand,
/// and every such wire is kept.
pub proof fn lemma_retained_members(
    bound: nat,
    prods: Seq<(u32, u32, u32)>,
    sums: Seq<(u32, u32, u32)>,
)
    requires
        bound <= u32::MAX,
    ensures
        forall|i: u32|
            #![trigger retained(bound, prods, sums).contains(i)]
            retained(bound, prods, sums).contains(i) <==> (i < bound && is_used(i, prods, sums)),
    decreases bound,
{
    let r = retained(bound, prods, sums);
    if bound == 0 {
        assert forall|i: u32| r.contains(i) <==> (i < bound && is_used(i, prods, sums)) by {
            if r.contains(i) {
                let k = choose|k: int| 0 <= k < r.len() && r[k] == i;
            }
        }
    } else {
        lemma_retained_members((bound - 1) as nat, prods, sums);
        let below = retained((bound - 1) as nat, prods, sums);
        let top = (bound - 1) as u32;
        assert forall|i: u32| r.contains(i) <==> (i < bound && is_used(i, prods, sums)) by {
            if r.contains(i) {
                let k = choose|k: int| 0 <= k < r.len() && r[k] == i;
                if k < below.len() {
                    assert(below[k] == i);
                    assert(below.contains(i));
                }
            }
            if i < bound && is_used(i, prods, sums) {
                if i == top {
                    assert(r[r.len() - 1] == i);
                } else {
                    assert(below.contains(i));
                    let k = choose|k: int| 0 <= k < below.len() && below[k] == i;
                    assert(r[k] == i);
                }
            }
        }
    }
}

/// The wires that `retained` keeps come by rising index.
pub proof fn lemma_retained_rising(
    bound: nat,
    prods: Seq<(u32, u32, u32)>,
    sums: Seq<(u32, u32, u32)>,
)
    requires
        bound <= u32::MAX,
    ensures
        forall|j: int, k: int|
            #![trigger retained(bound, prods, sums)[j], retained(bound, prods, sums)[k]]
            0 <= j < k < retained(bound, prods, sums).len() ==> retained(bound, prods, sums)[j]
                < retained(bound, prods, sums)[k],
        forall|k: int|
            0 <= k < retained(bound, prods, sums).len() ==> #[trigger] retained(
                bound,
                prods,
                sums,
            )[k] < bound,
    decreases bound,
{
    let r = retained(bound, prods, sums);
    if bound > 0 {
        lemma_retained_rising((bound - 1) as nat, prods, sums);
        let below = retained((bound - 1) as nat, prods, sums);
        assert forall|k: int| 0 <= k < r.len() implies #[trigger] r[k] < bound by {
            if k < below.len() {
                assert(r[k] == below[k]);
            }
        }
        assert forall|j: int, k: int| 0 <= j < k < r.len() implies #[trigger] r[j]
            < #[trigger] r[k] by {
            assert(r[j] == below[j]);
            if k < below.len() {
                assert(r[k] == below[k]);
            }
        }
    }
}

/// Public inputs of wires that come by rising index have distinct names.
pub proof fn lemma_named_values_distinct(r: Seq<u32>, v: Seq<nat>)
    requires
        forall|j: int, k: int| 0 <= j < k < r.len() ==> #[trigger] r[j] < #[trigger] r[k],
    ensures
        distinct_names(named_values(r, v)),
{
    let inputs = named_values(r, v);
    assert forall|j: int, k: int| 0 <= j < k < inputs.len() implies (#[trigger] inputs[j]).0 != (
    #[trigger] inputs[k]).0 by {
        assert(r[j] < r[k]);
        if inputs[j].0 == inputs[k].0 {
            lemma_decimal_digits_injective(r[j] as nat, r[k] as nat);
        }
    }
}

/// No wire at or above the public wire count is a public input, whatever the
/// constraints use: it has no public name in the circuit, and no public
/// input bears its name.
pub proof fn lemma_public_inputs_below_count(d: Description, i: u32)
    requires
        d.empty_circuit() is Ok,
        i >= d.public_wire_count,
    ensures
        !d.empty_circuit()->Ok_0.0.pub_vars.contains_key(i),
        forall|k: int|
            0 <= k < d.empty_circuit()->Ok_0.1.len() ==> (#[trigger] d.empty_circuit()->Ok_0.1[k]).0
                != decimal_digits(i as nat),
{
    let prods = parse_tokens(d.products)->Ok_0;
    let sums = parse_tokens(d.sums)->Ok_0;
    let r = d.public_wires(prods, sums);
    let inputs = d.empty_circuit()->Ok_0.1;
    lemma_retained_members(d.public_wire_count as nat, prods, sums);
    lemma_retained_rising(d.public_wire_count as nat, prods, sums);
    assert forall|k: int| 0 <= k < inputs.len() implies (#[trigger] inputs[k]).0 != decimal_digits(
        i as nat,
    ) by {
        assert(r[k] < d.public_wire_count);
        if inputs[k].0 == decimal_digits(i as nat) {
            lemma_decimal_digits_injective(r[k] as nat, i as nat);
        }
    }
}

/// The public inputs are those of the public wires and of no other: a wire
/// has a public name in the circuit exactly if it is below the public wire
/// count and an operand of some constraint, and its name is the decimal
/// numeral of its index.
pub proof fn lemma_public_names(d: Description, i: u32)
    requires
        d.empty_circuit() is Ok,
    ensures
        d.empty_circuit()->Ok_0.0.pub_vars.contains_key(i) <==> (i < d.public_wire_count
            && is_used(i, d.empty_circuit()->Ok_0.0.prods, d.empty_circuit()->Ok_0.0.sums)),
        d.empty_circuit()->Ok_0.0.pub_vars.contains_key(i) ==> d.empty_circuit()->Ok_0.0.pub_vars[i]
            == decimal_digits(i as nat),
{
    let prods = parse_tokens(d.products)->Ok_0;
    let sums = parse_tokens(d.sums)->Ok_0;
    lemma_retained_members(d.public_wire_count as nat, prods, sums);
    assert(retained(d.public_wire_count as nat, prods, sums).contains(i) <==> (i
        < d.public_wire_count && is_used(i, prods, sums)));
}

/// In a described circuit every wire that a constraint or a public name
/// refers to exists.
pub proof fn lemma_described_circuit_wf(d: Description)
    requires
        d.empty_circuit() is Ok,
    ensures
        d.empty_circuit()->Ok_0.0.wf(),
{
    let shape = d.empty_circuit()->Ok_0.0;
    assert forall|i: u32| shape.pub_vars.contains_key(i) implies i < shape.n_vars by {
        lemma_public_names(d, i);
        if is_operand(i, shape.prods) {
            let k = choose|k: int|
                0 <= k < shape.prods.len() && ((#[trigger] shape.prods[k]).0 == i
                    || shape.prods[k].1 == i);
        } else {
            let k = choose|k: int|
                0 <= k < shape.sums.len() && ((#[trigger] shape.sums[k]).0 == i || shape.sums[k].1
                    == i);
        }
    }
}

/// Whether some token of `tokens` denotes a constraint with wire `i` as its
/// first or its second.
pub open spec fn is_token_operand(i: u32, tokens: Seq<Seq<char>>) -> bool {
    exists|k: int|
        0 <= k < tokens.len() && (#[trigger] constraint_of(tokens[k]) matches Some(t) && (t.0 == i
            || t.1 == i))
}

/// A description in which a wire below the public wire count is marked as a
/// secret share and is an operand of some constraint describes no circuit.
pub proof fn lemma_secret_public_wire_rejected(d: Description, i: u32)
    requires
        i < d.public_wire_count,
        i < d.wires.len(),
        d.wires[i as int].is_secret_share,
        is_token_operand(i, d.products) || is_token_operand(i, d.sums),
    ensures
        d.empty_circuit() is Err,
{
    if d.empty_circuit() is Ok {
        let prods = parse_tokens(d.products)->Ok_0;
        let sums = parse_tokens(d.sums)->Ok_0;
        let product_outcomes = d.products.map_values(|t: Seq<char>| token_outcome(t));
        let sum_outcomes = d.sums.map_values(|t: Seq<char>| token_outcome(t));
        lemma_gather_values(product_outcomes);
        lemma_gather_values(sum_outcomes);
        if is_token_operand(i, d.products) {
            let k = choose|k: int|
                0 <= k < d.products.len() && (#[trigger] constraint_of(d.products[k]) matches Some(
                    t,
                ) && (t.0 == i || t.1 == i));
            assert(product_outcomes[k] == Ok::<(u32, u32, u32), Error>(prods[k]));
            assert(prods[k].0 == i || prods[k].1 == i);
            assert(is_operand(i, prods));
        } else {
            let k = choose|k: int|
                0 <= k < d.sums.len() && (#[trigger] constraint_of(d.sums[k]) matches Some(t) && (
                t.0 == i || t.1 == i));
            assert(sum_outcomes[k] == Ok::<(u32, u32, u32), Error>(sums[k]));
            assert(sums[k].0 == i || sums[k].1 == i);
            assert(is_operand(i, sums));
        }
        let r = d.public_wires(prods, sums);
        lemma_retained_members(d.public_wire_count as nat, prods, sums);
        assert(r.contains(i));
        let m = choose|m: int| 0 <= m < r.len() && r[m] == i;
        let outcomes = r.map_values(|i: u32| public_outcome(d.wires[i as int]));
        assert(outcomes[m] is Err);
        lemma_gather_failure(outcomes, m);
    }
}

/// The triples of the tokens `tokens`, or the failure of the first malformed
/// one.
fn parse_all(tokens: &Vec<String>) -> (r: Result<Vec<(u32, u32, u32)>, Error>)
    ensures
        match (r, parse_tokens(texts(tokens@))) {
            (Ok(v), Ok(s)) => v@ == s,
            (Err(e), Err(f)) => e == f,
            _ => false,
        },
{
    let ghost outcomes = texts(tokens@).map_values(|t: Seq<char>| token_outcome(t));
    let mut out: Vec<(u32, u32, u32)> = Vec::new();
    let mut i: usize = 0;
    assert(outcomes.take(0) =~= Seq::empty());
    while i < tokens.len()
        invariant
            i <= tokens@.len(),
            outcomes == texts(tokens@).map_values(|t: Seq<char>| token_outcome(t)),
            gather(outcomes.take(i as int)) == Ok::<Seq<(u32, u32, u32)>, Error>(out@),
        decreases tokens@.len() - i,
    {
        let parsed = parse_constraint(tokens[i].as_str());
        proof {
            assert(outcomes.take(i + 1).drop_last() =~= outcomes.take(i as int));
            assert(outcomes.take(i + 1).last() == token_outcome(tokens@[i as int]@));
        }
        match parsed {
            Ok(t) => {
                out.push(t);
            },
            Err(e) => {
                proof {
                    lemma_gather_prefix_failure(outcomes, i + 1);
                }
                return Err(e);
            },
        }
        i = i + 1;
    }
    assert(outcomes.take(tokens@.len() as int) =~= outcomes);
    Ok(out)
}

/// Whether every wire that the constraints `cs` name is below `n`.
fn all_in_range(cs: &Vec<(u32, u32, u32)>, n: u32) -> (r: bool)
    ensures
        r == in_range(cs@, n),
{
    let mut i: usize = 0;
    while i < cs.len()
        invariant
            i <= cs@.len(),
            in_range(cs@.take(i as int), n),
        decreases cs@.len() - i,
    {
        let t = cs[i];
        if t.0 >= n || t.1 >= n || t.2 >= n {
            return false;
        }
        assert forall|k: int| 0 <= k < i + 1 implies (#[trigger] cs@.take(i + 1)[k]).0 < n
            && cs@.take(i + 1)[k].1 < n && cs@.take(i + 1)[k].2 < n by {
            if k < i {
                assert(cs@.take(i as int)[k] == cs@.take(i + 1)[k]);
            }
        }
        i = i + 1;
    }
    assert(cs@.take(cs@.len() as int) =~= cs@);
    true
}

/// Whether wire `i` is the first or the second of some constraint of `cs`.
fn names_operand(cs: &Vec<(u32, u32, u32)>, i: u32) -> (r: bool)
    ensures
        r == is_operand(i, cs@),
{
    let mut k: usize = 0;
    while k < cs.len()
        invariant
            k <= cs@.len(),
            forall|j: int| 0 <= j < k ==> (#[trigger] cs@[j]).0 != i && cs@[j].1 != i,
        decreases cs@.len() - k,
    {
        let t = cs[k];
        if t.0 == i || t.1 == i {
            return true;
        }
        k = k + 1;
    }
    false
}

/// The wires below `bound` that the constraints use as an operand, by rising
/// index.
fn retained_wires(bound: u32, prods: &Vec<(u32, u32, u32)>, sums: &Vec<(u32, u32, u32)>) -> (r:
    Vec<u32>)
    ensures
        r@ == retained(bound as nat, prods@, sums@),
{
    let mut r: Vec<u32> = Vec::new();
    let mut i: u32 = 0;
    while i < bound
        invariant
            i <= bound,
            r@ == retained(i as nat, prods@, sums@),
        decreases bound - i,
    {
        if names_operand(prods, i) || names_operand(sums, i) {
            r.push(i);
        }
        i = i + 1;
    }
    r
}

impl CompatCircuitR1csJson {
    /// The verifier's circuit that is described, with its public inputs by
    /// name. The public wires are those below the public wire count that some
    /// constraint uses as an operand; each is named by the decimal numeral of
    /// its index, and its value is the field element that its numeral denotes.
    pub fn to_empty_plonk_circuit(&self) -> (r: Result<(PlonkCircuit<Scalar>, PublicValues), Error>)
        ensures
            match (r, self@.empty_circuit()) {
                (Ok((c, p)), Ok((shape, inputs))) => {
                    &&& c.shape() == shape
                    &&& c.values is None
                    &&& p.wf()
                    &&& p@ == inputs
                },
                (Err(e), Err(f)) => e == f,
                _ => false,
            },
    {
        let prods = match parse_all(&self.product_constraints) {
            Ok(v) => v,
            Err(e) => {
                return Err(e);
            },
        };
        let sums = match parse_all(&self.sum_constraints) {
            Ok(v) => v,
            Err(e) => {
                return Err(e);
            },
        };
        if self.wire_values.len() != self.wire_count as usize {
            return Err(Error::WireCountMismatch);
        }
        if !(all_in_range(&prods, self.wire_count) && all_in_range(&sums, self.wire_count)) {
            return Err(Error::WireOutOfRange);
        }
        let wires = retained_wires(self.public_wire_count, &prods, &sums);
        let ghost outcomes = wires@.map_values(|i: u32| public_outcome(self@.wires[i as int]));
        proof {
            lemma_retained_members(self.public_wire_count as nat, prods@, sums@);
            assert(outcomes.take(0) =~= Seq::empty());
        }
        let mut pub_vars: HashMap<u32, String> = HashMap::new();
        let mut entries: Vec<PublicInput> = Vec::new();
        let ghost mut values: Seq<nat> = Seq::empty();
        let mut k: usize = 0;
        while k < wires.len()
            invariant
                k <= wires@.len(),
                self.wire_values@.len() == self.wire_count,
                parse_tokens(self@.products) == Ok::<Seq<(u32, u32, u32)>, Error>(prods@),
                parse_tokens(self@.sums) == Ok::<Seq<(u32, u32, u32)>, Error>(sums@),
                wires@ == self@.public_wires(prods@, sums@),
                in_range(prods@, self.wire_count),
                in_range(sums@, self.wire_count),
                forall|i: u32| #[trigger] wires@.contains(i) ==> is_used(i, prods@, sums@),
                outcomes == wires@.map_values(|i: u32| public_outcome(self@.wires[i as int])),
                gather(outcomes.take(k as int)) == Ok::<Seq<nat>, Error>(values),
                values.len() == k,
                entries@.len() == k,
                forall|j: int|
                    0 <= j < k ==> {
                        &&& (#[trigger] entries@[j]).name@ == decimal_digits(wires@[j] as nat)
                        &&& entries@[j].value@ == values[j]
                        &&& entries@[j].value.wf()
                    },
                names_of(pub_vars) == public_names(wires@.take(k as int)),
            decreases wires@.len() - k,
        {
            let i = wires[k];
            proof {
                assert(wires@.contains(i));
                assert(is_used(i, prods@, sums@));
                assert(i < self.wire_count);
                assert(outcomes.take(k + 1).drop_last() =~= outcomes.take(k as int));
                assert(outcomes.take(k + 1).last() == public_outcome(self@.wires[i as int]));
            }
            let wire = &self.wire_values[i as usize];
            if wire.is_secret_share {
                proof {
                    lemma_gather_prefix_failure(outcomes, k + 1);
                }
                return Err(Error::SecretPublicWire);
            }
            let value = match Scalar::parse(wire.value.as_str()) {
                Some(v) => v,
                None => {
                    proof {
                        lemma_gather_prefix_failure(outcomes, k + 1);
                    }
                    return Err(Error::MalformedValue);
                },
            };
            let name = decimal_string(i);
            let ghost before = names_of(pub_vars);
            pub_vars.insert(i, name.clone());
            entries.push(PublicInput { name, value });
            proof {
                values = values.push(value@);
                let after = names_of(pub_vars);
                assert(after =~= before.insert(i, decimal_digits(i as nat)));
                let shorter = wires@.take(k as int);
                let longer = wires@.take(k + 1);
                assert(longer =~= shorter.push(i));
                assert(after =~= public_names(longer)) by {
                    assert forall|j: u32| after.contains_key(j) <==> longer.contains(j) by {
                        if shorter.contains(j) {
                            let m = choose|m: int| 0 <= m < shorter.len() && shorter[m] == j;
                            assert(longer[m] == j);
                        }
                        if longer.contains(j) {
                            let m = choose|m: int| 0 <= m < longer.len() && longer[m] == j;
                            if m < k {
                                assert(shorter[m] == j);
                            }
                        }
                        if j == i {
                            assert(longer[k as int] == i);
                        }
                    }
                }
            }
            k = k + 1;
        }
        proof {
            assert(outcomes.take(wires@.len() as int) =~= outcomes);
            assert(wires@.take(wires@.len() as int) =~= wires@);
        }
        let circuit = PlonkCircuit { n_vars: self.wire_count, pub_vars, prods, sums, values: None };
        let public = PublicValues { entries };
        proof {
            assert(public@ =~= named_values(wires@, values));
            lemma_retained_rising(self.public_wire_count as nat, prods@, sums@);
            lemma_named_values_distinct(wires@, values);
        }
        Ok((circuit, public))
    }
}

} // verus!
