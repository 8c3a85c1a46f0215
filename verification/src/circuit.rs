//! Circuits of gates: wires, product and sum constraints, the names of
//! the public wires, and a witness where there is one.

use crate::scalar::Scalar;
use std::collections::HashMap;
use vstd::prelude::*;
use vstd::set_lib::lemma_subset_equality;
use vstd::std_specs::hash::{axiom_spec_keys_iter, spec_keys_iter};
use vstd::std_specs::iter::IteratorSpec;

verus! {

broadcast use vstd::std_specs::hash::group_hash_axioms;

/// What a circuit is apart from its witness.
#[verifier::ext_equal]
pub struct Shape {
    /// The number of wires.
    pub n_vars: u32,
    /// The name of each public wire.
    pub pub_vars: Map<u32, Seq<char>>,
    /// The product constraints: for `(a, b, c)`, wire `a` times wire `b` is
    /// wire `c`.
    pub prods: Seq<(u32, u32, u32)>,
    /// The sum constraints: for `(a, b, c)`, wire `a` plus wire `b` is
    /// wire `c`.
    pub sums: Seq<(u32, u32, u32)>,
}

/// Whether every wire that the constraints `cs` name is below `n`.
pub open spec fn in_range(cs: Seq<(u32, u32, u32)>, n: u32) -> bool {
    forall|k: int| 0 <= k < cs.len() ==> (#[trigger] cs[k]).0 < n && cs[k].1 < n && cs[k].2 < n
}

impl Shape {
    /// Whether every wire that a constraint or a public name refers to
    /// exists.
    pub open spec fn wf(self) -> bool {
        &&& in_range(self.prods, self.n_vars)
        &&& in_range(self.sums, self.n_vars)
        &&& forall|i: u32| self.pub_vars.contains_key(i) ==> i < self.n_vars
    }
}

/// A circuit over wire values of type `V`. Without `values` it is the
/// verifier's circuit; with them, the prover's.
#[derive(Clone, Debug, PartialEq, Eq)]
pub struct PlonkCircuit<V> {
    /// The number of wires.
    pub n_vars: u32,
    /// The name of each public wire.
    pub pub_vars: HashMap<u32, String>,
    /// The product constraints.
    pub prods: Vec<(u32, u32, u32)>,
    /// The sum constraints.
    pub sums: Vec<(u32, u32, u32)>,
    /// The witness: one value for each wire.
    pub values: Option<Vec<V>>,
}

/// The names that `m` gives to wires, as characters.
pub open spec fn names_of(m: HashMap<u32, String>) -> Map<u32, Seq<char>> {
    m@.map_values(|name: String| name@)
}

/// Whether `a` and `b` give the same names to the same wires.
fn same_names(a: &HashMap<u32, String>, b: &HashMap<u32, String>) -> (r: bool)
    ensures
        r == (names_of(*a) == names_of(*b)),
{
    assert(names_of(*a).dom() =~= a@.dom());
    assert(names_of(*b).dom() =~= b@.dom());
    if a.len() != b.len() {
        return false;
    }
    let ghost order = spec_keys_iter(a).remaining();
    proof {
        axiom_spec_keys_iter(a);
    }
    for k in it: a.keys()
        invariant
            it.seq() == order,
            order.unref().to_set() == a@.dom(),
            names_of(*a).dom() == a@.dom(),
            names_of(*b).dom() == b@.dom(),
            forall|j: int|
                0 <= j < it.index() ==> b@.contains_key(*(#[trigger] order[j])) && b@[*order[j]]@
                    == a@[*order[j]]@,
    {
        assert(order.unref()[it.index()] == *k);
        assert(order.unref().to_set().contains(*k));
        match b.get(k) {
            Some(name) => {
                let own = a.get(k);
                if !(*name == *own.unwrap()) {
                    assert(names_of(*a)[*k] != names_of(*b)[*k]);
                    return false;
                }
            },
            None => {
                assert(names_of(*a).contains_key(*k));
                return false;
            },
        }
    }
    proof {
        assert forall|key: u32| a@.contains_key(key) implies b@.contains_key(key) && b@[key]@
            == a@[key]@ by {
            assert(order.unref().to_set().contains(key));
            let j = choose|j: int| 0 <= j < order.unref().len() && order.unref()[j] == key;
            assert(*order[j] == key);
        }
        assert(a@.dom().subset_of(b@.dom()));
        lemma_subset_equality(a@.dom(), b@.dom());
        assert(names_of(*a) =~= names_of(*b));
    }
    true
}

/// Whether `a` and `b` are the same constraints in the same order.
fn same_constraints(a: &Vec<(u32, u32, u32)>, b: &Vec<(u32, u32, u32)>) -> (r: bool)
    ensures
        r == (a@ == b@),
{
    if a.len() != b.len() {
        return false;
    }
    let mut i: usize = 0;
    while i < a.len()
        invariant
            i <= a@.len(),
            a@.len() == b@.len(),
            forall|j: int| 0 <= j < i ==> a@[j] == b@[j],
        decreases a@.len() - i,
    {
        let x = a[i];
        let y = b[i];
        if x.0 != y.0 || x.1 != y.1 || x.2 != y.2 {
            return false;
        }
        i = i + 1;
    }
    assert(a@ =~= b@);
    true
}

/// A copy of the constraints `cs`.
fn copy_constraints(cs: &Vec<(u32, u32, u32)>) -> (r: Vec<(u32, u32, u32)>)
    ensures
        r@ == cs@,
{
    let mut r: Vec<(u32, u32, u32)> = Vec::new();
    let mut i: usize = 0;
    while i < cs.len()
        invariant
            i <= cs@.len(),
            r@ == cs@.take(i as int),
        decreases cs@.len() - i,
    {
        let t = cs[i];
        r.push(t);
        i = i + 1;
        assert(r@ =~= cs@.take(i as int));
    }
    assert(cs@.take(cs@.len() as int) =~= cs@);
    r
}

impl<V> PlonkCircuit<V> {
    /// The circuit apart from its witness.
    pub open spec fn shape(&self) -> Shape {
        Shape {
            n_vars: self.n_vars,
            pub_vars: names_of(self.pub_vars),
            prods: self.prods@,
            sums: self.sums@,
        }
    }

    /// Whether the two circuits are the same apart from their witnesses:
    /// the same number of wires, the same names for the same public wires,
    /// and the same constraints in the same order.
    pub fn same_shape<W>(&self, other: &PlonkCircuit<W>) -> (r: bool)
        ensures
            r == (self.shape() == other.shape()),
    {
        let r = self.n_vars == other.n_vars && same_names(&self.pub_vars, &other.pub_vars)
            && same_constraints(&self.prods, &other.prods) && same_constraints(
            &self.sums,
            &other.sums,
        );
        assert(r ==> self.shape() =~= other.shape());
        r
    }

    /// Whether the two circuits have the same names for the same public
    /// wires and the same constraints in the same order, whatever their
    /// numbers of wires and their witnesses.
    pub fn same_shape_but_wires<W>(&self, other: &PlonkCircuit<W>) -> (r: bool)
        ensures
            r == (self.shape().pub_vars == other.shape().pub_vars && self.shape().prods
                == other.shape().prods && self.shape().sums == other.shape().sums),
    {
        same_names(&self.pub_vars, &other.pub_vars) && same_constraints(&self.prods, &other.prods)
            && same_constraints(&self.sums, &other.sums)
    }

    /// The verifier's circuit of this circuit: the same wires, public names
    /// and constraints, and no witness. It is to be taken from the prover's
    /// circuit once that one has been padded, so that the two agree on the
    /// padded shape.
    pub fn without_witness(&self) -> (r: PlonkCircuit<Scalar>)
        ensures
            r.shape() == self.shape(),
            r.values is None,
    {
        let pub_vars = self.pub_vars.clone();
        let r = PlonkCircuit {
            n_vars: self.n_vars,
            pub_vars,
            prods: copy_constraints(&self.prods),
            sums: copy_constraints(&self.sums),
            values: None,
        };
        assert(r.shape().pub_vars =~= self.shape().pub_vars);
        r
    }
}

} // verus!
