use plonk_compat::circuit::PlonkCircuit;
use plonk_compat::error::{Error, ErrorKind};
use plonk_compat::padding::accept_padding;
use plonk_compat::scalar::Scalar;
use plonk_compat::session::{Action, Event, Mode, Session, Stage};
use plonk_compat::witness::SharedValue;
use std::collections::HashMap;

fn wire_names(pairs: &[(u32, &str)]) -> HashMap<u32, String> {
    pairs.iter().map(|(i, name)| (*i, name.to_string())).collect()
}

fn circuit(values: Option<Vec<Scalar>>) -> PlonkCircuit<Scalar> {
    PlonkCircuit {
        n_vars: 4,
        pub_vars: wire_names(&[(0, "0"), (3, "3")]),
        prods: vec![(0, 1, 2)],
        sums: vec![(0, 2, 3)],
        values,
    }
}

fn witness() -> Vec<Scalar> {
    vec![Scalar::from_u64(2), Scalar::from_u64(3), Scalar::from_u64(6), Scalar::from_u64(8)]
}

#[test]
fn padding_to_the_next_power_of_two_is_accepted() {
    let before = circuit(Some(witness()));
    let mut after = circuit(Some(witness()));
    after.n_vars = 5;
    after.sums.push((4, 4, 4));
    after.values.as_mut().unwrap().push(Scalar::from_u64(0));
    let (verifier, prover) = accept_padding(&before, 3, after.clone(), 4).unwrap();
    assert_eq!(prover, after);
    assert_eq!(verifier.n_vars, 5);
    assert_eq!(verifier.pub_vars, after.pub_vars);
    assert_eq!(verifier.prods, after.prods);
    assert_eq!(verifier.sums, after.sums);
    assert_eq!(verifier.values, None);
}

#[test]
fn circuit_of_a_power_of_two_of_gates_is_its_own_padding() {
    let before = circuit(Some(witness()));
    for gates in [1usize, 2, 4, 8, 1024] {
        let (verifier, prover) = accept_padding(&before, gates, before.clone(), gates).unwrap();
        assert_eq!(prover, before);
        assert_eq!(verifier, circuit(None));
    }
}

#[test]
fn padding_of_a_power_of_two_of_gates_must_change_nothing() {
    let before = circuit(Some(witness()));
    let mut more_sums = before.clone();
    more_sums.sums.push((0, 0, 0));
    assert_eq!(accept_padding(&before, 4, more_sums, 4), Err(Error::BadPadding));
    let mut other_product = before.clone();
    other_product.prods[0] = (1, 0, 2);
    assert_eq!(accept_padding(&before, 4, other_product, 4), Err(Error::BadPadding));
    let mut no_products = before.clone();
    no_products.prods.clear();
    assert_eq!(accept_padding(&before, 4, no_products, 4), Err(Error::BadPadding));
    let mut other_name = before.clone();
    other_name.pub_vars.insert(3, "out".to_string());
    assert_eq!(accept_padding(&before, 4, other_name, 4), Err(Error::BadPadding));
    let mut other_wire = before.clone();
    other_wire.pub_vars.remove(&3);
    other_wire.pub_vars.insert(2, "3".to_string());
    assert_eq!(accept_padding(&before, 4, other_wire, 4), Err(Error::BadPadding));
    let mut fewer_names = before.clone();
    fewer_names.pub_vars.remove(&3);
    assert_eq!(accept_padding(&before, 4, fewer_names, 4), Err(Error::BadPadding));
    let mut more_names = before.clone();
    more_names.pub_vars.insert(1, "1".to_string());
    assert_eq!(accept_padding(&before, 4, more_names, 4), Err(Error::BadPadding));
}

#[test]
fn padding_of_a_power_of_two_of_gates_may_change_the_wires() {
    let before = circuit(Some(witness()));
    let mut after = before.clone();
    after.n_vars = 5;
    after.values.as_mut().unwrap().push(Scalar::from_u64(0));
    let (verifier, prover) = accept_padding(&before, 4, after.clone(), 4).unwrap();
    assert_eq!(prover, after);
    assert_eq!(verifier.n_vars, 5);
}

#[test]
fn padding_to_another_number_of_gates_is_refused() {
    let before = circuit(Some(witness()));
    for (gates_before, gates_after) in
        [(3usize, 3usize), (3, 8), (3, 2), (4, 8), (5, 4), (5, 16), (0, 0), (0, 2), (6, 6)]
    {
        let r = accept_padding(&before, gates_before, before.clone(), gates_after);
        assert_eq!(r, Err(Error::BadPadding));
        assert_eq!(r.unwrap_err().kind(), ErrorKind::ProtocolViolation);
    }
    assert!(accept_padding(&before, 0, before.clone(), 1).is_ok());
    assert!(accept_padding(&before, 5, before.clone(), 8).is_ok());
}

#[test]
fn padding_that_cannot_be_counted_is_refused() {
    let before = circuit(Some(witness()));
    assert_eq!(
        accept_padding(&before, usize::MAX, before.clone(), usize::MAX),
        Err(Error::BadPadding)
    );
}

#[test]
fn padded_circuit_of_several_parties_gives_a_plain_verifier_circuit() {
    let before = circuit(Some(witness()));
    let after = PlonkCircuit {
        n_vars: 4,
        pub_vars: wire_names(&[(0, "0"), (3, "3")]),
        prods: vec![(0, 1, 2), (1, 1, 1)],
        sums: vec![(0, 2, 3), (1, 1, 1)],
        values: Some(vec![
            SharedValue::Public(Scalar::from_u64(2)),
            SharedValue::AdditiveShare(Scalar::from_u64(0)),
            SharedValue::AdditiveShare(Scalar::from_u64(0)),
            SharedValue::Public(Scalar::from_u64(2)),
        ]),
    };
    let (verifier, prover) = accept_padding(&before, 3, after.clone(), 4).unwrap();
    assert_eq!(prover, after);
    assert!(verifier.same_shape(&prover));
    assert_eq!(verifier.values, None);
}

#[test]
fn circuits_of_one_shape() {
    let a = circuit(Some(witness()));
    let b = circuit(None);
    assert!(a.same_shape(&b));
    assert!(b.same_shape(&a));
    assert!(a.same_shape(&a));
    assert!(a.same_shape_but_wires(&b));
    let empty: PlonkCircuit<SharedValue> = PlonkCircuit {
        n_vars: 0,
        pub_vars: HashMap::new(),
        prods: vec![],
        sums: vec![],
        values: None,
    };
    assert!(empty.same_shape(&empty));
    assert!(!empty.same_shape(&a));
}

#[test]
fn circuits_of_different_shapes() {
    let a = circuit(Some(witness()));
    let mut b = circuit(None);
    b.n_vars = 5;
    assert!(!a.same_shape(&b));
    assert!(a.same_shape_but_wires(&b));
    let mut b = circuit(None);
    b.prods.push((0, 0, 0));
    assert!(!a.same_shape(&b));
    assert!(!a.same_shape_but_wires(&b));
    let mut b = circuit(None);
    b.sums[0] = (0, 2, 2);
    assert!(!a.same_shape(&b));
    let mut b = circuit(None);
    b.prods = vec![];
    b.sums = vec![(0, 1, 2), (0, 2, 3)];
    assert!(!a.same_shape(&b));
    let mut b = circuit(None);
    b.pub_vars = wire_names(&[(0, "0"), (3, "03")]);
    assert!(!a.same_shape(&b));
    assert!(!b.same_shape(&a));
    let mut b = circuit(None);
    b.pub_vars = wire_names(&[(0, "0"), (2, "3")]);
    assert!(!a.same_shape(&b));
    assert!(!b.same_shape(&a));
    let mut b = circuit(None);
    b.pub_vars = wire_names(&[(0, "0")]);
    assert!(!a.same_shape(&b));
    assert!(!b.same_shape(&a));
    let mut b = circuit(None);
    b.pub_vars = wire_names(&[(0, "0"), (3, "3"), (1, "1")]);
    assert!(!a.same_shape(&b));
    assert!(!b.same_shape(&a));
}

#[test]
fn session_over_circuits_of_one_shape_begins() {
    let prover = circuit(Some(witness()));
    let verifier = prover.without_witness();
    let mut s = Session::for_circuits(Mode::SingleParty, &verifier, &prover, 4);
    assert_eq!(s, Session::new(Mode::SingleParty, 4));
    assert_eq!(s.step(Event::Start), Action::UniversalSetup { max_gates: 4 });
}

#[test]
fn session_over_circuits_of_different_shapes_is_rejected() {
    let prover = circuit(Some(witness()));
    let mut verifier = prover.without_witness();
    verifier.pub_vars.remove(&3);
    for mode in [Mode::SingleParty, Mode::MultiParty] {
        let mut s = Session::for_circuits(mode, &verifier, &prover, 4);
        assert_eq!(s.stage, Stage::Rejected);
        assert_eq!(s.outcome(), Some(Ok(false)));
        assert_eq!(s.step(Event::Start), Action::Finish { accepted: false });
        assert_eq!(s.outcome(), Some(Ok(false)));
    }
    let mut unpadded = prover.without_witness();
    unpadded.sums.pop();
    let s = Session::for_circuits(Mode::MultiParty, &unpadded, &prover, 4);
    assert_eq!(s.outcome(), Some(Ok(false)));
}
