use plonk_composer::{Constraint, Scalar, Selector, TurboComposer, WiredWitness, Witness};

#[test]
fn test_initial_gates() {
    let composer: TurboComposer = TurboComposer::new();
    // Circuit size is n+3 because
    // - We have an extra gate which forces the first witness to be zero.
    //   This is used when the advice wire is not being used.
    // - We have two gates which ensure that the permutation polynomial is
    //   not the identity and
    // - Another gate which ensures that the selector polynomials are not
    //   all zeroes
    assert_eq!(3, composer.gates());
}

#[test]
fn test_minimal_circuit() {
    let mut composer = TurboComposer::new();
    // do nothing except add the dummy gates
    composer.append_dummy_gates();
    assert_eq!(composer.check_circuit_satisfied(), None);
}

#[test]
fn test_component_select() {
    let mut composer = TurboComposer::new();

    let bit_1 = composer.append_witness(Scalar::one());
    let bit_0 = TurboComposer::constant_zero();

    let choice_a = composer.append_witness(Scalar::from_u64(10));
    let choice_b = composer.append_witness(Scalar::from_u64(20));

    let choice = composer.component_select(bit_1, choice_a, choice_b);
    composer.assert_equal(choice, choice_a);
    assert_eq!(composer.evaluate_witness(&choice), Scalar::from_u64(10));

    let choice = composer.component_select(bit_0, choice_a, choice_b);
    composer.assert_equal(choice, choice_b);
    assert_eq!(composer.evaluate_witness(&choice), Scalar::from_u64(20));

    assert_eq!(composer.check_circuit_satisfied(), None);
}

#[test]
fn select_zero_and_select_one() {
    let mut composer = TurboComposer::new();
    let bit_1 = composer.append_witness(Scalar::one());
    let bit_0 = TurboComposer::constant_zero();
    let value = composer.append_witness(Scalar::from_u64(9));

    let kept = composer.component_select_zero(bit_1, value);
    assert_eq!(composer.evaluate_witness(&kept), Scalar::from_u64(9));
    let cleared = composer.component_select_zero(bit_0, value);
    assert_eq!(composer.evaluate_witness(&cleared), Scalar::zero());

    let kept = composer.component_select_one(bit_1, value);
    assert_eq!(composer.evaluate_witness(&kept), Scalar::from_u64(9));
    let raised = composer.component_select_one(bit_0, value);
    assert_eq!(composer.evaluate_witness(&raised), Scalar::one());

    assert_eq!(composer.check_circuit_satisfied(), None);
}

#[test]
fn gate_add_and_gate_mul_values() {
    let mut composer = TurboComposer::new();
    let two = composer.append_witness(Scalar::from_u64(2));
    let three = composer.append_witness(Scalar::from_u64(3));

    let sum = composer.gate_add(
        Constraint::new().left(Scalar::one()).right(Scalar::one()).a(two).b(three),
    );
    assert_eq!(composer.evaluate_witness(&sum), Scalar::from_u64(5));

    let product = composer.gate_mul(Constraint::new().mult(Scalar::one()).a(two).b(three));
    assert_eq!(composer.evaluate_witness(&product), Scalar::from_u64(6));

    assert_eq!(composer.check_circuit_satisfied(), None);
}

#[test]
fn unequal_witnesses_fail_the_identity() {
    let mut composer = TurboComposer::new();
    let two = composer.append_witness(Scalar::from_u64(2));
    let three = composer.append_witness(Scalar::from_u64(3));
    composer.assert_equal(two, three);
    // The equality gate lands at row 3, right after the bootstrap rows.
    assert_eq!(composer.check_circuit_satisfied(), Some(3));
}

#[test]
fn append_constant_binds_the_value() {
    let mut composer = TurboComposer::new();
    let w = composer.append_constant(Scalar::from_u64(42));
    assert_eq!(composer.evaluate_witness(&w), Scalar::from_u64(42));
    assert_eq!(composer.gates(), 4);
    assert_eq!(composer.check_circuit_satisfied(), None);
}

#[test]
fn decomposition_of_five_in_four_bits() {
    let mut composer = TurboComposer::new();
    let scalar = composer.append_witness(Scalar::from_u64(5));
    let before = composer.gates();
    let bits = composer.component_decomposition(scalar, 4);
    assert_eq!(composer.gates(), before + 2 * 4 + 1);
    assert_eq!(bits.len(), 4);
    let values: Vec<Scalar> = bits.iter().map(|b| composer.evaluate_witness(b)).collect();
    assert_eq!(
        values,
        vec![Scalar::one(), Scalar::zero(), Scalar::one(), Scalar::zero()],
    );
    assert_eq!(composer.check_circuit_satisfied(), None);
}

#[test]
fn decomposition_too_narrow_fails_the_identity() {
    let mut composer = TurboComposer::new();
    let scalar = composer.append_witness(Scalar::from_u64(5));
    let bits = composer.component_decomposition(scalar, 2);
    assert_eq!(bits.len(), 2);
    // Five does not fit in two bits, so the final equality row fails.
    assert!(composer.check_circuit_satisfied().is_some());
}

#[test]
fn test_gadget() {
    let mut t = plonk_composer::LookupTable::new();
    t.insert_special_row(
        Scalar::from_u64(12),
        Scalar::from_u64(12),
        Scalar::from_u64(12),
        Scalar::from_u64(12),
    );
    t.insert_special_row(
        Scalar::from_u64(3),
        Scalar::from_u64(0),
        Scalar::from_u64(12),
        Scalar::from_u64(341),
    );
    t.insert_special_row(
        Scalar::from_u64(341),
        Scalar::from_u64(341),
        Scalar::from_u64(10),
        Scalar::from_u64(10),
    );
    let mut composer = TurboComposer::new();
    composer.append_plonkup_table(&t);
    assert_eq!(composer.lookup_table.rows.len(), 6);

    let bit_1 = composer.append_witness(Scalar::one());
    let bit_0 = TurboComposer::constant_zero();

    let choice_a = composer.append_witness(Scalar::from_u64(10));
    let choice_b = composer.append_witness(Scalar::from_u64(20));

    let choice = composer.component_select(bit_1, choice_a, choice_b);
    composer.assert_equal(choice, choice_a);

    let choice = composer.component_select(bit_0, choice_a, choice_b);
    composer.assert_equal(choice, choice_b);

    assert_eq!(composer.check_circuit_satisfied(), None);
}

#[test]
fn constraint_builder_and_getters() {
    let c = Constraint::new()
        .left(Scalar::one())
        .right(Scalar::from_u64(2))
        .fourth(Scalar::from_u64(3))
        .d(Witness::new(7))
        .a(Witness::new(5));
    assert_eq!(c.coeff(Selector::Left), Scalar::one());
    assert_eq!(c.coeff(Selector::Right), Scalar::from_u64(2));
    assert_eq!(c.coeff(Selector::Fourth), Scalar::from_u64(3));
    assert_eq!(c.coeff(Selector::Multiplication), Scalar::zero());
    assert_eq!(c.witness(WiredWitness::A), Witness::new(5));
    assert_eq!(c.witness(WiredWitness::D), Witness::new(7));
    assert_eq!(c.witness(WiredWitness::B), Witness::new(0));
}
