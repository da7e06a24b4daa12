use plonk_composer::{LookupTable, Scalar, TurboComposer};

#[test]
fn multi_mul_table_resolves_products() {
    let mut t = LookupTable::new();
    t.insert_multi_mul(0, 3);
    let out = t.lookup(Scalar::from_u64(2), Scalar::from_u64(3), Scalar::one());
    assert_eq!(out, Some(Scalar::from_u64(6)));
}

#[test]
fn lookup_of_absent_tuple_is_none() {
    let mut t = LookupTable::new();
    t.insert_multi_mul(0, 3);
    let absent = t.lookup(Scalar::from_u64(9), Scalar::from_u64(9), Scalar::one());
    assert_eq!(absent, None);
    let wrong_key = t.lookup(Scalar::from_u64(2), Scalar::from_u64(3), Scalar::zero());
    assert_eq!(wrong_key, None);
}

#[test]
fn special_rows_resolve_in_order() {
    let mut t = LookupTable::new();
    t.insert_special_row(
        Scalar::from_u64(12),
        Scalar::from_u64(12),
        Scalar::from_u64(12),
        Scalar::from_u64(12),
    );
    t.insert_special_row(
        Scalar::from_u64(3),
        Scalar::from_u64(0),
        Scalar::from_u64(12),
        Scalar::from_u64(341),
    );
    let out = t.lookup(Scalar::from_u64(3), Scalar::zero(), Scalar::from_u64(12));
    assert_eq!(out, Some(Scalar::from_u64(341)));
}

#[test]
fn fresh_composer_has_three_lookup_rows() {
    let composer = TurboComposer::new();
    assert_eq!(composer.lookup_table.rows.len(), 3);
}

#[test]
fn plonkup_gates_against_a_multiplication_table() {
    let mut composer = TurboComposer::new();
    composer.lookup_table.insert_multi_mul(0, 3);

    let output = composer.lookup_table.lookup(
        Scalar::from_u64(2),
        Scalar::from_u64(3),
        Scalar::one(),
    );

    let two = composer.append_constant(Scalar::from_u64(2));
    let three = composer.append_constant(Scalar::from_u64(3));
    let result = composer.append_constant(output.unwrap());
    let one = composer.append_constant(Scalar::one());

    let returned = composer.append_plonkup_gate(two, three, result, one, None);
    assert_eq!(returned, result);
    assert_eq!(composer.evaluate_witness(&result), Scalar::from_u64(6));
    assert_eq!(composer.check_circuit_satisfied(), None);
}

#[test]
fn dense_public_inputs_reproduce_the_sparse_entries() {
    let mut composer = TurboComposer::new();
    let w = composer.append_witness(Scalar::from_u64(5));
    // The row forces w == 7 - 2, with 2 arriving as a public input.
    composer.assert_equal_constant(w, Scalar::from_u64(7), Some(Scalar::from_u64(2)));
    let x = composer.append_witness(Scalar::from_u64(30));
    composer.assert_equal_constant(x, Scalar::from_u64(33), Some(Scalar::from_u64(3)));

    let indexes = composer.public_input_indexes();
    assert_eq!(indexes, vec![3, 4]);

    let dense = composer.to_dense_public_inputs();
    assert_eq!(dense.len(), composer.gates() as usize);
    for (i, value) in dense.iter().enumerate() {
        if i == 3 {
            assert_eq!(*value, Scalar::from_u64(2));
        } else if i == 4 {
            assert_eq!(*value, Scalar::from_u64(3));
        } else {
            assert_eq!(*value, Scalar::zero());
        }
    }
    assert_eq!(composer.check_circuit_satisfied(), None);
}

#[test]
fn plonkup_gate_records_its_public_input() {
    let mut composer = TurboComposer::new();
    let a = composer.append_witness(Scalar::from_u64(1));
    let b = composer.append_witness(Scalar::from_u64(2));
    let c = composer.append_witness(Scalar::from_u64(3));
    let d = composer.append_witness(Scalar::from_u64(4));
    composer.append_plonkup_gate(a, b, c, d, Some(Scalar::from_u64(11)));
    assert_eq!(composer.public_input_indexes(), vec![3]);
    assert_eq!(composer.to_dense_public_inputs()[3], Scalar::from_u64(11));
}

#[test]
fn plonkup_gate_ignores_a_zero_public_input() {
    let mut composer = TurboComposer::new();
    let a = composer.append_witness(Scalar::from_u64(1));
    let b = composer.append_witness(Scalar::from_u64(2));
    let c = composer.append_witness(Scalar::from_u64(3));
    let d = composer.append_witness(Scalar::from_u64(4));
    composer.append_plonkup_gate(a, b, c, d, Some(Scalar::zero()));
    // A zero value is no public input: no row is recorded for it.
    assert_eq!(composer.public_input_indexes(), Vec::<u32>::new());
}
