//! The circuit builder: selector rows, wire rows, witness arena, sparse
//! public inputs, permutation bookkeeping and the lookup table, all grown in
//! lockstep one gate at a time.

use vstd::prelude::*;
use crate::scalar::{Scalar, field_order, all_canon};
use crate::constraint::{Constraint, Witness};
use crate::permutation::{Permutation, WireData, no_dup};
use crate::lookup::LookupTable;

verus! {

/// Whether a sparse public-input store holds an entry for row `r`.
pub open spec fn pi_store_has(s: Seq<(u32, Scalar)>, r: int) -> bool {
    exists|k: int| 0 <= k < s.len() && s[k].0 as int == r
}

/// The public-input value at row `r`: the stored entry, or zero where none
/// is recorded.
pub open spec fn pi_store_val(s: Seq<(u32, Scalar)>, r: int) -> nat {
    if pi_store_has(s, r) {
        s[choose|k: int| 0 <= k < s.len() && s[k].0 as int == r].1.value()
    } else {
        0
    }
}

/// The store's rows are strictly increasing: at most one entry per row.
pub open spec fn pi_keys_increasing(s: Seq<(u32, Scalar)>) -> bool {
    forall|k1: int, k2: int| 0 <= k1 < k2 < s.len() ==> s[k1].0 < s[k2].0
}

/// In a store with strictly increasing rows, the entry at position `k` is
/// the one and only entry for its row.
pub proof fn lemma_pi_store_at(s: Seq<(u32, Scalar)>, k: int, r: int)
    requires
        pi_keys_increasing(s),
        0 <= k < s.len(),
        s[k].0 as int == r,
    ensures
        pi_store_has(s, r),
        pi_store_val(s, r) == s[k].1.value(),
{
    assert(pi_store_has(s, r));
    let k2 = choose|k2: int| 0 <= k2 < s.len() && s[k2].0 as int == r;
    if k < k2 {
        assert(s[k].0 < s[k2].0);
    } else if k2 < k {
        assert(s[k2].0 < s[k].0);
    }
}

/// The circuit builder. Each row `i < n` owns one coefficient in every
/// selector column and one witness handle in every wire column; witness
/// values live in a dense arena indexed by the handles.
#[derive(Debug)]
pub struct TurboComposer {
    /// Number of gate rows.
    pub n: u32,
    /// Multiplication selector.
    pub q_m: Vec<Scalar>,
    /// Left wire selector.
    pub q_l: Vec<Scalar>,
    /// Right wire selector.
    pub q_r: Vec<Scalar>,
    /// Output wire selector.
    pub q_o: Vec<Scalar>,
    /// Fourth wire selector.
    pub q_4: Vec<Scalar>,
    /// Constant selector.
    pub q_c: Vec<Scalar>,
    /// Arithmetic toggle selector.
    pub q_arith: Vec<Scalar>,
    /// Range toggle selector.
    pub q_range: Vec<Scalar>,
    /// Logic toggle selector.
    pub q_logic: Vec<Scalar>,
    /// Fixed-base group-addition toggle selector.
    pub q_fixed_group_add: Vec<Scalar>,
    /// Variable-base group-addition toggle selector.
    pub q_variable_group_add: Vec<Scalar>,
    /// Lookup toggle selector.
    pub q_lookup: Vec<Scalar>,
    /// Sparse public inputs: `(row, value)` pairs with strictly increasing
    /// rows.
    pub public_inputs_sparse_store: Vec<(u32, Scalar)>,
    /// Left wire witnesses.
    pub w_l: Vec<Witness>,
    /// Right wire witnesses.
    pub w_r: Vec<Witness>,
    /// Output wire witnesses.
    pub w_o: Vec<Witness>,
    /// Fourth wire witnesses.
    pub w_4: Vec<Witness>,
    /// The lookup table plonkup gates are checked against.
    pub lookup_table: LookupTable,
    /// The witness value arena: the value of witness `w` is `witnesses[w]`.
    pub witnesses: Vec<Scalar>,
    /// Per-witness wire-position occurrence lists.
    pub perm: Permutation,
}

impl TurboComposer {
    /// The witness bound to a wire position.
    pub open spec fn wire_at(self, x: WireData) -> Witness {
        match x {
            WireData::Left(r) => self.w_l@[r as int],
            WireData::Right(r) => self.w_r@[r as int],
            WireData::Output(r) => self.w_o@[r as int],
            WireData::Fourth(r) => self.w_4@[r as int],
        }
    }

    /// The public-input value carried by row `r`.
    pub open spec fn pi_val(self, r: int) -> nat {
        pi_store_val(self.public_inputs_sparse_store@, r)
    }

    /// All four wire handles of row `r` point into the witness arena.
    pub open spec fn wires_ok(self, r: int) -> bool {
        &&& self.w_l@[r].index < self.witnesses@.len()
        &&& self.w_r@[r].index < self.witnesses@.len()
        &&& self.w_o@[r].index < self.witnesses@.len()
        &&& self.w_4@[r].index < self.witnesses@.len()
    }

    /// Witness `w` is the one bound at wire position `x` of the circuit.
    pub open spec fn owns_site(self, w: int, x: WireData) -> bool {
        x.row() < self.n && self.wire_at(x).index == w
    }

    /// Structural soundness of the builder: all sixteen columns have length
    /// `n`; every stored scalar is canonical; every wire handle points into
    /// the arena; the arena and the permutation track the same witnesses;
    /// public-input rows are strictly increasing and lie in the circuit; and
    /// the occurrence list of witness `w` holds exactly the wire positions
    /// bound to `w`, each once.
    pub open spec fn wf(self) -> bool {
        &&& self.q_m@.len() == self.n
        &&& self.q_l@.len() == self.n
        &&& self.q_r@.len() == self.n
        &&& self.q_o@.len() == self.n
        &&& self.q_4@.len() == self.n
        &&& self.q_c@.len() == self.n
        &&& self.q_arith@.len() == self.n
        &&& self.q_range@.len() == self.n
        &&& self.q_logic@.len() == self.n
        &&& self.q_fixed_group_add@.len() == self.n
        &&& self.q_variable_group_add@.len() == self.n
        &&& self.q_lookup@.len() == self.n
        &&& self.w_l@.len() == self.n
        &&& self.w_r@.len() == self.n
        &&& self.w_o@.len() == self.n
        &&& self.w_4@.len() == self.n
        &&& all_canon(self.q_m@) && all_canon(self.q_l@) && all_canon(self.q_r@)
        &&& all_canon(self.q_o@) && all_canon(self.q_4@) && all_canon(self.q_c@)
        &&& all_canon(self.q_arith@) && all_canon(self.q_range@) && all_canon(self.q_logic@)
        &&& all_canon(self.q_fixed_group_add@) && all_canon(self.q_variable_group_add@)
        &&& all_canon(self.q_lookup@)
        &&& all_canon(self.witnesses@)
        &&& self.lookup_table.canon()
        &&& forall|k: int| 0 <= k < self.public_inputs_sparse_store@.len() ==>
                (#[trigger] self.public_inputs_sparse_store@[k]).1.canon()
                && self.public_inputs_sparse_store@[k].0 < self.n
        &&& pi_keys_increasing(self.public_inputs_sparse_store@)
        &&& forall|r: int| 0 <= r < self.n ==> self.wires_ok(r)
        &&& self.perm.variable_map@.len() == self.witnesses@.len()
        &&& forall|w: int, x: WireData|
                #![trigger self.perm.occurs(w, x)]
                #![trigger self.owns_site(w, x)]
                0 <= w < self.witnesses@.len() ==>
                    (self.perm.occurs(w, x) <==> self.owns_site(w, x))
        &&& forall|w: int| 0 <= w < self.witnesses@.len() ==>
                no_dup((#[trigger] self.perm.variable_map@[w])@)
    }

    /// The handle of the reserved witness that is permanently bound to zero.
    pub fn constant_zero() -> (r: Witness)
        ensures
            r.index == 0,
    {
        Witness::new(0)
    }

    /// The number of gate rows in the circuit.
    pub fn gates(&self) -> (r: u32)
        ensures
            r == self.n,
    {
        self.n
    }

    /// Reads the value currently assigned to a witness, outside the
    /// constraint system.
    ///
    /// This is a debugging affordance only: nothing ties the value read here
    /// to any gate, so building circuit logic on it can make the circuit
    /// description and the assignment disagree without any local symptom.
    /// Gadgets never call it.
    pub fn evaluate_witness(&self, witness: &Witness) -> (r: Scalar)
        requires
            witness.index < self.witnesses@.len(),
        ensures
            r == self.wit_sc(*witness),
    {
        self.witnesses[witness.index]
    }

    /// Allocates a fresh witness handle, records `scalar` as its value, and
    /// returns it. No constraint is added: the value is merely assigned.
    pub fn append_witness(&mut self, scalar: Scalar) -> (r: Witness)
        requires
            old(self).wf(),
            scalar.canon(),
        ensures
            final(self).wf(),
            r.index == old(self).witnesses@.len(),
            final(self).witnesses@ == old(self).witnesses@.push(scalar),
            final(self).n == old(self).n,
            final(self).q_m@ == old(self).q_m@,
            final(self).q_l@ == old(self).q_l@,
            final(self).q_r@ == old(self).q_r@,
            final(self).q_o@ == old(self).q_o@,
            final(self).q_4@ == old(self).q_4@,
            final(self).q_c@ == old(self).q_c@,
            final(self).q_arith@ == old(self).q_arith@,
            final(self).q_range@ == old(self).q_range@,
            final(self).q_logic@ == old(self).q_logic@,
            final(self).q_fixed_group_add@ == old(self).q_fixed_group_add@,
            final(self).q_variable_group_add@ == old(self).q_variable_group_add@,
            final(self).q_lookup@ == old(self).q_lookup@,
            final(self).w_l@ == old(self).w_l@,
            final(self).w_r@ == old(self).w_r@,
            final(self).w_o@ == old(self).w_o@,
            final(self).w_4@ == old(self).w_4@,
            final(self).public_inputs_sparse_store@ == old(self).public_inputs_sparse_store@,
            final(self).lookup_table == old(self).lookup_table,
            forall|i: int| 0 <= i < old(self).n ==>
                (final(self).gate_ok(i) <==> old(self).gate_ok(i)),
            final(self).circuit_ok() <==> old(self).circuit_ok(),
    {
        let var = self.perm.new_variable();
        self.witnesses.push(scalar);
        proof {
            assert forall|r: int| 0 <= r < self.n implies self.wires_ok(r) by {
                assert(old(self).wires_ok(r));
            }
            assert forall|w: int, x: WireData|
                #![trigger self.perm.occurs(w, x)]
                #![trigger self.owns_site(w, x)]
                0 <= w < self.witnesses@.len() implies
                (self.perm.occurs(w, x) <==> self.owns_site(w, x)) by {
                if w < old(self).witnesses@.len() {
                    assert(self.perm.variable_map@[w] == old(self).perm.variable_map@[w]);
                    assert(old(self).perm.occurs(w, x) <==> old(self).owns_site(w, x));
                } else {
                    assert(self.perm.variable_map@[w]@ == Seq::<WireData>::empty());
                    assert(!self.perm.occurs(w, x));
                    if x.row() < self.n {
                        assert(old(self).wires_ok(x.row() as int));
                        assert(self.wire_at(x).index < old(self).witnesses@.len());
                        assert(!self.owns_site(w, x));
                    }
                }
            }
            assert forall|w: int| 0 <= w < self.witnesses@.len() implies
                no_dup((#[trigger] self.perm.variable_map@[w])@) by {
                if w < old(self).witnesses@.len() {
                    assert(self.perm.variable_map@[w] == old(self).perm.variable_map@[w]);
                    assert(no_dup(old(self).perm.variable_map@[w]@));
                } else {
                    assert(self.perm.variable_map@[w]@ == Seq::<WireData>::empty());
                }
            }
            assert forall|i: int| 0 <= i < old(self).n implies
                (self.gate_ok(i) <==> old(self).gate_ok(i)) by {
                reveal(TurboComposer::arith_eval);
                assert(old(self).wires_ok(i));
                assert(self.arith_eval(i) == old(self).arith_eval(i));
            }
        }
        var
    }

    /// Appends one gate row described by `s`: pushes its thirteen selector
    /// coefficients and four wire bindings, records a public-input entry at
    /// the new row exactly when the constraint carries a nonzero
    /// public-input term, and registers the four wire positions with the
    /// permutation — atomically, as one row.
    pub fn append_gate(&mut self, s: Constraint)
        requires
            old(self).wf(),
            s.canon(),
            s.wires_below(old(self).witnesses@.len() as nat),
            old(self).n < u32::MAX,
        ensures
            final(self).wf(),
            final(self).n == old(self).n + 1,
            final(self).q_m@ == old(self).q_m@.push(s.q_m),
            final(self).q_l@ == old(self).q_l@.push(s.q_l),
            final(self).q_r@ == old(self).q_r@.push(s.q_r),
            final(self).q_o@ == old(self).q_o@.push(s.q_o),
            final(self).q_4@ == old(self).q_4@.push(s.q_4),
            final(self).q_c@ == old(self).q_c@.push(s.q_c),
            final(self).q_arith@ == old(self).q_arith@.push(s.q_arith),
            final(self).q_range@ == old(self).q_range@.push(s.q_range),
            final(self).q_logic@ == old(self).q_logic@.push(s.q_logic),
            final(self).q_fixed_group_add@
                == old(self).q_fixed_group_add@.push(s.q_fixed_group_add),
            final(self).q_variable_group_add@
                == old(self).q_variable_group_add@.push(s.q_variable_group_add),
            final(self).q_lookup@ == old(self).q_lookup@.push(s.q_lookup),
            final(self).w_l@ == old(self).w_l@.push(s.w_a),
            final(self).w_r@ == old(self).w_r@.push(s.w_b),
            final(self).w_o@ == old(self).w_o@.push(s.w_o),
            final(self).w_4@ == old(self).w_4@.push(s.w_d),
            final(self).witnesses@ == old(self).witnesses@,
            final(self).lookup_table == old(self).lookup_table,
            final(self).public_inputs_sparse_store@ == if s.pi.value() != 0 {
                old(self).public_inputs_sparse_store@.push((old(self).n, s.pi))
            } else {
                old(self).public_inputs_sparse_store@
            },
            forall|i: int| 0 <= i < old(self).n ==>
                (final(self).gate_ok(i) <==> old(self).gate_ok(i)),
            final(self).gate_ok(old(self).n as int) <==> (s.q_logic.value() == 0
                && s.q_range.value() == 0 && old(self).constraint_eval(s) == 0),
            final(self).circuit_ok() <==> (old(self).circuit_ok()
                && final(self).gate_ok(old(self).n as int)),
    {
        let n_now = self.n;
        self.w_l.push(s.w_a);
        self.w_r.push(s.w_b);
        self.w_o.push(s.w_o);
        self.w_4.push(s.w_d);
        self.q_m.push(s.q_m);
        self.q_l.push(s.q_l);
        self.q_r.push(s.q_r);
        self.q_o.push(s.q_o);
        self.q_4.push(s.q_4);
        self.q_c.push(s.q_c);
        self.q_arith.push(s.q_arith);
        self.q_range.push(s.q_range);
        self.q_logic.push(s.q_logic);
        self.q_fixed_group_add.push(s.q_fixed_group_add);
        self.q_variable_group_add.push(s.q_variable_group_add);
        self.q_lookup.push(s.q_lookup);
        let z = Scalar::zero();
        proof {
            crate::scalar::lemma_value_faithful(s.pi, z);
        }
        if !(s.pi == z) {
            self.public_inputs_sparse_store.push((n_now, s.pi));
        }
        self.perm.add_variables_to_map(s.w_a, s.w_b, s.w_o, s.w_d, n_now as usize);
        self.n = self.n + 1;
        proof {
            self.lemma_append_gate_wf(*old(self), s);
            self.lemma_append_gate_rows(*old(self), s);
        }
    }

    /// The well-formedness part of `append_gate`'s postcondition.
    proof fn lemma_append_gate_wf(self, prev: TurboComposer, s: Constraint)
        requires
            prev.wf(),
            s.canon(),
            s.wires_below(prev.witnesses@.len() as nat),
            prev.n < u32::MAX,
            self.n == prev.n + 1,
            self.q_m@ == prev.q_m@.push(s.q_m),
            self.q_l@ == prev.q_l@.push(s.q_l),
            self.q_r@ == prev.q_r@.push(s.q_r),
            self.q_o@ == prev.q_o@.push(s.q_o),
            self.q_4@ == prev.q_4@.push(s.q_4),
            self.q_c@ == prev.q_c@.push(s.q_c),
            self.q_arith@ == prev.q_arith@.push(s.q_arith),
            self.q_range@ == prev.q_range@.push(s.q_range),
            self.q_logic@ == prev.q_logic@.push(s.q_logic),
            self.q_fixed_group_add@ == prev.q_fixed_group_add@.push(s.q_fixed_group_add),
            self.q_variable_group_add@
                == prev.q_variable_group_add@.push(s.q_variable_group_add),
            self.q_lookup@ == prev.q_lookup@.push(s.q_lookup),
            self.w_l@ == prev.w_l@.push(s.w_a),
            self.w_r@ == prev.w_r@.push(s.w_b),
            self.w_o@ == prev.w_o@.push(s.w_o),
            self.w_4@ == prev.w_4@.push(s.w_d),
            self.witnesses@ == prev.witnesses@,
            self.lookup_table == prev.lookup_table,
            self.public_inputs_sparse_store@ == if s.pi.value() != 0 {
                prev.public_inputs_sparse_store@.push((prev.n, s.pi))
            } else {
                prev.public_inputs_sparse_store@
            },
            self.perm.variable_map@.len() == prev.perm.variable_map@.len(),
            forall|w: int, x: WireData| 0 <= w < prev.perm.variable_map@.len() ==>
                (self.perm.occurs(w, x) <==> {
                    ||| prev.perm.occurs(w, x)
                    ||| (w == s.w_a.index && x == WireData::Left(prev.n as usize))
                    ||| (w == s.w_b.index && x == WireData::Right(prev.n as usize))
                    ||| (w == s.w_o.index && x == WireData::Output(prev.n as usize))
                    ||| (w == s.w_d.index && x == WireData::Fourth(prev.n as usize))
                }),
            (forall|w: int| 0 <= w < prev.perm.variable_map@.len() ==> {
                &&& no_dup(prev.perm.variable_map@[w]@)
                &&& forall|x: WireData| prev.perm.occurs(w, x) ==> x.row() < prev.n as usize
            }) ==> forall|w: int| 0 <= w < self.perm.variable_map@.len() ==>
                no_dup(#[trigger] self.perm.variable_map@[w]@),
        ensures
            self.wf(),
    {
        assert forall|w: int| 0 <= w < prev.perm.variable_map@.len() implies {
            &&& no_dup(prev.perm.variable_map@[w]@)
            &&& forall|x: WireData| prev.perm.occurs(w, x) ==> x.row() < prev.n as usize
        } by {
            assert(no_dup(prev.perm.variable_map@[w]@));
            assert forall|x: WireData| prev.perm.occurs(w, x) implies
                x.row() < prev.n as usize by {
                assert(prev.owns_site(w, x));
            }
        }
        assert forall|r: int| 0 <= r < self.n implies self.wires_ok(r) by {
            if r < prev.n {
                assert(prev.wires_ok(r));
                assert(self.w_l@[r] == prev.w_l@[r]);
                assert(self.w_r@[r] == prev.w_r@[r]);
                assert(self.w_o@[r] == prev.w_o@[r]);
                assert(self.w_4@[r] == prev.w_4@[r]);
            } else {
                assert(self.w_l@[r] == s.w_a);
                assert(self.w_r@[r] == s.w_b);
                assert(self.w_o@[r] == s.w_o);
                assert(self.w_4@[r] == s.w_d);
            }
        }
        assert forall|w: int, x: WireData|
            #![trigger self.perm.occurs(w, x)]
            #![trigger self.owns_site(w, x)]
            0 <= w < self.witnesses@.len() implies
            (self.perm.occurs(w, x) <==> self.owns_site(w, x)) by {
            assert(prev.perm.occurs(w, x) <==> prev.owns_site(w, x));
            if x.row() < prev.n {
                assert(self.wire_at(x) == prev.wire_at(x));
            } else if x.row() == prev.n {
                assert(self.wire_at(x) == match x {
                    WireData::Left(_) => s.w_a,
                    WireData::Right(_) => s.w_b,
                    WireData::Output(_) => s.w_o,
                    WireData::Fourth(_) => s.w_d,
                });
            }
        }
    }

    /// The row-evaluation part of `append_gate`'s postcondition: old rows
    /// keep their arithmetic operand, and the new row's operand is the
    /// constraint's equation over the current assignment.
    proof fn lemma_append_gate_rows(self, prev: TurboComposer, s: Constraint)
        requires
            prev.wf(),
            self.wf(),
            prev.n < u32::MAX,
            self.n == prev.n + 1,
            self.q_m@ == prev.q_m@.push(s.q_m),
            self.q_l@ == prev.q_l@.push(s.q_l),
            self.q_r@ == prev.q_r@.push(s.q_r),
            self.q_o@ == prev.q_o@.push(s.q_o),
            self.q_4@ == prev.q_4@.push(s.q_4),
            self.q_c@ == prev.q_c@.push(s.q_c),
            self.q_arith@ == prev.q_arith@.push(s.q_arith),
            self.q_range@ == prev.q_range@.push(s.q_range),
            self.q_logic@ == prev.q_logic@.push(s.q_logic),
            self.q_lookup@ == prev.q_lookup@.push(s.q_lookup),
            self.w_l@ == prev.w_l@.push(s.w_a),
            self.w_r@ == prev.w_r@.push(s.w_b),
            self.w_o@ == prev.w_o@.push(s.w_o),
            self.w_4@ == prev.w_4@.push(s.w_d),
            self.witnesses@ == prev.witnesses@,
            self.public_inputs_sparse_store@ == if s.pi.value() != 0 {
                prev.public_inputs_sparse_store@.push((prev.n, s.pi))
            } else {
                prev.public_inputs_sparse_store@
            },
        ensures
            forall|i: int| 0 <= i < prev.n ==> (self.gate_ok(i) <==> prev.gate_ok(i)),
            self.gate_ok(prev.n as int) <==> (s.q_logic.value() == 0
                && s.q_range.value() == 0 && prev.constraint_eval(s) == 0),
            self.circuit_ok() <==> (prev.circuit_ok() && self.gate_ok(prev.n as int)),
    {
        let entry = if s.pi.value() != 0 { Some(s.pi) } else { None::<Scalar> };
        assert forall|i: int| 0 <= i < self.n implies
            self.pi_val(i) == if i < prev.n { prev.pi_val(i) } else { s.pi.value() as nat } by {
            self.lemma_pi_after_push(prev, entry, i);
        }
        assert forall|i: int| 0 <= i < prev.n implies
            (self.gate_ok(i) <==> prev.gate_ok(i)) by {
            reveal(TurboComposer::arith_eval);
            assert(prev.wires_ok(i));
            assert(self.arith_eval(i) == prev.arith_eval(i));
        }
        assert(self.arith_eval(prev.n as int) == prev.constraint_eval(s)) by {
            reveal(TurboComposer::arith_eval);
            reveal(TurboComposer::constraint_eval);
        }
    }

    /// Public-input values at old rows survive appending an entry for the
    /// new row, and the new row's value is the appended one.
    proof fn lemma_pi_after_push(self, prev: TurboComposer, entry: Option<Scalar>, i: int)
        requires
            prev.wf(),
            0 <= i <= prev.n,
            prev.n < u32::MAX,
            self.public_inputs_sparse_store@ == match entry {
                Some(p) => prev.public_inputs_sparse_store@.push((prev.n, p)),
                None => prev.public_inputs_sparse_store@,
            },
        ensures
            i < prev.n ==> self.pi_val(i) == prev.pi_val(i),
            i == prev.n ==> self.pi_val(i) == match entry {
                Some(p) => p.value(),
                None => 0nat,
            },
    {
        let po = prev.public_inputs_sparse_store@;
        let pn = self.public_inputs_sparse_store@;
        if entry is Some {
            if i < prev.n {
                if pi_store_has(po, i) {
                    let k = choose|k: int| 0 <= k < po.len() && po[k].0 as int == i;
                    assert(pn[k].0 as int == i);
                    assert(pi_store_has(pn, i));
                    let k2 = choose|k2: int| 0 <= k2 < pn.len() && pn[k2].0 as int == i;
                    assert(k2 < po.len());
                    assert(k == k2) by {
                        if k < k2 {
                            assert(po[k].0 < po[k2].0);
                        } else if k2 < k {
                            assert(po[k2].0 < po[k].0);
                        }
                    }
                } else {
                    if pi_store_has(pn, i) {
                        let k2 = choose|k2: int| 0 <= k2 < pn.len() && pn[k2].0 as int == i;
                        assert(k2 == po.len());
                        assert(false);
                    }
                }
            } else {
                assert(pn[po.len() as int].0 as int == i);
                assert(pi_store_has(pn, i));
                let k2 = choose|k2: int| 0 <= k2 < pn.len() && pn[k2].0 as int == i;
                assert(k2 == po.len()) by {
                    if k2 < po.len() {
                        assert(po[k2].0 < prev.n);
                    }
                }
            }
        } else {
            if i == prev.n && pi_store_has(pn, i) {
                let k2 = choose|k2: int| 0 <= k2 < pn.len() && pn[k2].0 as int == i;
                assert(po[k2].0 < prev.n);
                assert(false);
            }
        }
    }

    /// Appends one row that forces witness `a` to equal `constant` minus
    /// the optional public-input term.
    #[verifier::rlimit(100)]
    #[verifier::spinoff_prover]
    pub fn assert_equal_constant(&mut self, a: Witness, constant: Scalar, pi: Option<Scalar>)
        requires
            old(self).wf(),
            constant.canon(),
            pi is Some ==> pi->Some_0.canon(),
            a.index < old(self).witnesses@.len(),
            old(self).n < u32::MAX,
        ensures
            final(self).wf(),
            final(self).n == old(self).n + 1,
            final(self).witnesses@ == old(self).witnesses@,
            final(self).lookup_table == old(self).lookup_table,
            final(self).public_inputs_sparse_store@ == if pi is Some
                && pi->Some_0.value() != 0 {
                old(self).public_inputs_sparse_store@.push((old(self).n, pi->Some_0))
            } else {
                old(self).public_inputs_sparse_store@
            },
            final(self).circuit_ok() <==> (old(self).circuit_ok()
                && old(self).wit_val(a) == crate::scalar::fsub(
                    constant.value(),
                    if pi is Some { pi->Some_0.value() } else { 0nat },
                )),
            ({
                let r0 = old(self).n as int;
                &&& final(self).q_l@[r0].value() == 1
                &&& final(self).q_c@[r0].value() == crate::scalar::fneg(constant.value())
                &&& final(self).q_arith@[r0].value() == 1
                &&& final(self).q_m@[r0].value() == 0 && final(self).q_r@[r0].value() == 0
                &&& final(self).q_o@[r0].value() == 0 && final(self).q_4@[r0].value() == 0
                &&& final(self).q_range@[r0].value() == 0
                    && final(self).q_logic@[r0].value() == 0
                &&& final(self).q_lookup@[r0].value() == 0
                &&& final(self).q_fixed_group_add@[r0].value() == 0
                &&& final(self).q_variable_group_add@[r0].value() == 0
                &&& final(self).w_l@[r0] == a
                &&& final(self).w_r@[r0].index == 0 && final(self).w_o@[r0].index == 0
                &&& final(self).w_4@[r0].index == 0
            }),
    {
        let constraint = Constraint::new().left(Scalar::one()).constant(constant.neg()).a(a);
        let constraint = match pi {
            Some(p) => constraint.public(p),
            None => constraint,
        };
        let constraint = Constraint::arithmetic(&constraint);
        self.append_gate(constraint);
        proof {
            let m = field_order();
            let pv: nat = if pi is Some { pi->Some_0.value() } else { 0nat };
            let av = old(self).wit_val(a);
            let k = constant.value();
            assert(old(self).witnesses@[a.index as int].canon());
            assert(av < m);
            crate::identity::lemma_linear_gate_eval(*old(self), constraint);
            vstd::arithmetic::div_mod::lemma_small_mod(av, m);
            vstd::arithmetic::div_mod::lemma_small_mod(crate::scalar::fadd(av, pv), m);
            vstd::arithmetic::div_mod::lemma_small_mod(
                crate::scalar::fadd(crate::scalar::fadd(av, pv), crate::scalar::fneg(k)), m);
            crate::scalar::lemma_add_neg_zero(crate::scalar::fadd(av, pv), k);
            crate::scalar::lemma_add_cancel(av, pv, k);
        }
    }

    /// Appends one row that forces the two witnesses to carry equal
    /// values.
    #[verifier::rlimit(100)]
    #[verifier::spinoff_prover]
    pub fn assert_equal(&mut self, a: Witness, b: Witness)
        requires
            old(self).wf(),
            a.index < old(self).witnesses@.len(),
            b.index < old(self).witnesses@.len(),
            old(self).n < u32::MAX,
        ensures
            final(self).wf(),
            final(self).n == old(self).n + 1,
            final(self).witnesses@ == old(self).witnesses@,
            final(self).lookup_table == old(self).lookup_table,
            final(self).public_inputs_sparse_store@ == old(self).public_inputs_sparse_store@,
            final(self).circuit_ok() <==> (old(self).circuit_ok()
                && old(self).wit_val(a) == old(self).wit_val(b)),
            ({
                let r0 = old(self).n as int;
                &&& final(self).q_l@[r0].value() == 1
                &&& final(self).q_r@[r0].value() == field_order() - 1
                &&& final(self).q_arith@[r0].value() == 1
                &&& final(self).q_m@[r0].value() == 0 && final(self).q_o@[r0].value() == 0
                &&& final(self).q_4@[r0].value() == 0 && final(self).q_c@[r0].value() == 0
                &&& final(self).q_range@[r0].value() == 0
                    && final(self).q_logic@[r0].value() == 0
                &&& final(self).q_lookup@[r0].value() == 0
                &&& final(self).q_fixed_group_add@[r0].value() == 0
                &&& final(self).q_variable_group_add@[r0].value() == 0
                &&& final(self).w_l@[r0] == a && final(self).w_r@[r0] == b
                &&& final(self).w_o@[r0].index == 0 && final(self).w_4@[r0].index == 0
            }),
    {
        let constraint = Constraint::new()
            .left(Scalar::one())
            .right(Scalar::one().neg())
            .a(a)
            .b(b);
        let constraint = Constraint::arithmetic(&constraint);
        self.append_gate(constraint);
        proof {
            let m = field_order();
            let av = old(self).wit_val(a);
            let bv = old(self).wit_val(b);
            assert(av < m && bv < m);
            crate::identity::lemma_linear_gate_eval(*old(self), constraint);
            vstd::arithmetic::div_mod::lemma_small_mod(av, m);
            crate::scalar::lemma_mul_minus_one(bv);
            vstd::arithmetic::div_mod::lemma_small_mod(
                crate::scalar::fadd(av, crate::scalar::fneg(bv)), m);
            crate::scalar::lemma_add_neg_zero(av, bv);
        }
    }

    /// Allocates a witness for `value` and constrains it to equal `value`
    /// with one constant gate, so the returned witness is fixed, not merely
    /// assigned.
    pub fn append_constant(&mut self, value: Scalar) -> (r: Witness)
        requires
            old(self).wf(),
            value.canon(),
            old(self).n < u32::MAX,
        ensures
            final(self).wf(),
            r.index == old(self).witnesses@.len(),
            final(self).witnesses@ == old(self).witnesses@.push(value),
            final(self).n == old(self).n + 1,
            final(self).lookup_table == old(self).lookup_table,
            final(self).public_inputs_sparse_store@ == old(self).public_inputs_sparse_store@,
            final(self).wit_val(r) == value.value(),
            final(self).circuit_ok() <==> old(self).circuit_ok(),
            ({
                let r0 = old(self).n as int;
                &&& final(self).q_l@[r0].value() == 1
                &&& final(self).q_c@[r0].value() == crate::scalar::fneg(value.value())
                &&& final(self).q_arith@[r0].value() == 1
                &&& final(self).q_m@[r0].value() == 0 && final(self).q_r@[r0].value() == 0
                &&& final(self).q_o@[r0].value() == 0 && final(self).q_4@[r0].value() == 0
                &&& final(self).q_range@[r0].value() == 0
                    && final(self).q_logic@[r0].value() == 0
                &&& final(self).q_lookup@[r0].value() == 0
                &&& final(self).q_fixed_group_add@[r0].value() == 0
                &&& final(self).q_variable_group_add@[r0].value() == 0
                &&& final(self).w_l@[r0] == r
                &&& final(self).w_r@[r0].index == 0 && final(self).w_o@[r0].index == 0
                &&& final(self).w_4@[r0].index == 0
            }),
    {
        let witness = self.append_witness(value);
        self.assert_equal_constant(witness, value, None);
        witness
    }

    /// Appends the two dummy rows: fixed nonzero selector and witness
    /// content that keeps the selector polynomials from being all zero and
    /// the permutation from being the identity, plus the three matching
    /// lookup rows, prepended so they stay valid lookups.
    ///
    /// Both rows satisfy the row identity, so a satisfied circuit stays
    /// satisfied.
    #[verifier::rlimit(100)]
    #[verifier::spinoff_prover]
    pub fn append_dummy_gates(&mut self)
        requires
            old(self).wf(),
            old(self).n < u32::MAX - 1,
        ensures
            final(self).wf(),
            final(self).n == old(self).n + 2,
            final(self).public_inputs_sparse_store@ == old(self).public_inputs_sparse_store@,
            final(self).witnesses@.len() == old(self).witnesses@.len() + 4,
            forall|i: int| 0 <= i < old(self).witnesses@.len() ==>
                final(self).witnesses@[i] == old(self).witnesses@[i],
            final(self).witnesses@[old(self).witnesses@.len() as int].value() == 6,
            final(self).witnesses@[old(self).witnesses@.len() + 1int].value() == 1,
            final(self).witnesses@[old(self).witnesses@.len() + 2int].value() == 7,
            final(self).witnesses@[old(self).witnesses@.len() + 3int].value()
                == field_order() - 20,
            final(self).lookup_table.rows@.len() == old(self).lookup_table.rows@.len() + 3,
            forall|k: int| 0 <= k < old(self).lookup_table.rows@.len() ==>
                final(self).lookup_table.rows@[k + 3int] == old(self).lookup_table.rows@[k],
            final(self).lookup_table.rows@[0].x.value() == 3
                && final(self).lookup_table.rows@[0].y.value() == 1
                && final(self).lookup_table.rows@[0].z.value() == 4
                && final(self).lookup_table.rows@[0].w.value() == 9,
            final(self).lookup_table.rows@[1].x.value() == field_order() - 20
                && final(self).lookup_table.rows@[1].y.value() == 6
                && final(self).lookup_table.rows@[1].z.value() == 7
                && final(self).lookup_table.rows@[1].w.value() == 0,
            final(self).lookup_table.rows@[2].x.value() == 6
                && final(self).lookup_table.rows@[2].y.value() == 7
                && final(self).lookup_table.rows@[2].z.value() == field_order() - 20
                && final(self).lookup_table.rows@[2].w.value() == 1,
            forall|i: int| 0 <= i < old(self).n ==>
                (final(self).gate_ok(i) <==> old(self).gate_ok(i)),
            final(self).gate_ok(old(self).n as int),
            final(self).gate_ok(old(self).n + 1),
            final(self).circuit_ok() <==> old(self).circuit_ok(),
            forall|i: int| 0 <= i < old(self).n ==>
                (#[trigger] final(self).q_m@[i]) == old(self).q_m@[i],
            forall|i: int| 0 <= i < old(self).n ==>
                (#[trigger] final(self).q_l@[i]) == old(self).q_l@[i],
            forall|i: int| 0 <= i < old(self).n ==>
                (#[trigger] final(self).q_r@[i]) == old(self).q_r@[i],
            forall|i: int| 0 <= i < old(self).n ==>
                (#[trigger] final(self).q_o@[i]) == old(self).q_o@[i],
            forall|i: int| 0 <= i < old(self).n ==>
                (#[trigger] final(self).q_4@[i]) == old(self).q_4@[i],
            forall|i: int| 0 <= i < old(self).n ==>
                (#[trigger] final(self).q_c@[i]) == old(self).q_c@[i],
            forall|i: int| 0 <= i < old(self).n ==>
                (#[trigger] final(self).q_arith@[i]) == old(self).q_arith@[i],
            forall|i: int| 0 <= i < old(self).n ==>
                (#[trigger] final(self).q_range@[i]) == old(self).q_range@[i],
            forall|i: int| 0 <= i < old(self).n ==>
                (#[trigger] final(self).q_logic@[i]) == old(self).q_logic@[i],
            forall|i: int| 0 <= i < old(self).n ==>
                (#[trigger] final(self).q_fixed_group_add@[i])
                    == old(self).q_fixed_group_add@[i],
            forall|i: int| 0 <= i < old(self).n ==>
                (#[trigger] final(self).q_variable_group_add@[i])
                    == old(self).q_variable_group_add@[i],
            forall|i: int| 0 <= i < old(self).n ==>
                (#[trigger] final(self).q_lookup@[i]) == old(self).q_lookup@[i],
            forall|i: int| 0 <= i < old(self).n ==>
                (#[trigger] final(self).w_l@[i]) == old(self).w_l@[i],
            forall|i: int| 0 <= i < old(self).n ==>
                (#[trigger] final(self).w_r@[i]) == old(self).w_r@[i],
            forall|i: int| 0 <= i < old(self).n ==>
                (#[trigger] final(self).w_o@[i]) == old(self).w_o@[i],
            forall|i: int| 0 <= i < old(self).n ==>
                (#[trigger] final(self).w_4@[i]) == old(self).w_4@[i],
            ({
                let r0 = old(self).n as int;
                let r1 = old(self).n + 1;
                let w = old(self).witnesses@.len() as int;
                &&& final(self).q_m@[r0].value() == 1 && final(self).q_m@[r1].value() == 1
                &&& final(self).q_l@[r0].value() == 2 && final(self).q_l@[r1].value() == 1
                &&& final(self).q_r@[r0].value() == 3 && final(self).q_r@[r1].value() == 1
                &&& final(self).q_o@[r0].value() == 4 && final(self).q_o@[r1].value() == 1
                &&& final(self).q_4@[r0].value() == 1 && final(self).q_4@[r1].value() == 0
                &&& final(self).q_c@[r0].value() == 4 && final(self).q_c@[r1].value() == 127
                &&& final(self).q_arith@[r0].value() == 1
                    && final(self).q_arith@[r1].value() == 1
                &&& final(self).q_lookup@[r0].value() == 1
                    && final(self).q_lookup@[r1].value() == 1
                &&& final(self).q_range@[r0].value() == 0
                    && final(self).q_range@[r1].value() == 0
                &&& final(self).q_logic@[r0].value() == 0
                    && final(self).q_logic@[r1].value() == 0
                &&& final(self).q_fixed_group_add@[r0].value() == 0
                    && final(self).q_fixed_group_add@[r1].value() == 0
                &&& final(self).q_variable_group_add@[r0].value() == 0
                    && final(self).q_variable_group_add@[r1].value() == 0
                &&& final(self).w_l@[r0].index == w && final(self).w_l@[r1].index == w + 3
                &&& final(self).w_r@[r0].index == w + 2 && final(self).w_r@[r1].index == w
                &&& final(self).w_o@[r0].index == w + 3 && final(self).w_o@[r1].index == w + 2
                &&& final(self).w_4@[r0].index == w + 1 && final(self).w_4@[r1].index == 0
            }),
    {
        let var_six = self.append_witness(Scalar::from_u64(6));
        let var_one = self.append_witness(Scalar::from_u64(1));
        let var_seven = self.append_witness(Scalar::from_u64(7));
        let var_min_twenty = self.append_witness(Scalar::from_u64(20).neg());
        let first = Constraint {
            q_m: Scalar::from_u64(1),
            q_l: Scalar::from_u64(2),
            q_r: Scalar::from_u64(3),
            q_o: Scalar::from_u64(4),
            q_4: Scalar::from_u64(1),
            q_c: Scalar::from_u64(4),
            pi: Scalar::zero(),
            q_arith: Scalar::from_u64(1),
            q_range: Scalar::zero(),
            q_logic: Scalar::zero(),
            q_fixed_group_add: Scalar::zero(),
            q_variable_group_add: Scalar::zero(),
            q_lookup: Scalar::from_u64(1),
            w_a: var_six,
            w_b: var_seven,
            w_o: var_min_twenty,
            w_d: var_one,
        };
        let ghost before_first = *self;
        self.append_gate(first);
        let second = Constraint {
            q_m: Scalar::from_u64(1),
            q_l: Scalar::from_u64(1),
            q_r: Scalar::from_u64(1),
            q_o: Scalar::from_u64(1),
            q_4: Scalar::zero(),
            q_c: Scalar::from_u64(127),
            pi: Scalar::zero(),
            q_arith: Scalar::from_u64(1),
            q_range: Scalar::zero(),
            q_logic: Scalar::zero(),
            q_fixed_group_add: Scalar::zero(),
            q_variable_group_add: Scalar::zero(),
            q_lookup: Scalar::from_u64(1),
            w_a: var_min_twenty,
            w_b: var_six,
            w_o: var_seven,
            w_d: Self::constant_zero(),
        };
        let ghost before_second = *self;
        self.append_gate(second);
        proof {
            crate::scalar::lemma_fneg_form(20);
            crate::identity::lemma_dummy_gate_evals(before_first, first, second);
            crate::identity::lemma_dummy_gate_evals(before_second, first, second);
        }
        let ghost mid = *self;
        self.lookup_table.prepend_dummy_rows();
        proof {
            assert forall|r: int| 0 <= r < self.n implies self.wires_ok(r) by {
                assert(mid.wires_ok(r));
            }
            assert forall|w: int, x: WireData|
                #![trigger self.perm.occurs(w, x)]
                #![trigger self.owns_site(w, x)]
                0 <= w < self.witnesses@.len() implies
                (self.perm.occurs(w, x) <==> self.owns_site(w, x)) by {
                assert(mid.perm.occurs(w, x) <==> mid.owns_site(w, x));
            }
            assert forall|w: int| 0 <= w < self.witnesses@.len() implies
                no_dup((#[trigger] self.perm.variable_map@[w])@) by {
                assert(no_dup(mid.perm.variable_map@[w]@));
            }
            assert forall|i: int| 0 <= i < self.n implies
                (self.gate_ok(i) <==> mid.gate_ok(i)) by {
                reveal(TurboComposer::arith_eval);
                assert(self.arith_eval(i) == mid.arith_eval(i));
            }
            assert(self.gate_ok(old(self).n as int));
            assert(self.gate_ok(old(self).n + 1));
            assert forall|i: int| 0 <= i < old(self).n implies
                (self.gate_ok(i) <==> old(self).gate_ok(i)) by {
                assert(before_first.gate_ok(i) <==> old(self).gate_ok(i));
                assert(before_second.gate_ok(i) <==> before_first.gate_ok(i));
                assert(mid.gate_ok(i) <==> before_second.gate_ok(i));
            }
            if old(self).circuit_ok() {
                assert forall|i: int| 0 <= i < self.n as int implies self.gate_ok(i) by {
                    if i < old(self).n {
                        assert(old(self).gate_ok(i));
                    }
                }
            }
            if self.circuit_ok() {
                assert forall|i: int| 0 <= i < old(self).n as int implies
                    old(self).gate_ok(i) by {
                    assert(self.gate_ok(i));
                }
            }
        }
    }

    /// The deterministic three-row bootstrap state: five witnesses with the
    /// reserved zero first, an empty public-input store, row zero fixing
    /// witness zero to zero, rows one and two the fixed dummy rows, and the
    /// three matching lookup rows — the whole observable state of a fresh
    /// builder.
    pub open spec fn is_bootstrap(self) -> bool {
        &&& self.n == 3
        &&& self.public_inputs_sparse_store@.len() == 0
        &&& self.witnesses@.len() == 5
        &&& self.witnesses@[0].value() == 0
        &&& self.witnesses@[1].value() == 6
        &&& self.witnesses@[2].value() == 1
        &&& self.witnesses@[3].value() == 7
        &&& self.witnesses@[4].value() == field_order() - 20
        &&& self.lookup_table.rows@.len() == 3
        &&& self.lookup_table.rows@[0].x.value() == 3
            && self.lookup_table.rows@[0].y.value() == 1
            && self.lookup_table.rows@[0].z.value() == 4
            && self.lookup_table.rows@[0].w.value() == 9
        &&& self.lookup_table.rows@[1].x.value() == field_order() - 20
            && self.lookup_table.rows@[1].y.value() == 6
            && self.lookup_table.rows@[1].z.value() == 7
            && self.lookup_table.rows@[1].w.value() == 0
        &&& self.lookup_table.rows@[2].x.value() == 6
            && self.lookup_table.rows@[2].y.value() == 7
            && self.lookup_table.rows@[2].z.value() == field_order() - 20
            && self.lookup_table.rows@[2].w.value() == 1
        &&& self.q_l@[0].value() == 1 && self.q_c@[0].value() == 0
            && self.q_arith@[0].value() == 1
        &&& self.q_m@[0].value() == 0 && self.q_r@[0].value() == 0
            && self.q_o@[0].value() == 0 && self.q_4@[0].value() == 0
        &&& self.q_range@[0].value() == 0 && self.q_logic@[0].value() == 0
            && self.q_lookup@[0].value() == 0
        &&& self.q_fixed_group_add@[0].value() == 0
            && self.q_variable_group_add@[0].value() == 0
        &&& self.w_l@[0].index == 0 && self.w_r@[0].index == 0
            && self.w_o@[0].index == 0 && self.w_4@[0].index == 0
        &&& self.q_m@[1].value() == 1 && self.q_m@[2].value() == 1
        &&& self.q_l@[1].value() == 2 && self.q_l@[2].value() == 1
        &&& self.q_r@[1].value() == 3 && self.q_r@[2].value() == 1
        &&& self.q_o@[1].value() == 4 && self.q_o@[2].value() == 1
        &&& self.q_4@[1].value() == 1 && self.q_4@[2].value() == 0
        &&& self.q_c@[1].value() == 4 && self.q_c@[2].value() == 127
        &&& self.q_arith@[1].value() == 1 && self.q_arith@[2].value() == 1
        &&& self.q_lookup@[1].value() == 1 && self.q_lookup@[2].value() == 1
        &&& self.q_range@[1].value() == 0 && self.q_range@[2].value() == 0
        &&& self.q_logic@[1].value() == 0 && self.q_logic@[2].value() == 0
        &&& self.q_fixed_group_add@[1].value() == 0
            && self.q_fixed_group_add@[2].value() == 0
        &&& self.q_variable_group_add@[1].value() == 0
            && self.q_variable_group_add@[2].value() == 0
        &&& self.w_l@[1].index == 1 && self.w_l@[2].index == 4
        &&& self.w_r@[1].index == 3 && self.w_r@[2].index == 1
        &&& self.w_o@[1].index == 4 && self.w_o@[2].index == 3
        &&& self.w_4@[1].index == 2 && self.w_4@[2].index == 0
    }

    /// A fresh builder with the deterministic three-row bootstrap: row zero
    /// fixes the reserved witness to zero, rows one and two are the dummy
    /// rows. The size hint only pre-allocates; it leaves no trace in the
    /// state.
    #[verifier::rlimit(100)]
    #[verifier::spinoff_prover]
    pub fn with_size(size: usize) -> (r: TurboComposer)
        ensures
            r.wf(),
            r.circuit_ok(),
            r.is_bootstrap(),
            r.n == 3,
    {
        let mut composer = TurboComposer {
            n: 0,
            q_m: Vec::with_capacity(size),
            q_l: Vec::with_capacity(size),
            q_r: Vec::with_capacity(size),
            q_o: Vec::with_capacity(size),
            q_4: Vec::with_capacity(size),
            q_c: Vec::with_capacity(size),
            q_arith: Vec::with_capacity(size),
            q_range: Vec::with_capacity(size),
            q_logic: Vec::with_capacity(size),
            q_fixed_group_add: Vec::with_capacity(size),
            q_variable_group_add: Vec::with_capacity(size),
            q_lookup: Vec::with_capacity(size),
            public_inputs_sparse_store: Vec::new(),
            w_l: Vec::with_capacity(size),
            w_r: Vec::with_capacity(size),
            w_o: Vec::with_capacity(size),
            w_4: Vec::with_capacity(size),
            lookup_table: LookupTable::new(),
            witnesses: Vec::with_capacity(size),
            perm: Permutation::new(),
        };
        composer.append_constant(Scalar::zero());
        proof {
            crate::scalar::lemma_fneg_form(0);
        }
        composer.append_dummy_gates();
        composer
    }

    /// Appends a plonkup row: the only active selector is the lookup toggle,
    /// so the row's satisfaction is membership of its wire tuple in the
    /// lookup table, checked downstream by the prover rather than by the row
    /// identity. Records the public-input entry exactly when a nonzero value
    /// is given, and returns the output wire `c` unchanged.
    pub fn append_plonkup_gate(
        &mut self,
        a: Witness,
        b: Witness,
        c: Witness,
        d: Witness,
        pi: Option<Scalar>,
    ) -> (r: Witness)
        requires
            old(self).wf(),
            a.index < old(self).witnesses@.len(),
            b.index < old(self).witnesses@.len(),
            c.index < old(self).witnesses@.len(),
            d.index < old(self).witnesses@.len(),
            pi is Some ==> pi->Some_0.canon(),
            old(self).n < u32::MAX,
        ensures
            final(self).wf(),
            r == c,
            final(self).n == old(self).n + 1,
            final(self).witnesses@ == old(self).witnesses@,
            final(self).lookup_table == old(self).lookup_table,
            final(self).w_l@ == old(self).w_l@.push(a),
            final(self).w_r@ == old(self).w_r@.push(b),
            final(self).w_o@ == old(self).w_o@.push(c),
            final(self).w_4@ == old(self).w_4@.push(d),
            final(self).q_lookup@[old(self).n as int].value() == 1,
            final(self).q_arith@[old(self).n as int].value() == 0,
            final(self).q_m@[old(self).n as int].value() == 0,
            final(self).q_l@[old(self).n as int].value() == 0,
            final(self).q_r@[old(self).n as int].value() == 0,
            final(self).q_o@[old(self).n as int].value() == 0,
            final(self).q_4@[old(self).n as int].value() == 0,
            final(self).q_c@[old(self).n as int].value() == 0,
            final(self).q_range@[old(self).n as int].value() == 0,
            final(self).q_logic@[old(self).n as int].value() == 0,
            final(self).q_fixed_group_add@[old(self).n as int].value() == 0,
            final(self).q_variable_group_add@[old(self).n as int].value() == 0,
            final(self).public_inputs_sparse_store@ == if pi is Some
                && pi->Some_0.value() != 0 {
                old(self).public_inputs_sparse_store@.push((old(self).n, pi->Some_0))
            } else {
                old(self).public_inputs_sparse_store@
            },
            forall|i: int| 0 <= i < old(self).n ==>
                (final(self).gate_ok(i) <==> old(self).gate_ok(i)),
            final(self).gate_ok(old(self).n as int),
            final(self).circuit_ok() <==> old(self).circuit_ok(),
    {
        let zero = Scalar::zero();
        let cons = Constraint {
            q_m: zero,
            q_l: zero,
            q_r: zero,
            q_o: zero,
            q_4: zero,
            q_c: zero,
            pi: zero,
            q_arith: zero,
            q_range: zero,
            q_logic: zero,
            q_fixed_group_add: zero,
            q_variable_group_add: zero,
            q_lookup: Scalar::one(),
            w_a: a,
            w_b: b,
            w_o: c,
            w_d: d,
        };
        self.append_gate(cons);
        proof {
            crate::identity::lemma_constraint_eval_zero_toggle(*old(self), cons);
        }
        if let Some(p) = pi {
            proof {
                crate::scalar::lemma_value_faithful(p, zero);
            }
            if !(p == zero) {
                let ghost mid = *self;
                let row = self.n - 1;
                self.public_inputs_sparse_store.push((row, p));
                proof {
                    self.lemma_store_push_transfer(mid, *old(self), p);
                }
            }
        }
        c
    }

    /// After pushing a public-input entry for the newest row onto an
    /// otherwise unchanged composer, well-formedness and the satisfaction of
    /// every row carry over, provided the newest row's arithmetic toggle is
    /// zero.
    proof fn lemma_store_push_transfer(self, mid: TurboComposer, prev: TurboComposer, p: Scalar)
        requires
            mid.wf(),
            p.canon(),
            mid.n >= 1,
            prev.n == mid.n - 1,
            mid.q_arith@.len() == mid.n,
            mid.q_arith@[mid.n - 1].value() == 0,
            mid.public_inputs_sparse_store@ == prev.public_inputs_sparse_store@,
            forall|k: int| 0 <= k < prev.public_inputs_sparse_store@.len() ==>
                (#[trigger] prev.public_inputs_sparse_store@[k]).0 < prev.n,
            self.public_inputs_sparse_store@
                == mid.public_inputs_sparse_store@.push(((mid.n - 1) as u32, p)),
            self.n == mid.n,
            self.q_m == mid.q_m,
            self.q_l == mid.q_l,
            self.q_r == mid.q_r,
            self.q_o == mid.q_o,
            self.q_4 == mid.q_4,
            self.q_c == mid.q_c,
            self.q_arith == mid.q_arith,
            self.q_range == mid.q_range,
            self.q_logic == mid.q_logic,
            self.q_fixed_group_add == mid.q_fixed_group_add,
            self.q_variable_group_add == mid.q_variable_group_add,
            self.q_lookup == mid.q_lookup,
            self.w_l == mid.w_l,
            self.w_r == mid.w_r,
            self.w_o == mid.w_o,
            self.w_4 == mid.w_4,
            self.witnesses == mid.witnesses,
            self.lookup_table == mid.lookup_table,
            self.perm == mid.perm,
        ensures
            self.wf(),
            forall|i: int| 0 <= i < self.n ==> (self.gate_ok(i) <==> mid.gate_ok(i)),
            self.circuit_ok() <==> mid.circuit_ok(),
    {
        let po = mid.public_inputs_sparse_store@;
        let pn = self.public_inputs_sparse_store@;
        assert forall|r: int| 0 <= r < self.n implies self.wires_ok(r) by {
            assert(mid.wires_ok(r));
        }
        assert forall|w: int, x: WireData|
            #![trigger self.perm.occurs(w, x)]
            #![trigger self.owns_site(w, x)]
            0 <= w < self.witnesses@.len() implies
            (self.perm.occurs(w, x) <==> self.owns_site(w, x)) by {
            assert(mid.perm.occurs(w, x) <==> mid.owns_site(w, x));
        }
        assert forall|w: int| 0 <= w < self.witnesses@.len() implies
            no_dup((#[trigger] self.perm.variable_map@[w])@) by {
            assert(no_dup(mid.perm.variable_map@[w]@));
        }
        assert forall|i: int| 0 <= i < self.n && i != mid.n - 1 implies
            self.pi_val(i) == mid.pi_val(i) by {
            if pi_store_has(po, i) {
                let k = choose|k: int| 0 <= k < po.len() && po[k].0 as int == i;
                lemma_pi_store_at(pn, k, i);
                lemma_pi_store_at(po, k, i);
            } else {
                if pi_store_has(pn, i) {
                    let k2 = choose|k2: int| 0 <= k2 < pn.len() && pn[k2].0 as int == i;
                    assert(k2 == po.len());
                    assert(false);
                }
            }
        }
        assert forall|i: int| 0 <= i < self.n implies
            (self.gate_ok(i) <==> mid.gate_ok(i)) by {
            if i != mid.n - 1 {
                reveal(TurboComposer::arith_eval);
                assert(self.arith_eval(i) == mid.arith_eval(i));
            } else {
                crate::identity::lemma_arith_eval_zero_toggle(self, i);
                crate::identity::lemma_arith_eval_zero_toggle(mid, i);
            }
        }
    }

    /// Extends the composer's lookup table by every row of `table`, after
    /// the rows it already holds.
    pub fn append_plonkup_table(&mut self, table: &LookupTable)
        requires
            old(self).wf(),
            table.canon(),
        ensures
            final(self).wf(),
            final(self).lookup_table.rows@
                == old(self).lookup_table.rows@ + table.rows@,
            final(self).n == old(self).n,
            final(self).witnesses@ == old(self).witnesses@,
            final(self).public_inputs_sparse_store@ == old(self).public_inputs_sparse_store@,
            final(self).q_m@ == old(self).q_m@,
            final(self).q_l@ == old(self).q_l@,
            final(self).q_r@ == old(self).q_r@,
            final(self).q_o@ == old(self).q_o@,
            final(self).q_4@ == old(self).q_4@,
            final(self).q_c@ == old(self).q_c@,
            final(self).q_arith@ == old(self).q_arith@,
            final(self).q_range@ == old(self).q_range@,
            final(self).q_logic@ == old(self).q_logic@,
            final(self).q_fixed_group_add@ == old(self).q_fixed_group_add@,
            final(self).q_variable_group_add@ == old(self).q_variable_group_add@,
            final(self).q_lookup@ == old(self).q_lookup@,
            final(self).w_l@ == old(self).w_l@,
            final(self).w_r@ == old(self).w_r@,
            final(self).w_o@ == old(self).w_o@,
            final(self).w_4@ == old(self).w_4@,
            final(self).perm == old(self).perm,
            forall|i: int| 0 <= i < old(self).n ==>
                (final(self).gate_ok(i) <==> old(self).gate_ok(i)),
            final(self).circuit_ok() <==> old(self).circuit_ok(),
    {
        let ghost mid = *old(self);
        self.lookup_table.append_rows(table);
        proof {
            assert forall|r: int| 0 <= r < self.n implies self.wires_ok(r) by {
                assert(mid.wires_ok(r));
            }
            assert forall|w: int, x: WireData|
                #![trigger self.perm.occurs(w, x)]
                #![trigger self.owns_site(w, x)]
                0 <= w < self.witnesses@.len() implies
                (self.perm.occurs(w, x) <==> self.owns_site(w, x)) by {
                assert(mid.perm.occurs(w, x) <==> mid.owns_site(w, x));
            }
            assert forall|w: int| 0 <= w < self.witnesses@.len() implies
                no_dup((#[trigger] self.perm.variable_map@[w])@) by {
                assert(no_dup(mid.perm.variable_map@[w]@));
            }
            assert forall|i: int| 0 <= i < self.n implies
                (self.gate_ok(i) <==> mid.gate_ok(i)) by {
                reveal(TurboComposer::arith_eval);
                assert(self.arith_eval(i) == mid.arith_eval(i));
            }
            if mid.circuit_ok() {
                assert forall|i: int| 0 <= i < self.n as int implies self.gate_ok(i) by {
                    assert(mid.gate_ok(i));
                }
            }
            if self.circuit_ok() {
                assert forall|i: int| 0 <= i < mid.n as int implies mid.gate_ok(i) by {
                    assert(self.gate_ok(i));
                }
            }
        }
    }

    /// The rows that the Public Inputs occupy in this composer, in
    /// increasing order.
    pub fn public_input_indexes(&self) -> (r: Vec<u32>)
        ensures
            r@.len() == self.public_inputs_sparse_store@.len(),
            forall|k: int| 0 <= k < r@.len() ==>
                r@[k] == (#[trigger] self.public_inputs_sparse_store@[k]).0,
    {
        let mut indexes: Vec<u32> = Vec::new();
        let mut k: usize = 0;
        while k < self.public_inputs_sparse_store.len()
            invariant
                0 <= k <= self.public_inputs_sparse_store@.len(),
                indexes@.len() == k,
                forall|j: int| 0 <= j < k ==>
                    indexes@[j] == (#[trigger] self.public_inputs_sparse_store@[j]).0,
            decreases self.public_inputs_sparse_store@.len() - k,
        {
            indexes.push(self.public_inputs_sparse_store[k].0);
            k = k + 1;
        }
        indexes
    }

    /// The dense public-input vector: one value per row, zero at every row
    /// without a recorded entry.
    pub fn to_dense_public_inputs(&self) -> (r: Vec<Scalar>)
        requires
            self.wf(),
        ensures
            r@.len() == self.n,
            forall|i: int| 0 <= i < self.n ==>
                (#[trigger] r@[i]).value() == self.pi_val(i) && r@[i].canon(),
    {
        let mut dense: Vec<Scalar> = Vec::new();
        let mut k: usize = 0;
        let mut i: u32 = 0;
        let zero = Scalar::zero();
        while i < self.n
            invariant
                self.wf(),
                0 <= i <= self.n,
                0 <= k <= self.public_inputs_sparse_store@.len(),
                dense@.len() == i,
                forall|j: int| 0 <= j < k ==>
                    (#[trigger] self.public_inputs_sparse_store@[j]).0 < i,
                forall|j: int| k <= j < self.public_inputs_sparse_store@.len() ==>
                    (#[trigger] self.public_inputs_sparse_store@[j]).0 >= i,
                forall|r2: int| 0 <= r2 < i ==>
                    (#[trigger] dense@[r2]).value() == self.pi_val(r2) && dense@[r2].canon(),
                zero.value() == 0 && zero.canon(),
            decreases self.n - i,
        {
            let ghost k0 = k as int;
            let store_len = self.public_inputs_sparse_store.len();
            if k < store_len && self.public_inputs_sparse_store[k].0 == i {
                dense.push(self.public_inputs_sparse_store[k].1);
                proof {
                    lemma_pi_store_at(self.public_inputs_sparse_store@, k as int, i as int);
                }
                k = k + 1;
            } else {
                dense.push(zero);
                proof {
                    if pi_store_has(self.public_inputs_sparse_store@, i as int) {
                        let j = choose|j: int|
                            0 <= j < self.public_inputs_sparse_store@.len()
                                && self.public_inputs_sparse_store@[j].0 as int == i;
                        assert(self.public_inputs_sparse_store@[j].0 >= i);
                        assert(j >= k);
                        if j > k {
                            assert(self.public_inputs_sparse_store@[k as int].0
                                < self.public_inputs_sparse_store@[j].0);
                        }
                        assert(false);
                    }
                }
            }
            proof {
                assert forall|j: int| k <= j < self.public_inputs_sparse_store@.len() implies
                    (#[trigger] self.public_inputs_sparse_store@[j]).0 >= i + 1 by {
                    if j > k0 {
                        assert(self.public_inputs_sparse_store@[k0].0
                            < self.public_inputs_sparse_store@[j].0);
                    }
                }
            }
            i = i + 1;
        }
        dense
    }

    /// A fresh builder with the three-row bootstrap and no pre-allocation.
    pub fn new() -> (r: TurboComposer)
        ensures
            r.wf(),
            r.circuit_ok(),
            r.is_bootstrap(),
            r.n == 3,
    {
        TurboComposer::with_size(0)
    }
}

/// Materializing the public inputs and re-reading their rows reproduces the
/// sparse store exactly: the dense vector holds each stored value at its
/// stored row, zero at every other row, and the row list is strictly
/// increasing.
pub proof fn lemma_public_inputs_roundtrip(c: TurboComposer, dense: Seq<Scalar>, indexes: Seq<u32>)
    requires
        c.wf(),
        dense.len() == c.n,
        forall|i: int| 0 <= i < c.n ==> (#[trigger] dense[i]).value() == c.pi_val(i),
        indexes.len() == c.public_inputs_sparse_store@.len(),
        forall|k: int| 0 <= k < indexes.len() ==>
            indexes[k] == (#[trigger] c.public_inputs_sparse_store@[k]).0,
    ensures
        forall|k: int| 0 <= k < indexes.len() ==>
            dense[(#[trigger] indexes[k]) as int].value()
                == c.public_inputs_sparse_store@[k].1.value(),
        forall|i: int| 0 <= i < c.n
            && (forall|k: int| 0 <= k < indexes.len() ==> (#[trigger] indexes[k]) as int != i)
            ==> (#[trigger] dense[i]).value() == 0,
        forall|k1: int, k2: int| 0 <= k1 < k2 < indexes.len() ==> indexes[k1] < indexes[k2],
{
    let s = c.public_inputs_sparse_store@;
    assert forall|k: int| 0 <= k < indexes.len() implies
        dense[(#[trigger] indexes[k]) as int].value() == s[k].1.value() by {
        lemma_pi_store_at(s, k, indexes[k] as int);
        assert(s[k].0 < c.n);
    }
    assert forall|i: int| 0 <= i < c.n
        && (forall|k: int| 0 <= k < indexes.len() ==> (#[trigger] indexes[k]) as int != i)
        implies (#[trigger] dense[i]).value() == 0 by {
        if pi_store_has(s, i) {
            let k = choose|k: int| 0 <= k < s.len() && s[k].0 as int == i;
            assert(indexes[k] as int == i);
            assert(false);
        }
    }
}

/// The occurrence lists of a well-formed composer are a partition of the
/// circuit's `4·n` wire positions: every position of every row belongs to
/// the occurrence list of exactly one witness — the one bound there — no
/// list holds a position twice or a position outside the circuit, and the
/// lists of distinct witnesses are disjoint.
pub proof fn lemma_permutation_partition(c: TurboComposer)
    requires
        c.wf(),
    ensures
        forall|x: WireData| x.row() < c.n ==> {
            &&& (#[trigger] c.wire_at(x)).index < c.witnesses@.len()
            &&& c.perm.occurs(c.wire_at(x).index as int, x)
        },
        forall|w: int, x: WireData| 0 <= w < c.witnesses@.len() && #[trigger] c.perm.occurs(w, x)
            ==> x.row() < c.n && c.wire_at(x).index == w,
        forall|w1: int, w2: int, x: WireData|
            0 <= w1 < c.witnesses@.len() && 0 <= w2 < c.witnesses@.len()
                && #[trigger] c.perm.occurs(w1, x) && #[trigger] c.perm.occurs(w2, x)
            ==> w1 == w2,
        forall|w: int| 0 <= w < c.witnesses@.len() ==>
            no_dup((#[trigger] c.perm.variable_map@[w])@),
{
    assert forall|x: WireData| x.row() < c.n implies {
        &&& (#[trigger] c.wire_at(x)).index < c.witnesses@.len()
        &&& c.perm.occurs(c.wire_at(x).index as int, x)
    } by {
        assert(c.wires_ok(x.row() as int));
        let w = c.wire_at(x).index as int;
        assert(c.owns_site(w, x));
        assert(c.perm.occurs(w, x));
    }
    assert forall|w: int, x: WireData|
        0 <= w < c.witnesses@.len() && #[trigger] c.perm.occurs(w, x) implies
        x.row() < c.n && c.wire_at(x).index == w by {
        assert(c.owns_site(w, x));
    }
    assert forall|w1: int, w2: int, x: WireData|
        0 <= w1 < c.witnesses@.len() && 0 <= w2 < c.witnesses@.len()
            && #[trigger] c.perm.occurs(w1, x) && #[trigger] c.perm.occurs(w2, x)
        implies w1 == w2 by {
        assert(c.owns_site(w1, x));
        assert(c.owns_site(w2, x));
    }
}

impl Default for TurboComposer {
    /// The same fresh three-row builder as [`TurboComposer::new`].
    fn default() -> (r: Self)
        ensures
            r.wf(),
            r.circuit_ok(),
            r.is_bootstrap(),
            r.n == 3,
    {
        TurboComposer::new()
    }
}

} // verus!
