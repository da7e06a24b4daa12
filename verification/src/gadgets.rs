//! The gadget layer: higher-level operations built purely by emitting
//! constraints through the composer's gate interface, with no privileged
//! access to its state.

use vstd::prelude::*;
use crate::scalar::{Scalar, field_order, fadd, fmul};
use crate::constraint::{Constraint, Witness};
use crate::composer::TurboComposer;

verus! {

use vstd::arithmetic::power2::pow2;

impl TurboComposer {
    /// Computes and registers the witness value that solves the constraint
    /// for its output wire: `x · (−q_o⁻¹)` with `x` the equation without
    /// the output term. No gate is appended here.
    pub(crate) fn append_output_witness(&mut self, s: Constraint) -> (r: Witness)
        requires
            old(self).wf(),
            s.canon(),
            s.wires_below(old(self).witnesses@.len() as nat),
            s.q_o.value() != 0,
        ensures
            final(self).wf(),
            r.index == old(self).witnesses@.len(),
            final(self).witnesses@.len() == old(self).witnesses@.len() + 1,
            forall|i: int| 0 <= i < old(self).witnesses@.len() ==>
                final(self).witnesses@[i] == old(self).witnesses@[i],
            final(self).wit_val(r) < field_order(),
            fadd(fmul(s.q_o.value(), final(self).wit_val(r)), old(self).gate_combo(s)) == 0,
            final(self).n == old(self).n,
            final(self).q_m@ == old(self).q_m@,
            final(self).q_l@ == old(self).q_l@,
            final(self).q_r@ == old(self).q_r@,
            final(self).q_o@ == old(self).q_o@,
            final(self).q_4@ == old(self).q_4@,
            final(self).q_c@ == old(self).q_c@,
            final(self).q_arith@ == old(self).q_arith@,
            final(self).q_range@ == old(self).q_range@,
            final(self).q_logic@ == old(self).q_logic@,
            final(self).q_lookup@ == old(self).q_lookup@,
            final(self).w_l@ == old(self).w_l@,
            final(self).w_r@ == old(self).w_r@,
            final(self).w_o@ == old(self).w_o@,
            final(self).w_4@ == old(self).w_4@,
            final(self).public_inputs_sparse_store@ == old(self).public_inputs_sparse_store@,
            final(self).lookup_table == old(self).lookup_table,
            final(self).circuit_ok() <==> old(self).circuit_ok(),
    {
        let av = self.witnesses[s.w_a.index];
        let bv = self.witnesses[s.w_b.index];
        let dv = self.witnesses[s.w_d.index];
        proof {
            assert(av.canon() && bv.canon() && dv.canon());
        }
        let x = s.q_m.mul(av).mul(bv)
            .add(s.q_l.mul(av))
            .add(s.q_r.mul(bv))
            .add(s.q_4.mul(dv))
            .add(s.q_c.add(s.pi));
        let inv = match s.q_o.invert() {
            Some(inv) => inv,
            None => {
                proof {
                    assert(false);
                }
                Scalar::zero()
            },
        };
        let o = x.mul(inv.neg());
        proof {
            reveal(TurboComposer::gate_combo);
            assert(x.value() == old(self).gate_combo(s));
            crate::scalar::lemma_neg_inverse_solves(s.q_o.value(), inv.value(), x.value());
        }
        self.append_witness(o)
    }

    /// Appends one computed-output addition-style row: the constraint's
    /// arithmetic toggle is turned on, its output coefficient is forced to
    /// minus one, and a fresh output witness carrying the equation's value
    /// `q_m·a·b + q_l·a + q_r·b + q_4·d + q_c + PI` is allocated, bound and
    /// returned. The appended row always satisfies the row identity.
    #[verifier::rlimit(100)]
    #[verifier::spinoff_prover]
    pub fn gate_add(&mut self, s: Constraint) -> (r: Witness)
        requires
            old(self).wf(),
            s.canon(),
            s.wires_below(old(self).witnesses@.len() as nat),
            old(self).n < u32::MAX,
        ensures
            final(self).wf(),
            r.index == old(self).witnesses@.len(),
            final(self).witnesses@.len() == old(self).witnesses@.len() + 1,
            forall|i: int| 0 <= i < old(self).witnesses@.len() ==>
                final(self).witnesses@[i] == old(self).witnesses@[i],
            final(self).wit_val(r) == old(self).gate_combo(s),
            final(self).wit_val(r) < field_order(),
            final(self).n == old(self).n + 1,
            final(self).lookup_table == old(self).lookup_table,
            final(self).public_inputs_sparse_store@ == if s.pi.value() != 0 {
                old(self).public_inputs_sparse_store@.push((old(self).n, s.pi))
            } else {
                old(self).public_inputs_sparse_store@
            },
            final(self).circuit_ok() <==> (old(self).circuit_ok()
                && s.q_logic.value() == 0 && s.q_range.value() == 0),
            ({
                let r0 = old(self).n as int;
                &&& final(self).q_m@[r0] == s.q_m && final(self).q_l@[r0] == s.q_l
                &&& final(self).q_r@[r0] == s.q_r && final(self).q_4@[r0] == s.q_4
                &&& final(self).q_c@[r0] == s.q_c
                &&& final(self).q_o@[r0].value() == field_order() - 1
                &&& final(self).q_arith@[r0].value() == 1
                &&& final(self).q_range@[r0] == s.q_range
                    && final(self).q_logic@[r0] == s.q_logic
                &&& final(self).q_lookup@[r0] == s.q_lookup
                &&& final(self).q_fixed_group_add@[r0] == s.q_fixed_group_add
                &&& final(self).q_variable_group_add@[r0] == s.q_variable_group_add
                &&& final(self).w_l@[r0] == s.w_a && final(self).w_r@[r0] == s.w_b
                &&& final(self).w_o@[r0] == r && final(self).w_4@[r0] == s.w_d
            }),
    {
        let s1 = Constraint::arithmetic(&s).output(Scalar::one().neg());
        let o = self.append_output_witness(s1);
        let ghost mid = *self;
        let s2 = s1.o(o);
        self.append_gate(s2);
        proof {
            let m = field_order() as int;
            crate::identity::lemma_eval_flat(mid, s2);
            crate::identity::lemma_combo_flat(*old(self), s1);
            crate::identity::lemma_combo_flat(mid, s1);
            assert(mid.gate_combo(s1) == old(self).gate_combo(s1)) by {
                reveal(TurboComposer::gate_combo);
            }
            assert(old(self).gate_combo(s1) == old(self).gate_combo(s)) by {
                reveal(TurboComposer::gate_combo);
            }
            let qo = s2.q_o.value() as int;
            let ov = mid.wit_val(o) as int;
            let combo = mid.gate_combo(s1) as int;
            crate::scalar::lemma_fneg_form(1);
            crate::scalar::lemma_mul_minus_one(mid.wit_val(o));
            vstd::arithmetic::div_mod::lemma_small_mod(mid.gate_combo(s1), field_order());
            crate::scalar::lemma_add_neg_zero(mid.gate_combo(s1), mid.wit_val(o));
            assert(((qo * ov) % m + combo % m) % m == (qo * ov + combo) % m) by {
                vstd::arithmetic::div_mod::lemma_add_mod_noop(qo * ov, combo, m);
                vstd::arithmetic::div_mod::lemma_small_mod(mid.gate_combo(s1), field_order());
            }
            assert(mid.constraint_eval(s2) == 0) by {
                vstd::arithmetic::mul::lemma_mul_basics(
                    (s2.q_m.value() * mid.wit_val(s2.w_a) * mid.wit_val(s2.w_b)
                        + s2.q_l.value() * mid.wit_val(s2.w_a)
                        + s2.q_r.value() * mid.wit_val(s2.w_b)
                        + s2.q_o.value() * mid.wit_val(s2.w_o)
                        + s2.q_4.value() * mid.wit_val(s2.w_d)
                        + s2.pi.value() + s2.q_c.value()) as int);
            }
        }
        o
    }

    /// Appends one computed-output multiplication-style row, exactly as
    /// [`TurboComposer::gate_add`] does: the two differ only in which
    /// coefficients the caller chose to set.
    pub fn gate_mul(&mut self, s: Constraint) -> (r: Witness)
        requires
            old(self).wf(),
            s.canon(),
            s.wires_below(old(self).witnesses@.len() as nat),
            old(self).n < u32::MAX,
        ensures
            final(self).wf(),
            r.index == old(self).witnesses@.len(),
            final(self).witnesses@.len() == old(self).witnesses@.len() + 1,
            forall|i: int| 0 <= i < old(self).witnesses@.len() ==>
                final(self).witnesses@[i] == old(self).witnesses@[i],
            final(self).wit_val(r) == old(self).gate_combo(s),
            final(self).wit_val(r) < field_order(),
            final(self).n == old(self).n + 1,
            final(self).lookup_table == old(self).lookup_table,
            final(self).public_inputs_sparse_store@ == if s.pi.value() != 0 {
                old(self).public_inputs_sparse_store@.push((old(self).n, s.pi))
            } else {
                old(self).public_inputs_sparse_store@
            },
            final(self).circuit_ok() <==> (old(self).circuit_ok()
                && s.q_logic.value() == 0 && s.q_range.value() == 0),
    {
        self.gate_add(s)
    }

    /// Constrains a witness to carry zero or one, with the single row
    /// `a·a − a = 0`. The row is satisfied whenever the witness does carry
    /// a bit.
    #[verifier::rlimit(100)]
    #[verifier::spinoff_prover]
    pub fn component_boolean(&mut self, a: Witness)
        requires
            old(self).wf(),
            a.index < old(self).witnesses@.len(),
            old(self).n < u32::MAX,
        ensures
            final(self).wf(),
            final(self).n == old(self).n + 1,
            final(self).witnesses@ == old(self).witnesses@,
            final(self).lookup_table == old(self).lookup_table,
            final(self).public_inputs_sparse_store@ == old(self).public_inputs_sparse_store@,
            (old(self).wit_val(a) == 0 || old(self).wit_val(a) == 1) ==>
                (final(self).circuit_ok() <==> old(self).circuit_ok()),
            final(self).circuit_ok() ==> old(self).circuit_ok(),
            ({
                let r0 = old(self).n as int;
                &&& final(self).q_m@[r0].value() == 1
                &&& final(self).q_o@[r0].value() == field_order() - 1
                &&& final(self).q_arith@[r0].value() == 1
                &&& final(self).q_l@[r0].value() == 0 && final(self).q_r@[r0].value() == 0
                &&& final(self).q_4@[r0].value() == 0 && final(self).q_c@[r0].value() == 0
                &&& final(self).q_range@[r0].value() == 0
                    && final(self).q_logic@[r0].value() == 0
                &&& final(self).q_lookup@[r0].value() == 0
                &&& final(self).q_fixed_group_add@[r0].value() == 0
                &&& final(self).q_variable_group_add@[r0].value() == 0
                &&& final(self).w_l@[r0] == a && final(self).w_r@[r0] == a
                &&& final(self).w_o@[r0] == a && final(self).w_4@[r0].index == 0
            }),
    {
        let one = Scalar::one();
        let cons = Constraint::new().mult(one).output(one.neg()).a(a).b(a).o(a);
        let cons = Constraint::arithmetic(&cons);
        self.append_gate(cons);
        proof {
            let m = field_order() as int;
            let av = old(self).wit_val(a);
            assert(old(self).witnesses@[a.index as int].canon());
            crate::identity::lemma_eval_flat(*old(self), cons);
            crate::scalar::lemma_fneg_form(1);
            if av == 0 || av == 1 {
                let s: int = (cons.q_m.value() * av * av + cons.q_l.value() * av
                    + cons.q_r.value() * av + cons.q_o.value() * av
                    + cons.q_4.value() * av + cons.pi.value() + cons.q_c.value()) as int;
                vstd::arithmetic::mul::lemma_mul_basics(av as int);
                vstd::arithmetic::mul::lemma_mul_basics(s);
                if av == 1 {
                    vstd::arithmetic::div_mod::lemma_mod_multiples_vanish(1, 0, m);
                }
            }
        }
    }
    /// Conditionally selects between two witnesses: the result carries `a`'s
    /// value when `bit` is one and `b`'s value when it is zero, built from
    /// `bit·a + (1−bit)·b` with four chained gates. The bit is expected to
    /// be separately boolean-constrained.
    pub fn component_select(&mut self, bit: Witness, a: Witness, b: Witness) -> (r: Witness)
        requires
            old(self).wf(),
            bit.index < old(self).witnesses@.len(),
            a.index < old(self).witnesses@.len(),
            b.index < old(self).witnesses@.len(),
            old(self).wit_val(bit) == 0 || old(self).wit_val(bit) == 1,
            old(self).n + 4 <= u32::MAX,
        ensures
            final(self).wf(),
            r.index == old(self).witnesses@.len() + 3,
            final(self).wit_val(r) == if old(self).wit_val(bit) == 1 {
                old(self).wit_val(a)
            } else {
                old(self).wit_val(b)
            },
            final(self).n == old(self).n + 4,
            final(self).witnesses@.len() == old(self).witnesses@.len() + 4,
            forall|i: int| 0 <= i < old(self).witnesses@.len() ==>
                final(self).witnesses@[i] == old(self).witnesses@[i],
            final(self).lookup_table == old(self).lookup_table,
            final(self).public_inputs_sparse_store@ == old(self).public_inputs_sparse_store@,
            final(self).circuit_ok() <==> old(self).circuit_ok(),
    {
        let ghost s0 = *self;
        let one = Scalar::one();
        proof {
            assert(s0.witnesses@[bit.index as int].canon());
            assert(s0.witnesses@[a.index as int].canon());
            assert(s0.witnesses@[b.index as int].canon());
        }
        let cons = Constraint::new().mult(one).a(bit).b(a);
        let bit_times_a = self.gate_mul(cons);
        proof {
            crate::identity::lemma_combo_flat(s0, cons);
            vstd::arithmetic::mul::lemma_mul_basics(s0.wit_val(a) as int);
            vstd::arithmetic::div_mod::lemma_small_mod(s0.wit_val(a), field_order());
            assert(self.wit_val(bit_times_a) == if s0.wit_val(bit) == 1 {
                s0.wit_val(a)
            } else {
                0nat
            });
        }
        let ghost s1 = *self;
        let cons = Constraint::new().left(one.neg()).constant(one).a(bit);
        let one_min_bit = self.gate_add(cons);
        proof {
            crate::identity::lemma_combo_flat(s1, cons);
            crate::scalar::lemma_fneg_form(1);
            vstd::arithmetic::mul::lemma_mul_basics((field_order() - 1) as int);
            vstd::arithmetic::div_mod::lemma_mod_multiples_vanish(1, 0, field_order() as int);
            vstd::arithmetic::div_mod::lemma_small_mod(1, field_order());
            assert(self.wit_val(one_min_bit) == if s0.wit_val(bit) == 1 { 0nat } else { 1nat });
        }
        let ghost s2 = *self;
        let cons = Constraint::new().mult(one).a(one_min_bit).b(b);
        let one_min_bit_b = self.gate_mul(cons);
        proof {
            crate::identity::lemma_combo_flat(s2, cons);
            vstd::arithmetic::mul::lemma_mul_basics(s0.wit_val(b) as int);
            vstd::arithmetic::div_mod::lemma_small_mod(s0.wit_val(b), field_order());
            assert(self.wit_val(one_min_bit_b) == if s0.wit_val(bit) == 1 {
                0nat
            } else {
                s0.wit_val(b)
            });
        }
        let ghost s3 = *self;
        let cons = Constraint::new().left(one).right(one).a(one_min_bit_b).b(bit_times_a);
        let picked = self.gate_add(cons);
        proof {
            crate::identity::lemma_combo_flat(s3, cons);
            vstd::arithmetic::mul::lemma_mul_basics(s3.wit_val(one_min_bit_b) as int);
            vstd::arithmetic::mul::lemma_mul_basics(s3.wit_val(bit_times_a) as int);
            vstd::arithmetic::div_mod::lemma_small_mod(s0.wit_val(a), field_order());
            vstd::arithmetic::div_mod::lemma_small_mod(s0.wit_val(b), field_order());
        }
        picked
    }

    /// Conditionally keeps or clears a witness: the result carries `value`
    /// when `bit` is one and zero when it is zero, with one multiplication
    /// gate. The bit is expected to be separately boolean-constrained.
    pub fn component_select_zero(&mut self, bit: Witness, value: Witness) -> (r: Witness)
        requires
            old(self).wf(),
            bit.index < old(self).witnesses@.len(),
            value.index < old(self).witnesses@.len(),
            old(self).wit_val(bit) == 0 || old(self).wit_val(bit) == 1,
            old(self).n < u32::MAX,
        ensures
            final(self).wf(),
            r.index == old(self).witnesses@.len(),
            final(self).wit_val(r) == if old(self).wit_val(bit) == 1 {
                old(self).wit_val(value)
            } else {
                0nat
            },
            final(self).n == old(self).n + 1,
            final(self).witnesses@.len() == old(self).witnesses@.len() + 1,
            forall|i: int| 0 <= i < old(self).witnesses@.len() ==>
                final(self).witnesses@[i] == old(self).witnesses@[i],
            final(self).lookup_table == old(self).lookup_table,
            final(self).public_inputs_sparse_store@ == old(self).public_inputs_sparse_store@,
            final(self).circuit_ok() <==> old(self).circuit_ok(),
    {
        let ghost s0 = *self;
        let cons = Constraint::new().mult(Scalar::one()).a(bit).b(value);
        let picked = self.gate_mul(cons);
        proof {
            assert(s0.witnesses@[value.index as int].canon());
            crate::identity::lemma_combo_flat(s0, cons);
            vstd::arithmetic::mul::lemma_mul_basics(s0.wit_val(value) as int);
            vstd::arithmetic::mul::lemma_mul_basics(s0.wit_val(cons.w_d) as int);
            vstd::arithmetic::mul::lemma_mul_basics(s0.wit_val(bit) as int);
            vstd::arithmetic::div_mod::lemma_small_mod(s0.wit_val(value), field_order());
            vstd::arithmetic::div_mod::lemma_small_mod(0, field_order());
            assert(self.wit_val(picked) == if s0.wit_val(bit) == 1 {
                s0.wit_val(value)
            } else {
                0nat
            });
        }
        picked
    }

    /// Conditionally keeps or raises a witness: the result is a fresh
    /// witness carrying `value` when `bit` is one and one when it is zero,
    /// bound by the single gate `bit·value − bit − r + 1 = 0`. The bit is
    /// expected to be separately boolean-constrained.
    pub fn component_select_one(&mut self, bit: Witness, value: Witness) -> (r: Witness)
        requires
            old(self).wf(),
            bit.index < old(self).witnesses@.len(),
            value.index < old(self).witnesses@.len(),
            old(self).wit_val(bit) == 0 || old(self).wit_val(bit) == 1,
            old(self).n < u32::MAX,
        ensures
            final(self).wf(),
            r.index == old(self).witnesses@.len(),
            final(self).wit_val(r) == if old(self).wit_val(bit) == 1 {
                old(self).wit_val(value)
            } else {
                1nat
            },
            final(self).n == old(self).n + 1,
            final(self).witnesses@.len() == old(self).witnesses@.len() + 1,
            forall|i: int| 0 <= i < old(self).witnesses@.len() ==>
                final(self).witnesses@[i] == old(self).witnesses@[i],
            final(self).lookup_table == old(self).lookup_table,
            final(self).public_inputs_sparse_store@ == old(self).public_inputs_sparse_store@,
            final(self).circuit_ok() <==> old(self).circuit_ok(),
            ({
                let r0 = old(self).n as int;
                &&& final(self).q_m@[r0].value() == 1
                &&& final(self).q_l@[r0].value() == field_order() - 1
                &&& final(self).q_o@[r0].value() == field_order() - 1
                &&& final(self).q_c@[r0].value() == 1
                &&& final(self).q_arith@[r0].value() == 1
                &&& final(self).q_r@[r0].value() == 0 && final(self).q_4@[r0].value() == 0
                &&& final(self).q_range@[r0].value() == 0
                    && final(self).q_logic@[r0].value() == 0
                &&& final(self).q_lookup@[r0].value() == 0
                &&& final(self).q_fixed_group_add@[r0].value() == 0
                &&& final(self).q_variable_group_add@[r0].value() == 0
                &&& final(self).w_l@[r0] == bit && final(self).w_r@[r0] == value
                &&& final(self).w_o@[r0] == r && final(self).w_4@[r0].index == 0
            }),
    {
        let ghost s0 = *self;
        let one = Scalar::one();
        let b_val = self.witnesses[bit.index];
        let v_val = self.witnesses[value.index];
        proof {
            assert(b_val.canon() && v_val.canon());
        }
        let f_x = one.sub(b_val).add(b_val.mul(v_val));
        let f_x = self.append_witness(f_x);
        let cons = Constraint::new()
            .mult(one)
            .left(one.neg())
            .output(one.neg())
            .constant(one)
            .a(bit)
            .b(value)
            .o(f_x);
        let cons = Constraint::arithmetic(&cons);
        let ghost s1 = *self;
        self.append_gate(cons);
        proof {
            let m = field_order() as int;
            let bv = s0.wit_val(bit);
            let vv = s0.wit_val(value);
            crate::identity::lemma_eval_flat(s1, cons);
            crate::scalar::lemma_fneg_form(1);
            vstd::arithmetic::mul::lemma_mul_basics(vv as int);
            vstd::arithmetic::div_mod::lemma_small_mod(vv, field_order());
            if bv == 1 {
                assert(s1.wit_val(f_x) == vv) by {
                    crate::scalar::lemma_fneg_form(1);
                    vstd::arithmetic::div_mod::lemma_mod_multiples_vanish(
                        1, 0, field_order() as int);
                    vstd::arithmetic::div_mod::lemma_small_mod(0, field_order());
                    vstd::arithmetic::div_mod::lemma_small_mod(vv, field_order());
                }
                let s: int = (cons.q_m.value() * s1.wit_val(cons.w_a) * s1.wit_val(cons.w_b)
                    + cons.q_l.value() * s1.wit_val(cons.w_a)
                    + cons.q_r.value() * s1.wit_val(cons.w_b)
                    + cons.q_o.value() * s1.wit_val(cons.w_o)
                    + cons.q_4.value() * s1.wit_val(cons.w_d)
                    + cons.pi.value() + cons.q_c.value()) as int;
                assert(s == m * (1 + vv)) by (nonlinear_arith)
                    requires
                        s == 1 * 1 * (vv as int) + (m - 1) * 1 + 0 * (vv as int)
                            + (m - 1) * (vv as int) + 0 * (s1.wit_val(cons.w_d) as int)
                            + 0 + 1,
                {}
                assert((m * (1 + vv)) % m == 0) by {
                    vstd::arithmetic::div_mod::lemma_mod_multiples_vanish(
                        (1 + vv) as int, 0, m);
                }
                vstd::arithmetic::mul::lemma_mul_basics(s);
            } else {
                assert(s1.wit_val(f_x) == 1) by {
                    crate::scalar::lemma_fneg_form(0);
                    vstd::arithmetic::div_mod::lemma_small_mod(1, field_order());
                }
                let s: int = (cons.q_m.value() * s1.wit_val(cons.w_a) * s1.wit_val(cons.w_b)
                    + cons.q_l.value() * s1.wit_val(cons.w_a)
                    + cons.q_r.value() * s1.wit_val(cons.w_b)
                    + cons.q_o.value() * s1.wit_val(cons.w_o)
                    + cons.q_4.value() * s1.wit_val(cons.w_d)
                    + cons.pi.value() + cons.q_c.value()) as int;
                assert(s == m) by (nonlinear_arith)
                    requires
                        s == 1 * 0 * (vv as int) + (m - 1) * 0 + 0 * (vv as int)
                            + (m - 1) * 1 + 0 * (s1.wit_val(cons.w_d) as int)
                            + 0 + 1,
                {}
                assert((m * 1) % m == 0) by {
                    vstd::arithmetic::div_mod::lemma_mod_multiples_vanish(1, 0, m);
                }
                vstd::arithmetic::mul::lemma_mul_basics(s);
                vstd::arithmetic::mul::lemma_mul_basics(m);
            }
        }
        f_x
    }

    /// Decomposes `scalar` into its `n_bits` low-order bits, least
    /// significant first: one fresh boolean-constrained witness per bit and
    /// an accumulated weighted sum asserted equal to `scalar`, consuming
    /// `2·n_bits + 1` rows. The resulting circuit is satisfied exactly when
    /// the scalar's value fits in `n_bits` bits.
    #[verifier::rlimit(100)]
    #[verifier::spinoff_prover]
    pub fn component_decomposition(&mut self, scalar: Witness, n_bits: usize) -> (r: Vec<Witness>)
        requires
            old(self).wf(),
            scalar.index < old(self).witnesses@.len(),
            old(self).witnesses@.len() > 0,
            old(self).witnesses@[0].value() == 0,
            0 < n_bits <= 256,
            old(self).n + 2 * n_bits + 1 <= u32::MAX,
        ensures
            final(self).wf(),
            r@.len() == n_bits,
            forall|k: int| 0 <= k < n_bits ==> {
                &&& (#[trigger] r@[k]).index < final(self).witnesses@.len()
                &&& final(self).wit_val(r@[k])
                    == (old(self).wit_val(scalar) / pow2(k as nat)) % 2
            },
            final(self).n == old(self).n + 2 * n_bits + 1,
            final(self).lookup_table == old(self).lookup_table,
            final(self).public_inputs_sparse_store@ == old(self).public_inputs_sparse_store@,
            final(self).circuit_ok() <==> (old(self).circuit_ok()
                && old(self).wit_val(scalar) < pow2(n_bits as nat)),
    {
        let ghost s0 = *self;
        let ghost v = s0.wit_val(scalar);
        proof {
            assert(s0.witnesses@[scalar.index as int].canon());
        }
        let value = self.witnesses[scalar.index];
        let bits = value.bits();
        let mut decomposition: Vec<Witness> = Vec::new();
        let mut acc = TurboComposer::constant_zero();
        let mut i: usize = 0;
        proof {
            vstd::arithmetic::power2::lemma2_to64();
            vstd::arithmetic::div_mod::lemma_small_mod(0, 1);
        }
        while i < n_bits
            invariant
                self.wf(),
                0 <= i <= n_bits,
                n_bits <= 256,
                bits@.len() == 256,
                forall|k: int| 0 <= k < 256 ==> bits@[k] as nat == (v / pow2(k as nat)) % 2,
                v == s0.wit_val(scalar),
                v < field_order(),
                scalar.index < s0.witnesses@.len(),
                s0.witnesses@.len() <= self.witnesses@.len(),
                forall|k: int| 0 <= k < s0.witnesses@.len() ==>
                    self.witnesses@[k] == s0.witnesses@[k],
                self.n == s0.n + 2 * i,
                s0.n + 2 * n_bits + 1 <= u32::MAX,
                decomposition@.len() == i,
                forall|k: int| 0 <= k < i ==> {
                    &&& (#[trigger] decomposition@[k]).index < self.witnesses@.len()
                    &&& self.wit_val(decomposition@[k]) == (v / pow2(k as nat)) % 2
                },
                acc.index < self.witnesses@.len(),
                self.wit_val(acc) == v % pow2(i as nat),
                self.lookup_table == s0.lookup_table,
                self.public_inputs_sparse_store@ == s0.public_inputs_sparse_store@,
                self.circuit_ok() <==> s0.circuit_ok(),
            decreases n_bits - i,
        {
            let ghost s_pre = *self;
            let bit_scalar = Scalar::from_u64(bits[i] as u64);
            let d = self.append_witness(bit_scalar);
            proof {
                assert(bits@[i as int] as nat == (v / pow2(i as nat)) % 2);
                assert((v / pow2(i as nat)) % 2 < 2) by {
                    vstd::arithmetic::power2::lemma_pow2_pos(i as nat);
                    vstd::arithmetic::div_mod::lemma_mod_bound(
                        (v / pow2(i as nat)) as int, 2);
                }
            }
            self.component_boolean(d);
            let ghost s_mid = *self;
            let p = Scalar::pow2_mod(i as u64);
            let cons = Constraint::new().left(p).right(Scalar::one()).a(d).b(acc);
            let new_acc = self.gate_add(cons);
            proof {
                let m = field_order() as int;
                let bitv = s_mid.wit_val(d);
                let accv = s_mid.wit_val(acc);
                crate::identity::lemma_combo_flat(s_mid, cons);
                vstd::arithmetic::mul::lemma_mul_basics(p.value() as int);
                vstd::arithmetic::mul::lemma_mul_basics(accv as int);
                vstd::arithmetic::mul::lemma_mul_basics(bitv as int);
                vstd::arithmetic::mul::lemma_mul_basics(s_mid.wit_val(cons.w_d) as int);
                vstd::arithmetic::power2::lemma_pow2_pos(i as nat);
                vstd::arithmetic::power2::lemma_pow2_pos((i + 1) as nat);
                vstd::arithmetic::div_mod::lemma_mod_breakdown(
                    v as int, pow2(i as nat) as int, 2);
                assert(pow2((i + 1) as nat) == pow2(i as nat) * 2) by {
                    vstd::arithmetic::power2::lemma_pow2_unfold((i + 1) as nat);
                }
                assert(v % pow2((i + 1) as nat)
                    == pow2(i as nat) * ((v / pow2(i as nat)) % 2) + v % pow2(i as nat));
                assert(v % pow2((i + 1) as nat) <= v) by {
                    vstd::arithmetic::div_mod::lemma_mod_decreases(v, pow2((i + 1) as nat));
                }
                if bitv == 1 {
                    assert(pow2(i as nat) <= v) by {
                        assert((v / pow2(i as nat)) % 2 == 1);
                        assert(v / pow2(i as nat) >= 1) by {
                            if v / pow2(i as nat) == 0 {
                                vstd::arithmetic::div_mod::lemma_small_mod(0, 2);
                            }
                        }
                        vstd::arithmetic::div_mod::lemma_fundamental_div_mod(
                            v as int, pow2(i as nat) as int);
                        assert(v as int >= pow2(i as nat) as int * (v / pow2(i as nat)) as int)
                            by (nonlinear_arith)
                            requires
                                v as int == pow2(i as nat) as int
                                    * ((v / pow2(i as nat)) as int)
                                    + (v as int) % (pow2(i as nat) as int),
                                (v as int) % (pow2(i as nat) as int) >= 0,
                        {}
                        assert(pow2(i as nat) as int * ((v / pow2(i as nat)) as int)
                            >= pow2(i as nat) as int) by (nonlinear_arith)
                            requires
                                (v / pow2(i as nat)) as int >= 1,
                                pow2(i as nat) as int > 0,
                        {}
                    }
                    vstd::arithmetic::div_mod::lemma_small_mod(pow2(i as nat), field_order());
                    vstd::arithmetic::div_mod::lemma_small_mod(
                        (pow2(i as nat) + accv) as nat, field_order());
                } else {
                    vstd::arithmetic::div_mod::lemma_small_mod(accv, field_order());
                }
                assert(self.wit_val(new_acc) == v % pow2((i + 1) as nat));
            }
            decomposition.push(d);
            acc = new_acc;
            i = i + 1;
        }
        let ghost s_last = *self;
        self.assert_equal(acc, scalar);
        proof {
            vstd::arithmetic::power2::lemma_pow2_pos(n_bits as nat);
            vstd::arithmetic::div_mod::lemma_mod_bound(v as int, pow2(n_bits as nat) as int);
            if v < pow2(n_bits as nat) {
                vstd::arithmetic::div_mod::lemma_small_mod(v, pow2(n_bits as nat));
            }
        }
        decomposition
    }
}

} // verus!
