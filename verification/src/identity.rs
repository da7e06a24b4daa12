//! The row identity: the polynomial equation a satisfying assignment must
//! make zero at every row. These specifications are the meaning of a
//! circuit; the executable checker in the composer evaluates them row by
//! row.

use vstd::prelude::*;
use crate::scalar::{Scalar, field_order, fadd, fmul, fsub};
use crate::constraint::{Constraint, Witness};
use crate::composer::TurboComposer;

verus! {

/// The quad range polynomial `f(f-1)(f-2)(f-3)`, zero exactly on the base-4
/// digits `{0,1,2,3}`.
pub open spec fn delta(f: nat) -> nat {
    fmul(fmul(fmul(f, fsub(f, 1)), fsub(f, 2)), fsub(f, 3))
}

/// The value of the bitwise and of two canonical representations, reduced
/// modulo the field order.
pub open spec fn sand(a: Scalar, b: Scalar) -> nat {
    (Scalar { l0: a.l0 & b.l0, l1: a.l1 & b.l1, l2: a.l2 & b.l2, l3: a.l3 & b.l3 }).value()
        % field_order()
}

/// The value of the bitwise xor of two canonical representations, reduced
/// modulo the field order.
pub open spec fn sxor(a: Scalar, b: Scalar) -> nat {
    (Scalar { l0: a.l0 ^ b.l0, l1: a.l1 ^ b.l1, l2: a.l2 ^ b.l2, l3: a.l3 ^ b.l3 }).value()
        % field_order()
}

impl TurboComposer {
    /// The scalar assigned to a witness.
    pub open spec fn wit_sc(self, w: Witness) -> Scalar {
        self.witnesses@[w.index as int]
    }

    /// The value assigned to a witness.
    pub open spec fn wit_val(self, w: Witness) -> nat {
        self.wit_sc(w).value()
    }

    /// The arithmetic operand of row `i`:
    /// `q_arith · (q_m·a·b + q_l·a + q_r·b + q_o·c + q_4·d + PI + q_c)`.
    #[verifier::opaque]
    pub open spec fn arith_eval(self, i: int) -> nat {
        let a = self.wit_val(self.w_l@[i]);
        let b = self.wit_val(self.w_r@[i]);
        let c = self.wit_val(self.w_o@[i]);
        let d = self.wit_val(self.w_4@[i]);
        fmul(
            self.q_arith@[i].value(),
            fadd(
                fadd(
                    fadd(
                        fadd(
                            fadd(
                                fadd(fmul(fmul(self.q_m@[i].value(), a), b),
                                    fmul(self.q_l@[i].value(), a)),
                                fmul(self.q_r@[i].value(), b),
                            ),
                            fmul(self.q_o@[i].value(), c),
                        ),
                        fmul(self.q_4@[i].value(), d),
                    ),
                    self.pi_val(i),
                ),
                self.q_c@[i].value(),
            ),
        )
    }

    /// The logic operand of row `i`, with `nx` the cyclic successor row:
    /// `q_logic · ((δ(a'−4a) − δ(b'−4b))·c + δ(a'−4a) + δ(b'−4b) + δ(d'−4d)
    ///             + w)` where `w` is `(a & b) − d` when `q_logic` is one,
    /// `(a ^ b) − d` when it is minus one, and zero otherwise.
    #[verifier::opaque]
    pub open spec fn logic_eval(self, i: int, nx: int) -> nat {
        let a = self.wit_sc(self.w_l@[i]);
        let b = self.wit_sc(self.w_r@[i]);
        let c = self.wit_val(self.w_o@[i]);
        let d = self.wit_val(self.w_4@[i]);
        let a_next = self.wit_val(self.w_l@[nx]);
        let b_next = self.wit_val(self.w_r@[nx]);
        let d_next = self.wit_val(self.w_4@[nx]);
        let da = delta(fsub(a_next, fmul(4, a.value())));
        let db = delta(fsub(b_next, fmul(4, b.value())));
        let dd = delta(fsub(d_next, fmul(4, d)));
        let ql = self.q_logic@[i].value();
        let w = if ql == 1 {
            fsub(sand(a, b), d)
        } else if ql == field_order() - 1 {
            fsub(sxor(a, b), d)
        } else {
            0
        };
        fmul(ql, fadd(fadd(fadd(fadd(fmul(fsub(da, db), c), da), db), dd), w))
    }

    /// The range operand of row `i`, with `nx` the cyclic successor row:
    /// `q_range · (δ(c−4d) + δ(b−4c) + δ(a−4b) + δ(d'−4a))`.
    #[verifier::opaque]
    pub open spec fn range_eval(self, i: int, nx: int) -> nat {
        let a = self.wit_val(self.w_l@[i]);
        let b = self.wit_val(self.w_r@[i]);
        let c = self.wit_val(self.w_o@[i]);
        let d = self.wit_val(self.w_4@[i]);
        let d_next = self.wit_val(self.w_4@[nx]);
        fmul(
            self.q_range@[i].value(),
            fadd(
                fadd(fadd(delta(fsub(c, fmul(4, d))), delta(fsub(b, fmul(4, c)))),
                    delta(fsub(a, fmul(4, b)))),
                delta(fsub(d_next, fmul(4, a))),
            ),
        )
    }

    /// The full row identity of row `i`: the sum of the three operands,
    /// with the successor row taken cyclically.
    pub open spec fn row_eval(self, i: int) -> nat {
        let nx = if i + 1 == self.n as int { 0int } else { i + 1 };
        fadd(fadd(self.arith_eval(i), self.logic_eval(i, nx)), self.range_eval(i, nx))
    }

    /// Row `i` satisfies the identity.
    pub open spec fn row_ok(self, i: int) -> bool {
        self.row_eval(i) == 0
    }

    /// Row `i` is a purely arithmetic or lookup row whose arithmetic operand
    /// vanishes. Such a row satisfies the identity no matter what its
    /// neighbours hold, so satisfaction survives appending further rows.
    pub open spec fn gate_ok(self, i: int) -> bool {
        &&& self.q_logic@[i].value() == 0
        &&& self.q_range@[i].value() == 0
        &&& self.arith_eval(i) == 0
    }

    /// Every row of the circuit is a satisfied arithmetic or lookup row.
    pub open spec fn circuit_ok(self) -> bool {
        forall|i: int| 0 <= i < self.n as int ==> self.gate_ok(i)
    }

    /// The arithmetic operand of the row a constraint would append, over the
    /// current witness assignment.
    #[verifier::opaque]
    pub open spec fn constraint_eval(self, c: Constraint) -> nat {
        let a = self.wit_val(c.w_a);
        let b = self.wit_val(c.w_b);
        let o = self.wit_val(c.w_o);
        let d = self.wit_val(c.w_d);
        fmul(
            c.q_arith.value(),
            fadd(
                fadd(
                    fadd(
                        fadd(
                            fadd(
                                fadd(fmul(fmul(c.q_m.value(), a), b), fmul(c.q_l.value(), a)),
                                fmul(c.q_r.value(), b),
                            ),
                            fmul(c.q_o.value(), o),
                        ),
                        fmul(c.q_4.value(), d),
                    ),
                    c.pi.value(),
                ),
                c.q_c.value(),
            ),
        )
    }
}

impl TurboComposer {
    /// The value a computed-output gate assigns: the constraint's equation
    /// without its output term, `q_m·a·b + q_l·a + q_r·b + q_4·d + q_c + PI`.
    #[verifier::opaque]
    pub open spec fn gate_combo(self, c: Constraint) -> nat {
        let a = self.wit_val(c.w_a);
        let b = self.wit_val(c.w_b);
        let d = self.wit_val(c.w_d);
        fadd(
            fadd(
                fadd(
                    fadd(fmul(fmul(c.q_m.value(), a), b), fmul(c.q_l.value(), a)),
                    fmul(c.q_r.value(), b),
                ),
                fmul(c.q_4.value(), d),
            ),
            fadd(c.q_c.value(), c.pi.value()),
        )
    }
}

/// `gate_combo` flattened to a single reduction of the integer sum.
pub proof fn lemma_combo_flat(prev: TurboComposer, c: Constraint)
    requires
        c.q_c.value() < field_order(),
        c.pi.value() < field_order(),
    ensures
        prev.gate_combo(c) == ((c.q_m.value() * prev.wit_val(c.w_a) * prev.wit_val(c.w_b)
            + c.q_l.value() * prev.wit_val(c.w_a)
            + c.q_r.value() * prev.wit_val(c.w_b)
            + c.q_4.value() * prev.wit_val(c.w_d)
            + c.q_c.value() + c.pi.value()) as int) % (field_order() as int),
{
    reveal(TurboComposer::gate_combo);
    let m = field_order() as int;
    let a = prev.wit_val(c.w_a) as int;
    let b = prev.wit_val(c.w_b) as int;
    let d = prev.wit_val(c.w_d) as int;
    let qm = c.q_m.value() as int;
    let ql = c.q_l.value() as int;
    let qr = c.q_r.value() as int;
    let q4 = c.q_4.value() as int;
    let qc = c.q_c.value() as int;
    let pi = c.pi.value() as int;
    vstd::arithmetic::div_mod::lemma_mul_mod_noop_left(qm * a, b, m);
    vstd::arithmetic::div_mod::lemma_add_mod_noop(qm * a * b, ql * a, m);
    vstd::arithmetic::div_mod::lemma_add_mod_noop(qm * a * b + ql * a, qr * b, m);
    vstd::arithmetic::div_mod::lemma_add_mod_noop(qm * a * b + ql * a + qr * b, q4 * d, m);
    vstd::arithmetic::div_mod::lemma_small_mod(c.q_c.value(), field_order());
    vstd::arithmetic::div_mod::lemma_small_mod(c.pi.value(), field_order());
    vstd::arithmetic::div_mod::lemma_add_mod_noop(qc, pi, m);
    vstd::arithmetic::div_mod::lemma_add_mod_noop(
        qm * a * b + ql * a + qr * b + q4 * d, qc + pi, m);
}

/// `constraint_eval` flattened to a single reduction of the integer sum.
pub proof fn lemma_eval_flat(prev: TurboComposer, c: Constraint)
    requires
        c.q_c.value() < field_order(),
        c.pi.value() < field_order(),
    ensures
        prev.constraint_eval(c) == ((c.q_arith.value()
            * (c.q_m.value() * prev.wit_val(c.w_a) * prev.wit_val(c.w_b)
                + c.q_l.value() * prev.wit_val(c.w_a)
                + c.q_r.value() * prev.wit_val(c.w_b)
                + c.q_o.value() * prev.wit_val(c.w_o)
                + c.q_4.value() * prev.wit_val(c.w_d)
                + c.pi.value() + c.q_c.value())) as int)
            % (field_order() as int),
{
    reveal(TurboComposer::constraint_eval);
    let m = field_order() as int;
    let a = prev.wit_val(c.w_a) as int;
    let b = prev.wit_val(c.w_b) as int;
    let o = prev.wit_val(c.w_o) as int;
    let d = prev.wit_val(c.w_d) as int;
    let qm = c.q_m.value() as int;
    let ql = c.q_l.value() as int;
    let qr = c.q_r.value() as int;
    let qo = c.q_o.value() as int;
    let q4 = c.q_4.value() as int;
    let qc = c.q_c.value() as int;
    let pi = c.pi.value() as int;
    vstd::arithmetic::div_mod::lemma_mul_mod_noop_left(qm * a, b, m);
    vstd::arithmetic::div_mod::lemma_add_mod_noop(qm * a * b, ql * a, m);
    vstd::arithmetic::div_mod::lemma_add_mod_noop(qm * a * b + ql * a, qr * b, m);
    vstd::arithmetic::div_mod::lemma_add_mod_noop(qm * a * b + ql * a + qr * b, qo * o, m);
    vstd::arithmetic::div_mod::lemma_add_mod_noop(
        qm * a * b + ql * a + qr * b + qo * o, q4 * d, m);
    vstd::arithmetic::div_mod::lemma_small_mod(c.pi.value(), field_order());
    vstd::arithmetic::div_mod::lemma_add_mod_noop(
        qm * a * b + ql * a + qr * b + qo * o + q4 * d, pi, m);
    vstd::arithmetic::div_mod::lemma_small_mod(c.q_c.value(), field_order());
    vstd::arithmetic::div_mod::lemma_add_mod_noop(
        qm * a * b + ql * a + qr * b + qo * o + q4 * d + pi, qc, m);
    vstd::arithmetic::div_mod::lemma_mul_mod_noop_right(
        c.q_arith.value() as int,
        qm * a * b + ql * a + qr * b + qo * o + q4 * d + pi + qc,
        m,
    );
}

/// The equation of a linear gate (`q_arith = q_l = 1`, no multiplication,
/// output or fourth term), written out: its operand is
/// `a + q_r·b + PI + q_c`.
pub proof fn lemma_linear_gate_eval(prev: TurboComposer, c: Constraint)
    requires
        c.q_arith.value() == 1,
        c.q_m.value() == 0,
        c.q_l.value() == 1,
        c.q_o.value() == 0,
        c.q_4.value() == 0,
        prev.wit_val(c.w_a) < field_order(),
        prev.wit_val(c.w_b) < field_order(),
    ensures
        prev.constraint_eval(c) == fadd(
            fadd(
                fadd(prev.wit_val(c.w_a), fmul(c.q_r.value(), prev.wit_val(c.w_b))),
                c.pi.value(),
            ),
            c.q_c.value(),
        ),
{
    reveal(TurboComposer::constraint_eval);
    let m = field_order();
    let av = prev.wit_val(c.w_a);
    let bv = prev.wit_val(c.w_b);
    let ov = prev.wit_val(c.w_o);
    let dv = prev.wit_val(c.w_d);
    vstd::arithmetic::mul::lemma_mul_basics(av as int);
    vstd::arithmetic::mul::lemma_mul_basics(bv as int);
    vstd::arithmetic::mul::lemma_mul_basics(ov as int);
    vstd::arithmetic::mul::lemma_mul_basics(dv as int);
    vstd::arithmetic::div_mod::lemma_small_mod(av, m);
    let t = fadd(av, fmul(c.q_r.value(), bv));
    vstd::arithmetic::mul::lemma_mul_basics(t as int);
    vstd::arithmetic::div_mod::lemma_small_mod(t, m);
    let u = fadd(fadd(t, c.pi.value()), c.q_c.value());
    vstd::arithmetic::mul::lemma_mul_basics(u as int);
    let u = fadd(fadd(t, c.pi.value()), c.q_c.value());
    vstd::arithmetic::div_mod::lemma_small_mod(u, m);
}

/// Both dummy rows satisfy their arithmetic operand: each row's fixed
/// selector and witness content sums to zero in the field.
#[verifier::rlimit(100)]
#[verifier::spinoff_prover]
pub proof fn lemma_dummy_gate_evals(prev: TurboComposer, first: Constraint, second: Constraint)
    requires
        first.q_arith.value() == 1,
        first.q_m.value() == 1,
        first.q_l.value() == 2,
        first.q_r.value() == 3,
        first.q_o.value() == 4,
        first.q_4.value() == 1,
        first.q_c.value() == 4,
        first.pi.value() == 0,
        prev.wit_val(first.w_a) == 6,
        prev.wit_val(first.w_b) == 7,
        prev.wit_val(first.w_o) == field_order() - 20,
        prev.wit_val(first.w_d) == 1,
        second.q_arith.value() == 1,
        second.q_m.value() == 1,
        second.q_l.value() == 1,
        second.q_r.value() == 1,
        second.q_o.value() == 1,
        second.q_4.value() == 0,
        second.q_c.value() == 127,
        second.pi.value() == 0,
        prev.wit_val(second.w_a) == field_order() - 20,
        prev.wit_val(second.w_b) == 6,
        prev.wit_val(second.w_o) == 7,
    ensures
        prev.constraint_eval(first) == 0,
        prev.constraint_eval(second) == 0,
{
    reveal(TurboComposer::constraint_eval);
}

/// A row whose arithmetic toggle is zero has a vanishing arithmetic
/// operand, whatever the rest of the row holds.
pub proof fn lemma_arith_eval_zero_toggle(c: TurboComposer, i: int)
    requires
        c.q_arith@[i].value() == 0,
    ensures
        c.arith_eval(i) == 0,
{
    reveal(TurboComposer::arith_eval);
    let a = c.wit_val(c.w_l@[i]);
    let b = c.wit_val(c.w_r@[i]);
    let o = c.wit_val(c.w_o@[i]);
    let d = c.wit_val(c.w_4@[i]);
    let x = fadd(
        fadd(
            fadd(
                fadd(
                    fadd(
                        fadd(fmul(fmul(c.q_m@[i].value(), a), b), fmul(c.q_l@[i].value(), a)),
                        fmul(c.q_r@[i].value(), b),
                    ),
                    fmul(c.q_o@[i].value(), o),
                ),
                fmul(c.q_4@[i].value(), d),
            ),
            c.pi_val(i),
        ),
        c.q_c@[i].value(),
    );
    vstd::arithmetic::mul::lemma_mul_basics(x as int);
}

/// A constraint whose arithmetic toggle is zero has a vanishing equation,
/// whatever its other coefficients and wires hold.
pub proof fn lemma_constraint_eval_zero_toggle(prev: TurboComposer, c: Constraint)
    requires
        c.q_arith.value() == 0,
    ensures
        prev.constraint_eval(c) == 0,
{
    reveal(TurboComposer::constraint_eval);
    let a = prev.wit_val(c.w_a);
    let b = prev.wit_val(c.w_b);
    let o = prev.wit_val(c.w_o);
    let d = prev.wit_val(c.w_d);
    let x = fadd(
        fadd(
            fadd(
                fadd(
                    fadd(
                        fadd(fmul(fmul(c.q_m.value(), a), b), fmul(c.q_l.value(), a)),
                        fmul(c.q_r.value(), b),
                    ),
                    fmul(c.q_o.value(), o),
                ),
                fmul(c.q_4.value(), d),
            ),
            c.pi.value(),
        ),
        c.q_c.value(),
    );
    vstd::arithmetic::mul::lemma_mul_basics(x as int);
}

/// A row with zero logic and range selectors has vanishing logic and range
/// operands: both are products scaled by that selector.
#[verifier::rlimit(100)]
#[verifier::spinoff_prover]
pub proof fn lemma_logic_range_vanish(c: TurboComposer, i: int, nx: int)
    requires
        c.q_logic@[i].value() == 0,
        c.q_range@[i].value() == 0,
    ensures
        c.logic_eval(i, nx) == 0,
        c.range_eval(i, nx) == 0,
{
    reveal(TurboComposer::logic_eval);
    reveal(TurboComposer::range_eval);
}

/// Rows whose logic and range selectors are zero satisfy the full row
/// identity as soon as their arithmetic operand vanishes: the other two
/// operands are products with a zero selector. So a circuit made of such
/// rows makes the identity of every row evaluate to the additive identity.
pub proof fn lemma_circuit_ok_rows_satisfied(c: TurboComposer)
    requires
        c.circuit_ok(),
    ensures
        forall|i: int| 0 <= i < c.n as int ==> c.row_ok(i),
{
    assert forall|i: int| 0 <= i < c.n as int implies c.row_ok(i) by {
        let nx = if i + 1 == c.n as int { 0int } else { i + 1 };
        assert(c.gate_ok(i));
        lemma_logic_range_vanish(c, i, nx);
        assert(c.row_eval(i) == fadd(fadd(0, 0), 0));
    }
}

} // verus!
