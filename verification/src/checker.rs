//! The debug checker: evaluates the full row identity at every row of the
//! circuit against the assigned witness values, and reports the first row
//! where it fails to vanish.

use vstd::prelude::*;
use crate::scalar::Scalar;
use crate::composer::TurboComposer;

verus! {

/// Evaluates `f·(f−1)·(f−2)·(f−3)`, the base-4 digit polynomial.
fn delta_exec(f: Scalar) -> (r: Scalar)
    requires
        f.canon(),
    ensures
        r.value() == crate::identity::delta(f.value()),
        r.canon(),
{
    let one = Scalar::from_u64(1);
    let two = Scalar::from_u64(2);
    let three = Scalar::from_u64(3);
    f.mul(f.sub(one)).mul(f.sub(two)).mul(f.sub(three))
}

impl TurboComposer {
    /// Evaluates the row identity at row `i`, with `nx` its cyclic
    /// successor and `pi_i` the public input carried by the row.
    fn eval_row(&self, i: usize, nx: usize, pi_i: Scalar) -> (r: Scalar)
        requires
            self.wf(),
            i < self.n,
            nx < self.n,
            pi_i.value() == self.pi_val(i as int),
            pi_i.canon(),
        ensures
            r.value() == crate::scalar::fadd(
                crate::scalar::fadd(
                    self.arith_eval(i as int),
                    self.logic_eval(i as int, nx as int),
                ),
                self.range_eval(i as int, nx as int),
            ),
    {
        proof {
            reveal(TurboComposer::arith_eval);
            reveal(TurboComposer::logic_eval);
            reveal(TurboComposer::range_eval);
            assert(self.wires_ok(i as int));
            assert(self.wires_ok(nx as int));
        }
        let a = self.witnesses[self.w_l[i].index];
        let b = self.witnesses[self.w_r[i].index];
        let c = self.witnesses[self.w_o[i].index];
        let d = self.witnesses[self.w_4[i].index];
        let a_next = self.witnesses[self.w_l[nx].index];
        let b_next = self.witnesses[self.w_r[nx].index];
        let d_next = self.witnesses[self.w_4[nx].index];
        proof {
            assert(a.canon() && b.canon() && c.canon() && d.canon());
            assert(a_next.canon() && b_next.canon() && d_next.canon());
        }
        let four = Scalar::from_u64(4);
        let one = Scalar::from_u64(1);
        let minus_one = one.neg();
        let zero = Scalar::zero();

        let arith = self.q_arith[i].mul(
            self.q_m[i].mul(a).mul(b)
                .add(self.q_l[i].mul(a))
                .add(self.q_r[i].mul(b))
                .add(self.q_o[i].mul(c))
                .add(self.q_4[i].mul(d))
                .add(pi_i)
                .add(self.q_c[i]),
        );

        let da = delta_exec(a_next.sub(four.mul(a)));
        let db = delta_exec(b_next.sub(four.mul(b)));
        let dd = delta_exec(d_next.sub(four.mul(d)));
        let ql = self.q_logic[i];
        proof {
            crate::scalar::lemma_value_faithful(ql, one);
            crate::scalar::lemma_value_faithful(ql, minus_one);
            crate::scalar::lemma_fneg_form(1);
        }
        let w = if ql == one {
            a.and(b).sub(d)
        } else if ql == minus_one {
            a.xor(b).sub(d)
        } else {
            zero
        };
        let logic = ql.mul(da.sub(db).mul(c).add(da).add(db).add(dd).add(w));

        let range = self.q_range[i].mul(
            delta_exec(c.sub(four.mul(d)))
                .add(delta_exec(b.sub(four.mul(c))))
                .add(delta_exec(a.sub(four.mul(b))))
                .add(delta_exec(d_next.sub(four.mul(a)))),
        );

        arith.add(logic).add(range)
    }

    /// Evaluates the full row identity at every row against the assigned
    /// witness values: returns `None` when every row vanishes, and otherwise
    /// the index of the first row that does not.
    pub fn check_circuit_satisfied(&self) -> (r: Option<u32>)
        requires
            self.wf(),
        ensures
            (r is None) <==> (forall|i: int| 0 <= i < self.n ==> self.row_ok(i)),
            r is Some ==> {
                &&& r->Some_0 < self.n
                &&& !self.row_ok(r->Some_0 as int)
                &&& forall|j: int| 0 <= j < r->Some_0 ==> self.row_ok(j)
            },
    {
        let dense = self.to_dense_public_inputs();
        let zero = Scalar::zero();
        let n = self.n as usize;
        let mut i: usize = 0;
        while i < n
            invariant
                self.wf(),
                n == self.n,
                0 <= i <= n,
                dense@.len() == self.n,
                forall|k: int| 0 <= k < self.n ==>
                    (#[trigger] dense@[k]).value() == self.pi_val(k) && dense@[k].canon(),
                forall|j: int| 0 <= j < i ==> self.row_ok(j),
                zero.value() == 0,
            decreases n - i,
        {
            let nx = if i + 1 == n { 0 } else { i + 1 };
            let k = self.eval_row(i, nx, dense[i]);
            proof {
                crate::scalar::lemma_value_faithful(k, zero);
            }
            if !(k == zero) {
                proof {
                    assert(!self.row_ok(i as int));
                }
                return Some(i as u32);
            }
            proof {
                assert(self.row_ok(i as int));
            }
            i = i + 1;
        }
        None
    }
}

} // verus!
