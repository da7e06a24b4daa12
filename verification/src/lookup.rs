//! The plonkup lookup table: an ordered, append-only collection of
//! width-four field tuples, queryable by its first three entries.

use vstd::prelude::*;
use crate::scalar::{Scalar, fmul};

verus! {

/// One table entry: a width-four tuple of field elements.
#[derive(Clone, Copy, PartialEq, Eq, Structural, Debug)]
pub struct TableRow {
    pub x: Scalar,
    pub y: Scalar,
    pub z: Scalar,
    pub w: Scalar,
}

impl TableRow {
    /// All four entries are canonical scalars.
    pub open spec fn canon(self) -> bool {
        self.x.canon() && self.y.canon() && self.z.canon() && self.w.canon()
    }
}

/// A row answers a three-key query when its first three entries equal the
/// keys.
pub open spec fn row_matches(r: TableRow, x: Scalar, y: Scalar, z: Scalar) -> bool {
    r.x == x && r.y == y && r.z == z
}

/// An ordered, append-only lookup table.
#[derive(Debug)]
pub struct LookupTable {
    pub rows: Vec<TableRow>,
}

impl LookupTable {
    /// Every row of the table is canonical.
    pub open spec fn canon(self) -> bool {
        forall|k: int| 0 <= k < self.rows@.len() ==> (#[trigger] self.rows@[k]).canon()
    }

    /// An empty table.
    pub fn new() -> (r: LookupTable)
        ensures
            r.rows@.len() == 0,
            r.canon(),
    {
        LookupTable { rows: Vec::new() }
    }

    /// Appends one arbitrary row.
    pub fn insert_special_row(&mut self, x: Scalar, y: Scalar, z: Scalar, w: Scalar)
        ensures
            final(self).rows@ == old(self).rows@.push(TableRow { x, y, z, w }),
    {
        self.rows.push(TableRow { x, y, z, w });
    }

    /// Appends the full multiplication table over `[lower, upper]`: one row
    /// `(a, b, 1, a·b)` for every ordered pair, in row-major order.
    pub fn insert_multi_mul(&mut self, lower: u64, upper: u64)
        requires
            lower <= upper,
            upper < u64::MAX,
        ensures
            ({
                let cnt = (upper - lower + 1) as nat;
                let base = old(self).rows@.len() as int;
                &&& final(self).rows@.len() == old(self).rows@.len() + cnt * cnt
                &&& forall|k: int| 0 <= k < base ==>
                        final(self).rows@[k] == old(self).rows@[k]
                &&& forall|i: int, j: int| 0 <= i < cnt && 0 <= j < cnt ==> {
                        let r = #[trigger] final(self).rows@[base + i * cnt + j];
                        &&& r.x.value() == lower + i
                        &&& r.y.value() == lower + j
                        &&& r.z.value() == 1
                        &&& r.w.value() == fmul((lower + i) as nat, (lower + j) as nat)
                        &&& r.canon()
                    }
            }),
    {
        let cnt: u64 = upper - lower + 1;
        let ghost base = self.rows@.len() as int;
        let mut i: u64 = 0;
        while i < cnt
            invariant
                cnt == upper - lower + 1,
                0 <= i <= cnt,
                self.rows@.len() == base + i * cnt,
                base == old(self).rows@.len(),
                forall|k: int| 0 <= k < base ==> self.rows@[k] == old(self).rows@[k],
                forall|p: int, j: int| 0 <= p < i && 0 <= j < cnt ==> {
                    let r = #[trigger] self.rows@[base + p * cnt + j];
                    &&& r.x.value() == lower + p
                    &&& r.y.value() == lower + j
                    &&& r.z.value() == 1
                    &&& r.w.value() == fmul((lower + p) as nat, (lower + j) as nat)
                    &&& r.canon()
                },
            decreases cnt - i,
        {
            let mut j: u64 = 0;
            while j < cnt
                invariant
                    cnt == upper - lower + 1,
                    0 <= i < cnt,
                    0 <= j <= cnt,
                    self.rows@.len() == base + i * cnt + j,
                    base == old(self).rows@.len(),
                    forall|k: int| 0 <= k < base ==> self.rows@[k] == old(self).rows@[k],
                    forall|p: int, q: int| 0 <= p < i && 0 <= q < cnt ==> {
                        let r = #[trigger] self.rows@[base + p * cnt + q];
                        &&& r.x.value() == lower + p
                        &&& r.y.value() == lower + q
                        &&& r.z.value() == 1
                        &&& r.w.value() == fmul((lower + p) as nat, (lower + q) as nat)
                        &&& r.canon()
                    },
                    forall|q: int| 0 <= q < j ==> {
                        let r = #[trigger] self.rows@[base + i * cnt + q];
                        &&& r.x.value() == lower + i
                        &&& r.y.value() == lower + q
                        &&& r.z.value() == 1
                        &&& r.w.value() == fmul((lower + i) as nat, (lower + q) as nat)
                        &&& r.canon()
                    },
                decreases cnt - j,
            {
                let av = Scalar::from_u64(lower + i);
                let bv = Scalar::from_u64(lower + j);
                let prod = av.mul(bv);
                let row = TableRow { x: av, y: bv, z: Scalar::one(), w: prod };
                let ghost prev = self.rows@;
                self.rows.push(row);
                proof {
                    assert forall|p: int, q: int| 0 <= p < i && 0 <= q < cnt implies
                        (#[trigger] self.rows@[base + p * cnt + q])
                            == prev[base + p * cnt + q] by {
                        assert(p * (cnt as int) + q < (i as int) * (cnt as int))
                            by (nonlinear_arith)
                            requires 0 <= p, p + 1 <= i, 0 <= q, q + 1 <= cnt;
                    }
                    assert(self.rows@[base + i * cnt + j] == row);
                }
                j = j + 1;
            }
            i = i + 1;
            proof {
                assert((i as int) * (cnt as int)
                    == (i - 1) * (cnt as int) + (cnt as int)) by (nonlinear_arith);
            }
        }
        proof {
            assert((cnt as int) * (cnt as int) == (cnt as nat) * (cnt as nat));
        }
    }

    /// Appends every row of `other`, in order, after the existing rows.
    pub fn append_rows(&mut self, other: &LookupTable)
        requires
            old(self).canon(),
            other.canon(),
        ensures
            final(self).canon(),
            final(self).rows@ == old(self).rows@ + other.rows@,
    {
        let mut k: usize = 0;
        while k < other.rows.len()
            invariant
                0 <= k <= other.rows@.len(),
                other.canon(),
                self.canon(),
                self.rows@ == old(self).rows@ + other.rows@.subrange(0, k as int),
            decreases other.rows@.len() - k,
        {
            self.rows.push(other.rows[k]);
            proof {
                assert(other.rows@.subrange(0, k + 1int)
                    =~= other.rows@.subrange(0, k as int).push(other.rows@[k as int]));
                assert(self.rows@ =~= old(self).rows@ + other.rows@.subrange(0, k + 1int));
            }
            k = k + 1;
        }
        proof {
            assert(other.rows@.subrange(0, other.rows@.len() as int) =~= other.rows@);
        }
    }

    /// Prepends the three rows that mirror the composer's dummy gates, so
    /// those gates stay valid lookups whatever else the table holds.
    pub fn prepend_dummy_rows(&mut self)
        requires
            old(self).canon(),
        ensures
            final(self).canon(),
            final(self).rows@.len() == old(self).rows@.len() + 3,
            forall|k: int| 0 <= k < old(self).rows@.len() ==>
                final(self).rows@[k + 3int] == old(self).rows@[k],
            final(self).rows@[0].x.value() == 3 && final(self).rows@[0].y.value() == 1
                && final(self).rows@[0].z.value() == 4 && final(self).rows@[0].w.value() == 9,
            final(self).rows@[1].x.value() == crate::scalar::field_order() - 20
                && final(self).rows@[1].y.value() == 6
                && final(self).rows@[1].z.value() == 7 && final(self).rows@[1].w.value() == 0,
            final(self).rows@[2].x.value() == 6 && final(self).rows@[2].y.value() == 7
                && final(self).rows@[2].z.value() == crate::scalar::field_order() - 20
                && final(self).rows@[2].w.value() == 1,
    {
        self.rows.insert(0, TableRow {
            x: Scalar::from_u64(6),
            y: Scalar::from_u64(7),
            z: Scalar::from_u64(20).neg(),
            w: Scalar::from_u64(1),
        });
        self.rows.insert(0, TableRow {
            x: Scalar::from_u64(20).neg(),
            y: Scalar::from_u64(6),
            z: Scalar::from_u64(7),
            w: Scalar::from_u64(0),
        });
        self.rows.insert(0, TableRow {
            x: Scalar::from_u64(3),
            y: Scalar::from_u64(1),
            z: Scalar::from_u64(4),
            w: Scalar::from_u64(9),
        });
        proof {
            crate::scalar::lemma_fneg_form(20);
        }
    }

    /// Resolves a three-key query: the fourth entry of the first row whose
    /// first three entries equal `(x, y, z)`, or `None` when no row matches.
    pub fn lookup(&self, x: Scalar, y: Scalar, z: Scalar) -> (r: Option<Scalar>)
        ensures
            (r is Some) <==> (exists|k: int|
                0 <= k < self.rows@.len() && row_matches(#[trigger] self.rows@[k], x, y, z)),
            r is Some ==> exists|k: int| {
                &&& 0 <= k < self.rows@.len()
                &&& row_matches(#[trigger] self.rows@[k], x, y, z)
                &&& r->Some_0 == self.rows@[k].w
                &&& forall|j: int| 0 <= j < k ==> !row_matches(#[trigger] self.rows@[j], x, y, z)
            },
    {
        let mut k: usize = 0;
        while k < self.rows.len()
            invariant
                0 <= k <= self.rows@.len(),
                forall|j: int| 0 <= j < k ==> !row_matches(#[trigger] self.rows@[j], x, y, z),
            decreases self.rows@.len() - k,
        {
            let row = self.rows[k];
            if row.x == x && row.y == y && row.z == z {
                return Some(row.w);
            }
            k = k + 1;
        }
        None
    }
}

} // verus!
