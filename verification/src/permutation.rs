//! The copy-constraint bookkeeping: for every witness, the list of wire
//! positions it occupies. The composer registers the four sites of every row
//! as it appends it; the occurrence lists are the cycles the downstream
//! grand-product argument consumes.

use vstd::prelude::*;
use crate::constraint::Witness;

verus! {

/// One wire position: a column tag together with the row index.
#[derive(Clone, Copy, PartialEq, Eq, Structural, Debug)]
pub enum WireData {
    Left(usize),
    Right(usize),
    Output(usize),
    Fourth(usize),
}

impl WireData {
    /// The row this position lies in.
    pub open spec fn row(self) -> nat {
        match self {
            WireData::Left(r) => r as nat,
            WireData::Right(r) => r as nat,
            WireData::Output(r) => r as nat,
            WireData::Fourth(r) => r as nat,
        }
    }
}

/// A sequence holds no element twice.
pub open spec fn no_dup<T>(s: Seq<T>) -> bool {
    forall|i: int, j: int| 0 <= i < j < s.len() ==> s[i] != s[j]
}

/// Per-witness occurrence lists, indexed by the witness's arena index.
#[derive(Debug)]
pub struct Permutation {
    pub variable_map: Vec<Vec<WireData>>,
}

impl Permutation {
    /// Whether the occurrence list of witness `w` holds position `x`.
    pub open spec fn occurs(self, w: int, x: WireData) -> bool {
        self.variable_map@[w]@.contains(x)
    }

    /// An empty permutation tracking no witnesses.
    pub fn new() -> (r: Permutation)
        ensures
            r.variable_map@.len() == 0,
    {
        Permutation { variable_map: Vec::new() }
    }

    /// Allocates the next witness handle, with an empty occurrence list.
    pub fn new_variable(&mut self) -> (r: Witness)
        ensures
            r.index == old(self).variable_map@.len(),
            final(self).variable_map@.len() == old(self).variable_map@.len() + 1,
            forall|i: int| 0 <= i < old(self).variable_map@.len() ==>
                final(self).variable_map@[i] == old(self).variable_map@[i],
            final(self).variable_map@[old(self).variable_map@.len() as int]@
                == Seq::<WireData>::empty(),
    {
        let index = self.variable_map.len();
        self.variable_map.push(Vec::new());
        Witness::new(index)
    }

    /// Appends one position to the occurrence list of one witness.
    fn add_variable_to_map(&mut self, var: Witness, x: WireData)
        requires
            var.index < old(self).variable_map@.len(),
        ensures
            final(self).variable_map@.len() == old(self).variable_map@.len(),
            final(self).variable_map@[var.index as int]@
                == old(self).variable_map@[var.index as int]@.push(x),
            forall|i: int| 0 <= i < old(self).variable_map@.len() && i != var.index ==>
                final(self).variable_map@[i] == old(self).variable_map@[i],
    {
        self.variable_map[var.index].push(x);
    }

    /// Registers the four wire positions of row `n` against the witnesses
    /// bound there. A position joins exactly the list of its witness, and
    /// every list keeps its old entries.
    pub fn add_variables_to_map(
        &mut self,
        a: Witness,
        b: Witness,
        o: Witness,
        d: Witness,
        n: usize,
    )
        requires
            a.index < old(self).variable_map@.len(),
            b.index < old(self).variable_map@.len(),
            o.index < old(self).variable_map@.len(),
            d.index < old(self).variable_map@.len(),
        ensures
            final(self).variable_map@.len() == old(self).variable_map@.len(),
            forall|w: int, x: WireData| 0 <= w < old(self).variable_map@.len() ==>
                (final(self).occurs(w, x) <==> {
                    ||| old(self).occurs(w, x)
                    ||| (w == a.index && x == WireData::Left(n))
                    ||| (w == b.index && x == WireData::Right(n))
                    ||| (w == o.index && x == WireData::Output(n))
                    ||| (w == d.index && x == WireData::Fourth(n))
                }),
            (forall|w: int| 0 <= w < old(self).variable_map@.len() ==> {
                &&& no_dup(old(self).variable_map@[w]@)
                &&& forall|x: WireData| old(self).occurs(w, x) ==> x.row() < n
            }) ==> forall|w: int| 0 <= w < final(self).variable_map@.len() ==>
                no_dup(#[trigger] final(self).variable_map@[w]@),
    {
        broadcast use vstd::seq_lib::lemma_seq_contains_after_push;

        self.add_variable_to_map(a, WireData::Left(n));
        self.add_variable_to_map(b, WireData::Right(n));
        self.add_variable_to_map(o, WireData::Output(n));
        self.add_variable_to_map(d, WireData::Fourth(n));
        proof {
            if forall|w: int| 0 <= w < old(self).variable_map@.len() ==> {
                &&& no_dup(old(self).variable_map@[w]@)
                &&& forall|x: WireData| old(self).occurs(w, x) ==> x.row() < n
            } {
                assert forall|w: int| 0 <= w < self.variable_map@.len() implies
                    no_dup(#[trigger] self.variable_map@[w]@) by {
                    let s0 = old(self).variable_map@[w]@;
                    let s1 = self.variable_map@[w]@;
                    assert(no_dup(s0));
                    assert forall|i: int, j: int| 0 <= i < j < s1.len() implies
                        s1[i] != s1[j] by {
                        if j < s0.len() {
                            assert(s1[i] == s0[i] && s1[j] == s0[j]);
                        } else if i < s0.len() {
                            assert(s1[i] == s0[i]);
                            assert(s0.contains(s0[i]));
                            assert(old(self).occurs(w, s0[i]));
                            assert(s1[j].row() == n);
                        }
                    }
                }
            }
        }
    }
}

} // verus!
