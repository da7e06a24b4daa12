//! Witness handles, selector roles, and the transient gate-row builder.

use vstd::prelude::*;
use crate::scalar::Scalar;

verus! {

/// A handle for a circuit variable: a dense index into the composer's
/// witness-value arena. It carries no value of its own.
#[derive(Clone, Copy, PartialEq, Eq, Structural, Debug)]
pub struct Witness {
    pub index: usize,
}

impl Witness {
    /// Wraps an arena index as a handle.
    pub fn new(index: usize) -> (r: Witness)
        ensures
            r.index == index,
    {
        Witness { index }
    }
}

/// The coefficient roles of the universal gate equation: one coefficient per
/// role is stored for every row.
#[derive(Clone, Copy, PartialEq, Eq, Structural, Debug)]
pub enum Selector {
    Multiplication,
    Left,
    Right,
    Output,
    Fourth,
    Constant,
    PublicInput,
    Arithmetic,
    Range,
    Logic,
    GroupAddFixedBase,
    GroupAddVariableBase,
    Lookup,
}

/// The four wire columns a gate row binds witnesses to.
#[derive(Clone, Copy, PartialEq, Eq, Structural, Debug)]
pub enum WiredWitness {
    A,
    B,
    O,
    D,
}

/// A transient gate-row description: up to four wire bindings (defaulting to
/// the reserved zero witness) and one coefficient per selector role
/// (defaulting to zero). It is filled through the builder methods and
/// consumed once by the composer.
#[derive(Clone, Copy, PartialEq, Eq, Structural, Debug)]
pub struct Constraint {
    pub q_m: Scalar,
    pub q_l: Scalar,
    pub q_r: Scalar,
    pub q_o: Scalar,
    pub q_4: Scalar,
    pub q_c: Scalar,
    pub pi: Scalar,
    pub q_arith: Scalar,
    pub q_range: Scalar,
    pub q_logic: Scalar,
    pub q_fixed_group_add: Scalar,
    pub q_variable_group_add: Scalar,
    pub q_lookup: Scalar,
    pub w_a: Witness,
    pub w_b: Witness,
    pub w_o: Witness,
    pub w_d: Witness,
}

impl Constraint {
    /// Every coefficient of this constraint is a canonical scalar.
    pub open spec fn canon(self) -> bool {
        &&& self.q_m.canon()
        &&& self.q_l.canon()
        &&& self.q_r.canon()
        &&& self.q_o.canon()
        &&& self.q_4.canon()
        &&& self.q_c.canon()
        &&& self.pi.canon()
        &&& self.q_arith.canon()
        &&& self.q_range.canon()
        &&& self.q_logic.canon()
        &&& self.q_fixed_group_add.canon()
        &&& self.q_variable_group_add.canon()
        &&& self.q_lookup.canon()
    }

    /// Every wire binding points below `bound`, the size of a witness arena.
    pub open spec fn wires_below(self, bound: nat) -> bool {
        &&& self.w_a.index < bound
        &&& self.w_b.index < bound
        &&& self.w_o.index < bound
        &&& self.w_d.index < bound
    }

    /// An empty constraint: all coefficients zero, all wires bound to the
    /// reserved zero witness.
    pub fn new() -> (r: Constraint)
        ensures
            r.q_m.value() == 0 && r.q_l.value() == 0 && r.q_r.value() == 0,
            r.q_o.value() == 0 && r.q_4.value() == 0 && r.q_c.value() == 0,
            r.pi.value() == 0 && r.q_arith.value() == 0 && r.q_range.value() == 0,
            r.q_logic.value() == 0 && r.q_fixed_group_add.value() == 0,
            r.q_variable_group_add.value() == 0 && r.q_lookup.value() == 0,
            r.w_a.index == 0 && r.w_b.index == 0 && r.w_o.index == 0 && r.w_d.index == 0,
            r.canon(),
    {
        let zero = Scalar::zero();
        let w = Witness::new(0);
        Constraint {
            q_m: zero,
            q_l: zero,
            q_r: zero,
            q_o: zero,
            q_4: zero,
            q_c: zero,
            pi: zero,
            q_arith: zero,
            q_range: zero,
            q_logic: zero,
            q_fixed_group_add: zero,
            q_variable_group_add: zero,
            q_lookup: zero,
            w_a: w,
            w_b: w,
            w_o: w,
            w_d: w,
        }
    }

    /// Sets the multiplication coefficient.
    pub fn mult(self, s: Scalar) -> (r: Constraint)
        ensures
            r == (Constraint { q_m: s, ..self }),
    {
        Constraint { q_m: s, ..self }
    }

    /// Sets the left-wire coefficient.
    pub fn left(self, s: Scalar) -> (r: Constraint)
        ensures
            r == (Constraint { q_l: s, ..self }),
    {
        Constraint { q_l: s, ..self }
    }

    /// Sets the right-wire coefficient.
    pub fn right(self, s: Scalar) -> (r: Constraint)
        ensures
            r == (Constraint { q_r: s, ..self }),
    {
        Constraint { q_r: s, ..self }
    }

    /// Sets the output-wire coefficient.
    pub fn output(self, s: Scalar) -> (r: Constraint)
        ensures
            r == (Constraint { q_o: s, ..self }),
    {
        Constraint { q_o: s, ..self }
    }

    /// Sets the fourth-wire coefficient.
    pub fn fourth(self, s: Scalar) -> (r: Constraint)
        ensures
            r == (Constraint { q_4: s, ..self }),
    {
        Constraint { q_4: s, ..self }
    }

    /// Sets the constant coefficient.
    pub fn constant(self, s: Scalar) -> (r: Constraint)
        ensures
            r == (Constraint { q_c: s, ..self }),
    {
        Constraint { q_c: s, ..self }
    }

    /// Sets the public-input term carried by this row.
    pub fn public(self, s: Scalar) -> (r: Constraint)
        ensures
            r == (Constraint { pi: s, ..self }),
    {
        Constraint { pi: s, ..self }
    }

    /// Sets the arithmetic toggle coefficient to one.
    pub fn arithmetic(s: &Constraint) -> (r: Constraint)
        ensures
            r == (Constraint { q_arith: Scalar { l0: 1, l1: 0, l2: 0, l3: 0 }, ..*s }),
    {
        Constraint { q_arith: Scalar::one(), ..*s }
    }

    /// Binds the left wire.
    pub fn a(self, w: Witness) -> (r: Constraint)
        ensures
            r == (Constraint { w_a: w, ..self }),
    {
        Constraint { w_a: w, ..self }
    }

    /// Binds the right wire.
    pub fn b(self, w: Witness) -> (r: Constraint)
        ensures
            r == (Constraint { w_b: w, ..self }),
    {
        Constraint { w_b: w, ..self }
    }

    /// Binds the output wire.
    pub fn o(self, w: Witness) -> (r: Constraint)
        ensures
            r == (Constraint { w_o: w, ..self }),
    {
        Constraint { w_o: w, ..self }
    }

    /// Binds the fourth wire.
    pub fn d(self, w: Witness) -> (r: Constraint)
        ensures
            r == (Constraint { w_d: w, ..self }),
    {
        Constraint { w_d: w, ..self }
    }

    /// Reads the coefficient stored for a selector role.
    pub fn coeff(&self, s: Selector) -> (r: Scalar)
        ensures
            r == self.spec_coeff(s),
    {
        match s {
            Selector::Multiplication => self.q_m,
            Selector::Left => self.q_l,
            Selector::Right => self.q_r,
            Selector::Output => self.q_o,
            Selector::Fourth => self.q_4,
            Selector::Constant => self.q_c,
            Selector::PublicInput => self.pi,
            Selector::Arithmetic => self.q_arith,
            Selector::Range => self.q_range,
            Selector::Logic => self.q_logic,
            Selector::GroupAddFixedBase => self.q_fixed_group_add,
            Selector::GroupAddVariableBase => self.q_variable_group_add,
            Selector::Lookup => self.q_lookup,
        }
    }

    /// The coefficient a selector role names, as the contracts see it.
    pub open spec fn spec_coeff(self, s: Selector) -> Scalar {
        match s {
            Selector::Multiplication => self.q_m,
            Selector::Left => self.q_l,
            Selector::Right => self.q_r,
            Selector::Output => self.q_o,
            Selector::Fourth => self.q_4,
            Selector::Constant => self.q_c,
            Selector::PublicInput => self.pi,
            Selector::Arithmetic => self.q_arith,
            Selector::Range => self.q_range,
            Selector::Logic => self.q_logic,
            Selector::GroupAddFixedBase => self.q_fixed_group_add,
            Selector::GroupAddVariableBase => self.q_variable_group_add,
            Selector::Lookup => self.q_lookup,
        }
    }

    /// Reads the witness bound to a wire column.
    pub fn witness(&self, w: WiredWitness) -> (r: Witness)
        ensures
            r == self.spec_witness(w),
    {
        match w {
            WiredWitness::A => self.w_a,
            WiredWitness::B => self.w_b,
            WiredWitness::O => self.w_o,
            WiredWitness::D => self.w_d,
        }
    }

    /// The witness a wire column names, as the contracts see it.
    pub open spec fn spec_witness(self, w: WiredWitness) -> Witness {
        match w {
            WiredWitness::A => self.w_a,
            WiredWitness::B => self.w_b,
            WiredWitness::O => self.w_o,
            WiredWitness::D => self.w_d,
        }
    }
}

} // verus!
