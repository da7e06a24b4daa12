//! The scalar field of BLS12-381, the coefficient domain of every gate.
//!
//! A [`Scalar`] holds the canonical little-endian limb representation of a
//! field element, so that its mathematical value is plain data. The field
//! arithmetic itself is carried out by `dusk_bls12_381::BlsScalar`; each
//! operation is wrapped once, with a contract that states the result as
//! arithmetic modulo the field order.

use vstd::prelude::*;

verus! {

use vstd::arithmetic::power2::pow2;
use vstd::arithmetic::div_mod::{lemma_fundamental_div_mod_converse, lemma_div_denominator};

/// The order of the BLS12-381 scalar field:
/// `0x73eda753299d7d483339d80809a1d80553bda402fffe5bfeffffffff00000001`.
pub open spec fn field_order() -> nat {
    0x73eda753299d7d483339d80809a1d80553bda402fffe5bfeffffffff00000001nat
}

/// Field addition on values: `(a + b)` reduced modulo the field order.
pub open spec fn fadd(a: nat, b: nat) -> nat {
    (a + b) % field_order()
}

/// Field multiplication on values: `(a * b)` reduced modulo the field order.
pub open spec fn fmul(a: nat, b: nat) -> nat {
    (a * b) % field_order()
}

/// Field negation on values: the additive inverse modulo the field order.
pub open spec fn fneg(a: nat) -> nat {
    ((field_order() - a % field_order()) % (field_order() as int)) as nat
}

/// Field subtraction on values: `a - b` modulo the field order.
pub open spec fn fsub(a: nat, b: nat) -> nat {
    fadd(a, fneg(b))
}

/// Every scalar of a sequence is canonical.
pub open spec fn all_canon(s: Seq<Scalar>) -> bool {
    forall|i: int| 0 <= i < s.len() ==> (#[trigger] s[i]).canon()
}

/// An element of the BLS12-381 scalar field, held as the four 64-bit
/// little-endian limbs of its canonical (fully reduced) representation.
#[derive(Clone, Copy, PartialEq, Eq, Structural, Debug)]
pub struct Scalar {
    pub l0: u64,
    pub l1: u64,
    pub l2: u64,
    pub l3: u64,
}

impl Scalar {
    /// The integer this limb vector denotes, little-endian base `2^64`.
    pub open spec fn value(self) -> nat {
        (self.l0 as nat)
            + (self.l1 as nat) * 0x10000000000000000nat
            + (self.l2 as nat) * 0x100000000000000000000000000000000nat
            + (self.l3 as nat) * 0x1000000000000000000000000000000000000000000000000nat
    }

    /// The representation is canonical: its value is fully reduced.
    pub open spec fn canon(self) -> bool {
        self.value() < field_order()
    }

    /// Embeds a machine word into the field.
    pub fn from_u64(v: u64) -> (r: Scalar)
        ensures
            r.value() == v,
            r.canon(),
    {
        Scalar { l0: v, l1: 0, l2: 0, l3: 0 }
    }

    /// The additive identity.
    pub fn zero() -> (r: Scalar)
        ensures
            r.value() == 0,
            r.canon(),
    {
        Scalar { l0: 0, l1: 0, l2: 0, l3: 0 }
    }

    /// The multiplicative identity.
    pub fn one() -> (r: Scalar)
        ensures
            r.value() == 1,
            r.canon(),
    {
        Scalar { l0: 1, l1: 0, l2: 0, l3: 0 }
    }

    /// Relies on `dusk_bls12_381::BlsScalar`'s `Add`: addition modulo the
    /// field order, on values carried in and out through the canonical
    /// little-endian byte form.
    #[verifier::external_body]
    pub fn add(self, rhs: Scalar) -> (r: Scalar)
        requires
            self.canon(),
            rhs.canon(),
        ensures
            r.value() == (self.value() + rhs.value()) % field_order(),
            r.canon(),
    {
        let x = dusk_bls12_381::BlsScalar::from_raw([self.l0, self.l1, self.l2, self.l3]);
        let y = dusk_bls12_381::BlsScalar::from_raw([rhs.l0, rhs.l1, rhs.l2, rhs.l3]);
        let b = (x + y).to_bytes();
        Scalar {
            l0: u64::from_le_bytes(b[0..8].try_into().unwrap()),
            l1: u64::from_le_bytes(b[8..16].try_into().unwrap()),
            l2: u64::from_le_bytes(b[16..24].try_into().unwrap()),
            l3: u64::from_le_bytes(b[24..32].try_into().unwrap()),
        }
    }

    /// Relies on `dusk_bls12_381::BlsScalar`'s `Sub`: subtraction modulo the
    /// field order.
    #[verifier::external_body]
    pub fn sub(self, rhs: Scalar) -> (r: Scalar)
        requires
            self.canon(),
            rhs.canon(),
        ensures
            r.value() == fsub(self.value(), rhs.value()),
            r.canon(),
    {
        let x = dusk_bls12_381::BlsScalar::from_raw([self.l0, self.l1, self.l2, self.l3]);
        let y = dusk_bls12_381::BlsScalar::from_raw([rhs.l0, rhs.l1, rhs.l2, rhs.l3]);
        let b = (x - y).to_bytes();
        Scalar {
            l0: u64::from_le_bytes(b[0..8].try_into().unwrap()),
            l1: u64::from_le_bytes(b[8..16].try_into().unwrap()),
            l2: u64::from_le_bytes(b[16..24].try_into().unwrap()),
            l3: u64::from_le_bytes(b[24..32].try_into().unwrap()),
        }
    }

    /// Relies on `dusk_bls12_381::BlsScalar`'s `Mul`: multiplication modulo
    /// the field order.
    #[verifier::external_body]
    pub fn mul(self, rhs: Scalar) -> (r: Scalar)
        requires
            self.canon(),
            rhs.canon(),
        ensures
            r.value() == (self.value() * rhs.value()) % field_order(),
            r.canon(),
    {
        let x = dusk_bls12_381::BlsScalar::from_raw([self.l0, self.l1, self.l2, self.l3]);
        let y = dusk_bls12_381::BlsScalar::from_raw([rhs.l0, rhs.l1, rhs.l2, rhs.l3]);
        let b = (x * y).to_bytes();
        Scalar {
            l0: u64::from_le_bytes(b[0..8].try_into().unwrap()),
            l1: u64::from_le_bytes(b[8..16].try_into().unwrap()),
            l2: u64::from_le_bytes(b[16..24].try_into().unwrap()),
            l3: u64::from_le_bytes(b[24..32].try_into().unwrap()),
        }
    }

    /// Relies on `dusk_bls12_381::BlsScalar`'s `Neg`: the additive inverse
    /// modulo the field order.
    #[verifier::external_body]
    pub fn neg(self) -> (r: Scalar)
        requires
            self.canon(),
        ensures
            r.value() == fneg(self.value()),
            r.canon(),
    {
        let x = dusk_bls12_381::BlsScalar::from_raw([self.l0, self.l1, self.l2, self.l3]);
        let b = (-x).to_bytes();
        Scalar {
            l0: u64::from_le_bytes(b[0..8].try_into().unwrap()),
            l1: u64::from_le_bytes(b[8..16].try_into().unwrap()),
            l2: u64::from_le_bytes(b[16..24].try_into().unwrap()),
            l3: u64::from_le_bytes(b[24..32].try_into().unwrap()),
        }
    }

    /// Relies on `dusk_bls12_381::BlsScalar::invert`: `None` exactly on zero,
    /// otherwise the multiplicative inverse modulo the field order.
    #[verifier::external_body]
    pub fn invert(self) -> (r: Option<Scalar>)
        requires
            self.canon(),
        ensures
            r is None <==> self.value() == 0,
            r is Some ==> (r->Some_0.value() * self.value()) % field_order() == 1
                && r->Some_0.canon(),
    {
        let x = dusk_bls12_381::BlsScalar::from_raw([self.l0, self.l1, self.l2, self.l3]);
        x.invert().map(|i| {
            let b = i.to_bytes();
            Scalar {
                l0: u64::from_le_bytes(b[0..8].try_into().unwrap()),
                l1: u64::from_le_bytes(b[8..16].try_into().unwrap()),
                l2: u64::from_le_bytes(b[16..24].try_into().unwrap()),
                l3: u64::from_le_bytes(b[24..32].try_into().unwrap()),
            }
        })
    }

    /// Relies on `dusk_bls12_381::BlsScalar::pow_of_2`: the power of two
    /// `2^exp` reduced modulo the field order.
    #[verifier::external_body]
    pub fn pow2_mod(exp: u64) -> (r: Scalar)
        ensures
            r.value() == pow2(exp as nat) % field_order(),
            r.canon(),
    {
        let b = dusk_bls12_381::BlsScalar::pow_of_2(exp).to_bytes();
        Scalar {
            l0: u64::from_le_bytes(b[0..8].try_into().unwrap()),
            l1: u64::from_le_bytes(b[8..16].try_into().unwrap()),
            l2: u64::from_le_bytes(b[16..24].try_into().unwrap()),
            l3: u64::from_le_bytes(b[24..32].try_into().unwrap()),
        }
    }

    /// Relies on `dusk_bls12_381::BlsScalar::to_bits`: the 256 bits of the
    /// canonical value, least significant first.
    #[verifier::external_body]
    pub fn bits(self) -> (r: Vec<u8>)
        requires
            self.canon(),
        ensures
            r@.len() == 256,
            forall|i: int| 0 <= i < 256 ==>
                r@[i] as nat == (self.value() / pow2(i as nat)) % 2,
    {
        let x = dusk_bls12_381::BlsScalar::from_raw([self.l0, self.l1, self.l2, self.l3]);
        x.to_bits().to_vec()
    }

    /// Relies on `dusk_bls12_381::BlsScalar`'s `BitAnd`: the limb-wise
    /// bitwise and of the two canonical representations, reduced modulo the
    /// field order.
    #[verifier::external_body]
    pub fn and(self, rhs: Scalar) -> (r: Scalar)
        requires
            self.canon(),
            rhs.canon(),
        ensures
            r.value() == (Scalar {
                l0: self.l0 & rhs.l0,
                l1: self.l1 & rhs.l1,
                l2: self.l2 & rhs.l2,
                l3: self.l3 & rhs.l3,
            }).value() % field_order(),
            r.canon(),
    {
        let x = dusk_bls12_381::BlsScalar::from_raw([self.l0, self.l1, self.l2, self.l3]);
        let y = dusk_bls12_381::BlsScalar::from_raw([rhs.l0, rhs.l1, rhs.l2, rhs.l3]);
        let b = (x & y).to_bytes();
        Scalar {
            l0: u64::from_le_bytes(b[0..8].try_into().unwrap()),
            l1: u64::from_le_bytes(b[8..16].try_into().unwrap()),
            l2: u64::from_le_bytes(b[16..24].try_into().unwrap()),
            l3: u64::from_le_bytes(b[24..32].try_into().unwrap()),
        }
    }

    /// Relies on `dusk_bls12_381::BlsScalar`'s `BitXor`: the limb-wise
    /// bitwise xor of the two canonical representations, reduced modulo the
    /// field order.
    #[verifier::external_body]
    pub fn xor(self, rhs: Scalar) -> (r: Scalar)
        requires
            self.canon(),
            rhs.canon(),
        ensures
            r.value() == (Scalar {
                l0: self.l0 ^ rhs.l0,
                l1: self.l1 ^ rhs.l1,
                l2: self.l2 ^ rhs.l2,
                l3: self.l3 ^ rhs.l3,
            }).value() % field_order(),
            r.canon(),
    {
        let x = dusk_bls12_381::BlsScalar::from_raw([self.l0, self.l1, self.l2, self.l3]);
        let y = dusk_bls12_381::BlsScalar::from_raw([rhs.l0, rhs.l1, rhs.l2, rhs.l3]);
        let b = (x ^ y).to_bytes();
        Scalar {
            l0: u64::from_le_bytes(b[0..8].try_into().unwrap()),
            l1: u64::from_le_bytes(b[8..16].try_into().unwrap()),
            l2: u64::from_le_bytes(b[16..24].try_into().unwrap()),
            l3: u64::from_le_bytes(b[24..32].try_into().unwrap()),
        }
    }
}

/// Each limb of a scalar is a digit of its value in base `2^64`, so the
/// value determines the limbs.
pub proof fn lemma_limbs_from_value(s: Scalar)
    ensures
        s.l0 == s.value() % 0x10000000000000000nat,
        s.l1 == (s.value() / 0x10000000000000000nat) % 0x10000000000000000nat,
        s.l2 == (s.value() / 0x100000000000000000000000000000000nat) % 0x10000000000000000nat,
        s.l3 == s.value() / 0x1000000000000000000000000000000000000000000000000nat,
{
    let v = s.value() as int;
    let q1: int = (s.l1 as int) + (s.l2 as int) * 0x10000000000000000int
        + (s.l3 as int) * 0x100000000000000000000000000000000int;
    assert(v == q1 * 0x10000000000000000int + (s.l0 as int));
    lemma_fundamental_div_mod_converse(v, 0x10000000000000000int, q1, s.l0 as int);
    let q2: int = (s.l2 as int) + (s.l3 as int) * 0x10000000000000000int;
    assert(q1 == q2 * 0x10000000000000000int + (s.l1 as int));
    lemma_fundamental_div_mod_converse(q1, 0x10000000000000000int, q2, s.l1 as int);
    lemma_fundamental_div_mod_converse(q2, 0x10000000000000000int, s.l3 as int, s.l2 as int);
    lemma_div_denominator(v, 0x10000000000000000int, 0x10000000000000000int);
    assert(v / 0x100000000000000000000000000000000int == q2);
    lemma_div_denominator(v, 0x100000000000000000000000000000000int, 0x10000000000000000int);
    assert(v / 0x1000000000000000000000000000000000000000000000000int == s.l3 as int);
}

/// A number below twice the field order reduces by at most one subtraction.
pub proof fn lemma_mod_in_range(x: int)
    requires
        0 <= x < 2 * field_order(),
    ensures
        x % (field_order() as int) == if x < field_order() { x } else { x - field_order() },
{
    let m = field_order() as int;
    if x < m {
        vstd::arithmetic::div_mod::lemma_small_mod(x as nat, field_order());
    } else {
        vstd::arithmetic::div_mod::lemma_mod_multiples_vanish(1, x - m, m);
        vstd::arithmetic::div_mod::lemma_small_mod((x - m) as nat, field_order());
    }
}

/// Negation written out: `fneg(b)` is `M - b` except at zero.
pub proof fn lemma_fneg_form(b: nat)
    requires
        b < field_order(),
    ensures
        fneg(b) == if b == 0 { 0nat } else { (field_order() - b) as nat },
{
    vstd::arithmetic::div_mod::lemma_small_mod(b, field_order());
    lemma_mod_in_range(field_order() - b);
}

/// Multiplying by minus one is negating.
pub proof fn lemma_mul_minus_one(b: nat)
    requires
        b < field_order(),
    ensures
        fmul((field_order() - 1) as nat, b) == fneg(b),
{
    let m = field_order() as int;
    assert((m - 1) * b == m * b + (-(b as int))) by (nonlinear_arith);
    vstd::arithmetic::div_mod::lemma_mod_multiples_vanish(b as int, -(b as int), m);
    vstd::arithmetic::div_mod::lemma_mod_multiples_vanish(1, -(b as int), m);
    lemma_mod_in_range(m - b);
    lemma_fneg_form(b);
}

/// A difference vanishes in the field exactly when the operands are equal.
pub proof fn lemma_add_neg_zero(a: nat, b: nat)
    requires
        a < field_order(),
        b < field_order(),
    ensures
        (fadd(a, fneg(b)) == 0) <==> (a == b),
{
    lemma_fneg_form(b);
    lemma_mod_in_range((a + fneg(b)) as int);
}

/// Adding `p` and subtracting `p` cancel: `a + p == k` exactly when
/// `a == k - p`, all in the field.
pub proof fn lemma_add_cancel(a: nat, p: nat, k: nat)
    requires
        a < field_order(),
        p < field_order(),
        k < field_order(),
    ensures
        (fadd(a, p) == k) <==> (a == fsub(k, p)),
{
    lemma_fneg_form(p);
    lemma_mod_in_range((a + p) as int);
    lemma_mod_in_range((k + fneg(p)) as int);
}

/// Scaling `x` by the negated inverse of `q` yields the unique solution `o`
/// of `q·o + x = 0` in the field.
pub proof fn lemma_neg_inverse_solves(q: nat, i: nat, x: nat)
    requires
        q < field_order(),
        i < field_order(),
        x < field_order(),
        (i * q) % field_order() == 1,
    ensures
        fadd(fmul(q, fmul(x, fneg(i))), x) == 0,
{
    let m = field_order() as int;
    if i == 0 {
        vstd::arithmetic::mul::lemma_mul_basics(q as int);
        assert((0 * (q as int)) % m == 0);
    }
    lemma_fneg_form(i);
    let p = (x as int) * (m - i);
    vstd::arithmetic::div_mod::lemma_mul_mod_noop_right(q as int, p, m);
    let j = ((q * i) as int) / m;
    vstd::arithmetic::div_mod::lemma_fundamental_div_mod((q * i) as int, m);
    assert(q * i == i * q) by (nonlinear_arith);
    assert((q * i) as int == j * m + 1) by {
        assert(((q * i) as int) % m == 1);
    }
    assert((q as int) * p == m * ((q as int) * (x as int) - (x as int) * j) + (-(x as int)))
        by (nonlinear_arith)
        requires
            p == (x as int) * (m - i),
            (q as int) * (i as int) == j * m + 1,
    {}
    vstd::arithmetic::div_mod::lemma_mod_multiples_vanish(
        (q as int) * (x as int) - (x as int) * j, -(x as int), m);
    vstd::arithmetic::div_mod::lemma_mod_multiples_vanish(1, -(x as int), m);
    lemma_mod_in_range(m - x);
    lemma_fneg_form(x);
    lemma_mod_in_range((fneg(x) + x) as int);
    vstd::arithmetic::div_mod::lemma_mod_multiples_vanish(1, 0, m);
}

/// Two scalars are the same limb vector exactly when they denote the same
/// value: the representation is faithful.
pub proof fn lemma_value_faithful(a: Scalar, b: Scalar)
    ensures
        (a == b) <==> (a.value() == b.value()),
{
    if a.value() == b.value() {
        lemma_limbs_from_value(a);
        lemma_limbs_from_value(b);
        assert(a == b);
    }
}

} // verus!

