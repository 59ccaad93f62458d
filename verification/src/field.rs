//! The finite field of witness values, and the known/unknown duality used
//! while a circuit's shape is derived before any witness exists.

use vstd::prelude::*;

verus! {

/// The prime modulus of the witness field: the Mersenne prime `2^31 - 1`.
pub const MODULUS: u64 = 0x7fff_ffff;

/// An element of the prime field, held as its reduced representative.
#[derive(Clone, Copy, PartialEq, Eq, Structural, Debug)]
pub struct Fe {
    pub v: u64,
}

impl Fe {
    /// The representative is reduced modulo `MODULUS`.
    pub open spec fn wf(self) -> bool {
        self.v < MODULUS
    }
}

/// The additive identity.
pub open spec fn fe_zero() -> Fe {
    Fe { v: 0 }
}

/// The multiplicative identity.
pub open spec fn fe_one() -> Fe {
    Fe { v: 1 }
}

/// Reduction of an arbitrary machine integer into the field.
pub open spec fn fe_from_spec(v: u64) -> Fe {
    Fe { v: (v as int % MODULUS as int) as u64 }
}

pub open spec fn fe_add_spec(a: Fe, b: Fe) -> Fe {
    Fe { v: ((a.v + b.v) % MODULUS as int) as u64 }
}

pub open spec fn fe_neg_spec(a: Fe) -> Fe {
    Fe { v: if a.v == 0 { 0u64 } else { (MODULUS - a.v) as u64 } }
}

pub open spec fn fe_mul_spec(a: Fe, b: Fe) -> Fe {
    Fe { v: ((a.v * b.v) % MODULUS as int) as u64 }
}

pub fn fe_from(v: u64) -> (r: Fe)
    ensures
        r == fe_from_spec(v),
        r.wf(),
{
    Fe { v: v % MODULUS }
}

pub fn fe_add(a: Fe, b: Fe) -> (r: Fe)
    requires
        a.wf(),
        b.wf(),
    ensures
        r == fe_add_spec(a, b),
        r.wf(),
{
    Fe { v: (a.v + b.v) % MODULUS }
}

pub fn fe_neg(a: Fe) -> (r: Fe)
    requires
        a.wf(),
    ensures
        r == fe_neg_spec(a),
        r.wf(),
{
    if a.v == 0 {
        Fe { v: 0 }
    } else {
        Fe { v: MODULUS - a.v }
    }
}

pub fn fe_mul(a: Fe, b: Fe) -> (r: Fe)
    requires
        a.wf(),
        b.wf(),
    ensures
        r == fe_mul_spec(a, b),
        r.wf(),
{
    proof {
        assert(a.v * b.v < MODULUS * MODULUS) by (nonlinear_arith)
            requires
                a.v < MODULUS,
                b.v < MODULUS,
        ;
    }
    Fe { v: (a.v * b.v) % MODULUS }
}

/// Adding an element to its negation yields the additive identity.
pub proof fn lemma_add_neg(a: Fe)
    requires
        a.wf(),
    ensures
        fe_add_spec(a, fe_neg_spec(a)) == fe_zero(),
{
}

/// A witness value: either a concrete field element, or still unknown,
/// as during shape-only analysis before the witness is supplied.
#[derive(Clone, Copy, PartialEq, Eq, Structural, Debug)]
pub enum Value {
    Unknown,
    Known(Fe),
}

impl Value {
    pub open spec fn wf(self) -> bool {
        match self {
            Value::Known(f) => f.wf(),
            Value::Unknown => true,
        }
    }
}

/// Witness multiplication: any unknown operand makes the product unknown;
/// two known operands multiply in the field.
pub open spec fn value_mul_spec(a: Value, b: Value) -> Value {
    match (a, b) {
        (Value::Known(x), Value::Known(y)) => Value::Known(fe_mul_spec(x, y)),
        _ => Value::Unknown,
    }
}

pub fn value_mul(a: Value, b: Value) -> (r: Value)
    requires
        a.wf(),
        b.wf(),
    ensures
        r == value_mul_spec(a, b),
        r.wf(),
{
    match (a, b) {
        (Value::Known(x), Value::Known(y)) => Value::Known(fe_mul(x, y)),
        _ => Value::Unknown,
    }
}

/// A product with an unknown factor is itself unknown.
pub proof fn lemma_unknown_propagates(a: Value, b: Value)
    ensures
        (a is Unknown || b is Unknown) ==> value_mul_spec(a, b) is Unknown,
{
}

} // verus!
