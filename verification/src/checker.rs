//! The satisfaction checker: evaluates every registered gate at every
//! allocated row and checks every copy constraint against the grid and
//! the public-input vector.

use vstd::prelude::*;
use crate::field::{Fe, Value, fe_add, fe_add_spec, fe_mul, fe_mul_spec, fe_neg, fe_neg_spec,
    fe_one, fe_zero, lemma_add_neg, value_mul_spec};
use crate::layout::{Cell, Layouter, entry_wf, grid_has_cell, some_value};
use crate::system::{Column, ColumnKind, ConstraintSystem, Expression, Selector, expr_wf};
use crate::chip::mul_poly;

verus! {

/// Evaluation sum: known operands add in the field, anything else is
/// unknown.
pub open spec fn value_add_eval(a: Value, b: Value) -> Value {
    match (a, b) {
        (Value::Known(x), Value::Known(y)) => Value::Known(fe_add_spec(x, y)),
        _ => Value::Unknown,
    }
}

pub open spec fn value_neg_eval(a: Value) -> Value {
    match a {
        Value::Known(x) => Value::Known(fe_neg_spec(x)),
        Value::Unknown => Value::Unknown,
    }
}

/// Evaluation product. A known zero factor absorbs even an unknown
/// other factor — sound, since zero times any field element is zero —
/// so a disabled selector nullifies a gate whose cells are unassigned.
pub open spec fn value_mul_eval(a: Value, b: Value) -> Value {
    if a == Value::Known(fe_zero()) || b == Value::Known(fe_zero()) {
        Value::Known(fe_zero())
    } else {
        match (a, b) {
            (Value::Known(x), Value::Known(y)) => Value::Known(fe_mul_spec(x, y)),
            _ => Value::Unknown,
        }
    }
}

/// The value of advice column `index` at absolute row `t`, unknown where
/// the row lies outside the grid or the cell was never assigned.
pub open spec fn advice_value(l: Layouter, index: usize, t: int) -> Value {
    if 0 <= t <= usize::MAX {
        match l.lookup(
            Cell { column: Column { kind: ColumnKind::Advice, index }, row: t as usize },
        ) {
            Some(v) => v,
            None => Value::Unknown,
        }
    } else {
        Value::Unknown
    }
}

/// Whether selector `index` was enabled at the row.
pub open spec fn sel_on(l: Layouter, index: usize, row: int) -> bool {
    0 <= row <= usize::MAX && l.selectors@.contains((Selector { index }, row as usize))
}

/// The value of a polynomial at a row, over the layouter's grid and
/// enabled selectors.
pub open spec fn eval(e: Expression, row: int, l: Layouter) -> Value
    decreases e,
{
    match e {
        Expression::Constant(f) => Value::Known(f),
        Expression::Advice { index, rotation } => advice_value(l, index, row + rotation as int),
        Expression::Selector { index } => if sel_on(l, index, row) {
            Value::Known(fe_one())
        } else {
            Value::Known(fe_zero())
        },
        Expression::Neg(e1) => value_neg_eval(eval(*e1, row, l)),
        Expression::Sum(e1, e2) => value_add_eval(eval(*e1, row, l), eval(*e2, row, l)),
        Expression::Product(e1, e2) => value_mul_eval(eval(*e1, row, l), eval(*e2, row, l)),
    }
}

/// Every polynomial of every gate evaluates to the additive identity at
/// every allocated row.
pub open spec fn gates_ok(cs: ConstraintSystem, l: Layouter) -> bool {
    forall|g: int, p: int, row: int|
        0 <= g < cs.gates@.len() && 0 <= p < cs.gates@[g].polys@.len() && 0 <= row < l.next_row
            ==> #[trigger] eval(cs.gates@[g].polys@[p], row, l) == Value::Known(fe_zero())
}

/// The value a copy constraint sees at a cell: instance cells read the
/// public-input vector (the first instance column carries it); advice and
/// fixed cells read the grid.
pub open spec fn wire_value(l: Layouter, public: Seq<Fe>, c: Cell) -> Option<Value> {
    if c.column.kind == ColumnKind::Instance {
        if c.column.index == 0 && c.row < public.len() {
            Some(Value::Known(public[c.row as int]))
        } else {
            None
        }
    } else {
        l.lookup(c)
    }
}

/// A copy constraint holds when both cells carry the same concrete value.
pub open spec fn copy_ok(l: Layouter, public: Seq<Fe>, a: Cell, b: Cell) -> bool {
    match (wire_value(l, public, a), wire_value(l, public, b)) {
        (Some(Value::Known(x)), Some(Value::Known(y))) => x == y,
        _ => false,
    }
}

pub open spec fn copies_ok(l: Layouter, public: Seq<Fe>) -> bool {
    forall|i: int|
        0 <= i < l.copies@.len() ==> copy_ok(
            l,
            public,
            (#[trigger] l.copies@[i]).0,
            l.copies@[i].1,
        )
}

/// The circuit is satisfied by the public input: every gate holds at
/// every allocated row and every copy constraint binds equal values.
pub open spec fn satisfied(cs: ConstraintSystem, l: Layouter, public: Seq<Fe>) -> bool {
    gates_ok(cs, l) && copies_ok(l, public)
}

/// A value the grid holds is well formed.
pub proof fn lemma_lookup_wf(l: Layouter, c: Cell)
    requires
        l.wf(),
        l.lookup(c) is Some,
    ensures
        some_value(l.lookup(c)).wf(),
{
    assert(grid_has_cell(l.assignments@, c));
    let i = choose|i: int| 0 <= i < l.assignments@.len() && (#[trigger] l.assignments@[i]).0 == c;
    assert(entry_wf(l.assignments@[i], l.next_row, l.next_const_row));
}

/// Evaluation only produces well-formed values.
pub proof fn lemma_eval_wf(e: Expression, row: int, l: Layouter)
    requires
        l.wf(),
        expr_wf(e),
    ensures
        eval(e, row, l).wf(),
    decreases e,
{
    match e {
        Expression::Constant(_) => {},
        Expression::Advice { index, rotation } => {
            let t = row + rotation as int;
            if 0 <= t <= usize::MAX {
                let c = Cell { column: Column { kind: ColumnKind::Advice, index }, row: t as usize };
                if l.lookup(c) is Some {
                    lemma_lookup_wf(l, c);
                }
            }
        },
        Expression::Selector { .. } => {},
        Expression::Neg(e1) => {
            lemma_eval_wf(*e1, row, l);
        },
        Expression::Sum(e1, e2) => {
            lemma_eval_wf(*e1, row, l);
            lemma_eval_wf(*e2, row, l);
        },
        Expression::Product(e1, e2) => {
            lemma_eval_wf(*e1, row, l);
            lemma_eval_wf(*e2, row, l);
        },
    }
}

/// The multiplication gate's polynomial evaluates to zero at a row where
/// its selector is off; at a row where it is on, it evaluates to zero
/// whenever the output cell holds the product of the two input cells.
pub proof fn lemma_eval_mul_poly(l: Layouter, a0: usize, a1: usize, s: usize, row: usize)
    requires
        l.wf(),
        row < usize::MAX,
    ensures
        !sel_on(l, s, row as int) ==> eval(mul_poly(a0, a1, s), row as int, l) == Value::Known(
            fe_zero(),
        ),
        (sel_on(l, s, row as int) && advice_value(l, a0, row as int) is Known && advice_value(
            l,
            a1,
            row as int,
        ) is Known && advice_value(l, a0, row + 1) == value_mul_spec(
            advice_value(l, a0, row as int),
            advice_value(l, a1, row as int),
        )) ==> eval(mul_poly(a0, a1, s), row as int, l) == Value::Known(fe_zero()),
{
    reveal_with_fuel(eval, 8);
    let x = advice_value(l, a0, row as int);
    let y = advice_value(l, a1, row as int);
    if sel_on(l, s, row as int) && x is Known && y is Known && advice_value(l, a0, row + 1)
        == value_mul_spec(x, y) {
        let xv = x->Known_0;
        let yv = y->Known_0;
        assert(x.wf()) by {
            let c = Cell {
                column: Column { kind: ColumnKind::Advice, index: a0 },
                row: row,
            };
            if l.lookup(c) is Some {
                lemma_lookup_wf(l, c);
            }
        }
        assert(y.wf()) by {
            let c = Cell {
                column: Column { kind: ColumnKind::Advice, index: a1 },
                row: row,
            };
            if l.lookup(c) is Some {
                lemma_lookup_wf(l, c);
            }
        }
        let m = fe_mul_spec(xv, yv);
        assert(m.wf());
        lemma_add_neg(m);
        if xv == fe_zero() || yv == fe_zero() {
            assert(m == fe_zero());
        }
    }
}

/// A copy pair whose first cell holds a concrete value is satisfied
/// exactly when its second, non-instance cell holds the same value.
pub proof fn lemma_constant_binding(l: Layouter, public: Seq<Fe>, adv: Cell, fixed: Cell, c: Fe)
    requires
        adv.column.kind == ColumnKind::Advice,
        fixed.column.kind == ColumnKind::Fixed,
        l.lookup(adv) == Some(Value::Known(c)),
    ensures
        copy_ok(l, public, adv, fixed) <==> l.lookup(fixed) == Some(Value::Known(c)),
{
}

/// Whether the polynomial evaluates to the additive identity at every row
/// below `rows`.
fn check_poly(e: &Expression, rows: usize, l: &Layouter) -> (r: bool)
    requires
        l.wf(),
        expr_wf(*e),
    ensures
        r == forall|row: int| 0 <= row < rows ==> eval(*e, row, *l) == Value::Known(fe_zero()),
{
    let mut row: usize = 0;
    while row < rows
        invariant
            l.wf(),
            expr_wf(*e),
            0 <= row <= rows,
            forall|r2: int| 0 <= r2 < row ==> eval(*e, r2, *l) == Value::Known(fe_zero()),
        decreases rows - row,
    {
        let v = eval_expr(e, row, l);
        let zero = Fe { v: 0 };
        if v != Value::Known(zero) {
            return false;
        }
        row = row + 1;
    }
    true
}

/// The value of a polynomial at a row.
fn eval_expr(e: &Expression, row: usize, l: &Layouter) -> (v: Value)
    requires
        l.wf(),
        expr_wf(*e),
    ensures
        v == eval(*e, row as int, *l),
    decreases *e,
{
    match e {
        Expression::Constant(f) => Value::Known(*f),
        Expression::Advice { index, rotation } => {
            let rot = *rotation;
            let target: Option<usize> = if rot >= 0 {
                let off = rot as usize;
                if row <= usize::MAX - off {
                    Some(row + off)
                } else {
                    None
                }
            } else {
                let mag = (-(rot as i64)) as usize;
                if row >= mag {
                    Some(row - mag)
                } else {
                    None
                }
            };
            match target {
                Some(t) => {
                    let c = Cell {
                        column: Column { kind: ColumnKind::Advice, index: *index },
                        row: t,
                    };
                    match l.find_value(c) {
                        Some(v) => v,
                        None => Value::Unknown,
                    }
                },
                None => Value::Unknown,
            }
        },
        Expression::Selector { index } => {
            if l.selector_on(Selector { index: *index }, row) {
                Value::Known(Fe { v: 1 })
            } else {
                Value::Known(Fe { v: 0 })
            }
        },
        Expression::Neg(e1) => {
            let v1 = eval_expr(e1, row, l);
            proof {
                lemma_eval_wf(**e1, row as int, *l);
            }
            match v1 {
                Value::Known(x) => Value::Known(fe_neg(x)),
                Value::Unknown => Value::Unknown,
            }
        },
        Expression::Sum(e1, e2) => {
            let v1 = eval_expr(e1, row, l);
            let v2 = eval_expr(e2, row, l);
            proof {
                lemma_eval_wf(**e1, row as int, *l);
                lemma_eval_wf(**e2, row as int, *l);
            }
            match (v1, v2) {
                (Value::Known(x), Value::Known(y)) => Value::Known(fe_add(x, y)),
                _ => Value::Unknown,
            }
        },
        Expression::Product(e1, e2) => {
            let v1 = eval_expr(e1, row, l);
            let v2 = eval_expr(e2, row, l);
            proof {
                lemma_eval_wf(**e1, row as int, *l);
                lemma_eval_wf(**e2, row as int, *l);
            }
            let zero = Fe { v: 0 };
            if v1 == Value::Known(zero) || v2 == Value::Known(zero) {
                Value::Known(zero)
            } else {
                match (v1, v2) {
                    (Value::Known(x), Value::Known(y)) => Value::Known(fe_mul(x, y)),
                    _ => Value::Unknown,
                }
            }
        },
    }
}

/// The value a copy constraint sees at a cell.
fn wire_value_exec(l: &Layouter, public: &Vec<Fe>, c: Cell) -> (r: Option<Value>)
    requires
        l.wf(),
    ensures
        r == wire_value(*l, public@, c),
{
    if c.column.kind == ColumnKind::Instance {
        if c.column.index == 0 && c.row < public.len() {
            Some(Value::Known(public[c.row]))
        } else {
            None
        }
    } else {
        l.find_value(c)
    }
}

/// Checks the circuit against a public-input vector: every gate
/// polynomial must vanish at every allocated row, and every copy
/// constraint must bind equal concrete values.
pub fn check_circuit(cs: &ConstraintSystem, l: &Layouter, public: &Vec<Fe>) -> (r: bool)
    requires
        cs.gates_wf(),
        l.wf(),
    ensures
        r == satisfied(*cs, *l, public@),
{
    let mut g: usize = 0;
    while g < cs.gates.len()
        invariant
            cs.gates_wf(),
            l.wf(),
            0 <= g <= cs.gates@.len(),
            forall|g2: int, p2: int, row: int|
                0 <= g2 < g && 0 <= p2 < cs.gates@[g2].polys@.len() && 0 <= row < l.next_row
                    ==> #[trigger] eval(cs.gates@[g2].polys@[p2], row, *l) == Value::Known(
                    fe_zero(),
                ),
        decreases cs.gates@.len() - g,
    {
        let gate = &cs.gates[g];
        let mut p: usize = 0;
        while p < gate.polys.len()
            invariant
                cs.gates_wf(),
                l.wf(),
                0 <= g < cs.gates@.len(),
                gate.polys@ == cs.gates@[g as int].polys@,
                0 <= p <= gate.polys@.len(),
                forall|p2: int, row: int|
                    0 <= p2 < p && 0 <= row < l.next_row ==> #[trigger] eval(
                        gate.polys@[p2],
                        row,
                        *l,
                    ) == Value::Known(fe_zero()),
            decreases gate.polys@.len() - p,
        {
            proof {
                assert((#[trigger] cs.gates@[g as int]).wf());
            }
            if !check_poly(&gate.polys[p], l.next_row, l) {
                return false;
            }
            p = p + 1;
        }
        g = g + 1;
    }
    let mut i: usize = 0;
    while i < l.copies.len()
        invariant
            cs.gates_wf(),
            l.wf(),
            gates_ok(*cs, *l),
            0 <= i <= l.copies@.len(),
            forall|j: int|
                0 <= j < i ==> copy_ok(*l, public@, (#[trigger] l.copies@[j]).0, l.copies@[j].1),
        decreases l.copies@.len() - i,
    {
        let pair = l.copies[i];
        let va = wire_value_exec(l, public, pair.0);
        let vb = wire_value_exec(l, public, pair.1);
        let ok = match (va, vb) {
            (Some(Value::Known(x)), Some(Value::Known(y))) => x == y,
            _ => false,
        };
        if !ok {
            return false;
        }
        i = i + 1;
    }
    true
}

} // verus!
