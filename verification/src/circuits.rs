//! Complete example circuits built from the chip's operations, each
//! checked against a public-input vector. Their contracts pin down, for
//! all field elements, exactly which public inputs satisfy the circuit.

use vstd::prelude::*;
use crate::chip::{ScalarMulChip, ScalarMulConfig, ScalarMulInstructions};
use crate::checker::{check_circuit, copy_ok, lemma_eval_mul_poly, satisfied, sel_on};
use crate::field::{Fe, Value, fe_mul_spec};
use crate::layout::{Cell, Layouter};
use crate::system::{ConstraintSystem, Selector};

verus! {

/// Builds the single-multiplication circuit — load `a`, load `b`,
/// multiply, expose the product at instance row 0 — and checks it.
/// For all field elements `a` and `b`, the circuit is satisfied exactly
/// by a public-input vector carrying `a * b` at row 0, and violated by
/// every other public input.
pub fn mul_example(a: Fe, b: Fe, public: &Vec<Fe>) -> (r: bool)
    requires
        a.wf(),
        b.wf(),
    ensures
        r == (public@.len() >= 1 && public@[0] == fe_mul_spec(a, b)),
{
    let mut cs = ConstraintSystem::new();
    let a0 = cs.advice_column();
    let a1 = cs.advice_column();
    let instance = cs.instance_column();
    let constant = cs.fixed_column();
    let config = ScalarMulConfig::configure(&mut cs, [a0, a1], instance, constant);
    proof {
        assert(config.advice[0] == a0);
        assert(config.advice[1] == a1);
    }
    let chip = ScalarMulChip::new(config);
    let mut layouter = Layouter::new(&cs);
    let ghost l0 = layouter;
    let na = match chip.load_private(&mut layouter, Value::Known(a)) {
        Ok(n) => n,
        Err(_) => {
            proof {
                assert(false);
            }
            return false;
        },
    };
    let nb = match chip.load_private(&mut layouter, Value::Known(b)) {
        Ok(n) => n,
        Err(_) => {
            proof {
                assert(false);
            }
            return false;
        },
    };
    proof {
        assert(cs.eq_enabled(a0) && cs.eq_enabled(a1) && cs.eq_enabled(instance));
        assert(l0.eq_enabled(a0) && l0.eq_enabled(a1) && l0.eq_enabled(instance));
        assert(layouter.eq_columns@ == l0.eq_columns@);
        assert(layouter.eq_enabled(a0) && layouter.eq_enabled(a1) && layouter.eq_enabled(instance));
        assert(na.cell.column == a0 && nb.cell.column == a0);
        assert(layouter.lookup(na.cell) == Some(Value::Known(a)));
        assert(layouter.lookup(nb.cell) == Some(Value::Known(b)));
    }
    let nc = match chip.mul(&mut layouter, na, nb) {
        Ok(n) => n,
        Err(_) => {
            proof {
                assert(false);
            }
            return false;
        },
    };
    proof {
        assert(layouter.eq_columns@ == l0.eq_columns@);
        assert(l0.eq_enabled(a0) && l0.eq_enabled(instance));
        assert(layouter.eq_enabled(a0) && layouter.eq_enabled(instance));
        assert(nc.cell.column == a0);
        assert(layouter.lookup(nc.cell) == Some(
            crate::field::value_mul_spec(Value::Known(a), Value::Known(b)),
        ));
    }
    match chip.expose_public(&mut layouter, nc, 0) {
        Ok(_) => {},
        Err(_) => {
            proof {
                assert(false);
            }
            return false;
        },
    };
    let r = check_circuit(&cs, &layouter, public);
    proof {
        let l = layouter;
        let ab = fe_mul_spec(a, b);
        let c_a = Cell { column: a0, row: 0 };
        let c_b = Cell { column: a0, row: 1 };
        let lhs = Cell { column: a0, row: 2 };
        let rhs = Cell { column: a1, row: 2 };
        let c_out = Cell { column: a0, row: 3 };
        let inst0 = Cell { column: instance, row: 0 };

        assert(na.cell == c_a && nb.cell == c_b && nc.cell == c_out);
        assert(l.lookup(c_a) == Some(Value::Known(a)));
        assert(l.lookup(c_b) == Some(Value::Known(b)));
        assert(l.lookup(lhs) == Some(Value::Known(a)));
        assert(l.lookup(rhs) == Some(Value::Known(b)));
        assert(l.lookup(c_out) == Some(Value::Known(ab)));
        assert(l.next_row == 4);
        assert(l.selectors@ == Seq::<(Selector, usize)>::empty().push((config.s_mul, 2)));
        assert(l.copies@ == Seq::<(Cell, Cell)>::empty().push((c_a, lhs)).push((c_b, rhs)).push(
            (c_out, inst0),
        ));
        assert(cs.gates@.len() == 1);
        assert(cs.gates@[0].polys@ == seq![crate::chip::mul_poly(0, 1, 0)]);
        assert(config.s_mul == (Selector { index: 0 }));

        // every registered polynomial vanishes at every allocated row
        assert forall|g: int, p: int, row: int|
            0 <= g < cs.gates@.len() && 0 <= p < cs.gates@[g].polys@.len() && 0 <= row < l.next_row
                implies #[trigger] crate::checker::eval(cs.gates@[g].polys@[p], row, l)
            == Value::Known(crate::field::fe_zero()) by {
            assert(g == 0 && p == 0);
            assert(cs.gates@[0].polys@[0] == crate::chip::mul_poly(0, 1, 0));
            lemma_eval_mul_poly(l, 0, 1, 0, row as usize);
            if row == 2 {
                assert(l.selectors@[0] == (Selector { index: 0 }, 2usize));
                assert(sel_on(l, 0, 2));
                assert(crate::checker::advice_value(l, 0, 2) == Value::Known(a));
                assert(crate::checker::advice_value(l, 1, 2) == Value::Known(b));
                assert(crate::checker::advice_value(l, 0, 3) == Value::Known(ab));
            } else {
                assert(!sel_on(l, 0, row)) by {
                    if sel_on(l, 0, row) {
                        let k = choose|k: int|
                            0 <= k < l.selectors@.len() && l.selectors@[k] == (
                            Selector { index: 0 },
                            row as usize,
                            );
                        assert(l.selectors@[k] == (config.s_mul, 2usize));
                    }
                }
            }
        }

        // the copy constraints hold exactly when the public input is a * b
        assert(l.copies@[0] == (c_a, lhs) && l.copies@[1] == (c_b, rhs) && l.copies@[2] == (
            c_out,
            inst0,
        ));
        assert(copy_ok(l, public@, c_a, lhs));
        assert(copy_ok(l, public@, c_b, rhs));
        assert(copy_ok(l, public@, c_out, inst0) <==> (public@.len() >= 1 && public@[0] == ab));
        if public@.len() >= 1 && public@[0] == ab {
            assert forall|i: int| 0 <= i < l.copies@.len() implies copy_ok(
                l,
                public@,
                (#[trigger] l.copies@[i]).0,
                l.copies@[i].1,
            ) by {
                assert(i == 0 || i == 1 || i == 2);
            }
        }
        if crate::checker::copies_ok(l, public@) {
            assert(copy_ok(l, public@, (l.copies@[2]).0, l.copies@[2].1));
        }
        assert(satisfied(cs, l, public@) == (public@.len() >= 1 && public@[0] == ab));
    }
    r
}

/// Builds the circuit that multiplies a loaded constant by a private
/// value — load `constant` via the constants column, load `b`, multiply,
/// expose at instance row 0 — and checks it. The constant's cell is
/// copy-constrained to the fixed column, and the circuit is satisfied
/// exactly by a public input carrying `constant * b` at row 0.
pub fn const_mul_example(constant: Fe, b: Fe, public: &Vec<Fe>) -> (r: bool)
    requires
        constant.wf(),
        b.wf(),
    ensures
        r == (public@.len() >= 1 && public@[0] == fe_mul_spec(constant, b)),
{
    let mut cs = ConstraintSystem::new();
    let a0 = cs.advice_column();
    let a1 = cs.advice_column();
    let instance = cs.instance_column();
    let fixed = cs.fixed_column();
    let config = ScalarMulConfig::configure(&mut cs, [a0, a1], instance, fixed);
    proof {
        assert(config.advice[0] == a0);
        assert(config.advice[1] == a1);
    }
    let chip = ScalarMulChip::new(config);
    let mut layouter = Layouter::new(&cs);
    let ghost l0 = layouter;
    proof {
        assert(cs.eq_enabled(a0) && cs.eq_enabled(a1) && cs.eq_enabled(instance) && cs.eq_enabled(
            fixed,
        ));
        assert(l0.eq_enabled(a0) && l0.eq_enabled(a1) && l0.eq_enabled(instance) && l0.eq_enabled(
            fixed,
        ));
        assert(crate::layout::constant_ready(l0, a0));
    }
    let na = match chip.load_constant(&mut layouter, constant) {
        Ok(n) => n,
        Err(_) => {
            proof {
                assert(false);
            }
            return false;
        },
    };
    let nb = match chip.load_private(&mut layouter, Value::Known(b)) {
        Ok(n) => n,
        Err(_) => {
            proof {
                assert(false);
            }
            return false;
        },
    };
    proof {
        assert(layouter.eq_columns@ == l0.eq_columns@);
        assert(layouter.eq_enabled(a0) && layouter.eq_enabled(a1));
        assert(na.cell.column == a0 && nb.cell.column == a0);
        assert(layouter.lookup(na.cell) == Some(Value::Known(constant)));
        assert(layouter.lookup(nb.cell) == Some(Value::Known(b)));
    }
    let nc = match chip.mul(&mut layouter, na, nb) {
        Ok(n) => n,
        Err(_) => {
            proof {
                assert(false);
            }
            return false;
        },
    };
    proof {
        assert(layouter.eq_columns@ == l0.eq_columns@);
        assert(l0.eq_enabled(a0) && l0.eq_enabled(instance));
        assert(layouter.eq_enabled(a0) && layouter.eq_enabled(instance));
        assert(nc.cell.column == a0);
        assert(layouter.lookup(nc.cell) == Some(
            crate::field::value_mul_spec(Value::Known(constant), Value::Known(b)),
        ));
    }
    match chip.expose_public(&mut layouter, nc, 0) {
        Ok(_) => {},
        Err(_) => {
            proof {
                assert(false);
            }
            return false;
        },
    };
    let r = check_circuit(&cs, &layouter, public);
    proof {
        let l = layouter;
        let cb = fe_mul_spec(constant, b);
        let c_a = Cell { column: a0, row: 0 };
        let c_fix = Cell { column: fixed, row: 0 };
        let c_b = Cell { column: a0, row: 1 };
        let lhs = Cell { column: a0, row: 2 };
        let rhs = Cell { column: a1, row: 2 };
        let c_out = Cell { column: a0, row: 3 };
        let inst0 = Cell { column: instance, row: 0 };

        assert(na.cell == c_a && nb.cell == c_b && nc.cell == c_out);
        assert(l.lookup(c_a) == Some(Value::Known(constant)));
        assert(l.lookup(c_fix) == Some(Value::Known(constant)));
        assert(l.lookup(c_b) == Some(Value::Known(b)));
        assert(l.lookup(lhs) == Some(Value::Known(constant)));
        assert(l.lookup(rhs) == Some(Value::Known(b)));
        assert(l.lookup(c_out) == Some(Value::Known(cb)));
        assert(l.next_row == 4);
        assert(l.selectors@ == Seq::<(Selector, usize)>::empty().push((config.s_mul, 2)));
        assert(l.copies@ == Seq::<(Cell, Cell)>::empty().push((c_a, c_fix)).push((c_a, lhs)).push(
            (c_b, rhs),
        ).push((c_out, inst0)));
        assert(cs.gates@.len() == 1);
        assert(cs.gates@[0].polys@ == seq![crate::chip::mul_poly(0, 1, 0)]);
        assert(config.s_mul == (Selector { index: 0 }));

        assert forall|g: int, p: int, row: int|
            0 <= g < cs.gates@.len() && 0 <= p < cs.gates@[g].polys@.len() && 0 <= row < l.next_row
                implies #[trigger] crate::checker::eval(cs.gates@[g].polys@[p], row, l)
            == Value::Known(crate::field::fe_zero()) by {
            assert(g == 0 && p == 0);
            assert(cs.gates@[0].polys@[0] == crate::chip::mul_poly(0, 1, 0));
            lemma_eval_mul_poly(l, 0, 1, 0, row as usize);
            if row == 2 {
                assert(l.selectors@[0] == (Selector { index: 0 }, 2usize));
                assert(sel_on(l, 0, 2));
                assert(crate::checker::advice_value(l, 0, 2) == Value::Known(constant));
                assert(crate::checker::advice_value(l, 1, 2) == Value::Known(b));
                assert(crate::checker::advice_value(l, 0, 3) == Value::Known(cb));
            } else {
                assert(!sel_on(l, 0, row)) by {
                    if sel_on(l, 0, row) {
                        let k = choose|k: int|
                            0 <= k < l.selectors@.len() && l.selectors@[k] == (
                            Selector { index: 0 },
                            row as usize,
                            );
                        assert(l.selectors@[k] == (config.s_mul, 2usize));
                    }
                }
            }
        }

        assert(copy_ok(l, public@, c_a, c_fix));
        assert(copy_ok(l, public@, c_a, lhs));
        assert(copy_ok(l, public@, c_b, rhs));
        assert(copy_ok(l, public@, c_out, inst0) <==> (public@.len() >= 1 && public@[0] == cb));
        if public@.len() >= 1 && public@[0] == cb {
            assert forall|i: int| 0 <= i < l.copies@.len() implies copy_ok(
                l,
                public@,
                (#[trigger] l.copies@[i]).0,
                l.copies@[i].1,
            ) by {
                assert(i == 0 || i == 1 || i == 2 || i == 3);
            }
        }
        if crate::checker::copies_ok(l, public@) {
            assert(copy_ok(l, public@, (l.copies@[3]).0, l.copies@[3].1));
        }
        assert(satisfied(cs, l, public@) == (public@.len() >= 1 && public@[0] == cb));
    }
    r
}

/// Builds the chained circuit — square `a`, square `b`, multiply the two
/// squares, expose at instance row 0 — and checks it. For all field
/// elements `a` and `b`, the circuit is satisfied exactly by a public
/// input carrying `(a*a) * (b*b)` at row 0.
pub fn chained_mul_example(a: Fe, b: Fe, public: &Vec<Fe>) -> (r: bool)
    requires
        a.wf(),
        b.wf(),
    ensures
        r == (public@.len() >= 1 && public@[0] == fe_mul_spec(fe_mul_spec(a, a), fe_mul_spec(b, b))),
{
    let mut cs = ConstraintSystem::new();
    let a0 = cs.advice_column();
    let a1 = cs.advice_column();
    let instance = cs.instance_column();
    let constant = cs.fixed_column();
    let config = ScalarMulConfig::configure(&mut cs, [a0, a1], instance, constant);
    proof {
        assert(config.advice[0] == a0);
        assert(config.advice[1] == a1);
    }
    let chip = ScalarMulChip::new(config);
    let mut layouter = Layouter::new(&cs);
    let ghost l0 = layouter;
    let na = match chip.load_private(&mut layouter, Value::Known(a)) {
        Ok(n) => n,
        Err(_) => {
            proof {
                assert(false);
            }
            return false;
        },
    };
    let nb = match chip.load_private(&mut layouter, Value::Known(b)) {
        Ok(n) => n,
        Err(_) => {
            proof {
                assert(false);
            }
            return false;
        },
    };
    proof {
        assert(cs.eq_enabled(a0) && cs.eq_enabled(a1) && cs.eq_enabled(instance));
        assert(l0.eq_enabled(a0) && l0.eq_enabled(a1) && l0.eq_enabled(instance));
        assert(layouter.eq_columns@ == l0.eq_columns@);
        assert(layouter.eq_enabled(a0) && layouter.eq_enabled(a1));
        assert(layouter.lookup(na.cell) == Some(Value::Known(a)));
        assert(layouter.lookup(nb.cell) == Some(Value::Known(b)));
    }
    let naa = match chip.mul(&mut layouter, na, na) {
        Ok(n) => n,
        Err(_) => {
            proof {
                assert(false);
            }
            return false;
        },
    };
    proof {
        assert(layouter.eq_columns@ == l0.eq_columns@);
        assert(layouter.eq_enabled(a0) && layouter.eq_enabled(a1));
        assert(layouter.lookup(nb.cell) == Some(Value::Known(b)));
    }
    let nbb = match chip.mul(&mut layouter, nb, nb) {
        Ok(n) => n,
        Err(_) => {
            proof {
                assert(false);
            }
            return false;
        },
    };
    proof {
        assert(layouter.eq_columns@ == l0.eq_columns@);
        assert(layouter.eq_enabled(a0) && layouter.eq_enabled(a1));
        assert(layouter.lookup(naa.cell) == Some(Value::Known(fe_mul_spec(a, a))));
        assert(layouter.lookup(nbb.cell) == Some(Value::Known(fe_mul_spec(b, b))));
    }
    let nc = match chip.mul(&mut layouter, naa, nbb) {
        Ok(n) => n,
        Err(_) => {
            proof {
                assert(false);
            }
            return false;
        },
    };
    proof {
        assert(layouter.eq_columns@ == l0.eq_columns@);
        assert(layouter.eq_enabled(a0) && layouter.eq_enabled(instance));
        assert(nc.cell.column == a0);
        assert(layouter.lookup(nc.cell) is Some);
    }
    match chip.expose_public(&mut layouter, nc, 0) {
        Ok(_) => {},
        Err(_) => {
            proof {
                assert(false);
            }
            return false;
        },
    };
    let r = check_circuit(&cs, &layouter, public);
    proof {
        let l = layouter;
        let aa = fe_mul_spec(a, a);
        let bb = fe_mul_spec(b, b);
        let out = fe_mul_spec(aa, bb);
        let c_a = Cell { column: a0, row: 0 };
        let c_b = Cell { column: a0, row: 1 };
        let c_aa = Cell { column: a0, row: 3 };
        let c_bb = Cell { column: a0, row: 5 };
        let c_out = Cell { column: a0, row: 7 };
        let inst0 = Cell { column: instance, row: 0 };
        let s = config.s_mul;

        assert(na.cell == c_a && nb.cell == c_b && naa.cell == c_aa && nbb.cell == c_bb && nc.cell
            == c_out);
        assert(l.lookup(c_a) == Some(Value::Known(a)));
        assert(l.lookup(c_b) == Some(Value::Known(b)));
        assert(l.lookup(Cell { column: a0, row: 2 }) == Some(Value::Known(a)));
        assert(l.lookup(Cell { column: a1, row: 2 }) == Some(Value::Known(a)));
        assert(l.lookup(c_aa) == Some(Value::Known(aa)));
        assert(l.lookup(Cell { column: a0, row: 4 }) == Some(Value::Known(b)));
        assert(l.lookup(Cell { column: a1, row: 4 }) == Some(Value::Known(b)));
        assert(l.lookup(c_bb) == Some(Value::Known(bb)));
        assert(l.lookup(Cell { column: a0, row: 6 }) == Some(Value::Known(aa)));
        assert(l.lookup(Cell { column: a1, row: 6 }) == Some(Value::Known(bb)));
        assert(l.lookup(c_out) == Some(Value::Known(out)));
        assert(l.next_row == 8);
        assert(l.selectors@ == Seq::<(Selector, usize)>::empty().push((s, 2)).push((s, 4)).push(
            (s, 6),
        ));
        assert(l.copies@ == Seq::<(Cell, Cell)>::empty().push((c_a, Cell { column: a0, row: 2 }))
            .push((c_a, Cell { column: a1, row: 2 })).push((c_b, Cell { column: a0, row: 4 }))
            .push((c_b, Cell { column: a1, row: 4 })).push((c_aa, Cell { column: a0, row: 6 }))
            .push((c_bb, Cell { column: a1, row: 6 })).push((c_out, inst0)));
        assert(cs.gates@.len() == 1);
        assert(cs.gates@[0].polys@ == seq![crate::chip::mul_poly(0, 1, 0)]);
        assert(s == (Selector { index: 0 }));

        assert forall|g: int, p: int, row: int|
            0 <= g < cs.gates@.len() && 0 <= p < cs.gates@[g].polys@.len() && 0 <= row < l.next_row
                implies #[trigger] crate::checker::eval(cs.gates@[g].polys@[p], row, l)
            == Value::Known(crate::field::fe_zero()) by {
            assert(g == 0 && p == 0);
            assert(cs.gates@[0].polys@[0] == crate::chip::mul_poly(0, 1, 0));
            lemma_eval_mul_poly(l, 0, 1, 0, row as usize);
            if row == 2 {
                assert(l.selectors@[0] == (Selector { index: 0 }, 2usize));
                assert(sel_on(l, 0, 2));
                assert(crate::checker::advice_value(l, 0, 2) == Value::Known(a));
                assert(crate::checker::advice_value(l, 1, 2) == Value::Known(a));
                assert(crate::checker::advice_value(l, 0, 3) == Value::Known(aa));
            } else if row == 4 {
                assert(l.selectors@[1] == (Selector { index: 0 }, 4usize));
                assert(sel_on(l, 0, 4));
                assert(crate::checker::advice_value(l, 0, 4) == Value::Known(b));
                assert(crate::checker::advice_value(l, 1, 4) == Value::Known(b));
                assert(crate::checker::advice_value(l, 0, 5) == Value::Known(bb));
            } else if row == 6 {
                assert(l.selectors@[2] == (Selector { index: 0 }, 6usize));
                assert(sel_on(l, 0, 6));
                assert(crate::checker::advice_value(l, 0, 6) == Value::Known(aa));
                assert(crate::checker::advice_value(l, 1, 6) == Value::Known(bb));
                assert(crate::checker::advice_value(l, 0, 7) == Value::Known(out));
            } else {
                assert(!sel_on(l, 0, row)) by {
                    if sel_on(l, 0, row) {
                        let k = choose|k: int|
                            0 <= k < l.selectors@.len() && l.selectors@[k] == (
                            Selector { index: 0 },
                            row as usize,
                            );
                        assert(k == 0 || k == 1 || k == 2);
                    }
                }
            }
        }

        assert(copy_ok(l, public@, c_out, inst0) <==> (public@.len() >= 1 && public@[0] == out));
        if public@.len() >= 1 && public@[0] == out {
            assert forall|i: int| 0 <= i < l.copies@.len() implies copy_ok(
                l,
                public@,
                (#[trigger] l.copies@[i]).0,
                l.copies@[i].1,
            ) by {
                assert(0 <= i < 7);
                assert(copy_ok(l, public@, c_a, Cell { column: a0, row: 2 }));
                assert(copy_ok(l, public@, c_a, Cell { column: a1, row: 2 }));
                assert(copy_ok(l, public@, c_b, Cell { column: a0, row: 4 }));
                assert(copy_ok(l, public@, c_b, Cell { column: a1, row: 4 }));
                assert(copy_ok(l, public@, c_aa, Cell { column: a0, row: 6 }));
                assert(copy_ok(l, public@, c_bb, Cell { column: a1, row: 6 }));
                assert(copy_ok(l, public@, c_out, inst0));
            }
        }
        if crate::checker::copies_ok(l, public@) {
            assert(copy_ok(l, public@, (l.copies@[6]).0, l.copies@[6].1));
        }
        assert(satisfied(cs, l, public@) == (public@.len() >= 1 && public@[0] == out));
    }
    r
}

} // verus!
