//! The scalar-multiplication chip: an immutable configuration of two
//! advice columns, one instance column and one selector, and the four
//! operations that author a multiplication circuit on a layouter.

use vstd::prelude::*;
use crate::field::{Fe, Value, value_mul, value_mul_spec};
use crate::layout::{
    Cell, Error, Layouter, constant_ready, constants_col, entry_wf, grid_has_cell, same_state,
    some_value,
};
use crate::system::{Column, ColumnKind, ConstraintSystem, Expression, Selector, expr_wf};

verus! {

/// The polynomial of the multiplication gate over advice columns `a0` and
/// `a1` guarded by selector `s`: `s * (a0[cur] * a1[cur] - a0[next])`.
pub open spec fn mul_poly(a0: usize, a1: usize, s: usize) -> Expression {
    Expression::Product(
        Box::new(Expression::Selector { index: s }),
        Box::new(
            Expression::Sum(
                Box::new(
                    Expression::Product(
                        Box::new(Expression::Advice { index: a0, rotation: 0 }),
                        Box::new(Expression::Advice { index: a1, rotation: 0 }),
                    ),
                ),
                Box::new(Expression::Neg(Box::new(Expression::Advice { index: a0, rotation: 1 }))),
            ),
        ),
    )
}

/// The resolved configuration a chip is built over: two advice columns,
/// one instance column, and the multiplication selector.
#[derive(Clone, Copy, Debug)]
pub struct ScalarMulConfig {
    pub advice: [Column; 2],
    pub instance: Column,
    pub s_mul: Selector,
}

impl ScalarMulConfig {
    /// One-time configuration: flags the instance, constant and advice
    /// columns for copy constraints, registers the multiplication
    /// selector, and registers the multiplication relation `s_mul * (lhs * rhs - out) = 0`
    /// with `lhs`, `rhs` at the current row and `out` at the next.
    pub fn configure(
        meta: &mut ConstraintSystem,
        advice: [Column; 2],
        instance: Column,
        constant: Column,
    ) -> (r: ScalarMulConfig)
        requires
            constant.kind == ColumnKind::Fixed,
            old(meta).num_selectors < usize::MAX,
        ensures
            r.advice == advice,
            r.instance == instance,
            r.s_mul == (Selector { index: old(meta).num_selectors }),
            forall|c: Column|
                final(meta).eq_enabled(c) <==> (old(meta).eq_enabled(c) || c == instance || c
                    == constant || c == advice[0] || c == advice[1]),
            final(meta).constants_column == Some(constant),
            final(meta).num_selectors == old(meta).num_selectors + 1,
            final(meta).gates@.len() == old(meta).gates@.len() + 1,
            forall|i: int|
                0 <= i < old(meta).gates@.len() ==> final(meta).gates@[i] == old(meta).gates@[i],
            final(meta).gates@[old(meta).gates@.len() as int].polys@ == seq![
                mul_poly(advice[0].index, advice[1].index, r.s_mul.index),
            ],
            old(meta).gates_wf() ==> final(meta).gates_wf(),
            final(meta).num_advice == old(meta).num_advice,
            final(meta).num_instance == old(meta).num_instance,
            final(meta).num_fixed == old(meta).num_fixed,
    {
        meta.enable_equality(instance);
        meta.enable_constant(constant);
        meta.enable_equality(advice[0]);
        meta.enable_equality(advice[1]);
        let s_mul = meta.selector();

        let lhs = Expression::Advice { index: advice[0].index, rotation: 0 };
        let rhs = Expression::Advice { index: advice[1].index, rotation: 0 };
        let out = Expression::Advice { index: advice[0].index, rotation: 1 };
        let s = Expression::Selector { index: s_mul.index };
        let poly = Expression::Product(
            Box::new(s),
            Box::new(
                Expression::Sum(
                    Box::new(Expression::Product(Box::new(lhs), Box::new(rhs))),
                    Box::new(Expression::Neg(Box::new(out))),
                ),
            ),
        );
        let mut polys: Vec<Expression> = Vec::new();
        proof {
            reveal_with_fuel(expr_wf, 8);
            assert(expr_wf(mul_poly(advice[0].index, advice[1].index, s_mul.index)));
        }
        polys.push(poly);
        meta.create_gate("mul", polys);
        ScalarMulConfig { advice, instance, s_mul }
    }
}

/// A value at a cell: the only handle by which a produced value flows into
/// later operations or into public-input exposure.
#[derive(Clone, Copy, PartialEq, Eq, Structural, Debug)]
pub struct Number {
    pub cell: Cell,
    pub value: Value,
}

/// The chip itself: stateless beyond its immutable configuration.
#[derive(Clone, Copy, Debug)]
pub struct ScalarMulChip {
    pub config: ScalarMulConfig,
}

/// The four circuit-authoring operations a scalar-multiplication chip
/// offers, stated over the columns and selector of its resolved
/// configuration.
pub trait ScalarMulInstructions {
    /// The first advice column of the resolved configuration.
    spec fn advice0(&self) -> Column;

    /// The second advice column of the resolved configuration.
    spec fn advice1(&self) -> Column;

    /// The instance column of the resolved configuration.
    spec fn instance_col(&self) -> Column;

    /// The multiplication selector of the resolved configuration.
    spec fn s_mul_sel(&self) -> Selector;

    /// The configuration names two distinct advice columns and an
    /// instance column.
    spec fn wf(&self) -> bool;

    /// Loads a private witness value: assigns it in a fresh one-row
    /// region at the first advice column and returns its handle. Always
    /// succeeds.
    fn load_private(&self, layouter: &mut Layouter, value: Value) -> (r: Result<Number, Error>)
        requires
            self.wf(),
            old(layouter).wf(),
            old(layouter).next_row < usize::MAX,
            value.wf(),
        ensures
            final(layouter).wf(),
            r is Ok,
            ({
                let start = old(layouter).next_row;
                let cell = Cell { column: self.advice0(), row: start };
                let lookup_cell = final(layouter).lookup(cell);
                r->Ok_0 == (Number { cell, value })
                && lookup_cell == Some(value)
                && (forall|c2: Cell|
                    c2 != cell ==> final(layouter).lookup(c2) == old(layouter).lookup(c2))
                && final(layouter).next_row == start + 1
                && final(layouter).regions@ == old(layouter).regions@.push((start, 1))
                && final(layouter).copies@ == old(layouter).copies@
                && final(layouter).selectors@ == old(layouter).selectors@
                && final(layouter).next_const_row == old(layouter).next_const_row
                && final(layouter).eq_columns@ == old(layouter).eq_columns@
                && final(layouter).constants_column == old(layouter).constants_column
            }),
    ;

    /// Loads a constant: assigns it in a fresh one-row region at the
    /// first advice column and binds the new cell by copy constraint to a
    /// fresh cell of the constants column holding the constant. Succeeds
    /// exactly when a constants column was declared and both columns
    /// support copy constraints.
    fn load_constant(&self, layouter: &mut Layouter, constant: Fe) -> (r: Result<Number, Error>)
        requires
            self.wf(),
            old(layouter).wf(),
            old(layouter).next_row < usize::MAX,
            old(layouter).next_const_row < usize::MAX,
            constant.wf(),
        ensures
            final(layouter).wf(),
            ({
                let start = old(layouter).next_row;
                let cell = Cell { column: self.advice0(), row: start };
                let fixed = Cell {
                    column: constants_col(*old(layouter)),
                    row: old(layouter).next_const_row,
                };
                if !constant_ready(*old(layouter), self.advice0()) {
                    r == Err::<Number, Error>(Error::Configuration) && same_state(
                        *final(layouter),
                        *old(layouter),
                    )
                } else {
                    let lookup_cell = final(layouter).lookup(cell);
                    let lookup_fixed = final(layouter).lookup(fixed);
                    r == Ok::<Number, Error>(Number { cell, value: Value::Known(constant) })
                    && lookup_cell == Some(Value::Known(constant))
                    && lookup_fixed == Some(Value::Known(constant))
                    && (forall|c2: Cell|
                        c2 != cell && c2 != fixed ==> final(layouter).lookup(c2) == old(
                            layouter,
                        ).lookup(c2))
                    && final(layouter).copies@ == old(layouter).copies@.push((cell, fixed))
                    && final(layouter).next_row == start + 1
                    && final(layouter).next_const_row == old(layouter).next_const_row + 1
                    && final(layouter).regions@ == old(layouter).regions@.push((start, 1))
                    && final(layouter).selectors@ == old(layouter).selectors@
                    && final(layouter).eq_columns@ == old(layouter).eq_columns@
                    && final(layouter).constants_column == old(layouter).constants_column
                }
            }),
    ;

    /// Multiplies two loaded values: opens a fresh two-row region,
    /// enables the multiplication selector at its first row, re-binds
    /// both inputs into its own input cells by copy constraint,
    /// assigns the product (unknown if either input is unknown) to the
    /// output cell, and returns the output handle. Succeeds exactly when
    /// all four columns involved support copy constraints and both input
    /// cells were assigned.
    fn mul(&self, layouter: &mut Layouter, a: Number, b: Number) -> (r: Result<Number, Error>)
        requires
            self.wf(),
            old(layouter).wf(),
            old(layouter).next_row + 2 <= usize::MAX,
            a.value.wf(),
            b.value.wf(),
        ensures
            final(layouter).wf(),
            ({
                let start = old(layouter).next_row;
                let lhs = Cell { column: self.advice0(), row: start };
                let rhs = Cell { column: self.advice1(), row: start };
                let out = Cell { column: self.advice0(), row: (start + 1) as usize };
                if !(old(layouter).eq_enabled(a.cell.column) && old(layouter).eq_enabled(
                    b.cell.column,
                ) && old(layouter).eq_enabled(self.advice0()) && old(layouter).eq_enabled(
                    self.advice1(),
                )) {
                    r == Err::<Number, Error>(Error::Configuration) && same_state(
                        *final(layouter),
                        *old(layouter),
                    )
                } else if old(layouter).lookup(a.cell) is None || old(layouter).lookup(b.cell)
                    is None {
                    r == Err::<Number, Error>(Error::UnresolvedReference) && same_state(
                        *final(layouter),
                        *old(layouter),
                    )
                } else {
                    let lookup_lhs = final(layouter).lookup(lhs);
                    let lookup_rhs = final(layouter).lookup(rhs);
                    let lookup_out = final(layouter).lookup(out);
                    r == Ok::<Number, Error>(
                        Number { cell: out, value: value_mul_spec(a.value, b.value) },
                    )
                    && lookup_lhs == Some(some_value(old(layouter).lookup(a.cell)))
                    && lookup_rhs == Some(some_value(old(layouter).lookup(b.cell)))
                    && lookup_out == Some(value_mul_spec(a.value, b.value))
                    && (forall|c2: Cell|
                        c2 != lhs && c2 != rhs && c2 != out ==> final(layouter).lookup(c2) == old(
                            layouter,
                        ).lookup(c2))
                    && final(layouter).copies@ == old(layouter).copies@.push((a.cell, lhs)).push(
                        (b.cell, rhs),
                    )
                    && final(layouter).selectors@ == old(layouter).selectors@.push(
                        (self.s_mul_sel(), start),
                    )
                    && final(layouter).regions@ == old(layouter).regions@.push((start, 2))
                    && final(layouter).next_row == start + 2
                    && final(layouter).next_const_row == old(layouter).next_const_row
                    && final(layouter).eq_columns@ == old(layouter).eq_columns@
                    && final(layouter).constants_column == old(layouter).constants_column
                }
            }),
    ;

    /// Binds a produced value to the given absolute row of the instance
    /// column by copy constraint: the sole mechanism by which an internal
    /// value becomes an externally checkable public output. Succeeds
    /// exactly when both columns support copy constraints and the cell
    /// was assigned.
    fn expose_public(&self, layouter: &mut Layouter, num: Number, row: usize) -> (r: Result<
        (),
        Error,
    >)
        requires
            self.wf(),
            old(layouter).wf(),
        ensures
            final(layouter).wf(),
            final(layouter).assignments@ == old(layouter).assignments@,
            final(layouter).selectors@ == old(layouter).selectors@,
            final(layouter).regions@ == old(layouter).regions@,
            final(layouter).next_row == old(layouter).next_row,
            final(layouter).next_const_row == old(layouter).next_const_row,
            final(layouter).eq_columns@ == old(layouter).eq_columns@,
            final(layouter).constants_column == old(layouter).constants_column,
            ({
                if !(old(layouter).eq_enabled(num.cell.column) && old(layouter).eq_enabled(
                    self.instance_col(),
                )) {
                    r == Err::<(), Error>(Error::Configuration) && final(layouter).copies@ == old(
                        layouter,
                    ).copies@
                } else if old(layouter).lookup(num.cell) is None {
                    r == Err::<(), Error>(Error::UnresolvedReference) && final(layouter).copies@
                        == old(layouter).copies@
                } else {
                    r == Ok::<(), Error>(()) && final(layouter).copies@ == old(
                        layouter,
                    ).copies@.push((num.cell, Cell { column: self.instance_col(), row }))
                }
            }),
    ;
}

impl ScalarMulChip {
    /// Binds a chip to a resolved configuration.
    pub fn new(config: ScalarMulConfig) -> (r: Self)
        ensures
            r.config == config,
    {
        ScalarMulChip { config }
    }

    /// The configuration the chip was built over.
    pub fn config(&self) -> (r: &ScalarMulConfig)
        ensures
            r == &self.config,
    {
        &self.config
    }

    /// The chip loads no lookup tables or other state.
    pub fn loaded(&self) {
    }
}

impl ScalarMulInstructions for ScalarMulChip {
    open spec fn advice0(&self) -> Column {
        self.config.advice[0]
    }

    open spec fn advice1(&self) -> Column {
        self.config.advice[1]
    }

    open spec fn instance_col(&self) -> Column {
        self.config.instance
    }

    open spec fn s_mul_sel(&self) -> Selector {
        self.config.s_mul
    }

    open spec fn wf(&self) -> bool {
        self.config.advice[0].kind == ColumnKind::Advice && self.config.advice[1].kind
            == ColumnKind::Advice && self.config.advice[0].index != self.config.advice[1].index
            && self.config.instance.kind == ColumnKind::Instance
    }

    fn load_private(&self, layouter: &mut Layouter, value: Value) -> (r: Result<Number, Error>) {
        let column = self.config.advice[0];
        let start = layouter.assign_region("load private", 1);
        let ghost mid = *layouter;
        proof {
            lemma_fresh_cell(mid, *old(layouter), Cell { column, row: start });
        }
        let cell = match layouter.assign_advice(column, start, value) {
            Ok(c) => c,
            Err(_) => {
                proof {
                    assert(false);
                }
                return Err(Error::AssignmentConflict);
            },
        };
        Ok(Number { cell, value })
    }

    fn load_constant(&self, layouter: &mut Layouter, constant: Fe) -> (r: Result<Number, Error>) {
        let column = self.config.advice[0];
        let ready = match layouter.constants_column {
            None => false,
            Some(fc) => fc.kind == ColumnKind::Fixed && layouter.is_eq_enabled(fc)
                && layouter.is_eq_enabled(column),
        };
        if !ready {
            return Err(Error::Configuration);
        }
        let start = layouter.assign_region("load constant", 1);
        let ghost mid = *layouter;
        proof {
            lemma_fresh_cell(mid, *old(layouter), Cell { column, row: start });
        }
        let cell = match layouter.assign_advice_from_constant(column, start, constant) {
            Ok(c) => c,
            Err(_) => {
                proof {
                    assert(false);
                }
                return Err(Error::Configuration);
            },
        };
        Ok(Number { cell, value: Value::Known(constant) })
    }

    fn mul(&self, layouter: &mut Layouter, a: Number, b: Number) -> (r: Result<Number, Error>) {
        let a0 = self.config.advice[0];
        let a1 = self.config.advice[1];
        if !layouter.is_eq_enabled(a.cell.column) || !layouter.is_eq_enabled(b.cell.column)
            || !layouter.is_eq_enabled(a0) || !layouter.is_eq_enabled(a1) {
            return Err(Error::Configuration);
        }
        if layouter.find_value(a.cell).is_none() || layouter.find_value(b.cell).is_none() {
            return Err(Error::UnresolvedReference);
        }
        let start = layouter.assign_region("mul", 2);
        layouter.enable_selector(self.config.s_mul, start);
        let ghost l1 = *layouter;
        proof {
            lemma_fresh_cell(l1, *old(layouter), Cell { column: a0, row: start });
        }
        let lhs = match layouter.copy_advice(a.cell, a0, start) {
            Ok(c) => c,
            Err(_) => {
                proof {
                    assert(false);
                }
                return Err(Error::Configuration);
            },
        };
        let ghost l2 = *layouter;
        proof {
            let dest = Cell { column: a1, row: start };
            lemma_fresh_cell(l1, *old(layouter), dest);
            assert(l2.lookup(dest) == l1.lookup(dest));
            lemma_source_bounded(*old(layouter), b.cell);
            assert(l2.lookup(b.cell) == l1.lookup(b.cell));
        }
        let rhs = match layouter.copy_advice(b.cell, a1, start) {
            Ok(c) => c,
            Err(_) => {
                proof {
                    assert(false);
                }
                return Err(Error::Configuration);
            },
        };
        let ghost l3 = *layouter;
        proof {
            let out_cell = Cell { column: a0, row: (start + 1) as usize };
            lemma_fresh_cell(l1, *old(layouter), out_cell);
            assert(l2.lookup(out_cell) == l1.lookup(out_cell));
            assert(l3.lookup(out_cell) == l2.lookup(out_cell));
        }
        let value = value_mul(a.value, b.value);
        let out = match layouter.assign_advice(a0, start + 1, value) {
            Ok(c) => c,
            Err(_) => {
                proof {
                    assert(false);
                }
                return Err(Error::AssignmentConflict);
            },
        };
        Ok(Number { cell: out, value })
    }

    fn expose_public(&self, layouter: &mut Layouter, num: Number, row: usize) -> (r: Result<
        (),
        Error,
    >) {
        layouter.constrain_instance(num.cell, self.config.instance, row)
    }
}

/// An assigned cell lies below the watermark of its column's kind, and is
/// never an instance cell.
proof fn lemma_source_bounded(l: Layouter, c: Cell)
    requires
        l.wf(),
        l.lookup(c) is Some,
    ensures
        c.column.kind != ColumnKind::Instance,
        c.column.kind == ColumnKind::Advice ==> c.row < l.next_row,
        c.column.kind == ColumnKind::Fixed ==> c.row < l.next_const_row,
{
    assert(grid_has_cell(l.assignments@, c));
    let i = choose|i: int| 0 <= i < l.assignments@.len() && (#[trigger] l.assignments@[i]).0 == c;
    assert(entry_wf(l.assignments@[i], l.next_row, l.next_const_row));
}

/// A cell at or above the previous allocation watermark is fresh: the
/// grid cannot hold it yet.
proof fn lemma_fresh_cell(l: Layouter, prev: Layouter, c: Cell)
    requires
        prev.wf(),
        l.assignments@ == prev.assignments@,
        l.next_const_row == prev.next_const_row,
        c.row >= prev.next_row,
        c.column.kind == ColumnKind::Advice,
    ensures
        !l.has_cell(c),
        l.lookup(c) is None,
{
    if grid_has_cell(l.assignments@, c) {
        let i = choose|i: int|
            0 <= i < l.assignments@.len() && (#[trigger] l.assignments@[i]).0 == c;
        assert(entry_wf(prev.assignments@[i], prev.next_row, prev.next_const_row));
    }
}

} // verus!
