//! The synthesis-phase state: a bump allocator that hands out disjoint row
//! ranges to named regions, a write-once grid of cell assignments, enabled
//! selectors, and the registered copy constraints.

use vstd::prelude::*;
use crate::field::{Fe, Value};
use crate::system::{Column, ColumnKind, ConstraintSystem, Selector};

verus! {

/// The intersection of a column and an absolute row.
#[derive(Clone, Copy, PartialEq, Eq, Structural, Debug)]
pub struct Cell {
    pub column: Column,
    pub row: usize,
}

/// A synthesis failure. Every error is fatal: the circuit shape must be
/// exactly right or the whole synthesis is abandoned.
#[derive(Clone, Copy, PartialEq, Eq, Structural, Debug)]
pub enum Error {
    /// A column lacks a required capability, such as equality support or
    /// constant loading.
    Configuration,
    /// A cell was assigned two different concrete values.
    AssignmentConflict,
    /// A copy constraint refers to a cell that was never assigned.
    UnresolvedReference,
}

/// The grid holds at most one entry per cell.
pub open spec fn grid_nodup(s: Seq<(Cell, Value)>) -> bool {
    forall|i: int, j: int|
        0 <= i < s.len() && 0 <= j < s.len() && i != j ==> (#[trigger] s[i]).0 != (
        #[trigger] s[j]).0
}

pub open spec fn grid_has_cell(s: Seq<(Cell, Value)>, c: Cell) -> bool {
    exists|i: int| 0 <= i < s.len() && (#[trigger] s[i]).0 == c
}

pub open spec fn grid_cell_value(s: Seq<(Cell, Value)>, c: Cell) -> Value {
    s[choose|i: int| 0 <= i < s.len() && (#[trigger] s[i]).0 == c].1
}

/// The value the grid holds at a cell, if the cell was assigned.
pub open spec fn grid_lookup(s: Seq<(Cell, Value)>, c: Cell) -> Option<Value> {
    if grid_has_cell(s, c) {
        Some(grid_cell_value(s, c))
    } else {
        None
    }
}

/// The value a cell holds after an assignment: a fresh cell takes the new
/// value; a concrete value is kept; a concrete value replaces an unknown.
pub open spec fn merged(cur: Option<Value>, value: Value) -> Value {
    match cur {
        None => value,
        Some(cv) => if value is Known {
            value
        } else {
            cv
        },
    }
}

/// The concrete value inside an option, when there is one.
pub open spec fn some_value(o: Option<Value>) -> Value
    recommends
        o is Some,
{
    match o {
        Some(v) => v,
        None => Value::Unknown,
    }
}

/// The layouter can bind constants: a constants column was declared, it is
/// a fixed column, and both it and the destination column support copy
/// constraints.
pub open spec fn constant_ready(l: Layouter, column: Column) -> bool {
    match l.constants_column {
        Some(fc) => fc.kind == ColumnKind::Fixed && l.eq_enabled(fc) && l.eq_enabled(column),
        None => false,
    }
}

/// The column that carries loaded constants.
pub open spec fn constants_col(l: Layouter) -> Column
    recommends
        l.constants_column is Some,
{
    match l.constants_column {
        Some(fc) => fc,
        None => Column { kind: ColumnKind::Fixed, index: 0 },
    }
}

/// Two synthesis states that agree on every observable component.
pub open spec fn same_state(a: Layouter, b: Layouter) -> bool {
    a.assignments@ == b.assignments@ && a.copies@ == b.copies@ && a.selectors@ == b.selectors@
        && a.regions@ == b.regions@ && a.next_row == b.next_row && a.next_const_row
        == b.next_const_row && a.eq_columns@ == b.eq_columns@ && a.constants_column
        == b.constants_column
}

/// Row ranges, given as (start, length), that share no row.
pub open spec fn ranges_disjoint(a: (usize, usize), b: (usize, usize)) -> bool {
    a.0 + a.1 <= b.0 || b.0 + b.1 <= a.0
}

pub open spec fn region_within(r: (usize, usize), next_row: usize) -> bool {
    r.0 + r.1 <= next_row
}

/// A grid entry is a reduced value in an advice or fixed cell below the
/// respective allocation watermark; instance cells are never assigned
/// directly, their values come from the public-input vector.
pub open spec fn entry_wf(e: (Cell, Value), next_row: usize, next_const_row: usize) -> bool {
    e.1.wf() && match e.0.column.kind {
        ColumnKind::Advice => e.0.row < next_row,
        ColumnKind::Fixed => e.0.row < next_const_row,
        ColumnKind::Instance => false,
    }
}

/// The synthesis-phase allocator and grid.
#[derive(Debug)]
pub struct Layouter {
    pub assignments: Vec<(Cell, Value)>,
    pub copies: Vec<(Cell, Cell)>,
    pub selectors: Vec<(Selector, usize)>,
    pub regions: Vec<(usize, usize)>,
    pub next_row: usize,
    pub next_const_row: usize,
    pub eq_columns: Vec<Column>,
    pub constants_column: Option<Column>,
}

impl Layouter {
    pub open spec fn eq_enabled(self, column: Column) -> bool {
        self.eq_columns@.contains(column)
    }

    pub open spec fn has_cell(self, c: Cell) -> bool {
        grid_has_cell(self.assignments@, c)
    }

    pub open spec fn lookup(self, c: Cell) -> Option<Value> {
        grid_lookup(self.assignments@, c)
    }

    /// Assigning `value` at `c` would collide with a different concrete
    /// value already held there.
    pub open spec fn conflict(self, c: Cell, value: Value) -> bool {
        self.lookup(c) matches Some(cv) && cv is Known && value is Known && cv != value
    }

    pub open spec fn wf(self) -> bool {
        &&& grid_nodup(self.assignments@)
        &&& forall|i: int|
            0 <= i < self.assignments@.len() ==> entry_wf(
                #[trigger] self.assignments@[i],
                self.next_row,
                self.next_const_row,
            )
        &&& forall|i: int, j: int|
            0 <= i < j < self.regions@.len() ==> ranges_disjoint(
                #[trigger] self.regions@[i],
                #[trigger] self.regions@[j],
            )
        &&& forall|i: int|
            0 <= i < self.regions@.len() ==> region_within(
                #[trigger] self.regions@[i],
                self.next_row,
            )
    }

    /// A fresh layouter over the configuration's equality registry and
    /// constants column.
    pub fn new(cs: &ConstraintSystem) -> (r: Layouter)
        ensures
            r.assignments@ == Seq::<(Cell, Value)>::empty(),
            r.copies@ == Seq::<(Cell, Cell)>::empty(),
            r.selectors@ == Seq::<(Selector, usize)>::empty(),
            r.regions@ == Seq::<(usize, usize)>::empty(),
            r.next_row == 0,
            r.next_const_row == 0,
            r.eq_columns@ == cs.equality@,
            r.constants_column == cs.constants_column,
            forall|c: Column| r.eq_enabled(c) <==> cs.eq_enabled(c),
            r.wf(),
    {
        let mut eq_columns: Vec<Column> = Vec::new();
        let mut i: usize = 0;
        while i < cs.equality.len()
            invariant
                0 <= i <= cs.equality@.len(),
                eq_columns@ == cs.equality@.subrange(0, i as int),
            decreases cs.equality@.len() - i,
        {
            eq_columns.push(cs.equality[i]);
            proof {
                assert(eq_columns@ =~= cs.equality@.subrange(0, i + 1));
            }
            i = i + 1;
        }
        proof {
            assert(eq_columns@ =~= cs.equality@);
        }
        Layouter {
            assignments: Vec::new(),
            copies: Vec::new(),
            selectors: Vec::new(),
            regions: Vec::new(),
            next_row: 0,
            next_const_row: 0,
            eq_columns,
            constants_column: cs.constants_column,
        }
    }

    /// Whether the column was flagged for copy constraints.
    pub fn is_eq_enabled(&self, column: Column) -> (r: bool)
        ensures
            r == self.eq_enabled(column),
    {
        crate::system::column_in(&self.eq_columns, column)
    }

    /// The value assigned at a cell, if any.
    pub fn find_value(&self, c: Cell) -> (r: Option<Value>)
        requires
            self.wf(),
        ensures
            r == self.lookup(c),
    {
        let mut i: usize = 0;
        while i < self.assignments.len()
            invariant
                self.wf(),
                0 <= i <= self.assignments@.len(),
                forall|j: int| 0 <= j < i ==> (#[trigger] self.assignments@[j]).0 != c,
            decreases self.assignments@.len() - i,
        {
            let entry = self.assignments[i];
            if entry.0 == c {
                proof {
                    lemma_grid_lookup_at(self.assignments@, i as int);
                }
                return Some(entry.1);
            }
            i = i + 1;
        }
        proof {
            assert(!grid_has_cell(self.assignments@, c));
        }
        None
    }

    /// Whether the selector was enabled at the row.
    pub fn selector_on(&self, s: Selector, row: usize) -> (r: bool)
        ensures
            r == self.selectors@.contains((s, row)),
    {
        let mut i: usize = 0;
        while i < self.selectors.len()
            invariant
                0 <= i <= self.selectors@.len(),
                forall|j: int| 0 <= j < i ==> self.selectors@[j] != (s, row),
            decreases self.selectors@.len() - i,
        {
            let entry = self.selectors[i];
            if entry.0 == s && entry.1 == row {
                proof {
                    assert(self.selectors@[i as int] == (s, row));
                }
                return true;
            }
            i = i + 1;
        }
        false
    }

    /// Opens a named region spanning `rows` fresh rows and returns its
    /// start row. The allocator never hands a later region a row already
    /// granted: the new range lies entirely above every earlier one.
    #[allow(unused_variables)]
    pub fn assign_region(&mut self, name: &str, rows: usize) -> (start: usize)
        requires
            old(self).wf(),
            old(self).next_row + rows <= usize::MAX,
        ensures
            final(self).wf(),
            start == old(self).next_row,
            final(self).next_row == old(self).next_row + rows,
            final(self).regions@ == old(self).regions@.push((start, rows)),
            final(self).assignments@ == old(self).assignments@,
            final(self).copies@ == old(self).copies@,
            final(self).selectors@ == old(self).selectors@,
            final(self).next_const_row == old(self).next_const_row,
            final(self).eq_columns@ == old(self).eq_columns@,
            final(self).constants_column == old(self).constants_column,
    {
        let start = self.next_row;
        self.regions.push((start, rows));
        self.next_row = self.next_row + rows;
        proof {
            let rs = self.regions@;
            let last = rs.len() - 1;
            assert forall|i: int, j: int| 0 <= i < j < rs.len() implies ranges_disjoint(
                #[trigger] rs[i],
                #[trigger] rs[j],
            ) by {
                if j == last {
                    assert(region_within(old(self).regions@[i], start));
                }
            }
            assert forall|i: int| 0 <= i < rs.len() implies region_within(
                #[trigger] rs[i],
                self.next_row,
            ) by {
                if i < last {
                    assert(region_within(old(self).regions@[i], start));
                }
            }
        }
        start
    }

    /// Enables the selector at an absolute row, activating every gate that
    /// queries it there.
    pub fn enable_selector(&mut self, s: Selector, row: usize)
        requires
            old(self).wf(),
        ensures
            final(self).wf(),
            final(self).selectors@ == old(self).selectors@.push((s, row)),
            final(self).assignments@ == old(self).assignments@,
            final(self).copies@ == old(self).copies@,
            final(self).regions@ == old(self).regions@,
            final(self).next_row == old(self).next_row,
            final(self).next_const_row == old(self).next_const_row,
            final(self).eq_columns@ == old(self).eq_columns@,
            final(self).constants_column == old(self).constants_column,
    {
        self.selectors.push((s, row));
    }

    /// Places a value at an advice cell inside an allocated region. A cell
    /// already holding a different concrete value rejects the assignment
    /// and the grid is left untouched; otherwise a concrete value wins
    /// over an unknown one and an equal value is kept as it was.
    pub fn assign_advice(&mut self, column: Column, row: usize, value: Value) -> (r: Result<
        Cell,
        Error,
    >)
        requires
            old(self).wf(),
            column.kind == ColumnKind::Advice,
            row < old(self).next_row,
            value.wf(),
        ensures
            final(self).wf(),
            final(self).copies@ == old(self).copies@,
            final(self).selectors@ == old(self).selectors@,
            final(self).regions@ == old(self).regions@,
            final(self).next_row == old(self).next_row,
            final(self).next_const_row == old(self).next_const_row,
            final(self).eq_columns@ == old(self).eq_columns@,
            final(self).constants_column == old(self).constants_column,
            ({
                let c = Cell { column, row };
                if old(self).conflict(c, value) {
                    r == Err::<Cell, Error>(Error::AssignmentConflict) && final(self).assignments@
                        == old(self).assignments@
                } else {
                    r == Ok::<Cell, Error>(c) && final(self).lookup(c) == Some(
                        merged(old(self).lookup(c), value),
                    ) && (forall|c2: Cell|
                        c2 != c ==> final(self).lookup(c2) == old(self).lookup(c2))
                }
            }),
    {
        let c = Cell { column, row };
        let ghost before = self.assignments@;
        match self.find_index(c) {
            None => {
                self.assignments.push((c, value));
                proof {
                    lemma_grid_push(before, c, value);
                    assert forall|i: int|
                        0 <= i < self.assignments@.len() implies entry_wf(
                        #[trigger] self.assignments@[i],
                        self.next_row,
                        self.next_const_row,
                    ) by {
                        if i < before.len() {
                            assert(entry_wf(before[i], self.next_row, self.next_const_row));
                        }
                    }
                }
                Ok(c)
            },
            Some(i) => {
                proof {
                    lemma_grid_lookup_at(before, i as int);
                }
                let existing = self.assignments[i].1;
                match (existing, value) {
                    (Value::Known(x), Value::Known(y)) => {
                        if x == y {
                            Ok(c)
                        } else {
                            Err(Error::AssignmentConflict)
                        }
                    },
                    (Value::Unknown, Value::Known(_)) => {
                        self.assignments.remove(i);
                        self.assignments.insert(i, (c, value));
                        proof {
                            assert(self.assignments@ =~= before.update(i as int, (c, value)));
                            lemma_grid_update(before, i as int, value);
                            assert forall|k: int|
                                0 <= k < self.assignments@.len() implies entry_wf(
                                #[trigger] self.assignments@[k],
                                self.next_row,
                                self.next_const_row,
                            ) by {
                                assert(entry_wf(before[k], self.next_row, self.next_const_row));
                            }
                        }
                        Ok(c)
                    },
                    _ => Ok(c),
                }
            },
        }
    }

    /// Places a constant at an advice cell and binds the new cell by copy
    /// constraint to a fresh cell of the constants column holding that
    /// constant, so the constant's provenance is provable.
    pub fn assign_advice_from_constant(&mut self, column: Column, row: usize, constant: Fe) -> (r:
        Result<Cell, Error>)
        requires
            old(self).wf(),
            column.kind == ColumnKind::Advice,
            row < old(self).next_row,
            old(self).next_const_row < usize::MAX,
            constant.wf(),
        ensures
            final(self).wf(),
            final(self).selectors@ == old(self).selectors@,
            final(self).regions@ == old(self).regions@,
            final(self).next_row == old(self).next_row,
            final(self).eq_columns@ == old(self).eq_columns@,
            final(self).constants_column == old(self).constants_column,
            ({
                let c = Cell { column, row };
                if !constant_ready(*old(self), column) {
                    r == Err::<Cell, Error>(Error::Configuration) && same_state(
                        *final(self),
                        *old(self),
                    )
                } else if old(self).conflict(c, Value::Known(constant)) {
                    r == Err::<Cell, Error>(Error::AssignmentConflict) && same_state(
                        *final(self),
                        *old(self),
                    )
                } else {
                    let fixed = Cell {
                        column: constants_col(*old(self)),
                        row: old(self).next_const_row,
                    };
                    let lookup_c = final(self).lookup(c);
                    let lookup_fixed = final(self).lookup(fixed);
                    let new_copies = final(self).copies@;
                    let new_const_row = final(self).next_const_row;
                    r == Ok::<Cell, Error>(c)
                    && lookup_c == Some(merged(old(self).lookup(c), Value::Known(constant)))
                    && lookup_fixed == Some(Value::Known(constant))
                    && (forall|c2: Cell|
                        c2 != c && c2 != fixed ==> final(self).lookup(c2) == old(self).lookup(c2))
                    && new_copies == old(self).copies@.push((c, fixed))
                    && new_const_row == old(self).next_const_row + 1
                }
            }),
    {
        let fixed_column = match self.constants_column {
            Some(fc) => fc,
            None => {
                return Err(Error::Configuration);
            },
        };
        if fixed_column.kind != ColumnKind::Fixed || !self.is_eq_enabled(fixed_column)
            || !self.is_eq_enabled(column) {
            return Err(Error::Configuration);
        }
        let c = Cell { column, row };
        let fixed = Cell { column: fixed_column, row: self.next_const_row };
        match self.assign_advice(column, row, Value::Known(constant)) {
            Err(e) => Err(e),
            Ok(_) => {
                let ghost mid = *self;
                proof {
                    assert(!mid.has_cell(fixed)) by {
                        if mid.has_cell(fixed) {
                            let i = choose|i: int|
                                0 <= i < mid.assignments@.len() && (#[trigger] mid.assignments@[i]).0
                                    == fixed;
                            assert(entry_wf(mid.assignments@[i], mid.next_row, mid.next_const_row));
                        }
                    }
                }
                self.assignments.push((fixed, Value::Known(constant)));
                self.next_const_row = self.next_const_row + 1;
                proof {
                    lemma_grid_push(mid.assignments@, fixed, Value::Known(constant));
                    assert forall|i: int|
                        0 <= i < self.assignments@.len() implies entry_wf(
                        #[trigger] self.assignments@[i],
                        self.next_row,
                        self.next_const_row,
                    ) by {
                        if i < mid.assignments@.len() {
                            assert(entry_wf(mid.assignments@[i], mid.next_row, mid.next_const_row));
                        }
                    }
                }
                self.copies.push((c, fixed));
                Ok(c)
            },
        }
    }

    /// Creates a cell at `(column, row)` holding the source cell's value
    /// and registers a copy constraint between the two. Both columns must
    /// support equality, and the source must have been assigned.
    pub fn copy_advice(&mut self, source: Cell, column: Column, row: usize) -> (r: Result<
        Cell,
        Error,
    >)
        requires
            old(self).wf(),
            column.kind == ColumnKind::Advice,
            row < old(self).next_row,
        ensures
            final(self).wf(),
            final(self).selectors@ == old(self).selectors@,
            final(self).regions@ == old(self).regions@,
            final(self).next_row == old(self).next_row,
            final(self).next_const_row == old(self).next_const_row,
            final(self).eq_columns@ == old(self).eq_columns@,
            final(self).constants_column == old(self).constants_column,
            ({
                let dest = Cell { column, row };
                if !(old(self).eq_enabled(source.column) && old(self).eq_enabled(column)) {
                    r == Err::<Cell, Error>(Error::Configuration) && same_state(
                        *final(self),
                        *old(self),
                    )
                } else if old(self).lookup(source) is None {
                    r == Err::<Cell, Error>(Error::UnresolvedReference) && same_state(
                        *final(self),
                        *old(self),
                    )
                } else if old(self).conflict(dest, some_value(old(self).lookup(source))) {
                    r == Err::<Cell, Error>(Error::AssignmentConflict) && same_state(
                        *final(self),
                        *old(self),
                    )
                } else {
                    let lookup_dest = final(self).lookup(dest);
                    let new_copies = final(self).copies@;
                    r == Ok::<Cell, Error>(dest)
                    && lookup_dest == Some(
                        merged(old(self).lookup(dest), some_value(old(self).lookup(source))),
                    )
                    && (forall|c2: Cell|
                        c2 != dest ==> final(self).lookup(c2) == old(self).lookup(c2))
                    && new_copies == old(self).copies@.push((source, dest))
                }
            }),
    {
        if !self.is_eq_enabled(source.column) || !self.is_eq_enabled(column) {
            return Err(Error::Configuration);
        }
        let value = match self.find_value(source) {
            Some(v) => v,
            None => {
                return Err(Error::UnresolvedReference);
            },
        };
        proof {
            assert(value.wf()) by {
                let s = old(self).assignments@;
                let i = choose|i: int| 0 <= i < s.len() && (#[trigger] s[i]).0 == source;
                assert(entry_wf(s[i], old(self).next_row, old(self).next_const_row));
            }
        }
        let dest = Cell { column, row };
        match self.assign_advice(column, row, value) {
            Err(e) => Err(e),
            Ok(_) => {
                self.copies.push((source, dest));
                Ok(dest)
            },
        }
    }

    /// Registers a copy constraint between an assigned cell and the given
    /// row of an instance column, binding the cell's value to a public
    /// input. Both columns must support equality.
    pub fn constrain_instance(&mut self, cell: Cell, column: Column, row: usize) -> (r: Result<
        (),
        Error,
    >)
        requires
            old(self).wf(),
            column.kind == ColumnKind::Instance,
        ensures
            final(self).wf(),
            final(self).assignments@ == old(self).assignments@,
            final(self).selectors@ == old(self).selectors@,
            final(self).regions@ == old(self).regions@,
            final(self).next_row == old(self).next_row,
            final(self).next_const_row == old(self).next_const_row,
            final(self).eq_columns@ == old(self).eq_columns@,
            final(self).constants_column == old(self).constants_column,
            ({
                if !(old(self).eq_enabled(cell.column) && old(self).eq_enabled(column)) {
                    r == Err::<(), Error>(Error::Configuration) && final(self).copies@ == old(
                        self,
                    ).copies@
                } else if old(self).lookup(cell) is None {
                    r == Err::<(), Error>(Error::UnresolvedReference) && final(self).copies@ == old(
                        self,
                    ).copies@
                } else {
                    r == Ok::<(), Error>(()) && final(self).copies@ == old(self).copies@.push(
                        (cell, Cell { column, row }),
                    )
                }
            }),
    {
        if !self.is_eq_enabled(cell.column) || !self.is_eq_enabled(column) {
            return Err(Error::Configuration);
        }
        if self.find_value(cell).is_none() {
            return Err(Error::UnresolvedReference);
        }
        self.copies.push((cell, Cell { column, row }));
        Ok(())
    }

    /// The index of the entry holding the cell, if any.
    fn find_index(&self, c: Cell) -> (r: Option<usize>)
        ensures
            match r {
                Some(i) => i < self.assignments@.len() && self.assignments@[i as int].0 == c,
                None => !self.has_cell(c),
            },
    {
        let mut i: usize = 0;
        while i < self.assignments.len()
            invariant
                0 <= i <= self.assignments@.len(),
                forall|j: int| 0 <= j < i ==> (#[trigger] self.assignments@[j]).0 != c,
            decreases self.assignments@.len() - i,
        {
            if self.assignments[i].0 == c {
                return Some(i);
            }
            i = i + 1;
        }
        None
    }
}

/// A grid entry is found by lookup at exactly its own value.
pub proof fn lemma_grid_lookup_at(s: Seq<(Cell, Value)>, i: int)
    requires
        grid_nodup(s),
        0 <= i < s.len(),
    ensures
        grid_lookup(s, s[i].0) == Some(s[i].1),
{
    let c = s[i].0;
    assert(grid_has_cell(s, c));
    let j = choose|j: int| 0 <= j < s.len() && (#[trigger] s[j]).0 == c;
    if j != i {
        assert(s[i].0 != s[j].0);
    }
}

/// Pushing a fresh cell sets its lookup and leaves every other cell's
/// lookup as it was.
pub proof fn lemma_grid_push(s: Seq<(Cell, Value)>, c: Cell, v: Value)
    requires
        grid_nodup(s),
        !grid_has_cell(s, c),
    ensures
        grid_nodup(s.push((c, v))),
        grid_lookup(s.push((c, v)), c) == Some(v),
        forall|c2: Cell| c2 != c ==> grid_lookup(s.push((c, v)), c2) == grid_lookup(s, c2),
{
    let t = s.push((c, v));
    assert(t[s.len() as int] == (c, v));
    assert forall|i: int, j: int|
        0 <= i < t.len() && 0 <= j < t.len() && i != j implies (#[trigger] t[i]).0 != (
    #[trigger] t[j]).0 by {
        if i < s.len() && j < s.len() {
            assert(s[i] == t[i] && s[j] == t[j]);
        } else if i < s.len() {
            assert(s[i].0 != c);
        } else if j < s.len() {
            assert(s[j].0 != c);
        }
    }
    lemma_grid_lookup_at(t, s.len() as int);
    assert forall|c2: Cell| c2 != c implies grid_lookup(t, c2) == grid_lookup(s, c2) by {
        if grid_has_cell(s, c2) {
            let i = choose|i: int| 0 <= i < s.len() && (#[trigger] s[i]).0 == c2;
            assert(t[i] == s[i]);
            lemma_grid_lookup_at(s, i);
            lemma_grid_lookup_at(t, i);
        } else {
            if grid_has_cell(t, c2) {
                let i = choose|i: int| 0 <= i < t.len() && (#[trigger] t[i]).0 == c2;
                assert(i == s.len());
            }
        }
    }
}

/// Updating the entry at an index sets its cell's lookup and leaves every
/// other cell's lookup as it was.
pub proof fn lemma_grid_update(s: Seq<(Cell, Value)>, i: int, v: Value)
    requires
        grid_nodup(s),
        0 <= i < s.len(),
    ensures
        grid_nodup(s.update(i, (s[i].0, v))),
        grid_lookup(s.update(i, (s[i].0, v)), s[i].0) == Some(v),
        forall|c2: Cell|
            c2 != s[i].0 ==> grid_lookup(s.update(i, (s[i].0, v)), c2) == grid_lookup(s, c2),
{
    let c = s[i].0;
    let t = s.update(i, (c, v));
    assert forall|k: int, j: int|
        0 <= k < t.len() && 0 <= j < t.len() && k != j implies (#[trigger] t[k]).0 != (
    #[trigger] t[j]).0 by {
        assert(t[k].0 == s[k].0 && t[j].0 == s[j].0);
    }
    lemma_grid_lookup_at(t, i);
    assert forall|c2: Cell| c2 != c implies grid_lookup(t, c2) == grid_lookup(s, c2) by {
        if grid_has_cell(s, c2) {
            let k = choose|k: int| 0 <= k < s.len() && (#[trigger] s[k]).0 == c2;
            assert(t[k].0 == c2 && k != i);
            assert(t[k] == s[k]);
            lemma_grid_lookup_at(s, k);
            lemma_grid_lookup_at(t, k);
        } else {
            if grid_has_cell(t, c2) {
                let k = choose|k: int| 0 <= k < t.len() && (#[trigger] t[k]).0 == c2;
                assert(s[k].0 == c2);
            }
        }
    }
}

/// Row-reuse safety: any two regions a layouter has handed out are
/// disjoint — a later region never receives a row of an earlier one.
pub proof fn lemma_regions_disjoint(l: Layouter, i: int, j: int)
    requires
        l.wf(),
        0 <= i < l.regions@.len(),
        0 <= j < l.regions@.len(),
        i != j,
    ensures
        ranges_disjoint(l.regions@[i], l.regions@[j]),
{
}

} // verus!
