//! The configuration-phase registry: typed columns, selectors, and
//! selector-guarded polynomial gates over column values at relative row
//! offsets.

use vstd::prelude::*;
use crate::field::Fe;

verus! {

/// The kind of storage a column provides: private witness values, public
/// input values, or circuit-wide constants.
#[derive(Clone, Copy, PartialEq, Eq, Structural, Debug)]
pub enum ColumnKind {
    Advice,
    Instance,
    Fixed,
}

/// A registered column: a kind together with a per-kind index.
#[derive(Clone, Copy, PartialEq, Eq, Structural, Debug)]
pub struct Column {
    pub kind: ColumnKind,
    pub index: usize,
}

/// A boolean per-row flag; enabling it at a row activates every gate that
/// queries it there.
#[derive(Clone, Copy, PartialEq, Eq, Structural, Debug)]
pub struct Selector {
    pub index: usize,
}

/// A polynomial over column values at relative row offsets, as a tagged
/// expression tree.
#[derive(Debug)]
pub enum Expression {
    /// A constant field element.
    Constant(Fe),
    /// The value of advice column `index` at the given rotation from the
    /// row under evaluation.
    Advice { index: usize, rotation: i32 },
    /// The activation value of selector `index` at the row under
    /// evaluation: one where enabled, zero elsewhere.
    Selector { index: usize },
    Neg(Box<Expression>),
    Sum(Box<Expression>, Box<Expression>),
    Product(Box<Expression>, Box<Expression>),
}

/// Every constant embedded in the expression is a reduced field element.
pub open spec fn expr_wf(e: Expression) -> bool
    decreases e,
{
    match e {
        Expression::Constant(f) => f.wf(),
        Expression::Advice { .. } => true,
        Expression::Selector { .. } => true,
        Expression::Neg(e1) => expr_wf(*e1),
        Expression::Sum(e1, e2) => expr_wf(*e1) && expr_wf(*e2),
        Expression::Product(e1, e2) => expr_wf(*e1) && expr_wf(*e2),
    }
}

/// A named relation: every listed polynomial must evaluate to the additive
/// identity at every row where its guarding selector is active.
#[derive(Debug)]
pub struct Gate {
    pub polys: Vec<Expression>,
}

impl Gate {
    pub open spec fn wf(self) -> bool {
        forall|i: int| 0 <= i < self.polys@.len() ==> expr_wf(#[trigger] self.polys@[i])
    }
}

/// The configuration-phase state: how many columns and selectors exist,
/// which columns support copy constraints, which fixed column carries
/// loaded constants, and the registered gates.
#[derive(Debug)]
pub struct ConstraintSystem {
    pub num_advice: usize,
    pub num_instance: usize,
    pub num_fixed: usize,
    pub num_selectors: usize,
    pub equality: Vec<Column>,
    pub constants_column: Option<Column>,
    pub gates: Vec<Gate>,
}

/// The equality registry after one `enable_equality` call: unchanged when
/// the column is already flagged, extended by it otherwise.
pub open spec fn with_equality(eq: Seq<Column>, column: Column) -> Seq<Column> {
    if eq.contains(column) {
        eq
    } else {
        eq.push(column)
    }
}

impl ConstraintSystem {
    /// The column supports copy constraints.
    pub open spec fn eq_enabled(self, column: Column) -> bool {
        self.equality@.contains(column)
    }

    pub open spec fn gates_wf(self) -> bool {
        forall|i: int| 0 <= i < self.gates@.len() ==> (#[trigger] self.gates@[i]).wf()
    }

    pub fn new() -> (r: ConstraintSystem)
        ensures
            r.num_advice == 0,
            r.num_instance == 0,
            r.num_fixed == 0,
            r.num_selectors == 0,
            r.equality@ == Seq::<Column>::empty(),
            r.constants_column is None,
            r.gates@ == Seq::<Gate>::empty(),
            r.gates_wf(),
    {
        ConstraintSystem {
            num_advice: 0,
            num_instance: 0,
            num_fixed: 0,
            num_selectors: 0,
            equality: Vec::new(),
            constants_column: None,
            gates: Vec::new(),
        }
    }

    /// Declares a fresh advice column.
    pub fn advice_column(&mut self) -> (c: Column)
        requires
            old(self).num_advice < usize::MAX,
        ensures
            c == (Column { kind: ColumnKind::Advice, index: old(self).num_advice }),
            final(self).num_advice == old(self).num_advice + 1,
            final(self).num_instance == old(self).num_instance,
            final(self).num_fixed == old(self).num_fixed,
            final(self).num_selectors == old(self).num_selectors,
            final(self).equality@ == old(self).equality@,
            final(self).constants_column == old(self).constants_column,
            final(self).gates@ == old(self).gates@,
    {
        let index = self.num_advice;
        self.num_advice = self.num_advice + 1;
        Column { kind: ColumnKind::Advice, index }
    }

    /// Declares a fresh instance column.
    pub fn instance_column(&mut self) -> (c: Column)
        requires
            old(self).num_instance < usize::MAX,
        ensures
            c == (Column { kind: ColumnKind::Instance, index: old(self).num_instance }),
            final(self).num_instance == old(self).num_instance + 1,
            final(self).num_advice == old(self).num_advice,
            final(self).num_fixed == old(self).num_fixed,
            final(self).num_selectors == old(self).num_selectors,
            final(self).equality@ == old(self).equality@,
            final(self).constants_column == old(self).constants_column,
            final(self).gates@ == old(self).gates@,
    {
        let index = self.num_instance;
        self.num_instance = self.num_instance + 1;
        Column { kind: ColumnKind::Instance, index }
    }

    /// Declares a fresh fixed column.
    pub fn fixed_column(&mut self) -> (c: Column)
        requires
            old(self).num_fixed < usize::MAX,
        ensures
            c == (Column { kind: ColumnKind::Fixed, index: old(self).num_fixed }),
            final(self).num_fixed == old(self).num_fixed + 1,
            final(self).num_advice == old(self).num_advice,
            final(self).num_instance == old(self).num_instance,
            final(self).num_selectors == old(self).num_selectors,
            final(self).equality@ == old(self).equality@,
            final(self).constants_column == old(self).constants_column,
            final(self).gates@ == old(self).gates@,
    {
        let index = self.num_fixed;
        self.num_fixed = self.num_fixed + 1;
        Column { kind: ColumnKind::Fixed, index }
    }

    /// Registers a fresh selector.
    pub fn selector(&mut self) -> (s: Selector)
        requires
            old(self).num_selectors < usize::MAX,
        ensures
            s == (Selector { index: old(self).num_selectors }),
            final(self).num_selectors == old(self).num_selectors + 1,
            final(self).num_advice == old(self).num_advice,
            final(self).num_instance == old(self).num_instance,
            final(self).num_fixed == old(self).num_fixed,
            final(self).equality@ == old(self).equality@,
            final(self).constants_column == old(self).constants_column,
            final(self).gates@ == old(self).gates@,
    {
        let index = self.num_selectors;
        self.num_selectors = self.num_selectors + 1;
        Selector { index }
    }

    /// Flags a column as supporting copy constraints. A column already
    /// flagged is left exactly as it was: the call is idempotent.
    pub fn enable_equality(&mut self, column: Column)
        ensures
            final(self).equality@ == with_equality(old(self).equality@, column),
            final(self).eq_enabled(column),
            forall|c: Column|
                final(self).eq_enabled(c) <==> (old(self).eq_enabled(c) || c == column),
            final(self).num_advice == old(self).num_advice,
            final(self).num_instance == old(self).num_instance,
            final(self).num_fixed == old(self).num_fixed,
            final(self).num_selectors == old(self).num_selectors,
            final(self).constants_column == old(self).constants_column,
            final(self).gates@ == old(self).gates@,
    {
        if !column_in(&self.equality, column) {
            self.equality.push(column);
            proof {
                let before = old(self).equality@;
                let after = self.equality@;
                assert(after[before.len() as int] == column);
                assert forall|c: Column| after.contains(c) <==> (before.contains(c) || c
                    == column) by {
                    if before.contains(c) {
                        let i = choose|i: int| 0 <= i < before.len() && before[i] == c;
                        assert(after[i] == c);
                    }
                    if after.contains(c) {
                        let i = choose|i: int| 0 <= i < after.len() && after[i] == c;
                        if i < before.len() {
                            assert(before[i] == c);
                        }
                    }
                }
            }
        }
    }

    /// Marks the fixed column that carries loaded constants, and flags it
    /// for copy constraints so constants can be bound by copy.
    pub fn enable_constant(&mut self, column: Column)
        requires
            column.kind == ColumnKind::Fixed,
        ensures
            final(self).constants_column == Some(column),
            final(self).equality@ == with_equality(old(self).equality@, column),
            final(self).eq_enabled(column),
            forall|c: Column|
                final(self).eq_enabled(c) <==> (old(self).eq_enabled(c) || c == column),
            final(self).num_advice == old(self).num_advice,
            final(self).num_instance == old(self).num_instance,
            final(self).num_fixed == old(self).num_fixed,
            final(self).num_selectors == old(self).num_selectors,
            final(self).gates@ == old(self).gates@,
    {
        self.enable_equality(column);
        self.constants_column = Some(column);
    }

    /// Registers a gate: a named list of polynomials, each constrained to
    /// the additive identity at every row where its selector is active.
    #[allow(unused_variables)]
    pub fn create_gate(&mut self, name: &str, polys: Vec<Expression>)
        requires
            forall|i: int| 0 <= i < polys@.len() ==> expr_wf(#[trigger] polys@[i]),
        ensures
            final(self).gates@ == old(self).gates@.push(Gate { polys: polys }),
            final(self).num_advice == old(self).num_advice,
            final(self).num_instance == old(self).num_instance,
            final(self).num_fixed == old(self).num_fixed,
            final(self).num_selectors == old(self).num_selectors,
            final(self).equality@ == old(self).equality@,
            final(self).constants_column == old(self).constants_column,
            old(self).gates_wf() ==> final(self).gates_wf(),
    {
        self.gates.push(Gate { polys });
    }
}

/// Whether the slice of registered columns contains the given one.
pub fn column_in(columns: &Vec<Column>, column: Column) -> (r: bool)
    ensures
        r == columns@.contains(column),
{
    let mut i: usize = 0;
    while i < columns.len()
        invariant
            0 <= i <= columns@.len(),
            forall|j: int| 0 <= j < i ==> columns@[j] != column,
        decreases columns@.len() - i,
    {
        if columns[i] == column {
            return true;
        }
        i = i + 1;
    }
    false
}

/// Enabling equality on the same column twice leaves the registry exactly
/// as one call leaves it.
pub proof fn lemma_enable_equality_idempotent(eq: Seq<Column>, column: Column)
    ensures
        with_equality(with_equality(eq, column), column) == with_equality(eq, column),
{
    if !eq.contains(column) {
        assert(eq.push(column)[eq.len() as int] == column);
        assert(eq.push(column).contains(column));
    }
}

} // verus!
