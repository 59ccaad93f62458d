use scalar_mul::field::{Fe, Value};
use scalar_mul::layout::{Cell, Error, Layouter};
use scalar_mul::system::{Column, ColumnKind, ConstraintSystem};

fn configured() -> (ConstraintSystem, Column, Column) {
    let mut cs = ConstraintSystem::new();
    let a0 = cs.advice_column();
    let a1 = cs.advice_column();
    cs.enable_equality(a0);
    cs.enable_equality(a1);
    (cs, a0, a1)
}

#[test]
fn regions_never_overlap() {
    let (cs, _, _) = configured();
    let mut lay = Layouter::new(&cs);
    let first = lay.assign_region("first", 3);
    let second = lay.assign_region("second", 2);
    assert_eq!(first, 0);
    assert_eq!(second, 3);
    assert_eq!(lay.regions, vec![(0, 3), (3, 2)]);
    // the two ranges share no row
    assert!(first + 3 <= second);
}

#[test]
fn conflicting_assignment_is_rejected_and_state_kept() {
    let (cs, a0, _) = configured();
    let mut lay = Layouter::new(&cs);
    let start = lay.assign_region("r", 1);
    let cell = lay.assign_advice(a0, start, Value::Known(Fe { v: 7 })).unwrap();
    assert_eq!(cell, Cell { column: a0, row: 0 });
    let before = lay.assignments.clone();
    let r = lay.assign_advice(a0, start, Value::Known(Fe { v: 8 }));
    assert_eq!(r, Err(Error::AssignmentConflict));
    assert_eq!(lay.assignments, before);
}

#[test]
fn equal_reassignment_is_kept() {
    let (cs, a0, _) = configured();
    let mut lay = Layouter::new(&cs);
    let start = lay.assign_region("r", 1);
    lay.assign_advice(a0, start, Value::Known(Fe { v: 7 })).unwrap();
    let r = lay.assign_advice(a0, start, Value::Known(Fe { v: 7 }));
    assert!(r.is_ok());
    assert_eq!(lay.assignments.len(), 1);
    assert_eq!(lay.assignments[0].1, Value::Known(Fe { v: 7 }));
}

#[test]
fn known_value_replaces_unknown() {
    let (cs, a0, _) = configured();
    let mut lay = Layouter::new(&cs);
    let start = lay.assign_region("r", 1);
    lay.assign_advice(a0, start, Value::Unknown).unwrap();
    lay.assign_advice(a0, start, Value::Known(Fe { v: 9 })).unwrap();
    assert_eq!(lay.assignments.len(), 1);
    assert_eq!(lay.assignments[0].1, Value::Known(Fe { v: 9 }));
    // an unknown never overwrites a concrete value
    lay.assign_advice(a0, start, Value::Unknown).unwrap();
    assert_eq!(lay.assignments[0].1, Value::Known(Fe { v: 9 }));
}

#[test]
fn copy_needs_equality_on_both_columns() {
    let mut cs = ConstraintSystem::new();
    let a0 = cs.advice_column();
    let a1 = cs.advice_column();
    cs.enable_equality(a0);
    // a1 deliberately lacks equality
    let mut lay = Layouter::new(&cs);
    let start = lay.assign_region("r", 1);
    let src = lay.assign_advice(a0, start, Value::Known(Fe { v: 4 })).unwrap();
    let r = lay.copy_advice(src, a1, start);
    assert_eq!(r, Err(Error::Configuration));
}

#[test]
fn copy_of_unassigned_cell_is_unresolved() {
    let (cs, a0, a1) = configured();
    let mut lay = Layouter::new(&cs);
    let start = lay.assign_region("r", 1);
    let missing = Cell { column: a1, row: start };
    let r = lay.copy_advice(missing, a0, start);
    assert_eq!(r, Err(Error::UnresolvedReference));
}

#[test]
fn copy_carries_value_and_registers_constraint() {
    let (cs, a0, a1) = configured();
    let mut lay = Layouter::new(&cs);
    let start = lay.assign_region("r", 2);
    let src = lay.assign_advice(a0, start, Value::Known(Fe { v: 4 })).unwrap();
    let dst = lay.copy_advice(src, a1, start + 1).unwrap();
    assert_eq!(dst, Cell { column: a1, row: 1 });
    assert_eq!(lay.copies, vec![(src, dst)]);
    assert_eq!(lay.assignments[1], (dst, Value::Known(Fe { v: 4 })));
}

#[test]
fn constant_assignment_needs_a_constants_column() {
    let (cs, a0, _) = configured();
    let mut lay = Layouter::new(&cs);
    let start = lay.assign_region("r", 1);
    let r = lay.assign_advice_from_constant(a0, start, Fe { v: 5 });
    assert_eq!(r, Err(Error::Configuration));
}

#[test]
fn constant_assignment_binds_to_fixed_column() {
    let mut cs = ConstraintSystem::new();
    let a0 = cs.advice_column();
    cs.enable_equality(a0);
    let fix = cs.fixed_column();
    cs.enable_constant(fix);
    let mut lay = Layouter::new(&cs);
    let start = lay.assign_region("r", 1);
    let cell = lay.assign_advice_from_constant(a0, start, Fe { v: 5 }).unwrap();
    let fixed_cell = Cell { column: fix, row: 0 };
    assert_eq!(lay.copies, vec![(cell, fixed_cell)]);
    assert!(lay
        .assignments
        .contains(&(fixed_cell, Value::Known(Fe { v: 5 }))));
    assert_eq!(lay.next_const_row, 1);
}

#[test]
fn constrain_instance_of_unassigned_cell_is_unresolved() {
    let mut cs = ConstraintSystem::new();
    let a0 = cs.advice_column();
    let inst = cs.instance_column();
    cs.enable_equality(a0);
    cs.enable_equality(inst);
    let mut lay = Layouter::new(&cs);
    lay.assign_region("r", 1);
    let unassigned = Cell { column: a0, row: 0 };
    let r = lay.constrain_instance(unassigned, inst, 0);
    assert_eq!(r, Err(Error::UnresolvedReference));
}
