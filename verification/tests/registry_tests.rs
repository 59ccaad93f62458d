use scalar_mul::system::{Column, ColumnKind, ConstraintSystem};

#[test]
fn columns_get_sequential_indices() {
    let mut cs = ConstraintSystem::new();
    let a0 = cs.advice_column();
    let a1 = cs.advice_column();
    let inst = cs.instance_column();
    let fix = cs.fixed_column();
    assert_eq!(a0, Column { kind: ColumnKind::Advice, index: 0 });
    assert_eq!(a1, Column { kind: ColumnKind::Advice, index: 1 });
    assert_eq!(inst, Column { kind: ColumnKind::Instance, index: 0 });
    assert_eq!(fix, Column { kind: ColumnKind::Fixed, index: 0 });
    assert_eq!(cs.num_advice, 2);
    assert_eq!(cs.num_instance, 1);
    assert_eq!(cs.num_fixed, 1);
}

#[test]
fn enable_equality_is_idempotent() {
    let mut cs = ConstraintSystem::new();
    let a0 = cs.advice_column();
    let a1 = cs.advice_column();
    cs.enable_equality(a0);
    cs.enable_equality(a1);
    let once = cs.equality.clone();
    cs.enable_equality(a0);
    assert_eq!(cs.equality, once);
    assert_eq!(cs.equality.len(), 2);
}

#[test]
fn enable_constant_flags_the_column() {
    let mut cs = ConstraintSystem::new();
    let fix = cs.fixed_column();
    cs.enable_constant(fix);
    assert_eq!(cs.constants_column, Some(fix));
    assert!(cs.equality.contains(&fix));
}

#[test]
fn selectors_get_sequential_indices() {
    let mut cs = ConstraintSystem::new();
    let s0 = cs.selector();
    let s1 = cs.selector();
    assert_eq!(s0.index, 0);
    assert_eq!(s1.index, 1);
    assert_eq!(cs.num_selectors, 2);
}
