use scalar_mul::checker::check_circuit;
use scalar_mul::chip::{Number, ScalarMulChip, ScalarMulConfig, ScalarMulInstructions};
use scalar_mul::circuits::{chained_mul_example, const_mul_example, mul_example};
use scalar_mul::field::{Fe, Value};
use scalar_mul::layout::{Cell, Error, Layouter};
use scalar_mul::system::{Column, ColumnKind, ConstraintSystem};

#[test]
fn two_times_three_is_six() {
    let a = Fe { v: 2 };
    let b = Fe { v: 3 };
    assert!(mul_example(a, b, &vec![Fe { v: 6 }]));
    assert!(!mul_example(a, b, &vec![Fe { v: 7 }]));
    assert!(!mul_example(a, b, &vec![]));
}

#[test]
fn chained_squares_give_thirty_six() {
    let a = Fe { v: 2 };
    let b = Fe { v: 3 };
    assert!(chained_mul_example(a, b, &vec![Fe { v: 36 }]));
    assert!(!chained_mul_example(a, b, &vec![Fe { v: 35 }]));
}

#[test]
fn constant_times_private_value() {
    assert!(const_mul_example(Fe { v: 5 }, Fe { v: 7 }, &vec![Fe { v: 35 }]));
    assert!(!const_mul_example(Fe { v: 5 }, Fe { v: 7 }, &vec![Fe { v: 34 }]));
}

fn build(chip_witness: [Value; 2]) -> (ConstraintSystem, Layouter, ScalarMulChip, Number) {
    let mut cs = ConstraintSystem::new();
    let a0 = cs.advice_column();
    let a1 = cs.advice_column();
    let instance = cs.instance_column();
    let constant = cs.fixed_column();
    let config = ScalarMulConfig::configure(&mut cs, [a0, a1], instance, constant);
    let chip = ScalarMulChip::new(config);
    let mut lay = Layouter::new(&cs);
    let na = chip.load_private(&mut lay, chip_witness[0]).unwrap();
    let nb = chip.load_private(&mut lay, chip_witness[1]).unwrap();
    let nc = chip.mul(&mut lay, na, nb).unwrap();
    (cs, lay, chip, nc)
}

#[test]
fn unknown_witness_leaves_the_shape_unchanged() {
    let known = [Value::Known(Fe { v: 2 }), Value::Known(Fe { v: 3 })];
    let shape_only = [Value::Unknown, Value::Known(Fe { v: 3 })];
    let (_, lk, _, nk) = build(known);
    let (_, lu, _, nu) = build(shape_only);
    // the product of an unknown operand is unknown
    assert_eq!(nk.value, Value::Known(Fe { v: 6 }));
    assert_eq!(nu.value, Value::Unknown);
    // the constraint structure does not depend on the witness
    assert_eq!(lk.selectors, lu.selectors);
    assert_eq!(lk.copies, lu.copies);
    assert_eq!(lk.regions, lu.regions);
    assert_eq!(lk.next_row, lu.next_row);
    let cells_k: Vec<Cell> = lk.assignments.iter().map(|e| e.0).collect();
    let cells_u: Vec<Cell> = lu.assignments.iter().map(|e| e.0).collect();
    assert_eq!(cells_k, cells_u);
}

#[test]
fn tampered_fixed_column_fails_verification() {
    let mut cs = ConstraintSystem::new();
    let a0 = cs.advice_column();
    let a1 = cs.advice_column();
    let instance = cs.instance_column();
    let fixed = cs.fixed_column();
    let config = ScalarMulConfig::configure(&mut cs, [a0, a1], instance, fixed);
    let chip = ScalarMulChip::new(config);
    let mut lay = Layouter::new(&cs);
    let nc = chip.load_constant(&mut lay, Fe { v: 5 }).unwrap();
    let nb = chip.load_private(&mut lay, Value::Known(Fe { v: 7 })).unwrap();
    let nm = chip.mul(&mut lay, nc, nb).unwrap();
    chip.expose_public(&mut lay, nm, 0).unwrap();
    let public = vec![Fe { v: 35 }];
    assert!(check_circuit(&cs, &lay, &public));
    // forge a different constant in the fixed column: the copy constraint
    // binding the loaded constant to it must now fail
    let fixed_cell = Cell { column: fixed, row: 0 };
    for entry in lay.assignments.iter_mut() {
        if entry.0 == fixed_cell {
            entry.1 = Value::Known(Fe { v: 6 });
        }
    }
    assert!(!check_circuit(&cs, &lay, &public));
}

#[test]
fn expose_of_unassigned_cell_is_unresolved() {
    let mut cs = ConstraintSystem::new();
    let a0 = cs.advice_column();
    let a1 = cs.advice_column();
    let instance = cs.instance_column();
    let constant = cs.fixed_column();
    let config = ScalarMulConfig::configure(&mut cs, [a0, a1], instance, constant);
    let chip = ScalarMulChip::new(config);
    let mut lay = Layouter::new(&cs);
    let bogus = Number {
        cell: Cell { column: a0, row: 0 },
        value: Value::Known(Fe { v: 1 }),
    };
    let r = chip.expose_public(&mut lay, bogus, 0);
    assert_eq!(r, Err(Error::UnresolvedReference));
}

#[test]
fn mul_with_non_equality_operand_is_a_configuration_error() {
    let mut cs = ConstraintSystem::new();
    let a0 = cs.advice_column();
    let a1 = cs.advice_column();
    let instance = cs.instance_column();
    let constant = cs.fixed_column();
    let stray = cs.advice_column();
    let config = ScalarMulConfig::configure(&mut cs, [a0, a1], instance, constant);
    let chip = ScalarMulChip::new(config);
    let mut lay = Layouter::new(&cs);
    let na = chip.load_private(&mut lay, Value::Known(Fe { v: 2 })).unwrap();
    let bogus = Number {
        cell: Cell { column: stray, row: 0 },
        value: Value::Known(Fe { v: 3 }),
    };
    let r = chip.mul(&mut lay, na, bogus);
    assert_eq!(r, Err(Error::Configuration));
}

#[test]
fn shape_only_synthesis_cannot_be_verified() {
    // a circuit whose witness is unknown has the right shape but no
    // concrete values, so no public input satisfies it
    let mut cs = ConstraintSystem::new();
    let a0 = cs.advice_column();
    let a1 = cs.advice_column();
    let instance = cs.instance_column();
    let constant = cs.fixed_column();
    let config = ScalarMulConfig::configure(&mut cs, [a0, a1], instance, constant);
    let chip = ScalarMulChip::new(config);
    let mut lay = Layouter::new(&cs);
    let na = chip.load_private(&mut lay, Value::Unknown).unwrap();
    let nb = chip.load_private(&mut lay, Value::Unknown).unwrap();
    let nm = chip.mul(&mut lay, na, nb).unwrap();
    chip.expose_public(&mut lay, nm, 0).unwrap();
    assert!(!check_circuit(&cs, &lay, &vec![Fe { v: 0 }]));
}

#[test]
fn violated_multiplication_relation_is_caught() {
    let mut cs = ConstraintSystem::new();
    let a0 = cs.advice_column();
    let a1 = cs.advice_column();
    let instance = cs.instance_column();
    let constant = cs.fixed_column();
    let config = ScalarMulConfig::configure(&mut cs, [a0, a1], instance, constant);
    let mut lay = Layouter::new(&cs);
    let start = lay.assign_region("m", 2);
    lay.enable_selector(config.s_mul, start);
    lay.assign_advice(a0, start, Value::Known(Fe { v: 2 })).unwrap();
    lay.assign_advice(a1, start, Value::Known(Fe { v: 3 })).unwrap();
    lay.assign_advice(a0, start + 1, Value::Known(Fe { v: 7 })).unwrap();
    assert!(!check_circuit(&cs, &lay, &vec![]));
}

#[test]
fn inactive_selector_leaves_cells_unconstrained() {
    let mut cs = ConstraintSystem::new();
    let a0 = cs.advice_column();
    let a1 = cs.advice_column();
    let instance = cs.instance_column();
    let constant = cs.fixed_column();
    let _config = ScalarMulConfig::configure(&mut cs, [a0, a1], instance, constant);
    let mut lay = Layouter::new(&cs);
    let start = lay.assign_region("m", 2);
    // the selector stays off, so the same non-product assignment passes
    lay.assign_advice(a0, start, Value::Known(Fe { v: 2 })).unwrap();
    lay.assign_advice(a1, start, Value::Known(Fe { v: 3 })).unwrap();
    lay.assign_advice(a0, start + 1, Value::Known(Fe { v: 7 })).unwrap();
    assert!(check_circuit(&cs, &lay, &vec![]));
}

#[test]
fn satisfied_multiplication_relation_passes() {
    let mut cs = ConstraintSystem::new();
    let a0 = cs.advice_column();
    let a1 = cs.advice_column();
    let instance = cs.instance_column();
    let constant = cs.fixed_column();
    let config = ScalarMulConfig::configure(&mut cs, [a0, a1], instance, constant);
    let mut lay = Layouter::new(&cs);
    let start = lay.assign_region("m", 2);
    lay.enable_selector(config.s_mul, start);
    lay.assign_advice(a0, start, Value::Known(Fe { v: 2 })).unwrap();
    lay.assign_advice(a1, start, Value::Known(Fe { v: 3 })).unwrap();
    lay.assign_advice(a0, start + 1, Value::Known(Fe { v: 6 })).unwrap();
    assert!(check_circuit(&cs, &lay, &vec![]));
}

#[test]
fn chip_holds_only_its_configuration() {
    let mut cs = ConstraintSystem::new();
    let a0 = cs.advice_column();
    let a1 = cs.advice_column();
    let instance = cs.instance_column();
    let constant = cs.fixed_column();
    let config = ScalarMulConfig::configure(&mut cs, [a0, a1], instance, constant);
    assert_eq!(config.advice, [a0, a1]);
    assert_eq!(config.instance, instance);
    assert_eq!(config.instance.kind, ColumnKind::Instance);
    let chip = ScalarMulChip::new(config);
    assert_eq!(chip.config().advice, [a0, a1]);
    chip.loaded();
    let _: Column = chip.config().instance;
}
