use scalar_mul::field::{fe_add, fe_from, fe_mul, fe_neg, Fe, Value, value_mul, MODULUS};

#[test]
fn from_reduces_large_values() {
    assert_eq!(fe_from(MODULUS + 5), Fe { v: 5 });
    assert_eq!(fe_from(3), Fe { v: 3 });
    assert_eq!(fe_from(MODULUS), Fe { v: 0 });
}

#[test]
fn mul_exact_values() {
    assert_eq!(fe_mul(Fe { v: 2 }, Fe { v: 3 }), Fe { v: 6 });
    assert_eq!(fe_mul(Fe { v: 0 }, Fe { v: 12345 }), Fe { v: 0 });
    // (MODULUS - 1)^2 mod MODULUS == 1
    assert_eq!(fe_mul(Fe { v: MODULUS - 1 }, Fe { v: MODULUS - 1 }), Fe { v: 1 });
}

#[test]
fn add_and_neg_cancel() {
    let x = fe_from(987654321);
    assert_eq!(fe_add(x, fe_neg(x)), Fe { v: 0 });
    assert_eq!(fe_neg(Fe { v: 0 }), Fe { v: 0 });
    assert_eq!(fe_add(Fe { v: MODULUS - 1 }, Fe { v: 1 }), Fe { v: 0 });
}

#[test]
fn unknown_propagates_through_mul() {
    let k = Value::Known(Fe { v: 3 });
    assert_eq!(value_mul(Value::Unknown, k), Value::Unknown);
    assert_eq!(value_mul(k, Value::Unknown), Value::Unknown);
    assert_eq!(value_mul(Value::Unknown, Value::Unknown), Value::Unknown);
    assert_eq!(
        value_mul(Value::Known(Fe { v: 2 }), Value::Known(Fe { v: 3 })),
        Value::Known(Fe { v: 6 })
    );
}
