use scriplets::data_value::{data_cmp, data_eq, DataValue};

fn num(x: f32) -> DataValue {
    DataValue::Number(x.to_bits())
}

#[test]
fn kinds_order_by_rank() {
    let ladder = [
        DataValue::Nil,
        DataValue::Boolean(false),
        DataValue::Integer(0),
        num(0.0),
        DataValue::String(b"".to_vec()),
        DataValue::Sequence(vec![]),
        DataValue::Table(vec![]),
    ];
    for i in 0..ladder.len() {
        for j in 0..ladder.len() {
            let expected = (i as i64 - j as i64).signum() as i8;
            assert_eq!(data_cmp(&ladder[i], &ladder[j]), expected);
        }
    }
}

#[test]
fn integers_order_numerically() {
    assert_eq!(data_cmp(&DataValue::Integer(-5), &DataValue::Integer(3)), -1);
    assert_eq!(data_cmp(&DataValue::Integer(3), &DataValue::Integer(3)), 0);
    assert_eq!(data_cmp(&DataValue::Integer(9), &DataValue::Integer(3)), 1);
}

#[test]
fn numbers_order_bit_stably() {
    // ordinary magnitudes follow the numeric order
    assert_eq!(data_cmp(&num(-1.5), &num(1.0)), -1);
    assert_eq!(data_cmp(&num(1.0), &num(2.5)), -1);
    assert_eq!(data_cmp(&num(2.5), &num(2.5)), 0);
    // the two zero encodings are distinct values with the negative one first
    assert_eq!(data_cmp(&num(-0.0), &num(0.0)), -1);
    // even a non-numeric encoding has one definite place in the order
    let nan = num(f32::NAN);
    assert_eq!(data_cmp(&nan, &nan), 0);
    assert_eq!(data_cmp(&num(f32::INFINITY), &nan), -1);
}

#[test]
fn strings_order_bytewise_with_prefix_first() {
    let a = DataValue::String(b"abc".to_vec());
    let b = DataValue::String(b"abd".to_vec());
    let prefix = DataValue::String(b"ab".to_vec());
    assert_eq!(data_cmp(&a, &b), -1);
    assert_eq!(data_cmp(&b, &a), 1);
    assert_eq!(data_cmp(&prefix, &a), -1);
    assert_eq!(data_cmp(&a, &a), 0);
}

#[test]
fn sequences_order_lexicographically() {
    let s1 = DataValue::Sequence(vec![DataValue::Integer(1), DataValue::Integer(2)]);
    let s2 = DataValue::Sequence(vec![DataValue::Integer(1), DataValue::Integer(3)]);
    let short = DataValue::Sequence(vec![DataValue::Integer(1)]);
    assert_eq!(data_cmp(&s1, &s2), -1);
    assert_eq!(data_cmp(&short, &s1), -1);
    assert_eq!(data_cmp(&s2, &s1), 1);
}

#[test]
fn tables_order_keys_before_values() {
    let t1 = DataValue::Table(vec![(DataValue::Integer(1), DataValue::Integer(9))]);
    let t2 = DataValue::Table(vec![(DataValue::Integer(2), DataValue::Integer(0))]);
    let t3 = DataValue::Table(vec![(DataValue::Integer(1), DataValue::Integer(10))]);
    assert_eq!(data_cmp(&t1, &t2), -1);
    assert_eq!(data_cmp(&t1, &t3), -1);
}

#[test]
fn equality_is_decided_by_the_order() {
    let a = DataValue::Sequence(vec![
        DataValue::String(b"key".to_vec()),
        DataValue::Boolean(true),
    ]);
    let b = DataValue::Sequence(vec![
        DataValue::String(b"key".to_vec()),
        DataValue::Boolean(true),
    ]);
    let c = DataValue::Sequence(vec![
        DataValue::String(b"key".to_vec()),
        DataValue::Boolean(false),
    ]);
    assert!(data_eq(&a, &b));
    assert!(!data_eq(&a, &c));
    assert!(!data_eq(&a, &DataValue::Nil));
}

#[test]
fn default_value_is_nil() {
    assert!(data_eq(&DataValue::default(), &DataValue::Nil));
}

#[test]
fn transitivity_on_sample_values() {
    let values = [
        DataValue::Nil,
        DataValue::Boolean(true),
        DataValue::Integer(-7),
        DataValue::Integer(12),
        num(-0.0),
        num(3.25),
        DataValue::String(b"ab".to_vec()),
        DataValue::String(b"abc".to_vec()),
        DataValue::Sequence(vec![DataValue::Integer(1)]),
        DataValue::Table(vec![(DataValue::Nil, DataValue::Integer(2))]),
    ];
    for a in &values {
        for b in &values {
            for c in &values {
                if data_cmp(a, b) <= 0 && data_cmp(b, c) <= 0 {
                    assert!(data_cmp(a, c) <= 0);
                }
            }
        }
    }
}

#[test]
fn antisymmetry_on_sample_values() {
    let values = [
        DataValue::Nil,
        DataValue::Boolean(true),
        DataValue::Integer(-7),
        num(3.25),
        DataValue::String(b"xy".to_vec()),
        DataValue::Sequence(vec![DataValue::Integer(1)]),
        DataValue::Table(vec![(DataValue::Nil, DataValue::Integer(2))]),
    ];
    for a in &values {
        for b in &values {
            assert_eq!(data_cmp(a, b), -data_cmp(b, a));
        }
    }
}
