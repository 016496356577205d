use stringly_typed::accessor::end_of_path;
use stringly_typed::{
    Double, StringlyTyped, UpdateError, Value, DOUBLE_TYPE, INTEGER_TYPE, STRING_TYPE,
};

fn dbl(x: f64) -> Double {
    Double::from_bits(x.to_bits())
}

#[test]
fn tags_are_the_three_names() {
    assert_eq!(INTEGER_TYPE, "integer");
    assert_eq!(DOUBLE_TYPE, "double");
    assert_eq!(STRING_TYPE, "string");
}

#[test]
fn value_data_type_is_the_tag_of_its_kind() {
    assert_eq!(Value::Integer(1).data_type(), "integer");
    assert_eq!(Value::Double(dbl(1.0)).data_type(), "double");
    assert_eq!(Value::String(String::from("1")).data_type(), "string");
}

#[test]
fn leaf_data_type_is_the_tag_of_its_kind() {
    assert_eq!(7i64.data_type(), "integer");
    assert_eq!(dbl(7.0).data_type(), "double");
    assert_eq!(String::from("7").data_type(), "string");
}

#[test]
fn values_come_from_each_native_kind() {
    assert_eq!(Value::from(-7i64), Value::Integer(-7));
    assert_eq!(Value::from(i64::MIN), Value::Integer(i64::MIN));
    assert_eq!(Value::from(dbl(3.14)), Value::Double(dbl(3.14)));
    assert_eq!(Value::from(String::from("after")), Value::String(String::from("after")));
    assert_eq!(Value::from("after"), Value::String(String::from("after")));
    assert_eq!(Value::from(""), Value::String(String::new()));
}

#[test]
fn a_copy_of_a_value_is_equal_and_of_the_same_kind() {
    for value in [Value::Integer(9), Value::Double(dbl(-2.5)), Value::from("text")] {
        let copy = value.clone();
        assert_eq!(copy, value);
        assert_eq!(copy.data_type(), value.data_type());
    }
}

#[test]
fn values_of_different_kinds_differ() {
    assert_ne!(Value::Integer(0), Value::Double(dbl(0.0)));
    assert_ne!(Value::Integer(1), Value::from("1"));
    assert_ne!(Value::Integer(1), Value::Integer(2));
    assert_ne!(Value::from("a"), Value::from("b"));
}

#[test]
fn round_trip_through_each_leaf() {
    let empty: [&str; 0] = [];

    for v in [0i64, 1, -7, 42, i64::MAX, i64::MIN] {
        let mut leaf: i64 = 5;
        leaf.set_value(&empty, Value::from(v)).unwrap();
        assert_eq!(leaf, v);
        assert_eq!(leaf.get_value(&empty).unwrap(), Value::from(v));
    }
    for v in [0.0f64, -0.0, 3.14, 42.0, f64::INFINITY, f64::MIN_POSITIVE] {
        let mut leaf = dbl(5.0);
        leaf.set_value(&empty, Value::from(dbl(v))).unwrap();
        assert_eq!(leaf.to_bits(), v.to_bits());
        assert_eq!(leaf.get_value(&empty).unwrap(), Value::from(dbl(v)));
    }
    for v in ["", "after", "with.dot", "名前"] {
        let mut leaf = String::from("before");
        leaf.set_value(&empty, Value::from(v)).unwrap();
        assert_eq!(leaf, v);
        assert_eq!(leaf.get_value(&empty).unwrap(), Value::from(v));
    }
}

#[test]
fn round_trip_keeps_the_bits_of_a_nan() {
    let empty: [&str; 0] = [];
    let nan = Double::from_bits(0x7ff8_0000_0000_1234);
    let mut leaf = dbl(1.0);
    leaf.set_value(&empty, Value::Double(nan)).unwrap();
    assert_eq!(leaf.to_bits(), 0x7ff8_0000_0000_1234);
    match leaf.get_value(&empty).unwrap() {
        Value::Double(d) => assert_eq!(d.to_bits(), 0x7ff8_0000_0000_1234),
        other => panic!("not a double: {:?}", other),
    }
}

#[test]
fn leaves_refuse_every_path_that_is_not_empty() {
    for k in 1..6usize {
        let path: Vec<&str> = vec!["key"; k];
        let expected = UpdateError::TooManyKeys { elements_remaning: k };

        let mut integer: i64 = 42;
        assert_eq!(integer.get_value(&path).unwrap_err(), expected);
        assert_eq!(integer.set_value(&path, Value::Integer(1)).unwrap_err(), expected);
        assert_eq!(integer, 42);

        let mut double = dbl(3.14);
        assert_eq!(double.get_value(&path).unwrap_err(), expected);
        assert_eq!(double.set_value(&path, Value::Double(dbl(1.0))).unwrap_err(), expected);
        assert_eq!(double.to_bits(), 3.14f64.to_bits());

        let mut string = String::from("before");
        assert_eq!(string.get_value(&path).unwrap_err(), expected);
        assert_eq!(string.set_value(&path, Value::from("after")).unwrap_err(), expected);
        assert_eq!(string, "before");
    }
}

#[test]
fn too_many_keys_comes_before_a_type_error() {
    let mut integer: i64 = 42;
    let err = integer.set_value(&["a"], Value::from("text")).unwrap_err();
    assert_eq!(err, UpdateError::TooManyKeys { elements_remaning: 1 });
    assert_eq!(integer, 42);
}

#[test]
fn leaves_through_dotted_keys() {
    let mut n: i64 = 42;
    assert_eq!(n.get("").unwrap_err(), UpdateError::TooManyKeys { elements_remaning: 1 });
    assert_eq!(n.get("foo.bar").unwrap_err(), UpdateError::TooManyKeys { elements_remaning: 2 });
    assert_eq!(
        n.set("a.b.c", Value::Integer(1)).unwrap_err(),
        UpdateError::TooManyKeys { elements_remaning: 3 }
    );
    assert_eq!(n, 42);
}

#[test]
fn every_mismatch_of_kinds_is_reported() {
    let empty: [&str; 0] = [];
    let type_error = |found, expected| UpdateError::TypeError { found, expected };

    let mut integer: i64 = 42;
    assert_eq!(
        integer.set_value(&empty, Value::Double(dbl(0.0))).unwrap_err(),
        type_error("double", "integer")
    );
    assert_eq!(
        integer.set_value(&empty, Value::from("0")).unwrap_err(),
        type_error("string", "integer")
    );
    assert_eq!(integer, 42);

    let mut double = dbl(3.14);
    assert_eq!(
        double.set_value(&empty, Value::Integer(0)).unwrap_err(),
        type_error("integer", "double")
    );
    assert_eq!(
        double.set_value(&empty, Value::from("0")).unwrap_err(),
        type_error("string", "double")
    );
    assert_eq!(double.to_bits(), 3.14f64.to_bits());

    let mut string = String::from("before");
    assert_eq!(
        string.set_value(&empty, Value::Integer(0)).unwrap_err(),
        type_error("integer", "string")
    );
    assert_eq!(
        string.set_value(&empty, Value::Double(dbl(0.0))).unwrap_err(),
        type_error("double", "string")
    );
    assert_eq!(string, "before");
}

#[test]
fn end_of_path_counts_what_is_left() {
    assert_eq!(end_of_path(&[]), Ok(()));
    assert_eq!(
        end_of_path(&["a"]),
        Err(UpdateError::TooManyKeys { elements_remaning: 1 })
    );
    assert_eq!(
        end_of_path(&["a", "", "c"]),
        Err(UpdateError::TooManyKeys { elements_remaning: 3 })
    );
}

#[test]
fn errors_compare_by_kind_and_payload() {
    let a = UpdateError::TooManyKeys { elements_remaning: 2 };
    let b = a;
    assert_eq!(a, b);
    assert_ne!(a, UpdateError::TooManyKeys { elements_remaning: 3 });
    assert_ne!(
        UpdateError::CantSerialize { data_type: "Outer" },
        UpdateError::CantSerialize { data_type: "Inner" }
    );
    assert_ne!(
        UpdateError::TypeError { found: "integer", expected: "double" },
        UpdateError::TypeError { found: "double", expected: "integer" }
    );
    assert_ne!(
        UpdateError::UnknownField { valid_fields: &["a"] },
        UpdateError::UnknownField { valid_fields: &["a", "b"] }
    );
}
