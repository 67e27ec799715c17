use tf_provider::named_map::{NameSet, NamedMap};
use tf_provider::order::{compare_item, compare_items, compare_str, Order};
use tf_provider::value::{value_any_from_scalar, Scalar, ScalarError, Value, ValueAny, value_from_list, value_to_list};

#[test]
fn value_variants_are_told_apart() {
    let v: Value<i32> = Value::Value(3);
    let n: Value<i32> = Value::Null;
    let u: Value<i32> = Value::Unknown;
    assert!(v.is_value() && !v.is_null() && !v.is_unknown());
    assert!(!n.is_value() && n.is_null() && !n.is_unknown());
    assert!(!u.is_value() && !u.is_null() && u.is_unknown());
}

#[test]
fn default_value_is_null() {
    let d: Value<i32> = Default::default();
    assert!(d.is_null());
}

#[test]
fn unwrap_or_gives_the_default_for_null_and_unknown() {
    assert_eq!(Value::Value(1).unwrap_or(7), 1);
    assert_eq!(Value::Null.unwrap_or(7), 7);
    assert_eq!(Value::<i32>::Unknown.unwrap_or(7), 7);
    assert_eq!(Value::<i32>::Unknown.unwrap_or_default(), 0);
    assert_eq!(Value::Value(4).unwrap(), 4);
}

#[test]
fn map_keeps_the_variant() {
    assert_eq!(Value::Value(2).map(|x| x * 10), Value::Value(20));
    assert_eq!(Value::<i32>::Null.map(|x| x * 10), Value::Null);
    assert_eq!(Value::<i32>::Unknown.map(|x| x * 10), Value::Unknown);
    assert_eq!(Value::Value(2).map_or(0, |x| x + 1), 3);
    assert_eq!(Value::<i32>::Unknown.map_or(0, |x| x + 1), 0);
}

#[test]
fn option_round_trip() {
    // an Option converted into a Value and back is unchanged
    let some: Value<i32> = Value::from(Some(5));
    assert_eq!(some, Value::Value(5));
    assert_eq!(some.as_option(), Some(5));
    let none: Value<i32> = Value::from(None);
    assert_eq!(none, Value::Null);
    assert_eq!(none.as_option(), None);
    // Unknown comes back Null
    let back: Value<i32> = Value::from(Value::<i32>::Unknown.as_option());
    assert_eq!(back, Value::Null);
}

#[test]
fn ok_or_gives_the_error_for_null_and_unknown() {
    assert_eq!(Value::Value(1).ok_or("e"), Ok(1));
    assert_eq!(Value::<i32>::Null.ok_or("e"), Err("e"));
    assert_eq!(Value::<i32>::Unknown.ok_or("e"), Err("e"));
}

#[test]
fn and_or_follow_the_first_value_unless_null() {
    assert_eq!(Value::Value(1).and(Value::Value("b")), Value::Value("b"));
    assert_eq!(Value::<i32>::Null.and(Value::Value("b")), Value::Null);
    assert_eq!(Value::<i32>::Unknown.and(Value::Value("b")), Value::Unknown);
    assert_eq!(Value::Value(1).or(Value::Value(2)), Value::Value(1));
    assert_eq!(Value::Null.or(Value::Value(2)), Value::Value(2));
    assert_eq!(Value::Unknown.or(Value::Value(2)), Value::Unknown);
}

#[test]
fn filter_drops_values_that_fail() {
    assert_eq!(Value::Value(4).filter(|x| *x > 3), Value::Value(4));
    assert_eq!(Value::Value(2).filter(|x| *x > 3), Value::Null);
    assert_eq!(Value::<i32>::Unknown.filter(|x| *x > 3), Value::Unknown);
}

#[test]
fn take_leaves_null_and_replace_leaves_the_new_value() {
    let mut v = Value::Value(8);
    assert_eq!(v.take(), Value::Value(8));
    assert!(v.is_null());
    assert_eq!(v.take(), Value::Null);
    let mut w = Value::Value(1);
    assert_eq!(w.replace(2), Value::Value(1));
    assert_eq!(w, Value::Value(2));
}

#[test]
fn strings_of_values() {
    let v: Value<String> = Value::Value("abc".to_string());
    assert_eq!(v.as_str(), "abc");
    assert_eq!(v.as_bytes(), b"abc");
    let n: Value<String> = Value::Null;
    assert_eq!(n.as_str(), "");
    assert_eq!(n.as_bytes(), b"");
    assert_eq!(v.extend(), Value::Value("abc".to_string()));
}

#[test]
fn contains_compares_the_content() {
    assert!(Value::Value(3).contains(&3));
    assert!(!Value::Value(3).contains(&4));
    assert!(!Value::<i32>::Null.contains(&3));
}

#[test]
fn iter_gives_at_most_one_item() {
    let v = Value::Value(9);
    let mut it = v.iter();
    assert_eq!(it.next(), Some(&9));
    assert_eq!(it.next(), None);
    let n: Value<i32> = Value::Null;
    let mut it = n.iter();
    assert_eq!(it.next(), None);
}

#[test]
fn scalars_make_dynamic_values() {
    assert!(matches!(value_any_from_scalar(Scalar::Bool(true)), Ok(ValueAny::Bool(true))));
    assert!(matches!(value_any_from_scalar(Scalar::Signed(-5)), Ok(ValueAny::Number(-5))));
    assert!(matches!(value_any_from_scalar(Scalar::Unsigned(7)), Ok(ValueAny::Number(7))));
    assert!(matches!(value_any_from_scalar(Scalar::Nothing), Ok(ValueAny::Null)));
    match value_any_from_scalar(Scalar::Char('x')) {
        Ok(ValueAny::String(s)) => assert_eq!(s, "x"),
        other => panic!("unexpected {:?}", other),
    }
    match value_any_from_scalar(Scalar::Bytes(b"hi".to_vec())) {
        Ok(ValueAny::String(s)) => assert_eq!(s, "hi"),
        other => panic!("unexpected {:?}", other),
    }
}

#[test]
fn scalars_out_of_range_are_refused() {
    assert!(matches!(
        value_any_from_scalar(Scalar::Unsigned(u64::MAX as u128)),
        Err(ScalarError::OutOfRange)
    ));
    assert!(matches!(
        value_any_from_scalar(Scalar::Signed(i64::MIN as i128 - 1)),
        Err(ScalarError::OutOfRange)
    ));
    assert!(matches!(
        value_any_from_scalar(Scalar::Signed(i64::MIN as i128)),
        Ok(ValueAny::Number(i64::MIN))
    ));
    match value_any_from_scalar(Scalar::Bytes(vec![0xff, 0xfe])) {
        Err(ScalarError::InvalidUtf8(msg)) => assert!(!msg.is_empty()),
        other => panic!("unexpected {:?}", other),
    }
}

#[test]
fn strings_and_sets_are_ordered_like_the_sorted_collections() {
    assert!(matches!(compare_str("a", "b"), Order::Less));
    assert!(matches!(compare_str("ab", "a"), Order::Greater));
    assert!(matches!(compare_str("", ""), Order::Equal));
    assert!(matches!(compare_str("Z", "a"), Order::Less));
    let v = |s: &str| Value::Value(s.to_string());
    assert!(matches!(compare_item(&v("zz"), &Value::Null), Order::Less));
    assert!(matches!(compare_item(&Value::Null, &Value::Unknown), Order::Less));
    assert!(matches!(compare_item(&Value::Unknown, &Value::Unknown), Order::Equal));
    assert!(matches!(compare_items(&vec![v("a")], &vec![v("a"), v("b")]), Order::Less));
    assert!(matches!(compare_items(&vec![v("b")], &vec![v("a"), v("b")]), Order::Greater));
    // the same orders as std's for strings
    assert_eq!("Z".cmp("a"), std::cmp::Ordering::Less);
}

#[test]
fn named_maps_find_their_entries() {
    let mut m: NamedMap<i32> = NamedMap::new();
    m.push_new("a".to_string(), 1);
    m.push_new("b".to_string(), 2);
    assert_eq!(m.len(), 2);
    assert_eq!(m.find("b"), Some(1));
    assert_eq!(m.get("a"), Some(&1));
    assert!(m.get("c").is_none());
    assert!(m.contains_key("a"));
    let s = NameSet { items: vec![Value::Value("x".to_string()), Value::Null] };
    assert!(s.contains_name("x"));
    assert!(!s.contains_name("y"));
    assert!(s.contains(&Value::Null));
    assert_eq!(s.len(), 2);
}

#[test]
fn nullable_blocks_are_stored_as_lists() {
    assert_eq!(value_to_list(Value::Value(3)), vec![3]);
    assert!(value_to_list(Value::<i32>::Null).is_empty());
    assert!(value_to_list(Value::<i32>::Unknown).is_empty());
    assert_eq!(value_from_list::<i32>(vec![]), Ok(Value::Null));
    assert_eq!(value_from_list(vec![Value::Value(3)]), Ok(Value::Value(3)));
    assert_eq!(value_from_list(vec![Value::<i32>::Unknown]), Ok(Value::Unknown));
    assert_eq!(
        value_from_list(vec![Value::Value(1), Value::Value(2)]),
        Err("Try to store multiple elements in a single Value".to_string())
    );
}
