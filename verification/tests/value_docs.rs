use tf_provider::value::Value;

#[test]
fn as_ref_and_as_mut() {
    let text: Value<String> = Value::Value("Hello, world!".to_string());
    let text_length: Value<usize> = text.as_ref().map(|s| s.len());
    assert_eq!(text_length, Value::Value(13));
    assert_eq!(text, Value::Value("Hello, world!".to_string()));
    let mut x = Value::Value(2);
    match x.as_mut() {
        Value::Value(v) => *v = 42,
        _ => {}
    }
    assert_eq!(x, Value::Value(42));
}

#[test]
fn expect_and_unwrap_of_values() {
    assert_eq!(Value::Value("value").expect("message"), "value");
    assert_eq!(Value::Value("value").unwrap(), "value");
}

#[test]
fn unwrap_defaults() {
    assert_eq!(Value::Value("car").unwrap_or("bike"), "car");
    assert_eq!(Value::Null.unwrap_or("bike"), "bike");
    assert_eq!(Value::Unknown.unwrap_or("bike"), "bike");
    let k = 10;
    assert_eq!(Value::Value(4).unwrap_or_else(|| 2 * k), 4);
    assert_eq!(Value::Null.unwrap_or_else(|| 2 * k), 20);
    assert_eq!(Value::Unknown.unwrap_or_else(|| 2 * k), 20);
    let x: Value<u32> = Value::Value(12);
    let y: Value<u32> = Value::Null;
    let z: Value<u32> = Value::Unknown;
    assert_eq!(x.unwrap_or_default(), 12);
    assert_eq!(y.unwrap_or_default(), 0);
    assert_eq!(z.unwrap_or_default(), 0);
}

#[test]
fn map_and_inspect() {
    let maybe_some_string = Value::Value(String::from("Hello, World!"));
    let maybe_some_len = maybe_some_string.map(|s| s.len());
    assert_eq!(maybe_some_len, Value::Value(13));
    let x: Value<&str> = Value::Null;
    assert_eq!(x.map(|s| s.len()), Value::Null);
    let y: Value<&str> = Value::Unknown;
    assert_eq!(y.map(|s| s.len()), Value::Unknown);
    let x: Value<i32> = Value::Value(2);
    assert_eq!(x.inspect(|x| println!("got: {x}")), Value::Value(2));
}

#[test]
fn map_or_and_map_or_else() {
    assert_eq!(Value::Value("foo").map_or(42, |v| v.len()), 3);
    let x: Value<&str> = Value::Null;
    assert_eq!(x.map_or(42, |v| v.len()), 42);
    let x: Value<&str> = Value::Unknown;
    assert_eq!(x.map_or(42, |v| v.len()), 42);
    let k = 21;
    assert_eq!(Value::Value("foo").map_or_else(|| 2 * k, |v| v.len()), 3);
    let x: Value<&str> = Value::Null;
    assert_eq!(x.map_or_else(|| 2 * k, |v| v.len()), 42);
    let x: Value<&str> = Value::Unknown;
    assert_eq!(x.map_or_else(|| 2 * k, |v| v.len()), 42);
}

#[test]
fn ok_or_and_ok_or_else() {
    assert_eq!(Value::Value("foo").ok_or(0), Ok("foo"));
    let x: Value<&str> = Value::Null;
    assert_eq!(x.ok_or(0), Err(0));
    let x: Value<&str> = Value::Unknown;
    assert_eq!(x.ok_or(0), Err(0));
    assert_eq!(Value::Value("foo").ok_or_else(|| 0), Ok("foo"));
    let x: Value<&str> = Value::Unknown;
    assert_eq!(x.ok_or_else(|| 0), Err(0));
}

#[test]
fn deref_views() {
    let x: Value<String> = Value::Value("hey".to_owned());
    assert_eq!(x.as_deref(), Value::Value("hey"));
    let x: Value<String> = Value::Null;
    assert_eq!(x.as_deref(), Value::Null);
    let x: Value<String> = Value::Unknown;
    assert_eq!(x.as_deref(), Value::Unknown);
    let x: Value<String> = Value::Value("hey".to_owned());
    assert_eq!(x.as_deref_option(), Some("hey"));
    let x: Value<String> = Value::Unknown;
    assert_eq!(x.as_deref_option(), None);
    let mut x: Value<String> = Value::Value("hey".to_owned());
    assert_eq!(
        x.as_deref_mut().map(|x| {
            x.make_ascii_uppercase();
            x
        }),
        Value::Value("HEY".to_owned().as_mut_str())
    );
    let mut x: Value<String> = Value::Null;
    assert_eq!(
        x.as_deref_mut_option().map(|x| {
            x.make_ascii_uppercase();
            x
        }),
        None
    );
}

#[test]
fn options_of_values() {
    assert_eq!(Value::Value("foo").as_option(), Some("foo"));
    let x: Value<&str> = Value::Null;
    assert_eq!(x.as_option(), None);
    let x: Value<&str> = Value::Unknown;
    assert_eq!(x.as_option(), None);
    let text: Value<String> = Value::Value("Hello, world!".to_string());
    let text_ref: Option<&String> = text.as_ref_option();
    assert_eq!(text_ref.map(|s| s.len()), Some(13));
    let mut x = Value::Value(2);
    match x.as_mut_option() {
        Some(v) => *v = 42,
        None => {}
    }
    assert_eq!(x, Value::Value(42));
}

#[test]
fn iterators_of_values() {
    let x = Value::Value(4);
    assert_eq!(x.iter().next(), Some(&4));
    let x: Value<u32> = Value::Null;
    assert_eq!(x.iter().next(), None);
    let mut x = Value::Value(4);
    match x.iter_mut().next() {
        Some(v) => *v = 42,
        None => {}
    }
    assert_eq!(x, Value::Value(42));
    let mut x: Value<u32> = Value::Unknown;
    assert_eq!(x.iter_mut().next(), None);
}

#[test]
fn and_of_values() {
    let y: Value<&str> = Value::Null;
    assert_eq!(Value::Value(2).and(y), Value::Null);
    let y: Value<&str> = Value::Unknown;
    assert_eq!(Value::Value(2).and(y), Value::Unknown);
    let x: Value<u32> = Value::Null;
    assert_eq!(x.and(Value::Value("foo")), Value::Null);
    let x: Value<u32> = Value::Unknown;
    assert_eq!(x.and(Value::Value("foo")), Value::Unknown);
    assert_eq!(Value::Value(2).and(Value::Value("foo")), Value::Value("foo"));
    let x: Value<u32> = Value::Null;
    let y: Value<&str> = Value::Unknown;
    assert_eq!(x.and(y), Value::Null);
    let x: Value<u32> = Value::Unknown;
    let y: Value<&str> = Value::Null;
    assert_eq!(x.and(y), Value::Unknown);
}

#[test]
fn and_then_of_values() {
    let array = [Value::Value(10), Value::Null, Value::Unknown];
    let x: Value<&[Value<i32>]> = Value::Value(&array);
    assert_eq!(x.and_then(|slice| slice[0]), Value::Value(10));
    assert_eq!(x.and_then(|slice| slice[1]), Value::Null);
    assert_eq!(x.and_then(|slice| slice[2]), Value::Unknown);
    let x: Value<&[Value<i32>]> = Value::Null;
    assert_eq!(x.and_then(|slice| slice[0]), Value::Null);
    let x: Value<&[Value<i32>]> = Value::Unknown;
    assert_eq!(x.and_then(|slice| slice[0]), Value::Unknown);
}

fn is_even(n: &i32) -> bool {
    n % 2 == 0
}

#[test]
fn filter_of_values() {
    assert_eq!(Value::Value(4).filter(is_even), Value::Value(4));
    assert_eq!(Value::Value(3).filter(is_even), Value::Null);
    assert_eq!(Value::Null.filter(is_even), Value::Null);
    assert_eq!(Value::Unknown.filter(is_even), Value::Unknown);
}

#[test]
fn or_of_values() {
    assert_eq!(Value::Value(2).or(Value::Null), Value::Value(2));
    assert_eq!(Value::Value(2).or(Value::Unknown), Value::Value(2));
    assert_eq!(Value::Value(2).or(Value::Value(100)), Value::Value(2));
    assert_eq!(Value::Null.or(Value::Value(100)), Value::Value(100));
    let x: Value<u32> = Value::Null;
    assert_eq!(x.or(Value::Null), Value::Null);
    let x: Value<u32> = Value::Null;
    assert_eq!(x.or(Value::Unknown), Value::Unknown);
    assert_eq!(Value::Unknown.or(Value::Value(100)), Value::Unknown);
    let x: Value<u32> = Value::Unknown;
    assert_eq!(x.or(Value::Null), Value::Unknown);
}

fn vikings() -> Value<&'static str> {
    Value::Value("vikings")
}
fn nobody() -> Value<&'static str> {
    Value::Null
}
fn unknown() -> Value<&'static str> {
    Value::Unknown
}

#[test]
fn or_else_of_values() {
    assert_eq!(Value::Value("barbarians").or_else(vikings), Value::Value("barbarians"));
    assert_eq!(Value::Value("barbarians").or_else(nobody), Value::Value("barbarians"));
    assert_eq!(Value::Null.or_else(vikings), Value::Value("vikings"));
    assert_eq!(Value::Null.or_else(nobody), Value::Null);
    assert_eq!(Value::Null.or_else(unknown), Value::Unknown);
    assert_eq!(Value::Unknown.or_else(vikings), Value::Unknown);
    assert_eq!(Value::Unknown.or_else(unknown), Value::Unknown);
}

#[test]
fn take_and_replace_of_values() {
    let mut x = Value::Value(2);
    let y = x.take();
    assert_eq!(x, Value::Null);
    assert_eq!(y, Value::Value(2));
    let mut x: Value<u32> = Value::Unknown;
    let y = x.take();
    assert_eq!(x, Value::Null);
    assert_eq!(y, Value::Unknown);
    let mut x = Value::Value(2);
    let old = x.replace(5);
    assert_eq!(x, Value::Value(5));
    assert_eq!(old, Value::Value(2));
    let mut x = Value::Unknown;
    let old = x.replace(3);
    assert_eq!(x, Value::Value(3));
    assert_eq!(old, Value::Unknown);
}

#[test]
fn contains_copied_and_cloned() {
    assert!(Value::Value(3).contains(&3));
    assert!(!Value::Value(2).contains(&3));
    assert!(!Value::<i32>::Unknown.contains(&3));
    let x = 12;
    assert_eq!(Value::Value(&x).copied(), Value::Value(12));
    assert_eq!(Value::<&i32>::Unknown.copied(), Value::Unknown);
    let v = vec![1, 4];
    assert_eq!(Value::Value(&v).cloned(), Value::Value(vec![1, 4]));
    assert_eq!(Value::<&Vec<i32>>::Null.cloned(), Value::Null);
    let mut m = 12;
    assert_eq!(Value::Value(&mut m).copied(), Value::Value(12));
    let mut w = vec![1, 4];
    assert_eq!(Value::Value(&mut w).cloned(), Value::Value(vec![1, 4]));
    assert_eq!(Value::<&mut Vec<i32>>::Unknown.cloned(), Value::Unknown);
}
