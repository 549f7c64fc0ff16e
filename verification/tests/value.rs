use walle_core::convert::map_from_value;
use walle_core::value::bytes_from_decoded;
use walle_core::error::WalleError;
use walle_core::value::{Float64, OneBotBytes, TryFromValue, Value, ValueMap};

fn map_of(pairs: Vec<(&str, Value)>) -> ValueMap {
    let mut m = ValueMap::new();
    for (k, v) in pairs {
        m.insert(k.to_owned(), v);
    }
    m
}

#[test]
fn insert_get_remove() {
    let mut m = ValueMap::new();
    assert!(m.is_empty());
    assert_eq!(m.insert("a".to_owned(), Value::Int(1)), None);
    assert_eq!(m.insert("a".to_owned(), Value::Int(2)), Some(Value::Int(1)));
    assert_eq!(m.len(), 1);
    assert_eq!(m.get("a"), Some(&Value::Int(2)));
    assert!(m.contains_key("a"));
    assert_eq!(m.remove("a"), Some(Value::Int(2)));
    assert_eq!(m.remove("a"), None);
    assert!(m.is_empty());
}

#[test]
fn downcasts_and_their_errors() {
    assert_eq!(Value::Str("x".to_owned()).downcast_str(), Ok("x".to_owned()));
    assert_eq!(
        Value::Int(3).downcast_str(),
        Err(WalleError::ValueTypeNotMatch("alloc::string::String".to_owned(), "Int(3)".to_owned()))
    );
    assert_eq!(Value::Int(300).downcast::<u8>(), Ok(44));
    assert_eq!(Value::Int(-1).downcast::<u32>(), Ok(u32::MAX));
    assert_eq!(Value::F64(Float64 { bits: 7 }).downcast_f64(), Ok(Float64 { bits: 7 }));
    assert_eq!(
        Value::Null.downcast_map(),
        Err(WalleError::ValueTypeNotMatch("ExtendedMap".to_owned(), "Null".to_owned()))
    );
    assert_eq!(Value::Bool(true).downcast::<()>(), Ok(()));
    assert_eq!(
        Value::List(vec![Value::Int(1), Value::Str("2".to_owned())]).downcast::<Vec<u8>>(),
        Err(WalleError::ValueTypeNotMatch("u8".to_owned(), "Str(\"2\")".to_owned()))
    );
    assert_eq!(
        Value::Int(1).downcast::<Vec<u8>>(),
        Err(WalleError::ValueTypeNotMatch("List<u8>".to_owned(), "Int(1)".to_owned()))
    );
    assert_eq!(Value::List(vec![Value::Int(1), Value::Int(258)]).downcast::<Vec<u8>>(), Ok(vec![1, 2]));
}

#[test]
fn bytes_from_base64_text() {
    assert_eq!(Value::Str("aGk=".to_owned()).downcast_bytes(), Ok(OneBotBytes(b"hi".to_vec())));
    assert_eq!(
        Value::Str("not base64!".to_owned()).downcast_bytes(),
        Err(WalleError::IllegalBase64("not base64!".to_owned()))
    );
    assert_eq!(Value::Bytes(OneBotBytes(vec![1])).downcast_bytes(), Ok(OneBotBytes(vec![1])));
}

#[test]
fn map_field_reads() {
    let mut m = map_of(vec![("a", Value::Str("x".to_owned())), ("n", Value::Null), ("i", Value::Int(1))]);
    assert_eq!(m.get_downcast::<String>("a"), Ok("x".to_owned()));
    assert_eq!(m.try_get_downcast::<String>("n"), Ok(None));
    assert_eq!(m.get_downcast::<String>("n"), Err(WalleError::MapMissedKey("n".to_owned())));
    assert_eq!(
        m.get_downcast::<String>("i"),
        Err(WalleError::ValueTypeNotMatch(
            "alloc::string::String".to_owned(),
            "ValueTypeNotMatch(\"alloc::string::String\", \"Int(1)\")".to_owned()
        ))
    );
    assert_eq!(m.remove_downcast::<i64>("i"), Ok(1));
    assert!(!m.contains_key("i"));
    assert_eq!(m.try_remove_downcast::<i64>("i"), Ok(None));
    assert_eq!(m.try_get_str("a"), Ok("x"));
    assert_eq!(m.try_get_str("zz"), Err(WalleError::MapMissedKey("zz".to_owned())));
    assert_eq!(
        m.try_get_str("n"),
        Err(WalleError::ValueTypeNotMatch("str".to_owned(), "Null".to_owned()))
    );
}

#[test]
fn conversions_into_values() {
    assert_eq!(Value::from(5i32), Value::Int(5));
    assert_eq!(Value::from(vec![1u8, 2]), Value::Bytes(OneBotBytes(vec![1, 2])));
    assert_eq!(Value::from(()), Value::Null);
    assert_eq!(Value::from("s".to_owned()), Value::Str("s".to_owned()));
    assert_eq!(<Vec<Value> as TryFromValue>::target_name(), "alloc::vec::Vec<walle_core::util::value::Value>");
}

#[test]
fn clones_keep_the_value() {
    let m = map_of(vec![("a", Value::List(vec![Value::Int(1), Value::Dict(ValueMap::new())]))]);
    let v = Value::Dict(m);
    assert_eq!(v.clone(), v);
    assert_eq!(v.debug_text(), r#"Map({"a": List([Int(1), Map({})])})"#);
}

#[test]
fn maps_compare_as_maps() {
    let a = map_of(vec![("x", Value::Int(1)), ("y", Value::Int(2))]);
    let b = map_of(vec![("y", Value::Int(2)), ("x", Value::Int(1))]);
    assert_eq!(a, b);
    let c = map_of(vec![("y", Value::Int(3)), ("x", Value::Int(1))]);
    assert_ne!(a, c);
    assert_ne!(Value::Dict(a), Value::List(vec![]));
}

#[test]
fn maps_of_typed_values() {
    let v = Value::Dict(map_of(vec![("a", Value::Int(1)), ("b", Value::Int(2))]));
    let m = map_from_value::<i64>(v).unwrap();
    assert_eq!(m.len(), 2);
    assert_eq!(m.get(&"b".to_owned()), Some(&2));
    let bad = Value::Dict(map_of(vec![("a", Value::Int(1)), ("b", Value::Bool(true))]));
    assert_eq!(
        map_from_value::<i64>(bad).err(),
        Some(WalleError::ValueTypeNotMatch("i64".to_owned(), "Bool(true)".to_owned()))
    );
    assert_eq!(
        map_from_value::<i64>(Value::Null).err(),
        Some(WalleError::ValueTypeNotMatch("Map<i64>".to_owned(), "Null".to_owned()))
    );
    assert_eq!(bytes_from_decoded("x".to_owned(), None), Err(WalleError::IllegalBase64("x".to_owned())));
    assert_eq!(bytes_from_decoded("x".to_owned(), Some(vec![9])), Ok(OneBotBytes(vec![9])));
}

#[test]
fn try_remove_puts_back_what_it_cannot_convert() {
    let mut m = map_of(vec![("a", Value::Int(1))]);
    assert_eq!(
        m.try_remove::<String>("a"),
        Err(WalleError::MapValueTypeMismatch("alloc::string::String".to_owned(), "Int(1)".to_owned()))
    );
    assert_eq!(m.get("a"), Some(&Value::Int(1)));
    assert_eq!(m.try_remove::<i64>("a"), Ok(1));
    assert_eq!(m.try_remove::<i64>("a"), Err(WalleError::MapMissedKey("a".to_owned())));
}

#[test]
fn debug_texts_of_values() {
    assert_eq!(Value::Str("a\"b\n".to_owned()).debug_text(), r#"Str("a\"b\n")"#);
    assert_eq!(Value::Int(-42).debug_text(), "Int(-42)");
    assert_eq!(Value::Int(i64::MIN).debug_text(), "Int(-9223372036854775808)");
    assert_eq!(Value::Bool(false).debug_text(), "Bool(false)");
    assert_eq!(Value::Null.debug_text(), "Null");
    assert_eq!(
        Value::List(vec![Value::Int(1), Value::Str("x".to_owned())]).debug_text(),
        r#"List([Int(1), Str("x")])"#
    );
    assert_eq!(Value::List(vec![]).debug_text(), "List([])");
    assert_eq!(Value::Bytes(OneBotBytes(vec![1, 2])).debug_text(), "Bytes(OneBotBytes([1, 2]))");
    assert_eq!(Value::Dict(map_of(vec![("k", Value::Int(1))])).debug_text(), r#"Map({"k": Int(1)})"#);
    assert_eq!(Value::Dict(ValueMap::new()).debug_text(), "Map({})");
}

#[test]
fn mismatch_errors_show_the_value() {
    let mut m = map_of(vec![("a", Value::Str("x".to_owned()))]);
    assert_eq!(
        m.try_remove::<i64>("a"),
        Err(WalleError::MapValueTypeMismatch("i64".to_owned(), r#"Str("x")"#.to_owned()))
    );
    assert_eq!(m.get("a"), Some(&Value::Str("x".to_owned())));
    assert_eq!(
        WalleError::ValueTypeNotMatch("i64".to_owned(), r#"Str("x")"#.to_owned()).describe(),
        r#"ValueTypeNotMatch("i64", "Str(\"x\")")"#
    );
}

#[test]
fn map_entries_show_in_storage_order() {
    let m = map_of(vec![("b", Value::Int(2)), ("a", Value::Str("x".to_owned()))]);
    assert_eq!(m.debug_entries(), r#""b": Int(2), "a": Str("x")"#);
    assert_eq!(Value::Dict(m).debug_text(), r#"Map({"b": Int(2), "a": Str("x")})"#);
}
