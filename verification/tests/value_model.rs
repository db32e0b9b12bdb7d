use ollama_workflows::entry::{Entry, MemoryReturnType};

#[test]
fn entry_round_trip_plain_text() {
    let s = "hello world";
    let e = Entry::try_value_or_str(s);
    assert!(matches!(e, Entry::Text(_)));
    assert_eq!(e.to_string(), s);
}

#[test]
fn entry_round_trip_compact_json() {
    let s = "{\"a\":1,\"b\":[true,null]}";
    let e = Entry::try_value_or_str(s);
    assert!(matches!(e, Entry::Json(_)));
    assert_eq!(e.to_string(), s);
}

#[test]
fn entry_json_renders_compact() {
    let e = Entry::try_value_or_str("{ \"a\" : 1 }");
    assert_eq!(e.to_string(), "{\"a\":1}");
}

#[test]
fn entry_number_is_json() {
    let e = Entry::try_value_or_str("3");
    assert!(matches!(e, Entry::Json(_)));
    assert_eq!(e.to_string(), "3");
}

#[test]
fn mrt_is_none_by_shape() {
    assert!(MemoryReturnType::Entry(None).is_none());
    assert!(!MemoryReturnType::Entry(Some(Entry::Text("x".to_owned()))).is_none());
    assert!(MemoryReturnType::EntryVec(None).is_none());
    assert!(MemoryReturnType::Multiple(Vec::new()).is_none());
}

#[test]
fn mrt_to_string_joins_lists() {
    let v = MemoryReturnType::EntryVec(Some(vec![
        Entry::Text("a".to_owned()),
        Entry::Text("b".to_owned()),
    ]));
    assert_eq!(v.to_string(), "a \nb \n");
    let m = MemoryReturnType::Multiple(vec![
        MemoryReturnType::Entry(Some(Entry::Text("x".to_owned()))),
        MemoryReturnType::Entry(None),
    ]);
    assert_eq!(m.to_string(), "x \n \n");
}

#[test]
fn mrt_to_json_array_of_strings() {
    let v = MemoryReturnType::EntryVec(Some(vec![
        Entry::Text("a".to_owned()),
        Entry::Text("b\"c\n".to_owned()),
    ]));
    assert_eq!(v.to_json().unwrap(), "[\"a\",\"b\\\"c\\n\"]");
    let single = MemoryReturnType::Entry(Some(Entry::Text("a".to_owned())));
    assert!(single.to_json().is_none());
    let empty = MemoryReturnType::EntryVec(Some(Vec::new()));
    assert_eq!(empty.to_json().unwrap(), "[]");
}

#[test]
fn json_escape_control_chars() {
    let q = ollama_workflows::jsontext::json_quote_str("tab\there\u{1}");
    assert_eq!(q, "\"tab\\there\\u0001\"");
}
