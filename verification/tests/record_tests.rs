use jsrmx::assemble::{keep_matching, merge, split, to_document, to_entries, NotAnObjectError};
use jsrmx::filter::KeyFilter;
use jsrmx::json::{Entries, Json};
use jsrmx::stream::parse_line;
use jsrmx::value::JsonValue;

fn read(text: &str) -> JsonValue {
    parse_line(text).expect("the test's own JSON")
}

fn text(value: &str) -> JsonValue {
    JsonValue::String(value.to_string())
}

fn abc_entries() -> Vec<(String, JsonValue)> {
    vec![
        ("a".to_string(), text("1")),
        ("b".to_string(), text("2")),
        ("c".to_string(), text("3")),
    ]
}

fn filter(pattern: &str) -> KeyFilter {
    KeyFilter::compile(Some(&pattern.to_string())).expect("the test's own pattern")
}

#[test]
fn split_and_merge_one_key() {
    let object = read(r#"{"a":"1","b":"2","c":"3"}"#);
    let only_b = filter("b");
    let entries = to_entries(object, &only_b).unwrap();
    assert_eq!(entries, vec![("b".to_string(), text("2"))]);
    assert_eq!(to_document(abc_entries(), &only_b), read(r#"{"b":"2"}"#));
}

#[test]
fn merge_after_split_keeps_the_matching_entries() {
    let source = r#"{"alpha":{"n":1},"bravo":[2],"alpine":"3","charlie":null}"#;
    let pattern = filter("^al");
    let entries = to_entries(read(source), &pattern).unwrap();
    assert_eq!(
        to_document(entries, &pattern),
        read(r#"{"alpha":{"n":1},"alpine":"3"}"#)
    );
}

#[test]
fn merge_after_split_in_another_order() {
    let source = r#"{"alpha":{"n":1},"bravo":[2],"alpine":"3","charlie":null}"#;
    let pattern = filter("^al");
    let mut entries = to_entries(read(source), &pattern).unwrap();
    entries.reverse();
    let merged = Json::new(to_document(entries, &pattern)).entries().unwrap().list();
    assert_eq!(merged.len(), 2);
    assert!(merged.contains(&("alpha".to_string(), read(r#"{"n":1}"#))));
    assert!(merged.contains(&("alpine".to_string(), text("3"))));
}

#[test]
fn the_pattern_may_match_anywhere_in_the_key() {
    let kept = keep_matching(
        vec![
            ("cab".to_string(), JsonValue::Null),
            ("b".to_string(), JsonValue::Null),
            ("c".to_string(), JsonValue::Null),
            ("B".to_string(), JsonValue::Null),
        ],
        &filter("b"),
    );
    let keys: Vec<&str> = kept.iter().map(|(key, _)| key.as_str()).collect();
    assert_eq!(keys, vec!["cab", "b"]);
}

#[test]
fn no_pattern_and_the_empty_pattern_keep_every_key() {
    assert!(KeyFilter::accept_all().matches("anything"));
    assert!(KeyFilter::accept_all().matches(""));
    let absent = KeyFilter::compile(None).unwrap();
    assert!(absent.matches("anything"));
    let empty = KeyFilter::compile(Some(&String::new())).unwrap();
    assert!(empty.matches("anything"));
    assert!(empty.matches(""));
}

#[test]
fn a_compiled_pattern_decides() {
    let digits = filter(r"^\d+$");
    assert!(digits.matches("2024"));
    assert!(!digits.matches("2024a"));
    assert!(!digits.matches(""));
}

#[test]
fn a_bad_pattern_is_an_error() {
    for pattern in ["(", "[a-", "a{2,1}", r"\"] {
        let error = KeyFilter::compile(Some(&pattern.to_string())).err().expect("an error");
        assert!(!error.message.is_empty());
    }
    assert!(merge(abc_entries(), Some("(".to_string())).is_err());
    assert!(split(abc_entries(), Some("(".to_string())).is_err());
    assert!(Entries::new(abc_entries()).filter(Some(&"(".to_string())).is_err());
}

#[test]
fn only_an_object_has_entries() {
    for source in ["[1,2]", "\"text\"", "1", "null", "true"] {
        assert_eq!(to_entries(read(source), &KeyFilter::accept_all()), Err(NotAnObjectError));
        assert_eq!(Json::new(read(source)).entries().err(), Some(NotAnObjectError));
    }
    assert_eq!(to_entries(read("{}"), &KeyFilter::accept_all()), Ok(vec![]));
}

#[test]
fn entries_come_in_the_order_of_the_object() {
    let entries = to_entries(read(r#"{"c":3,"a":1,"b":2}"#), &KeyFilter::accept_all()).unwrap();
    let keys: Vec<&str> = entries.iter().map(|(key, _)| key.as_str()).collect();
    assert_eq!(keys, vec!["c", "a", "b"]);
}

#[test]
fn a_later_record_replaces_an_earlier_one_in_its_place() {
    let entries = vec![
        ("a".to_string(), text("1")),
        ("b".to_string(), text("2")),
        ("a".to_string(), text("3")),
        ("c".to_string(), text("4")),
        ("b".to_string(), text("5")),
    ];
    assert_eq!(
        to_document(entries, &KeyFilter::accept_all()),
        JsonValue::Object(vec![
            ("a".to_string(), text("3")),
            ("b".to_string(), text("5")),
            ("c".to_string(), text("4")),
        ])
    );
}

#[test]
fn a_record_that_is_filtered_out_replaces_nothing() {
    let entries = vec![
        ("keep".to_string(), text("1")),
        ("drop".to_string(), text("2")),
        ("keep".to_string(), text("3")),
    ];
    assert_eq!(merge(entries, Some("^k".to_string())), Ok(read(r#"{"keep":"3"}"#)));
}

#[test]
fn no_records_give_the_empty_object() {
    assert_eq!(merge(vec![], None), Ok(read("{}")));
    assert_eq!(Json::from_entries(vec![]).value(), read("{}"));
    assert_eq!(split(vec![], Some("x".to_string())), Ok(vec![]));
}

#[test]
fn drop_from_every_record() {
    let entries = vec![
        ("one".to_string(), read(r#"{"keep":1,"gone":2}"#)),
        ("two".to_string(), read(r#"{"gone":{"deep":1}}"#)),
        ("three".to_string(), read("[1]")),
    ];
    let dropped = Entries::new(entries).drop(Some(&vec!["gone".to_string()])).list();
    assert_eq!(
        dropped,
        vec![
            ("one".to_string(), read(r#"{"keep":1}"#)),
            ("two".to_string(), read("{}")),
            ("three".to_string(), read("[1]")),
        ]
    );
    assert_eq!(Entries::new(abc_entries()).drop(None).list(), abc_entries());
}

#[test]
fn entries_filter_keeps_matching_records() {
    let kept = Entries::new(abc_entries()).filter(Some(&"[ac]".to_string())).unwrap().list();
    assert_eq!(kept, vec![("a".to_string(), text("1")), ("c".to_string(), text("3"))]);
    assert_eq!(Entries::new(abc_entries()).filter(None).unwrap().list(), abc_entries());
}

#[test]
fn an_object_is_what_its_entries_build() {
    let twice = || {
        JsonValue::Object(vec![
            ("a".to_string(), text("1")),
            ("b".to_string(), JsonValue::Object(vec![
                ("k".to_string(), text("x")),
                ("k".to_string(), text("y")),
            ])),
            ("a".to_string(), text("2")),
        ])
    };
    assert_eq!(
        to_entries(twice(), &KeyFilter::accept_all()),
        Ok(vec![
            ("a".to_string(), text("2")),
            ("b".to_string(), JsonValue::Object(vec![
                ("k".to_string(), text("x")),
                ("k".to_string(), text("y")),
            ])),
        ])
    );
    assert_eq!(
        Json::new(twice()).entries().unwrap().list().len(),
        2
    );
    assert_eq!(jsrmx::stream::serialize(&twice(), false), r#"{"a":"2","b":{"k":"y"}}"#);
    assert_eq!(
        Json::new(twice()).escape(Some(&vec!["b".to_string()])).value(),
        read(r#"{"a":"2","b":"{\"k\":\"y\"}"}"#)
    );
    assert_eq!(
        Json::new(twice()).filter(Some(&"a".to_string())).unwrap().value(),
        read(r#"{"a":"2"}"#)
    );
}

#[test]
fn what_is_read_has_each_key_once() {
    assert_eq!(read(r#"{"a":1,"b":0,"a":2}"#), read(r#"{"a":2,"b":0}"#));
    let twice = vec![
        ("a".to_string(), text("1")),
        ("b".to_string(), read(r#"{"x":{"y":[1]}}"#)),
        ("a".to_string(), text("2")),
    ];
    assert_eq!(
        to_document(twice, &KeyFilter::accept_all()),
        read(r#"{"a":"2","b":{"x":{"y":[1]}}}"#)
    );
    let edited = Json::new(read(r#"{"a":"{\"k\":1,\"k\":2}","b":{"c":1}}"#))
        .unescape(Some(&vec!["a".to_string()]))
        .drop(Some(&vec!["b.c".to_string()]))
        .value();
    assert_eq!(edited, read(r#"{"a":{"k":2},"b":{}}"#));
}
