use jsrmx::bundler::BundlerBuilder;
use jsrmx::naming::{default_name_for, name_for, string_form_of};
use jsrmx::stream::{
    parse_entry, parse_line, read_entries, serialize, serialize_line, LineError,
};
use jsrmx::unbundler::{Step, UnbundlerBuilder};
use jsrmx::value::JsonValue;

fn read(text: &str) -> JsonValue {
    parse_line(text).expect("the test's own JSON")
}

fn text(value: &str) -> JsonValue {
    JsonValue::String(value.to_string())
}

fn fields(paths: &[&str]) -> Vec<String> {
    paths.iter().map(|path| path.to_string()).collect()
}

fn lines(texts: &[&str]) -> Vec<String> {
    texts.iter().map(|line| line.to_string()).collect()
}

#[test]
fn a_line_of_json_is_read() {
    assert_eq!(
        parse_line("{\"a\":[1,\"x\"]}\n"),
        Ok(JsonValue::Object(vec![(
            "a".to_string(),
            JsonValue::Array(vec![read("1"), text("x")])
        )]))
    );
    assert_eq!(parse_line("  true  "), Ok(JsonValue::Bool(true)));
}

#[test]
fn an_empty_line_ends_the_input() {
    assert_eq!(parse_line(""), Err(LineError::EndOfInput));
    assert_eq!(parse_line("\n"), Err(LineError::EndOfInput));
    assert_eq!(parse_line("  \t \r\n"), Err(LineError::EndOfInput));
}

#[test]
fn a_broken_off_line_ends_the_input() {
    assert_eq!(parse_line(r#"{"name":"alpha","letter":{"upper"#), Err(LineError::EndOfInput));
    assert_eq!(parse_line(r#"{"a":"#), Err(LineError::EndOfInput));
    assert_eq!(parse_line("[1, 2"), Err(LineError::EndOfInput));
    assert_eq!(parse_line("\"open"), Err(LineError::EndOfInput));
    assert_eq!(parse_line("nul"), Err(LineError::EndOfInput));
}

#[test]
fn a_line_that_is_not_json_is_malformed() {
    for line in [r#"{"a" 1}"#, "}", "nil", "[1,]", "{} {}", "01"] {
        match parse_line(line) {
            Err(LineError::Malformed(detail)) => assert!(!detail.is_empty()),
            other => panic!("expected a malformed line for {:?}, got {:?}", line, other),
        }
    }
}

#[test]
fn serialize_compact_and_pretty() {
    let value = read(r#"{ "city": "London", "list": [1, 2] }"#);
    assert_eq!(serialize(&value, false), r#"{"city":"London","list":[1,2]}"#);
    assert_eq!(
        serialize(&value, true),
        "{\n  \"city\": \"London\",\n  \"list\": [\n    1,\n    2\n  ]\n}"
    );
}

#[test]
fn a_line_is_compact_whatever_is_asked() {
    let value = read("{\"a\": {\"b\": [1, 2]}, \"text\": \"one\\ntwo\"}");
    let compact = r#"{"a":{"b":[1,2]},"text":"one\ntwo"}"#;
    assert_eq!(serialize_line(&value, false), compact);
    assert_eq!(serialize_line(&value, true), compact);
    assert!(!serialize_line(&value, true).contains('\n'));
}

#[test]
fn default_names_have_six_digits() {
    assert_eq!(default_name_for(0), "object-000000");
    assert_eq!(default_name_for(1), "object-000001");
    assert_eq!(default_name_for(42), "object-000042");
    assert_eq!(default_name_for(999_999), "object-999999");
}

#[test]
fn default_names_grow_with_the_index() {
    assert_eq!(default_name_for(1_000_000), "object-1000000");
    assert_eq!(default_name_for(usize::MAX), format!("object-{}", usize::MAX));
}

#[test]
fn the_first_candidate_that_leads_to_a_value_names_the_record() {
    let record = read(r#"{"id":"first","name":"second","meta":{"label":"third"}}"#);
    assert_eq!(name_for(3, &record, &fields(&["name", "id"]), None), "second");
    assert_eq!(name_for(3, &record, &fields(&["missing", "meta.label", "id"]), None), "third");
    assert_eq!(name_for(3, &record, &fields(&["missing", "absent"]), None), "object-000003");
    assert_eq!(name_for(3, &record, &fields(&[]), None), "object-000003");
}

#[test]
fn a_null_candidate_is_passed_over() {
    let record = read(r#"{"id":null,"name":"second"}"#);
    assert_eq!(name_for(0, &record, &fields(&["id", "name"]), None), "second");
    assert_eq!(name_for(0, &record, &fields(&["id"]), None), "object-000000");
}

#[test]
fn a_number_or_a_boolean_names_by_its_text() {
    let record = read(r#"{"id":7,"ratio":2.5,"neg":-3,"flag":true,"off":false}"#);
    assert_eq!(name_for(0, &record, &fields(&["id"]), None), "7");
    assert_eq!(name_for(0, &record, &fields(&["ratio"]), None), "2.5");
    assert_eq!(name_for(0, &record, &fields(&["neg"]), None), "-3");
    assert_eq!(name_for(0, &record, &fields(&["flag"]), None), "true");
    assert_eq!(name_for(0, &record, &fields(&["off"]), None), "false");
}

#[test]
fn an_object_or_an_array_falls_back_to_the_default_name() {
    let record = read(r#"{"meta":{"label":"x"},"list":[1],"name":"later"}"#);
    assert_eq!(name_for(5, &record, &fields(&["meta", "name"]), None), "object-000005");
    assert_eq!(name_for(5, &record, &fields(&["list", "name"]), None), "object-000005");
}

#[test]
fn the_type_field_is_appended() {
    let record = read(r#"{"name":"alpha","kind":"widget","size":3,"none":null,"meta":{}}"#);
    let name = fields(&["name"]);
    assert_eq!(name_for(0, &record, &name, Some(&"kind".to_string())), "alpha.widget");
    assert_eq!(name_for(0, &record, &name, Some(&"size".to_string())), "alpha.3");
    assert_eq!(name_for(0, &record, &name, Some(&"missing".to_string())), "alpha");
    assert_eq!(name_for(0, &record, &name, Some(&"none".to_string())), "alpha");
    assert_eq!(name_for(0, &record, &name, Some(&"meta".to_string())), "alpha");
    assert_eq!(
        name_for(9, &record, &fields(&[]), Some(&"kind".to_string())),
        "object-000009.widget"
    );
}

#[test]
fn the_text_of_a_value() {
    assert_eq!(string_form_of(&text("raw")), Some("raw".to_string()));
    assert_eq!(string_form_of(&read("12.5")), Some("12.5".to_string()));
    assert_eq!(string_form_of(&read("true")), Some("true".to_string()));
    assert_eq!(string_form_of(&read("null")), None);
    assert_eq!(string_form_of(&read("[]")), None);
    assert_eq!(string_form_of(&read("{}")), None);
}

#[test]
fn records_are_named_by_a_field_or_by_their_index() {
    let stream = lines(&["{\"name\":\"alpha\",\"n\":1}\n", "{\"name\":\"bravo\",\"n\":2}\n"]);

    let named = UnbundlerBuilder::new().filename(Some(fields(&["name"]))).build().unbundle(&stream);
    let names: Vec<String> = named.entries.iter().map(|(name, _)| format!("{name}.json")).collect();
    assert_eq!(names, vec!["alpha.json", "bravo.json"]);

    let counted = UnbundlerBuilder::new().build().unbundle(&stream);
    let names: Vec<String> =
        counted.entries.iter().map(|(name, _)| format!("{name}.json")).collect();
    assert_eq!(names, vec!["object-000000.json", "object-000001.json"]);
}

#[test]
fn one_record_for_each_line() {
    let stream = lines(&["{\"k\":\"a\"}\n", "[1,2]\n", "\"text\"\n", "3\n", "null\n"]);
    let done = UnbundlerBuilder::new().build().unbundle(&stream);
    assert_eq!(done.read, 5);
    assert!(done.skipped.is_empty());
    assert_eq!(
        done.entries,
        vec![
            ("object-000000".to_string(), read(r#"{"k":"a"}"#)),
            ("object-000001".to_string(), read("[1,2]")),
            ("object-000002".to_string(), text("text")),
            ("object-000003".to_string(), read("3")),
            ("object-000004".to_string(), JsonValue::Null),
        ]
    );
}

#[test]
fn a_malformed_line_is_skipped_and_counted() {
    let stream = lines(&["{\"k\":1}\n", "{\"k\" 2}\n", "{\"k\":3}\n"]);
    let done = UnbundlerBuilder::new().build().unbundle(&stream);
    assert_eq!(done.read, 3);
    assert_eq!(
        done.entries,
        vec![
            ("object-000000".to_string(), read(r#"{"k":1}"#)),
            ("object-000002".to_string(), read(r#"{"k":3}"#)),
        ]
    );
    assert_eq!(done.skipped.len(), 1);
    assert_eq!(done.skipped[0].0, 1);
    assert!(!done.skipped[0].1.is_empty());
}

#[test]
fn reading_stops_where_the_input_ends() {
    let stream = lines(&["{\"k\":1}\n", "\n", "{\"k\":3}\n"]);
    let done = UnbundlerBuilder::new().build().unbundle(&stream);
    assert_eq!(done.read, 1);
    assert_eq!(done.entries, vec![("object-000000".to_string(), read(r#"{"k":1}"#))]);
    assert!(done.skipped.is_empty());

    let broken = lines(&["{\"k\":1}\n", "{\"k\":"]);
    let done = UnbundlerBuilder::new().build().unbundle(&broken);
    assert_eq!(done.read, 1);
    assert_eq!(done.entries.len(), 1);
    assert!(done.skipped.is_empty());

    let nothing = UnbundlerBuilder::new().build().unbundle(&lines(&[]));
    assert_eq!(nothing.read, 0);
    assert!(nothing.entries.is_empty());
}

#[test]
fn a_step_for_each_kind_of_line() {
    let unbundler = UnbundlerBuilder::new()
        .filename(Some(fields(&["name"])))
        .type_field(Some("kind".to_string()))
        .build();
    assert_eq!(
        unbundler.step(4, r#"{"name":"alpha","kind":"widget"}"#),
        Step::Entry("alpha.widget".to_string(), read(r#"{"name":"alpha","kind":"widget"}"#))
    );
    assert_eq!(
        unbundler.step(4, r#"{"kind":"widget"}"#),
        Step::Entry("object-000004.widget".to_string(), read(r#"{"kind":"widget"}"#))
    );
    assert_eq!(unbundler.step(4, ""), Step::Done);
    assert!(matches!(unbundler.step(4, "]"), Step::Skipped(_)));
}

#[test]
fn a_record_is_unescaped_then_dropped_then_named() {
    let unbundler = UnbundlerBuilder::new()
        .filename(Some(fields(&["payload.name", "secret"])))
        .unescape_fields(Some(fields(&["payload"])))
        .drop_fields(Some(fields(&["secret"])))
        .build();
    assert_eq!(
        unbundler.step(0, r#"{"payload":"{\"name\":\"inner\"}","secret":"x"}"#),
        Step::Entry("inner".to_string(), read(r#"{"payload":{"name":"inner"}}"#))
    );
    assert_eq!(
        unbundler.step(7, r#"{"payload":"no json","secret":"x"}"#),
        Step::Entry("object-000007".to_string(), read(r#"{"payload":"no json"}"#))
    );
}

#[test]
fn the_unbundler_edits_in_place() {
    let unbundler = UnbundlerBuilder::new()
        .unescape_fields(Some(fields(&["a"])))
        .drop_fields(Some(fields(&["b"])))
        .build();
    let mut value = read(r#"{"a":"[1]","b":2}"#);
    unbundler.unescape_fields(&mut value);
    assert_eq!(value, read(r#"{"a":[1],"b":2}"#));
    unbundler.drop_fields(&mut value);
    assert_eq!(value, read(r#"{"a":[1]}"#));
    assert_eq!(unbundler.name_entry(12, &value), "object-000012");
}

#[test]
fn a_bundle_has_one_compact_line_for_each_record() {
    let entries = vec![
        ("one.json".to_string(), read("{\n  \"a\": {\n    \"b\": 1\n  },\n  \"gone\": 0\n}")),
        ("two.json".to_string(), read(r#"{"a":"kept","other":[1, 2]}"#)),
        ("three.json".to_string(), read("[1]")),
    ];
    let bundler = BundlerBuilder::new()
        .escape_fields(Some(fields(&["a"])))
        .drop_fields(Some(fields(&["gone"])))
        .build();
    assert_eq!(
        bundler.bundle(entries),
        vec![
            r#"{"a":"{\"b\":1}"}"#.to_string(),
            r#"{"a":"kept","other":[1,2]}"#.to_string(),
            "[1]".to_string(),
        ]
    );
}

#[test]
fn a_bundle_without_fields_writes_the_records_as_they_are() {
    let bundler = BundlerBuilder::new().build();
    assert_eq!(bundler.transform(read(r#"{"a":{"b":1}}"#)), read(r#"{"a":{"b":1}}"#));
    assert_eq!(bundler.bundle(vec![]), Vec::<String>::new());
    let escaped_then_dropped = BundlerBuilder::new()
        .drop_fields(Some(fields(&["a"])))
        .escape_fields(Some(fields(&["a"])))
        .build();
    assert_eq!(escaped_then_dropped.transform(read(r#"{"a":{"b":1},"c":2}"#)), read(r#"{"c":2}"#));
}

#[test]
fn bundle_then_unbundle_gives_the_records_back() {
    let records = vec![
        ("alpha".to_string(), read(r#"{"name":"alpha","data":{"x":[1,2]}}"#)),
        ("bravo".to_string(), read(r#"{"name":"bravo","data":{"y":null}}"#)),
    ];
    let expected: Vec<(String, JsonValue)> =
        records.iter().map(|(name, value)| (name.clone(), value.duplicate())).collect();
    let stream = BundlerBuilder::new()
        .escape_fields(Some(fields(&["data"])))
        .build()
        .bundle(records);
    let done = UnbundlerBuilder::new()
        .filename(Some(fields(&["name"])))
        .unescape_fields(Some(fields(&["data"])))
        .build()
        .unbundle(&stream);
    assert_eq!(done.entries, expected);
}

#[test]
fn the_counter_moves_with_every_line_that_is_read() {
    let unbundler = UnbundlerBuilder::new().build();
    let mut counter: usize = 0;
    assert_eq!(
        unbundler.advance(&mut counter, "{}"),
        Step::Entry("object-000000".to_string(), read("{}"))
    );
    assert_eq!(counter, 1);
    assert!(matches!(unbundler.advance(&mut counter, "{]"), Step::Skipped(_)));
    assert_eq!(counter, 2);
    assert_eq!(
        unbundler.advance(&mut counter, "[]"),
        Step::Entry("object-000002".to_string(), read("[]"))
    );
    assert_eq!(counter, 3);
    assert_eq!(unbundler.advance(&mut counter, "  "), Step::Done);
    assert_eq!(counter, 3);
}

#[test]
fn a_record_line_is_a_key_and_a_value() {
    assert_eq!(
        parse_entry("[\"alpha\", {\"n\": 1}]\n"),
        Some(("alpha".to_string(), read(r#"{"n":1}"#)))
    );
    assert_eq!(parse_entry(r#"["", null]"#), Some((String::new(), JsonValue::Null)));
}

#[test]
fn a_line_that_is_no_record() {
    for line in [
        r#"{"alpha":1}"#,
        r#"["alpha"]"#,
        r#"["alpha",1,2]"#,
        r#"[1,"alpha"]"#,
        r#"[null,1]"#,
        "[]",
        "\"alpha\"",
        "",
        "\n",
        r#"["alpha","#,
        "not json",
    ] {
        assert_eq!(parse_entry(line), None, "for {:?}", line);
    }
}

#[test]
fn records_are_read_up_to_the_first_empty_line() {
    let stream = lines(&[
        "[\"a\",1]\n",
        "oops\n",
        "\n",
        "[\"b\",{\"k\":[2]}]\n",
        "{\"c\":3}\n",
        "",
        "[\"d\",4]\n",
    ]);
    assert_eq!(
        read_entries(&stream),
        vec![("a".to_string(), read("1")), ("b".to_string(), read(r#"{"k":[2]}"#))]
    );
    assert_eq!(read_entries(&lines(&[])), vec![]);
    assert_eq!(read_entries(&lines(&["", "[\"a\",1]"])), vec![]);
}
