//! Resolution and encoding of the settings declared in a single project
//! manifest: every scalar kind, arrays uniform and mixed, and tables.

use crate_settings::encode::encode;
use crate_settings::encode::EncodedLiteral;
use crate_settings::resolver::resolve;
use crate_settings::resolver::ReadOutcome;
use crate_settings::resolver::TextStation;

fn root_manifest() -> String {
    [
        "[package]",
        "name = \"crate-settings\"",
        "version = \"0.1.0\"",
        "",
        "[package.metadata.settings.example-crate]",
        "some-key = \"hey\"",
        "something_else = false",
        "",
        "[package.metadata.settings.another-crate]",
        "number = 33",
        "float = 55.6",
        "arr = [\"a\", \"b\", \"c\"]",
        "",
        "[package.metadata.settings.cool_crate]",
        "some_date_time = 1979-05-27T07:32:00Z",
        "",
        "[package.metadata.settings.weird_crate]",
        "mixed_arr = [\"hey\", 1, false]",
        "table = { key1 = \"hey\", key2 = 3 }",
        "negative = -12",
        "big = 9223372036854775807",
        "small = -9223372036854775808",
        "empty_arr = []",
        "empty_table = {}",
        "escaped_table = { k = \"a\\\"b\\\\c\" }",
        "nested_arr = [[1, 2], [3]]",
        "mixed_nested = [\"x\", { k = 1 }, [1, 2]]",
        "mixed_negative = [\"a\", -12]",
    ]
    .join("\n")
}

fn lookup(ns: &str, key: &str) -> EncodedLiteral {
    let chain = vec![
        TextStation {
            path: String::from("/project/Cargo.toml"),
            read: ReadOutcome::Content(root_manifest()),
        },
        TextStation { path: String::from("/Cargo.toml"), read: ReadOutcome::NoManifest },
    ];
    let value = resolve(ns, key, &chain).expect("the setting should resolve");
    encode(&value)
}

fn text(s: &str) -> EncodedLiteral {
    EncodedLiteral::Text(String::from(s))
}

#[test]
fn test_strings() {
    assert_eq!(lookup("example-crate", "some-key"), text("hey"));
}

#[test]
fn test_integers() {
    assert_eq!(lookup("another-crate", "number"), EncodedLiteral::Integer(33));
}

#[test]
fn test_floats() {
    match lookup("another-crate", "float") {
        EncodedLiteral::Float(content) => {
            assert_eq!(content.parse::<f64>().unwrap(), 55.6);
            assert_eq!(content, "55.6");
        },
        other => panic!("expected a float literal, got {:?}", other),
    }
}

#[test]
fn test_date_times() {
    assert_eq!(lookup("cool_crate", "some_date_time"), text("1979-05-27T07:32:00Z"));
}

#[test]
fn test_bools() {
    assert_eq!(lookup("example-crate", "something_else"), EncodedLiteral::Boolean(false));
}

#[test]
fn test_string_arrays() {
    assert_eq!(
        lookup("another-crate", "arr"),
        EncodedLiteral::Array(vec![text("a"), text("b"), text("c")])
    );
}

#[test]
fn test_mixed_arrays() {
    // mixed arrays get automatically loaded as string arrays
    assert_eq!(
        lookup("weird_crate", "mixed_arr"),
        EncodedLiteral::Array(vec![text("hey"), text("1"), text("false")])
    );
}

#[test]
fn test_tables() {
    // tables get automatically converted to strings
    assert_eq!(lookup("weird_crate", "table"), text("{ key1 = \"hey\", key2 = 3 }"));
}

#[test]
fn test_negative_integers() {
    assert_eq!(lookup("weird_crate", "negative"), EncodedLiteral::Integer(-12));
}

#[test]
fn test_integer_extremes() {
    assert_eq!(lookup("weird_crate", "big"), EncodedLiteral::Integer(i64::MAX));
    assert_eq!(lookup("weird_crate", "small"), EncodedLiteral::Integer(i64::MIN));
}

#[test]
fn test_empty_array() {
    assert_eq!(lookup("weird_crate", "empty_arr"), EncodedLiteral::Array(vec![]));
}

#[test]
fn test_empty_table() {
    assert_eq!(lookup("weird_crate", "empty_table"), text("{  }"));
}

#[test]
fn test_table_with_escapes() {
    assert_eq!(lookup("weird_crate", "escaped_table"), text("{ k = \"a\\\"b\\\\c\" }"));
}

#[test]
fn test_nested_uniform_arrays() {
    assert_eq!(
        lookup("weird_crate", "nested_arr"),
        EncodedLiteral::Array(vec![
            EncodedLiteral::Array(vec![EncodedLiteral::Integer(1), EncodedLiteral::Integer(2)]),
            EncodedLiteral::Array(vec![EncodedLiteral::Integer(3)]),
        ])
    );
}

#[test]
fn test_mixed_array_with_nested_values() {
    // a mixed array still renders table and array elements textually
    assert_eq!(
        lookup("weird_crate", "mixed_nested"),
        EncodedLiteral::Array(vec![text("x"), text("{ k = 1 }"), text("[1, 2]")])
    );
}

#[test]
fn test_mixed_array_renders_negative_numbers() {
    assert_eq!(
        lookup("weird_crate", "mixed_negative"),
        EncodedLiteral::Array(vec![text("a"), text("-12")])
    );
}

#[test]
fn test_resolution_is_idempotent() {
    let first = lookup("another-crate", "number");
    let second = lookup("another-crate", "number");
    assert_eq!(first, second);
    let third = lookup("weird_crate", "table");
    let fourth = lookup("weird_crate", "table");
    assert_eq!(third, fourth);
}
