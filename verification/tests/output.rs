use lexiang::output::{
    csv_lines_with, format_value, format_value_with, markdown_lines_with, table_lines_with, JsonNumber, JsonObject, JsonValue,
    TimeTable,
};

fn s(x: &str) -> JsonValue {
    JsonValue::String(x.to_string())
}

fn num(n: i64) -> JsonValue {
    JsonValue::Number(JsonNumber::Int(n))
}

fn obj(entries: Vec<(&str, JsonValue)>, json: &str) -> JsonValue {
    JsonValue::Object(JsonObject {
        entries: entries.into_iter().map(|(k, v)| (k.to_string(), v)).collect(),
        json: json.to_string(),
    })
}

fn no_times() -> TimeTable {
    TimeTable { entries: vec![] }
}

#[test]
fn format_plain_values() {
    let t = no_times();
    assert_eq!(format_value_with("", &JsonValue::Null, &t), "");
    assert_eq!(format_value_with("", &JsonValue::Bool(true), &t), "true");
    assert_eq!(format_value_with("count", &num(-12), &t), "-12");
    assert_eq!(format_value_with("", &JsonValue::Number(JsonNumber::UInt(u64::MAX)), &t), "18446744073709551615");
    assert_eq!(format_value_with("", &JsonValue::Number(JsonNumber::Float("1.5".to_string())), &t), "1.5");
    assert_eq!(format_value_with("", &JsonValue::Array(vec![num(1), s("a")]), &t), "[1, a]");
}

#[test]
fn format_objects_by_name_then_id_then_json() {
    let t = no_times();
    assert_eq!(format_value_with("", &obj(vec![("id", s("i1")), ("name", s("Ann"))], "{}"), &t), "Ann");
    assert_eq!(format_value_with("", &obj(vec![("id", s("i1")), ("name", num(3))], "{}"), &t), "i1");
    assert_eq!(format_value_with("", &obj(vec![("x", num(1))], "{\"x\":1}"), &t), "{\"x\":1}");
}

#[test]
fn format_timestamps() {
    let t = TimeTable {
        entries: vec![
            (1_700_000_000_000, Some("MS".to_string()), None),
            (1_700_000_000, None, Some("SECS".to_string())),
        ],
    };
    assert_eq!(format_value_with("created_at", &num(0), &t), "-");
    assert_eq!(format_value_with("created_at", &num(-5), &t), "-");
    assert_eq!(format_value_with("created_at", &num(1_700_000_000_000), &t), "MS");
    assert_eq!(format_value_with("updated_at", &num(1_700_000_000), &t), "SECS");
    assert_eq!(format_value_with("updated_at", &num(77), &t), "77");
    assert_eq!(format_value_with("size", &num(1_700_000_000), &t), "1700000000");
}

#[test]
fn table_of_data_array() {
    let v = obj(
        vec![(
            "data",
            JsonValue::Array(vec![
                obj(vec![("id", s("1")), ("name", s("alpha"))], "{}"),
                obj(vec![("id", s("22")), ("name", s("b"))], "{}"),
            ]),
        )],
        "{}",
    );
    let lines = table_lines_with(&v, &no_times());
    assert_eq!(lines, vec!["id | name ", "---+------", "1  | alpha", "22 | b    "]);
}

#[test]
fn table_truncates_long_cells() {
    let long = "x".repeat(45);
    let v = JsonValue::Array(vec![obj(vec![("k", s(&long))], "{}")]);
    let lines = table_lines_with(&v, &no_times());
    assert_eq!(lines[0], format!("k{}", " ".repeat(39)));
    assert_eq!(lines[2], format!("{}…", "x".repeat(39)));
}

#[test]
fn table_of_object_members() {
    let v = obj(vec![("a", num(1)), ("b", s("two"))], "{}");
    assert_eq!(table_lines_with(&v, &no_times()), vec!["a: 1", "b: two"]);
    let w = obj(vec![("a", num(1)), ("items", JsonValue::Array(vec![num(5)]))], "{}");
    assert_eq!(table_lines_with(&w, &no_times()), vec!["items:", "5"]);
    assert_eq!(table_lines_with(&JsonValue::Array(vec![]), &no_times()), vec!["(empty)"]);
}

#[test]
fn csv_quotes_fields() {
    let v = obj(
        vec![("list", JsonValue::Array(vec![obj(vec![("a", s("x,y")), ("b", s("say \"hi\""))], "{}")]))],
        "{}",
    );
    let lines = csv_lines_with(&v, &no_times()).unwrap();
    assert_eq!(lines, vec!["a,b", "\"x,y\",\"say \"\"hi\"\"\""]);
    assert_eq!(csv_lines_with(&num(3), &no_times()), None);
}

#[test]
fn markdown_table_and_fallback() {
    let v = obj(vec![("rows", JsonValue::Array(vec![obj(vec![("a", num(1))], "{}")]))], "{}");
    let (lines, json) = markdown_lines_with(&v, &no_times());
    assert!(!json);
    assert_eq!(lines, vec!["## rows", "", "| a |", "| --- |", "| 1 |"]);
    let w = obj(vec![("nums", JsonValue::Array(vec![num(1)]))], "{}");
    let (lines, json) = markdown_lines_with(&w, &no_times());
    assert!(json);
    assert_eq!(lines, vec!["## nums", ""]);
}

#[test]
fn format_value_reads_a_top_level_timestamp_in_local_time() {
    let secs = format_value("updated_at", &num(1_700_000_000));
    assert_eq!(secs.len(), 19);
    assert_eq!(&secs[4..5], "-");
    assert_eq!(&secs[13..14], ":");
    let ms = format_value("created_at", &num(1_700_000_000_000));
    assert_eq!(ms, secs);
    assert_eq!(format_value("count", &num(1_700_000_000)), "1700000000");
    assert_eq!(format_value("created_at", &num(0)), "-");
}
