use nacos_cli::json_struct::{CmdConf, OutputFormat};
use nacos_cli::json_value::{JsonNumber, JsonValue};
use nacos_cli::print_screen::{cell_of, print, print_failure, print_table, row_of, table_failure, PrintFailure, Shown};

fn strings(items: &[&str]) -> Vec<String> {
    items.iter().map(|s| s.to_string()).collect()
}

fn conf(show_type: &str, data_path: Option<&str>) -> CmdConf {
    CmdConf {
        url_path: "/v1/console/namespaces".to_string(),
        method: "list".to_string(),
        need_body: false,
        params: None,
        output_format: Some(OutputFormat {
            show_type: show_type.to_string(),
            table_show_names: strings(&["name", "value"]),
            table_show_fields: strings(&["namespaceShowName", "namespace"]),
        }),
        recommend_cmds: None,
        set_value_mapping: None,
        data_path: data_path.map(|s| s.to_string()),
        about: None,
    }
}

fn namespace(show: &str, id: JsonValue) -> JsonValue {
    JsonValue::Object(vec![
        ("namespace".to_string(), id),
        ("namespaceShowName".to_string(), JsonValue::Str(show.to_string())),
        ("quota".to_string(), JsonValue::Number(JsonNumber::PosInt(200))),
    ])
}

fn reply() -> JsonValue {
    JsonValue::Object(vec![
        ("code".to_string(), JsonValue::Number(JsonNumber::PosInt(200))),
        (
            "data".to_string(),
            JsonValue::Array(vec![
                namespace("public", JsonValue::Str("".to_string())),
                namespace("dev", JsonValue::Str("dev-id".to_string())),
            ]),
        ),
    ])
}

#[test]
fn print_table_follows_the_data_path() {
    assert_eq!(table_failure(&reply(), &conf("table", Some("data"))), None);
    let t = print_table(&reply(), &conf("table", Some("data")));
    assert_eq!(t.title, strings(&["name", "value"]));
    assert_eq!(t.rows, vec![strings(&["public", ""]), strings(&["dev", "dev-id"])]);
}

#[test]
fn print_table_uses_the_last_piece_of_the_path() {
    assert_eq!(table_failure(&reply(), &conf("table", Some("code\\.data"))), None);
    let t = print_table(&reply(), &conf("table", Some("code\\.data")));
    assert_eq!(t.rows.len(), 2);
}

#[test]
fn print_table_fails_on_a_missing_member() {
    assert_eq!(table_failure(&reply(), &conf("table", Some("items"))), Some(PrintFailure::MissingDataField));
    assert_eq!(table_failure(&reply(), &conf("table", Some("data.x"))), Some(PrintFailure::MissingDataField));
    assert_eq!(table_failure(&reply(), &conf("table", Some("data\\.x"))), Some(PrintFailure::MissingDataField));
}

#[test]
fn print_table_fails_when_data_is_not_an_array() {
    assert_eq!(table_failure(&reply(), &conf("table", Some("code"))), Some(PrintFailure::NotAnArray));
    assert_eq!(table_failure(&reply(), &conf("table", None)), Some(PrintFailure::NotAnArray));
}

#[test]
fn print_table_without_a_format_fails() {
    let mut c = conf("table", Some("data"));
    c.output_format = None;
    assert_eq!(table_failure(&reply(), &c), Some(PrintFailure::MissingOutputFormat));
    assert_eq!(table_failure(&reply(), &conf("table", Some("items"))), Some(PrintFailure::MissingDataField));
}

#[test]
fn print_table_of_a_bare_array() {
    let items = JsonValue::Array(vec![JsonValue::Null, namespace("x", JsonValue::Bool(false))]);
    assert_eq!(table_failure(&items, &conf("table", None)), None);
    let t = print_table(&items, &conf("table", None));
    assert_eq!(t.rows, vec![strings(&["null", "null"]), strings(&["x", "false"])]);
}

#[test]
fn cells_show_scalars_and_skip_containers() {
    assert_eq!(cell_of(&JsonValue::Str("a".to_string())), Some("a".to_string()));
    assert_eq!(cell_of(&JsonValue::Bool(true)), Some("true".to_string()));
    assert_eq!(cell_of(&JsonValue::Number(JsonNumber::PosInt(18446744073709551615))), Some("18446744073709551615".to_string()));
    assert_eq!(cell_of(&JsonValue::Number(JsonNumber::NegInt(-9223372036854775808))), Some("-9223372036854775808".to_string()));
    assert_eq!(cell_of(&JsonValue::Number(JsonNumber::NegInt(-7))), Some("-7".to_string()));
    assert_eq!(cell_of(&JsonValue::Number(JsonNumber::Float("1.5".to_string()))), Some("1.5".to_string()));
    assert_eq!(cell_of(&JsonValue::Null), Some("null".to_string()));
    assert_eq!(cell_of(&JsonValue::Array(vec![])), None);
    assert_eq!(cell_of(&JsonValue::Object(vec![])), None);
}

#[test]
fn rows_skip_fields_without_a_cell() {
    let ele = JsonValue::Object(vec![
        ("a".to_string(), JsonValue::Array(vec![])),
        ("b".to_string(), JsonValue::Number(JsonNumber::PosInt(0))),
    ]);
    assert_eq!(row_of(&ele, &strings(&["a", "b", "c"])), strings(&["0", "null"]));
    assert!(row_of(&ele, &strings(&["a"])).len() <= 1);
}

#[test]
fn print_chooses_by_show_type() {
    assert_eq!(print_failure(&reply(), &conf("table", Some("data"))), None);
    match print(&reply(), &conf("table", Some("data"))) {
        Shown::Table(t) => assert_eq!(t.rows.len(), 2),
        other => panic!("unexpected {:?}", other),
    }
    assert_eq!(print_failure(&reply(), &conf("json", Some("nothing"))), None);
    assert_eq!(print(&reply(), &conf("json", Some("nothing"))), Shown::Json);
}

#[test]
fn print_failures_name_the_panic() {
    assert_eq!(print_failure(&reply(), &conf("yaml", None)), Some(PrintFailure::UnknownShowType));
    let mut c = conf("json", None);
    c.output_format = None;
    assert_eq!(print_failure(&reply(), &c), Some(PrintFailure::MissingOutputFormat));
    assert_eq!(print_failure(&reply(), &conf("table", Some("code"))), Some(PrintFailure::NotAnArray));
    assert_eq!(print_failure(&reply(), &conf("table", Some("items"))), Some(PrintFailure::MissingDataField));
}
