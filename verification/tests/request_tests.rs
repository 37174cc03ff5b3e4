use nacos_cli::json_struct::{CmdConf, CmdParam};
use nacos_cli::json_value::{JsonNumber, JsonValue};
use nacos_cli::req::{build_request_url, post_form, post_form_accepts, request_params_of};

fn param(key: &str, default_value: &str) -> CmdParam {
    CmdParam {
        key: key.to_string(),
        default_value: default_value.to_string(),
        required: false,
        help: String::new(),
    }
}

fn conf(url_path: &str, params: Option<Vec<CmdParam>>) -> CmdConf {
    CmdConf {
        url_path: url_path.to_string(),
        method: "get".to_string(),
        need_body: true,
        params,
        output_format: None,
        recommend_cmds: None,
        set_value_mapping: None,
        data_path: None,
        about: None,
    }
}

fn context(host: &str) -> Vec<(String, String)> {
    vec![
        ("username".to_string(), "nacos".to_string()),
        ("host".to_string(), host.to_string()),
    ]
}

#[test]
fn request_params_take_non_empty_defaults_then_given() {
    let c = conf("/v1/cs/configs", Some(vec![param("tenant", ""), param("dataId", "*"), param("group", "*")]));
    let p = vec![("group", "DEFAULT_GROUP"), ("tenant", "public")];
    assert_eq!(
        request_params_of(&c, &p),
        vec![
            ("dataId".to_string(), "*".to_string()),
            ("group".to_string(), "DEFAULT_GROUP".to_string()),
            ("tenant".to_string(), "public".to_string()),
        ]
    );
}

#[test]
fn request_params_later_given_value_wins() {
    let c = conf("/p", None);
    let p = vec![("a", "1"), ("b", "2"), ("a", "3")];
    assert_eq!(
        request_params_of(&c, &p),
        vec![("a".to_string(), "3".to_string()), ("b".to_string(), "2".to_string())]
    );
}

#[test]
fn request_params_can_be_empty() {
    let c = conf("/p", Some(vec![param("accessToken", ""), param("username", "")]));
    assert!(request_params_of(&c, &vec![]).is_empty());
}

#[test]
fn build_request_url_joins_host_path_and_query() {
    let c = conf("/v1/cs/configs", Some(vec![param("tenant", ""), param("dataId", "*"), param("group", "*")]));
    let p = vec![("dataId", "app.yaml"), ("group", "G"), ("tenant", "public")];
    assert_eq!(
        build_request_url(&context("http://127.0.0.1:8848/nacos/"), &c, &p),
        "http://127.0.0.1:8848/nacos/v1/cs/configs?dataId=app.yaml&group=G&tenant=public"
    );
}

#[test]
fn build_request_url_percent_encodes_values() {
    let c = conf("v1", None);
    let p = vec![("q", "a b&c=d/é~-._")];
    assert_eq!(
        build_request_url(&context("http://h"), &c, &p),
        "http://h/v1?q=a%20b%26c%3Dd%2F%C3%A9~-._"
    );
}

#[test]
fn build_request_url_sends_defaults_when_nothing_is_given() {
    let c = conf("/p", Some(vec![param("dataId", "*")]));
    assert_eq!(build_request_url(&context("http://h/"), &c, &vec![]), "http://h/p?dataId=%2A");
}

#[test]
fn build_request_url_reads_the_first_host() {
    let mut ctx = context("http://first");
    ctx.push(("host".to_string(), "http://second".to_string()));
    let c = conf("p", None);
    assert_eq!(build_request_url(&ctx, &c, &vec![("k", "v")]), "http://first/p?k=v");
}

#[test]
fn post_form_takes_the_string_members() {
    let body = JsonValue::Object(vec![
        ("dataId".to_string(), JsonValue::Str("a".to_string())),
        ("content".to_string(), JsonValue::Str("x=1".to_string())),
    ]);
    assert!(post_form_accepts(&body));
    assert_eq!(
        post_form(&body),
        vec![
            ("dataId".to_string(), "a".to_string()),
            ("content".to_string(), "x=1".to_string()),
        ]
    );
}

#[test]
fn post_form_of_a_non_object_is_empty() {
    assert!(post_form_accepts(&JsonValue::Null));
    assert_eq!(post_form(&JsonValue::Null), vec![]);
    assert!(post_form_accepts(&JsonValue::Array(vec![JsonValue::Null])));
    assert_eq!(post_form(&JsonValue::Array(vec![JsonValue::Null])), vec![]);
}

#[test]
fn post_form_refuses_a_member_that_is_not_a_string() {
    let body = JsonValue::Object(vec![
        ("a".to_string(), JsonValue::Str("x".to_string())),
        ("b".to_string(), JsonValue::Number(JsonNumber::PosInt(1))),
    ]);
    assert!(!post_form_accepts(&body));
    assert!(post_form_accepts(&JsonValue::Object(vec![])));
}

#[test]
fn build_request_url_keeps_unreserved_text() {
    let c = conf("p", None);
    assert_eq!(
        build_request_url(&context("http://h"), &c, &vec![("k", "AZaz09-._~")]),
        "http://h/p?k=AZaz09-._~"
    );
}
