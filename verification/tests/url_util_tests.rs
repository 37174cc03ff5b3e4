use nacos_cli::login::{has_login_token, login_form, login_token, login_url, Login};
use nacos_cli::json_value::JsonValue;
use nacos_cli::url_util::parse_host;

fn login(host: &str, port: Option<u32>) -> Login {
    Login {
        host: host.to_string(),
        port,
        user: "nacos".to_string(),
        password: "secret".to_string(),
    }
}

#[test]
fn concat_drops_one_of_two_slashes() {
    assert_eq!(nacos_cli::url_util::concat("http://h/nacos/", "/v1/cs/configs"), "http://h/nacos/v1/cs/configs");
}

#[test]
fn concat_adds_a_slash_between() {
    assert_eq!(nacos_cli::url_util::concat("http://h", "v1"), "http://h/v1");
}

#[test]
fn concat_with_one_slash_gives_nothing() {
    assert_eq!(nacos_cli::url_util::concat("http://h/", "v1"), "");
    assert_eq!(nacos_cli::url_util::concat("http://h", "/v1"), "");
}

#[test]
fn concat_of_empty_texts_is_a_slash() {
    assert_eq!(nacos_cli::url_util::concat("", ""), "/");
}

#[test]
fn parse_host_with_port() {
    assert_eq!(parse_host(&login("127.0.0.1", Some(8848))), "http://127.0.0.1:8848/nacos/");
}

#[test]
fn parse_host_without_port() {
    assert_eq!(parse_host(&login("nacos.nacos.com", None)), "http://nacos.nacos.com/nacos/");
}

#[test]
fn parse_host_port_zero_and_large() {
    assert_eq!(parse_host(&login("h", Some(0))), "http://h:0/nacos/");
    assert_eq!(parse_host(&login("h", Some(4294967295))), "http://h:4294967295/nacos/");
}

#[test]
fn parse_host_keeps_existing_nacos_suffix() {
    assert_eq!(parse_host(&login("h/nacos", None)), "http://h/nacos/");
}

#[test]
fn parse_host_prefixes_http_even_when_given() {
    assert_eq!(parse_host(&login("http://h", None)), "http://http://h/nacos/");
    assert_eq!(parse_host(&login("", None)), "http:///nacos/");
}

#[test]
fn login_url_appends_the_login_path() {
    assert_eq!(login_url("http://h:8848/nacos/"), "http://h:8848/nacos/v1/auth/users/login");
}

#[test]
fn login_form_sends_user_and_password() {
    let form = login_form(&login("h", None));
    assert_eq!(
        form,
        vec![
            ("username".to_string(), "nacos".to_string()),
            ("password".to_string(), "secret".to_string()),
        ]
    );
}

#[test]
fn login_token_reads_the_access_token() {
    let resp = JsonValue::Object(vec![
        ("tokenTtl".to_string(), JsonValue::Null),
        ("accessToken".to_string(), JsonValue::Str("abc".to_string())),
    ]);
    assert!(has_login_token(&resp));
    assert_eq!(login_token(&resp), "abc".to_string());
}

#[test]
fn login_token_missing_or_not_text() {
    let none = JsonValue::Object(vec![]);
    assert!(!has_login_token(&none));
    let number = JsonValue::Object(vec![("accessToken".to_string(), JsonValue::Bool(true))]);
    assert!(!has_login_token(&number));
    assert!(!has_login_token(&JsonValue::Str("accessToken".to_string())));
}
