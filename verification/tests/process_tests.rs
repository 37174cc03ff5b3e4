use nacos_cli::command::{accepted_by_clap, command_line, process_line, Action, Step};
use nacos_cli::json_struct::{CmdConf, CmdParam, JsonConf};

fn param(key: &str, required: bool) -> CmdParam {
    CmdParam { key: key.to_string(), default_value: String::new(), required, help: String::new() }
}

fn conf(params: Option<Vec<CmdParam>>) -> CmdConf {
    CmdConf {
        url_path: "/v1/cs/configs".to_string(),
        method: "get".to_string(),
        need_body: false,
        params,
        output_format: None,
        recommend_cmds: None,
        set_value_mapping: None,
        data_path: None,
        about: None,
    }
}

fn config() -> JsonConf {
    JsonConf {
        command: vec![
            ("common".to_string(), vec![("set".to_string(), conf(None))]),
            (
                "namespace".to_string(),
                vec![("list".to_string(), conf(Some(vec![param("accessToken", false), param("username", false)])))],
            ),
            (
                "config".to_string(),
                vec![(
                    "get".to_string(),
                    conf(Some(vec![param("tenant", true), param("dataId", true), param("group", true), param("accessToken", false)])),
                )],
            ),
        ],
    }
}

fn said(line: &str) -> Step {
    Step { lines: vec![line.to_string()], action: Action::Done }
}

#[test]
fn process_line_fetches_a_configured_command() {
    assert_eq!(
        process_line("namespace list", &config()).unwrap(),
        Step {
            lines: vec![],
            action: Action::Fetch { group: "namespace".to_string(), command: "list".to_string(), params: vec![] },
        }
    );
}

#[test]
fn process_line_reports_quoting_errors() {
    assert_eq!(process_line("config 'get", &config()).unwrap_err(), "error: Invalid quoting");
}

#[test]
fn process_line_reports_clap_errors_as_text() {
    let e = process_line("config get", &config()).unwrap_err();
    assert!(e.starts_with("error:"), "{}", e);
    assert!(e.contains("<tenant>"), "{}", e);
}

#[test]
fn process_line_with_positional_values_still_lacks_the_common_ids() {
    let step = process_line("config get public app.yaml DEFAULT_GROUP", &config()).unwrap();
    assert_eq!(step, Step { lines: vec![], action: Action::Fail("required".to_string()) });
}

#[test]
fn process_line_passes_unknown_commands_through() {
    assert_eq!(process_line("foo a 'b c'", &config()).unwrap(), said("Calling out to \"foo\" with [\"a\", \"b c\"]"));
    assert_eq!(process_line("common set", &config()).unwrap(), said("Calling out to \"common\" with []"));
}

#[test]
fn accepted_by_clap_takes_the_shell_configuration() {
    assert!(accepted_by_clap(&config()));
    assert!(accepted_by_clap(&JsonConf { command: vec![] }));
}

#[test]
fn accepted_by_clap_refuses_repeated_or_reserved_names() {
    let mut c = config();
    c.command.push(("config".to_string(), vec![]));
    assert!(!accepted_by_clap(&c));
    let c = JsonConf { command: vec![("g".to_string(), vec![("help".to_string(), conf(None))])] };
    assert!(!accepted_by_clap(&c));
    let c = JsonConf { command: vec![("g".to_string(), vec![("x".to_string(), conf(Some(vec![param("k", false), param("k", false)])))])] };
    assert!(!accepted_by_clap(&c));
    let c = JsonConf { command: vec![("g".to_string(), vec![("x".to_string(), conf(Some(vec![param("help", false)])))])] };
    assert!(!accepted_by_clap(&c));
}

#[test]
fn accepted_by_clap_wants_required_arguments_first() {
    let c = JsonConf { command: vec![("g".to_string(), vec![("x".to_string(), conf(Some(vec![param("a", false), param("b", true)])))])] };
    assert!(!accepted_by_clap(&c));
    let c = JsonConf { command: vec![("g".to_string(), vec![("x".to_string(), conf(Some(vec![param("a", true), param("b", false)])))])] };
    assert!(accepted_by_clap(&c));
}

#[test]
fn command_line_trims_and_skips_blank_lines() {
    assert_eq!(command_line("  namespace list \n"), Some("namespace list"));
    assert_eq!(command_line(" \t "), None);
    assert_eq!(command_line(""), None);
}
