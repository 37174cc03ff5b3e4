use nacos_cli::command::{
    debug_list_of, debug_option_of, decide, get_config_common_args, has_config_common_args, line_arguments,
    split_arguments, text_values_of, Action, Route, Step,
};
use nacos_cli::json_struct::{CmdConf, JsonConf};

fn conf() -> CmdConf {
    CmdConf {
        url_path: "/v1/cs/configs".to_string(),
        method: "get".to_string(),
        need_body: true,
        params: None,
        output_format: None,
        recommend_cmds: None,
        set_value_mapping: None,
        data_path: None,
        about: None,
    }
}

fn config() -> JsonConf {
    JsonConf {
        command: vec![
            ("config".to_string(), vec![("get".to_string(), conf()), ("update".to_string(), conf())]),
            ("namespace".to_string(), vec![("list".to_string(), conf())]),
        ],
    }
}

fn values(values: &[(&str, &str)]) -> Vec<(String, Option<String>)> {
    values.iter().map(|(k, v)| (k.to_string(), Some(v.to_string()))).collect()
}

/// A route whose values sit with the subcommand when there is one, and with the
/// command itself otherwise.
fn route(name: &str, sub: Option<&str>, given: &[(&str, &str)], external: &[&str]) -> Route {
    let (outer, sub) = match sub {
        Some(s) => (vec![], Some((s.to_string(), values(given)))),
        None => (values(given), None),
    };
    Route {
        name: name.to_string(),
        values: outer,
        sub,
        external: external.iter().map(|s| s.to_string()).collect(),
    }
}

fn text_pairs(pairs: &[(&str, &str)]) -> Vec<(String, String)> {
    pairs.iter().map(|(k, v)| (k.to_string(), v.to_string())).collect()
}

fn said(line: &str) -> Step {
    Step { lines: vec![line.to_string()], action: Action::Done }
}

fn failed(message: &str) -> Step {
    Step { lines: vec![], action: Action::Fail(message.to_string()) }
}

const COMMON: [(&str, &str); 3] = [("DataId", "d"), ("Group", "g"), ("Namespace", "n")];

#[test]
fn split_arguments_splits_like_a_shell() {
    assert_eq!(split_arguments("namespace list").unwrap(), vec!["namespace", "list"]);
    assert_eq!(split_arguments("config get --x 'a b'").unwrap(), vec!["config", "get", "--x", "a b"]);
    assert_eq!(split_arguments("").unwrap(), Vec::<String>::new());
}

#[test]
fn split_arguments_refuses_bad_quoting() {
    assert_eq!(split_arguments("config 'get").unwrap_err(), "error: Invalid quoting");
}

#[test]
fn line_arguments_maps_missing_words_to_the_error() {
    assert_eq!(line_arguments(None).unwrap_err(), "error: Invalid quoting");
    assert_eq!(line_arguments(Some(vec!["a".to_string()])).unwrap(), vec!["a"]);
}

#[test]
fn debug_forms() {
    assert_eq!(debug_list_of(&vec![]), "[]");
    assert_eq!(debug_list_of(&vec!["\"a\"".to_string(), "\"b\"".to_string()]), "[\"a\", \"b\"]");
    assert_eq!(debug_option_of(Some("\"x\"".to_string())), "Some(\"x\")");
    assert_eq!(debug_option_of(None), "None");
}

#[test]
fn config_list_is_not_supported_yet() {
    assert_eq!(decide(&route("config", Some("list"), &[], &[]), &config()), said("This cmd will be support in the feture!"));
}

#[test]
fn config_get_fetches_with_the_common_arguments() {
    let step = decide(&route("config", Some("get"), &COMMON, &[]), &config());
    assert_eq!(
        step,
        Step {
            lines: vec![],
            action: Action::Fetch {
                group: "config".to_string(),
                command: "get".to_string(),
                params: vec![
                    ("dataId".to_string(), "d".to_string()),
                    ("group".to_string(), "g".to_string()),
                    ("tenant".to_string(), "n".to_string()),
                ],
            },
        }
    );
}

#[test]
fn config_get_without_the_common_arguments_fails() {
    assert_eq!(decide(&route("config", Some("get"), &[("dataId", "d")], &[]), &config()), failed("required"));
}

#[test]
fn config_get_unconfigured_prints_a_notice_and_fails() {
    let empty = JsonConf { command: vec![] };
    assert_eq!(
        decide(&route("config", Some("get"), &COMMON, &[]), &empty),
        Step {
            lines: vec!["please add config, config, get".to_string()],
            action: Action::Fail("assertion failed: false".to_string()),
        }
    );
}

#[test]
fn config_update_echoes_the_common_arguments() {
    assert_eq!(decide(&route("config", Some("update"), &COMMON, &[]), &config()), said("d g n"));
}

#[test]
fn config_other_is_unreachable() {
    assert_eq!(decide(&route("config", None, &[], &[]), &config()), failed("internal error: entered unreachable code"));
}

#[test]
fn namespace_list_fetches_without_parameters() {
    assert_eq!(
        decide(&route("namespace", Some("list"), &[], &[]), &config()),
        Step {
            lines: vec![],
            action: Action::Fetch { group: "namespace".to_string(), command: "list".to_string(), params: vec![] },
        }
    );
}

#[test]
fn namespace_create_unconfigured_fails() {
    assert_eq!(
        decide(&route("namespace", Some("create"), &COMMON, &[]), &config()),
        failed("assertion failed: false")
    );
}

#[test]
fn namespace_update_and_del_echo() {
    assert_eq!(decide(&route("namespace", Some("update"), &COMMON, &[]), &config()), said("d g n"));
    assert_eq!(decide(&route("namespace", Some("del"), &COMMON, &[]), &config()), said("d g n"));
    assert_eq!(decide(&route("namespace", Some("del"), &[], &[]), &config()), failed("required"));
}

#[test]
fn diff_needs_a_color() {
    assert_eq!(decide(&route("diff", None, &[], &[]), &config()), failed("defaulted in clap"));
}

#[test]
fn diff_fills_in_targets() {
    assert_eq!(decide(&route("diff", None, &[("color", "auto")], &[]), &config()), said("Diffing stage..worktree  (color=auto)"));
    assert_eq!(decide(&route("diff", None, &[("color", "never"), ("base", "b")], &[]), &config()), said("Diffing stage..worktree b (color=never)"));
    assert_eq!(decide(&route("diff", None, &[("color", "c"), ("base", "b"), ("head", "h")], &[]), &config()), said("Diffing b..worktree h (color=c)"));
    assert_eq!(
        decide(&route("diff", None, &[("color", "c"), ("base", "b"), ("head", "h"), ("path", "p")], &[]), &config()),
        said("Diffing b..h p (color=c)")
    );
}

#[test]
fn push_needs_a_remote() {
    assert_eq!(decide(&route("push", None, &[("REMOTE", "origin")], &[]), &config()), said("Pushing to origin"));
    assert_eq!(decide(&route("push", None, &[], &[]), &config()), failed("required"));
}

#[test]
fn add_reads_no_paths_without_a_path_argument() {
    assert_eq!(decide(&route("add", None, &[], &[]), &config()), said("Adding []"));
}

#[test]
fn add_with_a_path_argument_stops_on_the_typed_read() {
    assert_eq!(
        decide(&route("add", None, &[("PATH", "a.txt")], &[]), &config()),
        failed("Mismatch between definition and access of `PATH`")
    );
}

#[test]
fn diff_and_push_read_the_command_level_values() {
    let diff = Route {
        name: "diff".to_string(),
        values: values(&[("color", "auto")]),
        sub: Some(("x".to_string(), values(&[("color", "never"), ("path", "p")]))),
        external: vec![],
    };
    assert_eq!(decide(&diff, &config()), said("Diffing stage..worktree  (color=auto)"));
    let push = Route {
        name: "push".to_string(),
        values: vec![],
        sub: Some(("x".to_string(), values(&[("REMOTE", "origin")]))),
        external: vec![],
    };
    assert_eq!(decide(&push, &config()), failed("required"));
}

#[test]
fn config_reads_the_subcommand_values() {
    let r = Route {
        name: "config".to_string(),
        values: values(&COMMON),
        sub: Some(("update".to_string(), values(&[("DataId", "x"), ("Group", "y"), ("Namespace", "z")]))),
        external: vec![],
    };
    assert_eq!(decide(&r, &config()), said("x y z"));
}

#[test]
fn stash_reads_the_subcommand_values_when_there_is_one() {
    let r = Route {
        name: "stash".to_string(),
        values: values(&[("message", "outer")]),
        sub: Some(("push".to_string(), values(&[("message", "inner")]))),
        external: vec![],
    };
    assert_eq!(decide(&r, &config()), said("Pushing Some(\"inner\")"));
}

#[test]
fn values_that_are_not_text_are_left_out() {
    let raw = vec![
        ("a".to_string(), Some("1".to_string())),
        ("b".to_string(), None),
        ("c".to_string(), Some("3".to_string())),
    ];
    assert_eq!(text_values_of(&raw), text_pairs(&[("a", "1"), ("c", "3")]));
    assert_eq!(text_values_of(&vec![]), vec![]);
    let r = Route {
        name: "push".to_string(),
        values: vec![("REMOTE".to_string(), None)],
        sub: None,
        external: vec![],
    };
    assert_eq!(decide(&r, &config()), failed("required"));
}

#[test]
fn common_arguments_are_read_in_order() {
    let given = text_pairs(&[("Namespace", "n"), ("Group", "g"), ("DataId", "d"), ("Group", "later")]);
    assert!(has_config_common_args(&given));
    assert_eq!(
        get_config_common_args(&given),
        ("d".to_string(), "g".to_string(), "n".to_string())
    );
}

#[test]
fn common_arguments_missing_one() {
    assert!(!has_config_common_args(&text_pairs(&[("DataId", "d"), ("Group", "g")])));
    assert!(!has_config_common_args(&text_pairs(&[])));
}

#[test]
fn stash_subcommands() {
    assert_eq!(decide(&route("stash", Some("apply"), &[("STASH", "s1")], &[]), &config()), said("Applying Some(\"s1\")"));
    assert_eq!(decide(&route("stash", Some("pop"), &[], &[]), &config()), said("Popping None"));
    assert_eq!(decide(&route("stash", None, &[("message", "m")], &[]), &config()), said("Pushing Some(\"m\")"));
    assert_eq!(
        decide(&route("stash", Some("drop"), &[], &[]), &config()),
        failed("internal error: entered unreachable code: Unsupported subcommand `drop`")
    );
}

#[test]
fn unknown_commands_are_reported_with_their_words() {
    assert_eq!(
        decide(&route("common", None, &[], &["set", "say \"hi\""]), &config()),
        said("Calling out to \"common\" with [\"set\", \"say \\\"hi\\\"\"]")
    );
    assert_eq!(decide(&route("x", None, &[], &[]), &config()), said("Calling out to \"x\" with []"));
}

#[test]
fn unknown_command_words_are_quoted_as_os_strings() {
    assert_eq!(
        decide(&route("it's", None, &[], &["it's", "a\tb\n"]), &config()),
        said("Calling out to \"it's\" with [\"it's\", \"a\\tb\\n\"]")
    );
}
