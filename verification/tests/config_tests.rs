use nacos_cli::clap_cli::cli;
use nacos_cli::json_struct::{
    default_false, empty_string, ArgValues, CmdConf, CmdParam, JsonConf, OutputFormat,
};

fn param(key: &str, default_value: &str, required: bool) -> CmdParam {
    CmdParam {
        key: key.to_string(),
        default_value: default_value.to_string(),
        required,
        help: format!("the {}", key),
    }
}

fn conf(url_path: &str, params: Option<Vec<CmdParam>>) -> CmdConf {
    CmdConf {
        url_path: url_path.to_string(),
        method: "get".to_string(),
        need_body: false,
        params,
        output_format: Some(OutputFormat {
            show_type: "table".to_string(),
            table_show_names: vec!["name".to_string()],
            table_show_fields: vec!["namespace".to_string()],
        }),
        recommend_cmds: None,
        set_value_mapping: None,
        data_path: None,
        about: None,
    }
}

fn config() -> JsonConf {
    JsonConf {
        command: vec![
            (
                "namespace".to_string(),
                vec![(
                    "list".to_string(),
                    conf("/v1/console/namespaces", Some(vec![param("accessToken", "", false)])),
                )],
            ),
            (
                "config".to_string(),
                vec![
                    ("get".to_string(), conf("/v1/cs/configs", Some(vec![param("tenant", "", true)]))),
                    ("update".to_string(), conf("/v1/cs/configs", None)),
                ],
            ),
        ],
    }
}

fn values(pairs: &[(&str, &str)]) -> ArgValues {
    ArgValues {
        values: pairs.iter().map(|(k, v)| (k.to_string(), v.to_string())).collect(),
    }
}

#[test]
fn defaults_are_false_and_empty() {
    assert!(!default_false());
    assert_eq!(empty_string(), "");
}

#[test]
fn find_cmd_finds_configured_commands() {
    let c = config();
    assert_eq!(c.find_cmd("config", "get").unwrap().url_path, "/v1/cs/configs");
    assert!(c.find_cmd("config", "update").unwrap().params.is_none());
    assert_eq!(c.find_cmd("namespace", "list").unwrap().url_path, "/v1/console/namespaces");
}

#[test]
fn find_cmd_misses_unknown_commands() {
    let c = config();
    assert!(c.find_cmd("config", "list").is_none());
    assert!(c.find_cmd("common", "set").is_none());
    assert!(c.find_cmd("", "").is_none());
}

#[test]
fn has_command_names_the_groups() {
    let c = config();
    assert!(c.has_command("config"));
    assert!(c.has_command("namespace"));
    assert!(!c.has_command("common"));
}

#[test]
fn find_cmd_reads_the_first_of_repeated_groups() {
    let mut c = config();
    c.command.push(("config".to_string(), vec![("get".to_string(), conf("/other", None))]));
    assert_eq!(c.find_cmd("config", "get").unwrap().url_path, "/v1/cs/configs");
}

#[test]
fn get_args_data_gathers_each_parameter() {
    let c = conf("/p", Some(vec![param("dataId", "*", true), param("group", "", false)]));
    let got = c
        .get_args_data(&values(&[("group", "g1"), ("dataId", "d1"), ("other", "x")]))
        .unwrap();
    assert_eq!(
        got,
        vec![("dataId".to_string(), "d1".to_string()), ("group".to_string(), "g1".to_string())]
    );
}

#[test]
fn get_args_data_keeps_one_entry_per_key() {
    let c = conf("/p", Some(vec![param("k", "", false), param("k", "", true)]));
    let got = c.get_args_data(&values(&[("k", "v")])).unwrap();
    assert_eq!(got, vec![("k".to_string(), "v".to_string())]);
}

#[test]
fn get_args_data_without_parameters_is_empty() {
    let c = conf("/p", None);
    assert_eq!(c.get_args_data(&values(&[("k", "v")])).unwrap(), vec![]);
}

#[test]
fn first_missing_param_names_the_missing_one() {
    let c = conf("/p", Some(vec![param("a", "", false), param("b", "", true)]));
    assert_eq!(c.first_missing_param(&values(&[("a", "1")])), Some(1));
    assert_eq!(c.first_missing_param(&values(&[("b", "1")])), Some(0));
    assert_eq!(c.first_missing_param(&values(&[("a", "1"), ("b", "2")])), None);
    assert_eq!(conf("/p", None).first_missing_param(&values(&[])), None);
}

#[test]
fn get_arg_copies_the_parameter() {
    let a = param("dataId", "*", true).get_arg();
    assert_eq!(a.id, "dataId");
    assert_eq!(a.help, "the dataId");
    assert!(a.required);
}

#[test]
fn get_clap_args_has_one_argument_per_parameter() {
    let c = conf("/p", Some(vec![param("a", "", false), param("b", "", true)]));
    let args = c.get_clap_args();
    assert_eq!(args.len(), 2);
    assert_eq!(args[0].id, "a");
    assert!(!args[0].required);
    assert_eq!(args[1].id, "b");
    assert!(args[1].required);
    assert!(conf("/p", None).get_clap_args().is_empty());
}

#[test]
fn get_sub_cmd_has_one_command_per_group() {
    let cmds = config().get_sub_cmd();
    assert_eq!(cmds.len(), 2);
    assert_eq!(cmds[0].name, "namespace");
    assert_eq!(cmds[0].about.as_deref(), Some("empty"));
    assert!(cmds[0].arg_required_else_help);
    assert_eq!(cmds[0].subcommands.len(), 1);
    assert_eq!(cmds[0].subcommands[0].name, "list");
    assert_eq!(cmds[0].subcommands[0].args.len(), 1);
    assert_eq!(cmds[1].name, "config");
    assert_eq!(cmds[1].subcommands.len(), 2);
    assert_eq!(cmds[1].subcommands[1].name, "update");
    assert!(cmds[1].subcommands[1].args.is_empty());
}

#[test]
fn cli_is_a_multicall_shell() {
    let c = cli(&config());
    assert_eq!(c.name, "nacos-cli");
    assert_eq!(c.about.as_deref(), Some("A fictional versioning CLI"));
    assert!(c.multicall);
    assert!(c.subcommand_required);
    assert!(c.arg_required_else_help);
    assert!(c.allow_external_subcommands);
    assert_eq!(c.subcommands.len(), 2);
}

#[test]
fn names_distinct_accepts_a_map_shaped_configuration() {
    assert!(config().names_distinct());
    assert!(JsonConf { command: vec![] }.names_distinct());
}

#[test]
fn names_distinct_refuses_a_repeated_group_or_command() {
    let mut twice = config();
    twice.command.push(("namespace".to_string(), vec![]));
    assert!(!twice.names_distinct());
    let mut inner = config();
    inner.command[1].1.push(("get".to_string(), conf("/other", None)));
    assert!(!inner.names_distinct());
}
