//! The command line interface the configuration describes: one command per
//! command group, and under it one command per configured command, taking one
//! argument per parameter.

use vstd::prelude::*;
use crate::json_struct::{CmdParam, CmdConf, JsonConf, params_of, distinct_names};
use crate::assoc::{keyed, distinct_keys};
use crate::text::{owned, str_eq, strs_view};

verus! {

/// An argument of a command: its name, its help text, and whether it must be given.
#[derive(Clone, Debug, PartialEq, Eq)]
pub struct ArgDef {
    pub id: String,
    pub help: String,
    pub required: bool,
}

/// A command: its name, its description, how it treats its subcommands, its
/// arguments and its subcommands.
#[derive(Debug, PartialEq, Eq)]
pub struct CommandDef {
    pub name: String,
    pub about: Option<String>,
    pub multicall: bool,
    pub subcommand_required: bool,
    pub arg_required_else_help: bool,
    pub allow_external_subcommands: bool,
    pub args: Vec<ArgDef>,
    pub subcommands: Vec<CommandDef>,
}

/// An argument taken by its name, its help text and whether it is required.
pub open spec fn arg_view(a: ArgDef) -> (Seq<char>, Seq<char>, bool) {
    (a.id@, a.help@, a.required)
}

/// The argument a parameter stands for.
pub open spec fn param_arg(p: CmdParam) -> (Seq<char>, Seq<char>, bool) {
    (p.key@, p.help@, p.required)
}

/// The arguments a list of parameters stands for.
pub open spec fn params_args(ps: Seq<CmdParam>) -> Seq<(Seq<char>, Seq<char>, bool)> {
    ps.map_values(|p: CmdParam| param_arg(p))
}

/// The arguments of a list, each by its view.
pub open spec fn args_view(args: Seq<ArgDef>) -> Seq<(Seq<char>, Seq<char>, bool)> {
    args.map_values(|a: ArgDef| arg_view(a))
}

/// A command made for a configured command: named `name`, with one argument per
/// parameter of `conf`, no description and no subcommands.
pub open spec fn is_command_for(c: CommandDef, name: Seq<char>, conf: CmdConf) -> bool {
    &&& c.name@ == name
    &&& c.about is None
    &&& !c.multicall && !c.subcommand_required && !c.arg_required_else_help
    &&& !c.allow_external_subcommands
    &&& args_view(c.args@) == params_args(params_of(conf))
    &&& c.subcommands@.len() == 0
}

/// A command made for a command group: named after the group, described as
/// `empty`, showing help when given nothing, with one subcommand per command of
/// the group, in order.
pub open spec fn is_group_command(c: CommandDef, group: (String, Vec<(String, CmdConf)>)) -> bool {
    &&& c.name@ == group.0@
    &&& c.about matches Some(a) && a@ == "empty"@
    &&& !c.multicall && !c.subcommand_required && c.arg_required_else_help
    &&& !c.allow_external_subcommands
    &&& c.args@.len() == 0
    &&& c.subcommands@.len() == group.1@.len()
    &&& forall|j: int|
        0 <= j < group.1@.len() ==> is_command_for(
            #[trigger] c.subcommands@[j],
            group.1@[j].0@,
            group.1@[j].1,
        )
}

/// One command per command group of the configuration, in order.
pub open spec fn is_group_commands(cmds: Seq<CommandDef>, conf: JsonConf) -> bool {
    &&& cmds.len() == conf.command@.len()
    &&& forall|i: int| 0 <= i < cmds.len() ==> is_group_command(#[trigger] cmds[i], conf.command@[i])
}

impl CmdParam {
    /// The argument this parameter stands for: named by its key, with its help
    /// text, required when the parameter is.
    pub fn get_arg(&self) -> (a: ArgDef)
        ensures
            arg_view(a) == param_arg(*self),
    {
        ArgDef { id: self.key.clone(), help: self.help.clone(), required: self.required }
    }
}

impl CmdConf {
    /// The arguments of this command: one per parameter, in order.
    pub fn get_clap_args(&self) -> (args: Vec<ArgDef>)
        ensures
            args_view(args@) == params_args(params_of(*self)),
    {
        let mut args: Vec<ArgDef> = Vec::new();
        match &self.params {
            None => {
                assert(args_view(args@) =~= params_args(params_of(*self)));
                args
            },
            Some(cmd_params) => {
                let mut i: usize = 0;
                while i < cmd_params.len()
                    invariant
                        i <= cmd_params@.len(),
                        params_of(*self) == cmd_params@,
                        args_view(args@) == params_args(cmd_params@.take(i as int)),
                        args@.len() == i,
                    decreases cmd_params@.len() - i,
                {
                    let a = cmd_params[i].get_arg();
                    let ghost before = args@;
                    args.push(a);
                    assert(args@ == before.push(a));
                    assert forall|k: int| 0 <= k < i + 1 implies #[trigger] args_view(args@)[k]
                        == params_args(cmd_params@.take(i + 1))[k] by {
                        if k < i {
                            assert(args@[k] == before[k]);
                            assert(args_view(before)[k] == params_args(cmd_params@.take(i as int))[k]);
                        }
                    }
                    assert(args_view(args@) =~= params_args(cmd_params@.take(i + 1)));
                    i = i + 1;
                }
                assert(cmd_params@.take(i as int) =~= cmd_params@);
                args
            },
        }
    }
}

/// A command for a configured command.
fn command_for(name: &String, conf: &CmdConf) -> (c: CommandDef)
    ensures
        is_command_for(c, name@, *conf),
{
    CommandDef {
        name: name.clone(),
        about: None,
        multicall: false,
        subcommand_required: false,
        arg_required_else_help: false,
        allow_external_subcommands: false,
        args: conf.get_clap_args(),
        subcommands: Vec::new(),
    }
}

/// A command for a command group.
fn group_command(group: &(String, Vec<(String, CmdConf)>)) -> (c: CommandDef)
    ensures
        is_group_command(c, *group),
{
    let data = &group.1;
    let mut sub_cmds: Vec<CommandDef> = Vec::new();
    let mut j: usize = 0;
    while j < data.len()
        invariant
            j <= data@.len(),
            sub_cmds@.len() == j,
            forall|k: int|
                0 <= k < j ==> is_command_for(#[trigger] sub_cmds@[k], data@[k].0@, data@[k].1),
        decreases data@.len() - j,
    {
        let c = command_for(&data[j].0, &data[j].1);
        sub_cmds.push(c);
        j = j + 1;
    }
    CommandDef {
        name: group.0.clone(),
        about: Some(owned("empty")),
        multicall: false,
        subcommand_required: false,
        arg_required_else_help: true,
        allow_external_subcommands: false,
        args: Vec::new(),
        subcommands: sub_cmds,
    }
}

impl JsonConf {
    /// One command per command group, each with one subcommand per command.
    pub fn get_sub_cmd(&self) -> (cmds: Vec<CommandDef>)
        ensures
            is_group_commands(cmds@, *self),
    {
        let mut cmds: Vec<CommandDef> = Vec::new();
        let mut i: usize = 0;
        while i < self.command.len()
            invariant
                i <= self.command@.len(),
                cmds@.len() == i,
                forall|k: int|
                    0 <= k < i ==> is_group_command(#[trigger] cmds@[k], self.command@[k]),
            decreases self.command@.len() - i,
        {
            let c = group_command(&self.command[i]);
            cmds.push(c);
            i = i + 1;
        }
        cmds
    }
}

/// The command line interface of the shell: a multi-call command named
/// `nacos-cli` whose subcommands are the command groups; a subcommand is required,
/// help is shown when nothing is given, and unknown subcommands are let through.
pub open spec fn is_shell_cli(c: CommandDef, conf: JsonConf) -> bool {
    &&& c.name@ == "nacos-cli"@
    &&& c.about matches Some(a) && a@ == "A fictional versioning CLI"@
    &&& c.multicall && c.subcommand_required && c.arg_required_else_help
    &&& c.allow_external_subcommands
    &&& c.args@.len() == 0
    &&& is_group_commands(c.subcommands@, conf)
}

/// A command by its own settings and arguments, leaving out its subcommands.
pub struct NodeView {
    pub name: Seq<char>,
    pub about: Option<Seq<char>>,
    pub multicall: bool,
    pub subcommand_required: bool,
    pub arg_required_else_help: bool,
    pub allow_external_subcommands: bool,
    pub args: Seq<(Seq<char>, Seq<char>, bool)>,
}

/// A command tree of three levels by its texts: the root, and for each of its
/// subcommands that subcommand and its own subcommands.
pub struct TreeView {
    pub root: NodeView,
    pub groups: Seq<(NodeView, Seq<NodeView>)>,
}

/// A command by its own settings and arguments.
pub open spec fn node_view(c: CommandDef) -> NodeView {
    NodeView {
        name: c.name@,
        about: match c.about {
            Some(a) => Some(a@),
            None => None,
        },
        multicall: c.multicall,
        subcommand_required: c.subcommand_required,
        arg_required_else_help: c.arg_required_else_help,
        allow_external_subcommands: c.allow_external_subcommands,
        args: args_view(c.args@),
    }
}

/// A command and its subcommands, by their own settings and arguments.
pub open spec fn level_view(g: CommandDef) -> (NodeView, Seq<NodeView>) {
    (node_view(g), g.subcommands@.map_values(|k: CommandDef| node_view(k)))
}

/// The first three levels of a command tree.
pub open spec fn tree_view(c: CommandDef) -> TreeView {
    TreeView { root: node_view(c), groups: c.subcommands@.map_values(|g: CommandDef| level_view(g)) }
}

/// The tree has no fourth level: the subcommands of subcommands have none.
pub open spec fn three_levels(c: CommandDef) -> bool {
    forall|i: int, j: int|
        0 <= i < c.subcommands@.len() && 0 <= j < c.subcommands@[i].subcommands@.len()
            ==> (#[trigger] c.subcommands@[i].subcommands@[j]).subcommands@.len() == 0
}

/// The command for a configured command.
pub open spec fn leaf_node(name: Seq<char>, conf: CmdConf) -> NodeView {
    NodeView {
        name,
        about: None,
        multicall: false,
        subcommand_required: false,
        arg_required_else_help: false,
        allow_external_subcommands: false,
        args: params_args(params_of(conf)),
    }
}

/// The command for a command group.
pub open spec fn group_node(name: Seq<char>) -> NodeView {
    NodeView {
        name,
        about: Some("empty"@),
        multicall: false,
        subcommand_required: false,
        arg_required_else_help: true,
        allow_external_subcommands: false,
        args: Seq::empty(),
    }
}

/// The root command of the shell.
pub open spec fn root_node() -> NodeView {
    NodeView {
        name: "nacos-cli"@,
        about: Some("A fictional versioning CLI"@),
        multicall: true,
        subcommand_required: true,
        arg_required_else_help: true,
        allow_external_subcommands: true,
        args: Seq::empty(),
    }
}

/// The command of a group and the commands of its configured commands.
pub open spec fn group_tree(group: (String, Vec<(String, CmdConf)>)) -> (NodeView, Seq<NodeView>) {
    (group_node(group.0@), group.1@.map_values(|e: (String, CmdConf)| leaf_node(e.0@, e.1)))
}

/// The command tree the configuration describes.
pub open spec fn conf_tree(conf: JsonConf) -> TreeView {
    TreeView {
        root: root_node(),
        groups: conf.command@.map_values(|g: (String, Vec<(String, CmdConf)>)| group_tree(g)),
    }
}

/// The shell's interface, as `is_shell_cli` describes it, has exactly the tree of
/// the configuration and no fourth level.
pub proof fn lemma_shell_cli_tree(c: CommandDef, conf: JsonConf)
    requires
        is_shell_cli(c, conf),
    ensures
        tree_view(c) == conf_tree(conf),
        three_levels(c),
{
    let groups = c.subcommands@;
    assert forall|i: int| 0 <= i < groups.len() implies #[trigger] level_view(groups[i]) == group_tree(
        conf.command@[i],
    ) by {
        let g = groups[i];
        let group = conf.command@[i];
        assert(is_group_command(g, group));
        assert forall|j: int| 0 <= j < g.subcommands@.len() implies #[trigger] node_view(
            g.subcommands@[j],
        ) == leaf_node(group.1@[j].0@, group.1@[j].1) by {
            assert(is_command_for(g.subcommands@[j], group.1@[j].0@, group.1@[j].1));
        }
        assert(g.subcommands@.map_values(|k: CommandDef| node_view(k)) =~= group.1@.map_values(
            |e: (String, CmdConf)| leaf_node(e.0@, e.1),
        ));
        assert(node_view(g).args =~= Seq::<(Seq<char>, Seq<char>, bool)>::empty());
        assert(node_view(g) == group_node(group.0@));
    }
    assert(tree_view(c).groups =~= conf_tree(conf).groups);
    assert(node_view(c).args =~= Seq::<(Seq<char>, Seq<char>, bool)>::empty());
    assert forall|i: int, j: int|
        0 <= i < groups.len() && 0 <= j < groups[i].subcommands@.len() implies (
    #[trigger] groups[i].subcommands@[j]).subcommands@.len() == 0 by {
        assert(is_group_command(groups[i], conf.command@[i]));
        assert(is_command_for(groups[i].subcommands@[j], conf.command@[i].1@[j].0@, conf.command@[i].1@[j].1));
    }
}

/// The command line interface the configuration describes.
pub fn cli(json_conf: &JsonConf) -> (c: CommandDef)
    ensures
        is_shell_cli(c, *json_conf),
        tree_view(c) == conf_tree(*json_conf),
        three_levels(c),
{
    let c = CommandDef {
        name: owned("nacos-cli"),
        about: Some(owned("A fictional versioning CLI")),
        multicall: true,
        subcommand_required: true,
        arg_required_else_help: true,
        allow_external_subcommands: true,
        args: Vec::new(),
        subcommands: json_conf.get_sub_cmd(),
    };
    proof {
        lemma_shell_cli_tree(c, *json_conf);
    }
    c
}

} // verus!

verus! {

/// No name repeats, and none is `help`, the name clap gives its own help flag and
/// help subcommand.
pub open spec fn free_names(names: Seq<Seq<char>>) -> bool {
    &&& forall|i: int, j: int| 0 <= i < j < names.len() ==> #[trigger] names[i] != #[trigger] names[j]
    &&& forall|i: int| 0 <= i < names.len() ==> #[trigger] names[i] != "help"@
}

/// The ids of a list of arguments.
pub open spec fn arg_ids(args: Seq<(Seq<char>, Seq<char>, bool)>) -> Seq<Seq<char>> {
    args.map_values(|a: (Seq<char>, Seq<char>, bool)| a.0)
}

/// The names of a list of commands.
pub open spec fn node_names(nodes: Seq<NodeView>) -> Seq<Seq<char>> {
    nodes.map_values(|n: NodeView| n.name)
}

/// No argument that is not required comes before one that is.
pub open spec fn required_first(args: Seq<(Seq<char>, Seq<char>, bool)>) -> bool {
    forall|i: int, j: int| 0 <= i < j < args.len() && #[trigger] args[j].2 ==> #[trigger] args[i].2
}

/// A command whose own definition clap's checks accept: free argument ids,
/// required arguments first, and no arguments on a multi-call command.
pub open spec fn node_accepted(n: NodeView) -> bool {
    &&& free_names(arg_ids(n.args))
    &&& required_first(n.args)
    &&& n.multicall ==> n.args.len() == 0
}

/// A command tree that clap's checks of a command definition accept: every command
/// accepted, and the subcommands of each command with free names. clap checks this
/// (and panics otherwise) when debug assertions are on.
pub open spec fn clap_accepts(t: TreeView) -> bool {
    &&& node_accepted(t.root)
    &&& free_names(node_names(t.groups.map_values(|g: (NodeView, Seq<NodeView>)| g.0)))
    &&& forall|i: int|
        0 <= i < t.groups.len() ==> {
            &&& node_accepted(#[trigger] t.groups[i].0)
            &&& free_names(node_names(t.groups[i].1))
            &&& forall|j: int| 0 <= j < t.groups[i].1.len() ==> node_accepted(#[trigger] t.groups[i].1[j])
        }
}

/// Whether the names are free.
fn names_free(names: &Vec<&str>) -> (r: bool)
    ensures
        r == free_names(strs_view(names@)),
{
    let ghost nv = strs_view(names@);
    let mut i: usize = 0;
    while i < names.len()
        invariant
            i <= names@.len(),
            nv == strs_view(names@),
            forall|a: int, b: int| 0 <= a < b < nv.len() && a < i ==> #[trigger] nv[a] != #[trigger] nv[b],
            forall|a: int| 0 <= a < i ==> #[trigger] nv[a] != "help"@,
        decreases names@.len() - i,
    {
        if str_eq(names[i], "help") {
            assert(nv[i as int] == "help"@);
            return false;
        }
        let mut j: usize = i + 1;
        while j < names.len()
            invariant
                i < j <= names@.len(),
                i < names@.len(),
                nv == strs_view(names@),
                forall|b: int| i < b < j ==> #[trigger] nv[b] != nv[i as int],
            decreases names@.len() - j,
        {
            if str_eq(names[i], names[j]) {
                assert(nv[i as int] == nv[j as int]);
                return false;
            }
            j = j + 1;
        }
        i = i + 1;
    }
    true
}

/// Whether a command's own definition is accepted.
fn node_is_accepted(c: &CommandDef) -> (r: bool)
    ensures
        r == node_accepted(node_view(*c)),
{
    let ghost av = args_view(c.args@);
    let mut ids: Vec<&str> = Vec::new();
    let mut i: usize = 0;
    while i < c.args.len()
        invariant
            i <= c.args@.len(),
            av == args_view(c.args@),
            strs_view(ids@) == arg_ids(av).take(i as int),
            ids@.len() == i,
            forall|a: int, b: int| 0 <= a < b < i && #[trigger] av[b].2 ==> #[trigger] av[a].2,
        decreases c.args@.len() - i,
    {
        if c.args[i].required && i > 0 && !c.args[i - 1].required {
            assert(av[i as int].2 && !av[i - 1].2);
            return false;
        }
        proof {
            assert forall|a: int, b: int| 0 <= a < b < i + 1 && #[trigger] av[b].2 implies #[trigger] av[a].2 by {
                if b == i && a < i - 1 {
                    assert(av[i - 1].2);
                }
            }
        }
        let ghost before = ids@;
        let id = c.args[i].id.as_str();
        ids.push(id);
        assert(ids@ == before.push(id));
        assert forall|k: int| 0 <= k < i + 1 implies #[trigger] strs_view(ids@)[k]
            == arg_ids(av).take(i + 1)[k] by {
            if k < i {
                assert(ids@[k] == before[k]);
                assert(before.map_values(|n: &str| n@)[k] == arg_ids(av).take(i as int)[k]);
            }
        }
        assert(strs_view(ids@) =~= arg_ids(av).take(i + 1));
        i = i + 1;
    }
    assert(arg_ids(av).take(i as int) =~= arg_ids(av));
    if c.multicall && c.args.len() > 0 {
        return false;
    }
    names_free(&ids)
}

/// Whether the names of a list of commands are free.
fn command_names_free(cmds: &Vec<CommandDef>) -> (r: bool)
    ensures
        r == free_names(node_names(cmds@.map_values(|k: CommandDef| node_view(k)))),
{
    let ghost want = node_names(cmds@.map_values(|k: CommandDef| node_view(k)));
    let mut names: Vec<&str> = Vec::new();
    let mut i: usize = 0;
    while i < cmds.len()
        invariant
            i <= cmds@.len(),
            want == node_names(cmds@.map_values(|k: CommandDef| node_view(k))),
            strs_view(names@) == want.take(i as int),
            names@.len() == i,
        decreases cmds@.len() - i,
    {
        let ghost before = names@;
        let name = cmds[i].name.as_str();
        names.push(name);
        assert(names@ == before.push(name));
        assert forall|k: int| 0 <= k < i + 1 implies #[trigger] strs_view(names@)[k]
            == want.take(i + 1)[k] by {
            if k < i {
                assert(names@[k] == before[k]);
                assert(before.map_values(|n: &str| n@)[k] == want.take(i as int)[k]);
            }
        }
        assert(strs_view(names@) =~= want.take(i + 1));
        i = i + 1;
    }
    assert(want.take(i as int) =~= want);
    names_free(&names)
}

/// Whether clap's checks accept a command tree of three levels.
pub fn clap_accepts_cli(c: &CommandDef) -> (r: bool)
    ensures
        r == clap_accepts(tree_view(*c)),
{
    let ghost t = tree_view(*c);
    if !node_is_accepted(c) {
        return false;
    }
    proof {
        assert(node_names(t.groups.map_values(|g: (NodeView, Seq<NodeView>)| g.0)) =~= node_names(
            c.subcommands@.map_values(|k: CommandDef| node_view(k)),
        ));
    }
    if !command_names_free(&c.subcommands) {
        return false;
    }
    let mut i: usize = 0;
    while i < c.subcommands.len()
        invariant
            i <= c.subcommands@.len(),
            t == tree_view(*c),
            t.groups.len() == c.subcommands@.len(),
            forall|a: int|
                0 <= a < i ==> {
                    &&& node_accepted(#[trigger] t.groups[a].0)
                    &&& free_names(node_names(t.groups[a].1))
                    &&& forall|b: int| 0 <= b < t.groups[a].1.len() ==> node_accepted(#[trigger] t.groups[a].1[b])
                },
        decreases c.subcommands@.len() - i,
    {
        let g = &c.subcommands[i];
        assert(t.groups[i as int] == level_view(*g));
        if !node_is_accepted(g) {
            assert(!node_accepted(t.groups[i as int].0));
            assert(!clap_accepts(t));
            assert(!clap_accepts(tree_view(*c)));
            return false;
        }
        if !command_names_free(&g.subcommands) {
            assert(!free_names(node_names(t.groups[i as int].1)));
            assert(node_accepted(t.groups[i as int].0));
            assert(!clap_accepts(t));
            return false;
        }
        let mut j: usize = 0;
        while j < g.subcommands.len()
            invariant
                j <= g.subcommands@.len(),
                i < t.groups.len(),
                t == tree_view(*c),
                t.groups[i as int] == level_view(*g),
                node_accepted(t.groups[i as int].0),
                forall|b: int| 0 <= b < j ==> node_accepted(#[trigger] t.groups[i as int].1[b]),
            decreases g.subcommands@.len() - j,
        {
            if !node_is_accepted(&g.subcommands[j]) {
                assert(t.groups[i as int].1.len() == g.subcommands@.len());
                assert(t.groups[i as int].1[j as int] == node_view(g.subcommands@[j as int]));
                assert(!node_accepted(t.groups[i as int].1[j as int]));
                assert(!clap_accepts(t));
                assert(!clap_accepts(tree_view(*c)));
                return false;
            }
            j = j + 1;
        }
        i = i + 1;
    }
    true
}

} // verus!

verus! {

/// An interface that clap accepts comes from a configuration that names each group
/// once, and each command of a group once.
pub proof fn law_accepted_names_distinct(conf: JsonConf)
    requires
        clap_accepts(conf_tree(conf)),
    ensures
        distinct_names(conf),
{
    let t = conf_tree(conf);
    let groups = conf.command@;
    let names = node_names(t.groups.map_values(|g: (NodeView, Seq<NodeView>)| g.0));
    assert forall|i: int, j: int| 0 <= i < j < groups.len() implies #[trigger] keyed(groups)[i].0
        != #[trigger] keyed(groups)[j].0 by {
        assert(names[i] != names[j]);
        assert(names[i] == groups[i].0@);
        assert(names[j] == groups[j].0@);
    }
    assert forall|i: int| 0 <= i < groups.len() implies distinct_keys(keyed(#[trigger] groups[i].1@)) by {
        let level = t.groups[i];
        assert(level == group_tree(groups[i]));
        assert(node_accepted(t.groups[i].0));
        let inner = node_names(level.1);
        let cmds = groups[i].1@;
        assert forall|a: int, b: int| 0 <= a < b < cmds.len() implies #[trigger] keyed(cmds)[a].0
            != #[trigger] keyed(cmds)[b].0 by {
            assert(inner[a] != inner[b]);
            assert(inner[a] == cmds[a].0@);
            assert(inner[b] == cmds[b].0@);
        }
    }
}

/// Each argument of a command is its parameter: one argument per parameter, in
/// order, named by the parameter's key, with its help text, and required exactly
/// when the parameter is, whatever its default value.
pub proof fn law_params_args(ps: Seq<CmdParam>)
    ensures
        params_args(ps).len() == ps.len(),
        forall|k: int|
            0 <= k < ps.len() ==> #[trigger] params_args(ps)[k] == (ps[k].key@, ps[k].help@, ps[k].required),
{
}

/// In the interface of a configuration, group `i` is a command named after the
/// group that takes no arguments and no subcommand other than its configured ones
/// (unknown subcommands are not let through); under it, command `j` is named after
/// the configured command, takes no subcommands at all, and has one argument per
/// parameter: its key, its help text, and required exactly when the parameter is.
/// Only the root lets unknown subcommands through.
pub proof fn law_interface_shape(conf: JsonConf, i: int, j: int, k: int)
    requires
        0 <= i < conf.command@.len(),
    ensures
        conf_tree(conf).root.allow_external_subcommands,
        conf_tree(conf).groups.len() == conf.command@.len(),
        conf_tree(conf).groups[i].0.name == conf.command@[i].0@,
        !conf_tree(conf).groups[i].0.allow_external_subcommands,
        conf_tree(conf).groups[i].0.args.len() == 0,
        conf_tree(conf).groups[i].1.len() == conf.command@[i].1@.len(),
        0 <= j < conf.command@[i].1@.len() ==> {
            let leaf = conf_tree(conf).groups[i].1[j];
            let ps = params_of(conf.command@[i].1@[j].1);
            &&& leaf.name == conf.command@[i].1@[j].0@
            &&& !leaf.allow_external_subcommands
            &&& leaf.args.len() == ps.len()
            &&& (0 <= k < ps.len() ==> leaf.args[k] == (ps[k].key@, ps[k].help@, ps[k].required))
        },
{
    if 0 <= j < conf.command@[i].1@.len() {
        law_params_args(params_of(conf.command@[i].1@[j].1));
    }
}

} // verus!
