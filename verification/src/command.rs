//! What the shell does with a command line: it splits the line into words, and
//! for the command the words name it decides which lines to print and whether to
//! fetch a reply from the server.

use vstd::prelude::*;
use crate::assoc::{keyed, pairs_view, lookup, has_key, get_text, keys_of, key_index, find_key};
use crate::json_struct::{JsonConf, command_of};
use crate::clap_cli::{CommandDef, ArgDef, TreeView, tree_view, conf_tree, three_levels, clap_accepts, clap_accepts_cli, cli};
use crate::text::{owned, str_eq, trimmed, trim_white};

verus! {

/// `shlex::split`: the words of a line as a POSIX shell splits them, honouring
/// quotes and escapes; nothing when the quoting is invalid. Named, not stated.
pub uninterp spec fn shell_words(line: Seq<char>) -> Option<Seq<Seq<char>>>;

/// `shlex::split` on `line`: its result is the named `shell_words` of the line.
#[verifier::external_body]
fn split_line(line: &str) -> (words: Option<Vec<String>>)
    ensures
        match words {
            Some(w) => shell_words(line@) == Some(w.deep_view()),
            None => shell_words(line@) is None,
        },
{
    shlex::split(line)
}

/// `format!("{:?}", s)` for a string: the string quoted and escaped as Rust's
/// `Debug` writes it. Named, not stated.
pub uninterp spec fn debug_quoted(s: Seq<char>) -> Seq<char>;

/// `Debug` formatting of a `str`: its result is the named `debug_quoted` of `s`.
#[verifier::external_body]
fn debug_text(s: &str) -> (r: String)
    ensures
        r@ == debug_quoted(s@),
{
    format!("{:?}", s)
}

/// `format!("{:?}", path)` for a path made of the text `s`: the text quoted and
/// escaped as Rust's `Debug` writes an OS string. Named, not stated.
pub uninterp spec fn debug_os_quoted(s: Seq<char>) -> Seq<char>;

/// `Debug` formatting of `std::path::Path::new(s)`, the same as that of the OS
/// string holding `s`: its result is the named `debug_os_quoted` of `s`.
#[verifier::external_body]
fn debug_os_text(s: &str) -> (r: String)
    ensures
        r@ == debug_os_quoted(s@),
{
    format!("{:?}", std::path::Path::new(s))
}

/// The words of a command line, or the error shown for invalid quoting.
pub open spec fn arguments_from(words: Option<Seq<Seq<char>>>) -> Result<Seq<Seq<char>>, Seq<char>> {
    match words {
        Some(w) => Ok(w),
        None => Err("error: Invalid quoting"@),
    }
}

/// The words of a line as the shell split them, or the error for invalid quoting.
pub fn line_arguments(words: Option<Vec<String>>) -> (r: Result<Vec<String>, String>)
    ensures
        match (r, words) {
            (Ok(a), Some(w)) => a == w,
            (Err(e), None) => e@ == "error: Invalid quoting"@,
            _ => false,
        },
{
    match words {
        Some(w) => Ok(w),
        None => Err(owned("error: Invalid quoting")),
    }
}

/// The words of `line`, split as a shell splits them.
pub fn split_arguments(line: &str) -> (r: Result<Vec<String>, String>)
    ensures
        match r {
            Ok(a) => arguments_from(shell_words(line@)) == Ok::<Seq<Seq<char>>, Seq<char>>(
                a.deep_view(),
            ),
            Err(e) => arguments_from(shell_words(line@)) == Err::<Seq<Seq<char>>, Seq<char>>(e@),
        },
{
    line_arguments(split_line(line))
}

/// A parsed command line: the command named first and its argument values, the
/// subcommand under it (if any) with its argument values, and the words passed to
/// a command the interface does not know. Each value is given by argument id; a
/// value that cannot be read as text is none.
#[derive(Clone, Debug, PartialEq, Eq)]
pub struct Route {
    pub name: String,
    pub values: Vec<(String, Option<String>)>,
    pub sub: Option<(String, Vec<(String, Option<String>)>)>,
    pub external: Vec<String>,
}

/// A parsed command line taken by its texts.
pub struct RouteView {
    pub name: Seq<char>,
    pub values: Seq<(Seq<char>, Option<Seq<char>>)>,
    pub sub: Option<(Seq<char>, Seq<(Seq<char>, Option<Seq<char>>)>)>,
    pub external: Seq<Seq<char>>,
}

/// Argument values taken by their texts.
pub open spec fn raw_view(raw: Seq<(String, Option<String>)>) -> Seq<(Seq<char>, Option<Seq<char>>)> {
    raw.map_values(|e: (String, Option<String>)| (e.0@, opt_view(e.1)))
}

/// A parsed command line taken by its texts.
pub open spec fn route_view(r: Route) -> RouteView {
    RouteView {
        name: r.name@,
        values: raw_view(r.values@),
        sub: match r.sub {
            Some(s) => Some((s.0@, raw_view(s.1@))),
            None => None,
        },
        external: r.external.deep_view(),
    }
}

/// The values that are text, in order, each with its argument id.
pub open spec fn text_values(raw: Seq<(Seq<char>, Option<Seq<char>>)>) -> Seq<(Seq<char>, Seq<char>)>
    decreases raw.len(),
{
    if raw.len() == 0 {
        Seq::empty()
    } else {
        let rest = text_values(raw.drop_last());
        match raw.last().1 {
            Some(v) => rest.push((raw.last().0, v)),
            None => rest,
        }
    }
}

/// The name of the subcommand, if any.
pub open spec fn sub_name(r: RouteView) -> Option<Seq<char>> {
    match r.sub {
        Some(s) => Some(s.0),
        None => None,
    }
}

/// The text values of the subcommand; none when there is no subcommand.
pub open spec fn inner_values(r: RouteView) -> Seq<(Seq<char>, Seq<char>)> {
    match r.sub {
        Some(s) => text_values(s.1),
        None => Seq::empty(),
    }
}

/// What remains to be done after the lines are printed.
#[derive(Clone, Debug, PartialEq, Eq)]
pub enum Action {
    /// Nothing.
    Done,
    /// Fetch the reply of command `command` of group `group`, sending `params` on
    /// top of the command's defaults, and show it.
    Fetch { group: String, command: String, params: Vec<(String, String)> },
    /// Stop the shell with this message.
    Fail(String),
}

/// The lines to print for a command line, then what to do.
#[derive(Clone, Debug, PartialEq, Eq)]
pub struct Step {
    pub lines: Vec<String>,
    pub action: Action,
}

/// An action taken by its texts.
pub enum Outcome {
    Done,
    Fetch(Seq<char>, Seq<char>, Seq<(Seq<char>, Seq<char>)>),
    Fail(Seq<char>),
}

/// An action taken by its texts.
pub open spec fn outcome_of(a: Action) -> Outcome {
    match a {
        Action::Done => Outcome::Done,
        Action::Fetch { group, command, params } => Outcome::Fetch(
            group@,
            command@,
            pairs_view(params@),
        ),
        Action::Fail(m) => Outcome::Fail(m@),
    }
}

/// A step taken by its texts.
pub open spec fn step_of(s: Step) -> (Seq<Seq<char>>, Outcome) {
    (s.lines.deep_view(), outcome_of(s.action))
}

/// An optional string taken by its characters.
pub open spec fn opt_view(o: Option<String>) -> Option<Seq<char>> {
    match o {
        Some(s) => Some(s@),
        None => None,
    }
}

/// The texts joined with `sep` between them.
pub open spec fn joined_with(items: Seq<Seq<char>>, sep: Seq<char>) -> Seq<char>
    decreases items.len(),
{
    if items.len() == 0 {
        Seq::empty()
    } else if items.len() == 1 {
        items[0]
    } else {
        joined_with(items.drop_last(), sep) + sep + items.last()
    }
}

/// `Debug` of a list whose items are written as `quoted`: `[`, the items
/// separated by `, `, `]`.
pub open spec fn debug_list(quoted: Seq<Seq<char>>) -> Seq<char> {
    "["@ + joined_with(quoted, ", "@) + "]"@
}

/// `Debug` of an optional string: `Some(` and the quoted string and `)`, or `None`.
pub open spec fn debug_option(o: Option<Seq<char>>) -> Seq<char> {
    match o {
        Some(s) => "Some("@ + debug_quoted(s) + ")"@,
        None => "None"@,
    }
}

/// The message of `unreachable!()`.
pub open spec fn unreachable_text() -> Seq<char> {
    "internal error: entered unreachable code"@
}

/// The message of `assert!(false)`.
pub open spec fn assert_text() -> Seq<char> {
    "assertion failed: false"@
}

/// The line printed when a command group is not configured.
pub open spec fn notice_of(conf: JsonConf, parent: Seq<char>, sub: Seq<char>) -> Seq<Seq<char>> {
    if has_key(keyed(conf.command@), parent) {
        Seq::empty()
    } else {
        seq!["please add config, "@ + parent + ", "@ + sub]
    }
}

/// The data id, group and namespace given on a command line, when all three are.
pub open spec fn common_args(values: Seq<(Seq<char>, Seq<char>)>) -> Option<
    (Seq<char>, Seq<char>, Seq<char>),
> {
    match (lookup(values, "DataId"@), lookup(values, "Group"@), lookup(values, "Namespace"@)) {
        (Some(d), Some(g), Some(n)) => Some((d, g, n)),
        _ => None,
    }
}

/// The request parameters made of a data id, group and namespace.
pub open spec fn config_params(args: (Seq<char>, Seq<char>, Seq<char>)) -> Seq<
    (Seq<char>, Seq<char>),
> {
    seq![("dataId"@, args.0), ("group"@, args.1), ("tenant"@, args.2)]
}

/// The line that echoes a data id, group and namespace.
pub open spec fn echo_line(args: (Seq<char>, Seq<char>, Seq<char>)) -> Seq<char> {
    args.0 + " "@ + args.1 + " "@ + args.2
}

/// Echoing the common arguments, or failing when one is missing.
pub open spec fn echo_common(values: Seq<(Seq<char>, Seq<char>)>) -> (Seq<Seq<char>>, Outcome) {
    match common_args(values) {
        Some(a) => (seq![echo_line(a)], Outcome::Done),
        None => (Seq::empty(), Outcome::Fail("required"@)),
    }
}

/// Fetching the reply of a configured command with `params`, after printing the
/// notice of a missing group; failing when the command is not configured.
pub open spec fn fetch_step(
    conf: JsonConf,
    parent: Seq<char>,
    sub: Seq<char>,
    params: Option<Seq<(Seq<char>, Seq<char>)>>,
) -> (Seq<Seq<char>>, Outcome) {
    let notice = notice_of(conf, parent, sub);
    if command_of(conf, parent, sub) is None {
        (notice, Outcome::Fail(assert_text()))
    } else {
        match params {
            Some(p) => (notice, Outcome::Fetch(parent, sub, p)),
            None => (notice, Outcome::Fail("required"@)),
        }
    }
}

/// The request parameters of a command that sends the common arguments.
pub open spec fn common_params(values: Seq<(Seq<char>, Seq<char>)>) -> Option<
    Seq<(Seq<char>, Seq<char>)>,
> {
    match common_args(values) {
        Some(a) => Some(config_params(a)),
        None => None,
    }
}

/// What the `config` group does for its subcommand.
pub open spec fn config_step(conf: JsonConf, sub: Option<Seq<char>>, values: Seq<(Seq<char>, Seq<char>)>) -> (
    Seq<Seq<char>>,
    Outcome,
) {
    if sub == Some("list"@) {
        (seq!["This cmd will be support in the feture!"@], Outcome::Done)
    } else if sub == Some("get"@) {
        fetch_step(conf, "config"@, "get"@, common_params(values))
    } else if sub == Some("update"@) {
        echo_common(values)
    } else {
        (Seq::empty(), Outcome::Fail(unreachable_text()))
    }
}

/// What the `namespace` group does for its subcommand.
pub open spec fn namespace_step(
    conf: JsonConf,
    sub: Option<Seq<char>>,
    values: Seq<(Seq<char>, Seq<char>)>,
) -> (Seq<Seq<char>>, Outcome) {
    if sub == Some("list"@) {
        fetch_step(conf, "namespace"@, "list"@, Some(Seq::empty()))
    } else if sub == Some("create"@) {
        fetch_step(conf, "namespace"@, "create"@, common_params(values))
    } else if sub == Some("update"@) || sub == Some("del"@) {
        echo_common(values)
    } else {
        (Seq::empty(), Outcome::Fail(unreachable_text()))
    }
}

/// The base, head and path a diff compares: a missing path is taken from the
/// head, and failing that from the base; then missing parts get their defaults.
pub open spec fn diff_targets(
    base: Option<Seq<char>>,
    head: Option<Seq<char>>,
    path: Option<Seq<char>>,
) -> (Seq<char>, Seq<char>, Seq<char>) {
    let (b, h, p) = if path is Some {
        (base, head, path)
    } else if head is Some {
        (base, None, head)
    } else {
        (None, None, base)
    };
    (
        match b {
            Some(x) => x,
            None => "stage"@,
        },
        match h {
            Some(x) => x,
            None => "worktree"@,
        },
        match p {
            Some(x) => x,
            None => Seq::empty(),
        },
    )
}

/// What `diff` does.
pub open spec fn diff_step(values: Seq<(Seq<char>, Seq<char>)>) -> (Seq<Seq<char>>, Outcome) {
    match lookup(values, "color"@) {
        None => (Seq::empty(), Outcome::Fail("defaulted in clap"@)),
        Some(color) => {
            let t = diff_targets(
                lookup(values, "base"@),
                lookup(values, "head"@),
                lookup(values, "path"@),
            );
            (
                seq![
                    "Diffing "@ + t.0 + ".."@ + t.1 + " "@ + t.2 + " (color="@ + color + ")"@,
                ],
                Outcome::Done,
            )
        },
    }
}

/// What `push` does.
pub open spec fn push_step(values: Seq<(Seq<char>, Seq<char>)>) -> (Seq<Seq<char>>, Outcome) {
    match lookup(values, "REMOTE"@) {
        None => (Seq::empty(), Outcome::Fail("required"@)),
        Some(remote) => (seq!["Pushing to "@ + remote], Outcome::Done),
    }
}

/// What `add` does: it reads `PATH` as paths. An argument `PATH` of the command is
/// text, which cannot be read as paths, so reading it stops: clap's typed read
/// panics with a message that starts as the one here (the rest names the two types
/// by ids that differ from build to build). Without one there are no paths.
pub open spec fn add_step(values: Seq<(Seq<char>, Option<Seq<char>>)>) -> (Seq<Seq<char>>, Outcome) {
    if key_index(keys_of(values), "PATH"@) is Some {
        (Seq::empty(), Outcome::Fail("Mismatch between definition and access of `PATH`"@))
    } else {
        (seq!["Adding []"@], Outcome::Done)
    }
}

/// What `stash` does for its subcommand, `push` when there is none.
pub open spec fn stash_step(sub: Option<Seq<char>>, values: Seq<(Seq<char>, Seq<char>)>) -> (
    Seq<Seq<char>>,
    Outcome,
) {
    let name = match sub {
        Some(s) => s,
        None => "push"@,
    };
    if name == "apply"@ {
        (seq!["Applying "@ + debug_option(lookup(values, "STASH"@))], Outcome::Done)
    } else if name == "pop"@ {
        (seq!["Popping "@ + debug_option(lookup(values, "STASH"@))], Outcome::Done)
    } else if name == "push"@ {
        (seq!["Pushing "@ + debug_option(lookup(values, "message"@))], Outcome::Done)
    } else {
        (
            Seq::empty(),
            Outcome::Fail(unreachable_text() + ": Unsupported subcommand `"@ + name + "`"@),
        )
    }
}

/// What the shell does for a parsed command line.
pub open spec fn decision(route: RouteView, conf: JsonConf) -> (Seq<Seq<char>>, Outcome) {
    let name = route.name;
    let sub = sub_name(route);
    let outer = text_values(route.values);
    let inner = inner_values(route);
    if name == "config"@ {
        config_step(conf, sub, inner)
    } else if name == "namespace"@ {
        namespace_step(conf, sub, inner)
    } else if name == "diff"@ {
        diff_step(outer)
    } else if name == "push"@ {
        push_step(outer)
    } else if name == "add"@ {
        add_step(route.values)
    } else if name == "stash"@ {
        stash_step(sub, if route.sub is Some { inner } else { outer })
    } else {
        (
            seq![
                "Calling out to "@ + debug_quoted(name) + " with "@ + debug_list(
                    route.external.map_values(|w: Seq<char>| debug_os_quoted(w)),
                ),
            ],
            Outcome::Done,
        )
    }
}

/// `Debug` of a list whose items are already written as `quoted`.
pub fn debug_list_of(quoted: &Vec<String>) -> (r: String)
    ensures
        r@ == "["@ + joined_with(quoted.deep_view(), ", "@) + "]"@,
{
    let ghost qv = quoted.deep_view();
    let mut body = String::new();
    let mut i: usize = 0;
    while i < quoted.len()
        invariant
            i <= quoted@.len(),
            qv == quoted.deep_view(),
            body@ == joined_with(qv.take(i as int), ", "@),
        decreases quoted@.len() - i,
    {
        if i > 0 {
            body.append(", ");
        }
        body.append(quoted[i].as_str());
        assert(qv.take(i + 1).drop_last() =~= qv.take(i as int));
        assert(qv.take(i + 1).last() == quoted@[i as int]@);
        i = i + 1;
    }
    assert(qv.take(i as int) =~= qv);
    let mut r = owned("[");
    r.append(body.as_str());
    r.append("]");
    r
}

/// `Debug` of an optional string whose quoted form is `quoted`.
pub fn debug_option_of(quoted: Option<String>) -> (r: String)
    ensures
        r@ == match quoted {
            Some(q) => "Some("@ + q@ + ")"@,
            None => "None"@,
        },
{
    match quoted {
        Some(q) => {
            let mut r = owned("Some(");
            r.append(q.as_str());
            r.append(")");
            r
        },
        None => owned("None"),
    }
}

/// `Debug` of an optional string.
fn debug_option_text(value: Option<&String>) -> (r: String)
    ensures
        r@ == debug_option(
            match value {
                Some(v) => Some(v@),
                None => None,
            },
        ),
{
    match value {
        Some(v) => debug_option_of(Some(debug_text(v.as_str()))),
        None => debug_option_of(None),
    }
}

/// A step that prints `lines` and then does `action`.
fn step(lines: Vec<String>, action: Action) -> (s: Step)
    ensures
        s.lines == lines,
        s.action == action,
{
    Step { lines, action }
}

/// A step that prints one line and is done.
fn say(line: String) -> (s: Step)
    ensures
        step_of(s) == (seq![line@], Outcome::Done),
{
    let mut lines: Vec<String> = Vec::new();
    let ghost lv = line@;
    lines.push(line);
    assert(lines.deep_view() =~= seq![lv]);
    step(lines, Action::Done)
}

/// A step that prints nothing and stops with `message`.
fn fail(message: String) -> (s: Step)
    ensures
        step_of(s) == (Seq::<Seq<char>>::empty(), Outcome::Fail(message@)),
{
    let lines: Vec<String> = Vec::new();
    assert(lines.deep_view() =~= Seq::<Seq<char>>::empty());
    step(lines, Action::Fail(message))
}

/// The message of `unreachable!()`.
fn unreachable_message() -> (m: String)
    ensures
        m@ == unreachable_text(),
{
    owned("internal error: entered unreachable code")
}

/// Whether the data id, group and namespace are all given on a command line.
pub fn has_config_common_args(values: &Vec<(String, String)>) -> (r: bool)
    ensures
        r == common_args(pairs_view(values@)) is Some,
{
    get_text(values, "DataId").is_some() && get_text(values, "Group").is_some() && get_text(
        values,
        "Namespace",
    ).is_some()
}

/// The data id, group and namespace given on a command line, in this order. All
/// three must be given.
pub fn get_config_common_args(values: &Vec<(String, String)>) -> (r: (String, String, String))
    requires
        common_args(pairs_view(values@)) is Some,
    ensures
        common_args(pairs_view(values@)) == Some((r.0@, r.1@, r.2@)),
{
    match (get_text(values, "DataId"), get_text(values, "Group"), get_text(values, "Namespace")) {
        (Some(d), Some(g), Some(n)) => (d.clone(), g.clone(), n.clone()),
        _ => {
            proof {
                assert(false);
            }
            (String::new(), String::new(), String::new())
        },
    }
}

/// The data id, group and namespace given on a command line.
fn common_args_of(values: &Vec<(String, String)>) -> (r: Option<(String, String, String)>)
    ensures
        match r {
            Some(a) => common_args(pairs_view(values@)) == Some((a.0@, a.1@, a.2@)),
            None => common_args(pairs_view(values@)) is None,
        },
{
    if has_config_common_args(values) {
        Some(get_config_common_args(values))
    } else {
        None
    }
}

/// The request parameters made of the common arguments.
fn config_params_of(a: (String, String, String)) -> (p: Vec<(String, String)>)
    ensures
        pairs_view(p@) == config_params((a.0@, a.1@, a.2@)),
{
    let (d, g, n) = a;
    let mut p: Vec<(String, String)> = Vec::new();
    let ghost (dv, gv, nv) = (d@, g@, n@);
    p.push((owned("dataId"), d));
    p.push((owned("group"), g));
    p.push((owned("tenant"), n));
    assert(pairs_view(p@) =~= config_params((dv, gv, nv)));
    p
}

/// The request parameters of a command that sends the common arguments.
fn common_params_of(values: &Vec<(String, String)>) -> (r: Option<Vec<(String, String)>>)
    ensures
        match r {
            Some(p) => common_params(pairs_view(values@)) == Some(pairs_view(p@)),
            None => common_params(pairs_view(values@)) is None,
        },
{
    match common_args_of(values) {
        Some(a) => Some(config_params_of(a)),
        None => None,
    }
}

/// Echoing the common arguments, or failing when one is missing.
fn echo_common_of(values: &Vec<(String, String)>) -> (s: Step)
    ensures
        step_of(s) == echo_common(pairs_view(values@)),
{
    match common_args_of(values) {
        Some((d, g, n)) => {
            let mut line = d;
            line.append(" ");
            line.append(g.as_str());
            line.append(" ");
            line.append(n.as_str());
            say(line)
        },
        None => fail(owned("required")),
    }
}

/// The notice printed when group `parent` is not configured.
fn notice_lines(conf: &JsonConf, parent: &str, sub: &str) -> (lines: Vec<String>)
    ensures
        lines.deep_view() == notice_of(*conf, parent@, sub@),
{
    let mut lines: Vec<String> = Vec::new();
    if !conf.has_command(parent) {
        let mut line = owned("please add config, ");
        line.append(parent);
        line.append(", ");
        line.append(sub);
        let ghost lv = line@;
        lines.push(line);
        assert(lines.deep_view() =~= seq![lv]);
    } else {
        assert(lines.deep_view() =~= Seq::<Seq<char>>::empty());
    }
    lines
}

/// Fetching the reply of a configured command, or failing.
fn fetch_step_of(
    conf: &JsonConf,
    parent: &str,
    sub: &str,
    params: Option<Vec<(String, String)>>,
) -> (s: Step)
    ensures
        step_of(s) == fetch_step(
            *conf,
            parent@,
            sub@,
            match params {
                Some(p) => Some(pairs_view(p@)),
                None => None,
            },
        ),
{
    let lines = notice_lines(conf, parent, sub);
    if conf.find_cmd(parent, sub).is_none() {
        return step(lines, Action::Fail(owned("assertion failed: false")));
    }
    match params {
        Some(p) => step(lines, Action::Fetch { group: owned(parent), command: owned(sub), params: p }),
        None => step(lines, Action::Fail(owned("required"))),
    }
}

/// Whether an optional string is the text `t`.
fn is_text(o: &Option<String>, t: &str) -> (r: bool)
    ensures
        r == (opt_view(*o) == Some(t@)),
{
    match o {
        Some(s) => str_eq(s.as_str(), t),
        None => false,
    }
}

/// What the `config` group does.
fn config_step_of(conf: &JsonConf, sub: &Option<String>, values: &Vec<(String, String)>) -> (s: Step)
    ensures
        step_of(s) == config_step(*conf, opt_view(*sub), pairs_view(values@)),
{
    if is_text(sub, "list") {
        say(owned("This cmd will be support in the feture!"))
    } else if is_text(sub, "get") {
        fetch_step_of(conf, "config", "get", common_params_of(values))
    } else if is_text(sub, "update") {
        echo_common_of(values)
    } else {
        fail(unreachable_message())
    }
}

/// What the `namespace` group does.
fn namespace_step_of(conf: &JsonConf, sub: &Option<String>, values: &Vec<(String, String)>) -> (s: Step)
    ensures
        step_of(s) == namespace_step(*conf, opt_view(*sub), pairs_view(values@)),
{
    if is_text(sub, "list") {
        let none: Vec<(String, String)> = Vec::new();
        assert(pairs_view(none@) =~= Seq::<(Seq<char>, Seq<char>)>::empty());
        fetch_step_of(conf, "namespace", "list", Some(none))
    } else if is_text(sub, "create") {
        fetch_step_of(conf, "namespace", "create", common_params_of(values))
    } else if is_text(sub, "update") || is_text(sub, "del") {
        echo_common_of(values)
    } else {
        fail(unreachable_message())
    }
}

/// What `diff` does.
fn diff_step_of(values: &Vec<(String, String)>) -> (s: Step)
    ensures
        step_of(s) == diff_step(pairs_view(values@)),
{
    let color = match get_text(values, "color") {
        Some(c) => c,
        None => {
            return fail(owned("defaulted in clap"));
        },
    };
    let mut base = get_text(values, "base");
    let mut head = get_text(values, "head");
    let mut path = get_text(values, "path");
    if path.is_none() {
        path = head;
        head = None;
        if path.is_none() {
            path = base;
            base = None;
        }
    }
    let base_text = match base {
        Some(b) => b.clone(),
        None => owned("stage"),
    };
    let head_text = match head {
        Some(h) => h.clone(),
        None => owned("worktree"),
    };
    let path_text = match path {
        Some(p) => p.clone(),
        None => String::new(),
    };
    let mut line = owned("Diffing ");
    line.append(base_text.as_str());
    line.append("..");
    line.append(head_text.as_str());
    line.append(" ");
    line.append(path_text.as_str());
    line.append(" (color=");
    line.append(color.as_str());
    line.append(")");
    say(line)
}

/// What `push` does.
fn push_step_of(values: &Vec<(String, String)>) -> (s: Step)
    ensures
        step_of(s) == push_step(pairs_view(values@)),
{
    match get_text(values, "REMOTE") {
        None => fail(owned("required")),
        Some(remote) => {
            let mut line = owned("Pushing to ");
            line.append(remote.as_str());
            say(line)
        },
    }
}

/// What `add` does.
fn add_step_of(values: &Vec<(String, Option<String>)>) -> (s: Step)
    ensures
        step_of(s) == add_step(raw_view(values@)),
{
    proof {
        assert(keys_of(keyed(values@)) =~= keys_of(raw_view(values@)));
    }
    if find_key(values, "PATH").is_some() {
        fail(owned("Mismatch between definition and access of `PATH`"))
    } else {
        say(owned("Adding []"))
    }
}

/// The values that are text, in order, each with its argument id.
pub fn text_values_of(raw: &Vec<(String, Option<String>)>) -> (r: Vec<(String, String)>)
    ensures
        pairs_view(r@) == text_values(raw_view(raw@)),
{
    let ghost rv = raw_view(raw@);
    let mut r: Vec<(String, String)> = Vec::new();
    let mut i: usize = 0;
    assert(pairs_view(r@) =~= Seq::<(Seq<char>, Seq<char>)>::empty());
    while i < raw.len()
        invariant
            i <= raw@.len(),
            rv == raw_view(raw@),
            pairs_view(r@) == text_values(rv.take(i as int)),
        decreases raw@.len() - i,
    {
        assert(rv.take(i + 1).drop_last() =~= rv.take(i as int));
        assert(rv.take(i + 1).last() == rv[i as int]);
        match &raw[i].1 {
            Some(v) => {
                let ghost before = r@;
                let k = raw[i].0.clone();
                let vc = v.clone();
                r.push((k, vc));
                assert(pairs_view(r@) =~= pairs_view(before).push((k@, vc@)));
            },
            None => {},
        }
        i = i + 1;
    }
    assert(rv.take(i as int) =~= rv);
    r
}

/// What `stash` does.
fn stash_step_of(sub: &Option<String>, values: &Vec<(String, String)>) -> (s: Step)
    ensures
        step_of(s) == stash_step(opt_view(*sub), pairs_view(values@)),
{
    let name = match sub {
        Some(s) => s.clone(),
        None => owned("push"),
    };
    if str_eq(name.as_str(), "apply") {
        let mut line = owned("Applying ");
        line.append(debug_option_text(get_text(values, "STASH")).as_str());
        say(line)
    } else if str_eq(name.as_str(), "pop") {
        let mut line = owned("Popping ");
        line.append(debug_option_text(get_text(values, "STASH")).as_str());
        say(line)
    } else if str_eq(name.as_str(), "push") {
        let mut line = owned("Pushing ");
        line.append(debug_option_text(get_text(values, "message")).as_str());
        say(line)
    } else {
        let mut m = unreachable_message();
        m.append(": Unsupported subcommand `");
        m.append(name.as_str());
        m.append("`");
        fail(m)
    }
}

/// What a command the interface does not know does: it is reported with its words.
fn external_step_of(name: &String, external: &Vec<String>) -> (s: Step)
    ensures
        step_of(s) == (
            seq![
                "Calling out to "@ + debug_quoted(name@) + " with "@ + debug_list(
                    external.deep_view().map_values(|w: Seq<char>| debug_os_quoted(w)),
                ),
            ],
            Outcome::Done,
        ),
{
    let ghost want = external.deep_view().map_values(|w: Seq<char>| debug_os_quoted(w));
    let mut quoted: Vec<String> = Vec::new();
    let mut i: usize = 0;
    while i < external.len()
        invariant
            i <= external@.len(),
            want == external.deep_view().map_values(|w: Seq<char>| debug_os_quoted(w)),
            quoted.deep_view() == want.take(i as int),
            quoted@.len() == i,
        decreases external@.len() - i,
    {
        let q = debug_os_text(external[i].as_str());
        let ghost before = quoted@;
        quoted.push(q);
        assert(quoted@ == before.push(q));
        assert forall|k: int| 0 <= k < i + 1 implies #[trigger] quoted.deep_view()[k] == want.take(
            i + 1,
        )[k] by {
            if k < i {
                assert(quoted@[k] == before[k]);
            }
        }
        assert(quoted.deep_view() =~= want.take(i + 1));
        i = i + 1;
    }
    assert(want.take(i as int) =~= want);
    let mut line = owned("Calling out to ");
    line.append(debug_text(name.as_str()).as_str());
    line.append(" with ");
    line.append(debug_list_of(&quoted).as_str());
    say(line)
}

/// What the shell does for a parsed command line: the lines to print, then
/// nothing more, a reply to fetch and show, or a stop with a message.
pub fn decide(route: &Route, config: &JsonConf) -> (s: Step)
    ensures
        step_of(s) == decision(route_view(*route), *config),
{
    let name = route.name.as_str();
    let outer = text_values_of(&route.values);
    let (sub, inner) = match &route.sub {
        Some((s, v)) => (Some(s.clone()), text_values_of(v)),
        None => {
            let none: Vec<(String, String)> = Vec::new();
            assert(pairs_view(none@) =~= Seq::<(Seq<char>, Seq<char>)>::empty());
            (None, none)
        },
    };
    assert(opt_view(sub) == sub_name(route_view(*route)));
    assert(pairs_view(inner@) == inner_values(route_view(*route)));
    if str_eq(name, "config") {
        config_step_of(config, &sub, &inner)
    } else if str_eq(name, "namespace") {
        namespace_step_of(config, &sub, &inner)
    } else if str_eq(name, "diff") {
        diff_step_of(&outer)
    } else if str_eq(name, "push") {
        push_step_of(&outer)
    } else if str_eq(name, "add") {
        add_step_of(&route.values)
    } else if str_eq(name, "stash") {
        if route.sub.is_some() {
            stash_step_of(&sub, &inner)
        } else {
            stash_step_of(&sub, &outer)
        }
    } else {
        external_step_of(&route.name, &route.external)
    }
}

/// The shell only ever fetches a reply for a command that the configuration has.
pub proof fn law_fetch_is_configured(route: RouteView, conf: JsonConf)
    ensures
        decision(route, conf).1 matches Outcome::Fetch(group, command, _) ==> command_of(
            conf,
            group,
            command,
        ) is Some,
{
}

/// Nothing is printed before a fetch: the notice of a missing group only comes
/// with a failure.
pub proof fn law_nothing_printed_before_fetch(route: RouteView, conf: JsonConf)
    ensures
        decision(route, conf).1 is Fetch ==> decision(route, conf).0.len() == 0,
{
}

} // verus!

verus! {

/// The command of an input line: the line without surrounding white space, or
/// nothing when no text remains.
pub fn command_line(line: &str) -> (r: Option<&str>)
    ensures
        match r {
            Some(l) => l@ == trimmed(line@) && l@.len() > 0,
            None => trimmed(line@).len() == 0,
        },
{
    let l = trim_white(line);
    if l.is_empty() {
        None
    } else {
        Some(l)
    }
}

#[verifier::external_type_specification]
#[verifier::external_body]
pub struct ExClapCommand(clap::Command);

#[verifier::external_type_specification]
#[verifier::external_body]
pub struct ExClapArg(clap::Arg);

#[verifier::external_type_specification]
#[verifier::external_body]
pub struct ExClapArgMatches(clap::ArgMatches);

/// clap's argument for `a`, converted field by field through `clap::Arg::new`,
/// `Arg::help` and `Arg::required`. Nothing is stated of clap's value.
#[verifier::external_body]
fn clap_arg(a: &ArgDef) -> clap::Arg {
    clap::Arg::new(a.id.clone()).help(a.help.clone()).required(a.required)
}

/// clap's command for `c` and its subcommands, converted field by field through
/// `clap::Command`'s builder methods. Nothing is stated of clap's value.
#[verifier::external_body]
fn clap_command(c: &CommandDef) -> clap::Command {
    let cmd = clap::Command::new(c.name.clone())
        .multicall(c.multicall)
        .subcommand_required(c.subcommand_required)
        .arg_required_else_help(c.arg_required_else_help)
        .allow_external_subcommands(c.allow_external_subcommands)
        .args(c.args.iter().map(clap_arg))
        .subcommands(c.subcommands.iter().map(clap_command));
    match &c.about {
        Some(a) => cmd.about(a.clone()),
        None => cmd,
    }
}

/// The values a command was given, one for each id of `ArgMatches::ids`, in that
/// order, each as `ArgMatches::try_get_one` reads it as text (none where it cannot).
/// Nothing is stated of it.
#[verifier::external_body]
fn matched_values(m: &clap::ArgMatches) -> Vec<(String, Option<String>)> {
    m.ids().map(|id| (id.as_str().to_string(), m.try_get_one::<String>(id.as_str()).ok().flatten().cloned())).collect()
}

/// The words a command unknown to the interface was given, read with
/// `ArgMatches::try_get_raw`, each converted lossily to text. Nothing is stated of it.
#[verifier::external_body]
fn external_words(m: &clap::ArgMatches) -> Vec<String> {
    match m.try_get_raw("") {
        Ok(Some(words)) => words.map(|w| w.to_string_lossy().into_owned()).collect(),
        _ => Vec::new(),
    }
}

/// The route of clap's matches, converted through `ArgMatches::subcommand` at two
/// levels: the command named and its values, the subcommand under it and its values,
/// and the words passed through. Nothing is stated of it.
#[verifier::external_body]
fn route_of(m: &clap::ArgMatches) -> Option<Route> {
    let (name, sub_matches) = m.subcommand()?;
    Some(Route {
        name: name.to_string(),
        values: matched_values(sub_matches),
        sub: sub_matches.subcommand().map(|(s, inner)| (s.to_string(), matched_values(inner))),
        external: external_words(sub_matches),
    })
}

/// What clap makes of the words `args` under the command tree `cli`: the route of
/// its matches (nothing when no subcommand was matched), or the text of its error.
/// Named, not stated.
pub uninterp spec fn clap_parse(cli: TreeView, args: Seq<Seq<char>>) -> Result<Option<RouteView>, Seq<char>>;

/// `clap::Command::try_get_matches_from` of the words `args` under the command tree
/// `cli`, with the matches read back as a route and an error by its `Display` text.
/// The result is the named `clap_parse` of the tree and the words; the first word
/// names the applet as a path, by the platform's rules for file stems. The tree must
/// be one that clap's own definition checks accept, which otherwise panic when debug
/// assertions are on.
#[verifier::external_body]
fn parse_route(cli: &CommandDef, args: &Vec<String>) -> (r: Result<Option<Route>, String>)
    requires
        three_levels(*cli),
        clap_accepts(tree_view(*cli)),
    ensures
        match r {
            Ok(Some(route)) => clap_parse(tree_view(*cli), args.deep_view()) == Ok::<
                Option<RouteView>,
                Seq<char>,
            >(Some(route_view(route))),
            Ok(None) => clap_parse(tree_view(*cli), args.deep_view()) == Ok::<
                Option<RouteView>,
                Seq<char>,
            >(None),
            Err(e) => clap_parse(tree_view(*cli), args.deep_view()) == Err::<
                Option<RouteView>,
                Seq<char>,
            >(e@),
        },
{
    match clap_command(cli).try_get_matches_from(args) {
        Ok(m) => Ok(route_of(&m)),
        Err(e) => Err(e.to_string()),
    }
}

/// Whether clap's definition checks accept the interface the configuration describes.
pub fn accepted_by_clap(config: &JsonConf) -> (r: bool)
    ensures
        r == clap_accepts(conf_tree(*config)),
{
    let c = cli(config);
    clap_accepts_cli(&c)
}

/// What the shell does with a command line: the line is split into words, the words
/// are parsed under the configured interface, and the parsed command is decided on.
/// A quoting error or a parse error comes back as its text; a parse that matches no
/// subcommand stops as `unreachable!()` does.
pub fn process_line(line: &str, config: &JsonConf) -> (r: Result<Step, String>)
    requires
        clap_accepts(conf_tree(*config)),
    ensures
        match arguments_from(shell_words(line@)) {
            Err(e) => r matches Err(m) && m@ == e,
            Ok(w) => match clap_parse(conf_tree(*config), w) {
                Err(e) => r matches Err(m) && m@ == e,
                Ok(None) => r matches Ok(s) && step_of(s) == (
                    Seq::<Seq<char>>::empty(),
                    Outcome::Fail(unreachable_text()),
                ),
                Ok(Some(rv)) => r matches Ok(s) && step_of(s) == decision(rv, *config),
            },
        },
{
    let args = match split_arguments(line) {
        Ok(a) => a,
        Err(e) => {
            return Err(e);
        },
    };
    let c = cli(config);
    match parse_route(&c, &args) {
        Err(e) => Err(e),
        Ok(None) => Ok(fail(unreachable_message())),
        Ok(Some(route)) => Ok(decide(&route, config)),
    }
}

} // verus!
