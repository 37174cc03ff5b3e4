//! The command configuration: which command groups exist, what each command
//! sends and how its reply is shown.

use vstd::prelude::*;
use crate::assoc::{keys_distinct, keyed, pairs_view, keys_of, lookup, put, has_key, find_key, get_value, get_text, put_pair, distinct_keys, lemma_lookup_put_same, lemma_lookup_put_other, lemma_put_distinct, lemma_key_index_unique};

verus! {

/// One parameter of a command.
#[derive(Clone, Debug, PartialEq, Eq)]
pub struct CmdParam {
    pub key: String,
    pub default_value: String,
    pub required: bool,
    pub help: String,
}

/// How a reply is shown: as a table of some of its fields, or as JSON.
#[derive(Clone, Debug, PartialEq, Eq)]
pub struct OutputFormat {
    pub show_type: String,
    pub table_show_names: Vec<String>,
    pub table_show_fields: Vec<String>,
}

/// Which request parameter a command input sets.
#[derive(Clone, Debug, PartialEq, Eq)]
pub struct SetValuMapping {
    pub param_name: String,
    pub cmd_input_name: String,
}

/// The configuration of one command.
#[derive(Clone, Debug, PartialEq, Eq)]
pub struct CmdConf {
    pub url_path: String,
    pub method: String,
    pub need_body: bool,
    pub params: Option<Vec<CmdParam>>,
    pub output_format: Option<OutputFormat>,
    pub recommend_cmds: Option<Vec<String>>,
    pub set_value_mapping: Option<Vec<SetValuMapping>>,
    pub data_path: Option<String>,
    pub about: Option<String>,
}

/// All commands, by group name and then by command name.
#[derive(Clone, Debug, PartialEq, Eq)]
pub struct JsonConf {
    pub command: Vec<(String, Vec<(String, CmdConf)>)>,
}

/// The values given on a command line, by argument name.
#[derive(Clone, Debug, PartialEq, Eq)]
pub struct ArgValues {
    pub values: Vec<(String, String)>,
}

/// What a flag is when the configuration leaves it out.
pub fn default_false() -> (r: bool)
    ensures
        r == false,
{
    false
}

/// What a text is when the configuration leaves it out.
pub fn empty_string() -> (r: String)
    ensures
        r@ == Seq::<char>::empty(),
{
    String::new()
}

/// The configuration of command `sub` in group `parent`, if both exist.
pub open spec fn command_of(conf: JsonConf, parent: Seq<char>, sub: Seq<char>) -> Option<CmdConf> {
    match lookup(keyed(conf.command@), parent) {
        Some(group) => lookup(keyed(group@), sub),
        None => None,
    }
}

/// The parameters of a command, none when it lists none.
pub open spec fn params_of(conf: CmdConf) -> Seq<CmdParam> {
    match conf.params {
        Some(ps) => ps@,
        None => Seq::empty(),
    }
}

/// The argument values of a command line gathered by parameter: each parameter's
/// key with the value given for it, written in the order of the parameters.
pub open spec fn args_data(params: Seq<CmdParam>, values: Seq<(Seq<char>, Seq<char>)>) -> Seq<
    (Seq<char>, Seq<char>),
>
    decreases params.len(),
{
    if params.len() == 0 {
        Seq::empty()
    } else {
        let key = params.last().key@;
        put(args_data(params.drop_last(), values), key, lookup(values, key).unwrap())
    }
}

/// Every parameter of the list has a value on the command line.
pub open spec fn all_given(params: Seq<CmdParam>, values: Seq<(Seq<char>, Seq<char>)>) -> bool {
    forall|i: int| 0 <= i < params.len() ==> has_key(values, #[trigger] params[i].key@)
}

impl CmdConf {
    /// The position of the first parameter that has no value on the command line.
    pub fn first_missing_param(&self, child_matches: &ArgValues) -> (r: Option<usize>)
        ensures
            match r {
                Some(i) => i < params_of(*self).len() && !has_key(
                    pairs_view(child_matches.values@),
                    params_of(*self)[i as int].key@,
                ) && all_given(params_of(*self).take(i as int), pairs_view(child_matches.values@)),
                None => all_given(params_of(*self), pairs_view(child_matches.values@)),
            },
    {
        let ghost vals = pairs_view(child_matches.values@);
        match &self.params {
            None => None,
            Some(params) => {
                let mut i: usize = 0;
                while i < params.len()
                    invariant
                        i <= params@.len(),
                        params_of(*self) == params@,
                        vals == pairs_view(child_matches.values@),
                        all_given(params@.take(i as int), vals),
                    decreases params@.len() - i,
                {
                    if get_text(&child_matches.values, params[i].key.as_str()).is_none() {
                        return Some(i);
                    }
                    assert(params@.take(i + 1) =~= params@.take(i as int).push(params@[i as int]));
                    i = i + 1;
                }
                assert(params@.take(i as int) =~= params@);
                None
            },
        }
    }

    /// The command line's value for each parameter of this command, keyed by the
    /// parameter's key. Every parameter must have a value.
    pub fn get_args_data(&self, child_matches: &ArgValues) -> (r: Result<Vec<(String, String)>, String>)
        requires
            all_given(params_of(*self), pairs_view(child_matches.values@)),
        ensures
            r is Ok,
            r matches Ok(map) ==> pairs_view(map@) == args_data(
                params_of(*self),
                pairs_view(child_matches.values@),
            ),
    {
        let mut map: Vec<(String, String)> = Vec::new();
        let ghost vals = pairs_view(child_matches.values@);
        assert(pairs_view(map@) =~= Seq::empty());
        match &self.params {
            None => {
                return Ok(map);
            },
            Some(params) => {
                let mut i: usize = 0;
                while i < params.len()
                    invariant
                        i <= params@.len(),
                        params_of(*self) == params@,
                        vals == pairs_view(child_matches.values@),
                        all_given(params@, vals),
                        pairs_view(map@) == args_data(params@.take(i as int), vals),
                    decreases params@.len() - i,
                {
                    let key = &params[i].key;
                    assert(has_key(vals, params@[i as int].key@));
                    proof {
                        crate::assoc::lemma_key_index(keys_of(vals), key@);
                    }
                    let value = match get_text(&child_matches.values, key.as_str()) {
                        Some(v) => v.clone(),
                        None => {
                            proof {
                                assert(false);
                            }
                            String::new()
                        },
                    };
                    proof {
                        assert(lookup(vals, key@) == Some(value@));
                        let taken = params@.take(i + 1);
                        assert(taken.drop_last() =~= params@.take(i as int));
                    }
                    put_pair(&mut map, key.clone(), value);
                    i = i + 1;
                }
                assert(params@.take(i as int) =~= params@);
                Ok(map)
            },
        }
    }
}

impl JsonConf {
    /// Whether the configuration has a command group named `parent`.
    pub fn has_command(&self, parent: &str) -> (r: bool)
        ensures
            r == has_key(keyed(self.command@), parent@),
    {
        find_key(&self.command, parent).is_some()
    }

    /// The configuration of command `sub` in group `parent`.
    pub fn find_cmd(&self, parent: &str, sub: &str) -> (r: Option<&CmdConf>)
        ensures
            match r {
                Some(c) => command_of(*self, parent@, sub@) == Some(*c),
                None => command_of(*self, parent@, sub@) is None,
            },
    {
        match get_value(&self.command, parent) {
            Some(sub_map) => get_value(sub_map, sub),
            None => None,
        }
    }
}


/// Every parameter of a command finds, among the gathered arguments, the value
/// given for it on the command line.
pub proof fn law_args_data_value(params: Seq<CmdParam>, values: Seq<(Seq<char>, Seq<char>)>, i: int)
    requires
        0 <= i < params.len(),
    ensures
        lookup(args_data(params, values), params[i].key@) == Some(
            lookup(values, params[i].key@).unwrap(),
        ),
    decreases params.len(),
{
    let key = params[i].key@;
    let last = params.last().key@;
    let rest = args_data(params.drop_last(), values);
    if last == key {
        lemma_lookup_put_same(rest, last, lookup(values, last).unwrap());
    } else {
        lemma_lookup_put_other(rest, last, lookup(values, last).unwrap(), key);
        assert(i < params.len() - 1);
        assert(params.drop_last()[i] == params[i]);
        law_args_data_value(params.drop_last(), values, i);
    }
}

/// The gathered arguments hold each parameter key once.
pub proof fn law_args_data_distinct(params: Seq<CmdParam>, values: Seq<(Seq<char>, Seq<char>)>)
    ensures
        distinct_keys(args_data(params, values)),
    decreases params.len(),
{
    if params.len() > 0 {
        law_args_data_distinct(params.drop_last(), values);
        let key = params.last().key@;
        lemma_put_distinct(args_data(params.drop_last(), values), key, lookup(values, key).unwrap());
    }
}

} // verus!

verus! {

/// The configuration names each group once, and within each group each command once,
/// as the maps it is read from do.
pub open spec fn distinct_names(conf: JsonConf) -> bool {
    &&& distinct_keys(keyed(conf.command@))
    &&& forall|i: int| 0 <= i < conf.command@.len() ==> distinct_keys(keyed(#[trigger] conf.command@[i].1@))
}

impl JsonConf {
    /// Whether the configuration names each group once, and within each group each
    /// command once.
    pub fn names_distinct(&self) -> (r: bool)
        ensures
            r == distinct_names(*self),
    {
        if !keys_distinct(&self.command) {
            return false;
        }
        let mut i: usize = 0;
        while i < self.command.len()
            invariant
                i <= self.command@.len(),
                forall|k: int| 0 <= k < i ==> distinct_keys(keyed(#[trigger] self.command@[k].1@)),
            decreases self.command@.len() - i,
        {
            if !keys_distinct(&self.command[i].1) {
                return false;
            }
            i = i + 1;
        }
        true
    }
}

/// In a first-match list with distinct keys, each entry is the one its key finds.
proof fn lemma_distinct_lookup<V>(entries: Seq<(String, V)>, i: int)
    requires
        distinct_keys(keyed(entries)),
        0 <= i < entries.len(),
    ensures
        lookup(keyed(entries), entries[i].0@) == Some(entries[i].1),
{
    let keys = keys_of(keyed(entries));
    assert forall|k: int| 0 <= k < i implies #[trigger] keys[k] != entries[i].0@ by {
        assert(keyed(entries)[k].0 != keyed(entries)[i].0);
    }
    lemma_key_index_unique(keys, entries[i].0@, i);
}

/// With distinct names, every configured command is found under its group and name.
pub proof fn law_find_cmd_at(conf: JsonConf, i: int, j: int)
    requires
        distinct_names(conf),
        0 <= i < conf.command@.len(),
        0 <= j < conf.command@[i].1@.len(),
    ensures
        command_of(conf, conf.command@[i].0@, conf.command@[i].1@[j].0@) == Some(
            conf.command@[i].1@[j].1,
        ),
{
    lemma_distinct_lookup(conf.command@, i);
    assert(distinct_keys(keyed(conf.command@[i].1@)));
    lemma_distinct_lookup(conf.command@[i].1@, j);
}

} // verus!
