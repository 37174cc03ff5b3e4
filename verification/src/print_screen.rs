//! What is shown for a reply: a table of some of its fields, or the reply as JSON.

use vstd::prelude::*;
use crate::json_struct::CmdConf;
use crate::json_value::{JsonValue, JsonNumber, member, index_member};
use crate::text::{split_on, split_text, strs_view, decimal, signed_decimal, u64_text, i64_text, owned, str_eq};

verus! {

/// Why a reply cannot be shown. Each variant stands for a point where showing the
/// reply stops with a panic (a failed `unwrap`, or `show_type error`), before
/// anything is printed.
#[derive(PartialEq, Eq, Structural, Debug)]
pub enum PrintFailure {
    /// The command has no output format.
    MissingOutputFormat,
    /// The output format names neither `table` nor `json`.
    UnknownShowType,
    /// A member named by the command's data path is missing from the reply.
    MissingDataField,
    /// The data to tabulate is not an array.
    NotAnArray,
}

/// A table: its column titles and, for each row, its cells.
#[derive(Clone, Debug, PartialEq, Eq)]
pub struct TableText {
    pub title: Vec<String>,
    pub rows: Vec<Vec<String>>,
}

/// How a reply is shown.
#[derive(Clone, Debug, PartialEq, Eq)]
pub enum Shown {
    Table(TableText),
    Json,
}

/// `\.`, the separator of a data path.
pub open spec fn path_separator() -> Seq<char> {
    seq!['\\', '.']
}

/// `true`
pub open spec fn true_text() -> Seq<char> {
    seq!['t', 'r', 'u', 'e']
}

/// `false`
pub open spec fn false_text() -> Seq<char> {
    seq!['f', 'a', 'l', 's', 'e']
}

/// `null`
pub open spec fn null_text() -> Seq<char> {
    seq!['n', 'u', 'l', 'l']
}

/// `table`
pub open spec fn table_type() -> Seq<char> {
    seq!['t', 'a', 'b', 'l', 'e']
}

/// `json`
pub open spec fn json_type() -> Seq<char> {
    seq!['j', 's', 'o', 'n']
}

/// The data a table is made of: the reply itself without a data path; with one,
/// the member of the reply named by the path's last piece, provided that every
/// piece names a member of the reply.
pub open spec fn table_data(resp: JsonValue, data_path: Option<String>) -> Option<JsonValue> {
    match data_path {
        None => Some(resp),
        Some(path) => {
            let pieces = split_on(path@, path_separator());
            if forall|i: int| 0 <= i < pieces.len() ==> (#[trigger] member(resp, pieces[i])) is Some {
                member(resp, pieces.last())
            } else {
                None
            }
        },
    }
}

/// The text of a table cell for a value: strings as they are, booleans, numbers in
/// decimal, `null`; nothing for arrays and objects.
pub open spec fn cell_text(v: JsonValue) -> Option<Seq<char>> {
    match v {
        JsonValue::Str(s) => Some(s@),
        JsonValue::Bool(b) => Some(if b { true_text() } else { false_text() }),
        JsonValue::Number(JsonNumber::PosInt(n)) => Some(decimal(n as nat)),
        JsonValue::Number(JsonNumber::NegInt(n)) => Some(signed_decimal(n as int)),
        JsonValue::Number(JsonNumber::Float(t)) => Some(t@),
        JsonValue::Null => Some(null_text()),
        _ => None,
    }
}

/// The cells of a row: for each field in order, the cell of the element's member of
/// that name (`null` where it has none), skipping fields whose value has no cell.
pub open spec fn row_cells(ele: JsonValue, fields: Seq<Seq<char>>) -> Seq<Seq<char>>
    decreases fields.len(),
{
    if fields.len() == 0 {
        Seq::empty()
    } else {
        let rest = row_cells(ele, fields.drop_last());
        match cell_text(index_member(ele, fields.last())) {
            Some(c) => rest.push(c),
            None => rest,
        }
    }
}

/// The table shown for a reply: titles and rows, or why there is none.
pub open spec fn table_of(resp: JsonValue, cmd: CmdConf) -> Result<
    (Seq<Seq<char>>, Seq<Seq<Seq<char>>>),
    PrintFailure,
> {
    match table_data(resp, cmd.data_path) {
        None => Err(PrintFailure::MissingDataField),
        Some(data) => match cmd.output_format {
            None => Err(PrintFailure::MissingOutputFormat),
            Some(format) => match data {
                JsonValue::Array(items) => Ok(
                    (
                        format.table_show_names.deep_view(),
                        items@.map_values(
                            |e: JsonValue| row_cells(e, format.table_show_fields.deep_view()),
                        ),
                    ),
                ),
                _ => Err(PrintFailure::NotAnArray),
            },
        },
    }
}

/// How a reply is shown for a command: by its output format's show type.
pub open spec fn shown_as(resp: JsonValue, cmd: CmdConf) -> Result<
    Option<(Seq<Seq<char>>, Seq<Seq<Seq<char>>>)>,
    PrintFailure,
> {
    match cmd.output_format {
        None => Err(PrintFailure::MissingOutputFormat),
        Some(format) => if format.show_type@ == table_type() {
            match table_of(resp, cmd) {
                Ok(t) => Ok(Some(t)),
                Err(e) => Err(e),
            }
        } else if format.show_type@ == json_type() {
            Ok(None)
        } else {
            Err(PrintFailure::UnknownShowType)
        },
    }
}

/// The text of a table cell for `v`, if it has one.
pub fn cell_of(v: &JsonValue) -> (r: Option<String>)
    ensures
        match r {
            Some(s) => cell_text(*v) == Some(s@),
            None => cell_text(*v) is None,
        },
{
    proof {
        reveal_strlit("true");
        reveal_strlit("false");
        reveal_strlit("null");
        assert("true"@ =~= true_text());
        assert("false"@ =~= false_text());
        assert("null"@ =~= null_text());
    }
    match v {
        JsonValue::Str(s) => Some(s.clone()),
        JsonValue::Bool(b) => Some(
            if *b {
                owned("true")
            } else {
                owned("false")
            },
        ),
        JsonValue::Number(JsonNumber::PosInt(n)) => Some(u64_text(*n)),
        JsonValue::Number(JsonNumber::NegInt(n)) => Some(i64_text(*n)),
        JsonValue::Number(JsonNumber::Float(t)) => Some(t.clone()),
        JsonValue::Null => Some(owned("null")),
        _ => None,
    }
}

/// The cells of one row of a table.
pub fn row_of(ele: &JsonValue, fields: &Vec<String>) -> (row: Vec<String>)
    ensures
        row.deep_view() == row_cells(*ele, fields.deep_view()),
{
    proof {
        reveal_strlit("null");
        assert("null"@ =~= null_text());
    }
    let ghost fv = fields.deep_view();
    let mut row: Vec<String> = Vec::new();
    let mut i: usize = 0;
    assert(row.deep_view() =~= Seq::<Seq<char>>::empty());
    while i < fields.len()
        invariant
            i <= fields@.len(),
            fv == fields.deep_view(),
            row.deep_view() == row_cells(*ele, fv.take(i as int)),
            "null"@ == null_text(),
        decreases fields@.len() - i,
    {
        let key = &fields[i];
        let ghost before = row.deep_view();
        assert(fv.take(i + 1).drop_last() =~= fv.take(i as int));
        assert(fv.take(i + 1).last() == key@);
        let cell = match ele.get(key.as_str()) {
            Some(m) => cell_of(m),
            None => Some(owned("null")),
        };
        match cell {
            Some(c) => {
                let ghost cv = c@;
                row.push(c);
                assert(row.deep_view() =~= before.push(cv));
            },
            None => {},
        }
        i = i + 1;
    }
    assert(fv.take(i as int) =~= fv);
    row
}

/// A copy of a list of strings.
fn copy_strings(v: &Vec<String>) -> (r: Vec<String>)
    ensures
        r.deep_view() == v.deep_view(),
{
    let mut r: Vec<String> = Vec::new();
    let mut i: usize = 0;
    while i < v.len()
        invariant
            i <= v@.len(),
            r.deep_view() == v.deep_view().take(i as int),
            r@.len() == i,
        decreases v@.len() - i,
    {
        let ghost before = r@;
        let c = v[i].clone();
        r.push(c);
        assert(r@ == before.push(c));
        assert forall|j: int| 0 <= j < i + 1 implies #[trigger] r.deep_view()[j] == v.deep_view().take(i + 1)[j] by {
            if j < i {
                assert(r@[j] == before[j]);
            }
        }
        assert(r.deep_view() =~= v.deep_view().take(i + 1));
        i = i + 1;
    }
    assert(v.deep_view().take(i as int) =~= v.deep_view());
    r
}

/// The data of the table for a reply, following the command's data path.
pub fn table_data_of<'a>(resp: &'a JsonValue, data_path: &Option<String>) -> (r: Option<
    &'a JsonValue,
>)
    ensures
        match r {
            Some(d) => table_data(*resp, *data_path) == Some(*d),
            None => table_data(*resp, *data_path) is None,
        },
{
    match data_path {
        None => Some(resp),
        Some(path) => {
            proof {
                reveal_strlit("\\.");
                assert("\\."@ =~= path_separator());
            }
            let pieces = split_text(path.as_str(), "\\.");
            let ghost pv = strs_view(pieces@);
            let mut data = resp;
            let mut i: usize = 0;
            while i < pieces.len()
                invariant
                    i <= pieces@.len(),
                    pv == strs_view(pieces@),
                    pv == split_on(path@, path_separator()),
                    pv.len() >= 1,
                    *data_path == Some(*path),
                    forall|k: int| 0 <= k < i ==> (#[trigger] member(*resp, pv[k])) is Some,
                    i > 0 ==> member(*resp, pv[i - 1]) == Some(*data),
                decreases pieces@.len() - i,
            {
                let p = pieces[i];
                match resp.get(p) {
                    Some(d) => {
                        data = d;
                    },
                    None => {
                        assert(member(*resp, pv[i as int]) is None);
                        return None;
                    },
                }
                i = i + 1;
            }
            assert(pv.last() == pv[pv.len() - 1]);
            Some(data)
        },
    }
}

/// Why no table can be shown for a reply, if there is a reason: the data path
/// names a missing member, the command has no output format, or the data is not
/// an array. Each is a point where tabulating the reply panics.
pub fn table_failure(resp: &JsonValue, cmd: &CmdConf) -> (r: Option<PrintFailure>)
    ensures
        match r {
            Some(e) => table_of(*resp, *cmd) == Err::<
                (Seq<Seq<char>>, Seq<Seq<Seq<char>>>),
                PrintFailure,
            >(e),
            None => table_of(*resp, *cmd) is Ok,
        },
{
    let data = match table_data_of(resp, &cmd.data_path) {
        Some(d) => d,
        None => {
            return Some(PrintFailure::MissingDataField);
        },
    };
    if cmd.output_format.is_none() {
        return Some(PrintFailure::MissingOutputFormat);
    }
    if data.as_array().is_none() {
        return Some(PrintFailure::NotAnArray);
    }
    None
}

/// The table shown for a reply: the command's column titles, and for each element
/// of the data a row of the cells of the command's fields. The reply must have a
/// table (see `table_failure`).
pub fn print_table(resp: &JsonValue, cmd: &CmdConf) -> (t: TableText)
    requires
        table_of(*resp, *cmd) is Ok,
    ensures
        table_of(*resp, *cmd) == Ok::<(Seq<Seq<char>>, Seq<Seq<Seq<char>>>), PrintFailure>(
            (t.title.deep_view(), t.rows.deep_view()),
        ),
{
    let data = match table_data_of(resp, &cmd.data_path) {
        Some(d) => d,
        None => unreached(),
    };
    let format = match &cmd.output_format {
        Some(f) => f,
        None => unreached(),
    };
    let title = copy_strings(&format.table_show_names);
    let items = match data.as_array() {
        Some(a) => a,
        None => unreached(),
    };
    let ghost fields = format.table_show_fields.deep_view();
    let ghost want = items@.map_values(|e: JsonValue| row_cells(e, fields));
    let mut rows: Vec<Vec<String>> = Vec::new();
    let mut i: usize = 0;
    while i < items.len()
        invariant
            i <= items@.len(),
            fields == format.table_show_fields.deep_view(),
            want == items@.map_values(|e: JsonValue| row_cells(e, fields)),
            rows.deep_view() == want.take(i as int),
            rows@.len() == i,
            want.len() == items@.len(),
        decreases items@.len() - i,
    {
        let row = row_of(&items[i], &format.table_show_fields);
        let ghost before = rows@;
        let ghost rv = row.deep_view();
        rows.push(row);
        assert(rows@ == before.push(row));
        assert forall|j: int| 0 <= j < i + 1 implies #[trigger] rows.deep_view()[j] == want.take(i + 1)[j] by {
            if j < i {
                assert(rows@[j] == before[j]);
            }
        }
        assert(rows.deep_view() =~= want.take(i + 1));
        i = i + 1;
    }
    assert(want.take(i as int) =~= want);
    TableText { title, rows }
}

/// Why a reply cannot be shown for a command, if there is a reason: a missing
/// output format, a show type other than `table` and `json`, or, for `table`, the
/// reason there is no table. Each is a point where showing the reply panics.
pub fn print_failure(resp: &JsonValue, cmd: &CmdConf) -> (r: Option<PrintFailure>)
    ensures
        match r {
            Some(e) => shown_as(*resp, *cmd) == Err::<
                Option<(Seq<Seq<char>>, Seq<Seq<Seq<char>>>)>,
                PrintFailure,
            >(e),
            None => shown_as(*resp, *cmd) is Ok,
        },
{
    proof {
        reveal_strlit("table");
        reveal_strlit("json");
        assert("table"@ =~= table_type());
        assert("json"@ =~= json_type());
    }
    let show_type = match &cmd.output_format {
        Some(f) => &f.show_type,
        None => {
            return Some(PrintFailure::MissingOutputFormat);
        },
    };
    if str_eq(show_type.as_str(), "table") {
        table_failure(resp, cmd)
    } else if str_eq(show_type.as_str(), "json") {
        None
    } else {
        Some(PrintFailure::UnknownShowType)
    }
}

/// How a reply is shown for a command: as a table when its show type is `table`,
/// as JSON when it is `json`. The reply must be one that can be shown (see
/// `print_failure`).
pub fn print(resp: &JsonValue, cmd: &CmdConf) -> (r: Shown)
    requires
        shown_as(*resp, *cmd) is Ok,
    ensures
        match r {
            Shown::Table(t) => shown_as(*resp, *cmd) == Ok::<
                Option<(Seq<Seq<char>>, Seq<Seq<Seq<char>>>)>,
                PrintFailure,
            >(Some((t.title.deep_view(), t.rows.deep_view()))),
            Shown::Json => shown_as(*resp, *cmd) == Ok::<
                Option<(Seq<Seq<char>>, Seq<Seq<Seq<char>>>)>,
                PrintFailure,
            >(None),
        },
{
    proof {
        reveal_strlit("table");
        reveal_strlit("json");
        assert("table"@ =~= table_type());
        assert("json"@ =~= json_type());
    }
    let show_type = match &cmd.output_format {
        Some(f) => &f.show_type,
        None => unreached(),
    };
    if str_eq(show_type.as_str(), "table") {
        Shown::Table(print_table(resp, cmd))
    } else if str_eq(show_type.as_str(), "json") {
        Shown::Json
    } else {
        unreached()
    }
}

/// A row has at most one cell per field, and exactly one per field when every
/// field's value has a cell (is not an array or an object).
pub proof fn law_row_width(ele: JsonValue, fields: Seq<Seq<char>>)
    ensures
        row_cells(ele, fields).len() <= fields.len(),
        (forall|i: int| 0 <= i < fields.len() ==> (#[trigger] cell_text(index_member(ele, fields[i]))) is Some)
            ==> row_cells(ele, fields).len() == fields.len(),
    decreases fields.len(),
{
    if fields.len() > 0 {
        law_row_width(ele, fields.drop_last());
        if forall|i: int| 0 <= i < fields.len() ==> (#[trigger] cell_text(index_member(ele, fields[i]))) is Some {
            let shorter = fields.drop_last();
            assert forall|i: int| 0 <= i < shorter.len() implies (#[trigger] cell_text(index_member(ele, shorter[i]))) is Some by {
                assert(shorter[i] == fields[i]);
            }
            assert(cell_text(index_member(ele, fields[fields.len() - 1])) is Some);
        }
    }
}

/// The cell of a value: a string as it is, `true` or `false` for a boolean, `null`
/// for null, and none for an array or an object.
pub proof fn law_cell_text(s: String, b: bool, items: Vec<JsonValue>, entries: Vec<(String, JsonValue)>)
    ensures
        cell_text(JsonValue::Str(s)) == Some(s@),
        cell_text(JsonValue::Bool(b)) == Some(if b { "true"@ } else { "false"@ }),
        cell_text(JsonValue::Null) == Some("null"@),
        cell_text(JsonValue::Array(items)) is None,
        cell_text(JsonValue::Object(entries)) is None,
{
    reveal_strlit("true");
    reveal_strlit("false");
    reveal_strlit("null");
    assert("true"@ =~= true_text());
    assert("false"@ =~= false_text());
    assert("null"@ =~= null_text());
}

/// Each cell of a row is the cell of the element's member for that field: when
/// every field's member has a cell, the row has one cell per field, in order.
pub proof fn law_row_cells(ele: JsonValue, fields: Seq<Seq<char>>)
    requires
        forall|i: int| 0 <= i < fields.len() ==> (#[trigger] cell_text(index_member(ele, fields[i]))) is Some,
    ensures
        row_cells(ele, fields).len() == fields.len(),
        forall|j: int|
            0 <= j < fields.len() ==> Some(#[trigger] row_cells(ele, fields)[j]) == cell_text(
                index_member(ele, fields[j]),
            ),
    decreases fields.len(),
{
    if fields.len() > 0 {
        let shorter = fields.drop_last();
        assert forall|i: int| 0 <= i < shorter.len() implies (#[trigger] cell_text(index_member(ele, shorter[i]))) is Some by {
            assert(shorter[i] == fields[i]);
        }
        law_row_cells(ele, shorter);
        assert(cell_text(index_member(ele, fields[fields.len() - 1])) is Some);
        assert forall|j: int| 0 <= j < fields.len() implies Some(#[trigger] row_cells(ele, fields)[j]) == cell_text(
            index_member(ele, fields[j]),
        ) by {
            if j < fields.len() - 1 {
                assert(shorter[j] == fields[j]);
                assert(row_cells(ele, fields)[j] == row_cells(ele, shorter)[j]);
            }
        }
    }
}

/// The table of a reply has the command's titles and one row per element of its
/// data; the cells of a row whose fields all have cells are those of the element's
/// members for the fields, in order.
pub proof fn law_table_cells(resp: JsonValue, cmd: CmdConf, items: Vec<JsonValue>, k: int)
    requires
        table_data(resp, cmd.data_path) == Some(JsonValue::Array(items)),
        cmd.output_format is Some,
        0 <= k < items@.len(),
        forall|i: int|
            0 <= i < cmd.output_format->0.table_show_fields@.len() ==> (#[trigger] cell_text(
                index_member(items@[k], cmd.output_format->0.table_show_fields@[i]@),
            )) is Some,
    ensures
        table_of(resp, cmd) matches Ok(t) && {
            let fields = cmd.output_format->0.table_show_fields@;
            &&& t.0 == cmd.output_format->0.table_show_names.deep_view()
            &&& t.1.len() == items@.len()
            &&& t.1[k].len() == fields.len()
            &&& forall|j: int|
                0 <= j < fields.len() ==> Some(#[trigger] t.1[k][j]) == cell_text(
                    index_member(items@[k], fields[j]@),
                )
        },
{
    let fields = cmd.output_format->0.table_show_fields;
    let fv = fields.deep_view();
    assert forall|i: int| 0 <= i < fv.len() implies (#[trigger] cell_text(index_member(items@[k], fv[i]))) is Some by {
        assert(fv[i] == fields@[i]@);
    }
    law_row_cells(items@[k], fv);
    assert forall|j: int| 0 <= j < fv.len() implies fv[j] == fields@[j]@ by {}
}

} // verus!
