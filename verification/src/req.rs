//! Forming the URL of a request: the server address, the command's path, and the
//! query made of the command's default parameters and the given ones.

use vstd::prelude::*;
use vstd::utf8::encode_utf8;
use crate::assoc::{pairs_view, str_pairs_view, lookup, put, has_key, get_text, put_pair, distinct_keys, lemma_lookup_put_same, lemma_lookup_put_other, lemma_put_distinct};
use crate::json_struct::{CmdConf, CmdParam, params_of};
use crate::text::owned;
use crate::url_util::{concat, joined};
use crate::json_value::JsonValue;

verus! {

/// Bytes that stay as they are in a URL: ASCII letters and digits, `-`, `.`, `_`, `~`.
pub open spec fn is_unreserved(b: u8) -> bool {
    (0x30 <= b <= 0x39) || (0x41 <= b <= 0x5a) || (0x61 <= b <= 0x7a) || b == 0x2d || b == 0x2e
        || b == 0x5f || b == 0x7e
}

/// The upper-case hexadecimal digit for `d`, where `d < 16`.
pub open spec fn hex_upper(d: u8) -> char {
    seq!['0', '1', '2', '3', '4', '5', '6', '7', '8', '9', 'A', 'B', 'C', 'D', 'E', 'F'][d as int]
}

/// Percent-encoding of bytes: an unreserved byte stands for itself, any other byte
/// becomes `%` and its two upper-case hexadecimal digits.
pub open spec fn percent_encode(bytes: Seq<u8>) -> Seq<char>
    decreases bytes.len(),
{
    if bytes.len() == 0 {
        Seq::empty()
    } else {
        let b = bytes[0];
        let head = if is_unreserved(b) {
            seq![b as char]
        } else {
            seq!['%', hex_upper(b / 16), hex_upper(b % 16)]
        };
        head + percent_encode(bytes.drop_first())
    }
}

/// `urlencoding::encode`: percent-encodes every byte of the UTF-8 encoding of
/// `data` except ASCII letters, digits, `-`, `_`, `.` and `~`, with upper-case
/// hexadecimal digits. The contract states the crate's documented behaviour.
#[verifier::external_body]
fn url_encode(data: &str) -> (r: String)
    ensures
        r@ == percent_encode(encode_utf8(data@)),
{
    urlencoding::encode(data).into_owned()
}

/// `host`, the key under which the context holds the server address.
pub open spec fn host_key() -> Seq<char> {
    seq!['h', 'o', 's', 't']
}

/// The parameters a command sends by default: each parameter whose default value
/// is not empty, in order, a later one with the same key replacing an earlier one.
pub open spec fn default_params(params: Seq<CmdParam>) -> Seq<(Seq<char>, Seq<char>)>
    decreases params.len(),
{
    if params.len() == 0 {
        Seq::empty()
    } else {
        let rest = default_params(params.drop_last());
        let p = params.last();
        if p.default_value@.len() == 0 {
            rest
        } else {
            put(rest, p.key@, p.default_value@)
        }
    }
}

/// `base` with each of `given` written over it in turn.
pub open spec fn with_overrides(
    base: Seq<(Seq<char>, Seq<char>)>,
    given: Seq<(Seq<char>, Seq<char>)>,
) -> Seq<(Seq<char>, Seq<char>)>
    decreases given.len(),
{
    if given.len() == 0 {
        base
    } else {
        let last = given.last();
        put(with_overrides(base, given.drop_last()), last.0, last.1)
    }
}

/// The parameters of a request: the command's defaults, overridden by those given.
pub open spec fn request_params(conf: CmdConf, given: Seq<(Seq<char>, Seq<char>)>) -> Seq<
    (Seq<char>, Seq<char>),
> {
    with_overrides(default_params(params_of(conf)), given)
}

/// `&key=value` for each parameter in order, with each value percent-encoded.
pub open spec fn query_text(params: Seq<(Seq<char>, Seq<char>)>) -> Seq<char>
    decreases params.len(),
{
    if params.len() == 0 {
        Seq::empty()
    } else {
        let last = params.last();
        query_text(params.drop_last()) + seq!['&'] + last.0 + seq!['='] + percent_encode(
            encode_utf8(last.1),
        )
    }
}

/// The URL of a request: the host joined with the command's path, `?`, and the
/// query text without its leading `&`.
pub open spec fn request_url(host: Seq<char>, conf: CmdConf, given: Seq<(Seq<char>, Seq<char>)>) -> Seq<
    char,
> {
    joined(host, conf.url_path@) + seq!['?'] + query_text(request_params(conf, given)).drop_first()
}

/// The parameters of a request for `cmd_conf` with the parameters `p` given:
/// the non-empty defaults, then `p`, a later key replacing an earlier one in place.
pub fn request_params_of(cmd_conf: &CmdConf, p: &Vec<(&str, &str)>) -> (params: Vec<(String, String)>)
    ensures
        pairs_view(params@) == request_params(*cmd_conf, str_pairs_view(p@)),
{
    let mut params: Vec<(String, String)> = Vec::new();
    assert(pairs_view(params@) =~= Seq::empty());
    if let Some(cmd_params) = &cmd_conf.params {
        let mut i: usize = 0;
        while i < cmd_params.len()
            invariant
                i <= cmd_params@.len(),
                params_of(*cmd_conf) == cmd_params@,
                pairs_view(params@) == default_params(cmd_params@.take(i as int)),
            decreases cmd_params@.len() - i,
        {
            let ele = &cmd_params[i];
            assert(cmd_params@.take(i + 1).drop_last() =~= cmd_params@.take(i as int));
            if !ele.default_value.as_str().is_empty() {
                put_pair(&mut params, ele.key.clone(), ele.default_value.clone());
            }
            i = i + 1;
        }
        assert(cmd_params@.take(i as int) =~= cmd_params@);
    }
    let ghost base = pairs_view(params@);
    assert(base == default_params(params_of(*cmd_conf)));
    let mut j: usize = 0;
    while j < p.len()
        invariant
            j <= p@.len(),
            base == default_params(params_of(*cmd_conf)),
            pairs_view(params@) == with_overrides(base, str_pairs_view(p@).take(j as int)),
        decreases p@.len() - j,
    {
        let (key, value) = p[j];
        let ghost given = str_pairs_view(p@);
        assert(given.take(j + 1).drop_last() =~= given.take(j as int));
        assert(given.take(j + 1).last() == (key@, value@));
        put_pair(&mut params, owned(key), owned(value));
        j = j + 1;
    }
    assert(str_pairs_view(p@).take(j as int) =~= str_pairs_view(p@));
    params
}

/// The URL of a request for `cmd_conf` to the server named under `host` in
/// `context`, with the parameters `p` given on top of the command's defaults.
/// The context must name the host, and the request must have some parameter.
pub fn build_request_url(
    context: &Vec<(String, String)>,
    cmd_conf: &CmdConf,
    p: &Vec<(&str, &str)>,
) -> (url: String)
    requires
        has_key(pairs_view(context@), host_key()),
        request_params(*cmd_conf, str_pairs_view(p@)).len() > 0,
    ensures
        url@ == request_url(
            lookup(pairs_view(context@), host_key()).unwrap(),
            *cmd_conf,
            str_pairs_view(p@),
        ),
{
    proof {
        reveal_strlit("host");
        reveal_strlit("&");
        reveal_strlit("=");
        reveal_strlit("?");
        assert("host"@ =~= host_key());
        assert("&"@ =~= seq!['&']);
        assert("="@ =~= seq!['=']);
        assert("?"@ =~= seq!['?']);
    }
    let host = match get_text(context, "host") {
        Some(h) => h,
        None => {
            return String::new();
        },
    };
    let mut url = concat(host.as_str(), cmd_conf.url_path.as_str());
    let params = request_params_of(cmd_conf, p);
    let ghost pv = pairs_view(params@);
    let mut kv = String::new();
    let mut i: usize = 0;
    while i < params.len()
        invariant
            i <= params@.len(),
            pv == pairs_view(params@),
            kv@ == query_text(pv.take(i as int)),
            "&"@ == seq!['&'],
            "="@ == seq!['='],
        decreases params@.len() - i,
    {
        let (key, value) = (&params[i].0, &params[i].1);
        let encoded = url_encode(value.as_str());
        kv.append("&");
        kv.append(key.as_str());
        kv.append("=");
        kv.append(encoded.as_str());
        assert(pv[i as int] == (key@, value@));
        assert(pv.take(i + 1).drop_last() =~= pv.take(i as int));
        assert(pv.take(i + 1).last() == pv[i as int]);
        assert(kv@ =~= query_text(pv.take(i + 1)));
        i = i + 1;
    }
    assert(pv.take(i as int) =~= pv);
    let len = kv.as_str().unicode_len();
    let rest = kv.as_str().substring_char(1, len);
    url.append("?");
    url.append(rest);
    assert(rest@ =~= query_text(pv).drop_first());
    url
}


/// The text of a string value, and nothing for other values.
pub open spec fn text_of(v: JsonValue) -> Seq<char> {
    match v {
        JsonValue::Str(s) => s@,
        _ => Seq::empty(),
    }
}

/// The form a request body is posted as: for an object, each member's name with its
/// text, in order, provided every member is a string; no fields for other values.
pub open spec fn form_of(body: JsonValue) -> Option<Seq<(Seq<char>, Seq<char>)>> {
    match body {
        JsonValue::Object(entries) => if forall|i: int|
            0 <= i < entries@.len() ==> (#[trigger] entries@[i]).1 is Str {
            Some(entries@.map_values(|e: (String, JsonValue)| (e.0@, text_of(e.1))))
        } else {
            None
        },
        _ => Some(Seq::empty()),
    }
}

/// Whether a request body can be posted as a form: it is not an object, or every
/// member of it is a string. Posting any other body stops with a failed `unwrap`,
/// before any request is sent.
pub fn post_form_accepts(body: &JsonValue) -> (r: bool)
    ensures
        r == form_of(*body) is Some,
{
    match body {
        JsonValue::Object(entries) => {
            let mut i: usize = 0;
            while i < entries.len()
                invariant
                    i <= entries@.len(),
                    *body == JsonValue::Object(*entries),
                    forall|k: int| 0 <= k < i ==> (#[trigger] entries@[k]).1 is Str,
                decreases entries@.len() - i,
            {
                if entries[i].1.as_str().is_none() {
                    assert(!(entries@[i as int].1 is Str));
                    return false;
                }
                i = i + 1;
            }
            true
        },
        _ => true,
    }
}

/// The form fields of a request body: each member of an object body with its text,
/// in order; none for other bodies. The body must be one that can be posted (see
/// `post_form_accepts`).
pub fn post_form(body: &JsonValue) -> (f: Vec<(String, String)>)
    requires
        form_of(*body) is Some,
    ensures
        form_of(*body) == Some(pairs_view(f@)),
{
    let mut params: Vec<(String, String)> = Vec::new();
    match body {
        JsonValue::Object(entries) => {
            let ghost want = entries@.map_values(|e: (String, JsonValue)| (e.0@, text_of(e.1)));
            let mut i: usize = 0;
            while i < entries.len()
                invariant
                    i <= entries@.len(),
                    *body == JsonValue::Object(*entries),
                    params@.len() == i,
                    want == entries@.map_values(|e: (String, JsonValue)| (e.0@, text_of(e.1))),
                    pairs_view(params@) == want.take(i as int),
                    forall|k: int| 0 <= k < i ==> (#[trigger] entries@[k]).1 is Str,
                    form_of(*body) is Some,
                decreases entries@.len() - i,
            {
                let (k, v) = (&entries[i].0, &entries[i].1);
                match v.as_str() {
                    Some(s) => {
                        let ghost before = params@;
                        let kc = k.clone();
                        let sc = s.clone();
                        params.push((kc, sc));
                        assert(want[i as int] == (kc@, sc@));
                        assert(params@ == before.push((kc, sc)));
                        assert forall|j: int| 0 <= j < i + 1 implies #[trigger] pairs_view(params@)[j]
                            == want.take(i + 1)[j] by {
                            if j < i {
                                assert(params@[j] == before[j]);
                                assert(pairs_view(before)[j] == want.take(i as int)[j]);
                            }
                        }
                        assert(pairs_view(params@) =~= want.take(i + 1));
                    },
                    None => {
                        assert(entries@[i as int].1 is Str);
                        return unreached();
                    },
                }
                i = i + 1;
            }
            assert(want.take(i as int) =~= want);
            params
        },
        _ => {
            assert(pairs_view(params@) =~= Seq::<(Seq<char>, Seq<char>)>::empty());
            params
        },
    }
}


/// Each form field carries its member's name and text unchanged: for an object body
/// whose members are all strings, the form has one field per member, in order, and
/// field `i` is the name of member `i` with the characters of its string.
pub proof fn law_form_fields(entries: Vec<(String, JsonValue)>)
    requires
        forall|m: int| 0 <= m < entries@.len() ==> (#[trigger] entries@[m]).1 is Str,
    ensures
        form_of(JsonValue::Object(entries)) matches Some(f) && f.len() == entries@.len() && forall|i: int|
            0 <= i < entries@.len() ==> ((#[trigger] entries@[i]).1 matches JsonValue::Str(s) && f[i] == (
                entries@[i].0@,
                s@,
            )),
{
}

/// A body with a member that is not a string has no form.
pub proof fn law_form_needs_strings(entries: Vec<(String, JsonValue)>, m: int)
    requires
        0 <= m < entries@.len(),
        !(entries@[m].1 is Str),
    ensures
        form_of(JsonValue::Object(entries)) is None,
{
}

/// A body that is not an object is posted as an empty form.
pub proof fn law_non_object_form_empty(body: JsonValue)
    requires
        !(body is Object),
    ensures
        form_of(body) == Some(Seq::<(Seq<char>, Seq<char>)>::empty()),
{
}

/// A parameter given with a request is sent with the value it was last given,
/// whatever the command's defaults say.
pub proof fn law_given_param_wins(conf: CmdConf, given: Seq<(Seq<char>, Seq<char>)>, j: int)
    requires
        0 <= j < given.len(),
        forall|m: int| j < m < given.len() ==> (#[trigger] given[m]).0 != given[j].0,
    ensures
        lookup(request_params(conf, given), given[j].0) == Some(given[j].1),
    decreases given.len(),
{
    let base = default_params(params_of(conf));
    let last = given.last();
    if j == given.len() - 1 {
        lemma_lookup_put_same(with_overrides(base, given.drop_last()), last.0, last.1);
    } else {
        let k = given[j].0;
        assert(given[given.len() - 1].0 != k);
        lemma_lookup_put_other(with_overrides(base, given.drop_last()), last.0, last.1, k);
        let shorter = given.drop_last();
        assert forall|m: int| j < m < shorter.len() implies (#[trigger] shorter[m]).0 != shorter[j].0 by {
            assert(shorter[m] == given[m]);
        }
        law_given_param_wins(conf, shorter, j);
    }
}

/// A parameter not given with a request is sent as the command's defaults have it.
pub proof fn law_default_param_kept(conf: CmdConf, given: Seq<(Seq<char>, Seq<char>)>, k: Seq<char>)
    requires
        forall|m: int| 0 <= m < given.len() ==> (#[trigger] given[m]).0 != k,
    ensures
        lookup(request_params(conf, given), k) == lookup(default_params(params_of(conf)), k),
    decreases given.len(),
{
    let base = default_params(params_of(conf));
    if given.len() > 0 {
        let last = given.last();
        assert(given[given.len() - 1].0 != k);
        lemma_lookup_put_other(with_overrides(base, given.drop_last()), last.0, last.1, k);
        let shorter = given.drop_last();
        assert forall|m: int| 0 <= m < shorter.len() implies (#[trigger] shorter[m]).0 != k by {
            assert(shorter[m] == given[m]);
        }
        law_default_param_kept(conf, shorter, k);
    }
}

/// A parameter with a non-empty default is among the defaults with that value,
/// unless a later parameter of the same key has a non-empty default of its own.
proof fn lemma_default_present(ps: Seq<CmdParam>, i: int)
    requires
        0 <= i < ps.len(),
        ps[i].default_value@.len() > 0,
        forall|j: int|
            i < j < ps.len() && (#[trigger] ps[j]).key@ == ps[i].key@ ==> ps[j].default_value@.len() == 0,
    ensures
        lookup(default_params(ps), ps[i].key@) == Some(ps[i].default_value@),
    decreases ps.len(),
{
    let last = ps.last();
    let shorter = ps.drop_last();
    if i == ps.len() - 1 {
        lemma_lookup_put_same(default_params(shorter), last.key@, last.default_value@);
    } else {
        assert forall|j: int|
            i < j < shorter.len() && (#[trigger] shorter[j]).key@ == shorter[i].key@ implies shorter[j].default_value@.len() == 0 by {
            assert(shorter[j] == ps[j]);
        }
        assert(shorter[i] == ps[i]);
        lemma_default_present(shorter, i);
        if last.default_value@.len() > 0 {
            assert(ps[ps.len() - 1] == last);
            lemma_lookup_put_other(default_params(shorter), last.key@, last.default_value@, ps[i].key@);
        }
    }
}

/// Every configured parameter with a non-empty default whose key is not given is
/// sent with that default: when no later parameter of the same key has a non-empty
/// default, the request's value for the key is that default.
pub proof fn law_default_sent(conf: CmdConf, given: Seq<(Seq<char>, Seq<char>)>, i: int)
    requires
        0 <= i < params_of(conf).len(),
        params_of(conf)[i].default_value@.len() > 0,
        forall|j: int|
            i < j < params_of(conf).len() && (#[trigger] params_of(conf)[j]).key@ == params_of(conf)[i].key@
                ==> params_of(conf)[j].default_value@.len() == 0,
        forall|m: int| 0 <= m < given.len() ==> (#[trigger] given[m]).0 != params_of(conf)[i].key@,
    ensures
        lookup(request_params(conf, given), params_of(conf)[i].key@) == Some(
            params_of(conf)[i].default_value@,
        ),
{
    lemma_default_present(params_of(conf), i);
    law_default_param_kept(conf, given, params_of(conf)[i].key@);
}

/// A parameter whose default is empty and whose key is neither given nor set by
/// any other parameter's non-empty default is not sent.
pub proof fn law_empty_default_not_sent(conf: CmdConf, given: Seq<(Seq<char>, Seq<char>)>, k: Seq<char>)
    requires
        forall|j: int|
            0 <= j < params_of(conf).len() && (#[trigger] params_of(conf)[j]).key@ == k
                ==> params_of(conf)[j].default_value@.len() == 0,
        forall|m: int| 0 <= m < given.len() ==> (#[trigger] given[m]).0 != k,
    ensures
        lookup(request_params(conf, given), k) is None,
{
    lemma_default_absent(params_of(conf), k);
    law_default_param_kept(conf, given, k);
}

/// A key no parameter gives a non-empty default is not among the defaults.
proof fn lemma_default_absent(ps: Seq<CmdParam>, k: Seq<char>)
    requires
        forall|j: int| 0 <= j < ps.len() && (#[trigger] ps[j]).key@ == k ==> ps[j].default_value@.len() == 0,
    ensures
        lookup(default_params(ps), k) is None,
    decreases ps.len(),
{
    if ps.len() > 0 {
        let last = ps.last();
        let shorter = ps.drop_last();
        assert forall|j: int| 0 <= j < shorter.len() && (#[trigger] shorter[j]).key@ == k implies shorter[j].default_value@.len() == 0 by {
            assert(shorter[j] == ps[j]);
        }
        lemma_default_absent(shorter, k);
        assert(ps[ps.len() - 1] == last);
        if last.default_value@.len() > 0 {
            lemma_lookup_put_other(default_params(shorter), last.key@, last.default_value@, k);
        }
    }
}

/// The defaults of a command name each key at most once.
pub proof fn lemma_default_params_distinct(params: Seq<CmdParam>)
    ensures
        distinct_keys(default_params(params)),
    decreases params.len(),
{
    if params.len() > 0 {
        lemma_default_params_distinct(params.drop_last());
        let p = params.last();
        if p.default_value@.len() != 0 {
            lemma_put_distinct(default_params(params.drop_last()), p.key@, p.default_value@);
        }
    }
}

/// Overriding keeps keys distinct.
pub proof fn lemma_overrides_distinct(
    base: Seq<(Seq<char>, Seq<char>)>,
    given: Seq<(Seq<char>, Seq<char>)>,
)
    requires
        distinct_keys(base),
    ensures
        distinct_keys(with_overrides(base, given)),
    decreases given.len(),
{
    if given.len() > 0 {
        lemma_overrides_distinct(base, given.drop_last());
        let last = given.last();
        lemma_put_distinct(with_overrides(base, given.drop_last()), last.0, last.1);
    }
}

/// A request sends each parameter once.
pub proof fn law_request_keys_distinct(conf: CmdConf, given: Seq<(Seq<char>, Seq<char>)>)
    ensures
        distinct_keys(request_params(conf, given)),
{
    lemma_default_params_distinct(params_of(conf));
    lemma_overrides_distinct(default_params(params_of(conf)), given);
}

/// Text made only of unreserved characters is sent as it is.
pub proof fn law_unreserved_unchanged(bytes: Seq<u8>)
    requires
        forall|i: int| 0 <= i < bytes.len() ==> is_unreserved(#[trigger] bytes[i]),
    ensures
        percent_encode(bytes) == bytes.map_values(|b: u8| b as char),
    decreases bytes.len(),
{
    if bytes.len() > 0 {
        let rest = bytes.drop_first();
        assert forall|i: int| 0 <= i < rest.len() implies is_unreserved(#[trigger] rest[i]) by {
            assert(rest[i] == bytes[i + 1]);
        }
        law_unreserved_unchanged(rest);
        assert(percent_encode(bytes) =~= bytes.map_values(|b: u8| b as char));
    }
}

} // verus!
