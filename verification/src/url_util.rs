//! Joining a host with a path, and normalising the server address.

use vstd::prelude::*;
use crate::text::{has_prefix, has_suffix, starts_with, ends_with, owned, decimal, u64_text};
use crate::login::Login;

verus! {

/// What `concat` gives for a host and a path: when the host ends with `/` and the
/// path begins with `/`, the two joined with one slash dropped; when neither has a
/// slash there, the two joined by one `/`; otherwise nothing.
pub open spec fn joined(host: Seq<char>, path: Seq<char>) -> Seq<char> {
    let h = has_suffix(host, seq!['/']);
    let p = has_prefix(path, seq!['/']);
    if h && p {
        host + path.drop_first()
    } else if !h && !p {
        host + seq!['/'] + path
    } else {
        Seq::empty()
    }
}

/// Joins `host` and `path` with exactly one `/` between them.
/// Where exactly one of them carries the slash, the result is empty.
pub fn concat(host: &str, path: &str) -> (url: String)
    ensures
        url@ == joined(host@, path@),
{
    proof {
        reveal_strlit("/");
        assert("/"@ =~= seq!['/']);
    }
    let mut url = String::new();
    let h = ends_with(host, "/");
    let p = starts_with(path, "/");
    if h && p {
        let len = path.unicode_len();
        let path_tmp = path.substring_char(1, len);
        url.append(host);
        url.append(path_tmp);
        assert(path_tmp@ =~= path@.drop_first());
    }
    if !h && !p {
        url.append(host);
        url.append("/");
        url.append(path);
    }
    assert(url@ =~= joined(host@, path@));
    url
}


/// `http://`
pub open spec fn http_scheme() -> Seq<char> {
    seq!['h', 't', 't', 'p', ':', '/', '/']
}

/// `https://`
pub open spec fn https_scheme() -> Seq<char> {
    seq!['h', 't', 't', 'p', 's', ':', '/', '/']
}

/// `nacos/`
pub open spec fn nacos_suffix() -> Seq<char> {
    seq!['n', 'a', 'c', 'o', 's', '/']
}

/// `:` and the port in decimal, or nothing.
pub open spec fn port_part(port: Option<u32>) -> Seq<char> {
    match port {
        Some(p) => seq![':'] + decimal(p as nat),
        None => Seq::empty(),
    }
}

/// The server address that `parse_host` makes of a host and a port: `http://`,
/// the host, the port part and `/`, then `nacos/` unless it already ends so.
pub open spec fn server_address(host: Seq<char>, port: Option<u32>) -> Seq<char> {
    let base = http_scheme() + host + port_part(port) + seq!['/'];
    if has_suffix(base, nacos_suffix()) {
        base
    } else {
        base + nacos_suffix()
    }
}

/// No text begins with both `http://` and `https://`.
proof fn lemma_not_both_schemes(s: Seq<char>)
    ensures
        !(has_prefix(s, http_scheme()) && has_prefix(s, https_scheme())),
{
    if has_prefix(s, http_scheme()) && has_prefix(s, https_scheme()) {
        assert(s.subrange(0, 7)[4] == ':');
        assert(s.subrange(0, 8)[4] == 's');
    }
}

/// The base URL of the server named by the login arguments.
pub fn parse_host(login_args: &Login) -> (r: String)
    ensures
        r@ == server_address(login_args.host@, login_args.port),
        has_prefix(r@, http_scheme()),
        has_suffix(r@, nacos_suffix()),
{
    let host = &login_args.host;
    proof {
        reveal_strlit("nacos/");
        reveal_strlit("http://");
        reveal_strlit("https://");
        reveal_strlit(":");
        reveal_strlit("/");
        assert("nacos/"@ =~= nacos_suffix());
        assert("http://"@ =~= http_scheme());
        assert("https://"@ =~= https_scheme());
        assert(":"@ =~= seq![':']);
        assert("/"@ =~= seq!['/']);
    }
    let mut result_host = String::new();
    let a = "nacos/";
    let http = "http://";

    result_host.append(host.as_str());
    let port = match login_args.port {
        Some(port) => {
            let mut r = owned(":");
            let digits = u64_text(port as u64);
            r.append(digits.as_str());
            r
        },
        None => String::new(),
    };
    result_host.append(port.as_str());
    result_host.append("/");
    assert(result_host@ =~= host@ + port_part(login_args.port) + seq!['/']);

    proof {
        lemma_not_both_schemes(result_host@);
    }
    if !starts_with(result_host.as_str(), "http://") || !starts_with(result_host.as_str(), "https://") {
        result_host = owned(http).concat(result_host.as_str());
    }
    let ghost base = result_host@;
    assert(base =~= http_scheme() + host@ + port_part(login_args.port) + seq!['/']);

    if !ends_with(result_host.as_str(), "nacos/") {
        result_host = result_host.concat(a);
    }
    assert(result_host@ =~= server_address(host@, login_args.port));
    assert(has_suffix(result_host@, nacos_suffix())) by {
        if !has_suffix(base, nacos_suffix()) {
            assert((base + nacos_suffix()).subrange(base.len() as int, base.len() as int + 6) =~= nacos_suffix());
        }
    }
    assert(has_prefix(result_host@, http_scheme())) by {
        assert(result_host@.subrange(0, 7) =~= http_scheme());
    }

    if result_host.as_str().is_empty() {
        result_host = host.clone();
    }
    result_host
}

} // verus!
