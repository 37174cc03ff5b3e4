//! The login arguments and what the login exchange is made of.

use vstd::prelude::*;
use crate::assoc::pairs_view;
use crate::json_value::{JsonValue, index_member};
use crate::text::owned;

verus! {

/// The server to log in to and the credentials to log in with.
#[derive(Clone, Debug, PartialEq, Eq)]
pub struct Login {
    /// For example: 127.0.0.1 or nacos.nacos.com
    pub host: String,
    pub port: Option<u32>,
    pub user: String,
    pub password: String,
}

/// A logged-in user.
#[derive(Clone, Debug, PartialEq, Eq)]
pub struct UserInfo {
    pub host: String,
    pub user: String,
    pub token: String,
}


/// The address the login form is posted to: the server address followed by
/// `v1/auth/users/login`.
pub open spec fn login_url_of(host: Seq<char>) -> Seq<char> {
    host + "v1/auth/users/login"@
}

/// The URL of the login request to the server at `host`.
pub fn login_url(host: &str) -> (url: String)
    ensures
        url@ == login_url_of(host@),
{
    let mut url = owned(host);
    url.append("v1/auth/users/login");
    url
}

/// The login form: the user name under `username`, the password under `password`.
pub fn login_form(login_args: &Login) -> (form: Vec<(String, String)>)
    ensures
        pairs_view(form@) == seq![
            ("username"@, login_args.user@),
            ("password"@, login_args.password@),
        ],
{
    let mut form: Vec<(String, String)> = Vec::new();
    form.push((owned("username"), login_args.user.clone()));
    form.push((owned("password"), login_args.password.clone()));
    assert(pairs_view(form@) =~= seq![
        ("username"@, login_args.user@),
        ("password"@, login_args.password@),
    ]);
    form
}

/// The access token of a login reply: its member `accessToken`, where that is a string.
pub open spec fn token_of(resp: JsonValue) -> Option<Seq<char>> {
    match index_member(resp, "accessToken"@) {
        JsonValue::Str(s) => Some(s@),
        _ => None,
    }
}

/// Whether a login reply holds an access token: its member `accessToken` is a
/// string. Reading the token of any other reply stops with a failed `unwrap`.
pub fn has_login_token(resp: &JsonValue) -> (r: bool)
    ensures
        r == token_of(*resp) is Some,
{
    match resp.get("accessToken") {
        Some(v) => v.as_str().is_some(),
        None => false,
    }
}

/// The access token in a login reply: its member `accessToken`. The reply must
/// hold one (see `has_login_token`).
pub fn login_token(resp: &JsonValue) -> (token: String)
    requires
        token_of(*resp) is Some,
    ensures
        token_of(*resp) == Some(token@),
{
    match resp.get("accessToken") {
        Some(v) => match v.as_str() {
            Some(s) => s.clone(),
            None => unreached(),
        },
        None => unreached(),
    }
}

} // verus!
