//! Request authorization: requests to protected paths need the right bearer
//! token, or are redirected to `/unauthorized`.
use vstd::prelude::*;

use crate::config::AuthToken;
use crate::response::Status;
use crate::text::{same_text, starts_with};

verus! {

/// The request methods that authorization tells apart.
#[derive(Clone, Copy, PartialEq, Eq, Structural, Debug)]
pub enum Method {
    Get,
    Post,
    Delete,
    Other,
}

/// What authorization sees of a request.
pub struct Request {
    pub method: Method,
    pub path: String,
    /// The `Authorization` header, if present.
    pub authorization: Option<String>,
}

/// The request guard.
pub struct Auth;

/// The route that denied requests are sent to.
pub fn unauthorized() -> (r: Status)
    ensures
        r == Status::Unauthorized,
{
    Status::Unauthorized
}

pub open spec fn option_view(o: Option<String>) -> Option<Seq<char>> {
    match o {
        Some(s) => Some(s@),
        None => None,
    }
}

/// Whether one of `prefixes` begins `path`.
pub open spec fn has_prefix(prefixes: Seq<&str>, path: Seq<char>) -> bool {
    exists|i: int| 0 <= i < prefixes.len() && (#[trigger] prefixes[i])@.is_prefix_of(path)
}

/// The words of `s`, as `str::split_whitespace` separates them.
pub uninterp spec fn whitespace_words(s: Seq<char>) -> Seq<Seq<char>>;

pub open spec fn words_view(w: Seq<String>) -> Seq<Seq<char>> {
    w.map_values(|s: String| s@)
}

/// Relies on `str::split_whitespace`: the words of `s` between runs of white
/// space, which depend on `s` alone.
#[verifier::external_body]
fn split_words(s: &str) -> (r: Vec<String>)
    ensures
        words_view(r@) == whitespace_words(s@),
{
    s.split_whitespace().map(str::to_string).collect()
}

/// Words of a header that carry `token`: exactly `Bearer` and the token.
pub open spec fn bearer_words_match(words: Seq<Seq<char>>, token: Seq<char>) -> bool {
    words.len() == 2 && words[0] == "Bearer"@ && words[1] == token
}

/// Whether the words of an `Authorization` header are `Bearer <token>`.
pub fn bearer_matches(words: &Vec<String>, token: &str) -> (r: bool)
    ensures
        r == bearer_words_match(words_view(words@), token@),
{
    proof {
        reveal_strlit("Bearer");
    }
    if words.len() != 2 {
        return false;
    }
    same_text(words[0].as_str(), "Bearer") && same_text(words[1].as_str(), token)
}

/// The verdict `(protected, authorized)` on a path and header: a path
/// under none of `prefixes` is not protected; an empty token authorizes every
/// request; otherwise the header must be `Bearer <token>`.
pub open spec fn verdict(prefixes: Seq<&str>, path: Seq<char>, token: Seq<char>, header: Option<Seq<char>>) -> (bool, bool) {
    if !has_prefix(prefixes, path) {
        (false, false)
    } else if token.len() == 0 {
        (true, true)
    } else {
        match header {
            Some(h) => (true, bearer_words_match(whitespace_words(h), token)),
            None => (true, false),
        }
    }
}

/// Whether `path` starts with one of `prefixes`.
pub fn matches_prefix(prefixes: &Vec<&str>, path: &str) -> (r: bool)
    ensures
        r == has_prefix(prefixes@, path@),
{
    let mut i: usize = 0;
    while i < prefixes.len()
        invariant
            i <= prefixes.len(),
            forall|j: int| 0 <= j < i ==> !(#[trigger] prefixes@[j])@.is_prefix_of(path@),
        decreases prefixes.len() - i,
    {
        if starts_with(path, prefixes[i]) {
            return true;
        }
        i = i + 1;
    }
    false
}

/// Decides `(protected, authorized)` for `request` against the protected
/// `prefix_paths` and their `token`.
pub fn rssbox_android(request: &Request, prefix_paths: &Vec<&str>, token: &str) -> (r: (bool, bool))
    ensures
        r == verdict(prefix_paths@, request.path@, token@, option_view(request.authorization)),
{
    if !matches_prefix(prefix_paths, request.path.as_str()) {
        return (false, false);
    }
    if token.unicode_len() == 0 {
        return (true, true);
    }
    match &request.authorization {
        Some(h) => {
            let words = split_words(h.as_str());
            (true, bearer_matches(&words, token))
        },
        None => (true, false),
    }
}

/// Sends the request to the `/unauthorized` route.
pub fn navigate_unauthorized(request: &mut Request)
    ensures
        final(request).method == Method::Get,
        final(request).path@ == "/unauthorized"@,
        final(request).authorization == old(request).authorization,
{
    request.method = Method::Get;
    request.path = String::from_str("/unauthorized");
}

/// Whether the guard denies a request on these prefixes and token.
pub open spec fn denies(prefixes: Seq<&str>, request: Request, token: Seq<char>) -> bool {
    let v = verdict(prefixes, request.path@, token, option_view(request.authorization));
    v.0 && !v.1
}

/// Redirects a denied request; returns whether the request may go on.
pub fn handle_unauthorized(request: &mut Request, prefix_paths: &Vec<&str>, token: &str) -> (r: bool)
    ensures
        r == !denies(prefix_paths@, *old(request), token@),
        r ==> *final(request) == *old(request),
        !r ==> final(request).method == Method::Get && final(request).path@ == "/unauthorized"@
            && final(request).authorization == old(request).authorization,
{
    let (is_prefix, is_auth) = rssbox_android(request, prefix_paths, token);
    if is_prefix && !is_auth {
        navigate_unauthorized(request);
        false
    } else {
        true
    }
}

/// Paths that only the admin token opens with `DELETE`.
pub open spec fn delete_paths() -> Seq<&'static str> {
    seq!["/rssbox/android/feedback", "/rssbox/rss/list/cn", "/rssbox/rss/list/en"]
}

/// Paths that the client token opens with `GET`.
pub open spec fn get_paths() -> Seq<&'static str> {
    seq!["/rssbox/android/recover"]
}

/// Paths that only the admin token opens with `POST`.
pub open spec fn post_admin_paths() -> Seq<&'static str> {
    seq!["/latest/version"]
}

/// Paths that the client token opens with `POST`.
pub open spec fn post_client_paths() -> Seq<&'static str> {
    seq!["/rssbox/android/backup"]
}

/// Whether the guard turns `request` away under `tokens`.
pub open spec fn rejected(request: Request, tokens: AuthToken) -> bool {
    match request.method {
        Method::Delete => denies(delete_paths(), request, tokens.admin@),
        Method::Get => denies(get_paths(), request, tokens.rssbox_android@),
        Method::Post => denies(post_admin_paths(), request, tokens.admin@) || denies(
            post_client_paths(),
            request,
            tokens.rssbox_android@,
        ),
        Method::Other => false,
    }
}

impl Auth {
    /// Checks a request on arrival: a rejected one is sent to `/unauthorized`,
    /// any other goes on unchanged.
    pub fn on_request(&self, request: &mut Request, tokens: &AuthToken)
        ensures
            !rejected(*old(request), *tokens) ==> *final(request) == *old(request),
            rejected(*old(request), *tokens) ==> final(request).method == Method::Get
                && final(request).path@ == "/unauthorized"@ && final(request).authorization
                == old(request).authorization,
    {
        match request.method {
            Method::Delete => {
                let prefix_paths = vec![
                    "/rssbox/android/feedback",
                    "/rssbox/rss/list/cn",
                    "/rssbox/rss/list/en",
                ];
                assert(prefix_paths@ =~= delete_paths());
                let _ = handle_unauthorized(request, &prefix_paths, tokens.admin.as_str());
            },
            Method::Get => {
                let prefix_paths = vec!["/rssbox/android/recover"];
                assert(prefix_paths@ =~= get_paths());
                let _ = handle_unauthorized(request, &prefix_paths, tokens.rssbox_android.as_str());
            },
            Method::Post => {
                let prefix_paths = vec!["/latest/version"];
                assert(prefix_paths@ =~= post_admin_paths());
                if !handle_unauthorized(request, &prefix_paths, tokens.admin.as_str()) {
                    return;
                }
                let prefix_paths = vec!["/rssbox/android/backup"];
                assert(prefix_paths@ =~= post_client_paths());
                let _ = handle_unauthorized(request, &prefix_paths, tokens.rssbox_android.as_str());
            },
            Method::Other => {},
        }
    }
}

} // verus!
