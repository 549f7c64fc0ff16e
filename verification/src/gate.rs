//! The checks an HTTP request passes before its body is read: method,
//! path, content type and access token.

use vstd::prelude::*;
use crate::obc::{check_query, query_token};
use crate::text::{push_str, str_eq};
use crate::util::ContentType;

verus! {

/// What becomes of a request.
#[derive(Debug, PartialEq, Eq)]
pub enum Gate {
    /// The request goes on; its body is in this content type.
    Accept(ContentType),
    /// The request is answered with this status and body.
    Reject { status: u16, body: String },
}

/// `Bearer ` followed by the token.
pub open spec fn bearer_text(token: Seq<char>) -> Seq<char> {
    "Bearer "@ + token
}

/// The value of an `Authorization` header that carries `token`.
pub fn bearer(token: &str) -> (r: String)
    ensures
        r@ == bearer_text(token@),
{
    proof { reveal_strlit("Bearer "); }
    let mut s = "Bearer ".to_owned();
    push_str(&mut s, token);
    s
}

/// The `Authorization` header to send for an optional token.
pub fn header_auth_token(token: Option<&str>) -> (r: Option<String>)
    ensures
        r is Some == token is Some,
        r matches Some(h) ==> h@ == bearer_text(token->0@),
{
    match token {
        Some(t) => Some(bearer(t)),
        None => None,
    }
}

/// A request path is served: the configured path exactly, or, where none
/// is configured, `/` or the empty path.
pub open spec fn path_served(configured: Option<Seq<char>>, path: Seq<char>) -> bool {
    match configured {
        Some(p) => path == p,
        None => path == "/"@ || path == Seq::<char>::empty(),
    }
}

fn serves_path(configured: Option<&str>, path: &str) -> (r: bool)
    ensures
        r == path_served(opt_view(configured), path@),
{
    match configured {
        Some(p) => str_eq(path, p),
        None => {
            let is_root = str_eq(path, "/");
            let n = path.unicode_len();
            if n == 0 {
                assert(path@ =~= Seq::<char>::empty());
            }
            is_root || n == 0
        },
    }
}

/// The view of an optional string.
pub open spec fn opt_view(s: Option<&str>) -> Option<Seq<char>> {
    match s {
        Some(x) => Some(x@),
        None => None,
    }
}

/// The decision on a request to the action endpoint of an implementation:
/// a request that is not a POST gets 405, one to another path 404, one
/// without a known content type 415; where a token is configured, a
/// request whose `Authorization` header is not `Bearer <token>` gets 403,
/// as does one without that header whose query token differs or that has
/// no query token either.  The texts of the 403 answers say which.
pub open spec fn impl_http_decision(
    is_post: bool,
    path_cfg: Option<Seq<char>>,
    token_cfg: Option<Seq<char>>,
    path: Seq<char>,
    content_type: Option<Seq<char>>,
    auth: Option<Seq<char>>,
    query: Option<Seq<char>>,
) -> (u16, Seq<char>) {
    if !is_post {
        (405, Seq::empty())
    } else if !path_served(path_cfg, path) {
        (404, Seq::empty())
    } else if !(content_type == Some("application/json"@) || content_type == Some("application/msgpack"@)) {
        (415, Seq::empty())
    } else {
        match token_cfg {
            Some(token) => match auth {
                Some(h) => if h != bearer_text(token) {
                    (403, "Authorization Header is invalid"@)
                } else {
                    (200, Seq::empty())
                },
                None => match query_token(query) {
                    Some(q) => if q != token {
                        (403, "Authorization Query is invalid"@)
                    } else {
                        (200, Seq::empty())
                    },
                    None => (403, "Missing Authorization Header"@),
                },
            },
            None => (200, Seq::empty()),
        }
    }
}

/// Decides on a request to the action endpoint of an implementation.
pub fn impl_http_gate(
    is_post: bool,
    path_cfg: Option<&str>,
    token_cfg: Option<&str>,
    path: &str,
    content_type: Option<&str>,
    auth: Option<&str>,
    query: Option<&str>,
) -> (r: Gate)
    ensures
        ({
            let d = impl_http_decision(is_post, opt_view(path_cfg), opt_view(token_cfg), path@, opt_view(content_type), opt_view(auth), opt_view(query));
            match r {
                Gate::Accept(t) => d.0 == 200 && opt_view(content_type) == Some(match t {
                    ContentType::Json => "application/json"@,
                    ContentType::MsgPack => "application/msgpack"@,
                }),
                Gate::Reject { status, body } => d.0 == status && d.0 != 200 && d.1 == body@,
            }
        }),
{
    proof {
        reveal_strlit("Authorization Header is invalid");
        reveal_strlit("Authorization Query is invalid");
        reveal_strlit("Missing Authorization Header");
    }
    if !is_post {
        return Gate::Reject { status: 405, body: String::new() };
    }
    if !serves_path(path_cfg, path) {
        return Gate::Reject { status: 404, body: String::new() };
    }
    let t = match content_type {
        Some(c) => match ContentType::new(c) {
            Some(t) => t,
            None => return Gate::Reject { status: 415, body: String::new() },
        },
        None => return Gate::Reject { status: 415, body: String::new() },
    };
    match token_cfg {
        Some(token) => match auth {
            Some(h) => {
                let expected = bearer(token);
                if !str_eq(h, expected.as_str()) {
                    return Gate::Reject { status: 403, body: "Authorization Header is invalid".to_owned() };
                }
            },
            None => match check_query(query) {
                Some(q) => {
                    if !str_eq(q.as_str(), token) {
                        return Gate::Reject { status: 403, body: "Authorization Query is invalid".to_owned() };
                    }
                },
                None => {
                    return Gate::Reject { status: 403, body: "Missing Authorization Header".to_owned() };
                },
            },
        },
        None => {},
    }
    Gate::Accept(t)
}

/// The decision on an event pushed to an application's webhook: a request
/// to another path gets 404 `Not Found`; where a token is configured, one
/// without an `Authorization` header gets 403 `Missing Authorization
/// Header`, and one whose header is not `Bearer <token>` gets 403
/// `Authorization Header is invalid`.  `None` lets the request go on.
pub open spec fn webhook_decision(
    path_cfg: Option<Seq<char>>,
    token_cfg: Option<Seq<char>>,
    path: Seq<char>,
    auth: Option<Seq<char>>,
) -> Option<(u16, Seq<char>)> {
    if !path_served(path_cfg, path) {
        Some((404, "Not Found"@))
    } else {
        match token_cfg {
            Some(token) => match auth {
                Some(h) => if h != bearer_text(token) {
                    Some((403, "Authorization Header is invalid"@))
                } else {
                    None
                },
                None => Some((403, "Missing Authorization Header"@)),
            },
            None => None,
        }
    }
}

/// Decides on an event pushed to an application's webhook; `None` lets it
/// go on.  A webhook that checks only the token, and no path, passes the
/// request's own path as the configured one.
pub fn webhook_gate(
    path_cfg: Option<&str>,
    token_cfg: Option<&str>,
    path: &str,
    auth: Option<&str>,
) -> (r: Option<(u16, String)>)
    ensures
        match r {
            Some((status, body)) => webhook_decision(opt_view(path_cfg), opt_view(token_cfg), path@, opt_view(auth)) == Some((status, body@)),
            None => webhook_decision(opt_view(path_cfg), opt_view(token_cfg), path@, opt_view(auth)) is None,
        },
{
    proof {
        reveal_strlit("Not Found");
        reveal_strlit("Authorization Header is invalid");
        reveal_strlit("Missing Authorization Header");
    }
    if !serves_path(path_cfg, path) {
        return Some((404, "Not Found".to_owned()));
    }
    match token_cfg {
        Some(token) => match auth {
            Some(h) => {
                let expected = bearer(token);
                if !str_eq(h, expected.as_str()) {
                    Some((403, "Authorization Header is invalid".to_owned()))
                } else {
                    None
                }
            },
            None => Some((403, "Missing Authorization Header".to_owned())),
        },
        None => None,
    }
}

/// Where a path is configured, a request is served only on exactly that
/// path: any other path gets 404 from both gates, whatever its token or
/// content type, and the configured path is never refused as unknown.
pub proof fn law_gates_serve_only_the_configured_path(
    p: Seq<char>,
    q: Seq<char>,
    token_cfg: Option<Seq<char>>,
    content_type: Option<Seq<char>>,
    auth: Option<Seq<char>>,
    query: Option<Seq<char>>,
)
    ensures
        path_served(Some(p), q) <==> q == p,
        path_served(None, q) <==> (q =~= seq!['/'] || q.len() == 0),
        q != p ==> impl_http_decision(true, Some(p), token_cfg, q, content_type, auth, query)
            == (404u16, Seq::<char>::empty()),
        q != p ==> webhook_decision(Some(p), token_cfg, q, auth) == Some((404u16, "Not Found"@)),
        impl_http_decision(true, Some(p), token_cfg, p, content_type, auth, query).0 != 404,
        !(webhook_decision(Some(p), token_cfg, p, auth) matches Some((s, _)) && s == 404),
{
    reveal_strlit("/");
    assert("/"@ =~= seq!['/']);
    if q.len() == 0 {
        assert(q =~= Seq::<char>::empty());
    }
}

} // verus!
