//! The checks every state-changing request passes before its handler runs: the
//! body's content type and the request's origin.
use vstd::prelude::*;

use crate::text::{chars_of, lower, lower_chars, push_chars, push_str, starts_with, starts_with_str, trim, trim_chars};

verus! {

/// Why a POST was refused: the HTTP status, the denial code and the message.
#[derive(Debug)]
pub struct PostDenial {
    pub status: u16,
    pub denial_code: &'static str,
    pub error: String,
}

pub open spec fn denial_view(d: PostDenial) -> (u16, Seq<char>, Seq<char>) {
    (d.status, d.denial_code@, d.error@)
}

/// An origin or host as compared: trimmed, trailing slashes dropped, ASCII
/// lowercase.
pub open spec fn normalize_origin(s: Seq<char>) -> Seq<char> {
    lower(crate::text::trim_end_char(trim(s), '/'))
}

/// The origin a page served by this host has.
pub open spec fn expected_origin(host: Seq<char>, tls: bool) -> Seq<char> {
    (if tls { "https"@ } else { "http"@ }) + "://"@ + normalize_origin(host)
}

/// The policy for a POST with the given headers: JSON bodies must say so when
/// required; a request from a browser page (one with an `Origin`) must come from
/// this server's own origin, which needs a `Host`.
pub open spec fn post_policy_spec(
    content_type: Option<Seq<char>>,
    origin: Option<Seq<char>>,
    host: Option<Seq<char>>,
    tls: bool,
    require_json: bool,
) -> Result<(), (u16, Seq<char>, Seq<char>)> {
    let ct = match content_type {
        Some(c) => lower(c),
        None => Seq::empty(),
    };
    if require_json && !starts_with(ct, "application/json"@) {
        Err((415, "contract_violation"@, "Content-Type must be application/json"@))
    } else {
        match origin {
            None => Ok(()),
            Some(o) => if normalize_origin(o) == "null"@ {
                Err((403, "permission_denied"@, "origin is not allowed"@))
            } else {
                match host {
                    None => Err((400, "contract_violation"@, "missing Host header"@)),
                    Some(h) => if normalize_origin(o) != expected_origin(h, tls) {
                        Err((403, "permission_denied"@, "origin '"@ + o + "' is not allowed"@))
                    } else {
                        Ok(())
                    },
                }
            },
        }
    }
}

fn normalize_origin_exec(s: &str) -> (r: Vec<char>)
    ensures
        r@ == normalize_origin(s@),
{
    let raw = chars_of(s);
    let t = trim_chars(raw.as_slice());
    let u = crate::text::trim_end_char_exec(t.as_slice(), '/');
    lower_chars(u.as_slice())
}

fn deny(status: u16, denial_code: &'static str, error: String) -> (d: PostDenial)
    ensures
        denial_view(d) == (status, denial_code@, error@),
{
    PostDenial { status, denial_code, error }
}

/// Checks a POST's `Content-Type`, `Origin` and `Host` headers (absent ones as
/// `None`) against the policy.
pub fn api_post_policy_check(
    content_type: Option<&str>,
    origin: Option<&str>,
    host: Option<&str>,
    tls: bool,
    require_json: bool,
) -> (r: Result<(), PostDenial>)
    ensures
        match r {
            Ok(()) => post_policy_spec(
                match content_type { Some(c) => Some(c@), None => None },
                match origin { Some(o) => Some(o@), None => None },
                match host { Some(h) => Some(h@), None => None },
                tls,
                require_json,
            ) == Ok::<(), (u16, Seq<char>, Seq<char>)>(()),
            Err(d) => post_policy_spec(
                match content_type { Some(c) => Some(c@), None => None },
                match origin { Some(o) => Some(o@), None => None },
                match host { Some(h) => Some(h@), None => None },
                tls,
                require_json,
            ) == Err::<(), (u16, Seq<char>, Seq<char>)>(denial_view(d)),
        },
{
    if require_json {
        let ct: Vec<char> = match content_type {
            Some(c) => {
                let v = chars_of(c);
                lower_chars(v.as_slice())
            },
            None => Vec::new(),
        };
        proof {
            if content_type is None {
                assert(lower(Seq::<char>::empty()) =~= Seq::<char>::empty());
            }
        }
        if !starts_with_str(ct.as_slice(), "application/json") {
            return Err(deny(415, "contract_violation", "Content-Type must be application/json".to_owned()));
        }
    }
    let o = match origin {
        None => return Ok(()),
        Some(o) => o,
    };
    let norm = normalize_origin_exec(o);
    if crate::text::chars_eq_str(norm.as_slice(), "null") {
        return Err(deny(403, "permission_denied", "origin is not allowed".to_owned()));
    }
    let h = match host {
        None => return Err(deny(400, "contract_violation", "missing Host header".to_owned())),
        Some(h) => h,
    };
    let mut expected = if tls { "https".to_owned() } else { "http".to_owned() };
    push_str(&mut expected, "://");
    let hn = normalize_origin_exec(h);
    push_chars(&mut expected, hn.as_slice());
    let ev = chars_of(expected.as_str());
    if !crate::text::chars_eq(norm.as_slice(), ev.as_slice()) {
        let mut msg = "origin '".to_owned();
        push_str(&mut msg, o);
        push_str(&mut msg, "' is not allowed");
        return Err(deny(403, "permission_denied", msg));
    }
    Ok(())
}

/// Why a JSON body could not be read.
#[derive(Debug, Clone, Copy, PartialEq, Eq, Structural)]
pub enum JsonBodyError {
    InvalidBody,
    TooLarge,
    InvalidJson,
}

/// The status, denial code and message that answer a JSON body error.
pub open spec fn json_body_error_spec(e: JsonBodyError) -> (u16, Seq<char>, Seq<char>) {
    match e {
        JsonBodyError::InvalidBody => (400, "contract_violation"@, "invalid body"@),
        JsonBodyError::TooLarge => (413, "contract_violation"@, "request body exceeds maximum size"@),
        JsonBodyError::InvalidJson => (400, "contract_violation"@, "invalid json"@),
    }
}

pub fn json_body_error_parts(e: JsonBodyError) -> (r: (u16, &'static str, &'static str))
    ensures
        (r.0, r.1@, r.2@) == json_body_error_spec(e),
{
    match e {
        JsonBodyError::InvalidBody => (400, "contract_violation", "invalid body"),
        JsonBodyError::TooLarge => (413, "contract_violation", "request body exceeds maximum size"),
        JsonBodyError::InvalidJson => (400, "contract_violation", "invalid json"),
    }
}

/// A body read up to one byte past the limit is refused when it passed the limit.
pub fn check_body_size(len: usize, max_bytes: usize) -> (r: Result<(), JsonBodyError>)
    ensures
        r == (if len > max_bytes { Err(JsonBodyError::TooLarge) } else { Ok(()) }),
{
    if len > max_bytes {
        Err(JsonBodyError::TooLarge)
    } else {
        Ok(())
    }
}

/// A request from the server's own origin passes the origin check.
pub proof fn law_same_origin_passes(
    origin: Seq<char>,
    host: Seq<char>,
    tls: bool,
    content_type: Option<Seq<char>>,
    require_json: bool,
)
    requires
        !require_json || starts_with(
            match content_type { Some(c) => lower(c), None => Seq::empty() },
            "application/json"@,
        ),
        normalize_origin(origin) == expected_origin(host, tls),
    ensures
        post_policy_spec(content_type, Some(origin), Some(host), tls, require_json) is Ok,
{
    reveal_strlit("null");
    reveal_strlit("https");
    reveal_strlit("http");
    reveal_strlit("://");
    assert(expected_origin(host, tls)[0] == 'h');
}

/// A request without an `Origin` (not from a browser page) is never refused for
/// its origin.
pub proof fn law_no_origin_no_origin_check(content_type: Option<Seq<char>>, host: Option<Seq<char>>, tls: bool)
    ensures
        post_policy_spec(content_type, None, host, tls, false) is Ok,
{
}

} // verus!
