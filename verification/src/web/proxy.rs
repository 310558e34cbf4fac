//! Requests proxied to a remote runtime: the basic-auth header sent with them
//! and how the remote answer is reshaped for the caller.
use vstd::prelude::*;

use crate::entropy::{base64_len_fits, base64_standard, encode_standard};
use crate::text::{chars_of, decimal, decimal_chars, push_chars, push_str, string_of, trim, trim_chars};
use vstd::string::StringSliceAdditionalSpecFns;

verus! {

/// Credentials for a remote runtime behind basic authentication.
#[derive(Debug)]
pub struct ProxyBasicAuth {
    pub username: String,
    pub password: String,
}

/// The `Authorization` header for the credentials: `Basic ` and the base64 of
/// `username:password` (the username trimmed); none without a username.
pub open spec fn authorization_spec(username: Seq<char>, password: Seq<char>) -> Option<Seq<char>> {
    let u = trim(username);
    if u.len() == 0 {
        None
    } else {
        Some("Basic "@ + base64_standard(vstd::utf8::encode_utf8(u + ":"@ + password)))
    }
}

impl ProxyBasicAuth {
    /// The `Authorization` header to send, if a username is set.
    pub fn authorization_header(&self) -> (r: Option<String>)
        requires
            base64_len_fits(vstd::utf8::encode_utf8(trim(self.username@) + ":"@ + self.password@).len()),
        ensures
            match (r, authorization_spec(self.username@, self.password@)) {
                (Some(a), Some(b)) => a@ == b,
                (None, None) => true,
                _ => false,
            },
    {
        let raw = chars_of(self.username.as_str());
        let u = trim_chars(raw.as_slice());
        if u.len() == 0 {
            return None;
        }
        let mut creds = string_of(u.as_slice());
        push_str(&mut creds, ":");
        push_str(&mut creds, self.password.as_str());
        let bytes = creds.as_str().as_bytes();
        let encoded = encode_standard(bytes);
        let mut header = "Basic ".to_owned();
        push_str(&mut header, encoded.as_str());
        Some(header)
    }
}

/// How a remote answer is reshaped before it is passed on.
#[derive(Debug, Clone, Copy, PartialEq, Eq, Structural)]
pub enum ProxyReply {
    /// A successful object that already says whether it is `ok`: pass it on.
    Unchanged,
    /// A successful answer without an `ok` flag: pass on `{ok: true, result: <answer>}`.
    WrapAsResult,
    /// A failed object: set `ok` to false, and add the status as `error` when
    /// `add_status_error` (it has no `error` of its own).
    MarkFailed { add_status_error: bool },
    /// A failed answer that is not an object: pass on `{ok: false, error: <status>}`.
    Failed,
}

pub open spec fn proxy_reply_spec(status: u16, is_object: bool, has_ok_flag: bool, has_error: bool) -> ProxyReply {
    let success = 200 <= status < 300;
    if is_object {
        if success {
            if has_ok_flag { ProxyReply::Unchanged } else { ProxyReply::WrapAsResult }
        } else {
            ProxyReply::MarkFailed { add_status_error: !has_error }
        }
    } else if success {
        ProxyReply::WrapAsResult
    } else {
        ProxyReply::Failed
    }
}

/// Decides how a remote answer with HTTP `status` is reshaped: whether it is a
/// JSON object, carries a boolean `ok`, and carries an `error`.
pub fn normalize_proxy_response(status: u16, is_object: bool, has_ok_flag: bool, has_error: bool) -> (r: ProxyReply)
    ensures
        r == proxy_reply_spec(status, is_object, has_ok_flag, has_error),
{
    let success = 200 <= status && status < 300;
    if is_object {
        if success {
            if has_ok_flag { ProxyReply::Unchanged } else { ProxyReply::WrapAsResult }
        } else {
            ProxyReply::MarkFailed { add_status_error: !has_error }
        }
    } else if success {
        ProxyReply::WrapAsResult
    } else {
        ProxyReply::Failed
    }
}

/// The error given for a failed status: `http status <status>`.
pub fn http_status_error(status: u16) -> (r: String)
    ensures
        r@ == "http status "@ + decimal(status as nat),
{
    let mut r = "http status ".to_owned();
    push_chars(&mut r, decimal_chars(status as u64).as_slice());
    r
}

/// A proxied answer always says whether it succeeded, and a failure always
/// carries an error: reshaping never passes on a failure as it came.
pub proof fn law_failures_are_marked(status: u16, is_object: bool, has_ok_flag: bool, has_error: bool)
    requires
        !(200 <= status < 300),
    ensures
        proxy_reply_spec(status, is_object, has_ok_flag, has_error) != ProxyReply::Unchanged,
        proxy_reply_spec(status, is_object, has_ok_flag, has_error) != ProxyReply::WrapAsResult,
        is_object && !has_error ==> proxy_reply_spec(status, is_object, has_ok_flag, has_error)
            == (ProxyReply::MarkFailed { add_status_error: true }),
{
}

} // verus!
