//! Who a web request is authenticated as, and what it may do.
use vstd::prelude::*;

use crate::pairing::{find_role, live_tokens, PairingStore};
use crate::security::{constant_time_eq, role_rank, AccessRole};

verus! {

/// The role a request acts with, and the token it presented: a local server
/// trusts everyone as admin; the server's own token gives admin; otherwise a
/// live paired token gives its role.
pub open spec fn resolve_role_spec(
    local: bool,
    expected: Option<Seq<char>>,
    provided: Option<Seq<char>>,
    paired: Option<Seq<crate::pairing::PairingToken>>,
    now: u64,
) -> Option<(AccessRole, Option<Seq<char>>)> {
    if local {
        Some((AccessRole::Admin, None))
    } else if expected is Some && provided is Some && expected->0 == provided->0 {
        Some((AccessRole::Admin, provided))
    } else {
        match provided {
            None => None,
            Some(p) => match paired {
                None => None,
                Some(ts) => match find_role(live_tokens(ts, now), p) {
                    Some(role) => Some((role, Some(p))),
                    None => None,
                },
            },
        }
    }
}

pub open spec fn opt_view(s: Option<&str>) -> Option<Seq<char>> {
    match s {
        Some(t) => Some(t@),
        None => None,
    }
}

pub open spec fn opt_string_view(s: Option<String>) -> Option<Seq<char>> {
    match s {
        Some(t) => Some(t@),
        None => None,
    }
}

/// Resolves the role of a request from the server's auth mode (`local`), the
/// server's own token, the `X-Trust-Token` the request presented, and the pairing
/// store if pairing is on. Checking a paired token drops the expired ones.
pub fn resolve_web_role(
    local: bool,
    expected: Option<&str>,
    provided: Option<&str>,
    pairing: Option<&mut PairingStore>,
    now: u64,
) -> (r: Option<(AccessRole, Option<String>)>)
    ensures
        match r {
            Some((role, tok)) => resolve_role_spec(
                local,
                opt_view(expected),
                opt_view(provided),
                match pairing { Some(p) => Some(p.tokens_spec()), None => None },
                now,
            ) == Some((role, opt_string_view(tok))),
            None => resolve_role_spec(
                local,
                opt_view(expected),
                opt_view(provided),
                match pairing { Some(p) => Some(p.tokens_spec()), None => None },
                now,
            ) is None,
        },
{
    if local {
        return Some((AccessRole::Admin, None));
    }
    if let Some(e) = expected {
        if let Some(p) = provided {
            if constant_time_eq(e, p) {
                return Some((AccessRole::Admin, Some(p.to_owned())));
            }
        }
    }
    let p = match provided {
        None => return None,
        Some(p) => p,
    };
    match pairing {
        None => None,
        Some(store) => match store.validate_with_role(p, now) {
            Some(role) => Some((role, Some(p.to_owned()))),
            None => None,
        },
    }
}

/// Why a request is refused: it proved no role, or its role is too low.
pub open spec fn check_auth_spec(
    resolved: Option<(AccessRole, Option<Seq<char>>)>,
    required: AccessRole,
) -> Result<(AccessRole, Option<Seq<char>>), Seq<char>> {
    match resolved {
        None => Err("unauthorized"@),
        Some((role, tok)) => if role_rank(role) >= role_rank(required) {
            Ok((role, tok))
        } else {
            Err("forbidden"@)
        },
    }
}

/// Authenticates a request and checks that its role allows `required`.
pub fn check_auth_with_role(
    local: bool,
    expected: Option<&str>,
    provided: Option<&str>,
    pairing: Option<&mut PairingStore>,
    now: u64,
    required: AccessRole,
) -> (r: Result<(AccessRole, Option<String>), &'static str>)
    ensures
        ({
            let spec = check_auth_spec(
                resolve_role_spec(
                    local,
                    opt_view(expected),
                    opt_view(provided),
                    match pairing { Some(p) => Some(p.tokens_spec()), None => None },
                    now,
                ),
                required,
            );
            match r {
                Ok((role, tok)) => spec == Ok::<(AccessRole, Option<Seq<char>>), Seq<char>>((role, opt_string_view(tok))),
                Err(e) => spec == Err::<(AccessRole, Option<Seq<char>>), Seq<char>>(e@),
            }
        }),
{
    let resolved = resolve_web_role(local, expected, provided, pairing, now);
    match resolved {
        None => Err("unauthorized"),
        Some((role, tok)) => if role.allows(required) {
            Ok((role, tok))
        } else {
            Err("forbidden")
        },
    }
}

/// The HTTP status answering an authentication failure: 403 for a role too low,
/// 401 otherwise.
pub fn auth_error_status(error: &str) -> (r: u16)
    ensures
        r == (if error@ == "forbidden"@ { 403u16 } else { 401u16 }),
{
    if crate::text::str_eq(error, "forbidden") {
        403
    } else {
        401
    }
}

/// A server in local mode lets every request act as admin.
pub proof fn law_local_mode_is_admin(
    expected: Option<Seq<char>>,
    provided: Option<Seq<char>>,
    paired: Option<Seq<crate::pairing::PairingToken>>,
    now: u64,
    required: AccessRole,
)
    ensures
        check_auth_spec(resolve_role_spec(true, expected, provided, paired, now), required)
            == Ok::<(AccessRole, Option<Seq<char>>), Seq<char>>((AccessRole::Admin, None)),
{
}

/// Outside local mode, a request that presents no token is refused.
pub proof fn law_no_token_unauthorized(
    expected: Option<Seq<char>>,
    paired: Option<Seq<crate::pairing::PairingToken>>,
    now: u64,
    required: AccessRole,
)
    ensures
        check_auth_spec(resolve_role_spec(false, expected, None, paired, now), required)
            == Err::<(AccessRole, Option<Seq<char>>), Seq<char>>("unauthorized"@),
{
}

} // verus!
