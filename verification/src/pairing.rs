//! Pairing token storage for web access.
//!
//! A pairing code is issued by `start_pairing`, claimed once by `claim` for an
//! access token, and the token is then checked by `validate_with_role` until it
//! expires or is revoked. Every operation takes the current time; operations after
//! which the token file must be rewritten set a flag that `take_persist_request`
//! hands to the caller, which owns the file.
use vstd::prelude::*;

use crate::entropy::{base64_url_no_pad, generate_code, generate_token, now_secs, pairing_code_text};
use crate::security::AccessRole;
use crate::text::{chars_eq, chars_of, decimal, decimal_chars, push_chars, str_eq, trim, trim_chars};

verus! {

/// How long a pairing code can be claimed.
pub const PAIRING_CODE_TTL_SECS: u64 = 300;

/// How long an access token stays valid.
pub const PAIRING_TOKEN_TTL_SECS: u64 = 2_592_000;

/// Most enabled tokens at once.
pub const PAIRING_MAX_TOKENS: usize = 256;

/// A pairing code and the time it stops being claimable.
#[derive(Debug)]
pub struct PairingCode {
    pub code: String,
    pub expires_at: u64,
}

/// What `list` reports of a token: everything but the secret, of which only the
/// last characters are shown.
#[derive(Debug)]
pub struct PairingSummary {
    pub id: String,
    pub enabled: bool,
    pub created_at: u64,
    pub expires_at: u64,
    pub role: AccessRole,
    pub tail: String,
}

/// A stored access token.
#[derive(Debug)]
pub struct PairingToken {
    pub id: String,
    pub token: String,
    pub created_at: u64,
    pub enabled: bool,
    pub role: AccessRole,
    pub expires_at: u64,
}

#[derive(Debug)]
struct PendingCode {
    code: String,
    expires_at: u64,
}

/// The token store.
#[derive(Debug)]
pub struct PairingStore {
    tokens: Vec<PairingToken>,
    pending: Option<PendingCode>,
    persist_requested: bool,
}

/// The role loaded tokens get when the file names none.
pub fn default_token_role() -> (r: AccessRole)
    ensures
        r == AccessRole::Operator,
{
    AccessRole::Operator
}

/// The role a claimed token gets: the requested one (operator by default), but
/// never admin, which is lowered to engineer.
pub open spec fn sanitized_role(role: Option<AccessRole>) -> AccessRole {
    match role {
        None => AccessRole::Operator,
        Some(AccessRole::Admin) => AccessRole::Engineer,
        Some(r) => r,
    }
}

pub fn sanitize_requested_role(role: Option<AccessRole>) -> (r: AccessRole)
    ensures
        r == sanitized_role(role),
        r != AccessRole::Admin,
{
    match role {
        None => AccessRole::Operator,
        Some(AccessRole::Admin) => AccessRole::Engineer,
        Some(other) => other,
    }
}

/// The masked tail shown for a token: an ellipsis and its last four characters.
pub open spec fn masked_tail(token: Seq<char>) -> Seq<char> {
    let keep = if token.len() > 4 {
        token.len() - 4
    } else {
        0
    };
    "\u{2026}"@ + token.skip(keep)
}

pub fn mask_tail(token: &str) -> (r: String)
    ensures
        r@ == masked_tail(token@),
{
    let v = chars_of(token);
    let keep: usize = if v.len() > 4 {
        v.len() - 4
    } else {
        0
    };
    let mut tail: Vec<char> = Vec::new();
    let mut i: usize = keep;
    while i < v.len()
        invariant
            keep <= i <= v.len(),
            tail@ == v@.subrange(keep as int, i as int),
        decreases v.len() - i,
    {
        tail.push(v[i]);
        assert(v@.subrange(keep as int, i as int).push(v@[i as int]) == v@.subrange(
            keep as int,
            i + 1,
        ));
        i = i + 1;
    }
    let mut out = String::new();
    push_chars(&mut out, chars_of("\u{2026}").as_slice());
    push_chars(&mut out, tail.as_slice());
    assert(v@.subrange(keep as int, v@.len() as int) == v@.skip(keep as int));
    out
}

/// The tokens still valid at `now`, in order.
pub open spec fn live_tokens(ts: Seq<PairingToken>, now: u64) -> Seq<PairingToken>
    decreases ts.len(),
{
    if ts.len() == 0 {
        ts
    } else if ts.last().expires_at >= now {
        live_tokens(ts.drop_last(), now).push(ts.last())
    } else {
        live_tokens(ts.drop_last(), now)
    }
}

pub proof fn lemma_live_tokens(ts: Seq<PairingToken>, now: u64)
    ensures
        live_tokens(ts, now).len() <= ts.len(),
        live_tokens(ts, now).len() == ts.len() <==> forall|i: int|
            0 <= i < ts.len() ==> (#[trigger] ts[i]).expires_at >= now,
        forall|i: int|
            0 <= i < live_tokens(ts, now).len() ==> (#[trigger] live_tokens(ts, now)[i]).expires_at
                >= now,
        forall|i: int|
            0 <= i < live_tokens(ts, now).len() ==> ts.contains(
                #[trigger] live_tokens(ts, now)[i],
            ),
        forall|i: int|
            0 <= i < ts.len() && (#[trigger] ts[i]).expires_at >= now ==> live_tokens(
                ts,
                now,
            ).contains(ts[i]),
    decreases ts.len(),
{
    if ts.len() > 0 {
        let p = ts.drop_last();
        lemma_live_tokens(p, now);
        let l = live_tokens(ts, now);
        assert forall|i: int| 0 <= i < l.len() implies ts.contains(#[trigger] l[i]) by {
            if i < live_tokens(p, now).len() {
                assert(p.contains(l[i]));
                let k = choose|k: int| 0 <= k < p.len() && p[k] == l[i];
                assert(ts[k] == l[i]);
            } else {
                assert(ts[ts.len() - 1] == l[i]);
            }
        }
        assert forall|i: int| 0 <= i < ts.len() && (#[trigger] ts[i]).expires_at >= now implies l.contains(
            ts[i],
        ) by {
            if i < ts.len() - 1 {
                assert(p[i] == ts[i]);
                assert(live_tokens(p, now).contains(p[i]));
                let k = choose|k: int| 0 <= k < live_tokens(p, now).len() && live_tokens(p, now)[k] == p[i];
                assert(l[k] == ts[i]);
            } else {
                assert(l[l.len() - 1] == ts[i]);
            }
        }
        if l.len() == ts.len() {
            assert(ts.last().expires_at >= now);
            assert forall|i: int| 0 <= i < ts.len() implies (#[trigger] ts[i]).expires_at >= now by {
                if i < ts.len() - 1 {
                    assert(p[i] == ts[i]);
                }
            }
        }
        if forall|i: int| 0 <= i < ts.len() ==> (#[trigger] ts[i]).expires_at >= now {
            assert forall|i: int| 0 <= i < p.len() implies (#[trigger] p[i]).expires_at >= now by {
                assert(p[i] == ts[i]);
            }
            assert(ts[ts.len() - 1].expires_at >= now);
        }
    }
}

pub fn clone_token(t: &PairingToken) -> (r: PairingToken)
    ensures
        r == *t,
{
    PairingToken {
        id: t.id.clone(),
        token: t.token.clone(),
        created_at: t.created_at,
        enabled: t.enabled,
        role: t.role,
        expires_at: t.expires_at,
    }
}

/// Drops the tokens that expired before `now`; true when any was dropped.
pub fn prune_expired_tokens(tokens: &mut Vec<PairingToken>, now: u64) -> (changed: bool)
    ensures
        final(tokens)@ == live_tokens(old(tokens)@, now),
        changed == (final(tokens)@.len() != old(tokens)@.len()),
{
    let mut kept: Vec<PairingToken> = Vec::new();
    let mut i: usize = 0;
    while i < tokens.len()
        invariant
            i <= tokens.len(),
            kept@ == live_tokens(tokens@.take(i as int), now),
        decreases tokens.len() - i,
    {
        assert(tokens@.take(i + 1).drop_last() == tokens@.take(i as int));
        if tokens[i].expires_at >= now {
            kept.push(clone_token(&tokens[i]));
        }
        i = i + 1;
    }
    assert(tokens@.take(tokens.len() as int) == tokens@);
    proof {
        lemma_live_tokens(tokens@, now);
    }
    let changed = kept.len() != tokens.len();
    *tokens = kept;
    changed
}


/// Number of enabled tokens.
pub open spec fn enabled_count(ts: Seq<PairingToken>) -> nat
    decreases ts.len(),
{
    if ts.len() == 0 {
        0
    } else {
        enabled_count(ts.drop_last()) + if ts.last().enabled {
            1nat
        } else {
            0nat
        }
    }
}

/// The role of the first enabled token whose secret is `token`.
pub open spec fn find_role(ts: Seq<PairingToken>, token: Seq<char>) -> Option<AccessRole>
    decreases ts.len(),
{
    if ts.len() == 0 {
        None
    } else if ts[0].enabled && ts[0].token@ == token {
        Some(ts[0].role)
    } else {
        find_role(ts.drop_first(), token)
    }
}

/// A token with `enabled` set as given.
pub open spec fn with_enabled(t: PairingToken, enabled: bool) -> PairingToken {
    PairingToken { enabled, ..t }
}

/// The tokens after revoking every token with identifier `id`.
pub open spec fn revoked(ts: Seq<PairingToken>, id: Seq<char>) -> Seq<PairingToken> {
    Seq::new(
        ts.len(),
        |i: int|
            if ts[i].id@ == id {
                with_enabled(ts[i], false)
            } else {
                ts[i]
            },
    )
}

/// The tokens with every one of them disabled.
pub open spec fn all_disabled(ts: Seq<PairingToken>) -> Seq<PairingToken> {
    Seq::new(ts.len(), |i: int| with_enabled(ts[i], false))
}

/// The expiry a loaded token gets when its file entry has none: the token lifetime
/// from creation, or one second from now if that has already passed.
pub open spec fn normalized_token(t: PairingToken, now: u64) -> PairingToken {
    if t.expires_at == 0 {
        let candidate = if t.created_at + PAIRING_TOKEN_TTL_SECS <= u64::MAX {
            (t.created_at + PAIRING_TOKEN_TTL_SECS) as u64
        } else {
            u64::MAX
        };
        PairingToken {
            expires_at: if candidate <= now {
                (now + 1) as u64
            } else {
                candidate
            },
            ..t
        }
    } else {
        t
    }
}

/// `loaded` is `file` with every token normalized at `now`.
pub open spec fn loaded_at(file: Seq<PairingToken>, loaded: Seq<PairingToken>, now: u64) -> bool {
    &&& loaded.len() == file.len()
    &&& forall|i: int| 0 <= i < file.len() ==> #[trigger] loaded[i] == normalized_token(file[i], now)
}

/// The identifier given to a token claimed at `now`.
pub open spec fn token_id(now: u64) -> Seq<char> {
    "pair-"@ + decimal(now as nat)
}

/// A claim of `code` at `now` succeeds against this pending code and these live
/// tokens.
pub open spec fn claim_succeeds(
    pending: Option<(Seq<char>, u64)>,
    live: Seq<PairingToken>,
    code: Seq<char>,
    now: u64,
) -> bool {
    match pending {
        Some((c, e)) => e >= now && c == trim(code) && enabled_count(live) < PAIRING_MAX_TOKENS,
        None => false,
    }
}

/// The pending code left by a failed claim: kept only when it was still valid and
/// the code did not match.
pub open spec fn pending_after_failed_claim(
    pending: Option<(Seq<char>, u64)>,
    code: Seq<char>,
    now: u64,
) -> Option<(Seq<char>, u64)> {
    match pending {
        Some((c, e)) => if e >= now && c != trim(code) {
            pending
        } else {
            None
        },
        None => None,
    }
}

pub proof fn lemma_enabled_count_bound(ts: Seq<PairingToken>)
    ensures
        enabled_count(ts) <= ts.len(),
    decreases ts.len(),
{
    if ts.len() > 0 {
        lemma_enabled_count_bound(ts.drop_last());
    }
}

pub proof fn lemma_live_enabled_count(ts: Seq<PairingToken>, now: u64)
    ensures
        enabled_count(live_tokens(ts, now)) <= enabled_count(ts),
    decreases ts.len(),
{
    if ts.len() > 0 {
        lemma_live_enabled_count(ts.drop_last(), now);
        if ts.last().expires_at >= now {
            assert(live_tokens(ts, now).drop_last() == live_tokens(ts.drop_last(), now));
        }
    }
}

fn count_enabled(ts: &Vec<PairingToken>) -> (r: usize)
    ensures
        r == enabled_count(ts@),
{
    let mut count: usize = 0;
    let mut i: usize = 0;
    while i < ts.len()
        invariant
            i <= ts.len(),
            count == enabled_count(ts@.take(i as int)),
            count <= i,
        decreases ts.len() - i,
    {
        assert(ts@.take(i + 1).drop_last() == ts@.take(i as int));
        if ts[i].enabled {
            count = count + 1;
        }
        i = i + 1;
    }
    assert(ts@.take(ts.len() as int) == ts@);
    count
}

fn count_live_enabled(ts: &Vec<PairingToken>, now: u64) -> (r: usize)
    ensures
        r == enabled_count(live_tokens(ts@, now)),
{
    let mut count: usize = 0;
    let mut i: usize = 0;
    while i < ts.len()
        invariant
            i <= ts.len(),
            count == enabled_count(live_tokens(ts@.take(i as int), now)),
            count <= i,
        decreases ts.len() - i,
    {
        let ghost t = ts@.take(i + 1);
        assert(t.drop_last() == ts@.take(i as int));
        assert(t.last() == ts@[i as int]);
        proof {
            lemma_live_tokens(ts@.take(i as int), now);
        }
        if ts[i].expires_at >= now {
            assert(live_tokens(t, now) == live_tokens(ts@.take(i as int), now).push(ts@[i as int]));
            assert(live_tokens(t, now).drop_last() == live_tokens(ts@.take(i as int), now));
            if ts[i].enabled {
                count = count + 1;
            }
        }
        i = i + 1;
    }
    assert(ts@.take(ts.len() as int) == ts@);
    count
}

fn lookup_role(ts: &Vec<PairingToken>, token: &str) -> (r: Option<AccessRole>)
    ensures
        r == find_role(ts@, token@),
{
    let mut i: usize = 0;
    assert(ts@.skip(0) == ts@);
    while i < ts.len()
        invariant
            i <= ts.len(),
            find_role(ts@, token@) == find_role(ts@.skip(i as int), token@),
        decreases ts.len() - i,
    {
        assert(ts@.skip(i as int)[0] == ts@[i as int]);
        assert(ts@.skip(i as int).drop_first() == ts@.skip(i + 1));
        if ts[i].enabled && str_eq(ts[i].token.as_str(), token) {
            return Some(ts[i].role);
        }
        i = i + 1;
    }
    None
}

/// No token lacks an expiry: nothing to fill in at load time.
pub open spec fn all_expiring(ts: Seq<PairingToken>) -> bool {
    forall|i: int| 0 <= i < ts.len() ==> (#[trigger] ts[i]).expires_at != 0
}

/// Gives tokens loaded without an expiry one (see `normalized_token`). At the
/// largest time the expiry one second later does not exist, so no token may
/// then lack one.
pub fn normalize_loaded_tokens(tokens: &mut Vec<PairingToken>, now: u64)
    requires
        now < u64::MAX || all_expiring(old(tokens)@),
    ensures
        final(tokens)@.len() == old(tokens)@.len(),
        forall|i: int|
            0 <= i < old(tokens)@.len() ==> #[trigger] final(tokens)@[i] == normalized_token(
                old(tokens)@[i],
                now,
            ),
{
    let mut i: usize = 0;
    while i < tokens.len()
        invariant
            now < u64::MAX || all_expiring(old(tokens)@),
            i <= tokens.len(),
            tokens@.len() == old(tokens)@.len(),
            forall|k: int| 0 <= k < i ==> #[trigger] tokens@[k] == normalized_token(old(tokens)@[k], now),
            forall|k: int| i <= k < tokens@.len() ==> #[trigger] tokens@[k] == old(tokens)@[k],
        decreases tokens.len() - i,
    {
        if tokens[i].expires_at == 0 {
            let candidate = tokens[i].created_at.saturating_add(PAIRING_TOKEN_TTL_SECS);
            let t = clone_token(&tokens[i]);
            let fixed = PairingToken {
                expires_at: if candidate <= now {
                    now + 1
                } else {
                    candidate
                },
                ..t
            };
            tokens.set(i, fixed);
        }
        i = i + 1;
    }
}

impl PairingStore {
    /// The stored tokens.
    pub closed spec fn tokens_spec(&self) -> Seq<PairingToken> {
        self.tokens@
    }

    /// The pending pairing code and its expiry.
    pub closed spec fn pending_spec(&self) -> Option<(Seq<char>, u64)> {
        match self.pending {
            Some(p) => Some((p.code@, p.expires_at)),
            None => None,
        }
    }

    /// Whether the token file must be rewritten.
    pub closed spec fn persist_spec(&self) -> bool {
        self.persist_requested
    }

    /// A store over tokens read from the token file, at time `current_time`.
    pub fn with_clock(tokens: Vec<PairingToken>, current_time: u64) -> (r: Self)
        requires
            current_time < u64::MAX || all_expiring(tokens@),
        ensures
            loaded_at(tokens@, r.tokens_spec(), current_time),
            r.pending_spec().is_none(),
            !r.persist_spec(),
    {
        let mut tokens = tokens;
        normalize_loaded_tokens(&mut tokens, current_time);
        PairingStore { tokens, pending: None, persist_requested: false }
    }

    /// A store over tokens read from the token file, at the current time. At a
    /// reading of the largest time, a token without an expiry would get one a
    /// second later, which does not exist; only then is the reading taken as one
    /// second earlier.
    pub fn load(tokens: Vec<PairingToken>) -> (r: Self)
        ensures
            exists|t: u64| (t < u64::MAX || all_expiring(tokens@)) && #[trigger] loaded_at(tokens@, r.tokens_spec(), t),
            r.pending_spec().is_none(),
            !r.persist_spec(),
    {
        let now = now_secs();
        if now < u64::MAX {
            return Self::with_clock(tokens, now);
        }
        let mut i: usize = 0;
        while i < tokens.len()
            invariant
                i <= tokens.len(),
                forall|k: int| 0 <= k < i ==> (#[trigger] tokens@[k]).expires_at != 0,
            decreases tokens.len() - i,
        {
            if tokens[i].expires_at == 0 {
                return Self::with_clock(tokens, u64::MAX - 1);
            }
            i = i + 1;
        }
        Self::with_clock(tokens, now)
    }

    /// Issues a new pairing code valid for `PAIRING_CODE_TTL_SECS`, replacing any
    /// pending one, and drops expired tokens.
    pub fn start_pairing(&mut self, now: u64) -> (r: PairingCode)
        requires
            now <= u64::MAX - PAIRING_CODE_TTL_SECS,
        ensures
            exists|v: nat| r.code@ == pairing_code_text(v),
            r.expires_at == now + PAIRING_CODE_TTL_SECS,
            final(self).pending_spec() == Some((r.code@, r.expires_at)),
            final(self).tokens_spec() == live_tokens(old(self).tokens_spec(), now),
            final(self).persist_spec() == (old(self).persist_spec() || final(self).tokens_spec().len() != old(self).tokens_spec().len()),
    {
        let code = generate_code();
        let expires_at = now + PAIRING_CODE_TTL_SECS;
        let changed = prune_expired_tokens(&mut self.tokens, now);
        if changed {
            self.persist_requested = true;
        }
        self.pending = Some(PendingCode { code: code.clone(), expires_at });
        PairingCode { code, expires_at }
    }

    /// Whether claiming `code` at `now` would succeed, without claiming it.
    pub fn claim_would_succeed(&self, code: &str, now: u64) -> (r: bool)
        ensures
            r == claim_succeeds(self.pending_spec(), live_tokens(self.tokens_spec(), now), code@, now),
    {
        match &self.pending {
            None => false,
            Some(p) => {
                if p.expires_at < now {
                    return false;
                }
                let given = trim_chars(chars_of(code).as_slice());
                let expected = chars_of(p.code.as_str());
                chars_eq(expected.as_slice(), given.as_slice())
                    && count_live_enabled(&self.tokens, now) < PAIRING_MAX_TOKENS
            },
        }
    }

    /// Claims the pending code for an access token with the requested role
    /// (sanitized). The pending code is used up unless the claim failed only because
    /// the code did not match.
    pub fn claim(&mut self, code: &str, requested_role: Option<AccessRole>, now: u64) -> (r:
        Option<String>)
        requires
            claim_succeeds(old(self).pending_spec(), live_tokens(old(self).tokens_spec(), now), code@, now)
                ==> now <= u64::MAX - PAIRING_TOKEN_TTL_SECS,
        ensures
            ({
                let live = live_tokens(old(self).tokens_spec(), now);
                &&& r.is_some() == claim_succeeds(old(self).pending_spec(), live, code@, now)
                &&& match r {
                    Some(token) => {
                        &&& exists|b: Seq<u8>| b.len() == 32 && token@ == base64_url_no_pad(b)
                        &&& final(self).tokens_spec().len() == live.len() + 1
                        &&& final(self).tokens_spec().drop_last() == live
                        &&& final(self).tokens_spec().last().id@ == token_id(now)
                        &&& final(self).tokens_spec().last().token == token
                        &&& final(self).tokens_spec().last().created_at == now
                        &&& final(self).tokens_spec().last().enabled
                        &&& final(self).tokens_spec().last().role == sanitized_role(requested_role)
                        &&& final(self).tokens_spec().last().expires_at == now
                            + PAIRING_TOKEN_TTL_SECS
                        &&& final(self).pending_spec().is_none()
                        &&& final(self).persist_spec()
                    },
                    None => {
                        &&& final(self).tokens_spec() == live
                        &&& final(self).pending_spec() == pending_after_failed_claim(
                            old(self).pending_spec(),
                            code@,
                            now,
                        )
                        &&& final(self).persist_spec() == old(self).persist_spec()
                    },
                }
            }),
    {
        prune_expired_tokens(&mut self.tokens, now);
        let pending = match self.pending.take() {
            Some(p) => p,
            None => return None,
        };
        if pending.expires_at < now {
            return None;
        }
        let given = chars_of(code);
        let given = trim_chars(given.as_slice());
        let expected = chars_of(pending.code.as_str());
        if !chars_eq(expected.as_slice(), given.as_slice()) {
            self.pending = Some(pending);
            return None;
        }
        if count_enabled(&self.tokens) >= PAIRING_MAX_TOKENS {
            return None;
        }
        let role = sanitize_requested_role(requested_role);
        let token = generate_token();
        let mut id = String::new();
        push_chars(&mut id, chars_of("pair-").as_slice());
        push_chars(&mut id, decimal_chars(now).as_slice());
        self.tokens.push(
            PairingToken {
                id,
                token: token.clone(),
                created_at: now,
                enabled: true,
                role,
                expires_at: now + PAIRING_TOKEN_TTL_SECS,
            },
        );
        self.persist_requested = true;
        Some(token)
    }

    /// Whether `token` is a valid access token at `now`.
    pub fn validate(&mut self, token: &str, now: u64) -> (r: bool)
        ensures
            r == find_role(live_tokens(old(self).tokens_spec(), now), token@).is_some(),
            final(self).tokens_spec() == live_tokens(old(self).tokens_spec(), now),
            final(self).pending_spec() == old(self).pending_spec(),
            final(self).persist_spec() == (old(self).persist_spec() || final(self).tokens_spec().len() != old(self).tokens_spec().len()),
    {
        self.validate_with_role(token, now).is_some()
    }

    /// The role of `token` if it is a valid access token at `now`.
    pub fn validate_with_role(&mut self, token: &str, now: u64) -> (r: Option<AccessRole>)
        ensures
            r == find_role(live_tokens(old(self).tokens_spec(), now), token@),
            final(self).tokens_spec() == live_tokens(old(self).tokens_spec(), now),
            final(self).pending_spec() == old(self).pending_spec(),
            final(self).persist_spec() == (old(self).persist_spec() || final(self).tokens_spec().len() != old(self).tokens_spec().len()),
    {
        let changed = prune_expired_tokens(&mut self.tokens, now);
        let role = lookup_role(&self.tokens, token);
        if changed {
            self.persist_requested = true;
        }
        role
    }

    /// Summaries of the tokens valid at `now`.
    pub fn list(&mut self, now: u64) -> (r: Vec<PairingSummary>)
        ensures
            final(self).tokens_spec() == live_tokens(old(self).tokens_spec(), now),
            final(self).pending_spec() == old(self).pending_spec(),
            final(self).persist_spec() == (old(self).persist_spec() || final(self).tokens_spec().len() != old(self).tokens_spec().len()),
            r.len() == final(self).tokens_spec().len(),
            forall|i: int|
                0 <= i < r.len() ==> {
                    let t = final(self).tokens_spec()[i];
                    &&& (#[trigger] r@[i]).id == t.id
                    &&& r@[i].enabled == t.enabled
                    &&& r@[i].created_at == t.created_at
                    &&& r@[i].expires_at == t.expires_at
                    &&& r@[i].role == t.role
                    &&& r@[i].tail@ == masked_tail(t.token@)
                },
    {
        let changed = prune_expired_tokens(&mut self.tokens, now);
        let mut out: Vec<PairingSummary> = Vec::new();
        let mut i: usize = 0;
        while i < self.tokens.len()
            invariant
                i <= self.tokens.len(),
                out.len() == i,
                forall|k: int|
                    0 <= k < i ==> {
                        let t = self.tokens@[k];
                        &&& (#[trigger] out@[k]).id == t.id
                        &&& out@[k].enabled == t.enabled
                        &&& out@[k].created_at == t.created_at
                        &&& out@[k].expires_at == t.expires_at
                        &&& out@[k].role == t.role
                        &&& out@[k].tail@ == masked_tail(t.token@)
                    },
            decreases self.tokens.len() - i,
        {
            let t = &self.tokens[i];
            out.push(
                PairingSummary {
                    id: t.id.clone(),
                    enabled: t.enabled,
                    created_at: t.created_at,
                    expires_at: t.expires_at,
                    role: t.role,
                    tail: mask_tail(t.token.as_str()),
                },
            );
            i = i + 1;
        }
        if changed {
            self.persist_requested = true;
        }
        out
    }

    /// Disables every token with identifier `id`; true when there was one.
    pub fn revoke(&mut self, id: &str, now: u64) -> (r: bool)
        ensures
            ({
                let live = live_tokens(old(self).tokens_spec(), now);
                &&& final(self).tokens_spec() == revoked(live, id@)
                &&& r == exists|i: int| 0 <= i < live.len() && (#[trigger] live[i]).id@ == id@
                &&& final(self).pending_spec() == old(self).pending_spec()
                &&& final(self).persist_spec() == (old(self).persist_spec() || r)
            }),
    {
        prune_expired_tokens(&mut self.tokens, now);
        let ghost live = self.tokens@;
        let ghost pend = self.pending_spec();
        let ghost persist = self.persist_requested;
        let mut changed = false;
        let mut i: usize = 0;
        while i < self.tokens.len()
            invariant
                self.pending_spec() == pend,
                self.persist_requested == persist,
                i <= self.tokens.len(),
                self.tokens@.len() == live.len(),
                forall|k: int|
                    0 <= k < i ==> #[trigger] self.tokens@[k] == (if live[k].id@ == id@ {
                        with_enabled(live[k], false)
                    } else {
                        live[k]
                    }),
                forall|k: int| i <= k < live.len() ==> #[trigger] self.tokens@[k] == live[k],
                changed == exists|k: int| 0 <= k < i && (#[trigger] live[k]).id@ == id@,
            decreases self.tokens.len() - i,
        {
            if str_eq(self.tokens[i].id.as_str(), id) {
                let t = clone_token(&self.tokens[i]);
                self.tokens.set(i, PairingToken { enabled: false, ..t });
                changed = true;
            }
            i = i + 1;
        }
        assert(self.tokens@ == revoked(live, id@));
        if changed {
            self.persist_requested = true;
        }
        changed
    }

    /// Disables every enabled token; returns how many were enabled.
    pub fn revoke_all(&mut self, now: u64) -> (r: usize)
        ensures
            ({
                let live = live_tokens(old(self).tokens_spec(), now);
                &&& final(self).tokens_spec() == all_disabled(live)
                &&& r == enabled_count(live)
                &&& final(self).pending_spec() == old(self).pending_spec()
                &&& final(self).persist_spec() == (old(self).persist_spec() || r > 0)
            }),
    {
        prune_expired_tokens(&mut self.tokens, now);
        let ghost live = self.tokens@;
        let ghost pend = self.pending_spec();
        let ghost persist = self.persist_requested;
        let mut count: usize = 0;
        let mut i: usize = 0;
        while i < self.tokens.len()
            invariant
                self.pending_spec() == pend,
                self.persist_requested == persist,
                i <= self.tokens.len(),
                self.tokens@.len() == live.len(),
                forall|k: int|
                    0 <= k < i ==> #[trigger] self.tokens@[k] == with_enabled(live[k], false),
                forall|k: int| i <= k < live.len() ==> #[trigger] self.tokens@[k] == live[k],
                count == enabled_count(live.take(i as int)),
                count <= i,
            decreases self.tokens.len() - i,
        {
            assert(live.take(i + 1).drop_last() == live.take(i as int));
            if self.tokens[i].enabled {
                count = count + 1;
            }
            let t = clone_token(&self.tokens[i]);
            self.tokens.set(i, PairingToken { enabled: false, ..t });
            i = i + 1;
        }
        assert(live.take(live.len() as int) == live);
        assert(self.tokens@ == all_disabled(live));
        if count > 0 {
            self.persist_requested = true;
        }
        count
    }

    /// The stored tokens, for writing the token file.
    pub fn tokens(&self) -> (r: &Vec<PairingToken>)
        ensures
            r@ == self.tokens_spec(),
    {
        &self.tokens
    }

    /// Whether the token file must be rewritten; clears the request.
    pub fn take_persist_request(&mut self) -> (r: bool)
        ensures
            r == old(self).persist_spec(),
            !final(self).persist_spec(),
            final(self).tokens_spec() == old(self).tokens_spec(),
            final(self).pending_spec() == old(self).pending_spec(),
    {
        let r = self.persist_requested;
        self.persist_requested = false;
        r
    }
}


proof fn lemma_find_role_absent(ts: Seq<PairingToken>, token: Seq<char>)
    requires
        forall|i: int| 0 <= i < ts.len() ==> !((#[trigger] ts[i]).enabled && ts[i].token@ == token),
    ensures
        find_role(ts, token).is_none(),
    decreases ts.len(),
{
    if ts.len() > 0 {
        assert forall|i: int| 0 <= i < ts.drop_first().len() implies !((
        #[trigger] ts.drop_first()[i]).enabled && ts.drop_first()[i].token@ == token) by {
            assert(ts.drop_first()[i] == ts[i + 1]);
        }
        lemma_find_role_absent(ts.drop_first(), token);
    }
}

proof fn lemma_find_role_last(ts: Seq<PairingToken>, token: Seq<char>)
    requires
        ts.len() > 0,
        ts.last().enabled,
        ts.last().token@ == token,
        forall|i: int|
            0 <= i < ts.len() - 1 ==> !((#[trigger] ts[i]).enabled && ts[i].token@ == token),
    ensures
        find_role(ts, token) == Some(ts.last().role),
    decreases ts.len(),
{
    if ts.len() > 1 {
        let t = ts.drop_first();
        assert forall|i: int| 0 <= i < t.len() - 1 implies !((#[trigger] t[i]).enabled && t[i].token@
            == token) by {
            assert(t[i] == ts[i + 1]);
        }
        assert(t.last() == ts.last());
        assert(!(ts[0].enabled && ts[0].token@ == token));
        lemma_find_role_last(t, token);
    }
}

/// A token handed out by a claim is accepted, with the role it was claimed for,
/// for as long as it has not expired: validating it at any time `later` up to its
/// expiry gives its role back, unless an older enabled token happens to carry the
/// same secret.
pub proof fn law_claimed_token_validates(tokens: Seq<PairingToken>, later: u64)
    requires
        tokens.len() > 0,
        tokens.last().enabled,
        tokens.last().expires_at >= later,
        forall|i: int|
            0 <= i < tokens.len() - 1 ==> !((#[trigger] tokens[i]).enabled && tokens[i].token@
                == tokens.last().token@),
    ensures
        find_role(live_tokens(tokens, later), tokens.last().token@) == Some(tokens.last().role),
{
    let l = live_tokens(tokens, later);
    let p = live_tokens(tokens.drop_last(), later);
    lemma_live_tokens(tokens.drop_last(), later);
    assert(l == p.push(tokens.last()));
    assert forall|i: int| 0 <= i < l.len() - 1 implies !((#[trigger] l[i]).enabled && l[i].token@
        == tokens.last().token@) by {
        assert(l[i] == p[i]);
        assert(tokens.drop_last().contains(p[i]));
        let k = choose|k: int| 0 <= k < tokens.drop_last().len() && tokens.drop_last()[k] == p[i];
        assert(tokens[k] == p[i]);
    }
    lemma_find_role_last(l, tokens.last().token@);
}

proof fn lemma_find_role_some(s: Seq<PairingToken>, token: Seq<char>)
    ensures
        find_role(s, token) is Some <==> exists|i: int|
            0 <= i < s.len() && (#[trigger] s[i]).enabled && s[i].token@ == token,
    decreases s.len(),
{
    if s.len() > 0 {
        let d = s.drop_first();
        lemma_find_role_some(d, token);
        if exists|i: int| 0 <= i < s.len() && (#[trigger] s[i]).enabled && s[i].token@ == token {
            let i = choose|i: int| 0 <= i < s.len() && (#[trigger] s[i]).enabled && s[i].token@ == token;
            if i > 0 {
                assert(d[i - 1] == s[i]);
            }
        }
        if exists|i: int| 0 <= i < d.len() && (#[trigger] d[i]).enabled && d[i].token@ == token {
            let i = choose|i: int| 0 <= i < d.len() && (#[trigger] d[i]).enabled && d[i].token@ == token;
            assert(s[i + 1] == d[i]);
        }
    }
}

/// Validating a token is asking whether it has a role: a token is valid at `now`
/// exactly when some stored token carries the same secret, is enabled and has not
/// expired by `now`.
pub proof fn law_validate_is_role_lookup(tokens: Seq<PairingToken>, token: Seq<char>, now: u64)
    ensures
        find_role(live_tokens(tokens, now), token) is Some <==> exists|i: int|
            0 <= i < tokens.len() && (#[trigger] tokens[i]).enabled && tokens[i].token@ == token
                && tokens[i].expires_at >= now,
{
    let l = live_tokens(tokens, now);
    lemma_live_tokens(tokens, now);
    lemma_find_role_some(l, token);
    if exists|i: int| 0 <= i < l.len() && (#[trigger] l[i]).enabled && l[i].token@ == token {
        let i = choose|i: int| 0 <= i < l.len() && (#[trigger] l[i]).enabled && l[i].token@ == token;
        assert(tokens.contains(l[i]));
        let k = choose|k: int| 0 <= k < tokens.len() && tokens[k] == l[i];
        assert(tokens[k].enabled && tokens[k].token@ == token && tokens[k].expires_at >= now);
    }
    if exists|i: int| 0 <= i < tokens.len() && (#[trigger] tokens[i]).enabled && tokens[i].token@ == token
        && tokens[i].expires_at >= now {
        let i = choose|i: int| 0 <= i < tokens.len() && (#[trigger] tokens[i]).enabled && tokens[i].token@ == token
            && tokens[i].expires_at >= now;
        assert(l.contains(tokens[i]));
        let k = choose|k: int| 0 <= k < l.len() && l[k] == tokens[i];
        assert(l[k].enabled && l[k].token@ == token);
    }
}

/// A pairing code can be claimed once: a successful claim leaves no pending code,
/// and without a pending code every claim fails.
pub proof fn law_code_is_single_use(live: Seq<PairingToken>, code: Seq<char>, now: u64)
    ensures
        !claim_succeeds(None, live, code, now),
{
}

/// A pairing code cannot be claimed after it expired.
pub proof fn law_expired_code_rejected(
    code_text: Seq<char>,
    expires_at: u64,
    live: Seq<PairingToken>,
    code: Seq<char>,
    now: u64,
)
    requires
        now > expires_at,
    ensures
        !claim_succeeds(Some((code_text, expires_at)), live, code, now),
{
}

/// A token is refused once every stored token with its secret has expired.
pub proof fn law_expired_token_rejected(tokens: Seq<PairingToken>, token: Seq<char>, later: u64)
    requires
        forall|i: int|
            0 <= i < tokens.len() && (#[trigger] tokens[i]).token@ == token ==> tokens[i].expires_at
                < later,
    ensures
        find_role(live_tokens(tokens, later), token).is_none(),
{
    let l = live_tokens(tokens, later);
    lemma_live_tokens(tokens, later);
    assert forall|i: int| 0 <= i < l.len() implies !((#[trigger] l[i]).enabled && l[i].token@
        == token) by {
        assert(tokens.contains(l[i]));
        let k = choose|k: int| 0 <= k < tokens.len() && tokens[k] == l[i];
        assert(l[i].expires_at >= later);
    }
    lemma_find_role_absent(l, token);
}

/// Revoking an identifier refuses every token stored under it.
pub proof fn law_revoked_token_rejected(tokens: Seq<PairingToken>, id: Seq<char>, token: Seq<char>)
    requires
        forall|i: int|
            0 <= i < tokens.len() && (#[trigger] tokens[i]).token@ == token ==> tokens[i].id@ == id,
    ensures
        find_role(revoked(tokens, id), token).is_none(),
{
    let r = revoked(tokens, id);
    assert forall|i: int| 0 <= i < r.len() implies !((#[trigger] r[i]).enabled && r[i].token@
        == token) by {
        if tokens[i].token@ == token {
            assert(tokens[i].id@ == id);
        }
    }
    lemma_find_role_absent(r, token);
}

/// After revoking all tokens, no token is accepted.
pub proof fn law_revoke_all_rejects_every_token(tokens: Seq<PairingToken>, token: Seq<char>)
    ensures
        find_role(all_disabled(tokens), token).is_none(),
{
    let r = all_disabled(tokens);
    assert forall|i: int| 0 <= i < r.len() implies !((#[trigger] r[i]).enabled && r[i].token@
        == token) by {
    }
    lemma_find_role_absent(r, token);
}

/// Claims never raise the number of enabled tokens above `PAIRING_MAX_TOKENS`:
/// a successful claim adds one enabled token to fewer than the limit.
pub proof fn law_token_limit(
    pending: Option<(Seq<char>, u64)>,
    live: Seq<PairingToken>,
    code: Seq<char>,
    now: u64,
    claimed: PairingToken,
)
    requires
        claim_succeeds(pending, live, code, now),
    ensures
        enabled_count(live.push(claimed)) <= PAIRING_MAX_TOKENS,
{
    assert(live.push(claimed).drop_last() == live);
}

/// Pruning expired tokens never increases the number of enabled tokens.
pub proof fn law_pruning_keeps_limit(tokens: Seq<PairingToken>, now: u64)
    ensures
        enabled_count(live_tokens(tokens, now)) <= enabled_count(tokens),
{
    lemma_live_enabled_count(tokens, now);
}

} // verus!
