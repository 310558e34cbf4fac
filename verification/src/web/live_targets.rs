//! The live runtimes the configuration UI can connect to: the saved targets with
//! their labels, the one connected to, its token, and what the last fetch of its
//! runtime-cloud state gave.
use vstd::prelude::*;

use crate::text::{chars_of, string_of, trim, trim_chars};
use crate::ui::actions::{keys_ordered, lemma_upsert_keys, pairs_view, upsert, upsert_exec};
use crate::web::config_ui::{config_error_message, http_target_spec, normalize_live_target, ConfigError};

verus! {

/// What the live-target manager holds, as plain values.
pub struct LiveView {
    /// Saved targets and their labels, ordered by target.
    pub profiles: Seq<(Seq<char>, Seq<char>)>,
    pub active_target: Option<Seq<char>>,
    pub active_token: Option<Seq<char>>,
    pub connected: bool,
    pub last_error: Option<Seq<char>>,
    /// The last runtime-cloud state fetched, as JSON text.
    pub last_runtime_cloud: Option<Seq<char>>,
    pub updated_at_ns: u64,
}

/// The live-target manager of the configuration UI.
#[derive(Debug)]
pub struct LiveTargets {
    profiles: Vec<(String, String)>,
    active_target: Option<String>,
    active_token: Option<String>,
    connected: bool,
    last_error: Option<String>,
    last_runtime_cloud: Option<String>,
    updated_at_ns: u64,
}

pub open spec fn opt_view(o: Option<String>) -> Option<Seq<char>> {
    match o {
        Some(s) => Some(s@),
        None => None,
    }
}

/// The trimmed text, when it is not blank.
pub open spec fn non_blank(o: Option<Seq<char>>) -> Option<Seq<char>> {
    match o {
        Some(s) => if trim(s).len() > 0 { Some(trim(s)) } else { None },
        None => None,
    }
}

/// Whether a target is saved.
pub open spec fn has_target(profiles: Seq<(Seq<char>, Seq<char>)>, t: Seq<char>) -> bool {
    exists|i: int| 0 <= i < profiles.len() && (#[trigger] profiles[i]).0 == t
}

/// The saved targets without `t`, in their order.
pub open spec fn without_target(profiles: Seq<(Seq<char>, Seq<char>)>, t: Seq<char>) -> Seq<(Seq<char>, Seq<char>)>
    decreases profiles.len(),
{
    if profiles.len() == 0 {
        profiles
    } else {
        let rest = without_target(profiles.drop_last(), t);
        if profiles.last().0 != t { rest.push(profiles.last()) } else { rest }
    }
}

proof fn lemma_without_target(p: Seq<(Seq<char>, Seq<char>)>, t: Seq<char>)
    ensures
        !has_target(without_target(p, t), t),
        forall|x: (Seq<char>, Seq<char>)| without_target(p, t).contains(x) ==> p.contains(x),
        forall|x: (Seq<char>, Seq<char>)| p.contains(x) && x.0 != t ==> without_target(p, t).contains(x),
        keys_ordered(p) ==> keys_ordered(without_target(p, t)),
    decreases p.len(),
{
    if p.len() > 0 {
        let d = p.drop_last();
        let r = without_target(d, t);
        lemma_without_target(d, t);
        let w = without_target(p, t);
        assert forall|x: (Seq<char>, Seq<char>)| w.contains(x) implies p.contains(x) by {
            let i = choose|i: int| 0 <= i < w.len() && w[i] == x;
            if i < r.len() {
                assert(r[i] == x);
                assert(r.contains(x));
                assert(d.contains(x));
                let j = choose|j: int| 0 <= j < d.len() && d[j] == x;
                assert(p[j] == x);
            } else {
                assert(p[p.len() - 1] == x);
            }
        }
        assert forall|x: (Seq<char>, Seq<char>)| p.contains(x) && x.0 != t implies w.contains(x) by {
            let j = choose|j: int| 0 <= j < p.len() && p[j] == x;
            if j < p.len() - 1 {
                assert(d[j] == x);
                assert(d.contains(x));
                assert(r.contains(x));
                let i = choose|i: int| 0 <= i < r.len() && r[i] == x;
                assert(w[i] == x);
            } else {
                assert(w[w.len() - 1] == x);
            }
        }
        assert(!has_target(w, t)) by {
            if has_target(w, t) {
                let i = choose|i: int| 0 <= i < w.len() && (#[trigger] w[i]).0 == t;
                if i < r.len() {
                    assert(r[i].0 == t);
                }
            }
        }
        if keys_ordered(p) {
            assert(keys_ordered(d)) by {
                assert forall|a: int, b: int| 0 <= a < b < d.len() implies crate::ide::order::lex_lt(#[trigger] d[a].0, #[trigger] d[b].0) by {
                    assert(d[a] == p[a] && d[b] == p[b]);
                }
            }
            assert forall|a: int, b: int| 0 <= a < b < w.len() implies crate::ide::order::lex_lt(#[trigger] w[a].0, #[trigger] w[b].0) by {
                if b < r.len() {
                    assert(w[a] == r[a] && w[b] == r[b]);
                } else {
                    assert(w[a] == r[a]);
                    assert(r.contains(r[a]));
                    assert(d.contains(r[a]));
                    let j = choose|j: int| 0 <= j < d.len() && d[j] == r[a];
                    assert(p[j] == r[a]);
                    assert(w[b] == p[p.len() - 1]);
                }
            }
        }
    }
}

/// Saving a target with its label (the target itself when none is given).
pub open spec fn upsert_spec(v: LiveView, t: Seq<char>, label: Option<Seq<char>>, now: u64) -> LiveView {
    LiveView {
        profiles: upsert(v.profiles, t, match non_blank(label) { Some(l) => l, None => t }),
        updated_at_ns: now,
        ..v
    }
}

/// Forgetting a target; forgetting the connected one disconnects.
pub open spec fn remove_spec(v: LiveView, t: Seq<char>, now: u64) -> LiveView {
    if v.active_target == Some(t) {
        LiveView {
            profiles: without_target(v.profiles, t),
            active_target: None,
            active_token: None,
            connected: false,
            last_error: None,
            last_runtime_cloud: None,
            updated_at_ns: now,
        }
    } else {
        LiveView { profiles: without_target(v.profiles, t), updated_at_ns: now, ..v }
    }
}

/// Choosing what to connect to: with no target the manager disconnects; a
/// target not saved yet is saved under its own name, becomes the connected one,
/// and keeps the token given or the one before.
pub open spec fn connect_spec(v: LiveView, chosen: Option<Seq<char>>, token: Option<Seq<char>>, now: u64) -> LiveView {
    match chosen {
        None => LiveView {
            active_target: None,
            connected: false,
            last_error: None,
            last_runtime_cloud: None,
            updated_at_ns: now,
            ..v
        },
        Some(t) => LiveView {
            profiles: if has_target(v.profiles, t) { v.profiles } else { upsert(v.profiles, t, t) },
            active_target: Some(t),
            active_token: match non_blank(token) {
                Some(k) => Some(k),
                None => v.active_token,
            },
            ..v
        },
    }
}

/// Recording what fetching the state of `chosen` gave: its JSON text, or the
/// error.
pub open spec fn fetched_spec(v: LiveView, chosen: Seq<char>, result: Result<Seq<char>, Seq<char>>, now: u64) -> LiveView {
    match result {
        Ok(json) => LiveView {
            active_target: Some(chosen),
            connected: true,
            last_error: None,
            last_runtime_cloud: Some(json),
            updated_at_ns: now,
            ..v
        },
        Err(e) => LiveView {
            active_target: Some(chosen),
            connected: false,
            last_error: Some(e),
            last_runtime_cloud: None,
            updated_at_ns: now,
            ..v
        },
    }
}

/// The target a request names (normalized) or, without one, the connected target.
pub open spec fn chosen_spec(v: LiveView, target: Option<Seq<char>>) -> Result<Option<Seq<char>>, Seq<char>> {
    match non_blank(target) {
        Some(t) => match http_target_spec(t) {
            Ok(n) => Ok(Some(n)),
            Err(e) => Err(e),
        },
        None => Ok(v.active_target),
    }
}

fn non_blank_exec(o: Option<&str>) -> (r: Option<String>)
    ensures
        opt_view(r) == non_blank(match o { Some(s) => Some(s@), None => None }),
{
    match o {
        Some(s) => {
            let raw = chars_of(s);
            let t = trim_chars(raw.as_slice());
            if t.len() > 0 { Some(string_of(t.as_slice())) } else { None }
        },
        None => None,
    }
}

fn copy_opt(o: &Option<String>) -> (r: Option<String>)
    ensures
        opt_view(r) == opt_view(*o),
{
    match o {
        Some(s) => Some(s.clone()),
        None => None,
    }
}

impl View for LiveTargets {
    type V = LiveView;

    closed spec fn view(&self) -> LiveView {
        LiveView {
            profiles: pairs_view(self.profiles@),
            active_target: opt_view(self.active_target),
            active_token: opt_view(self.active_token),
            connected: self.connected,
            last_error: opt_view(self.last_error),
            last_runtime_cloud: opt_view(self.last_runtime_cloud),
            updated_at_ns: self.updated_at_ns,
        }
    }
}

impl LiveTargets {
    /// Saved targets are ordered by target, each once.
    pub open spec fn wf(&self) -> bool {
        keys_ordered(self@.profiles)
    }

    pub fn new() -> (r: Self)
        ensures
            r.wf(),
            r@.profiles == Seq::<(Seq<char>, Seq<char>)>::empty(),
            r@.active_target is None,
            r@.active_token is None,
            !r@.connected,
            r@.last_error is None,
            r@.last_runtime_cloud is None,
            r@.updated_at_ns == 0,
    {
        let r = LiveTargets {
            profiles: Vec::new(),
            active_target: None,
            active_token: None,
            connected: false,
            last_error: None,
            last_runtime_cloud: None,
            updated_at_ns: 0,
        };
        assert(r@.profiles =~= Seq::<(Seq<char>, Seq<char>)>::empty());
        r
    }

    /// Saves `target` (normalized) with a label; an invalid target changes nothing.
    pub fn upsert_target(&mut self, target: &str, label: Option<&str>, now_ns: u64) -> (r: Result<String, ConfigError>)
        requires
            old(self).wf(),
        ensures
            final(self).wf(),
            match r {
                Ok(t) => http_target_spec(target@) == Ok::<Seq<char>, Seq<char>>(t@) && final(self)@ == upsert_spec(
                    old(self)@,
                    t@,
                    match label { Some(l) => Some(l@), None => None },
                    now_ns,
                ),
                Err(e) => http_target_spec(target@) == Err::<Seq<char>, Seq<char>>(config_error_message(e))
                    && final(self)@ == old(self)@,
            },
    {
        let t = normalize_live_target(target)?;
        let l = match non_blank_exec(label) {
            Some(l) => l,
            None => t.clone(),
        };
        proof {
            lemma_upsert_keys(self@.profiles, t@, l@);
        }
        upsert_exec(&mut self.profiles, t.as_str(), l.as_str());
        self.updated_at_ns = now_ns;
        Ok(t)
    }

    fn remove_profile(&mut self, t: &str)
        requires
            old(self).wf(),
        ensures
            final(self).wf(),
            final(self)@ == (LiveView { profiles: without_target(old(self)@.profiles, t@), ..old(self)@ }),
    {
        let ghost p = self@.profiles;
        let mut kept: Vec<(String, String)> = Vec::new();
        let mut i: usize = 0;
        assert(p.take(0) =~= Seq::<(Seq<char>, Seq<char>)>::empty());
        assert(pairs_view(kept@) =~= without_target(p.take(0), t@));
        while i < self.profiles.len()
            invariant
                i <= self.profiles.len(),
                p == pairs_view(self.profiles@),
                p.len() == self.profiles.len(),
                pairs_view(kept@) == without_target(p.take(i as int), t@),
            decreases self.profiles.len() - i,
        {
            assert(p.take(i + 1).drop_last() =~= p.take(i as int));
            assert(p.take(i + 1).last() == p[i as int]);
            assert(p[i as int] == (self.profiles@[i as int].0@, self.profiles@[i as int].1@));
            if !crate::text::str_eq(self.profiles[i].0.as_str(), t) {
                let ghost before = kept@;
                kept.push((self.profiles[i].0.clone(), self.profiles[i].1.clone()));
                assert(pairs_view(kept@) =~= pairs_view(before).push(p[i as int]));
            }
            i = i + 1;
        }
        assert(p.take(p.len() as int) =~= p);
        proof {
            lemma_without_target(p, t@);
        }
        self.profiles = kept;
    }
    /// Forgets `target` (normalized); forgetting the connected target disconnects.
    /// An invalid target changes nothing.
    pub fn remove_target(&mut self, target: &str, now_ns: u64) -> (r: Result<String, ConfigError>)
        requires
            old(self).wf(),
        ensures
            final(self).wf(),
            match r {
                Ok(t) => http_target_spec(target@) == Ok::<Seq<char>, Seq<char>>(t@)
                    && final(self)@ == remove_spec(old(self)@, t@, now_ns),
                Err(e) => http_target_spec(target@) == Err::<Seq<char>, Seq<char>>(config_error_message(e))
                    && final(self)@ == old(self)@,
            },
    {
        let t = normalize_live_target(target)?;
        self.remove_profile(t.as_str());
        let is_active = match &self.active_target {
            Some(a) => crate::text::str_eq(a.as_str(), t.as_str()),
            None => false,
        };
        if is_active {
            self.active_target = None;
            self.active_token = None;
            self.connected = false;
            self.last_error = None;
            self.last_runtime_cloud = None;
        }
        self.updated_at_ns = now_ns;
        Ok(t)
    }

    fn has_profile(&self, t: &str) -> (r: bool)
        ensures
            r == has_target(self@.profiles, t@),
    {
        let ghost p = self@.profiles;
        let mut i: usize = 0;
        while i < self.profiles.len()
            invariant
                i <= self.profiles.len(),
                p == self@.profiles,
                p.len() == self.profiles.len(),
                forall|k: int| 0 <= k < i ==> (#[trigger] p[k]).0 != t@,
            decreases self.profiles.len() - i,
        {
            assert(p[i as int] == (self.profiles@[i as int].0@, self.profiles@[i as int].1@));
            if crate::text::str_eq(self.profiles[i].0.as_str(), t) {
                return true;
            }
            i = i + 1;
        }
        false
    }

    /// The target a request names (normalized) or, without one, the connected one.
    pub fn choose_target(&self, target: Option<&str>) -> (r: Result<Option<String>, ConfigError>)
        ensures
            match r {
                Ok(c) => chosen_spec(self@, match target { Some(x) => Some(x@), None => None }) == Ok::<Option<Seq<char>>, Seq<char>>(opt_view(c)),
                Err(e) => chosen_spec(self@, match target { Some(x) => Some(x@), None => None }) == Err::<Option<Seq<char>>, Seq<char>>(config_error_message(e)),
            },
    {
        match non_blank_exec(target) {
            Some(t) => {
                let n = normalize_live_target(t.as_str())?;
                Ok(Some(n))
            },
            None => Ok(copy_opt(&self.active_target)),
        }
    }

    /// Chooses what to connect to and records the choice; the caller then fetches
    /// the chosen target's state with the token held and records what came back.
    pub fn begin_connect(&mut self, target: Option<&str>, token: Option<&str>, now_ns: u64) -> (r: Result<Option<String>, ConfigError>)
        requires
            old(self).wf(),
        ensures
            final(self).wf(),
            match r {
                Ok(c) => chosen_spec(old(self)@, match target { Some(x) => Some(x@), None => None }) == Ok::<Option<Seq<char>>, Seq<char>>(opt_view(c))
                    && final(self)@ == connect_spec(old(self)@, opt_view(c), match token { Some(x) => Some(x@), None => None }, now_ns),
                Err(e) => chosen_spec(old(self)@, match target { Some(x) => Some(x@), None => None }) == Err::<Option<Seq<char>>, Seq<char>>(config_error_message(e))
                    && final(self)@ == old(self)@,
            },
    {
        let chosen = self.choose_target(target)?;
        match &chosen {
            None => {
                self.active_target = None;
                self.connected = false;
                self.last_error = None;
                self.last_runtime_cloud = None;
                self.updated_at_ns = now_ns;
            },
            Some(t) => {
                if !self.has_profile(t.as_str()) {
                    proof {
                        lemma_upsert_keys(self@.profiles, t@, t@);
                    }
                    upsert_exec(&mut self.profiles, t.as_str(), t.as_str());
                }
                self.active_target = Some(t.clone());
                match non_blank_exec(token) {
                    Some(k) => {
                        self.active_token = Some(k);
                    },
                    None => {},
                }
            },
        }
        Ok(chosen)
    }

    /// Records what fetching the state of `chosen` gave: its JSON text, or the error.
    pub fn record_fetch(&mut self, chosen: &str, result: Result<String, String>, now_ns: u64)
        requires
            old(self).wf(),
        ensures
            final(self).wf(),
            final(self)@ == fetched_spec(old(self)@, chosen@, match result { Ok(x) => Ok(x@), Err(e) => Err(e@) }, now_ns),
    {
        self.active_target = Some(chosen.to_owned());
        match result {
            Ok(json) => {
                self.connected = true;
                self.last_error = None;
                self.last_runtime_cloud = Some(json);
            },
            Err(e) => {
                self.connected = false;
                self.last_error = Some(e);
                self.last_runtime_cloud = None;
            },
        }
        self.updated_at_ns = now_ns;
    }

    pub fn active_target(&self) -> (r: Option<String>)
        ensures
            opt_view(r) == self@.active_target,
    {
        copy_opt(&self.active_target)
    }

    pub fn active_token(&self) -> (r: Option<String>)
        ensures
            opt_view(r) == self@.active_token,
    {
        copy_opt(&self.active_token)
    }

    pub fn connected(&self) -> (r: bool)
        ensures
            r == self@.connected,
    {
        self.connected
    }

    pub fn last_error(&self) -> (r: Option<String>)
        ensures
            opt_view(r) == self@.last_error,
    {
        copy_opt(&self.last_error)
    }

    pub fn last_runtime_cloud(&self) -> (r: Option<String>)
        ensures
            opt_view(r) == self@.last_runtime_cloud,
    {
        copy_opt(&self.last_runtime_cloud)
    }

    pub fn updated_at_ns(&self) -> (r: u64)
        ensures
            r == self@.updated_at_ns,
    {
        self.updated_at_ns
    }

    /// The saved targets and their labels, ordered by target.
    pub fn profiles(&self) -> (r: Vec<(String, String)>)
        ensures
            pairs_view(r@) == self@.profiles,
    {
        let ghost p = self@.profiles;
        let mut out: Vec<(String, String)> = Vec::new();
        let mut i: usize = 0;
        while i < self.profiles.len()
            invariant
                i <= self.profiles.len(),
                p == self@.profiles,
                p.len() == self.profiles.len(),
                pairs_view(out@) == p.take(i as int),
            decreases self.profiles.len() - i,
        {
            let ghost before = out@;
            out.push((self.profiles[i].0.clone(), self.profiles[i].1.clone()));
            assert(p[i as int] == (self.profiles@[i as int].0@, self.profiles@[i as int].1@));
            assert(pairs_view(out@) =~= pairs_view(before).push(p[i as int]));
            assert(p.take(i + 1) =~= p.take(i as int).push(p[i as int]));
            i = i + 1;
        }
        assert(p.take(p.len() as int) =~= p);
        out
    }
}

/// A target saved and then forgotten is gone, and if it was the connected one
/// the manager is disconnected with no target, token or error left.
pub proof fn law_forgotten_target_is_gone(v: LiveView, t: Seq<char>, label: Option<Seq<char>>, now: u64, later: u64)
    ensures
        !has_target(remove_spec(upsert_spec(v, t, label, now), t, later).profiles, t),
        v.active_target == Some(t) ==> ({
            let w = remove_spec(upsert_spec(v, t, label, now), t, later);
            &&& w.active_target is None
            &&& w.active_token is None
            &&& !w.connected
            &&& w.last_error is None
        }),
{
    lemma_without_target(upsert(v.profiles, t, match non_blank(label) { Some(l) => l, None => t }), t);
}

/// Saving keeps the targets ordered with each once, and the saved target takes
/// the label given (its own name when the label is blank).
pub proof fn law_saved_target_has_label(v: LiveView, t: Seq<char>, label: Option<Seq<char>>, now: u64)
    requires
        keys_ordered(v.profiles),
    ensures
        keys_ordered(upsert_spec(v, t, label, now).profiles),
        upsert_spec(v, t, label, now).profiles.contains((t, match non_blank(label) { Some(l) => l, None => t })),
{
    lemma_upsert_keys(v.profiles, t, match non_blank(label) { Some(l) => l, None => t });
}

/// A fetch that works connects and keeps no error; one that fails disconnects,
/// keeps the error and drops the stale state.
pub proof fn law_fetch_outcome(v: LiveView, chosen: Seq<char>, result: Result<Seq<char>, Seq<char>>, now: u64)
    ensures
        fetched_spec(v, chosen, result, now).connected == (result is Ok),
        fetched_spec(v, chosen, result, now).active_target == Some(chosen),
        result is Ok ==> fetched_spec(v, chosen, result, now).last_error is None,
        result is Err ==> fetched_spec(v, chosen, result, now).last_runtime_cloud is None,
        fetched_spec(v, chosen, result, now).profiles == v.profiles,
{
}

} // verus!
