//! Failure counters that each browser session reports, and their total over the
//! sessions.
use vstd::prelude::*;

use crate::ide::model::WebIdeFrontendTelemetry;

verus! {

/// A sum of counters that stops at the largest `u64`.
pub open spec fn capped(n: int) -> u64 {
    if n > u64::MAX { u64::MAX } else { n as u64 }
}

pub open spec fn sum_bootstrap(s: Seq<WebIdeFrontendTelemetry>) -> int
    decreases s.len(),
{
    if s.len() == 0 { 0 } else { sum_bootstrap(s.drop_last()) + s.last().bootstrap_failures }
}

pub open spec fn sum_timeouts(s: Seq<WebIdeFrontendTelemetry>) -> int
    decreases s.len(),
{
    if s.len() == 0 { 0 } else { sum_timeouts(s.drop_last()) + s.last().analysis_timeouts }
}

pub open spec fn sum_restarts(s: Seq<WebIdeFrontendTelemetry>) -> int
    decreases s.len(),
{
    if s.len() == 0 { 0 } else { sum_restarts(s.drop_last()) + s.last().worker_restarts }
}

pub open spec fn sum_autosave(s: Seq<WebIdeFrontendTelemetry>) -> int
    decreases s.len(),
{
    if s.len() == 0 { 0 } else { sum_autosave(s.drop_last()) + s.last().autosave_failures }
}

/// The total of the reports: each counter summed, stopping at the largest `u64`.
pub open spec fn total_spec(s: Seq<WebIdeFrontendTelemetry>) -> WebIdeFrontendTelemetry {
    WebIdeFrontendTelemetry {
        bootstrap_failures: capped(sum_bootstrap(s)),
        analysis_timeouts: capped(sum_timeouts(s)),
        worker_restarts: capped(sum_restarts(s)),
        autosave_failures: capped(sum_autosave(s)),
    }
}

proof fn lemma_sums_nonneg(s: Seq<WebIdeFrontendTelemetry>)
    ensures
        sum_bootstrap(s) >= 0,
        sum_timeouts(s) >= 0,
        sum_restarts(s) >= 0,
        sum_autosave(s) >= 0,
    decreases s.len(),
{
    if s.len() > 0 {
        lemma_sums_nonneg(s.drop_last());
    }
}

/// Adds the counters of `b` to `a`, each stopping at the largest `u64`.
fn add_capped(a: WebIdeFrontendTelemetry, b: WebIdeFrontendTelemetry) -> (r: WebIdeFrontendTelemetry)
    ensures
        r.bootstrap_failures == capped(a.bootstrap_failures + b.bootstrap_failures),
        r.analysis_timeouts == capped(a.analysis_timeouts + b.analysis_timeouts),
        r.worker_restarts == capped(a.worker_restarts + b.worker_restarts),
        r.autosave_failures == capped(a.autosave_failures + b.autosave_failures),
{
    WebIdeFrontendTelemetry {
        bootstrap_failures: a.bootstrap_failures.saturating_add(b.bootstrap_failures),
        analysis_timeouts: a.analysis_timeouts.saturating_add(b.analysis_timeouts),
        worker_restarts: a.worker_restarts.saturating_add(b.worker_restarts),
        autosave_failures: a.autosave_failures.saturating_add(b.autosave_failures),
    }
}

/// The total of the reports, each counter summed and stopping at the largest `u64`.
pub fn total_telemetry(reports: &[WebIdeFrontendTelemetry]) -> (r: WebIdeFrontendTelemetry)
    ensures
        r == total_spec(reports@),
{
    let mut agg = WebIdeFrontendTelemetry {
        bootstrap_failures: 0,
        analysis_timeouts: 0,
        worker_restarts: 0,
        autosave_failures: 0,
    };
    let mut i: usize = 0;
    assert(reports@.take(0) =~= Seq::<WebIdeFrontendTelemetry>::empty());
    while i < reports.len()
        invariant
            i <= reports.len(),
            agg == total_spec(reports@.take(i as int)),
        decreases reports.len() - i,
    {
        let ghost t = reports@.take(i + 1);
        assert(t.drop_last() =~= reports@.take(i as int));
        assert(t.last() == reports@[i as int]);
        proof {
            lemma_sums_nonneg(reports@.take(i as int));
        }
        agg = add_capped(agg, reports[i]);
        i = i + 1;
    }
    assert(reports@.take(reports.len() as int) =~= reports@);
    agg
}

/// The latest report of each browser session.
#[derive(Debug)]
pub struct TelemetryBySession {
    reports: Vec<(String, WebIdeFrontendTelemetry)>,
}

impl TelemetryBySession {
    /// Sessions and their latest reports.
    pub closed spec fn entries(&self) -> Seq<(Seq<char>, WebIdeFrontendTelemetry)> {
        self.reports@.map_values(|p: (String, WebIdeFrontendTelemetry)| (p.0@, p.1))
    }

    /// One report per session.
    pub closed spec fn wf(&self) -> bool {
        forall|i: int, j: int| 0 <= i < j < self.entries().len() ==> #[trigger] self.entries()[i].0 != #[trigger] self.entries()[j].0
    }

    pub open spec fn reports_spec(&self) -> Seq<WebIdeFrontendTelemetry> {
        self.entries().map_values(|p: (Seq<char>, WebIdeFrontendTelemetry)| p.1)
    }

    /// The report held for a session.
    pub open spec fn report_of(&self, session: Seq<char>) -> Option<WebIdeFrontendTelemetry> {
        if exists|i: int| 0 <= i < self.entries().len() && #[trigger] self.entries()[i].0 == session {
            Some(self.entries()[choose|i: int| 0 <= i < self.entries().len() && #[trigger] self.entries()[i].0 == session].1)
        } else {
            None
        }
    }

    pub fn new() -> (r: Self)
        ensures
            r.wf(),
            r.entries().len() == 0,
    {
        let r = TelemetryBySession { reports: Vec::new() };
        assert(r.entries() =~= Seq::<(Seq<char>, WebIdeFrontendTelemetry)>::empty());
        r
    }

    /// Keeps `report` as the latest of `session` and gives the total over all sessions.
    pub fn record(&mut self, session: &str, report: WebIdeFrontendTelemetry) -> (r: WebIdeFrontendTelemetry)
        requires
            old(self).wf(),
        ensures
            final(self).wf(),
            final(self).report_of(session@) == Some(report),
            forall|s: Seq<char>| s != session@ ==> final(self).report_of(s) == old(self).report_of(s),
            r == total_spec(final(self).reports_spec()),
    {
        let ghost before = self.entries();
        let mut i: usize = 0;
        let mut found = false;
        while i < self.reports.len()
            invariant_except_break
                !found,
            invariant
                i <= self.reports.len(),
                before == self.entries(),
                before.len() == self.reports.len(),
                forall|k: int| 0 <= k < i ==> (#[trigger] before[k]).0 != session@,
            ensures
                before == self.entries(),
                before.len() == self.reports.len(),
                found ==> i < self.reports.len() && before[i as int].0 == session@,
                !found ==> i == self.reports.len(),
                forall|k: int| 0 <= k < i ==> (#[trigger] before[k]).0 != session@,
            decreases self.reports.len() - i,
        {
            assert(before[i as int] == (self.reports@[i as int].0@, self.reports@[i as int].1));
            if crate::text::str_eq(self.reports[i].0.as_str(), session) {
                found = true;
                break;
            }
            i = i + 1;
        }
        if found {
            let key = self.reports[i].0.clone();
            self.reports.set(i, (key, report));
            assert(self.entries() =~= before.update(i as int, (session@, report)));
            assert forall|s: Seq<char>| s != session@ implies self.report_of(s) == old(self).report_of(s) by {
                if exists|k: int| 0 <= k < before.len() && #[trigger] before[k].0 == s {
                    let k = choose|k: int| 0 <= k < before.len() && #[trigger] before[k].0 == s;
                    assert(self.entries()[k].0 == s);
                    let k2 = choose|k: int| 0 <= k < self.entries().len() && #[trigger] self.entries()[k].0 == s;
                    assert(k2 == k);
                }
                if exists|k: int| 0 <= k < self.entries().len() && #[trigger] self.entries()[k].0 == s {
                    let k = choose|k: int| 0 <= k < self.entries().len() && #[trigger] self.entries()[k].0 == s;
                    assert(before[k].0 == s);
                }
            }
            assert(self.entries()[i as int].0 == session@);
        } else {
            self.reports.push((session.to_owned(), report));
            assert(self.entries() =~= before.push((session@, report)));
            assert forall|s: Seq<char>| s != session@ implies self.report_of(s) == old(self).report_of(s) by {
                if exists|k: int| 0 <= k < before.len() && #[trigger] before[k].0 == s {
                    let k = choose|k: int| 0 <= k < before.len() && #[trigger] before[k].0 == s;
                    assert(self.entries()[k].0 == s);
                }
                if exists|k: int| 0 <= k < self.entries().len() && #[trigger] self.entries()[k].0 == s {
                    let k = choose|k: int| 0 <= k < self.entries().len() && #[trigger] self.entries()[k].0 == s;
                    assert(k < before.len());
                    assert(before[k].0 == s);
                }
            }
            assert(self.entries()[before.len() as int].0 == session@);
        }
        self.total()
    }

    /// The total of the latest reports of all sessions.
    pub fn total(&self) -> (r: WebIdeFrontendTelemetry)
        ensures
            r == total_spec(self.reports_spec()),
    {
        let mut all: Vec<WebIdeFrontendTelemetry> = Vec::new();
        let mut j: usize = 0;
        while j < self.reports.len()
            invariant
                j <= self.reports.len(),
                self.entries().len() == self.reports.len(),
                all@ == self.reports_spec().take(j as int),
            decreases self.reports.len() - j,
        {
            all.push(self.reports[j].1);
            assert(self.reports_spec()[j as int] == self.reports@[j as int].1);
            assert(self.reports_spec().take(j + 1) =~= self.reports_spec().take(j as int).push(self.reports_spec()[j as int]));
            j = j + 1;
        }
        assert(self.reports_spec().take(self.reports.len() as int) =~= self.reports_spec());
        total_telemetry(all.as_slice())
    }
}

} // verus!
