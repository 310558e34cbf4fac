//! The console's short memories: the last few alerts, the events already
//! turned into alerts, and the recent cycle times drawn as a sparkline.
use vstd::prelude::*;

use std::collections::VecDeque;

use crate::text::{chars_eq_str, chars_of, lower, lower_chars, push_str};
use crate::ui::labels::LabelSet;
use crate::ui::model::EventKind;
use crate::ui::style::{fg, fg_spec, line_view, lines_view, Color, PromptLine, Style};

verus! {

/// The most alerts kept on screen.
pub const MAX_ALERTS: usize = 5;

/// The most cycle samples kept for the sparkline.
pub const CYCLE_HISTORY_LEN: usize = 120;

/// The most event labels remembered before the memory starts over.
pub const MAX_SEEN_EVENTS: usize = 400;

/// The alerts after adding one: the oldest goes once the list is full.
pub open spec fn push_alert_spec(alerts: Seq<Seq<(Seq<char>, Style)>>, text: Seq<char>, style: Style) -> Seq<Seq<(Seq<char>, Style)>> {
    let kept = if alerts.len() >= MAX_ALERTS { alerts.drop_first() } else { alerts };
    kept.push(seq![(text, style)])
}

/// Adds an alert line, dropping the oldest when five are shown already.
pub fn push_alert(alerts: &mut VecDeque<PromptLine>, text: &str, style: Style)
    ensures
        lines_view(final(alerts)@) == push_alert_spec(lines_view(old(alerts)@), text@, style),
{
    let ghost before = alerts@;
    if alerts.len() >= MAX_ALERTS {
        alerts.pop_front();
        assert(lines_view(alerts@) =~= lines_view(before).drop_first());
    }
    let ghost mid = alerts@;
    let line = PromptLine::plain_str(text, style);
    alerts.push_back(line);
    assert(lines_view(alerts@) =~= lines_view(mid).push(line_view(line)));
}

/// Whatever came before, at most five alerts are shown, the newest last.
pub proof fn law_alerts_bounded(alerts: Seq<Seq<(Seq<char>, Style)>>, text: Seq<char>, style: Style)
    requires
        alerts.len() <= MAX_ALERTS,
    ensures
        push_alert_spec(alerts, text, style).len() <= MAX_ALERTS,
        push_alert_spec(alerts, text, style).last() == seq![(text, style)],
{
}

/// The kind of an event by its reported level, in any letter case: `fault` and
/// `error` are faults, `warn` and `warning` warnings, anything else information.
pub open spec fn level_kind(level: Seq<char>) -> EventKind {
    let l = lower(level);
    if l == "fault"@ || l == "error"@ {
        EventKind::Fault
    } else if l == "warn"@ || l == "warning"@ {
        EventKind::Warn
    } else {
        EventKind::Info
    }
}

/// Reads the level the runtime reports for an event.
pub fn event_kind_of_level(level: &str) -> (r: EventKind)
    ensures
        r == level_kind(level@),
{
    let raw = chars_of(level);
    let l = lower_chars(raw.as_slice());
    if chars_eq_str(l.as_slice(), "fault") || chars_eq_str(l.as_slice(), "error") {
        EventKind::Fault
    } else if chars_eq_str(l.as_slice(), "warn") || chars_eq_str(l.as_slice(), "warning") {
        EventKind::Warn
    } else {
        EventKind::Info
    }
}

/// A runtime event as the console lists it.
#[derive(Debug)]
pub struct EventSnapshot {
    pub label: String,
    pub kind: EventKind,
    pub timestamp: Option<String>,
    pub message: String,
}

/// Label, kind and message of an event.
pub open spec fn event_view(e: EventSnapshot) -> (Seq<char>, EventKind, Seq<char>) {
    (e.label@, e.kind, e.message@)
}

pub open spec fn events_view(s: Seq<EventSnapshot>) -> Seq<(Seq<char>, EventKind, Seq<char>)> {
    s.map_values(|e: EventSnapshot| event_view(e))
}

/// The alert an event raises: faults in red, warnings in amber, nothing for
/// information.
pub open spec fn event_alert(e: (Seq<char>, EventKind, Seq<char>)) -> Option<(Seq<char>, Style)> {
    match e.1 {
        EventKind::Fault => Some(("[FAULT] "@ + e.2, fg_spec(Color::Red))),
        EventKind::Warn => Some(("[WARN] "@ + e.2, fg_spec(Color::Amber))),
        EventKind::Info => None,
    }
}

/// Alerts and remembered labels after looking at one more event: an event seen
/// before changes nothing; a new one is remembered and may raise an alert; the
/// memory starts over once it holds more than four hundred labels.
pub open spec fn event_step(
    state: (Seq<Seq<(Seq<char>, Style)>>, Set<Seq<char>>),
    e: (Seq<char>, EventKind, Seq<char>),
) -> (Seq<Seq<(Seq<char>, Style)>>, Set<Seq<char>>) {
    if state.1.contains(e.0) {
        state
    } else {
        let seen = state.1.insert(e.0);
        let alerts = match event_alert(e) {
            Some(a) => push_alert_spec(state.0, a.0, a.1),
            None => state.0,
        };
        (alerts, if seen.len() > MAX_SEEN_EVENTS { Set::empty() } else { seen })
    }
}

/// Alerts and remembered labels after looking at `events` in order.
pub open spec fn events_fold(
    state: (Seq<Seq<(Seq<char>, Style)>>, Set<Seq<char>>),
    events: Seq<(Seq<char>, EventKind, Seq<char>)>,
) -> (Seq<Seq<(Seq<char>, Style)>>, Set<Seq<char>>)
    decreases events.len(),
{
    if events.len() == 0 {
        state
    } else {
        event_step(events_fold(state, events.drop_last()), events.last())
    }
}

/// An event is alerted at most once while it is remembered, and the memory of
/// labels never holds more than four hundred.
pub proof fn law_event_memory(
    state: (Seq<Seq<(Seq<char>, Style)>>, Set<Seq<char>>),
    e: (Seq<char>, EventKind, Seq<char>),
)
    requires
        state.1.finite(),
        state.1.len() <= MAX_SEEN_EVENTS,
    ensures
        event_step(state, e).1.finite(),
        event_step(state, e).1.len() <= MAX_SEEN_EVENTS,
        state.1.contains(e.0) ==> event_step(state, e) == state,
{
    if !state.1.contains(e.0) {
        let seen = state.1.insert(e.0);
        if seen.len() > MAX_SEEN_EVENTS {
            assert(Set::<Seq<char>>::empty().len() == 0);
        }
    }
}

/// Turns the events not seen before into alerts.
pub fn update_event_alerts(alerts: &mut VecDeque<PromptLine>, seen: &mut LabelSet, events: &[EventSnapshot])
    requires
        old(seen).wf(),
    ensures
        final(seen).wf(),
        (lines_view(final(alerts)@), final(seen).view_set()) == events_fold(
            (lines_view(old(alerts)@), old(seen).view_set()),
            events_view(events@),
        ),
{
    let ghost ev = events_view(events@);
    let ghost start = (lines_view(alerts@), seen.view_set());
    let mut i: usize = 0;
    assert(ev.take(0) =~= Seq::<(Seq<char>, EventKind, Seq<char>)>::empty());
    while i < events.len()
        invariant
            i <= events.len(),
            ev == events_view(events@),
            ev.len() == events.len(),
            seen.wf(),
            (lines_view(alerts@), seen.view_set()) == events_fold(start, ev.take(i as int)),
        decreases events.len() - i,
    {
        let e = &events[i];
        assert(ev[i as int] == event_view(events@[i as int]));
        assert(ev.take(i + 1).drop_last() =~= ev.take(i as int));
        assert(ev.take(i + 1).last() == ev[i as int]);
        if !seen.contains(e.label.as_str()) {
            seen.insert(e.label.as_str());
            match e.kind {
                EventKind::Fault => {
                    let mut text = "[FAULT] ".to_owned();
                    push_str(&mut text, e.message.as_str());
                    push_alert(alerts, text.as_str(), fg(Color::Red));
                },
                EventKind::Warn => {
                    let mut text = "[WARN] ".to_owned();
                    push_str(&mut text, e.message.as_str());
                    push_alert(alerts, text.as_str(), fg(Color::Amber));
                },
                EventKind::Info => {},
            }
            if seen.len() > MAX_SEEN_EVENTS {
                seen.clear();
            }
        }
        i = i + 1;
    }
    assert(ev.take(events.len() as int) =~= ev);
}

/// The samples after adding one: the oldest goes once a hundred and twenty are
/// kept, and a sample is never below one.
pub open spec fn push_cycle_spec(history: Seq<u64>, value: u64) -> Seq<u64> {
    let kept = if history.len() >= CYCLE_HISTORY_LEN { history.drop_first() } else { history };
    kept.push(if value < 1 { 1 } else { value })
}

/// Adds a cycle-time sample (in tenths of a millisecond) to the sparkline.
pub fn push_cycle_sample(history: &mut VecDeque<u64>, value: u64)
    ensures
        final(history)@ == push_cycle_spec(old(history)@, value),
{
    if history.len() >= CYCLE_HISTORY_LEN {
        history.pop_front();
    }
    history.push_back(if value < 1 { 1 } else { value });
}

/// The sparkline never holds more than a hundred and twenty samples, all at least one.
pub proof fn law_cycle_history_bounded(history: Seq<u64>, value: u64)
    requires
        history.len() <= CYCLE_HISTORY_LEN,
        forall|i: int| 0 <= i < history.len() ==> history[i] >= 1,
    ensures
        push_cycle_spec(history, value).len() <= CYCLE_HISTORY_LEN,
        forall|i: int| 0 <= i < push_cycle_spec(history, value).len() ==> #[trigger] push_cycle_spec(history, value)[i] >= 1,
{
    let kept = if history.len() >= CYCLE_HISTORY_LEN { history.drop_first() } else { history };
    assert forall|i: int| 0 <= i < push_cycle_spec(history, value).len() implies #[trigger] push_cycle_spec(history, value)[i] >= 1 by {
        if i < kept.len() {
            if history.len() >= CYCLE_HISTORY_LEN {
                assert(kept[i] == history[i + 1]);
            }
        }
    }
}

} // verus!
