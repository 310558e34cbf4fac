//! Small status texts of the console: the uptime clock and the state chip.
use vstd::prelude::*;

use crate::text::{
    chars_eq_str, chars_of, decimal, decimal_chars, push_char, push_chars, trim, trim_chars,
    upper, upper_chars, zero_pad, zero_pad_chars,
};
use crate::ui::style::{Color, Style};

verus! {

/// `HH:MM:SS` of an uptime in milliseconds; the hours are not wrapped.
pub open spec fn uptime_spec(uptime_ms: u64) -> Seq<char> {
    let secs = uptime_ms / 1000;
    zero_pad(decimal((secs / 3600) as nat), 2) + seq![':'] + zero_pad(decimal(((secs / 60) % 60) as nat), 2)
        + seq![':'] + zero_pad(decimal((secs % 60) as nat), 2)
}

pub fn format_uptime(uptime_ms: u64) -> (r: String)
    ensures
        r@ == uptime_spec(uptime_ms),
{
    let secs = uptime_ms / 1000;
    let h = zero_pad_chars(decimal_chars(secs / 3600).as_slice(), 2);
    let m = zero_pad_chars(decimal_chars((secs / 60) % 60).as_slice(), 2);
    let s = zero_pad_chars(decimal_chars(secs % 60).as_slice(), 2);
    let mut r = String::new();
    push_chars(&mut r, h.as_slice());
    push_char(&mut r, ':');
    push_chars(&mut r, m.as_slice());
    push_char(&mut r, ':');
    push_chars(&mut r, s.as_slice());
    assert(r@ =~= uptime_spec(uptime_ms));
    r
}

/// The colours of the state chip: teal for running, amber for paused, red for
/// faulted, grey otherwise.
pub open spec fn chip_colors(state: Seq<char>) -> (Color, Color) {
    if state == "RUNNING"@ {
        (Color::Teal, Color::White)
    } else if state == "PAUSED"@ {
        (Color::Amber, Color::Black)
    } else if state == "FAULTED"@ {
        (Color::Red, Color::White)
    } else {
        (Color::DarkGray, Color::White)
    }
}

/// The chip that shows a runtime state: the state in capitals between brackets,
/// bold on its colour.
pub open spec fn status_chip_spec(state: Seq<char>) -> (Seq<char>, Style) {
    let u = upper(trim(state));
    let (bg, fgc) = chip_colors(u);
    (seq!['['] + u + seq![']'], Style { fg: Some(fgc), bg: Some(bg), bold: true })
}

pub fn status_chip(state: &str) -> (r: (String, Style))
    ensures
        (r.0@, r.1) == status_chip_spec(state@),
{
    let raw = chars_of(state);
    let t = trim_chars(raw.as_slice());
    let u = upper_chars(t.as_slice());
    let (bg, fgc) = if chars_eq_str(u.as_slice(), "RUNNING") {
        (Color::Teal, Color::White)
    } else if chars_eq_str(u.as_slice(), "PAUSED") {
        (Color::Amber, Color::Black)
    } else if chars_eq_str(u.as_slice(), "FAULTED") {
        (Color::Red, Color::White)
    } else {
        (Color::DarkGray, Color::White)
    };
    let mut text = String::new();
    push_char(&mut text, '[');
    push_chars(&mut text, u.as_slice());
    push_char(&mut text, ']');
    assert(text@ =~= seq!['['] + u@ + seq![']']);
    (text, Style { fg: Some(fgc), bg: Some(bg), bold: true })
}

} // verus!
