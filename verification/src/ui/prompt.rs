//! The console prompt: its input line and cursor, the history of submitted
//! commands, the output shown under it and the command suggestions.
use vstd::prelude::*;

use crate::text::{chars_of, trim, trim_chars};
use crate::ui::catalog::{help_view, helps_view, suggestion_lines, suggestion_lines_spec, CommandHelp};
use crate::ui::menu::{wrap_selection, wrap_spec};
use crate::ui::model::PromptMode;
use crate::ui::style::{lines_view, PromptLine};
use vstd::utf8::encode_utf8;

verus! {

/// Byte length of a string's UTF-8 encoding: where the cursor stands after it.
pub open spec fn byte_len(s: Seq<char>) -> nat {
    encode_utf8(s).len()
}

/// The history entry that "up" selects: the newest when none is selected, else
/// the one before the selected entry, staying on the oldest.
pub open spec fn history_prev_spec(len: nat, index: Option<usize>) -> Option<int> {
    if len == 0 {
        match index {
            Some(i) => Some(i as int),
            None => None,
        }
    } else {
        match index {
            None => Some(len - 1),
            Some(i) => if i > 0 { Some(i - 1) } else { Some(i as int) },
        }
    }
}

/// The history entry that "down" selects: the one after the selected entry, or
/// none (an empty input line) past the newest.
pub open spec fn history_next_spec(len: nat, index: Option<usize>) -> Option<int> {
    if len == 0 {
        match index {
            Some(i) => Some(i as int),
            None => None,
        }
    } else {
        match index {
            None => None,
            Some(i) => if i + 1 < len { Some(i + 1) } else { None },
        }
    }
}

/// The console prompt.
#[derive(Debug, Clone)]
pub struct PromptState {
    pub active: bool,
    pub input: String,
    pub cursor: usize,
    pub history: Vec<String>,
    pub history_index: Option<usize>,
    pub output: Vec<PromptLine>,
    pub mode: PromptMode,
    pub showing_suggestions: bool,
    pub suggestions: Vec<CommandHelp>,
    pub suggestion_index: usize,
}

pub open spec fn history_view(h: Seq<String>) -> Seq<Seq<char>> {
    h.map_values(|s: String| s@)
}

impl PromptState {
    /// The selected history entry, if any, is one of the history's.
    pub open spec fn wf(&self) -> bool {
        match self.history_index {
            Some(i) => i < self.history@.len(),
            None => true,
        }
    }

    pub fn new() -> (r: Self)
        ensures
            r.wf(),
            !r.active,
            r.input@.len() == 0,
            r.cursor == 0,
            r.history@.len() == 0,
            r.history_index is None,
            r.output@.len() == 0,
            r.mode == PromptMode::Normal,
            !r.showing_suggestions,
            r.suggestions@.len() == 0,
            r.suggestion_index == 0,
    {
        PromptState {
            active: false,
            input: String::new(),
            cursor: 0,
            history: Vec::new(),
            history_index: None,
            output: Vec::new(),
            mode: PromptMode::Normal,
            showing_suggestions: false,
            suggestions: Vec::new(),
            suggestion_index: 0,
        }
    }

    /// Opens the prompt with `text` typed in and the cursor after it.
    pub fn activate_with(&mut self, text: &str)
        ensures
            final(self).active,
            final(self).input@ == text@,
            final(self).cursor == byte_len(text@) as usize,
            final(self).history_index is None,
            final(self).history@ == old(self).history@,
            final(self).output@ == old(self).output@,
            final(self).mode == old(self).mode,
            final(self).showing_suggestions == old(self).showing_suggestions,
            final(self).suggestions@ == old(self).suggestions@,
            final(self).suggestion_index == old(self).suggestion_index,
            final(self).wf(),
    {
        self.active = true;
        self.input = text.to_owned();
        self.cursor = self.input.as_str().len();
        self.history_index = None;
    }

    /// Closes the prompt; the typed text stays.
    pub fn deactivate(&mut self)
        ensures
            *final(self) == (PromptState {
                active: false,
                cursor: 0,
                history_index: None,
                ..*old(self)
            }),
    {
        self.active = false;
        self.cursor = 0;
        self.history_index = None;
    }

    /// Shows `lines` under the prompt, in place of any suggestions.
    pub fn set_output(&mut self, lines: Vec<PromptLine>)
        ensures
            *final(self) == (PromptState { output: lines, showing_suggestions: false, ..*old(self) }),
    {
        self.output = lines;
        self.showing_suggestions = false;
    }

    pub fn clear_output(&mut self)
        ensures
            final(self).output@.len() == 0,
            !final(self).showing_suggestions,
            *final(self) == (PromptState {
                output: final(self).output,
                showing_suggestions: false,
                ..*old(self)
            }),
    {
        self.output = Vec::new();
        self.showing_suggestions = false;
    }

    /// Shows `suggestions` with the first selected.
    pub fn set_suggestions_list(&mut self, suggestions: Vec<CommandHelp>)
        ensures
            final(self).suggestions@ == suggestions@,
            final(self).suggestion_index == 0,
            final(self).showing_suggestions,
            lines_view(final(self).output@) == suggestion_lines_spec(helps_view(suggestions@), Some(0)),
            *final(self) == (PromptState {
                suggestions: final(self).suggestions,
                suggestion_index: 0,
                showing_suggestions: true,
                output: final(self).output,
                ..*old(self)
            }),
    {
        self.suggestions = suggestions;
        self.suggestion_index = 0;
        self.showing_suggestions = true;
        self.output = suggestion_lines(self.suggestions.as_slice(), Some(0));
    }

    /// Drops the suggestions, and the output too when it was showing them.
    pub fn clear_suggestions(&mut self)
        ensures
            !final(self).showing_suggestions,
            final(self).suggestions@.len() == 0,
            final(self).suggestion_index == 0,
            old(self).showing_suggestions ==> final(self).output@.len() == 0,
            !old(self).showing_suggestions ==> final(self).output@ == old(self).output@,
            *final(self) == (PromptState {
                showing_suggestions: false,
                suggestions: final(self).suggestions,
                suggestion_index: 0,
                output: final(self).output,
                ..*old(self)
            }),
    {
        if self.showing_suggestions {
            self.output = Vec::new();
        }
        self.showing_suggestions = false;
        self.suggestions = Vec::new();
        self.suggestion_index = 0;
    }

    /// Moves the selected suggestion by `delta`, wrapping past either end.
    pub fn move_suggestion(&mut self, delta: i32)
        ensures
            old(self).suggestions@.len() == 0 ==> *final(self) == *old(self),
            old(self).suggestions@.len() > 0 ==> {
                &&& final(self).suggestion_index == wrap_spec(
                    old(self).suggestion_index as int,
                    delta as int,
                    old(self).suggestions@.len() as int,
                )
                &&& lines_view(final(self).output@) == suggestion_lines_spec(
                    helps_view(old(self).suggestions@),
                    Some(final(self).suggestion_index as int),
                )
                &&& *final(self) == (PromptState {
                    suggestion_index: final(self).suggestion_index,
                    output: final(self).output,
                    ..*old(self)
                })
            },
    {
        if self.suggestions.len() == 0 {
            return;
        }
        let next = wrap_selection(self.suggestion_index, delta, self.suggestions.len());
        self.suggestion_index = next;
        self.output = suggestion_lines(self.suggestions.as_slice(), Some(next));
    }

    /// The selected suggestion, if the index is on the list.
    pub fn selected_suggestion(&self) -> (r: Option<CommandHelp>)
        ensures
            self.suggestion_index < self.suggestions@.len() ==> r == Some(
                self.suggestions@[self.suggestion_index as int],
            ),
            self.suggestion_index >= self.suggestions@.len() ==> r is None,
    {
        if self.suggestion_index < self.suggestions.len() {
            Some(self.suggestions[self.suggestion_index])
        } else {
            None
        }
    }

    /// Records a submitted line unless it is blank, and leaves history browsing.
    pub fn push_history(&mut self, entry: String)
        ensures
            final(self).history@ == (if trim(entry@).len() == 0 {
                old(self).history@
            } else {
                old(self).history@.push(entry)
            }),
            final(self).history_index is None,
            *final(self) == (PromptState {
                history: final(self).history,
                history_index: None,
                ..*old(self)
            }),
            final(self).wf(),
    {
        let raw = chars_of(entry.as_str());
        let t = trim_chars(raw.as_slice());
        if t.len() != 0 {
            self.history.push(entry);
        }
        self.history_index = None;
    }

    /// "Up": recalls the previous history entry into the input line.
    pub fn history_prev(&mut self)
        requires
            old(self).wf(),
        ensures
            final(self).wf(),
            old(self).history@.len() == 0 ==> *final(self) == *old(self),
            old(self).history@.len() > 0 ==> {
                let idx = history_prev_spec(old(self).history@.len(), old(self).history_index);
                &&& idx is Some
                &&& final(self).history_index == Some(idx->0 as usize)
                &&& final(self).input@ == old(self).history@[idx->0]@
                &&& final(self).cursor == byte_len(final(self).input@) as usize
                &&& *final(self) == (PromptState {
                    history_index: final(self).history_index,
                    input: final(self).input,
                    cursor: final(self).cursor,
                    ..*old(self)
                })
            },
    {
        if self.history.len() == 0 {
            return;
        }
        let idx: usize = match self.history_index {
            None => self.history.len() - 1,
            Some(i) => if i > 0 { i - 1 } else { i },
        };
        self.history_index = Some(idx);
        self.input = self.history[idx].clone();
        self.cursor = self.input.as_str().len();
    }

    /// "Down": recalls the next history entry, or empties the input line past the
    /// newest.
    pub fn history_next(&mut self)
        requires
            old(self).wf(),
        ensures
            final(self).wf(),
            old(self).history@.len() == 0 ==> *final(self) == *old(self),
            old(self).history@.len() > 0 ==> {
                let idx = history_next_spec(old(self).history@.len(), old(self).history_index);
                &&& final(self).history_index == (match idx {
                    Some(i) => Some(i as usize),
                    None => None,
                })
                &&& (match idx {
                    Some(i) => final(self).input@ == old(self).history@[i]@,
                    None => final(self).input@.len() == 0,
                })
                &&& final(self).cursor == byte_len(final(self).input@) as usize
                &&& *final(self) == (PromptState {
                    history_index: final(self).history_index,
                    input: final(self).input,
                    cursor: final(self).cursor,
                    ..*old(self)
                })
            },
    {
        if self.history.len() == 0 {
            return;
        }
        let next: Option<usize> = match self.history_index {
            None => None,
            Some(i) => if i + 1 < self.history.len() { Some(i + 1) } else { None },
        };
        self.history_index = next;
        match next {
            Some(i) => {
                self.input = self.history[i].clone();
                self.cursor = self.input.as_str().len();
            },
            None => {
                self.input = String::new();
                self.cursor = 0;
                assert(encode_utf8(Seq::<char>::empty()).len() == 0);
            },
        }
    }
}

/// Browsing back from a fresh prompt recalls the line submitted last.
pub proof fn law_up_recalls_last_submitted(len: nat)
    requires
        len > 0,
    ensures
        history_prev_spec(len, None) == Some(len - 1),
{
}

/// "Down" undoes "up" wherever "up" moved.
pub proof fn law_down_undoes_up(len: nat, i: usize)
    requires
        0 < i < len,
    ensures
        history_prev_spec(len, Some(i)) == Some(i - 1),
        history_next_spec(len, Some((i - 1) as usize)) == Some(i as int),
{
}

/// "Down" from the newest entry leaves history browsing with an empty line.
pub proof fn law_down_past_newest_clears(len: usize)
    requires
        len > 0,
    ensures
        history_next_spec(len as nat, Some((len - 1) as usize)) is None,
{
}

/// "Up" and "down" only ever select an entry of the history.
pub proof fn law_browsing_stays_in_history(len: nat, index: Option<usize>)
    requires
        len > 0,
        match index {
            Some(i) => i < len,
            None => true,
        },
    ensures
        match history_prev_spec(len, index) {
            Some(i) => 0 <= i < len,
            None => false,
        },
        match history_next_spec(len, index) {
            Some(i) => 0 <= i < len,
            None => true,
        },
{
}

} // verus!
