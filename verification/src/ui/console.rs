//! What a key press does to the console's own state: the prompt it opens or
//! fills, the notices it shows, the confirmation it asks for or uses up, and in
//! the open prompt the history and suggestion browsing. Requests to the runtime
//! that a key asks for are left to the caller.
use vstd::prelude::*;

use crate::ui::catalog::{command_suggestions, helps_view, suggestion_lines_spec, suggestions_spec};
use crate::ui::keys::{
    handle_key, handle_prompt_key, key_action_spec, prompt_key_spec, KeyAction, KeyPress, PromptKeyAction,
    DEBUG_DISABLED_NOTICE, READ_ONLY_NOTICE,
};
use crate::ui::menu::wrap_spec;
use crate::ui::model::{ConfirmAction, IoActionKind, PromptMode};
use crate::ui::prompt::{byte_len, history_next_spec, history_prev_spec, PromptState};
use crate::ui::style::{fg, fg_spec, lines_view, line_view, Color, PromptLine};
use crate::ui::actions::{control_command, control_spec, control_success, control_success_spec, control_view, simple_response, simple_response_spec, ControlCommand};
use crate::ui::command::{strings_view, watch_add, watch_remove, CommandKind, RoutedCommand};
use crate::ui::keys::BEGINNER_BLOCKED_NOTICE;
use crate::ui::model::PanelKind;
use crate::ui::settings::{rows_view, settings_lines_spec, settings_menu_lines, SettingsRow};
use crate::text::push_str;
use std::collections::VecDeque;

verus! {

/// The one line of a notice in the given colour.
pub open spec fn notice(text: Seq<char>, c: Color) -> Seq<Seq<(Seq<char>, crate::ui::style::Style)>> {
    seq![seq![(text, fg_spec(c))]]
}

fn show_notice(prompt: &mut PromptState, text: &str, c: Color)
    ensures
        lines_view(final(prompt).output@) == notice(text@, c),
        *final(prompt) == (PromptState { output: final(prompt).output, showing_suggestions: false, ..*old(prompt) }),
{
    let mut lines: Vec<PromptLine> = Vec::new();
    lines.push(PromptLine::plain_str(text, fg(c)));
    assert(lines_view(lines@) =~= notice(text@, c));
    prompt.set_output(lines);
}

/// What a key press does while the prompt is closed, to the prompt and to the
/// pending confirmation:
/// - the read-only notice is shown for `/` on a watching-only console;
/// - `/` opens the prompt with `/` typed and every offered command suggested;
/// - the debug-disabled notice is shown for a debugger key with debug keys off;
/// - `w`, `c`, `x` ask for a confirmation, which the next key uses up;
/// - any other key leaves both as they were.
pub fn press_key(
    prompt: &mut PromptState,
    pending: &mut Option<ConfirmAction>,
    k: KeyPress,
    no_input: bool,
    debug_controls: bool,
    beginner: bool,
) -> (r: KeyAction)
    requires
        old(prompt).wf(),
    ensures
        r == key_action_spec(k, no_input, old(prompt).active, *old(pending), debug_controls),
        final(prompt).wf(),
        match r {
            KeyAction::ReadOnlyNotice => {
                &&& lines_view(final(prompt).output@) == notice(READ_ONLY_NOTICE@, Color::Info)
                &&& *final(prompt) == (PromptState { output: final(prompt).output, showing_suggestions: false, ..*old(prompt) })
                &&& *final(pending) == *old(pending)
            },
            KeyAction::OpenCommandPrompt => {
                &&& final(prompt).active
                &&& final(prompt).input@ == "/"@
                &&& final(prompt).cursor == byte_len("/"@) as usize
                &&& final(prompt).history_index is None
                &&& final(prompt).showing_suggestions
                &&& helps_view(final(prompt).suggestions@) == suggestions_spec(beginner, None)
                &&& final(prompt).suggestion_index == 0
                &&& lines_view(final(prompt).output@) == suggestion_lines_spec(suggestions_spec(beginner, None), Some(0))
                &&& final(prompt).history@ == old(prompt).history@
                &&& final(prompt).mode == old(prompt).mode
                &&& *final(pending) == *old(pending)
            },
            KeyAction::DebugDisabled => {
                &&& lines_view(final(prompt).output@) == notice(DEBUG_DISABLED_NOTICE@, Color::Amber)
                &&& *final(prompt) == (PromptState { output: final(prompt).output, showing_suggestions: false, ..*old(prompt) })
                &&& *final(pending) == *old(pending)
            },
            KeyAction::AskConfirm(a) => *final(prompt) == *old(prompt) && *final(pending) == Some(a),
            KeyAction::Confirmed(_) | KeyAction::Dismissed => *final(prompt) == *old(prompt) && *final(pending) is None,
            KeyAction::Quit => *final(prompt) == *old(prompt) && (*final(pending) is None || *final(pending) == *old(pending)),
            _ => *final(prompt) == *old(prompt) && *final(pending) == *old(pending),
        },
        (!no_input && !old(prompt).active && *old(pending) is Some) ==> *final(pending) is None,
        (no_input || old(prompt).active) ==> *final(pending) == *old(pending),
{
    let r = handle_key(k, no_input, prompt.active, *pending, debug_controls);
    if !no_input && !prompt.active && pending.is_some() {
        *pending = None;
    }
    match r {
        KeyAction::ReadOnlyNotice => {
            show_notice(prompt, READ_ONLY_NOTICE, Color::Info);
        },
        KeyAction::OpenCommandPrompt => {
            prompt.activate_with("/");
            prompt.set_suggestions_list(command_suggestions(beginner, None));
        },
        KeyAction::DebugDisabled => {
            show_notice(prompt, DEBUG_DISABLED_NOTICE, Color::Amber);
        },
        KeyAction::AskConfirm(a) => {
            *pending = Some(a);
        },
        _ => {},
    }
    r
}

/// What a key press does in the open prompt to the prompt itself: Up and Down
/// move through the suggestions while they show, otherwise through the history
/// (recalling an entry into the input line); the other keys leave the prompt to
/// the caller.
pub fn press_prompt_key(prompt: &mut PromptState, k: KeyPress, pending_io: Option<IoActionKind>) -> (r: PromptKeyAction)
    requires
        old(prompt).wf(),
    ensures
        r == prompt_key_spec(
            k,
            old(prompt).mode,
            old(prompt).showing_suggestions,
            old(prompt).input@,
            old(prompt).suggestion_index < old(prompt).suggestions@.len(),
            pending_io,
        ),
        final(prompt).wf(),
        match r {
            PromptKeyAction::HistoryPrev => old(prompt).history@.len() > 0 ==> {
                let idx = history_prev_spec(old(prompt).history@.len(), old(prompt).history_index);
                &&& final(prompt).history_index == Some(idx->0 as usize)
                &&& final(prompt).input@ == old(prompt).history@[idx->0]@
                &&& final(prompt).cursor == byte_len(final(prompt).input@) as usize
            },
            PromptKeyAction::HistoryNext => old(prompt).history@.len() > 0 ==> {
                let idx = history_next_spec(old(prompt).history@.len(), old(prompt).history_index);
                &&& final(prompt).history_index == (match idx { Some(i) => Some(i as usize), None => None })
                &&& (match idx {
                    Some(i) => final(prompt).input@ == old(prompt).history@[i]@,
                    None => final(prompt).input@.len() == 0,
                })
            },
            PromptKeyAction::MoveSuggestion(d) => old(prompt).suggestions@.len() > 0 ==> {
                &&& final(prompt).suggestion_index == wrap_spec(
                    old(prompt).suggestion_index as int, d as int, old(prompt).suggestions@.len() as int)
                &&& lines_view(final(prompt).output@) == suggestion_lines_spec(
                    helps_view(old(prompt).suggestions@), Some(final(prompt).suggestion_index as int))
            },
            _ => *final(prompt) == *old(prompt),
        },
        (r is HistoryPrev || r is HistoryNext || r is MoveSuggestion) && old(prompt).history@.len() == 0
            && old(prompt).suggestions@.len() == 0 ==> *final(prompt) == *old(prompt),
{
    let has_selected = prompt.suggestion_index < prompt.suggestions.len();
    let r = handle_prompt_key(k, prompt.mode, prompt.showing_suggestions, prompt.input.as_str(), has_selected, pending_io);
    match r {
        PromptKeyAction::HistoryPrev => prompt.history_prev(),
        PromptKeyAction::HistoryNext => prompt.history_next(),
        PromptKeyAction::MoveSuggestion(d) => prompt.move_suggestion(d),
        _ => {},
    }
    r
}


/// The console's own state that a command changes: the prompt, whether beginner
/// mode is on, the highlighted settings row, the watched variables and their
/// last values, the focused panel and the alerts.
pub struct ConsoleState {
    pub prompt: PromptState,
    pub beginner_mode: bool,
    pub settings_index: usize,
    pub watch_list: Vec<String>,
    pub watch_values: Vec<(String, String)>,
    pub focus: Option<PanelKind>,
    pub alerts: VecDeque<PromptLine>,
}

/// What is left to do once a command has changed the console's state.
#[derive(Debug)]
pub enum CommandStep {
    /// Nothing more.
    Done,
    /// Leave the console.
    Quit,
    /// Send this control request; its answer is shown with `show_control_reply`.
    Control(ControlCommand<String>),
    /// The command needs the runtime's data or files: the caller carries it out.
    Dispatch(CommandKind),
}

/// A one-line output of `text` in colour `c`.
pub open spec fn one_line(text: Seq<char>, c: Color) -> Seq<Seq<(Seq<char>, crate::ui::style::Style)>> {
    seq![seq![(text, fg_spec(c))]]
}

fn set_line(prompt: &mut PromptState, text: String, c: Color)
    ensures
        lines_view(final(prompt).output@) == one_line(text@, c),
        *final(prompt) == (PromptState { output: final(prompt).output, showing_suggestions: false, ..*old(prompt) }),
{
    let mut lines: Vec<PromptLine> = Vec::new();
    lines.push(PromptLine::plain(text, fg(c)));
    assert(lines_view(lines@) =~= one_line(text@, c));
    prompt.set_output(lines);
}

/// The other parts of the state stay as they were.
pub open spec fn rest_unchanged(a: ConsoleState, b: ConsoleState) -> bool {
    &&& a.beginner_mode == b.beginner_mode
    &&& a.settings_index == b.settings_index
    &&& strings_view(a.watch_list@) == strings_view(b.watch_list@)
    &&& a.watch_values@ == b.watch_values@
    &&& a.focus == b.focus
    &&& lines_view(a.alerts@) == lines_view(b.alerts@)
}

/// Carries out a routed command line as far as the console's own state goes
/// (`settings_rows` are the rows the settings menu would show):
/// - a blank line does nothing; a lone `/` lists every offered command;
/// - `q` and `exit` leave the console;
/// - a command that beginner mode refuses shows the beginner notice;
/// - `/settings` opens the settings list on its first row, with the prompt open
///   and empty;
/// - `/clear` empties the output and the alerts;
/// - `/watch NAME` adds a watch and says so; `/unwatch all`, `/unwatch NAME` and
///   a bare `/unwatch` drop all watches, drop one, or show the usage;
/// - `/unfocus` returns to the grid view; an unknown command is reported;
/// - `p`, `r` and `/control ...` become the control request to send;
/// - the rest is handed back to the caller unchanged.
pub fn apply_command(state: &mut ConsoleState, cmd: &RoutedCommand, settings_rows: &[SettingsRow]) -> (r: CommandStep)
    requires
        old(state).prompt.wf(),
    ensures
        final(state).prompt.wf(),
        match cmd.kind {
            CommandKind::Ignore => r is Done && *final(state) == *old(state),
            CommandKind::ShowAllSuggestions => {
                &&& r is Done
                &&& final(state).prompt.showing_suggestions
                &&& helps_view(final(state).prompt.suggestions@) == suggestions_spec(old(state).beginner_mode, None)
                &&& lines_view(final(state).prompt.output@) == suggestion_lines_spec(suggestions_spec(old(state).beginner_mode, None), Some(0))
                &&& final(state).prompt.active == old(state).prompt.active
                &&& final(state).prompt.mode == old(state).prompt.mode
                &&& rest_unchanged(*final(state), *old(state))
            },
            CommandKind::Quit => r is Quit && *final(state) == *old(state),
            CommandKind::BeginnerBlocked => {
                &&& r is Done
                &&& lines_view(final(state).prompt.output@) == one_line(BEGINNER_BLOCKED_NOTICE@, Color::Amber)
                &&& final(state).prompt == (PromptState { output: final(state).prompt.output, showing_suggestions: false, ..old(state).prompt })
                &&& rest_unchanged(*final(state), *old(state))
            },
            CommandKind::Settings => {
                &&& r is Done
                &&& final(state).prompt.mode == PromptMode::SettingsSelect
                &&& final(state).settings_index == 0
                &&& final(state).prompt.active
                &&& final(state).prompt.input@.len() == 0
                &&& final(state).prompt.cursor == 0
                &&& !final(state).prompt.showing_suggestions
                &&& lines_view(final(state).prompt.output@) == settings_lines_spec(rows_view(settings_rows@), 0)
                &&& final(state).prompt.history@ == old(state).prompt.history@
                &&& strings_view(final(state).watch_list@) == strings_view(old(state).watch_list@)
                &&& final(state).focus == old(state).focus
            },
            CommandKind::Clear => {
                &&& r is Done
                &&& final(state).prompt.output@.len() == 0
                &&& !final(state).prompt.showing_suggestions
                &&& final(state).alerts@.len() == 0
                &&& final(state).prompt.active == old(state).prompt.active
                &&& final(state).prompt.mode == old(state).prompt.mode
                &&& strings_view(final(state).watch_list@) == strings_view(old(state).watch_list@)
            },
            CommandKind::Watch => r is Done && if cmd.args@.len() > 0 {
                let name = cmd.args@[0]@;
                &&& strings_view(final(state).watch_list@) == (if strings_view(old(state).watch_list@).contains(name) {
                    strings_view(old(state).watch_list@)
                } else {
                    strings_view(old(state).watch_list@).push(name)
                })
                &&& lines_view(final(state).prompt.output@) == one_line("Watching "@ + name + "."@, Color::Green)
            } else {
                *final(state) == *old(state)
            },
            CommandKind::Unwatch => {
                &&& r is Done
                &&& (cmd.args@.len() == 0 ==> lines_view(final(state).prompt.output@) == one_line("Usage: /unwatch <name|all>"@, Color::Info)
                    && strings_view(final(state).watch_list@) == strings_view(old(state).watch_list@))
                &&& (cmd.args@.len() > 0 && cmd.args@[0]@ == "all"@ ==> final(state).watch_list@.len() == 0
                    && final(state).watch_values@.len() == 0
                    && lines_view(final(state).prompt.output@) == one_line("Watches cleared."@, Color::Info))
                &&& (cmd.args@.len() > 0 && cmd.args@[0]@ != "all"@ ==> strings_view(final(state).watch_list@)
                    == strings_view(old(state).watch_list@).filter(|w: Seq<char>| w != cmd.args@[0]@)
                    && lines_view(final(state).prompt.output@) == one_line("Stopped watching "@ + cmd.args@[0]@ + "."@, Color::Info))
            },
            CommandKind::Unfocus => {
                &&& r is Done
                &&& final(state).focus is None
                &&& lines_view(final(state).prompt.output@) == one_line("Returned to grid view."@, Color::Info)
            },
            CommandKind::Unknown => {
                &&& r is Done
                &&& lines_view(final(state).prompt.output@) == one_line("Unknown command. Type /help."@, Color::Red)
                &&& rest_unchanged(*final(state), *old(state))
            },
            CommandKind::Pause => r matches CommandStep::Control(c) && c is Pause && *final(state) == *old(state),
            CommandKind::Resume => r matches CommandStep::Control(c) && c is Resume && *final(state) == *old(state),
            CommandKind::Control => r matches CommandStep::Control(c)
                && control_view(c) == control_spec(strings_view(cmd.args@)) && *final(state) == *old(state),
            _ => r == CommandStep::Dispatch(cmd.kind) && *final(state) == *old(state),
        },
{
    match cmd.kind {
        CommandKind::Ignore => CommandStep::Done,
        CommandKind::ShowAllSuggestions => {
            let beginner = state.beginner_mode;
            state.prompt.set_suggestions_list(command_suggestions(beginner, None));
            CommandStep::Done
        },
        CommandKind::Quit => CommandStep::Quit,
        CommandKind::BeginnerBlocked => {
            set_line(&mut state.prompt, BEGINNER_BLOCKED_NOTICE.to_owned(), Color::Amber);
            CommandStep::Done
        },
        CommandKind::Settings => {
            state.prompt.mode = PromptMode::SettingsSelect;
            state.settings_index = 0;
            state.prompt.set_output(settings_menu_lines(settings_rows, 0));
            state.prompt.activate_with("");
            proof {
                assert(vstd::utf8::encode_utf8(""@).len() == 0) by {
                    reveal_strlit("");
                    assert(""@ =~= Seq::<char>::empty());
                }
            }
            CommandStep::Done
        },
        CommandKind::Clear => {
            state.prompt.clear_output();
            state.alerts.clear();
            CommandStep::Done
        },
        CommandKind::Watch => {
            if cmd.args.len() > 0 {
                let name = cmd.args[0].as_str();
                watch_add(&mut state.watch_list, name);
                let mut t = "Watching ".to_owned();
                push_str(&mut t, name);
                push_str(&mut t, ".");
                set_line(&mut state.prompt, t, Color::Green);
            }
            CommandStep::Done
        },
        CommandKind::Unwatch => {
            if cmd.args.len() == 0 {
                set_line(&mut state.prompt, "Usage: /unwatch <name|all>".to_owned(), Color::Info);
            } else if crate::text::str_eq(cmd.args[0].as_str(), "all") {
                state.watch_list = Vec::new();
                state.watch_values = Vec::new();
                set_line(&mut state.prompt, "Watches cleared.".to_owned(), Color::Info);
            } else {
                let name = cmd.args[0].as_str();
                watch_remove(&mut state.watch_list, name);
                let mut t = "Stopped watching ".to_owned();
                push_str(&mut t, name);
                push_str(&mut t, ".");
                set_line(&mut state.prompt, t, Color::Info);
            }
            CommandStep::Done
        },
        CommandKind::Unfocus => {
            state.focus = None;
            set_line(&mut state.prompt, "Returned to grid view.".to_owned(), Color::Info);
            CommandStep::Done
        },
        CommandKind::Unknown => {
            set_line(&mut state.prompt, "Unknown command. Type /help.".to_owned(), Color::Red);
            CommandStep::Done
        },
        CommandKind::Pause => CommandStep::Control(ControlCommand::Pause),
        CommandKind::Resume => CommandStep::Control(ControlCommand::Resume),
        CommandKind::Control => CommandStep::Control(control_command(cmd.args.as_slice())),
        k => CommandStep::Dispatch(k),
    }
}

/// Shows the runtime's answer to a control request `c`: the answer's error in
/// red, else the request's success notice (`Paused.`, `Resumed.`, ...) in green;
/// a failed request shows `Error: ` and the failure in red.
pub fn show_control_reply(prompt: &mut PromptState, c: &ControlCommand<String>, reply: &Result<Option<String>, String>)
    ensures
        ({
            let (text, color) = simple_response_spec(
                match reply {
                    Ok(Some(e)) => Ok(Some(e@)),
                    Ok(None) => Ok(None),
                    Err(e) => Err(e@),
                },
                control_success_spec(control_view(*c)),
            );
            lines_view(final(prompt).output@) == one_line(text, color)
        }),
        *final(prompt) == (PromptState { output: final(prompt).output, showing_suggestions: false, ..*old(prompt) }),
{
    let (text, color) = simple_response(reply, control_success(c));
    set_line(prompt, text, color);
}

} // verus!
