//! What a key press asks of the console, outside the prompt and inside it, and
//! where a submitted line goes.
use vstd::prelude::*;

use crate::text::{chars_of, has_char, has_char_exec, trim, trim_chars};
use crate::ui::command::{is_yes, is_yes_spec};
use crate::ui::menu::MenuKind;
use crate::ui::model::{ConfirmAction, IoActionKind, PromptMode, SettingKey};

verus! {

/// The line shown when a watching-only console is asked for the prompt.
pub const READ_ONLY_NOTICE: &'static str = "Read-only mode.";

/// The line shown when a debugger key is pressed with debug keys off.
pub const DEBUG_DISABLED_NOTICE: &'static str = "Debug controls disabled.";

/// The line shown when beginner mode refuses a command.
pub const BEGINNER_BLOCKED_NOTICE: &'static str = "Beginner mode: use /help, /status, /settings, /io, /control, /info, /exit.";

/// The keys the console tells apart.
#[derive(Debug, Clone, Copy, PartialEq, Eq, Structural)]
pub enum Key {
    Char(char),
    Enter,
    Esc,
    Tab,
    Backspace,
    Left,
    Right,
    Up,
    Down,
    Other,
}

/// A key press: the key and whether Control was held.
#[derive(Debug, Clone, Copy, PartialEq, Eq, Structural)]
pub struct KeyPress {
    pub key: Key,
    pub control: bool,
}

/// The debugger commands bound to single keys.
#[derive(Debug, Clone, Copy, PartialEq, Eq, Structural)]
pub enum DebugAction {
    Pause,
    Resume,
    StepIn,
    StepOver,
    StepOut,
}

/// What a key press does while the prompt is closed.
#[derive(Debug, Clone, Copy, PartialEq, Eq, Structural)]
pub enum KeyAction {
    /// Nothing happens.
    Nothing,
    /// Leave the console.
    Quit,
    /// Hand the key to the open prompt.
    Prompt,
    /// The console only watches: say so.
    ReadOnlyNotice,
    /// The confirmation was answered yes: carry the action out.
    Confirmed(ConfirmAction),
    /// The confirmation was answered otherwise: drop it.
    Dismissed,
    /// Open the prompt with `/` and list the commands.
    OpenCommandPrompt,
    /// Show the next page of panels.
    NextPanelPage,
    /// Ask for a yes/no before this action.
    AskConfirm(ConfirmAction),
    /// Debug keys are switched off: say so.
    DebugDisabled,
    /// Send this debugger command.
    Debug(DebugAction),
}

pub open spec fn is_key_char(k: KeyPress, lower: char, upper: char) -> bool {
    k.key == Key::Char(lower) || k.key == Key::Char(upper)
}

/// The debugger command a key is bound to.
pub open spec fn debug_key(k: KeyPress) -> Option<DebugAction> {
    if is_key_char(k, 'p', 'P') {
        Some(DebugAction::Pause)
    } else if is_key_char(k, 'r', 'R') {
        Some(DebugAction::Resume)
    } else if is_key_char(k, 's', 'S') {
        Some(DebugAction::StepIn)
    } else if is_key_char(k, 'o', 'O') {
        Some(DebugAction::StepOver)
    } else if is_key_char(k, 'u', 'U') {
        Some(DebugAction::StepOut)
    } else {
        None
    }
}

/// What a key press does while the prompt is closed: `q` leaves a read-only
/// console; an open prompt takes every key; a read-only console only answers
/// `/`; a pending confirmation takes the next key (`y` carries it out); then `/`,
/// Tab, the debugger keys, the confirmed actions `w`, `c`, `x`, and `q`.
pub open spec fn key_action_spec(
    k: KeyPress,
    no_input: bool,
    prompt_active: bool,
    pending: Option<ConfirmAction>,
    debug_controls: bool,
) -> KeyAction {
    if no_input && k.key == Key::Char('q') {
        KeyAction::Quit
    } else if prompt_active {
        KeyAction::Prompt
    } else if no_input {
        if k.key == Key::Char('/') { KeyAction::ReadOnlyNotice } else { KeyAction::Nothing }
    } else if pending is Some {
        if is_key_char(k, 'y', 'Y') {
            if pending->0 == ConfirmAction::ExitConsole {
                KeyAction::Quit
            } else {
                KeyAction::Confirmed(pending->0)
            }
        } else {
            KeyAction::Dismissed
        }
    } else if k.key == Key::Char('/') {
        KeyAction::OpenCommandPrompt
    } else if k.key == Key::Tab {
        KeyAction::NextPanelPage
    } else if debug_key(k) is Some {
        if debug_controls { KeyAction::Debug(debug_key(k)->0) } else { KeyAction::DebugDisabled }
    } else if is_key_char(k, 'w', 'W') {
        KeyAction::AskConfirm(ConfirmAction::RestartWarm)
    } else if is_key_char(k, 'c', 'C') {
        KeyAction::AskConfirm(ConfirmAction::RestartCold)
    } else if is_key_char(k, 'x', 'X') {
        KeyAction::AskConfirm(ConfirmAction::Shutdown)
    } else if is_key_char(k, 'q', 'Q') {
        KeyAction::Quit
    } else {
        KeyAction::Nothing
    }
}

fn key_is(k: KeyPress, lower: char, upper: char) -> (r: bool)
    ensures
        r == is_key_char(k, lower, upper),
{
    match k.key {
        Key::Char(c) => c == lower || c == upper,
        _ => false,
    }
}

fn debug_key_exec(k: KeyPress) -> (r: Option<DebugAction>)
    ensures
        r == debug_key(k),
{
    if key_is(k, 'p', 'P') {
        Some(DebugAction::Pause)
    } else if key_is(k, 'r', 'R') {
        Some(DebugAction::Resume)
    } else if key_is(k, 's', 'S') {
        Some(DebugAction::StepIn)
    } else if key_is(k, 'o', 'O') {
        Some(DebugAction::StepOver)
    } else if key_is(k, 'u', 'U') {
        Some(DebugAction::StepOut)
    } else {
        None
    }
}

/// Decides what a key press does while the prompt is closed. A pending
/// confirmation is used up by the key whatever it is.
pub fn handle_key(
    k: KeyPress,
    no_input: bool,
    prompt_active: bool,
    pending: Option<ConfirmAction>,
    debug_controls: bool,
) -> (r: KeyAction)
    ensures
        r == key_action_spec(k, no_input, prompt_active, pending, debug_controls),
{
    if no_input && k.key == Key::Char('q') {
        return KeyAction::Quit;
    }
    if prompt_active {
        return KeyAction::Prompt;
    }
    if no_input {
        return if k.key == Key::Char('/') { KeyAction::ReadOnlyNotice } else { KeyAction::Nothing };
    }
    if let Some(confirm) = pending {
        return if key_is(k, 'y', 'Y') {
            if confirm == ConfirmAction::ExitConsole { KeyAction::Quit } else { KeyAction::Confirmed(confirm) }
        } else {
            KeyAction::Dismissed
        };
    }
    if k.key == Key::Char('/') {
        return KeyAction::OpenCommandPrompt;
    }
    if k.key == Key::Tab {
        return KeyAction::NextPanelPage;
    }
    if let Some(d) = debug_key_exec(k) {
        return if debug_controls { KeyAction::Debug(d) } else { KeyAction::DebugDisabled };
    }
    if key_is(k, 'w', 'W') {
        KeyAction::AskConfirm(ConfirmAction::RestartWarm)
    } else if key_is(k, 'c', 'C') {
        KeyAction::AskConfirm(ConfirmAction::RestartCold)
    } else if key_is(k, 'x', 'X') {
        KeyAction::AskConfirm(ConfirmAction::Shutdown)
    } else if key_is(k, 'q', 'Q') {
        KeyAction::Quit
    } else {
        KeyAction::Nothing
    }
}

/// Where leaving the prompt with Esc goes.
#[derive(Debug, Clone, Copy, PartialEq, Eq, Structural)]
pub enum EscTarget {
    /// Back to the I/O menu.
    IoMenu,
    /// Back to the list of points for this action.
    IoSelect(IoActionKind),
    /// Close the prompt and its output.
    Close,
}

/// What a key press does in the open prompt.
#[derive(Debug, Clone, Copy, PartialEq, Eq, Structural)]
pub enum PromptKeyAction {
    Escape(EscTarget),
    /// Control-C: close the prompt, forget the mode and the suggestions.
    Abort,
    /// Control-D: ask whether to leave the console.
    AskExit,
    /// Enter on a highlighted suggestion: run it.
    RunSuggestion,
    /// Enter: submit the typed line.
    Submit,
    Backspace,
    CursorLeft,
    CursorRight,
    MoveSuggestion(i32),
    MoveSettings(i32),
    MoveMenu(MenuKind, i32),
    MoveIo(IoActionKind, i32),
    MoveIoValue(i32),
    HistoryPrev,
    HistoryNext,
    Insert(char),
    Ignore,
}

/// How Up (`delta` -1) or Down (`delta` 1) moves: the suggestions first, then
/// the list the prompt shows, else the history.
pub open spec fn arrow_action(mode: PromptMode, showing_suggestions: bool, delta: i32) -> PromptKeyAction {
    if showing_suggestions {
        PromptKeyAction::MoveSuggestion(delta)
    } else {
        match mode {
            PromptMode::SettingsSelect => PromptKeyAction::MoveSettings(delta),
            PromptMode::Menu(kind) => PromptKeyAction::MoveMenu(kind, delta),
            PromptMode::IoSelect(action) => PromptKeyAction::MoveIo(action, delta),
            PromptMode::IoValueSelect => PromptKeyAction::MoveIoValue(delta),
            _ => if delta < 0 { PromptKeyAction::HistoryPrev } else { PromptKeyAction::HistoryNext },
        }
    }
}

/// What a key press does in the open prompt. Enter runs the highlighted
/// suggestion when suggestions show in the normal mode, the typed line has no
/// inner space and a suggestion is highlighted; otherwise it submits the line.
pub open spec fn prompt_key_spec(
    k: KeyPress,
    mode: PromptMode,
    showing_suggestions: bool,
    input: Seq<char>,
    has_selected_suggestion: bool,
    pending_io: Option<IoActionKind>,
) -> PromptKeyAction {
    match k.key {
        Key::Esc => match mode {
            PromptMode::IoSelect(_) => PromptKeyAction::Escape(EscTarget::IoMenu),
            PromptMode::IoValueSelect => match pending_io {
                Some(a) => PromptKeyAction::Escape(EscTarget::IoSelect(a)),
                None => PromptKeyAction::Escape(EscTarget::IoMenu),
            },
            _ => PromptKeyAction::Escape(EscTarget::Close),
        },
        Key::Char(c) => if c == 'c' && k.control {
            PromptKeyAction::Abort
        } else if c == 'd' && k.control {
            PromptKeyAction::AskExit
        } else {
            PromptKeyAction::Insert(c)
        },
        Key::Enter => if showing_suggestions && mode == PromptMode::Normal && !has_char(trim(input), ' ')
            && has_selected_suggestion {
            PromptKeyAction::RunSuggestion
        } else {
            PromptKeyAction::Submit
        },
        Key::Backspace => PromptKeyAction::Backspace,
        Key::Left => PromptKeyAction::CursorLeft,
        Key::Right => PromptKeyAction::CursorRight,
        Key::Up => arrow_action(mode, showing_suggestions, -1i32),
        Key::Down => arrow_action(mode, showing_suggestions, 1i32),
        _ => PromptKeyAction::Ignore,
    }
}

fn arrow_action_exec(mode: PromptMode, showing_suggestions: bool, delta: i32) -> (r: PromptKeyAction)
    ensures
        r == arrow_action(mode, showing_suggestions, delta),
{
    if showing_suggestions {
        return PromptKeyAction::MoveSuggestion(delta);
    }
    match mode {
        PromptMode::SettingsSelect => PromptKeyAction::MoveSettings(delta),
        PromptMode::Menu(kind) => PromptKeyAction::MoveMenu(kind, delta),
        PromptMode::IoSelect(action) => PromptKeyAction::MoveIo(action, delta),
        PromptMode::IoValueSelect => PromptKeyAction::MoveIoValue(delta),
        _ => if delta < 0 { PromptKeyAction::HistoryPrev } else { PromptKeyAction::HistoryNext },
    }
}

/// Decides what a key press does in the open prompt.
pub fn handle_prompt_key(
    k: KeyPress,
    mode: PromptMode,
    showing_suggestions: bool,
    input: &str,
    has_selected_suggestion: bool,
    pending_io: Option<IoActionKind>,
) -> (r: PromptKeyAction)
    ensures
        r == prompt_key_spec(k, mode, showing_suggestions, input@, has_selected_suggestion, pending_io),
{
    match k.key {
        Key::Esc => match mode {
            PromptMode::IoSelect(_) => PromptKeyAction::Escape(EscTarget::IoMenu),
            PromptMode::IoValueSelect => match pending_io {
                Some(a) => PromptKeyAction::Escape(EscTarget::IoSelect(a)),
                None => PromptKeyAction::Escape(EscTarget::IoMenu),
            },
            _ => PromptKeyAction::Escape(EscTarget::Close),
        },
        Key::Char(c) => if c == 'c' && k.control {
            PromptKeyAction::Abort
        } else if c == 'd' && k.control {
            PromptKeyAction::AskExit
        } else {
            PromptKeyAction::Insert(c)
        },
        Key::Enter => {
            if showing_suggestions && mode == PromptMode::Normal && has_selected_suggestion {
                let raw = chars_of(input);
                let t = trim_chars(raw.as_slice());
                if !has_char_exec(t.as_slice(), ' ') {
                    return PromptKeyAction::RunSuggestion;
                }
            }
            PromptKeyAction::Submit
        },
        Key::Backspace => PromptKeyAction::Backspace,
        Key::Left => PromptKeyAction::CursorLeft,
        Key::Right => PromptKeyAction::CursorRight,
        Key::Up => arrow_action_exec(mode, showing_suggestions, -1),
        Key::Down => arrow_action_exec(mode, showing_suggestions, 1),
        _ => PromptKeyAction::Ignore,
    }
}

/// Where a submitted line goes.
#[derive(Debug, Clone, Copy, PartialEq, Eq, Structural)]
pub enum SubmitTarget {
    /// A blank line in the normal mode does nothing.
    Ignore,
    SettingsSelect,
    SettingsValue(SettingKey),
    Menu(MenuKind),
    IoSelect(IoActionKind),
    IoValueSelect,
    Confirm(ConfirmAction),
    /// Run it as a command.
    Command,
}

pub open spec fn submit_target_spec(input: Seq<char>, mode: PromptMode) -> SubmitTarget {
    match mode {
        PromptMode::Normal => if trim(input).len() == 0 { SubmitTarget::Ignore } else { SubmitTarget::Command },
        PromptMode::SettingsSelect => SubmitTarget::SettingsSelect,
        PromptMode::SettingsValue(key) => SubmitTarget::SettingsValue(key),
        PromptMode::Menu(kind) => SubmitTarget::Menu(kind),
        PromptMode::IoSelect(action) => SubmitTarget::IoSelect(action),
        PromptMode::IoValueSelect => SubmitTarget::IoValueSelect,
        PromptMode::ConfirmAction(action) => SubmitTarget::Confirm(action),
    }
}

/// Decides where a submitted line goes, by the prompt's mode.
pub fn handle_prompt_submit(input: &str, mode: PromptMode) -> (r: SubmitTarget)
    ensures
        r == submit_target_spec(input@, mode),
{
    match mode {
        PromptMode::Normal => {
            let raw = chars_of(input);
            let t = trim_chars(raw.as_slice());
            if t.len() == 0 { SubmitTarget::Ignore } else { SubmitTarget::Command }
        },
        PromptMode::SettingsSelect => SubmitTarget::SettingsSelect,
        PromptMode::SettingsValue(key) => SubmitTarget::SettingsValue(key),
        PromptMode::Menu(kind) => SubmitTarget::Menu(kind),
        PromptMode::IoSelect(action) => SubmitTarget::IoSelect(action),
        PromptMode::IoValueSelect => SubmitTarget::IoValueSelect,
        PromptMode::ConfirmAction(action) => SubmitTarget::Confirm(action),
    }
}

/// The answer to a typed confirmation.
#[derive(Debug, Clone, Copy, PartialEq, Eq, Structural)]
pub enum ConfirmOutcome {
    /// Leave the console.
    Quit,
    /// Carry the action out.
    Carry(ConfirmAction),
    Cancelled,
}

pub open spec fn confirm_spec(input: Seq<char>, action: ConfirmAction) -> ConfirmOutcome {
    if is_yes_spec(input) {
        if action == ConfirmAction::ExitConsole { ConfirmOutcome::Quit } else { ConfirmOutcome::Carry(action) }
    } else {
        ConfirmOutcome::Cancelled
    }
}

/// Reads the answer typed to a confirmation.
pub fn handle_prompt_confirm(input: &str, action: ConfirmAction) -> (r: ConfirmOutcome)
    ensures
        r == confirm_spec(input@, action),
{
    if is_yes(input) {
        if action == ConfirmAction::ExitConsole { ConfirmOutcome::Quit } else { ConfirmOutcome::Carry(action) }
    } else {
        ConfirmOutcome::Cancelled
    }
}

/// The line shown once a confirmed action is under way.
pub open spec fn confirmed_text(action: ConfirmAction) -> Seq<char> {
    match action {
        ConfirmAction::Shutdown => "Shutdown requested."@,
        ConfirmAction::RestartCold => "Restarting (cold)..."@,
        ConfirmAction::RestartWarm => "Restarting (warm)..."@,
        ConfirmAction::ExitConsole => ""@,
    }
}

pub fn confirmed_message(action: ConfirmAction) -> (r: &'static str)
    ensures
        r@ == confirmed_text(action),
{
    match action {
        ConfirmAction::Shutdown => "Shutdown requested.",
        ConfirmAction::RestartCold => "Restarting (cold)...",
        ConfirmAction::RestartWarm => "Restarting (warm)...",
        ConfirmAction::ExitConsole => "",
    }
}

} // verus!
