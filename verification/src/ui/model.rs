//! The console's panels, prompt modes and the choices they carry.
use vstd::prelude::*;

use crate::text::{chars_eq_str, chars_of, lower, lower_chars, trim, trim_chars};
use crate::ui::menu::MenuKind;

verus! {

/// Panels of the dashboard.
#[derive(Debug, Clone, Copy, PartialEq, Eq, Structural)]
pub enum PanelKind {
    Cycle,
    Io,
    Status,
    Events,
    Tasks,
    Watch,
}

pub open spec fn panel_title_spec(kind: PanelKind) -> Seq<char> {
    match kind {
        PanelKind::Cycle => "Cycle Time"@,
        PanelKind::Io => "I/O"@,
        PanelKind::Status => "Status"@,
        PanelKind::Events => "Events"@,
        PanelKind::Tasks => "Tasks"@,
        PanelKind::Watch => "Watch"@,
    }
}

/// The panel named by `name`, after trimming and ASCII case folding.
pub open spec fn panel_parse_spec(name: Seq<char>) -> Option<PanelKind> {
    let key = lower(trim(name));
    if key == "cycle"@ {
        Some(PanelKind::Cycle)
    } else if key == "io"@ {
        Some(PanelKind::Io)
    } else if key == "status"@ {
        Some(PanelKind::Status)
    } else if key == "events"@ {
        Some(PanelKind::Events)
    } else if key == "tasks"@ {
        Some(PanelKind::Tasks)
    } else if key == "watch"@ {
        Some(PanelKind::Watch)
    } else {
        None
    }
}

impl PanelKind {
    pub fn title(self) -> (r: &'static str)
        ensures
            r@ == panel_title_spec(self),
    {
        match self {
            PanelKind::Cycle => "Cycle Time",
            PanelKind::Io => "I/O",
            PanelKind::Status => "Status",
            PanelKind::Events => "Events",
            PanelKind::Tasks => "Tasks",
            PanelKind::Watch => "Watch",
        }
    }

    pub fn parse(name: &str) -> (r: Option<Self>)
        ensures
            r == panel_parse_spec(name@),
    {
        let raw = chars_of(name);
        let t = trim_chars(raw.as_slice());
        let key = lower_chars(t.as_slice());
        let k = key.as_slice();
        if chars_eq_str(k, "cycle") {
            Some(PanelKind::Cycle)
        } else if chars_eq_str(k, "io") {
            Some(PanelKind::Io)
        } else if chars_eq_str(k, "status") {
            Some(PanelKind::Status)
        } else if chars_eq_str(k, "events") {
            Some(PanelKind::Events)
        } else if chars_eq_str(k, "tasks") {
            Some(PanelKind::Tasks)
        } else if chars_eq_str(k, "watch") {
            Some(PanelKind::Watch)
        } else {
            None
        }
    }
}

/// Actions that ask for a yes/no confirmation first.
#[derive(Debug, Clone, Copy, PartialEq, Eq, Structural)]
pub enum ConfirmAction {
    RestartWarm,
    RestartCold,
    Shutdown,
    ExitConsole,
}

/// What an I/O selection is for.
#[derive(Debug, Clone, Copy, PartialEq, Eq, Structural)]
pub enum IoActionKind {
    Read,
    SetValue,
    Force,
    Unforce,
}

/// Settings the console can change.
#[derive(Debug, Clone, Copy, PartialEq, Eq, Structural)]
pub enum SettingKey {
    PlcName,
    CycleInterval,
    LogLevel,
    ControlMode,
    WebListen,
    WebAuth,
    DiscoveryEnabled,
    MeshEnabled,
}

/// What the prompt's input is taken as.
#[derive(Debug, Clone, Copy, PartialEq, Eq, Structural)]
pub enum PromptMode {
    Normal,
    SettingsSelect,
    SettingsValue(SettingKey),
    IoSelect(IoActionKind),
    IoValueSelect,
    ConfirmAction(ConfirmAction),
    Menu(MenuKind),
}

/// Severity of a runtime event.
#[derive(Debug, Clone, Copy, PartialEq, Eq, Structural)]
pub enum EventKind {
    Info,
    Warn,
    Fault,
}

} // verus!
