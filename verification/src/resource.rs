//! Resource execution state, and the start barrier that holds a resource back
//! until the runtime is started.
use vstd::prelude::*;

use std::sync::atomic::AtomicBool;
use std::sync::mpsc::{Receiver, Sender};
use std::sync::{Arc, Condvar, Mutex};

use crate::clock::{locked_transition, Clock, Duration};

verus! {

/// Resource execution state.
#[derive(Debug, Clone, Copy, PartialEq, Eq, Structural)]
pub enum ResourceState {
    Boot,
    Ready,
    Running,
    Paused,
    Faulted,
    Stopped,
}

impl Default for ResourceState {
    fn default() -> (r: Self)
        ensures
            r == ResourceState::Boot,
    {
        ResourceState::Boot
    }
}

/// Barrier that blocks resource execution until opened.
#[derive(Debug)]
pub struct StartGate {
    open: Mutex<bool>,
    cvar: Condvar,
}

impl StartGate {
    /// A closed barrier.
    pub fn new() -> (r: Self) {
        StartGate { open: Mutex::new(false), cvar: Condvar::new() }
    }

    /// Opens the barrier and wakes every waiter.
    pub fn open(&self) {
        locked_transition(&self.open, |_was: bool| -> (r: (bool, ()))
            ensures
                r.0,
            { (true, ()) });
        self.cvar.notify_all();
    }

    /// Whether the barrier has been opened.
    pub fn is_open(&self) -> (r: bool) {
        locked_transition(&self.open, |was: bool| -> (r: (bool, bool))
            ensures
                r.0 == was,
                r.1 == was,
            { (was, was) })
    }
}

/// Commands applied to a running resource.
#[derive(Debug)]
pub enum ResourceCommand {
    Pause,
    Resume,
    UpdateRetainSaveInterval(Option<Duration>),
    ReloadBytecode { bytes: Vec<u8> },
}

/// The command that pauses the runtime cycles.
pub fn pause_command() -> (c: ResourceCommand)
    ensures
        c is Pause,
{
    ResourceCommand::Pause
}

/// The command that resumes the runtime cycles.
pub fn resume_command() -> (c: ResourceCommand)
    ensures
        c is Resume,
{
    ResourceCommand::Resume
}

/// Why a control request failed.
#[derive(Debug)]
pub enum RuntimeError {
    ControlError(String),
}

pub open spec fn runtime_error_text(e: RuntimeError) -> Seq<char> {
    match e {
        RuntimeError::ControlError(m) => m@,
    }
}

#[verifier::external_type_specification]
#[verifier::external_body]
#[verifier::reject_recursive_types(T)]
pub struct ExSender<T>(std::sync::mpsc::Sender<T>);

#[verifier::external_type_specification]
#[verifier::external_body]
#[verifier::reject_recursive_types(T)]
pub struct ExReceiver<T>(std::sync::mpsc::Receiver<T>);

/// `mpsc::channel`: a fresh sender and receiver pair.
#[verifier::external_body]
fn command_channel() -> (r: (Sender<ResourceCommand>, Receiver<ResourceCommand>)) {
    std::sync::mpsc::channel()
}

/// `Sender::send`: true when the command was queued. Whether it is depends on the
/// receiving side still being alive, so nothing is claimed.
#[verifier::external_body]
fn send_on(tx: &Sender<ResourceCommand>, command: ResourceCommand) -> (r: bool) {
    tx.send(command).is_ok()
}

fn clone_error(e: &Option<RuntimeError>) -> (r: Option<RuntimeError>)
    ensures
        match (r, *e) {
            (Some(a), Some(b)) => runtime_error_text(a) == runtime_error_text(b),
            (None, None) => true,
            _ => false,
        },
{
    match e {
        Some(RuntimeError::ControlError(m)) => Some(RuntimeError::ControlError(m.clone())),
        None => None,
    }
}

/// Lightweight control handle for a running resource.
pub struct ResourceControl<C: Clock> {
    stop: Arc<AtomicBool>,
    state: Arc<Mutex<ResourceState>>,
    last_error: Arc<Mutex<Option<RuntimeError>>>,
    clock: C,
    cmd_tx: Sender<ResourceCommand>,
}

impl<C: Clock> ResourceControl<C> {
    /// The clock that the handle wakes after a pause or resume.
    pub closed spec fn clock_spec(&self) -> C {
        self.clock
    }

    /// A control handle with no resource thread behind it: commands go to the
    /// returned receiver; the state reads as ready; `clock` is the clock it wakes.
    pub fn stub(clock: C) -> (r: (Self, Receiver<ResourceCommand>))
        ensures
            r.0.clock_spec() == clock,
    {
        let stop = Arc::new(AtomicBool::new(false));
        let state = Arc::new(Mutex::new(ResourceState::Ready));
        let last_error: Arc<Mutex<Option<RuntimeError>>> = Arc::new(Mutex::new(None));
        let (cmd_tx, cmd_rx) = command_channel();
        (ResourceControl { stop, state, last_error, clock, cmd_tx }, cmd_rx)
    }

    /// Sends a command to the resource; fails once the resource stopped listening.
    pub fn send_command(&self, command: ResourceCommand) -> (r: Result<(), RuntimeError>)
        ensures
            r is Err ==> runtime_error_text(r->Err_0) == "command channel closed"@,
    {
        if send_on(&self.cmd_tx, command) {
            Ok(())
        } else {
            Err(RuntimeError::ControlError("command channel closed".to_owned()))
        }
    }

    /// Pauses the runtime cycles.
    pub fn pause(&self) -> (r: Result<(), RuntimeError>)
        ensures
            r is Err ==> runtime_error_text(r->Err_0) == "command channel closed"@,
    {
        self.send_command(pause_command())?;
        self.clock.wake();
        Ok(())
    }

    /// Resumes the runtime cycles.
    pub fn resume(&self) -> (r: Result<(), RuntimeError>)
        ensures
            r is Err ==> runtime_error_text(r->Err_0) == "command channel closed"@,
    {
        self.send_command(resume_command())?;
        self.clock.wake();
        Ok(())
    }

    /// Signals the resource thread to stop.
    pub fn stop(&self) {
        self.stop.store(true, std::sync::atomic::Ordering::SeqCst);
        self.clock.wake();
    }

    /// The current resource state.
    pub fn state(&self) -> (r: ResourceState) {
        locked_transition(&*self.state, |s: ResourceState| -> (r: (ResourceState, ResourceState))
            ensures
                r.0 == s,
                r.1 == s,
            { (s, s) })
    }

    /// The last error, if the resource faulted.
    pub fn last_error(&self) -> (r: Option<RuntimeError>) {
        locked_transition(&*self.last_error, |e: Option<RuntimeError>| -> (r: (Option<RuntimeError>, Option<RuntimeError>))
            { let c = clone_error(&e); (e, c) })
    }
}

/// Drives a runtime with a scheduling clock: the runtime, the clock, the cycle
/// interval, the time acceleration and the start gate that holds the first cycle.
pub struct ResourceRunner<C: Clock + Clone, R> {
    runtime: R,
    clock: C,
    cycle_interval: Duration,
    time_scale: u32,
    start_gate: Option<Arc<StartGate>>,
}

impl<C: Clock + Clone, R> ResourceRunner<C, R> {
    pub closed spec fn runtime_spec(&self) -> R {
        self.runtime
    }

    pub closed spec fn clock_spec(&self) -> C {
        self.clock
    }

    pub closed spec fn cycle_interval_spec(&self) -> Duration {
        self.cycle_interval
    }

    pub closed spec fn time_scale_spec(&self) -> u32 {
        self.time_scale
    }

    pub closed spec fn start_gate_spec(&self) -> Option<Arc<StartGate>> {
        self.start_gate
    }

    /// A runner at normal speed with no start gate.
    pub fn new(runtime: R, clock: C, cycle_interval: Duration) -> (r: Self)
        ensures
            r.runtime_spec() == runtime,
            r.clock_spec() == clock,
            r.cycle_interval_spec() == cycle_interval,
            r.time_scale_spec() == 1,
            r.start_gate_spec() is None,
    {
        ResourceRunner { runtime, clock, cycle_interval, time_scale: 1, start_gate: None }
    }

    /// Attaches a start gate that must be opened before the scheduler runs.
    pub fn with_start_gate(self, gate: Arc<StartGate>) -> (r: Self)
        ensures
            r.start_gate_spec() == Some(gate),
            r.runtime_spec() == self.runtime_spec(),
            r.clock_spec() == self.clock_spec(),
            r.cycle_interval_spec() == self.cycle_interval_spec(),
            r.time_scale_spec() == self.time_scale_spec(),
    {
        let mut s = self;
        s.start_gate = Some(gate);
        s
    }

    /// Applies simulation time acceleration; a scale of zero counts as one.
    pub fn with_time_scale(self, scale: u32) -> (r: Self)
        ensures
            r.time_scale_spec() == if scale == 0 { 1 } else { scale },
            r.runtime_spec() == self.runtime_spec(),
            r.clock_spec() == self.clock_spec(),
            r.cycle_interval_spec() == self.cycle_interval_spec(),
            r.start_gate_spec() == self.start_gate_spec(),
    {
        let mut s = self;
        s.time_scale = if scale < 1 { 1 } else { scale };
        s
    }

    /// The time acceleration in force.
    pub fn time_scale(&self) -> (r: u32)
        ensures
            r == self.time_scale_spec(),
    {
        self.time_scale
    }

    /// The underlying runtime.
    pub fn runtime(&self) -> (r: &R)
        ensures
            *r == self.runtime_spec(),
    {
        &self.runtime
    }

    /// The underlying runtime, to change it in place.
    pub fn runtime_mut(&mut self) -> (r: &mut R)
        ensures
            *r == old(self).runtime_spec(),
            final(self).runtime_spec() == *final(r),
            final(self).clock_spec() == old(self).clock_spec(),
            final(self).cycle_interval_spec() == old(self).cycle_interval_spec(),
            final(self).time_scale_spec() == old(self).time_scale_spec(),
            final(self).start_gate_spec() == old(self).start_gate_spec(),
    {
        &mut self.runtime
    }
}

} // verus!
