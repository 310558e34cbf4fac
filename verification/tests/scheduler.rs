use trust_runtime::clock::{Clock, Duration, ManualClock, ScaledClock, StdClock};
use std::sync::Arc;
use trust_runtime::resource::{ResourceRunner, ResourceState, StartGate};

#[test]
fn scaled_clock_clamps_zero_to_one() {
    let clock = ScaledClock::new(0);
    assert_eq!(clock.scale(), 1);
}

#[test]
fn scaled_clock_sleeps_faster_than_std_clock() {
    let std_clock = StdClock::new();
    let std_deadline = Duration::from_millis(20);
    let std_start = std::time::Instant::now();
    std_clock.sleep_until(std_deadline);
    let std_elapsed = std_start.elapsed();

    let scaled_clock = ScaledClock::new(20);
    let scaled_deadline = Duration::from_millis(20);
    let scaled_start = std::time::Instant::now();
    scaled_clock.sleep_until(scaled_deadline);
    let scaled_elapsed = scaled_start.elapsed();

    assert!(std_elapsed >= std::time::Duration::from_millis(10));
    assert!(scaled_elapsed < std_elapsed);
}

#[test]
fn scaled_clock_now_is_monotonic() {
    let clock = ScaledClock::new(10);
    let first = clock.now();
    let pause = std::time::Instant::now();
    while pause.elapsed() < std::time::Duration::from_millis(2) {}
    let second = clock.now();
    assert!(second.as_nanos() >= first.as_nanos());
}

#[test]
fn scaled_clock_keeps_its_scale() {
    assert_eq!(ScaledClock::new(7).scale(), 7);
}

#[test]
fn duration_from_millis_counts_nanoseconds() {
    assert_eq!(Duration::from_millis(20).as_nanos(), 20_000_000);
    assert_eq!(Duration::from_nanos(-5).as_nanos(), -5);
    assert_eq!(Duration::zero().as_nanos(), 0);
}

#[test]
fn manual_clock_moves_only_when_told() {
    let clock = ManualClock::new();
    assert_eq!(clock.current_time().as_nanos(), 0);
    let t = clock.advance(Duration::from_millis(5));
    assert_eq!(t.as_nanos(), 5_000_000);
    assert_eq!(clock.now().as_nanos(), 5_000_000);
    clock.set_time(Duration::from_nanos(42));
    assert_eq!(clock.current_time().as_nanos(), 42);
    assert_eq!(clock.sleep_calls(), 0);
}

#[test]
fn manual_clock_sleep_returns_once_deadline_passed() {
    let clock = ManualClock::new();
    clock.set_time(Duration::from_millis(10));
    clock.sleep_until(Duration::from_millis(5));
    assert_eq!(clock.sleep_calls(), 1);
}

#[test]
fn manual_clock_interrupt_releases_sleeper() {
    let clock = ManualClock::new();
    clock.interrupt();
    clock.sleep_until(Duration::from_millis(50));
    assert_eq!(clock.sleep_calls(), 1);
    assert_eq!(clock.current_time().as_nanos(), 0);
}

#[test]
fn manual_clock_clone_shares_time() {
    let clock = ManualClock::new();
    let other = clock.clone();
    clock.advance(Duration::from_nanos(9));
    assert_eq!(other.current_time().as_nanos(), 9);
}

#[test]
fn resource_state_defaults_to_boot() {
    assert_eq!(ResourceState::default(), ResourceState::Boot);
}

#[test]
fn start_gate_opens_once_told() {
    let gate = StartGate::new();
    assert!(!gate.is_open());
    gate.open();
    assert!(gate.is_open());
}

use trust_runtime::resource::{pause_command, resume_command, ResourceCommand, ResourceControl, RuntimeError};

#[test]
fn stub_control_forwards_commands() {
    let (control, rx) = ResourceControl::stub(ManualClock::new());
    assert_eq!(control.state(), ResourceState::Ready);
    assert!(control.last_error().is_none());
    control.pause().expect("pause");
    control.resume().expect("resume");
    assert!(matches!(rx.try_recv(), Ok(ResourceCommand::Pause)));
    assert!(matches!(rx.try_recv(), Ok(ResourceCommand::Resume)));
    control.send_command(ResourceCommand::ReloadBytecode { bytes: vec![1, 2] }).unwrap();
    assert!(matches!(rx.try_recv(), Ok(ResourceCommand::ReloadBytecode { bytes }) if bytes == vec![1, 2]));
    drop(rx);
    match control.pause() {
        Err(RuntimeError::ControlError(m)) => assert_eq!(m, "command channel closed"),
        Ok(()) => panic!("closed channel accepted a command"),
    }
    control.stop();
}

#[test]
fn resource_runner_time_scale_is_at_least_one() {
    let runner = ResourceRunner::new(7u32, ManualClock::new(), Duration::from_millis(10));
    assert_eq!(runner.time_scale(), 1);
    let runner = runner.with_time_scale(0);
    assert_eq!(runner.time_scale(), 1);
    let mut runner = runner.with_time_scale(4).with_start_gate(Arc::new(StartGate::new()));
    assert_eq!(runner.time_scale(), 4);
    *runner.runtime_mut() += 1;
    assert_eq!(*runner.runtime(), 8);
}

#[test]
fn pause_and_resume_commands() {
    assert!(matches!(pause_command(), ResourceCommand::Pause));
    assert!(matches!(resume_command(), ResourceCommand::Resume));
}
