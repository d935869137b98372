use driver::config::{launch_plan, LaunchPlan, RunConfig, GPU_VARIABLE, LAUNCHER};
use driver::duration::Duration;
use driver::event::BenchmarkEvent;
use driver::extract::{ExtractError, Flaw};
use driver::measure::NumberError;
use driver::pattern::PatternKind;
use driver::runner::{action_for, outcome, step_at, Action, RunError, Runner, Signal, State};
use driver::tabulate::averages;
use std::time::Instant;

fn span(secs: u64, nanos: u32) -> Duration {
    Duration::new(secs, nanos).unwrap()
}

fn config() -> RunConfig {
    RunConfig {
        container: "benchmark-caffe".to_string(),
        net: "alexnet".to_string(),
        batch_size: 256,
        gpu: 1,
    }
}

fn line(text: &str) -> Signal {
    Signal::Line(text.to_string())
}

fn seconds(d: Duration) -> f64 {
    d.as_secs() as f64 + d.subsec_nanos() as f64 / 1e9
}

fn run(signals: Vec<Signal>) -> State {
    let mut state = State::Idle;
    let mut tick = 0;
    for signal in signals {
        tick += 1;
        state = step_at(state, signal, span(tick, 0));
    }
    state
}

fn streamed(lines: &[&str]) -> Vec<Signal> {
    let mut signals = vec![Signal::Start, Signal::Launched];
    for text in lines {
        signals.push(line(text));
    }
    signals.push(Signal::EndOfStream);
    signals
}

#[test]
fn exit_code_one_fails_the_job_and_drops_its_events() {
    let mut signals = streamed(&[
        "Iteration: 1 forward-backward time: 12.34 ms.",
        "Average Forward pass: 3.2 ms.",
    ]);
    let waiting = run(signals.clone());
    match &waiting {
        State::Waiting(events) => assert_eq!(events.len(), 2),
        other => panic!("{:?}", other),
    }
    signals.push(Signal::Exited(Some(1)));
    let state = run(signals);
    assert_eq!(state, State::Failed(RunError::NonZeroExit(1)));
    assert_eq!(
        outcome(state),
        Some(Err("child process terminated with non-zero exit code 1".to_string()))
    );
}

#[test]
fn a_killed_process_fails_the_job_in_its_own_way() {
    let mut killed = streamed(&["Average Forward pass: 3.2 ms."]);
    killed.push(Signal::Exited(None));
    let killed = run(killed);
    assert_eq!(killed, State::Failed(RunError::UnexpectedTermination));
    let killed = outcome(killed).unwrap().unwrap_err();
    assert_eq!(killed, "child process unexpectedly terminated");
    for code in [1, 2, 137, 255, -1, i32::MIN, i32::MAX] {
        let mut exited = streamed(&["Average Forward pass: 3.2 ms."]);
        exited.push(Signal::Exited(Some(code)));
        let exited = outcome(run(exited)).unwrap().unwrap_err();
        assert_ne!(killed, exited);
        assert_eq!(
            exited,
            format!("child process terminated with non-zero exit code {}", code)
        );
    }
}

#[test]
fn exit_code_zero_gives_the_events_in_the_order_of_the_lines() {
    let mut signals = streamed(&[
        "Iteration: 0 forward-backward time: 7.5 ms.",
        "Net initialized.",
        "conv1 forward: 0.5 ms.",
        "Average Forward pass: 1.0 ms.",
        "Average Backward pass: 2.0 ms.",
        "Average Forward-Backward: 3.0 ms.",
    ]);
    signals.push(Signal::Exited(Some(0)));
    let events = outcome(run(signals)).unwrap().unwrap();
    assert_eq!(
        events,
        vec![
            BenchmarkEvent::IterForwardBackward {
                timestamp: span(3, 0),
                iteration: 0,
                time: span(0, 7_500_000),
            },
            BenchmarkEvent::LayerForward {
                timestamp: span(5, 0),
                layer: "conv1".to_string(),
                time: span(0, 500_000),
            },
            BenchmarkEvent::AvgForward { timestamp: span(6, 0), time: span(0, 1_000_000) },
            BenchmarkEvent::AvgBackward { timestamp: span(7, 0), time: span(0, 2_000_000) },
            BenchmarkEvent::AvgForwardBackward { timestamp: span(8, 0), time: span(0, 3_000_000) },
        ]
    );
    let means = averages(&events).unwrap();
    assert_eq!(seconds(means.forward), 0.001);
    assert_eq!(seconds(means.backward), 0.002);
    assert_eq!(seconds(means.total), 0.003);
}

#[test]
fn the_three_averages_alone_make_a_job_that_succeeds() {
    let mut signals = streamed(&[
        "Average Forward pass: 1.0 ms.",
        "Average Backward pass: 2.0 ms.",
        "Average Forward-Backward: 3.0 ms.",
    ]);
    signals.push(Signal::Exited(Some(0)));
    let state = run(signals);
    assert!(matches!(state, State::Succeeded(_)));
    let events = outcome(state).unwrap().unwrap();
    assert_eq!(events.len(), 3);
    assert!(matches!(events[0], BenchmarkEvent::AvgForward { .. }));
    assert!(matches!(events[1], BenchmarkEvent::AvgBackward { .. }));
    assert!(matches!(events[2], BenchmarkEvent::AvgForwardBackward { .. }));
    let means = averages(&events).unwrap();
    assert_eq!(
        (seconds(means.forward), seconds(means.backward), seconds(means.total)),
        (0.001, 0.002, 0.003)
    );
}

#[test]
fn a_job_without_output_succeeds_with_no_events() {
    let mut signals = streamed(&[]);
    signals.push(Signal::Exited(Some(0)));
    assert_eq!(outcome(run(signals)), Some(Ok(vec![])));
}

#[test]
fn a_process_that_cannot_be_started_fails_the_job() {
    let state = run(vec![Signal::Start, Signal::LaunchFailed("No such file".to_string())]);
    assert_eq!(state, State::Failed(RunError::Launch("No such file".to_string())));
    assert_eq!(
        outcome(state),
        Some(Err("failed to execute process nvidia-docker: No such file".to_string()))
    );
}

#[test]
fn an_exit_that_cannot_be_awaited_fails_the_job() {
    let mut signals = streamed(&["Average Forward pass: 1.0 ms."]);
    signals.push(Signal::WaitFailed("interrupted".to_string()));
    assert_eq!(
        outcome(run(signals)),
        Some(Err("failed to wait on child: interrupted".to_string()))
    );
}

#[test]
fn a_malformed_measurement_fails_the_job() {
    let state = run(vec![
        Signal::Start,
        Signal::Launched,
        line("Average Forward pass: 1.0 ms."),
        line("Average Backward pass: . ms."),
    ]);
    let fault =
        ExtractError { kind: PatternKind::AvgBackward, flaw: Flaw::Time(NumberError::Syntax) };
    assert_eq!(state, State::Failed(RunError::Malformed(fault)));
    assert_eq!(action_for(&state, &config()), Action::Finish);
    let state = step_at(state, line("Average Backward pass: 2.0 ms."), span(9, 0));
    let state = step_at(state, Signal::EndOfStream, span(9, 0));
    let state = step_at(state, Signal::Exited(Some(0)), span(9, 0));
    assert_eq!(
        outcome(state),
        Some(Err("child process reported a malformed measurement".to_string()))
    );
}

#[test]
fn each_failure_has_its_description() {
    let fault = ExtractError { kind: PatternKind::LayerForward, flaw: Flaw::NotPositive };
    assert_eq!(
        RunError::Launch("x".to_string()).message(),
        "failed to execute process nvidia-docker: x"
    );
    assert_eq!(RunError::Wait("y".to_string()).message(), "failed to wait on child: y");
    assert_eq!(
        RunError::UnexpectedTermination.message(),
        "child process unexpectedly terminated"
    );
    assert_eq!(
        RunError::NonZeroExit(-2147483648).message(),
        "child process terminated with non-zero exit code -2147483648"
    );
    assert_eq!(
        RunError::Malformed(fault).message(),
        "child process reported a malformed measurement"
    );
}

#[test]
fn a_signal_out_of_turn_changes_nothing() {
    let at = span(1, 0);
    assert_eq!(step_at(State::Idle, Signal::Launched, at), State::Idle);
    assert_eq!(step_at(State::Idle, line("Average Forward pass: 1.0 ms."), at), State::Idle);
    assert_eq!(step_at(State::Idle, Signal::Exited(Some(1)), at), State::Idle);
    assert_eq!(step_at(State::Launching, Signal::Start, at), State::Launching);
    assert_eq!(step_at(State::Launching, Signal::EndOfStream, at), State::Launching);
    assert_eq!(
        step_at(State::Streaming(vec![]), Signal::Exited(Some(0)), at),
        State::Streaming(vec![])
    );
    assert_eq!(
        step_at(State::Streaming(vec![]), Signal::LaunchFailed("z".to_string()), at),
        State::Streaming(vec![])
    );
    assert_eq!(
        step_at(State::Waiting(vec![]), line("Average Forward pass: 1.0 ms."), at),
        State::Waiting(vec![])
    );
    assert_eq!(step_at(State::Waiting(vec![]), Signal::EndOfStream, at), State::Waiting(vec![]));
    assert_eq!(
        step_at(State::Succeeded(vec![]), Signal::Exited(Some(1)), at),
        State::Succeeded(vec![])
    );
    assert_eq!(
        step_at(State::Failed(RunError::UnexpectedTermination), Signal::Exited(Some(0)), at),
        State::Failed(RunError::UnexpectedTermination)
    );
}

#[test]
fn a_job_that_is_not_over_has_no_outcome() {
    assert_eq!(outcome(State::Idle), None);
    assert_eq!(outcome(State::Launching), None);
    assert_eq!(outcome(State::Streaming(vec![])), None);
    assert_eq!(outcome(State::Waiting(vec![])), None);
}

#[test]
fn the_launcher_is_asked_to_run_the_container() {
    let plan = launch_plan(&config());
    assert_eq!(
        plan,
        LaunchPlan {
            program: "nvidia-docker".to_string(),
            arguments: vec![
                "run".to_string(),
                "--rm".to_string(),
                "-i".to_string(),
                "benchmark-caffe".to_string(),
                "alexnet".to_string(),
                "256".to_string(),
            ],
            variable: "NV_GPU".to_string(),
            value: "1".to_string(),
        }
    );
    assert_eq!(LAUNCHER, "nvidia-docker");
    assert_eq!(GPU_VARIABLE, "NV_GPU");
    let other = RunConfig { container: "c".to_string(), net: "n".to_string(), batch_size: 0, gpu: u32::MAX };
    let plan = launch_plan(&other);
    assert_eq!(plan.arguments[3..], ["c".to_string(), "n".to_string(), "0".to_string()]);
    assert_eq!(plan.value, "4294967295");
}

#[test]
fn each_state_asks_for_what_it_awaits() {
    let config = config();
    assert_eq!(action_for(&State::Idle, &config), Action::Begin);
    assert_eq!(action_for(&State::Launching, &config), Action::Launch(launch_plan(&config)));
    assert_eq!(action_for(&State::Streaming(vec![]), &config), Action::ReadLine);
    assert_eq!(action_for(&State::Waiting(vec![]), &config), Action::Wait);
    assert_eq!(action_for(&State::Succeeded(vec![]), &config), Action::Finish);
    assert_eq!(
        action_for(&State::Failed(RunError::NonZeroExit(3)), &config),
        Action::Finish
    );
}

#[test]
fn a_runner_goes_through_a_job_by_the_clock() {
    let baseline = Instant::now();
    let runner = Runner::new(baseline, config());
    assert_eq!(runner.action(), Action::Begin);
    let (runner, action) = runner.step(Signal::Start);
    assert_eq!(action, Action::Launch(launch_plan(&config())));
    let (runner, action) = runner.step(Signal::Launched);
    assert_eq!(action, Action::ReadLine);
    let before = baseline.elapsed();
    let (runner, action) = runner.step(line("Average Forward pass: 1.0 ms.\n"));
    let after = baseline.elapsed();
    assert_eq!(action, Action::ReadLine);
    let (runner, action) = runner.step(line("Net initialized.\n"));
    assert_eq!(action, Action::ReadLine);
    let (runner, action) = runner.step(Signal::EndOfStream);
    assert_eq!(action, Action::Wait);
    assert_eq!(runner.action(), Action::Wait);
    let (runner, action) = runner.step(Signal::Exited(Some(0)));
    assert_eq!(action, Action::Finish);
    let events = runner.finish().unwrap().unwrap();
    assert_eq!(events.len(), 1);
    assert_eq!(events[0].time(), span(0, 1_000_000));
    let seen = events[0].timestamp();
    let seen = std::time::Duration::new(seen.as_secs(), seen.subsec_nanos());
    assert!(before <= seen && seen <= after);
}

#[test]
fn a_runner_that_is_stopped_early_has_nothing_to_give() {
    let runner = Runner::new(Instant::now(), config());
    let (runner, _) = runner.step(Signal::Start);
    let (runner, _) = runner.step(Signal::Launched);
    assert_eq!(runner.finish(), None);
    let runner = Runner::new(Instant::now(), config());
    let (runner, _) = runner.step(Signal::Start);
    let (runner, action) = runner.step(Signal::LaunchFailed("denied".to_string()));
    assert_eq!(action, Action::Finish);
    assert_eq!(
        runner.finish(),
        Some(Err("failed to execute process nvidia-docker: denied".to_string()))
    );
}
