use gotatun_throughput::command::{CommandArg, CommandLine, DeployStep};
use gotatun_throughput::config::controller_config;
use gotatun_throughput::controller::{
    next_run_stage, run_controller, run_plan, wait_for_tunnel, Host, RunAction, RunEvent,
    RunFailure, RunOutcome, RunPlan, RunStage, TunnelTrial,
};
use gotatun_throughput::session::{endpoint_pair, run_keys};

fn plan() -> RunPlan {
    let config = controller_config(&[]).unwrap();
    let pair = endpoint_pair(&config, &run_keys([1; 32], [2; 32], [3; 32]));
    run_plan(&config, "42", pair)
}

/// The actions of a run whose events are told by `answer`.
fn trace(answer: &dyn Fn(usize, &RunAction) -> RunEvent) -> Vec<RunAction> {
    let plan = plan();
    let mut stage = RunStage::Locking;
    let mut actions: Vec<RunAction> = Vec::new();
    loop {
        let action = run_controller(&plan, stage);
        if let RunAction::Finish(_) = action {
            actions.push(action);
            return actions;
        }
        stage = next_run_stage(stage, answer(actions.len(), &action));
        actions.push(action);
        assert!(actions.len() < 40);
    }
}

fn well(action: &RunAction) -> RunEvent {
    match action {
        RunAction::AwaitReady(Host::Local) => RunEvent::Ready(11),
        RunAction::AwaitReady(Host::Remote) => RunEvent::Ready(22),
        _ => RunEvent::Done,
    }
}

fn last_arg(line: &CommandLine) -> String {
    match line.args.last() {
        Some(CommandArg::Text(text)) => text.clone(),
        _ => panic!("no text"),
    }
}

#[test]
fn run_that_goes_well_takes_every_step() {
    let plan = plan();
    assert_eq!(plan.remote_dir, "/tmp/benchy-42");
    assert_eq!(plan.remote_executable, "/tmp/benchy-42/gotatun-throughput");
    let actions = trace(&|_, action| well(action));
    assert_eq!(actions.len(), 20);
    assert_eq!(actions[0], RunAction::AcquireLock("/tmp/benchy.lock".to_owned()));
    assert_eq!(actions[1], RunAction::LocateExecutable);
    assert!(matches!(&actions[2], RunAction::Run(line) if last_arg(line) == "mkdir -p '/tmp/benchy-42'"));
    assert!(matches!(&actions[3], RunAction::Run(line) if line.program == "scp"));
    assert!(matches!(&actions[4], RunAction::Run(line)
        if last_arg(line) == "chmod 755 '/tmp/benchy-42/gotatun-throughput'"));
    assert!(matches!(&actions[5], RunAction::SpawnEndpoint(Host::Local, line)
        if line.program == "sudo"));
    assert_eq!(actions[6], RunAction::AwaitReady(Host::Local));
    assert!(matches!(&actions[7], RunAction::SpawnEndpoint(Host::Remote, line)
        if line.program == "ssh"));
    assert_eq!(actions[8], RunAction::AwaitReady(Host::Remote));
    assert!(matches!(&actions[9], RunAction::Run(line)
        if last_arg(line) == "'ping' '-c' '1' '-W' '1' '10.0.1.1'"));
    assert!(matches!(&actions[10], RunAction::SpawnServer(line) if last_arg(line) == "5201"));
    assert_eq!(actions[11], RunAction::Pause(250));
    assert!(matches!(&actions[12], RunAction::Measure(line)
        if last_arg(line).contains("'--time' '30'")));
    assert!(matches!(&actions[13], RunAction::Run(line)
        if line.program == "sudo" && last_arg(line) == "11"));
    assert!(matches!(&actions[14], RunAction::Run(line)
        if last_arg(line) == "'sudo' '-n' 'kill' '-INT' '22'"));
    assert_eq!(actions[15], RunAction::AwaitExit(Host::Local));
    assert_eq!(actions[16], RunAction::AwaitExit(Host::Remote));
    assert_eq!(actions[17], RunAction::KillServer);
    assert_eq!(actions[18], RunAction::ParseOutput);
    assert_eq!(actions[19], RunAction::Finish(RunOutcome::Success));
}

#[test]
fn failed_measurement_is_cleaned_up_and_reported() {
    let actions = trace(&|_, action| match action {
        RunAction::Measure(_) => RunEvent::Failed,
        // Nothing that follows has to work.
        RunAction::AwaitExit(_) | RunAction::KillServer => RunEvent::Failed,
        _ => well(action),
    });
    assert_eq!(actions[17], RunAction::KillServer);
    assert_eq!(actions[18], RunAction::Finish(RunOutcome::Failed(RunFailure::Measurement)));
}

#[test]
fn early_failures_end_the_run() {
    let failures = [
        RunFailure::Lock,
        RunFailure::Executable,
        RunFailure::Deployment,
        RunFailure::Deployment,
        RunFailure::Deployment,
        RunFailure::Spawn(Host::Local),
        RunFailure::Readiness(Host::Local),
        RunFailure::Spawn(Host::Remote),
        RunFailure::Readiness(Host::Remote),
    ];
    for (at, failure) in failures.into_iter().enumerate() {
        let actions =
            trace(&|i, action| if i == at { RunEvent::Failed } else { well(action) });
        assert_eq!(actions.len(), at + 2);
        assert_eq!(actions[at + 1], RunAction::Finish(RunOutcome::Failed(failure)));
    }
    let actions = trace(&|i, action| if i == 10 { RunEvent::Failed } else { well(action) });
    assert_eq!(actions[11], RunAction::Finish(RunOutcome::Failed(RunFailure::Server)));
    let actions = trace(&|i, action| if i == 18 { RunEvent::Failed } else { well(action) });
    assert_eq!(actions[19], RunAction::Finish(RunOutcome::Failed(RunFailure::Output)));
}

#[test]
fn tunnel_is_tried_ten_times() {
    let actions = trace(&|i, action| if i >= 9 { RunEvent::Failed } else { well(action) });
    let probes = actions[9..].iter().filter(|a| matches!(a, RunAction::Run(_))).count();
    let pauses = actions[9..].iter().filter(|a| **a == RunAction::Pause(500)).count();
    assert_eq!((probes, pauses), (10, 10));
    assert_eq!(
        actions.last(),
        Some(&RunAction::Finish(RunOutcome::Failed(RunFailure::Tunnel)))
    );
}

#[test]
fn answered_probe_ends_the_wait() {
    for failures in 0..10 {
        let mut trial = TunnelTrial::Probing { retries: 9 };
        for _ in 0..failures {
            trial = wait_for_tunnel(trial, false);
            assert!(matches!(trial, TunnelTrial::Pausing { .. }));
            trial = wait_for_tunnel(trial, true);
        }
        assert_eq!(trial, TunnelTrial::Probing { retries: 9 - failures });
        assert_eq!(wait_for_tunnel(trial, true), TunnelTrial::Reached);
    }
    assert_eq!(
        wait_for_tunnel(TunnelTrial::Pausing { retries: 0 }, true),
        TunnelTrial::GivenUp
    );
}

#[test]
fn waiting_needs_a_process() {
    assert_eq!(
        next_run_stage(RunStage::AwaitingLocal, RunEvent::Done),
        RunStage::Finished(RunOutcome::Failed(RunFailure::Readiness(Host::Local)))
    );
    assert_eq!(
        next_run_stage(RunStage::Deploying(DeployStep::AllowExecution), RunEvent::Done),
        RunStage::SpawningLocal
    );
}

#[test]
fn run_failures_have_words() {
    let cases = [
        (RunFailure::Executable, "failed to locate benchmark executable"),
        (RunFailure::Spawn(Host::Local), "failed to start local endpoint"),
        (RunFailure::Spawn(Host::Remote), "failed to start remote endpoint"),
        (RunFailure::Readiness(Host::Local), "local endpoint failed to start"),
        (RunFailure::Readiness(Host::Remote), "remote endpoint failed to start"),
        (RunFailure::Tunnel, "tunnel did not become ready"),
        (RunFailure::Server, "failed to start local iperf3 server"),
    ];
    for (failure, words) in cases {
        assert_eq!(failure.message().unwrap(), words);
    }
    for failure in
        [RunFailure::Lock, RunFailure::Deployment, RunFailure::Measurement, RunFailure::Output]
    {
        assert_eq!(failure.message(), None);
    }
}
