//! What the controller of a benchmark run does.

use crate::address;
use crate::command;
use crate::command::{CommandLine, DeployStep};
use crate::config;
use crate::config::ControllerConfig;
use crate::endpoint;
use crate::keys;
use crate::numeral;
use crate::session;
use crate::session::EndpointPair;
use crate::text;
use vstd::prelude::*;

verus! {

/// The file that keeps two runs on one machine apart.
pub const LOCK_PATH: &'static str = "/tmp/benchy.lock";

/// How often the tunnel is tried behind the first time.
pub const PROBE_RETRIES: u32 = 9;

/// How long to wait behind a failed try, in milliseconds.
pub const PROBE_PAUSE_MILLIS: u64 = 500;

/// How long the iperf3 server gets to start, in milliseconds.
pub const SERVER_START_MILLIS: u64 = 250;

/// One of the two hosts.
#[derive(Clone, Copy, Debug, PartialEq, Eq, Structural)]
pub enum Host {
    Local,
    Remote,
}

/// What a run works with.
#[derive(Debug, PartialEq, Eq)]
pub struct RunPlan {
    pub peer: String,
    pub remote_dir: String,
    pub remote_executable: String,
    pub endpoints: EndpointPair,
    pub iperf_port: u16,
    pub duration: u64,
}

/// What a run works with, texts seen as sequences of characters.
pub struct RunPlanView {
    pub peer: Seq<char>,
    pub remote_dir: Seq<char>,
    pub remote_executable: Seq<char>,
    pub local: endpoint::EndpointArgsView,
    pub remote: endpoint::EndpointArgsView,
    pub iperf_port: u16,
    pub duration: u64,
}

impl View for RunPlan {
    type V = RunPlanView;

    open spec fn view(&self) -> RunPlanView {
        RunPlanView {
            peer: self.peer@,
            remote_dir: self.remote_dir@,
            remote_executable: self.remote_executable@,
            local: self.endpoints.local@,
            remote: self.endpoints.remote@,
            iperf_port: self.iperf_port,
            duration: self.duration,
        }
    }
}

/// What a run of this configuration, identity and pair of endpoints works with.
pub open spec fn plan_of(
    config: config::ControllerConfigView,
    run_id: Seq<char>,
    local: endpoint::EndpointArgsView,
    remote: endpoint::EndpointArgsView,
) -> RunPlanView {
    let remote_dir = session::remote_dir_path(run_id);
    RunPlanView {
        peer: config.peer,
        remote_dir,
        remote_executable: session::remote_executable_path(remote_dir),
        local,
        remote,
        iperf_port: config.iperf_port,
        duration: config.duration,
    }
}

/// What a run of this configuration, identity and pair of endpoints works with.
pub fn run_plan(config: &ControllerConfig, run_id: &str, endpoints: EndpointPair) -> (plan: RunPlan)
    ensures
        plan@ == plan_of(config@, run_id@, endpoints.local@, endpoints.remote@),
{
    let remote_dir = session::remote_dir(run_id);
    let remote_executable = session::remote_executable(remote_dir.as_str());
    RunPlan {
        peer: config.peer.clone(),
        remote_dir,
        remote_executable,
        endpoints,
        iperf_port: config.iperf_port,
        duration: config.duration,
    }
}

/// How far a run is.
#[derive(Clone, Copy, Debug, PartialEq, Eq, Structural)]
pub enum RunStage {
    /// It takes the lock of the machine.
    Locking,
    /// It looks for its own executable.
    Locating,
    /// It brings the executable to the peer.
    Deploying(DeployStep),
    /// It starts the endpoint on this host.
    SpawningLocal,
    /// It waits for the endpoint on this host.
    AwaitingLocal,
    /// It starts the endpoint on the peer.
    SpawningRemote { local_pid: u32 },
    /// It waits for the endpoint on the peer.
    AwaitingRemote { local_pid: u32 },
    /// It waits for the tunnel.
    AwaitingTunnel { local_pid: u32, remote_pid: u32, trial: TunnelTrial },
    /// It starts the iperf3 server.
    StartingServer { local_pid: u32, remote_pid: u32 },
    /// It gives the iperf3 server time to start.
    Settling { local_pid: u32, remote_pid: u32 },
    /// It measures.
    Measuring { local_pid: u32, remote_pid: u32 },
    /// It interrupts the endpoint on this host.
    StoppingLocal { local_pid: u32, remote_pid: u32, measured: bool },
    /// It interrupts the endpoint on the peer.
    StoppingRemote { remote_pid: u32, measured: bool },
    /// It waits for the endpoint on this host to exit.
    ReapingLocal { measured: bool },
    /// It waits for the endpoint on the peer to exit.
    ReapingRemote { measured: bool },
    /// It kills the iperf3 server.
    KillingServer { measured: bool },
    /// It reads the output of the measurement.
    Parsing,
    /// It has ended.
    Finished(RunOutcome),
}

/// How far the wait for the tunnel is.
#[derive(Clone, Copy, Debug, PartialEq, Eq, Structural)]
pub enum TunnelTrial {
    /// The tunnel is tried, and may be tried so often again.
    Probing { retries: u32 },
    /// The run waits behind a failed try, and may try so often again.
    Pausing { retries: u32 },
    /// The tunnel answered.
    Reached,
    /// The tunnel did not answer.
    GivenUp,
}

/// How the wait for the tunnel goes on. A try that is answered ends it. Behind each that
/// is not comes a pause, then the next try while one is left.
pub open spec fn trial_next(trial: TunnelTrial, answered: bool) -> TunnelTrial {
    match trial {
        TunnelTrial::Probing { retries } => if answered {
            TunnelTrial::Reached
        } else {
            TunnelTrial::Pausing { retries }
        },
        TunnelTrial::Pausing { retries } => if retries == 0 {
            TunnelTrial::GivenUp
        } else {
            TunnelTrial::Probing { retries: (retries - 1) as u32 }
        },
        TunnelTrial::Reached => TunnelTrial::Reached,
        TunnelTrial::GivenUp => TunnelTrial::GivenUp,
    }
}

/// How the wait for the tunnel goes on.
pub fn wait_for_tunnel(trial: TunnelTrial, answered: bool) -> (next: TunnelTrial)
    ensures
        next == trial_next(trial, answered),
{
    match trial {
        TunnelTrial::Probing { retries } => if answered {
            TunnelTrial::Reached
        } else {
            TunnelTrial::Pausing { retries }
        },
        TunnelTrial::Pausing { retries } => if retries == 0 {
            TunnelTrial::GivenUp
        } else {
            TunnelTrial::Probing { retries: retries - 1 }
        },
        TunnelTrial::Reached => TunnelTrial::Reached,
        TunnelTrial::GivenUp => TunnelTrial::GivenUp,
    }
}

/// How a run ended.
#[derive(Clone, Copy, Debug, PartialEq, Eq, Structural)]
pub enum RunOutcome {
    Success,
    Failed(RunFailure),
}

/// What a run failed at.
#[derive(Clone, Copy, Debug, PartialEq, Eq, Structural)]
pub enum RunFailure {
    /// Taking the lock.
    Lock,
    /// Finding its own executable.
    Executable,
    /// Bringing the executable to the peer.
    Deployment,
    /// Starting the endpoint of this host.
    Spawn(Host),
    /// Waiting for the endpoint of this host.
    Readiness(Host),
    /// Reaching this host from the peer through the tunnel.
    Tunnel,
    /// Starting the iperf3 server.
    Server,
    /// Measuring.
    Measurement,
    /// Reading the output of the measurement.
    Output,
}

/// What happens to a run.
#[derive(Clone, Copy, Debug, PartialEq, Eq, Structural)]
pub enum RunEvent {
    /// The action of the stage succeeded.
    Done,
    /// The action of the stage failed.
    Failed,
    /// The endpoint that was waited for is ready; this is its process. In a stage that
    /// waits for no endpoint, the action succeeded.
    Ready(u32),
}

/// What the controller does in a stage.
#[derive(Debug, PartialEq, Eq)]
pub enum RunAction {
    /// Take the lock on this file.
    AcquireLock(String),
    /// Find the path of the running executable.
    LocateExecutable,
    /// Run this command to its end.
    Run(CommandLine),
    /// Start the endpoint of a host with this command.
    SpawnEndpoint(Host, CommandLine),
    /// Wait for the endpoint of a host to be ready.
    AwaitReady(Host),
    /// Wait for so many milliseconds.
    Pause(u64),
    /// Start the iperf3 server with this command.
    SpawnServer(CommandLine),
    /// Run this command to its end and keep its output.
    Measure(CommandLine),
    /// Wait for the endpoint of a host to exit.
    AwaitExit(Host),
    /// Kill the iperf3 server.
    KillServer,
    /// Read the output that was kept.
    ParseOutput,
    /// End.
    Finish(RunOutcome),
}

/// An action, its texts seen as sequences of characters.
pub enum RunActionView {
    AcquireLock(Seq<char>),
    LocateExecutable,
    Run(command::CommandLineView),
    SpawnEndpoint(Host, command::CommandLineView),
    AwaitReady(Host),
    Pause(u64),
    SpawnServer(command::CommandLineView),
    Measure(command::CommandLineView),
    AwaitExit(Host),
    KillServer,
    ParseOutput,
    Finish(RunOutcome),
}

impl View for RunAction {
    type V = RunActionView;

    open spec fn view(&self) -> RunActionView {
        match *self {
            RunAction::AcquireLock(path) => RunActionView::AcquireLock(path@),
            RunAction::LocateExecutable => RunActionView::LocateExecutable,
            RunAction::Run(line) => RunActionView::Run(line@),
            RunAction::SpawnEndpoint(host, line) => RunActionView::SpawnEndpoint(host, line@),
            RunAction::AwaitReady(host) => RunActionView::AwaitReady(host),
            RunAction::Pause(millis) => RunActionView::Pause(millis),
            RunAction::SpawnServer(line) => RunActionView::SpawnServer(line@),
            RunAction::Measure(line) => RunActionView::Measure(line@),
            RunAction::AwaitExit(host) => RunActionView::AwaitExit(host),
            RunAction::KillServer => RunActionView::KillServer,
            RunAction::ParseOutput => RunActionView::ParseOutput,
            RunAction::Finish(outcome) => RunActionView::Finish(outcome),
        }
    }
}

impl RunFailure {
    /// The words that go with the failure; nothing where the failure says it itself.
    pub open spec fn words(self) -> Option<Seq<char>> {
        match self {
            RunFailure::Lock => None,
            RunFailure::Executable => Some("failed to locate benchmark executable"@),
            RunFailure::Deployment => None,
            RunFailure::Spawn(Host::Local) => Some("failed to start local endpoint"@),
            RunFailure::Spawn(Host::Remote) => Some("failed to start remote endpoint"@),
            RunFailure::Readiness(Host::Local) => Some("local endpoint failed to start"@),
            RunFailure::Readiness(Host::Remote) => Some("remote endpoint failed to start"@),
            RunFailure::Tunnel => Some("tunnel did not become ready"@),
            RunFailure::Server => Some("failed to start local iperf3 server"@),
            RunFailure::Measurement => None,
            RunFailure::Output => None,
        }
    }

    /// The words that go with the failure; nothing where the failure says it itself.
    pub fn message(&self) -> (message: Option<String>)
        ensures
            text::optional_view(message) == self.words(),
    {
        match self {
            RunFailure::Lock => None,
            RunFailure::Executable => Some("failed to locate benchmark executable".to_owned()),
            RunFailure::Deployment => None,
            RunFailure::Spawn(Host::Local) => Some("failed to start local endpoint".to_owned()),
            RunFailure::Spawn(Host::Remote) => Some("failed to start remote endpoint".to_owned()),
            RunFailure::Readiness(Host::Local) => Some("local endpoint failed to start".to_owned()),
            RunFailure::Readiness(Host::Remote) => {
                Some("remote endpoint failed to start".to_owned())
            },
            RunFailure::Tunnel => Some("tunnel did not become ready".to_owned()),
            RunFailure::Server => Some("failed to start local iperf3 server".to_owned()),
            RunFailure::Measurement => None,
            RunFailure::Output => None,
        }
    }
}

/// The stage in which a run has failed.
pub open spec fn failed(failure: RunFailure) -> RunStage {
    RunStage::Finished(RunOutcome::Failed(failure))
}

/// The stage behind an event. Up to the measurement, what fails ends the run, but for a
/// try of the tunnel, behind which the run waits and tries again while it may. Behind the
/// measurement, whether that failed or not, the run interrupts and awaits both endpoints
/// and kills the server, and does not care whether that works.
pub open spec fn run_next(stage: RunStage, event: RunEvent) -> RunStage {
    match stage {
        RunStage::Locking => if event is Failed {
            failed(RunFailure::Lock)
        } else {
            RunStage::Locating
        },
        RunStage::Locating => if event is Failed {
            failed(RunFailure::Executable)
        } else {
            RunStage::Deploying(DeployStep::MakeDirectory)
        },
        RunStage::Deploying(step) => if event is Failed {
            failed(RunFailure::Deployment)
        } else {
            match step {
                DeployStep::MakeDirectory => RunStage::Deploying(DeployStep::CopyExecutable),
                DeployStep::CopyExecutable => RunStage::Deploying(DeployStep::AllowExecution),
                DeployStep::AllowExecution => RunStage::SpawningLocal,
            }
        },
        RunStage::SpawningLocal => if event is Failed {
            failed(RunFailure::Spawn(Host::Local))
        } else {
            RunStage::AwaitingLocal
        },
        RunStage::AwaitingLocal => match event {
            RunEvent::Ready(pid) => RunStage::SpawningRemote { local_pid: pid },
            _ => failed(RunFailure::Readiness(Host::Local)),
        },
        RunStage::SpawningRemote { local_pid } => if event is Failed {
            failed(RunFailure::Spawn(Host::Remote))
        } else {
            RunStage::AwaitingRemote { local_pid }
        },
        RunStage::AwaitingRemote { local_pid } => match event {
            RunEvent::Ready(pid) => RunStage::AwaitingTunnel {
                local_pid,
                remote_pid: pid,
                trial: TunnelTrial::Probing { retries: PROBE_RETRIES },
            },
            _ => failed(RunFailure::Readiness(Host::Remote)),
        },
        RunStage::AwaitingTunnel { local_pid, remote_pid, trial } => match trial_next(
            trial,
            event !is Failed,
        ) {
            TunnelTrial::Reached => RunStage::StartingServer { local_pid, remote_pid },
            TunnelTrial::GivenUp => failed(RunFailure::Tunnel),
            trial => RunStage::AwaitingTunnel { local_pid, remote_pid, trial },
        },
        RunStage::StartingServer { local_pid, remote_pid } => if event is Failed {
            failed(RunFailure::Server)
        } else {
            RunStage::Settling { local_pid, remote_pid }
        },
        RunStage::Settling { local_pid, remote_pid } => RunStage::Measuring {
            local_pid,
            remote_pid,
        },
        RunStage::Measuring { local_pid, remote_pid } => RunStage::StoppingLocal {
            local_pid,
            remote_pid,
            measured: event !is Failed,
        },
        RunStage::StoppingLocal { local_pid: _, remote_pid, measured } => RunStage::StoppingRemote {
            remote_pid,
            measured,
        },
        RunStage::StoppingRemote { remote_pid: _, measured } => RunStage::ReapingLocal { measured },
        RunStage::ReapingLocal { measured } => RunStage::ReapingRemote { measured },
        RunStage::ReapingRemote { measured } => RunStage::KillingServer { measured },
        RunStage::KillingServer { measured } => if measured {
            RunStage::Parsing
        } else {
            failed(RunFailure::Measurement)
        },
        RunStage::Parsing => if event is Failed {
            failed(RunFailure::Output)
        } else {
            RunStage::Finished(RunOutcome::Success)
        },
        RunStage::Finished(outcome) => RunStage::Finished(outcome),
    }
}

/// The stage behind an event.
pub fn next_run_stage(stage: RunStage, event: RunEvent) -> (next: RunStage)
    ensures
        next == run_next(stage, event),
{
    let ok = match event {
        RunEvent::Failed => false,
        _ => true,
    };
    match stage {
        RunStage::Locking if ok => RunStage::Locating,
        RunStage::Locking => RunStage::Finished(RunOutcome::Failed(RunFailure::Lock)),
        RunStage::Locating if ok => RunStage::Deploying(DeployStep::MakeDirectory),
        RunStage::Locating => RunStage::Finished(RunOutcome::Failed(RunFailure::Executable)),
        RunStage::Deploying(step) if ok => match step {
            DeployStep::MakeDirectory => RunStage::Deploying(DeployStep::CopyExecutable),
            DeployStep::CopyExecutable => RunStage::Deploying(DeployStep::AllowExecution),
            DeployStep::AllowExecution => RunStage::SpawningLocal,
        },
        RunStage::Deploying(_) => RunStage::Finished(RunOutcome::Failed(RunFailure::Deployment)),
        RunStage::SpawningLocal if ok => RunStage::AwaitingLocal,
        RunStage::SpawningLocal => RunStage::Finished(
            RunOutcome::Failed(RunFailure::Spawn(Host::Local)),
        ),
        RunStage::AwaitingLocal => match event {
            RunEvent::Ready(pid) => RunStage::SpawningRemote { local_pid: pid },
            _ => RunStage::Finished(RunOutcome::Failed(RunFailure::Readiness(Host::Local))),
        },
        RunStage::SpawningRemote { local_pid } if ok => RunStage::AwaitingRemote { local_pid },
        RunStage::SpawningRemote { local_pid: _ } => RunStage::Finished(
            RunOutcome::Failed(RunFailure::Spawn(Host::Remote)),
        ),
        RunStage::AwaitingRemote { local_pid } => match event {
            RunEvent::Ready(pid) => RunStage::AwaitingTunnel {
                local_pid,
                remote_pid: pid,
                trial: TunnelTrial::Probing { retries: PROBE_RETRIES },
            },
            _ => RunStage::Finished(RunOutcome::Failed(RunFailure::Readiness(Host::Remote))),
        },
        RunStage::AwaitingTunnel { local_pid, remote_pid, trial } => match wait_for_tunnel(
            trial,
            ok,
        ) {
            TunnelTrial::Reached => RunStage::StartingServer { local_pid, remote_pid },
            TunnelTrial::GivenUp => RunStage::Finished(RunOutcome::Failed(RunFailure::Tunnel)),
            trial => RunStage::AwaitingTunnel { local_pid, remote_pid, trial },
        },
        RunStage::StartingServer { local_pid, remote_pid } if ok => RunStage::Settling {
            local_pid,
            remote_pid,
        },
        RunStage::StartingServer { local_pid: _, remote_pid: _ } => RunStage::Finished(
            RunOutcome::Failed(RunFailure::Server),
        ),
        RunStage::Settling { local_pid, remote_pid } => RunStage::Measuring {
            local_pid,
            remote_pid,
        },
        RunStage::Measuring { local_pid, remote_pid } => RunStage::StoppingLocal {
            local_pid,
            remote_pid,
            measured: ok,
        },
        RunStage::StoppingLocal { local_pid: _, remote_pid, measured } => RunStage::StoppingRemote {
            remote_pid,
            measured,
        },
        RunStage::StoppingRemote { remote_pid: _, measured } => RunStage::ReapingLocal { measured },
        RunStage::ReapingLocal { measured } => RunStage::ReapingRemote { measured },
        RunStage::ReapingRemote { measured } => RunStage::KillingServer { measured },
        RunStage::KillingServer { measured } => if measured {
            RunStage::Parsing
        } else {
            RunStage::Finished(RunOutcome::Failed(RunFailure::Measurement))
        },
        RunStage::Parsing if ok => RunStage::Finished(RunOutcome::Success),
        RunStage::Parsing => RunStage::Finished(RunOutcome::Failed(RunFailure::Output)),
        RunStage::Finished(outcome) => RunStage::Finished(outcome),
    }
}

/// What the controller does in a stage.
pub open spec fn run_action(plan: RunPlanView, stage: RunStage) -> RunActionView {
    match stage {
        RunStage::Locking => RunActionView::AcquireLock(LOCK_PATH@),
        RunStage::Locating => RunActionView::LocateExecutable,
        RunStage::Deploying(step) => RunActionView::Run(
            command::deploy_command(step, plan.peer, plan.remote_dir, plan.remote_executable),
        ),
        RunStage::SpawningLocal => RunActionView::SpawnEndpoint(
            Host::Local,
            command::local_endpoint_command(plan.local),
        ),
        RunStage::AwaitingLocal => RunActionView::AwaitReady(Host::Local),
        RunStage::SpawningRemote { .. } => RunActionView::SpawnEndpoint(
            Host::Remote,
            command::remote_endpoint_command(plan.peer, plan.remote_executable, plan.remote),
        ),
        RunStage::AwaitingRemote { .. } => RunActionView::AwaitReady(Host::Remote),
        RunStage::AwaitingTunnel { trial: TunnelTrial::Probing { .. }, .. } => RunActionView::Run(
            command::probe_command(plan.peer, plan.local.tunnel_address),
        ),
        RunStage::AwaitingTunnel { .. } => RunActionView::Pause(PROBE_PAUSE_MILLIS),
        RunStage::StartingServer { .. } => RunActionView::SpawnServer(
            command::iperf_server_command(plan.local.tunnel_address, plan.iperf_port),
        ),
        RunStage::Settling { .. } => RunActionView::Pause(SERVER_START_MILLIS),
        RunStage::Measuring { .. } => RunActionView::Measure(
            command::iperf_client_command(
                plan.peer,
                plan.local.tunnel_address,
                plan.iperf_port,
                plan.duration,
            ),
        ),
        RunStage::StoppingLocal { local_pid, .. } => RunActionView::Run(
            command::stop_command(None, local_pid),
        ),
        RunStage::StoppingRemote { remote_pid, .. } => RunActionView::Run(
            command::stop_command(Some(plan.peer), remote_pid),
        ),
        RunStage::ReapingLocal { .. } => RunActionView::AwaitExit(Host::Local),
        RunStage::ReapingRemote { .. } => RunActionView::AwaitExit(Host::Remote),
        RunStage::KillingServer { .. } => RunActionView::KillServer,
        RunStage::Parsing => RunActionView::ParseOutput,
        RunStage::Finished(outcome) => RunActionView::Finish(outcome),
    }
}

/// What the controller does in a stage.
pub fn run_controller(plan: &RunPlan, stage: RunStage) -> (action: RunAction)
    ensures
        action@ == run_action(plan@, stage),
{
    let peer = plan.peer.as_str();
    let tunnel_address = &plan.endpoints.local.tunnel_address;
    match stage {
        RunStage::Locking => RunAction::AcquireLock(LOCK_PATH.to_owned()),
        RunStage::Locating => RunAction::LocateExecutable,
        RunStage::Deploying(step) => RunAction::Run(
            command::deploy(
                step,
                peer,
                plan.remote_dir.as_str(),
                plan.remote_executable.as_str(),
            ),
        ),
        RunStage::SpawningLocal => RunAction::SpawnEndpoint(
            Host::Local,
            command::spawn_local_endpoint(&plan.endpoints.local),
        ),
        RunStage::AwaitingLocal => RunAction::AwaitReady(Host::Local),
        RunStage::SpawningRemote { .. } => RunAction::SpawnEndpoint(
            Host::Remote,
            command::spawn_remote_endpoint(
                peer,
                plan.remote_executable.as_str(),
                &plan.endpoints.remote,
            ),
        ),
        RunStage::AwaitingRemote { .. } => RunAction::AwaitReady(Host::Remote),
        RunStage::AwaitingTunnel { trial: TunnelTrial::Probing { .. }, .. } => RunAction::Run(
            command::tunnel_probe(peer, tunnel_address),
        ),
        RunStage::AwaitingTunnel { .. } => RunAction::Pause(PROBE_PAUSE_MILLIS),
        RunStage::StartingServer { .. } => RunAction::SpawnServer(
            command::iperf_server(tunnel_address, plan.iperf_port),
        ),
        RunStage::Settling { .. } => RunAction::Pause(SERVER_START_MILLIS),
        RunStage::Measuring { .. } => RunAction::Measure(
            command::iperf_client(peer, tunnel_address, plan.iperf_port, plan.duration),
        ),
        RunStage::StoppingLocal { local_pid, .. } => RunAction::Run(
            command::stop_endpoint(None, local_pid),
        ),
        RunStage::StoppingRemote { remote_pid, .. } => RunAction::Run(
            command::stop_endpoint(Some(peer), remote_pid),
        ),
        RunStage::ReapingLocal { .. } => RunAction::AwaitExit(Host::Local),
        RunStage::ReapingRemote { .. } => RunAction::AwaitExit(Host::Remote),
        RunStage::KillingServer { .. } => RunAction::KillServer,
        RunStage::Parsing => RunAction::ParseOutput,
        RunStage::Finished(outcome) => RunAction::Finish(outcome),
    }
}

/// The stage behind a series of events.
pub open spec fn run_after(stage: RunStage, events: Seq<RunEvent>) -> RunStage
    decreases events.len(),
{
    if events.len() == 0 {
        stage
    } else {
        run_next(run_after(stage, events.drop_last()), events.last())
    }
}

/// How far the wait for the tunnel is behind a series of answers, one for each try and
/// one, without meaning, for each pause.
pub open spec fn trial_after(trial: TunnelTrial, answers: Seq<bool>) -> TunnelTrial
    decreases answers.len(),
{
    if answers.len() == 0 {
        trial
    } else {
        trial_next(trial_after(trial, answers.drop_last()), answers.last())
    }
}

/// A bound on the number of events that the wait for the tunnel can still take.
pub open spec fn trial_events_left(trial: TunnelTrial) -> nat {
    match trial {
        TunnelTrial::Probing { retries } => 2 * (retries as nat) + 2,
        TunnelTrial::Pausing { retries } => 2 * (retries as nat) + 1,
        TunnelTrial::Reached => 0,
        TunnelTrial::GivenUp => 0,
    }
}

/// A bound on the number of events that a run can still take.
pub open spec fn events_left(stage: RunStage) -> nat {
    match stage {
        RunStage::Locking => 39,
        RunStage::Locating => 38,
        RunStage::Deploying(DeployStep::MakeDirectory) => 37,
        RunStage::Deploying(DeployStep::CopyExecutable) => 36,
        RunStage::Deploying(DeployStep::AllowExecution) => 35,
        RunStage::SpawningLocal => 34,
        RunStage::AwaitingLocal => 33,
        RunStage::SpawningRemote { .. } => 32,
        RunStage::AwaitingRemote { .. } => 31,
        RunStage::AwaitingTunnel { trial, .. } => 10 + trial_events_left(trial),
        RunStage::StartingServer { .. } => 9,
        RunStage::Settling { .. } => 8,
        RunStage::Measuring { .. } => 7,
        RunStage::StoppingLocal { .. } => 6,
        RunStage::StoppingRemote { .. } => 5,
        RunStage::ReapingLocal { .. } => 4,
        RunStage::ReapingRemote { .. } => 3,
        RunStage::KillingServer { .. } => 2,
        RunStage::Parsing => 1,
        RunStage::Finished(_) => 0,
    }
}

/// Every event brings a run that has not ended closer to its end.
pub proof fn every_event_makes_progress(stage: RunStage, event: RunEvent)
    requires
        stage !is Finished,
    ensures
        events_left(run_next(stage, event)) < events_left(stage),
{
}

/// A run ends within thirty-nine events, whatever they are, and stays as it ended.
pub proof fn every_run_ends(events: Seq<RunEvent>)
    ensures
        events.len() >= 39 ==> run_after(RunStage::Locking, events) is Finished,
        events_left(run_after(RunStage::Locking, events)) + events.len() <= 39 || run_after(
            RunStage::Locking,
            events,
        ) is Finished,
    decreases events.len(),
{
    if events.len() > 0 {
        let before = run_after(RunStage::Locking, events.drop_last());
        every_run_ends(events.drop_last());
        if before !is Finished {
            every_event_makes_progress(before, events.last());
        }
    }
}

/// The tunnel is tried up to ten times: behind so many failed tries, each with its pause,
/// the next one comes, and behind the tenth none does.
pub proof fn tunnel_is_tried_ten_times(answers: Seq<bool>, tries: nat)
    requires
        answers.len() == 2 * tries,
        tries <= 10,
        forall|i: int| 0 <= i < tries ==> !#[trigger] answers[2 * i],
    ensures
        trial_after(TunnelTrial::Probing { retries: PROBE_RETRIES }, answers) == (if tries < 10 {
            TunnelTrial::Probing { retries: (PROBE_RETRIES - tries) as u32 }
        } else {
            TunnelTrial::GivenUp
        }),
    decreases tries,
{
    let start = TunnelTrial::Probing { retries: PROBE_RETRIES };
    if tries > 0 {
        let shorter = answers.drop_last();
        let init = shorter.drop_last();
        assert forall|i: int| 0 <= i < tries - 1 implies !#[trigger] init[2 * i] by {
            assert(init[2 * i] == answers[2 * i]);
        }
        tunnel_is_tried_ten_times(init, (tries - 1) as nat);
        assert(shorter.last() == answers[2 * (tries - 1)]);
        assert(trial_after(start, shorter) == TunnelTrial::Pausing {
            retries: (PROBE_RETRIES - (tries - 1)) as u32,
        });
    }
}

/// The first try that is answered, if it is one of the ten, ends the wait well.
pub proof fn first_answer_ends_the_wait(answers: Seq<bool>, tries: nat)
    requires
        answers.len() == 2 * tries,
        tries < 10,
        forall|i: int| 0 <= i < tries ==> !#[trigger] answers[2 * i],
    ensures
        trial_after(
            TunnelTrial::Probing { retries: PROBE_RETRIES },
            answers.push(true),
        ) is Reached,
{
    tunnel_is_tried_ten_times(answers, tries);
    assert(answers.push(true).drop_last() == answers);
}

/// What fails before the measurement ends the run at once, but for a try of the tunnel
/// and the waits, which cannot fail.
pub proof fn early_failure_ends_the_run(stage: RunStage)
    requires
        events_left(stage) > events_left(RunStage::Measuring { local_pid: 0, remote_pid: 0 }),
        stage !is AwaitingTunnel,
        stage !is Settling,
    ensures
        run_next(stage, RunEvent::Failed) matches RunStage::Finished(RunOutcome::Failed(_)),
{
}

/// Whatever came of the measurement, and whatever comes of what follows, the run
/// interrupts both endpoints by their processes, awaits both, kills the server, and only
/// then reads the output of a measurement that succeeded or reports one that failed.
pub proof fn measurement_is_always_cleaned_up(
    local_pid: u32,
    remote_pid: u32,
    events: Seq<RunEvent>,
)
    requires
        events.len() == 6,
    ensures
        ({
            let start = RunStage::Measuring { local_pid, remote_pid };
            let measured = events[0] !is Failed;
            &&& run_after(start, events.take(1)) == RunStage::StoppingLocal {
                local_pid,
                remote_pid,
                measured,
            }
            &&& run_after(start, events.take(2)) == RunStage::StoppingRemote { remote_pid, measured }
            &&& run_after(start, events.take(3)) == RunStage::ReapingLocal { measured }
            &&& run_after(start, events.take(4)) == RunStage::ReapingRemote { measured }
            &&& run_after(start, events.take(5)) == RunStage::KillingServer { measured }
            &&& run_after(start, events) == (if measured {
                RunStage::Parsing
            } else {
                failed(RunFailure::Measurement)
            })
        }),
{
    let start = RunStage::Measuring { local_pid, remote_pid };
    let measured = events[0] !is Failed;
    assert(events.take(1).drop_last() == Seq::<RunEvent>::empty());
    assert(run_after(start, Seq::<RunEvent>::empty()) == start);
    assert(run_after(start, events.take(1)) == RunStage::StoppingLocal {
        local_pid,
        remote_pid,
        measured,
    });
    assert(events.take(2).drop_last() == events.take(1));
    assert(events.take(3).drop_last() == events.take(2));
    assert(events.take(4).drop_last() == events.take(3));
    assert(events.take(5).drop_last() == events.take(4));
    assert(events.drop_last() == events.take(5));
}

/// The process on this host that a stage knows of.
pub open spec fn local_process(stage: RunStage) -> Option<u32> {
    match stage {
        RunStage::SpawningRemote { local_pid } => Some(local_pid),
        RunStage::AwaitingRemote { local_pid } => Some(local_pid),
        RunStage::AwaitingTunnel { local_pid, .. } => Some(local_pid),
        RunStage::StartingServer { local_pid, .. } => Some(local_pid),
        RunStage::Settling { local_pid, .. } => Some(local_pid),
        RunStage::Measuring { local_pid, .. } => Some(local_pid),
        RunStage::StoppingLocal { local_pid, .. } => Some(local_pid),
        _ => None,
    }
}

/// The process on the peer that a stage knows of.
pub open spec fn remote_process(stage: RunStage) -> Option<u32> {
    match stage {
        RunStage::AwaitingTunnel { remote_pid, .. } => Some(remote_pid),
        RunStage::StartingServer { remote_pid, .. } => Some(remote_pid),
        RunStage::Settling { remote_pid, .. } => Some(remote_pid),
        RunStage::Measuring { remote_pid, .. } => Some(remote_pid),
        RunStage::StoppingLocal { remote_pid, .. } => Some(remote_pid),
        RunStage::StoppingRemote { remote_pid, .. } => Some(remote_pid),
        _ => None,
    }
}

/// Whether a stage says that the measurement succeeded.
pub open spec fn is_measured(stage: RunStage) -> bool {
    match stage {
        RunStage::StoppingLocal { measured, .. } => measured,
        RunStage::StoppingRemote { measured, .. } => measured,
        RunStage::ReapingLocal { measured } => measured,
        RunStage::ReapingRemote { measured } => measured,
        RunStage::KillingServer { measured } => measured,
        RunStage::Parsing => true,
        RunStage::Finished(RunOutcome::Success) => true,
        _ => false,
    }
}

/// The processes that a run interrupts are those that the endpoints told when they were
/// waited for: the one on this host and the one on the peer.
pub proof fn known_processes_were_told(events: Seq<RunEvent>)
    ensures
        ({
            let stage = run_after(RunStage::Locking, events);
            &&& local_process(stage) matches Some(pid) ==> exists|i: int|
                0 <= i < events.len() && #[trigger] events[i] == RunEvent::Ready(pid) && run_after(
                    RunStage::Locking,
                    events.take(i),
                ) is AwaitingLocal
            &&& remote_process(stage) matches Some(pid) ==> exists|i: int|
                0 <= i < events.len() && #[trigger] events[i] == RunEvent::Ready(pid) && run_after(
                    RunStage::Locking,
                    events.take(i),
                ) is AwaitingRemote
        }),
    decreases events.len(),
{
    if events.len() > 0 {
        let before = events.drop_last();
        let stage = run_after(RunStage::Locking, before);
        let next = run_after(RunStage::Locking, events);
        let last = events.len() - 1;
        known_processes_were_told(before);
        assert(events.take(last) == before);
        if let Some(pid) = local_process(next) {
            if stage is AwaitingLocal {
                assert(events[last] == RunEvent::Ready(pid));
            } else {
                let i = choose|i: int|
                    0 <= i < before.len() && #[trigger] before[i] == RunEvent::Ready(pid)
                        && run_after(RunStage::Locking, before.take(i)) is AwaitingLocal;
                assert(before.take(i) == events.take(i));
                assert(events[i] == before[i]);
            }
        }
        if let Some(pid) = remote_process(next) {
            if stage is AwaitingRemote {
                assert(events[last] == RunEvent::Ready(pid));
            } else {
                let i = choose|i: int|
                    0 <= i < before.len() && #[trigger] before[i] == RunEvent::Ready(pid)
                        && run_after(RunStage::Locking, before.take(i)) is AwaitingRemote;
                assert(before.take(i) == events.take(i));
                assert(events[i] == before[i]);
            }
        }
    }
}

/// A run that ends well has measured: the measurement was made and did not fail.
pub proof fn success_means_measured(events: Seq<RunEvent>)
    ensures
        is_measured(run_after(RunStage::Locking, events)) ==> exists|i: int|
            0 <= i < events.len() && #[trigger] events[i] !is Failed && run_after(
                RunStage::Locking,
                events.take(i),
            ) is Measuring,
    decreases events.len(),
{
    if events.len() > 0 && is_measured(run_after(RunStage::Locking, events)) {
        let before = events.drop_last();
        let stage = run_after(RunStage::Locking, before);
        let last = events.len() - 1;
        success_means_measured(before);
        assert(events.take(last) == before);
        if stage is Measuring {
            assert(events[last] !is Failed);
        } else {
            let i = choose|i: int|
                0 <= i < before.len() && #[trigger] before[i] !is Failed && run_after(
                    RunStage::Locking,
                    before.take(i),
                ) is Measuring;
            assert(before.take(i) == events.take(i));
            assert(events[i] == before[i]);
        }
    }
}

/// The last thing of a run that ends well is that the output of the measurement was read.
pub proof fn success_means_output_was_read(stage: RunStage, event: RunEvent)
    requires
        stage !is Finished,
        run_next(stage, event) == RunStage::Finished(RunOutcome::Success),
    ensures
        stage is Parsing,
        event !is Failed,
{
}

/// What a run works with: the peer, the port of iperf3 and the duration of its
/// configuration, its two endpoints, each in its place, and the executable in its directory
/// on the peer, which its identity names.
pub proof fn plan_follows_the_configuration(
    config: config::ControllerConfigView,
    run_id: Seq<char>,
    local: endpoint::EndpointArgsView,
    remote: endpoint::EndpointArgsView,
)
    ensures
        ({
            let plan = plan_of(config, run_id, local, remote);
            &&& plan.peer == config.peer
            &&& plan.iperf_port == config.iperf_port
            &&& plan.duration == config.duration
            &&& plan.local == local
            &&& plan.remote == remote
            &&& plan.remote_dir == "/tmp/benchy-"@ + run_id
            &&& plan.remote_executable == plan.remote_dir + "/gotatun-throughput"@
        }),
{
}

/// The texts of the arguments of a command from `start` on.
pub open spec fn texts_from(line: command::CommandLineView, start: int) -> Seq<Seq<char>> {
    line.args.skip(start).map_values(
        |arg: command::CommandArgView|
            match arg {
                command::CommandArgView::Text(text) => text,
                command::CommandArgView::Executable => Seq::empty(),
            },
    )
}

/// Each host serves its own endpoint. In the stage that starts the endpoint on this host, the
/// running executable is served under `sudo -n` with the arguments of the plan's local
/// endpoint; in the stage that starts the endpoint on the peer, a shell on the peer serves
/// the plan's executable there under `sudo -n` with the arguments of the plan's remote
/// endpoint. The flags and what their values are read as are those of that endpoint.
pub proof fn each_host_serves_its_own_endpoint(plan: RunPlanView, local_pid: u32)
    ensures
        run_action(plan, RunStage::SpawningLocal) matches RunActionView::SpawnEndpoint(host, line)
            && host is Local && line.program == "sudo"@ && line.args.len() == 23 && line.args[0]
            == command::CommandArgView::Text("-n"@) && line.args[1] is Executable && line.args[2]
            == command::CommandArgView::Text("endpoint"@) && {
            let values = texts_from(line, 3);
            let args = plan.local;
            &&& forall|i: int| 3 <= i < 23 ==> #[trigger] line.args[i] is Text
            &&& endpoint::flag_value(values, "--interface"@) == Some(args.interface)
            &&& endpoint::flag_value(values, "--private-key"@) == Some(args.private_key)
            &&& endpoint::flag_value(values, "--peer-public-key"@) == Some(args.peer_public_key)
            &&& endpoint::flag_value(values, "--preshared-key"@) == Some(args.preshared_key)
            &&& endpoint::flag_value(values, "--peer-endpoint"@) == Some(
                address::socket_text(args.peer_endpoint),
            )
            &&& endpoint::flag_value(values, "--tunnel-address"@) matches Some(word)
                && address::ipv4_read(word) == Some(args.tunnel_address)
            &&& endpoint::flag_value(values, "--peer-tunnel-address"@) matches Some(word)
                && address::ipv4_read(word) == Some(args.peer_tunnel_address)
            &&& endpoint::flag_value(values, "--listen-port"@) matches Some(word)
                && numeral::is_numeral_of(word, args.listen_port as int)
            &&& endpoint::flag_value(values, "--mtu"@) matches Some(word)
                && numeral::is_numeral_of(word, args.mtu as int)
            &&& endpoint::flag_value(values, "--lease-seconds"@) matches Some(word)
                && numeral::is_numeral_of(word, args.lease_seconds as int)
        },
        run_action(
            plan,
            RunStage::SpawningRemote { local_pid },
        ) matches RunActionView::SpawnEndpoint(host, line) && command::words_on_peer(
            line,
            plan.peer,
        ) matches Some(words) && host is Remote && words.len() == 24
            && words[0] == "sudo"@ && words[1] == "-n"@ && words[2] == plan.remote_executable
            && words[3] == "endpoint"@ && {
            let values = words.skip(4);
            let args = plan.remote;
            &&& endpoint::flag_value(values, "--interface"@) == Some(args.interface)
            &&& endpoint::flag_value(values, "--private-key"@) == Some(args.private_key)
            &&& endpoint::flag_value(values, "--peer-public-key"@) == Some(args.peer_public_key)
            &&& endpoint::flag_value(values, "--preshared-key"@) == Some(args.preshared_key)
            &&& endpoint::flag_value(values, "--peer-endpoint"@) == Some(
                address::socket_text(args.peer_endpoint),
            )
            &&& endpoint::flag_value(values, "--tunnel-address"@) matches Some(word)
                && address::ipv4_read(word) == Some(args.tunnel_address)
            &&& endpoint::flag_value(values, "--peer-tunnel-address"@) matches Some(word)
                && address::ipv4_read(word) == Some(args.peer_tunnel_address)
            &&& endpoint::flag_value(values, "--listen-port"@) matches Some(word)
                && numeral::is_numeral_of(word, args.listen_port as int)
            &&& endpoint::flag_value(values, "--mtu"@) matches Some(word)
                && numeral::is_numeral_of(word, args.mtu as int)
            &&& endpoint::flag_value(values, "--lease-seconds"@) matches Some(word)
                && numeral::is_numeral_of(word, args.lease_seconds as int)
        },
{
    command::endpoints_are_served_with_their_arguments(
        plan.peer,
        plan.remote_executable,
        plan.local,
    );
    command::endpoints_are_served_with_their_arguments(
        plan.peer,
        plan.remote_executable,
        plan.remote,
    );
    endpoint::endpoint_values_are_read_back(plan.local);
    endpoint::endpoint_values_are_read_back(plan.remote);
    let line = command::local_endpoint_command(plan.local);
    let values = endpoint::endpoint_values(plan.local);
    assert forall|i: int| 3 <= i < 23 implies #[trigger] line.args[i] is Text by {
        assert(line.args[3 + (i - 3)] == command::CommandArgView::Text(values[i - 3]));
    }
    assert(texts_from(line, 3) =~= values);
    let remote = command::remote_endpoint_command(
        plan.peer,
        plan.remote_executable,
        plan.remote,
    );
    let words = command::words_on_peer(remote, plan.peer).unwrap();
    assert(words.skip(4) =~= endpoint::endpoint_values(plan.remote));
}

/// In every run, what each host is told of itself the other is told of its peer: the word
/// behind `--tunnel-address` on one host is the word behind `--peer-tunnel-address` on the
/// other. Both are told the same of what they share, and each secret key goes to one host
/// only.
pub proof fn hosts_are_told_of_each_other(
    config: config::ControllerConfigView,
    run_id: Seq<char>,
    alice_private: Seq<u8>,
    alice_public: Seq<u8>,
    bob_private: Seq<u8>,
    bob_public: Seq<u8>,
    preshared_key: Seq<u8>,
    local_pid: u32,
)
    ensures
        ({
            let plan = plan_of(
                config,
                run_id,
                session::local_endpoint(config, alice_private, bob_public, preshared_key),
                session::remote_endpoint(config, bob_private, alice_public, preshared_key),
            );
            let here = texts_from(run_action(plan, RunStage::SpawningLocal)->SpawnEndpoint_1, 3);
            let there = command::words_on_peer(
                run_action(plan, RunStage::SpawningRemote { local_pid })->SpawnEndpoint_1,
                config.peer,
            ).unwrap().skip(4);
            &&& endpoint::flag_value(here, "--tunnel-address"@) is Some
            &&& endpoint::flag_value(here, "--tunnel-address"@) == endpoint::flag_value(
                there,
                "--peer-tunnel-address"@,
            )
            &&& endpoint::flag_value(there, "--tunnel-address"@) is Some
            &&& endpoint::flag_value(there, "--tunnel-address"@) == endpoint::flag_value(
                here,
                "--peer-tunnel-address"@,
            )
            &&& endpoint::flag_value(here, "--tunnel-address"@) != endpoint::flag_value(
                there,
                "--tunnel-address"@,
            )
            &&& endpoint::flag_value(here, "--private-key"@) == Some(keys::hex_text(alice_private))
            &&& endpoint::flag_value(there, "--private-key"@) == Some(keys::hex_text(bob_private))
            &&& endpoint::flag_value(here, "--peer-public-key"@) == Some(keys::hex_text(bob_public))
            &&& endpoint::flag_value(there, "--peer-public-key"@) == Some(
                keys::hex_text(alice_public),
            )
            &&& endpoint::flag_value(here, "--preshared-key"@) == Some(
                keys::hex_text(preshared_key),
            )
            &&& endpoint::flag_value(there, "--preshared-key"@) == Some(
                keys::hex_text(preshared_key),
            )
            &&& endpoint::flag_value(here, "--interface"@) == Some(config.interface)
            &&& endpoint::flag_value(there, "--interface"@) == Some(config.interface)
            &&& endpoint::flag_value(here, "--mtu"@) == Some(numeral::decimal(config.mtu as int))
            &&& endpoint::flag_value(there, "--mtu"@) == Some(numeral::decimal(config.mtu as int))
            &&& endpoint::flag_value(here, "--listen-port"@) == Some(
                numeral::decimal(config.listen_port as int),
            )
            &&& endpoint::flag_value(there, "--listen-port"@) == Some(
                numeral::decimal(config.listen_port as int),
            )
        }),
{
    let local = session::local_endpoint(config, alice_private, bob_public, preshared_key);
    let remote = session::remote_endpoint(config, bob_private, alice_public, preshared_key);
    let plan = plan_of(config, run_id, local, remote);
    each_host_serves_its_own_endpoint(plan, local_pid);
    let here = texts_from(run_action(plan, RunStage::SpawningLocal)->SpawnEndpoint_1, 3);
    let there = command::words_on_peer(
        run_action(plan, RunStage::SpawningRemote { local_pid })->SpawnEndpoint_1,
        config.peer,
    ).unwrap().skip(4);
    let a = endpoint::flag_value(here, "--tunnel-address"@).unwrap();
    let b = endpoint::flag_value(there, "--peer-tunnel-address"@).unwrap();
    let c = endpoint::flag_value(there, "--tunnel-address"@).unwrap();
    let d = endpoint::flag_value(here, "--peer-tunnel-address"@).unwrap();
    address::ipv4_addresses_have_one_text(a, local.tunnel_address);
    address::ipv4_addresses_have_one_text(b, local.tunnel_address);
    address::ipv4_addresses_have_one_text(c, remote.tunnel_address);
    address::ipv4_addresses_have_one_text(d, remote.tunnel_address);
    assert(local.tunnel_address != remote.tunnel_address);
    numeral::decimal_is_the_only_numeral(
        endpoint::flag_value(here, "--mtu"@).unwrap(),
        config.mtu as int,
    );
    numeral::decimal_is_the_only_numeral(
        endpoint::flag_value(there, "--mtu"@).unwrap(),
        config.mtu as int,
    );
    numeral::decimal_is_the_only_numeral(
        endpoint::flag_value(here, "--listen-port"@).unwrap(),
        config.listen_port as int,
    );
    numeral::decimal_is_the_only_numeral(
        endpoint::flag_value(there, "--listen-port"@).unwrap(),
        config.listen_port as int,
    );
}

/// The executable is brought to the peer of the plan: a shell there makes the plan's
/// directory, `scp` brings the running executable to the plan's path, and a shell there lets
/// everybody read and run it.
pub proof fn executable_is_brought_to_the_peer(plan: RunPlanView)
    ensures
        run_action(
            plan,
            RunStage::Deploying(DeployStep::MakeDirectory),
        ) matches RunActionView::Run(line) && command::words_on_peer(line, plan.peer) == Some(
            seq!["mkdir"@, "-p"@, plan.remote_dir],
        ),
        run_action(
            plan,
            RunStage::Deploying(DeployStep::CopyExecutable),
        ) matches RunActionView::Run(line) && line.program == "scp"@ && line.args.len() == 2
            && line.args[0] is Executable && line.args[1] == command::CommandArgView::Text(
            plan.peer + seq![':'] + plan.remote_executable,
        ),
        run_action(
            plan,
            RunStage::Deploying(DeployStep::AllowExecution),
        ) matches RunActionView::Run(line) && command::words_on_peer(line, plan.peer) == Some(
            seq!["chmod"@, "755"@, plan.remote_executable],
        ),
{
    command::deployment_brings_the_executable(plan.peer, plan.remote_dir, plan.remote_executable);
    let line = command::deploy_command(
        DeployStep::CopyExecutable,
        plan.peer,
        plan.remote_dir,
        plan.remote_executable,
    );
    let target = line.args[1]->Text_0;
    assert(target =~= target.take(plan.peer.len() as int) + seq![':'] + target.skip(
        plan.peer.len() as int + 1,
    ));
}

/// The tunnel is tried, and the throughput measured, between the peer of the plan and the
/// tunnel address of this host: the peer asks that address for an answer, the server listens
/// there on the port of iperf3, and the client on the peer connects there, on that port, for
/// the duration of the measurement.
pub proof fn tunnel_is_measured_to_this_host(
    plan: RunPlanView,
    local_pid: u32,
    remote_pid: u32,
    retries: u32,
)
    ensures
        run_action(
            plan,
            RunStage::AwaitingTunnel {
                local_pid,
                remote_pid,
                trial: TunnelTrial::Probing { retries },
            },
        ) matches RunActionView::Run(line) && command::words_on_peer(
            line,
            plan.peer,
        ) matches Some(words) && words.len() == 6 && words[0] == "ping"@ && words[1] == "-c"@
            && words[2] == "1"@ && words[3] == "-W"@ && words[4] == "1"@ && address::ipv4_read(
            words[5],
        ) == Some(plan.local.tunnel_address),
        run_action(
            plan,
            RunStage::StartingServer { local_pid, remote_pid },
        ) matches RunActionView::SpawnServer(line) && command::words_here(line) matches Some(words)
            && words.len() == 6 && words[0] == "iperf3"@ && words[1] == "--server"@ && words[2]
            == "--bind"@ && address::ipv4_read(words[3]) == Some(plan.local.tunnel_address)
            && words[4] == "--port"@ && numeral::is_numeral_of(words[5], plan.iperf_port as int),
        run_action(
            plan,
            RunStage::Measuring { local_pid, remote_pid },
        ) matches RunActionView::Measure(line) && command::words_on_peer(
            line,
            plan.peer,
        ) matches Some(words) && words.len() == 8 && words[0] == "iperf3"@ && words[1]
            == "--client"@ && address::ipv4_read(words[2]) == Some(plan.local.tunnel_address)
            && words[3] == "--port"@ && numeral::is_numeral_of(words[4], plan.iperf_port as int)
            && words[5] == "--time"@ && numeral::is_numeral_of(words[6], plan.duration as int)
            && words[7] == "--json"@,
{
    command::peer_asks_for_one_answer(plan.peer, plan.local.tunnel_address);
    command::measurement_is_made_as_asked(
        plan.peer,
        plan.local.tunnel_address,
        plan.iperf_port,
        plan.duration,
    );
}

/// The endpoints are stopped where they run: the process on this host by a command here, the
/// process on the peer by a shell on the peer, each by its own number.
pub proof fn endpoints_are_stopped_where_they_run(
    plan: RunPlanView,
    local_pid: u32,
    remote_pid: u32,
    measured: bool,
)
    ensures
        run_action(
            plan,
            RunStage::StoppingLocal { local_pid, remote_pid, measured },
        ) matches RunActionView::Run(line) && command::words_here(line) matches Some(words)
            && words.len() == 5 && words[0] == "sudo"@ && words[1] == "-n"@ && words[2] == "kill"@
            && words[3] == "-INT"@ && numeral::is_numeral_of(words[4], local_pid as int),
        run_action(
            plan,
            RunStage::StoppingRemote { remote_pid, measured },
        ) matches RunActionView::Run(line) && command::words_on_peer(
            line,
            plan.peer,
        ) matches Some(words) && words.len() == 5 && words[0] == "sudo"@ && words[1] == "-n"@
            && words[2] == "kill"@ && words[3] == "-INT"@ && numeral::is_numeral_of(
            words[4],
            remote_pid as int,
        ),
{
    command::given_process_is_interrupted(plan.peer, local_pid);
    command::given_process_is_interrupted(plan.peer, remote_pid);
}

/// What the controller does besides running commands, whatever its plan is: it takes the lock
/// of the machine, finds its executable, waits for each endpoint by itself to be ready and to
/// exit, pauses for half a second between two tries of the tunnel and for a quarter of one
/// before it measures, kills the server, reads the output, and ends as the run ended.
pub proof fn controller_waits_and_cleans_up(
    plan: RunPlanView,
    local_pid: u32,
    remote_pid: u32,
    retries: u32,
    measured: bool,
    outcome: RunOutcome,
)
    ensures
        run_action(plan, RunStage::Locking) == RunActionView::AcquireLock("/tmp/benchy.lock"@),
        run_action(plan, RunStage::Locating) is LocateExecutable,
        run_action(plan, RunStage::AwaitingLocal) == RunActionView::AwaitReady(Host::Local),
        run_action(plan, RunStage::AwaitingRemote { local_pid }) == RunActionView::AwaitReady(
            Host::Remote,
        ),
        run_action(
            plan,
            RunStage::AwaitingTunnel {
                local_pid,
                remote_pid,
                trial: TunnelTrial::Pausing { retries },
            },
        ) == RunActionView::Pause(500),
        run_action(plan, RunStage::Settling { local_pid, remote_pid }) == RunActionView::Pause(250),
        run_action(plan, RunStage::ReapingLocal { measured }) == RunActionView::AwaitExit(
            Host::Local,
        ),
        run_action(plan, RunStage::ReapingRemote { measured }) == RunActionView::AwaitExit(
            Host::Remote,
        ),
        run_action(plan, RunStage::KillingServer { measured }) is KillServer,
        run_action(plan, RunStage::Parsing) is ParseOutput,
        run_action(plan, RunStage::Finished(outcome)) == RunActionView::Finish(outcome),
{
}

/// A run whose actions do not fail goes through its stages in their order up to the tunnel,
/// and keeps the processes that the endpoints told, whatever they are.
pub proof fn run_reaches_the_tunnel(events: Seq<RunEvent>, local_pid: u32, remote_pid: u32)
    requires
        events.len() == 9,
        forall|i: int| 0 <= i < 9 ==> !(#[trigger] events[i] is Failed),
        events[6] == RunEvent::Ready(local_pid),
        events[8] == RunEvent::Ready(remote_pid),
    ensures
        ({
            let start = RunStage::Locking;
            &&& run_after(start, events.take(1)) is Locating
            &&& run_after(start, events.take(2)) == RunStage::Deploying(DeployStep::MakeDirectory)
            &&& run_after(start, events.take(3)) == RunStage::Deploying(DeployStep::CopyExecutable)
            &&& run_after(start, events.take(4)) == RunStage::Deploying(DeployStep::AllowExecution)
            &&& run_after(start, events.take(5)) is SpawningLocal
            &&& run_after(start, events.take(6)) is AwaitingLocal
            &&& run_after(start, events.take(7)) == (RunStage::SpawningRemote { local_pid })
            &&& run_after(start, events.take(8)) == (RunStage::AwaitingRemote { local_pid })
            &&& run_after(start, events) == (RunStage::AwaitingTunnel {
                local_pid,
                remote_pid,
                trial: TunnelTrial::Probing { retries: 9 },
            })
        }),
{
    let start = RunStage::Locking;
    assert(events.take(1).drop_last() == Seq::<RunEvent>::empty());
    assert(run_after(start, Seq::<RunEvent>::empty()) == start);
    assert(events.take(2).drop_last() == events.take(1));
    assert(events.take(3).drop_last() == events.take(2));
    assert(events.take(4).drop_last() == events.take(3));
    assert(events.take(5).drop_last() == events.take(4));
    assert(events.take(6).drop_last() == events.take(5));
    assert(events.take(7).drop_last() == events.take(6));
    assert(events.take(8).drop_last() == events.take(7));
    assert(events.drop_last() == events.take(8));
    assert(events.take(1).last() == events[0]);
    assert(events.take(2).last() == events[1]);
    assert(events.take(3).last() == events[2]);
    assert(events.take(4).last() == events[3]);
    assert(events.take(5).last() == events[4]);
    assert(events.take(6).last() == events[5]);
    assert(events.take(7).last() == events[6]);
    assert(events.take(8).last() == events[7]);
}

/// The wait for the tunnel goes on as its tries do: one that is answered leads to the server,
/// one that is not to a pause, and a pause to the next try while one is left. The processes
/// stay those that are known. A server that starts gets its time, and then the run measures.
pub proof fn tunnel_leads_to_the_measurement(
    local_pid: u32,
    remote_pid: u32,
    retries: u32,
    event: RunEvent,
)
    ensures
        ({
            let probing = RunStage::AwaitingTunnel {
                local_pid,
                remote_pid,
                trial: TunnelTrial::Probing { retries },
            };
            let pausing = RunStage::AwaitingTunnel {
                local_pid,
                remote_pid,
                trial: TunnelTrial::Pausing { retries },
            };
            let starting = RunStage::StartingServer { local_pid, remote_pid };
            let settling = RunStage::Settling { local_pid, remote_pid };
            &&& run_next(probing, event) == (if event is Failed {
                pausing
            } else {
                starting
            })
            &&& retries > 0 ==> run_next(pausing, event) == (RunStage::AwaitingTunnel {
                local_pid,
                remote_pid,
                trial: TunnelTrial::Probing { retries: (retries - 1) as u32 },
            })
            &&& retries == 0 ==> run_next(pausing, event) == RunStage::Finished(
                RunOutcome::Failed(RunFailure::Tunnel),
            )
            &&& run_next(starting, event) == (if event is Failed {
                RunStage::Finished(RunOutcome::Failed(RunFailure::Server))
            } else {
                settling
            })
            &&& run_next(settling, event) == (RunStage::Measuring { local_pid, remote_pid })
        }),
{
}

/// A run that fails before the tunnel names the stage in which it did, and an endpoint that
/// was waited for has failed unless it told its process.
pub proof fn early_failure_names_its_stage(step: DeployStep, local_pid: u32)
    ensures
        run_next(RunStage::Locking, RunEvent::Failed) == RunStage::Finished(
            RunOutcome::Failed(RunFailure::Lock),
        ),
        run_next(RunStage::Locating, RunEvent::Failed) == RunStage::Finished(
            RunOutcome::Failed(RunFailure::Executable),
        ),
        run_next(RunStage::Deploying(step), RunEvent::Failed) == RunStage::Finished(
            RunOutcome::Failed(RunFailure::Deployment),
        ),
        run_next(RunStage::SpawningLocal, RunEvent::Failed) == RunStage::Finished(
            RunOutcome::Failed(RunFailure::Spawn(Host::Local)),
        ),
        run_next(RunStage::AwaitingLocal, RunEvent::Failed) == RunStage::Finished(
            RunOutcome::Failed(RunFailure::Readiness(Host::Local)),
        ),
        run_next(RunStage::AwaitingLocal, RunEvent::Done) == RunStage::Finished(
            RunOutcome::Failed(RunFailure::Readiness(Host::Local)),
        ),
        run_next(RunStage::SpawningRemote { local_pid }, RunEvent::Failed) == RunStage::Finished(
            RunOutcome::Failed(RunFailure::Spawn(Host::Remote)),
        ),
        run_next(RunStage::AwaitingRemote { local_pid }, RunEvent::Failed) == RunStage::Finished(
            RunOutcome::Failed(RunFailure::Readiness(Host::Remote)),
        ),
        run_next(RunStage::AwaitingRemote { local_pid }, RunEvent::Done) == RunStage::Finished(
            RunOutcome::Failed(RunFailure::Readiness(Host::Remote)),
        ),
{
}

/// The output of a measurement decides the run: it ends well where the output can be read,
/// and fails for that reason where it cannot.
pub proof fn output_decides_the_run(event: RunEvent)
    ensures
        run_next(RunStage::Parsing, event) == RunStage::Finished(
            if event is Failed {
                RunOutcome::Failed(RunFailure::Output)
            } else {
                RunOutcome::Success
            },
        ),
{
}

/// However many tries are left, the tunnel is tried that often again, and given up behind the
/// last pause; an answer ends the wait at once, and a wait that has ended stays as it is.
pub proof fn tries_are_counted(retries: u32, tries: nat, answers: Seq<bool>, answer: bool)
    requires
        answers.len() == 2 * tries,
        tries <= retries + 1,
        forall|i: int| 0 <= i < tries ==> !#[trigger] answers[2 * i],
    ensures
        trial_after(TunnelTrial::Probing { retries }, answers) == (if tries <= retries {
            TunnelTrial::Probing { retries: (retries - tries) as u32 }
        } else {
            TunnelTrial::GivenUp
        }),
        tries <= retries ==> trial_after(
            TunnelTrial::Probing { retries },
            answers.push(true),
        ) is Reached,
        trial_next(TunnelTrial::Reached, answer) is Reached,
        trial_next(TunnelTrial::GivenUp, answer) is GivenUp,
    decreases tries,
{
    let start = TunnelTrial::Probing { retries };
    if tries > 0 {
        let shorter = answers.drop_last();
        let init = shorter.drop_last();
        assert forall|i: int| 0 <= i < tries - 1 implies !#[trigger] init[2 * i] by {
            assert(init[2 * i] == answers[2 * i]);
        }
        tries_are_counted(retries, (tries - 1) as nat, init, answer);
        assert(shorter.last() == answers[2 * (tries - 1)]);
        assert(trial_after(start, shorter) == TunnelTrial::Pausing {
            retries: (retries - (tries - 1)) as u32,
        });
    }
    assert(answers.push(true).drop_last() == answers);
}

/// What a run works with is seen with all its fields.
pub proof fn run_plan_is_seen_as_it_is(plan: RunPlan)
    ensures
        plan@.peer == plan.peer@,
        plan@.remote_dir == plan.remote_dir@,
        plan@.remote_executable == plan.remote_executable@,
        plan@.local == plan.endpoints.local@,
        plan@.remote == plan.endpoints.remote@,
        plan@.iperf_port == plan.iperf_port,
        plan@.duration == plan.duration,
{
}

/// An action of the controller is seen with what it is done with.
pub proof fn run_actions_are_seen_as_they_are(
    path: String,
    line: CommandLine,
    host: Host,
    millis: u64,
    outcome: RunOutcome,
)
    ensures
        RunAction::AcquireLock(path)@ == RunActionView::AcquireLock(path@),
        RunAction::LocateExecutable@ is LocateExecutable,
        RunAction::Run(line)@ == RunActionView::Run(line@),
        RunAction::SpawnEndpoint(host, line)@ == RunActionView::SpawnEndpoint(host, line@),
        RunAction::AwaitReady(host)@ == RunActionView::AwaitReady(host),
        RunAction::Pause(millis)@ == RunActionView::Pause(millis),
        RunAction::SpawnServer(line)@ == RunActionView::SpawnServer(line@),
        RunAction::Measure(line)@ == RunActionView::Measure(line@),
        RunAction::AwaitExit(host)@ == RunActionView::AwaitExit(host),
        RunAction::KillServer@ is KillServer,
        RunAction::ParseOutput@ is ParseOutput,
        RunAction::Finish(outcome)@ == RunActionView::Finish(outcome),
{
}

} // verus!
