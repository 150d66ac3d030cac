//! What a tunnel endpoint does.

use crate::address;
use crate::address::{IpAddr, Ipv4Addr, Ipv6Addr, SocketAddr};
use crate::command;
use crate::command::CommandLine;
use crate::config;
use crate::endpoint;
use crate::endpoint::EndpointArgs;
use crate::keys;
use crate::keys::KeyError;
use crate::numeral;
use crate::readiness;
use crate::session;
use crate::text;
use vstd::prelude::*;

verus! {

/// Size of the send buffer and of the receive buffer of the UDP socket, in bytes.
pub const UDP_BUFFER_SIZE: usize = 7340032;

/// A network: an address and the length of its prefix.
#[derive(Clone, Copy, Debug, PartialEq, Eq)]
pub struct IpNetwork {
    pub ip: IpAddr,
    pub prefix: u8,
}

/// A text that is no network.
#[derive(Clone, Copy, Debug, PartialEq, Eq, Structural)]
pub struct NetworkParseError;

/// The text of an IPv4 network: the address, a slash and the length of the prefix.
pub open spec fn cidr_text(ip: Ipv4Addr, prefix: u8) -> Seq<char> {
    address::ipv4_text(ip) + seq!['/'] + numeral::decimal(prefix as int)
}

/// Whether the result is the IPv4 network of this text.
pub open spec fn is_network_of(
    result: Result<IpNetwork, NetworkParseError>,
    text: Seq<char>,
) -> bool {
    forall|ip: Ipv4Addr, prefix: u8|
        prefix <= 32 && text == #[trigger] cidr_text(ip, prefix) ==> result == Ok::<
            IpNetwork,
            NetworkParseError,
        >(IpNetwork { ip: IpAddr::V4(ip), prefix })
}

/// `IpNetwork::from_str` of the ipnetwork crate, on the text of an IPv4 network: an
/// address in dot-decimal notation, a slash and a prefix of at most thirty-two bits give
/// the network of that address and prefix, the address kept as it is.
#[verifier::external_body]
fn parse_network(text: &str) -> (result: Result<IpNetwork, NetworkParseError>)
    requires
        exists|ip: Ipv4Addr, prefix: u8| prefix <= 32 && text@ == #[trigger] cidr_text(ip, prefix),
    ensures
        is_network_of(result, text@),
{
    match text.parse::<ipnetwork::IpNetwork>() {
        Ok(ipnetwork::IpNetwork::V4(network)) => {
            let [a, b, c, d] = network.ip().octets();
            Ok(IpNetwork { ip: IpAddr::V4(Ipv4Addr { a, b, c, d }), prefix: network.prefix() })
        },
        Ok(ipnetwork::IpNetwork::V6(network)) => {
            let segments = network.ip().segments();
            Ok(IpNetwork { ip: IpAddr::V6(Ipv6Addr { segments }), prefix: network.prefix() })
        },
        Err(_) => Err(NetworkParseError),
    }
}

/// The network of one address, which the peer may use inside the tunnel.
pub fn allowed_network(peer_tunnel_address: &Ipv4Addr) -> (result: Result<
    IpNetwork,
    NetworkParseError,
>)
    ensures
        result == Ok::<IpNetwork, NetworkParseError>(
            IpNetwork { ip: IpAddr::V4(*peer_tunnel_address), prefix: 32 },
        ),
{
    let mut text = peer_tunnel_address.to_text();
    text.append("/32");
    proof {
        reveal_strlit("/32");
        assert(numeral::decimal(32) =~= seq!['3', '2']) by {
            reveal_with_fuel(numeral::numeral, 3);
        }
        assert(text@ =~= cidr_text(*peer_tunnel_address, 32));
    }
    parse_network(text.as_str())
}

/// The text of an IPv4 network determines its address and its prefix.
pub proof fn cidr_text_determines_network(a: Ipv4Addr, p: u8, b: Ipv4Addr, q: u8)
    requires
        cidr_text(a, p) == cidr_text(b, q),
    ensures
        a == b,
        p == q,
{
    let left = seq![address::ipv4_text(a), numeral::decimal(p as int)];
    let right = seq![address::ipv4_text(b), numeral::decimal(q as int)];
    address::lemma_ipv4_text_lacks(a, '/');
    address::lemma_ipv4_text_lacks(b, '/');
    numeral::lemma_numeral_lacks(p as int, 10, '/');
    numeral::lemma_numeral_lacks(q as int, 10, '/');
    text::split_undoes_joined(left, '/');
    text::split_undoes_joined(right, '/');
    assert(text::joined(left.drop_last(), seq!['/']) == left[0]);
    assert(text::joined(right.drop_last(), seq!['/']) == right[0]);
    assert(left == right);
    assert(left[0] == right[0] && left[1] == right[1]);
    address::ipv4_text_reads_back(a);
    address::ipv4_text_reads_back(b);
    numeral::decimal_is_injective(p as int, q as int);
}

/// What an endpoint works with.
#[derive(Debug, PartialEq, Eq)]
pub struct EndpointPlan {
    pub private_key: [u8; 32],
    pub peer_public_key: [u8; 32],
    pub preshared_key: [u8; 32],
    pub peer_endpoint: SocketAddr,
    pub allowed_network: IpNetwork,
    pub interface: String,
    pub tunnel_address: Ipv4Addr,
    pub listen_port: u16,
    pub mtu: u16,
    pub lease_seconds: u64,
}

/// What an endpoint works with, texts and keys seen as sequences.
pub struct EndpointPlanView {
    pub private_key: Seq<u8>,
    pub peer_public_key: Seq<u8>,
    pub preshared_key: Seq<u8>,
    pub peer_endpoint: address::SocketAddrView,
    pub allowed_network: IpNetwork,
    pub interface: Seq<char>,
    pub tunnel_address: Ipv4Addr,
    pub listen_port: u16,
    pub mtu: u16,
    pub lease_seconds: u64,
}

impl View for EndpointPlan {
    type V = EndpointPlanView;

    open spec fn view(&self) -> EndpointPlanView {
        EndpointPlanView {
            private_key: self.private_key@,
            peer_public_key: self.peer_public_key@,
            preshared_key: self.preshared_key@,
            peer_endpoint: self.peer_endpoint@,
            allowed_network: self.allowed_network,
            interface: self.interface@,
            tunnel_address: self.tunnel_address,
            listen_port: self.listen_port,
            mtu: self.mtu,
            lease_seconds: self.lease_seconds,
        }
    }
}

/// The argument that an endpoint cannot work with.
#[derive(Clone, Copy, Debug, PartialEq, Eq, Structural)]
pub enum EndpointError {
    PrivateKey(KeyError),
    PeerPublicKey(KeyError),
    PresharedKey(KeyError),
    PeerTunnelAddress(NetworkParseError),
}

/// What an endpoint works with, given its arguments; otherwise the fault of the first key
/// that cannot be read. The peer may use its tunnel address alone.
pub open spec fn plan_read(args: endpoint::EndpointArgsView) -> Result<
    EndpointPlanView,
    EndpointError,
> {
    let private_key = keys::key_read(args.private_key);
    let peer_public_key = keys::key_read(args.peer_public_key);
    let preshared_key = keys::key_read(args.preshared_key);
    if private_key is Err {
        Err(EndpointError::PrivateKey(private_key->Err_0))
    } else if peer_public_key is Err {
        Err(EndpointError::PeerPublicKey(peer_public_key->Err_0))
    } else if preshared_key is Err {
        Err(EndpointError::PresharedKey(preshared_key->Err_0))
    } else {
        Ok(
            EndpointPlanView {
                private_key: private_key->Ok_0,
                peer_public_key: peer_public_key->Ok_0,
                preshared_key: preshared_key->Ok_0,
                peer_endpoint: args.peer_endpoint,
                allowed_network: IpNetwork { ip: IpAddr::V4(args.peer_tunnel_address), prefix: 32 },
                interface: args.interface,
                tunnel_address: args.tunnel_address,
                listen_port: args.listen_port,
                mtu: args.mtu,
                lease_seconds: args.lease_seconds,
            },
        )
    }
}

/// The result of reading the arguments, seen as above.
pub open spec fn plan_view(result: Result<EndpointPlan, EndpointError>) -> Result<
    EndpointPlanView,
    EndpointError,
> {
    match result {
        Ok(plan) => Ok(plan@),
        Err(error) => Err(error),
    }
}

/// What an endpoint works with, given its arguments.
pub fn endpoint_plan(args: &EndpointArgs) -> (result: Result<EndpointPlan, EndpointError>)
    ensures
        plan_view(result) == plan_read(args@),
{
    let private_key = match keys::decode_key(args.private_key.as_str()) {
        Ok(key) => key,
        Err(error) => {
            return Err(EndpointError::PrivateKey(error));
        },
    };
    let peer_public_key = match keys::decode_key(args.peer_public_key.as_str()) {
        Ok(key) => key,
        Err(error) => {
            return Err(EndpointError::PeerPublicKey(error));
        },
    };
    let preshared_key = match keys::decode_key(args.preshared_key.as_str()) {
        Ok(key) => key,
        Err(error) => {
            return Err(EndpointError::PresharedKey(error));
        },
    };
    let allowed_network = match allowed_network(&args.peer_tunnel_address) {
        Ok(network) => network,
        Err(error) => {
            return Err(EndpointError::PeerTunnelAddress(error));
        },
    };
    Ok(
        EndpointPlan {
            private_key,
            peer_public_key,
            preshared_key,
            peer_endpoint: args.peer_endpoint,
            allowed_network,
            interface: args.interface.clone(),
            tunnel_address: args.tunnel_address,
            listen_port: args.listen_port,
            mtu: args.mtu,
            lease_seconds: args.lease_seconds,
        },
    )
}

/// The endpoints that the controller starts can work with their arguments, whatever keys of
/// thirty-two bytes they get: each has its keys, reaches the other at its host, and lets it
/// use the tunnel address that the other has.
pub proof fn started_endpoints_have_plans(
    config: config::ControllerConfigView,
    private_key: Seq<u8>,
    peer_public_key: Seq<u8>,
    preshared_key: Seq<u8>,
)
    requires
        private_key.len() == keys::KEY_LENGTH,
        peer_public_key.len() == keys::KEY_LENGTH,
        preshared_key.len() == keys::KEY_LENGTH,
    ensures
        ({
            let local = session::local_endpoint(config, private_key, peer_public_key, preshared_key);
            let remote = session::remote_endpoint(
                config,
                private_key,
                peer_public_key,
                preshared_key,
            );
            &&& plan_read(local) matches Ok(plan) && plan.private_key == private_key
                && plan.peer_public_key == peer_public_key && plan.preshared_key == preshared_key
                && plan.peer_endpoint == address::socket_of(config.bob_address, config.listen_port)
                && plan.allowed_network == (IpNetwork {
                ip: IpAddr::V4(remote.tunnel_address),
                prefix: 32,
            })
            &&& plan_read(remote) matches Ok(plan) && plan.private_key == private_key
                && plan.peer_public_key == peer_public_key && plan.preshared_key == preshared_key
                && plan.peer_endpoint == address::socket_of(config.alice_address, config.listen_port)
                && plan.allowed_network == (IpNetwork {
                ip: IpAddr::V4(local.tunnel_address),
                prefix: 32,
            })
        }),
{
    session::endpoints_accept_their_keys(config, private_key, peer_public_key, preshared_key);
}

/// How far an endpoint is.
#[derive(Clone, Copy, Debug, PartialEq, Eq, Structural)]
pub enum ServiceStage {
    /// It makes its TUN device.
    CreatingTun,
    /// It makes its tunnel device.
    BuildingDevice,
    /// It gives the interface its address.
    SettingAddress,
    /// It turns the interface on.
    SettingLink,
    /// It tells that it is ready.
    Announcing,
    /// It serves.
    Serving,
    /// It stops its tunnel device.
    Stopping,
    /// It has ended.
    Finished(ServiceOutcome),
}

/// How an endpoint ended.
#[derive(Clone, Copy, Debug, PartialEq, Eq, Structural)]
pub enum ServiceOutcome {
    Success,
    Failed(ServiceFailure),
}

/// What ended an endpoint early.
#[derive(Clone, Copy, Debug, PartialEq, Eq, Structural)]
pub enum ServiceFailure {
    /// The TUN device could not be made.
    Tun,
    /// The tunnel device could not be made.
    Device,
    /// The interface did not get its address.
    Address,
    /// The interface could not be turned on.
    Link,
    /// Nobody could be told that the endpoint is ready.
    Announcement,
    /// The shutdown signal could not be waited for.
    Signal,
    /// The tunnel device stopped by itself.
    DeviceStopped,
}

/// What happens to an endpoint.
#[derive(Clone, Copy, Debug, PartialEq, Eq, Structural)]
pub enum ServiceEvent {
    /// The action of the stage succeeded.
    Done,
    /// The action of the stage failed.
    Failed,
    /// The shutdown signal came.
    Interrupted,
    /// Waiting for the shutdown signal failed.
    SignalFailed,
    /// The lease ran out.
    LeaseExpired,
    /// The tunnel device stopped by itself.
    DeviceStopped,
}

/// What an endpoint does in a stage.
#[derive(Debug, PartialEq, Eq)]
pub enum ServiceAction {
    /// Make a TUN device of this name.
    CreateTun(String),
    /// Make the tunnel device.
    BuildDevice,
    /// Run this command.
    Run(CommandLine),
    /// Print this line.
    Print(String),
    /// Serve for at most so many seconds.
    Serve(u64),
    /// Stop the tunnel device.
    StopDevice,
    /// End.
    Finish(ServiceOutcome),
}

/// An action, its texts seen as sequences of characters.
pub enum ServiceActionView {
    CreateTun(Seq<char>),
    BuildDevice,
    Run(command::CommandLineView),
    Print(Seq<char>),
    Serve(u64),
    StopDevice,
    Finish(ServiceOutcome),
}

impl View for ServiceAction {
    type V = ServiceActionView;

    open spec fn view(&self) -> ServiceActionView {
        match *self {
            ServiceAction::CreateTun(name) => ServiceActionView::CreateTun(name@),
            ServiceAction::BuildDevice => ServiceActionView::BuildDevice,
            ServiceAction::Run(line) => ServiceActionView::Run(line@),
            ServiceAction::Print(line) => ServiceActionView::Print(line@),
            ServiceAction::Serve(seconds) => ServiceActionView::Serve(seconds),
            ServiceAction::StopDevice => ServiceActionView::StopDevice,
            ServiceAction::Finish(outcome) => ServiceActionView::Finish(outcome),
        }
    }
}

impl ServiceFailure {
    /// The words that go with the failure; nothing where the failure says it itself.
    pub open spec fn words(self) -> Option<Seq<char>> {
        match self {
            ServiceFailure::Tun => Some("failed to create TUN device"@),
            ServiceFailure::Device => Some("failed to build GotaTun device"@),
            ServiceFailure::Address => None,
            ServiceFailure::Link => None,
            ServiceFailure::Announcement => None,
            ServiceFailure::Signal => Some("failed to wait for shutdown signal"@),
            ServiceFailure::DeviceStopped => Some("GotaTun device stopped unexpectedly"@),
        }
    }

    /// The words that go with the failure; nothing where the failure says it itself.
    pub fn message(&self) -> (message: Option<String>)
        ensures
            text::optional_view(message) == self.words(),
    {
        match self {
            ServiceFailure::Tun => Some("failed to create TUN device".to_owned()),
            ServiceFailure::Device => Some("failed to build GotaTun device".to_owned()),
            ServiceFailure::Address => None,
            ServiceFailure::Link => None,
            ServiceFailure::Announcement => None,
            ServiceFailure::Signal => Some("failed to wait for shutdown signal".to_owned()),
            ServiceFailure::DeviceStopped => Some("GotaTun device stopped unexpectedly".to_owned()),
        }
    }
}

/// The stage behind one whose action either succeeded or failed.
pub open spec fn proceed(
    event: ServiceEvent,
    next: ServiceStage,
    failure: ServiceFailure,
) -> ServiceStage {
    if event is Done {
        next
    } else {
        ServiceStage::Finished(ServiceOutcome::Failed(failure))
    }
}

/// The stage behind an event. Up to the announcement, an action that does not succeed
/// ends the endpoint. An endpoint that serves stops when it is interrupted or its lease
/// runs out, and ends at once when its device has stopped or the signal cannot be waited
/// for.
pub open spec fn service_next(stage: ServiceStage, event: ServiceEvent) -> ServiceStage {
    match stage {
        ServiceStage::CreatingTun => proceed(
            event,
            ServiceStage::BuildingDevice,
            ServiceFailure::Tun,
        ),
        ServiceStage::BuildingDevice => proceed(
            event,
            ServiceStage::SettingAddress,
            ServiceFailure::Device,
        ),
        ServiceStage::SettingAddress => proceed(
            event,
            ServiceStage::SettingLink,
            ServiceFailure::Address,
        ),
        ServiceStage::SettingLink => proceed(event, ServiceStage::Announcing, ServiceFailure::Link),
        ServiceStage::Announcing => proceed(
            event,
            ServiceStage::Serving,
            ServiceFailure::Announcement,
        ),
        ServiceStage::Serving => match event {
            ServiceEvent::Interrupted => ServiceStage::Stopping,
            ServiceEvent::LeaseExpired => ServiceStage::Stopping,
            ServiceEvent::SignalFailed => ServiceStage::Finished(
                ServiceOutcome::Failed(ServiceFailure::Signal),
            ),
            ServiceEvent::DeviceStopped => ServiceStage::Finished(
                ServiceOutcome::Failed(ServiceFailure::DeviceStopped),
            ),
            ServiceEvent::Done => ServiceStage::Serving,
            ServiceEvent::Failed => ServiceStage::Serving,
        },
        ServiceStage::Stopping => ServiceStage::Finished(ServiceOutcome::Success),
        ServiceStage::Finished(outcome) => ServiceStage::Finished(outcome),
    }
}

/// The stage behind one whose action either succeeded or failed.
fn proceed_to(event: ServiceEvent, next: ServiceStage, failure: ServiceFailure) -> (stage:
    ServiceStage)
    ensures
        stage == proceed(event, next, failure),
{
    match event {
        ServiceEvent::Done => next,
        _ => ServiceStage::Finished(ServiceOutcome::Failed(failure)),
    }
}

/// The stage behind an event.
pub fn next_service_stage(stage: ServiceStage, event: ServiceEvent) -> (next: ServiceStage)
    ensures
        next == service_next(stage, event),
{
    match stage {
        ServiceStage::CreatingTun => proceed_to(
            event,
            ServiceStage::BuildingDevice,
            ServiceFailure::Tun,
        ),
        ServiceStage::BuildingDevice => proceed_to(
            event,
            ServiceStage::SettingAddress,
            ServiceFailure::Device,
        ),
        ServiceStage::SettingAddress => proceed_to(
            event,
            ServiceStage::SettingLink,
            ServiceFailure::Address,
        ),
        ServiceStage::SettingLink => proceed_to(
            event,
            ServiceStage::Announcing,
            ServiceFailure::Link,
        ),
        ServiceStage::Announcing => proceed_to(
            event,
            ServiceStage::Serving,
            ServiceFailure::Announcement,
        ),
        ServiceStage::Serving => match event {
            ServiceEvent::Interrupted => ServiceStage::Stopping,
            ServiceEvent::LeaseExpired => ServiceStage::Stopping,
            ServiceEvent::SignalFailed => ServiceStage::Finished(
                ServiceOutcome::Failed(ServiceFailure::Signal),
            ),
            ServiceEvent::DeviceStopped => ServiceStage::Finished(
                ServiceOutcome::Failed(ServiceFailure::DeviceStopped),
            ),
            ServiceEvent::Done => ServiceStage::Serving,
            ServiceEvent::Failed => ServiceStage::Serving,
        },
        ServiceStage::Stopping => ServiceStage::Finished(ServiceOutcome::Success),
        ServiceStage::Finished(outcome) => ServiceStage::Finished(outcome),
    }
}

/// What an endpoint does in a stage; `pid` is its own process.
pub open spec fn service_action(plan: EndpointPlanView, pid: u32, stage: ServiceStage) ->
    ServiceActionView {
    match stage {
        ServiceStage::CreatingTun => ServiceActionView::CreateTun(plan.interface),
        ServiceStage::BuildingDevice => ServiceActionView::BuildDevice,
        ServiceStage::SettingAddress => ServiceActionView::Run(
            command::address_command(plan.tunnel_address, plan.interface),
        ),
        ServiceStage::SettingLink => ServiceActionView::Run(
            command::link_command(plan.interface, plan.mtu),
        ),
        ServiceStage::Announcing => ServiceActionView::Print(readiness::ready_text(pid)),
        ServiceStage::Serving => ServiceActionView::Serve(plan.lease_seconds),
        ServiceStage::Stopping => ServiceActionView::StopDevice,
        ServiceStage::Finished(outcome) => ServiceActionView::Finish(outcome),
    }
}

/// What an endpoint does in a stage; `pid` is its own process.
pub fn run_endpoint(plan: &EndpointPlan, pid: u32, stage: ServiceStage) -> (action: ServiceAction)
    ensures
        action@ == service_action(plan@, pid, stage),
{
    match stage {
        ServiceStage::CreatingTun => ServiceAction::CreateTun(plan.interface.clone()),
        ServiceStage::BuildingDevice => ServiceAction::BuildDevice,
        ServiceStage::SettingAddress => ServiceAction::Run(
            command::set_address(&plan.tunnel_address, plan.interface.as_str()),
        ),
        ServiceStage::SettingLink => ServiceAction::Run(
            command::set_link_up(plan.interface.as_str(), plan.mtu),
        ),
        ServiceStage::Announcing => ServiceAction::Print(readiness::ready_line(pid)),
        ServiceStage::Serving => ServiceAction::Serve(plan.lease_seconds),
        ServiceStage::Stopping => ServiceAction::StopDevice,
        ServiceStage::Finished(outcome) => ServiceAction::Finish(outcome),
    }
}

/// The stage behind a series of events.
pub open spec fn service_after(stage: ServiceStage, events: Seq<ServiceEvent>) -> ServiceStage
    decreases events.len(),
{
    if events.len() == 0 {
        stage
    } else {
        service_next(service_after(stage, events.drop_last()), events.last())
    }
}

/// How many actions have succeeded before a stage on the way to the announcement.
pub open spec fn actions_before(stage: ServiceStage) -> Option<nat> {
    match stage {
        ServiceStage::CreatingTun => Some(0),
        ServiceStage::BuildingDevice => Some(1),
        ServiceStage::SettingAddress => Some(2),
        ServiceStage::SettingLink => Some(3),
        ServiceStage::Announcing => Some(4),
        _ => None,
    }
}

/// An endpoint announces itself, serves, stops or ends well only after the actions before
/// it have all succeeded: the devices exist, and the interface has its address and is on.
pub proof fn announced_means_set_up(events: Seq<ServiceEvent>)
    ensures
        ({
            let stage = service_after(ServiceStage::CreatingTun, events);
            &&& actions_before(stage) is Some ==> events.len() == actions_before(stage).unwrap()
                && forall|i: int| 0 <= i < events.len() ==> #[trigger] events[i] is Done
            &&& stage is Serving || stage is Stopping || stage == ServiceStage::Finished(
                ServiceOutcome::Success,
            ) ==> events.len() >= 5 && forall|i: int| 0 <= i < 5 ==> #[trigger] events[i] is Done
        }),
    decreases events.len(),
{
    if events.len() > 0 {
        let before = events.drop_last();
        announced_means_set_up(before);
        assert forall|i: int| 0 <= i < before.len() implies before[i] == #[trigger] events[i] by {}
    }
}

/// An endpoint ends well only by stopping its device, and it stops its device only when
/// it served and was interrupted or its lease ran out.
pub proof fn success_means_stopped(stage: ServiceStage, event: ServiceEvent)
    ensures
        stage !is Finished && service_next(stage, event) == ServiceStage::Finished(
            ServiceOutcome::Success,
        ) ==> stage is Stopping,
        service_next(stage, event) is Stopping ==> stage is Serving && (event is Interrupted
            || event is LeaseExpired),
{
}

/// An endpoint that has ended stays as it ended.
pub proof fn finished_service_stays(outcome: ServiceOutcome, events: Seq<ServiceEvent>)
    ensures
        service_after(ServiceStage::Finished(outcome), events) == ServiceStage::Finished(outcome),
    decreases events.len(),
{
    if events.len() > 0 {
        finished_service_stays(outcome, events.drop_last());
    }
}

/// An endpoint can work with its arguments exactly if its three keys can be read, and then
/// works with these keys and with everything else as it was given; the other endpoint may use
/// its own tunnel address and no other.
pub proof fn plan_takes_over_the_arguments(args: endpoint::EndpointArgsView)
    ensures
        plan_read(args) is Ok <==> keys::key_read(args.private_key) is Ok && keys::key_read(
            args.peer_public_key,
        ) is Ok && keys::key_read(args.preshared_key) is Ok,
        plan_read(args) matches Ok(plan) ==> {
            &&& keys::key_read(args.private_key) == Ok::<Seq<u8>, KeyError>(plan.private_key)
            &&& keys::key_read(args.peer_public_key) == Ok::<Seq<u8>, KeyError>(
                plan.peer_public_key,
            )
            &&& keys::key_read(args.preshared_key) == Ok::<Seq<u8>, KeyError>(plan.preshared_key)
            &&& plan.peer_endpoint == args.peer_endpoint
            &&& plan.allowed_network.ip == IpAddr::V4(args.peer_tunnel_address)
            &&& plan.allowed_network.prefix == 32
            &&& plan.interface == args.interface
            &&& plan.tunnel_address == args.tunnel_address
            &&& plan.listen_port == args.listen_port
            &&& plan.mtu == args.mtu
            &&& plan.lease_seconds == args.lease_seconds
        },
{
}

/// Where a key cannot be read, the fault is that of the first of them: the endpoint's own,
/// then that of the other, then the shared one.
pub proof fn first_bad_key_is_told(args: endpoint::EndpointArgsView, error: KeyError)
    ensures
        ({
            let own = keys::key_read(args.private_key);
            let other = keys::key_read(args.peer_public_key);
            let shared = keys::key_read(args.preshared_key);
            let fault = Err::<Seq<u8>, KeyError>(error);
            let result = plan_read(args);
            &&& result == Err::<EndpointPlanView, EndpointError>(EndpointError::PrivateKey(error))
                <==> own == fault
            &&& result == Err::<EndpointPlanView, EndpointError>(
                EndpointError::PeerPublicKey(error),
            ) <==> own is Ok && other == fault
            &&& result == Err::<EndpointPlanView, EndpointError>(EndpointError::PresharedKey(error))
                <==> own is Ok && other is Ok && shared == fault
        }),
{
}

/// What an endpoint does in each stage, whatever its plan is. It makes a TUN device of the
/// name of the interface, then the tunnel device; it gives the interface its tunnel address,
/// then its MTU; it prints the line that tells its process; it serves for the length of its
/// lease, and stops its device.
pub proof fn endpoint_does_what_its_plan_says(plan: EndpointPlanView, pid: u32)
    ensures
        service_action(plan, pid, ServiceStage::CreatingTun) == ServiceActionView::CreateTun(
            plan.interface,
        ),
        service_action(plan, pid, ServiceStage::BuildingDevice) is BuildDevice,
        service_action(plan, pid, ServiceStage::SettingAddress) matches ServiceActionView::Run(line)
            && command::words_here(line) matches Some(words) && words.len() == 6 && words[0]
            == "ip"@ && words[1] == "address"@ && words[2] == "replace"@ && words[4] == "dev"@
            && words[5] == plan.interface && {
            let fields = text::split(words[3], '/');
            &&& fields.len() == 2
            &&& address::ipv4_read(fields[0]) == Some(plan.tunnel_address)
            &&& numeral::is_numeral_of(fields[1], 24)
        },
        service_action(plan, pid, ServiceStage::SettingLink) matches ServiceActionView::Run(line)
            && command::words_here(line) matches Some(words) && words.len() == 8 && words[0]
            == "ip"@ && words[1] == "link"@ && words[2] == "set"@ && words[3] == "dev"@ && words[4]
            == plan.interface && words[5] == "mtu"@ && words[7] == "up"@ && numeral::is_numeral_of(
            words[6],
            plan.mtu as int,
        ) && numeral::number_read(words[6], u16::MAX as int) == Ok::<int, numeral::NumberError>(
            plan.mtu as int,
        ),
        service_action(plan, pid, ServiceStage::Announcing) matches ServiceActionView::Print(line)
            && readiness::line_read(line) == readiness::ReadyStep::Ready(pid) && {
            let fields = text::split(line, ' ');
            &&& fields.len() == 2
            &&& fields[0] == "BENCHY_READY"@
            &&& numeral::is_numeral_of(fields[1], pid as int)
        },
        service_action(plan, pid, ServiceStage::Serving) == ServiceActionView::Serve(
            plan.lease_seconds,
        ),
        service_action(plan, pid, ServiceStage::Stopping) is StopDevice,
{
    command::interface_gets_the_given_address(plan.tunnel_address, plan.interface);
    command::interface_gets_the_given_mtu(plan.interface, plan.mtu);
    readiness::ready_line_reads_back(pid);
    readiness::ready_line_is_word_and_process(pid);
}

/// What an endpoint ends with is how it ended.
pub proof fn endpoint_ends_as_it_ended(plan: EndpointPlanView, pid: u32, outcome: ServiceOutcome)
    ensures
        service_action(plan, pid, ServiceStage::Finished(outcome)) == ServiceActionView::Finish(
            outcome,
        ),
{
}

/// The command that turns the interface on depends on the interface and its MTU alone, and
/// on both: two plans give the same command exactly if they agree on them, whatever else they
/// differ in. The command that gives the interface its address depends in the same way on the
/// interface and the tunnel address.
pub proof fn commands_depend_on_their_part_of_the_plan(
    a: EndpointPlanView,
    b: EndpointPlanView,
    p: u32,
    q: u32,
)
    ensures
        service_action(a, p, ServiceStage::SettingLink) == service_action(
            b,
            q,
            ServiceStage::SettingLink,
        ) <==> a.interface == b.interface && a.mtu == b.mtu,
        service_action(a, p, ServiceStage::SettingAddress) == service_action(
            b,
            q,
            ServiceStage::SettingAddress,
        ) <==> a.interface == b.interface && a.tunnel_address == b.tunnel_address,
        service_action(a, p, ServiceStage::Announcing) == service_action(
            b,
            q,
            ServiceStage::Announcing,
        ) <==> p == q,
{
    endpoint_does_what_its_plan_says(a, p);
    endpoint_does_what_its_plan_says(b, q);
}

/// The stage behind so many steps of the set-up that succeeded.
pub open spec fn set_up_stage(n: int) -> ServiceStage {
    if n == 0 {
        ServiceStage::CreatingTun
    } else if n == 1 {
        ServiceStage::BuildingDevice
    } else if n == 2 {
        ServiceStage::SettingAddress
    } else if n == 3 {
        ServiceStage::SettingLink
    } else if n == 4 {
        ServiceStage::Announcing
    } else {
        ServiceStage::Serving
    }
}

/// An endpoint sets itself up in five steps: device by device, then address, link and
/// announcement, then it serves. A step that does anything but succeed ends it with the
/// failure of that step, whatever follows.
pub proof fn endpoint_is_set_up_step_by_step(events: Seq<ServiceEvent>, n: int)
    requires
        0 <= n <= 5,
        n <= events.len(),
        forall|i: int| 0 <= i < n ==> #[trigger] events[i] is Done,
    ensures
        service_after(ServiceStage::CreatingTun, events.take(n)) == set_up_stage(n),
        n < 5 && n < events.len() && !(events[n] is Done) ==> service_after(
            ServiceStage::CreatingTun,
            events,
        ) == ServiceStage::Finished(
            ServiceOutcome::Failed(
                if n == 0 {
                    ServiceFailure::Tun
                } else if n == 1 {
                    ServiceFailure::Device
                } else if n == 2 {
                    ServiceFailure::Address
                } else if n == 3 {
                    ServiceFailure::Link
                } else {
                    ServiceFailure::Announcement
                },
            ),
        ),
    decreases n,
{
    let start = ServiceStage::CreatingTun;
    if n > 0 {
        endpoint_is_set_up_step_by_step(events, n - 1);
        assert(events.take(n).drop_last() == events.take(n - 1));
        assert(events.take(n).last() == events[n - 1]);
    } else {
        assert(events.take(0) == Seq::<ServiceEvent>::empty());
    }
    if n < 5 && n < events.len() && !(events[n] is Done) {
        let first = events.take(n + 1);
        assert(first.drop_last() == events.take(n));
        assert(first.last() == events[n]);
        lemma_ended_stays(start, events, n + 1);
    }
}

/// Once an endpoint has ended, later events change nothing.
proof fn lemma_ended_stays(start: ServiceStage, events: Seq<ServiceEvent>, n: int)
    requires
        0 <= n <= events.len(),
        service_after(start, events.take(n)) is Finished,
    ensures
        service_after(start, events) == service_after(start, events.take(n)),
    decreases events.len() - n,
{
    if n == events.len() {
        assert(events.take(n) == events);
    } else {
        let longer = events.take(n + 1);
        assert(longer.drop_last() == events.take(n));
        lemma_ended_stays(start, events, n + 1);
    }
}

/// An endpoint that serves goes on until the shutdown signal comes or its lease runs out, on
/// which it stops its device and ends well whatever comes of that; where the signal cannot be
/// waited for, or the device has stopped by itself, it fails for that reason.
pub proof fn serving_ends_for_its_reason(event: ServiceEvent, next: ServiceEvent)
    ensures
        event is Interrupted || event is LeaseExpired ==> service_next(
            service_next(ServiceStage::Serving, event),
            next,
        ) == ServiceStage::Finished(ServiceOutcome::Success) && service_next(
            ServiceStage::Serving,
            event,
        ) is Stopping,
        event is SignalFailed ==> service_next(ServiceStage::Serving, event)
            == ServiceStage::Finished(ServiceOutcome::Failed(ServiceFailure::Signal)),
        event is DeviceStopped ==> service_next(ServiceStage::Serving, event)
            == ServiceStage::Finished(ServiceOutcome::Failed(ServiceFailure::DeviceStopped)),
        event is Done || event is Failed ==> service_next(ServiceStage::Serving, event) is Serving,
{
}

/// Only what no other program tells of itself is put into words: the failures of the commands
/// and of the announcement are left to speak for themselves.
pub proof fn failures_of_commands_speak_for_themselves(failure: ServiceFailure)
    ensures
        failure.words() is None <==> failure is Address || failure is Link
            || failure is Announcement,
{
}

/// What an endpoint works with is seen with all its fields, and a fault as itself.
pub proof fn endpoint_plan_is_seen_as_it_is(plan: EndpointPlan, error: EndpointError)
    ensures
        plan@.private_key == plan.private_key@,
        plan@.peer_public_key == plan.peer_public_key@,
        plan@.preshared_key == plan.preshared_key@,
        plan@.peer_endpoint == plan.peer_endpoint@,
        plan@.allowed_network == plan.allowed_network,
        plan@.interface == plan.interface@,
        plan@.tunnel_address == plan.tunnel_address,
        plan@.listen_port == plan.listen_port,
        plan@.mtu == plan.mtu,
        plan@.lease_seconds == plan.lease_seconds,
        plan_view(Ok(plan)) == Ok::<EndpointPlanView, EndpointError>(plan@),
        plan_view(Err(error)) == Err::<EndpointPlanView, EndpointError>(error),
{
}

/// An action of an endpoint is seen with what it is done with.
pub proof fn endpoint_actions_are_seen_as_they_are(
    text: String,
    line: CommandLine,
    seconds: u64,
    outcome: ServiceOutcome,
)
    ensures
        ServiceAction::CreateTun(text)@ == ServiceActionView::CreateTun(text@),
        ServiceAction::BuildDevice@ is BuildDevice,
        ServiceAction::Run(line)@ == ServiceActionView::Run(line@),
        ServiceAction::Print(text)@ == ServiceActionView::Print(text@),
        ServiceAction::Serve(seconds)@ == ServiceActionView::Serve(seconds),
        ServiceAction::StopDevice@ is StopDevice,
        ServiceAction::Finish(outcome)@ == ServiceActionView::Finish(outcome),
{
}

} // verus!
