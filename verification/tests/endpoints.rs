use gotatun_throughput::address::{IpAddr, Ipv4Addr, SocketAddr};
use gotatun_throughput::config::{controller_config, ControllerConfig};
use gotatun_throughput::endpoint::EndpointArgs;
use gotatun_throughput::keys::{decode_key, encode_key, public_key, HexError, KeyError};
use gotatun_throughput::readiness::{
    read_line, ready_line, wait_ready, ReadyError, ReadyEvent, ReadyStep, READY_MARKER,
};
use gotatun_throughput::numeral::NumberError;
use gotatun_throughput::service::{
    allowed_network, endpoint_plan, next_service_stage, run_endpoint, EndpointError, IpNetwork,
    ServiceAction, ServiceEvent, ServiceFailure, ServiceOutcome, ServiceStage, UDP_BUFFER_SIZE,
};
use gotatun_throughput::session::{
    endpoint_pair, new_endpoint_pair, remote_dir, remote_executable, run_keys, RunKeys,
};

fn config() -> ControllerConfig {
    controller_config(&[]).unwrap()
}

#[test]
fn endpoints_mirror_each_other() {
    let (alice, bob, shared) = ([1u8; 32], [2u8; 32], [3u8; 32]);
    let pair = endpoint_pair(&config(), &run_keys(alice, bob, shared));
    let local = EndpointArgs {
        interface: "bench0".to_owned(),
        private_key: "01".repeat(32),
        peer_public_key: encode_key(&public_key(&bob)),
        preshared_key: "03".repeat(32),
        peer_endpoint: SocketAddr::new(IpAddr::V4(Ipv4Addr::new(10, 0, 0, 2)), 51821),
        tunnel_address: Ipv4Addr::new(10, 0, 1, 1),
        peer_tunnel_address: Ipv4Addr::new(10, 0, 1, 2),
        listen_port: 51821,
        mtu: 1440,
        lease_seconds: 150,
    };
    let remote = EndpointArgs {
        private_key: "02".repeat(32),
        peer_public_key: encode_key(&public_key(&alice)),
        peer_endpoint: SocketAddr::new(IpAddr::V4(Ipv4Addr::new(10, 0, 0, 1)), 51821),
        tunnel_address: local.peer_tunnel_address,
        peer_tunnel_address: local.tunnel_address,
        ..local.clone()
    };
    assert_eq!(pair.local, local);
    assert_eq!(pair.remote, remote);
}

#[test]
fn every_run_has_keys_of_its_own() {
    let first = new_endpoint_pair(&config());
    let second = new_endpoint_pair(&config());
    for pair in [&first, &second] {
        let alice = decode_key(&pair.local.private_key).unwrap();
        let bob = decode_key(&pair.remote.private_key).unwrap();
        assert_eq!(decode_key(&pair.local.peer_public_key), Ok(public_key(&bob)));
        assert_eq!(decode_key(&pair.remote.peer_public_key), Ok(public_key(&alice)));
        assert_eq!(pair.local.preshared_key, pair.remote.preshared_key);
        assert_ne!(alice, bob);
        assert!(endpoint_plan(&pair.local).is_ok());
        assert!(endpoint_plan(&pair.remote).is_ok());
    }
    assert_ne!(first.local.private_key, second.local.private_key);
    assert_ne!(first.remote.private_key, second.remote.private_key);
    assert_ne!(first.local.preshared_key, second.local.preshared_key);
}

#[test]
fn keys_of_a_run_go_where_they_belong() {
    let keys = RunKeys {
        alice_private: [1; 32],
        alice_public: [2; 32],
        bob_private: [3; 32],
        bob_public: [4; 32],
        preshared_key: [5; 32],
    };
    let pair = endpoint_pair(&config(), &keys);
    assert_eq!(pair.local.private_key, "01".repeat(32));
    assert_eq!(pair.local.peer_public_key, "04".repeat(32));
    assert_eq!(pair.remote.private_key, "03".repeat(32));
    assert_eq!(pair.remote.peer_public_key, "02".repeat(32));
    assert_eq!(pair.local.preshared_key, "05".repeat(32));
    let made = run_keys([1; 32], [3; 32], [5; 32]);
    assert_eq!((made.alice_private, made.bob_private, made.preshared_key), ([1; 32], [3; 32], [5; 32]));
    assert_eq!((made.alice_public, made.bob_public), (public_key(&[1; 32]), public_key(&[3; 32])));
}

#[test]
fn paths_on_the_peer_name_the_run() {
    assert_eq!(remote_dir("42"), "/tmp/benchy-42");
    assert_eq!(remote_executable("/tmp/benchy-42"), "/tmp/benchy-42/gotatun-throughput");
}

#[test]
fn peer_may_use_its_own_address_only() {
    let ip = Ipv4Addr::new(10, 0, 1, 2);
    assert_eq!(allowed_network(&ip), Ok(IpNetwork { ip: IpAddr::V4(ip), prefix: 32 }));
}

#[test]
fn endpoint_works_with_its_arguments() {
    let pair = endpoint_pair(&config(), &run_keys([1; 32], [2; 32], [3; 32]));
    let plan = endpoint_plan(&pair.local).unwrap();
    assert_eq!(plan.private_key, [1u8; 32]);
    assert_eq!(plan.peer_public_key, public_key(&[2u8; 32]));
    assert_eq!(plan.preshared_key, [3u8; 32]);
    assert_eq!(
        plan.allowed_network,
        IpNetwork { ip: IpAddr::V4(Ipv4Addr::new(10, 0, 1, 2)), prefix: 32 }
    );
    assert_eq!(plan.peer_endpoint, pair.local.peer_endpoint);
    assert_eq!(plan.interface, "bench0");
    assert_eq!(plan.tunnel_address, Ipv4Addr::new(10, 0, 1, 1));
    assert_eq!((plan.listen_port, plan.mtu, plan.lease_seconds), (51821, 1440, 150));
    assert_eq!(UDP_BUFFER_SIZE, 7 * 1024 * 1024);
}

#[test]
fn first_unreadable_key_is_reported() {
    let mut args = endpoint_pair(&config(), &run_keys([1; 32], [2; 32], [3; 32])).remote;
    args.preshared_key = "00".to_owned();
    assert_eq!(
        endpoint_plan(&args),
        Err(EndpointError::PresharedKey(KeyError::WrongLength))
    );
    args.peer_public_key = "zz".to_owned();
    let error = KeyError::InvalidHexadecimal(HexError::InvalidHexCharacter { c: 'z', index: 0 });
    assert_eq!(endpoint_plan(&args), Err(EndpointError::PeerPublicKey(error)));
    args.private_key = "1".to_owned();
    assert_eq!(
        endpoint_plan(&args),
        Err(EndpointError::PrivateKey(KeyError::InvalidHexadecimal(HexError::OddLength)))
    );
}

#[test]
fn endpoint_announces_itself_when_it_is_set_up() {
    let plan = endpoint_plan(&endpoint_pair(&config(), &run_keys([1; 32], [2; 32], [3; 32])).local).unwrap();
    let mut stage = ServiceStage::CreatingTun;
    let mut actions: Vec<ServiceAction> = Vec::new();
    for _ in 0..5 {
        actions.push(run_endpoint(&plan, 7, stage));
        stage = next_service_stage(stage, ServiceEvent::Done);
    }
    assert_eq!(actions[0], ServiceAction::CreateTun("bench0".to_owned()));
    assert_eq!(actions[1], ServiceAction::BuildDevice);
    assert!(matches!(&actions[2], ServiceAction::Run(line) if line.program == "ip"));
    assert!(matches!(&actions[3], ServiceAction::Run(line) if line.args.len() == 7));
    assert_eq!(actions[4], ServiceAction::Print("BENCHY_READY 7".to_owned()));
    assert_eq!(stage, ServiceStage::Serving);
    assert_eq!(run_endpoint(&plan, 7, stage), ServiceAction::Serve(150));
    for event in [ServiceEvent::Interrupted, ServiceEvent::LeaseExpired] {
        let stopping = next_service_stage(stage, event);
        assert_eq!(run_endpoint(&plan, 7, stopping), ServiceAction::StopDevice);
        let finished = next_service_stage(stopping, ServiceEvent::Done);
        assert_eq!(
            run_endpoint(&plan, 7, finished),
            ServiceAction::Finish(ServiceOutcome::Success)
        );
    }
}

#[test]
fn endpoint_failures_end_it() {
    let cases = [
        (ServiceStage::CreatingTun, ServiceEvent::Failed, ServiceFailure::Tun),
        (ServiceStage::BuildingDevice, ServiceEvent::Failed, ServiceFailure::Device),
        (ServiceStage::SettingAddress, ServiceEvent::Failed, ServiceFailure::Address),
        (ServiceStage::SettingLink, ServiceEvent::Failed, ServiceFailure::Link),
        (ServiceStage::Announcing, ServiceEvent::Failed, ServiceFailure::Announcement),
        (ServiceStage::Serving, ServiceEvent::SignalFailed, ServiceFailure::Signal),
        (ServiceStage::Serving, ServiceEvent::DeviceStopped, ServiceFailure::DeviceStopped),
    ];
    for (stage, event, failure) in cases {
        assert_eq!(
            next_service_stage(stage, event),
            ServiceStage::Finished(ServiceOutcome::Failed(failure))
        );
    }
    let words = |failure: ServiceFailure| failure.message();
    assert_eq!(words(ServiceFailure::Tun).unwrap(), "failed to create TUN device");
    assert_eq!(words(ServiceFailure::Device).unwrap(), "failed to build GotaTun device");
    assert_eq!(words(ServiceFailure::Signal).unwrap(), "failed to wait for shutdown signal");
    assert_eq!(
        words(ServiceFailure::DeviceStopped).unwrap(),
        "GotaTun device stopped unexpectedly"
    );
    assert_eq!(words(ServiceFailure::Address), None);
}

#[test]
fn ready_lines_are_read_back() {
    assert_eq!(READY_MARKER, "BENCHY_READY");
    for pid in [0, 1, 4711, u32::MAX] {
        assert_eq!(read_line(&ready_line(pid)), ReadyStep::Ready(pid));
    }
    assert_eq!(ready_line(4711), "BENCHY_READY 4711");
}

#[test]
fn other_lines_are_skipped() {
    for line in ["", "BENCHY_READY", "benchy_ready 1", " BENCHY_READY 1", "BENCHY_READY\t1", "log"] {
        assert_eq!(read_line(line), ReadyStep::Wait, "{line:?}");
    }
}

#[test]
fn marked_lines_must_hold_a_process() {
    let failed = |error| ReadyStep::Failed(ReadyError::InvalidPid(error));
    assert_eq!(read_line("BENCHY_READY "), failed(NumberError::Empty));
    assert_eq!(read_line("BENCHY_READY 1 "), failed(NumberError::InvalidDigit));
    assert_eq!(read_line("BENCHY_READY 4294967296"), failed(NumberError::PosOverflow));
    assert_eq!(read_line("BENCHY_READY +12"), ReadyStep::Ready(12));
}

#[test]
fn waiting_ends_without_a_marked_line() {
    let step = |event| wait_ready(&event);
    let failed = ReadyStep::Failed;
    assert_eq!(step(ReadyEvent::Line("log".to_owned())), ReadyStep::Wait);
    assert_eq!(step(ReadyEvent::Line("BENCHY_READY 5".to_owned())), ReadyStep::Ready(5));
    assert_eq!(step(ReadyEvent::NotCaptured), failed(ReadyError::NotCaptured));
    assert_eq!(step(ReadyEvent::Closed), failed(ReadyError::Exited));
    assert_eq!(step(ReadyEvent::ReadFailed), failed(ReadyError::ReadFailed));
    assert_eq!(step(ReadyEvent::TimedOut), failed(ReadyError::TimedOut));
    let words = |error: ReadyError| error.message();
    assert_eq!(words(ReadyError::NotCaptured).unwrap(), "endpoint stdout was not captured");
    assert_eq!(words(ReadyError::Exited).unwrap(), "endpoint exited before becoming ready");
    assert_eq!(words(ReadyError::TimedOut).unwrap(), "timed out waiting for endpoint readiness");
    assert_eq!(
        words(ReadyError::InvalidPid(NumberError::Empty)).unwrap(),
        "endpoint returned an invalid PID"
    );
    assert_eq!(words(ReadyError::ReadFailed), None);
}
