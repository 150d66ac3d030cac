use gotatun_throughput::address::{IpAddr, Ipv4Addr, SocketAddr};
use gotatun_throughput::command::{
    append_endpoint_args, deploy, iperf_client, iperf_server, set_address, set_link_up,
    spawn_local_endpoint, spawn_remote_endpoint, stop_endpoint, tunnel_probe, CommandArg,
    CommandLine, DeployStep,
};
use gotatun_throughput::endpoint::{append_endpoint_values, EndpointArgs};

fn text(value: &str) -> CommandArg {
    CommandArg::Text(value.to_owned())
}

fn plain(program: &str, args: &[&str]) -> CommandLine {
    CommandLine {
        program: program.to_owned(),
        args: args.iter().map(|arg| text(arg)).collect(),
    }
}

fn args() -> EndpointArgs {
    EndpointArgs {
        interface: "bench0".to_owned(),
        private_key: "aa".to_owned(),
        peer_public_key: "bb".to_owned(),
        preshared_key: "cc".to_owned(),
        peer_endpoint: SocketAddr::new(IpAddr::V4(Ipv4Addr::new(10, 0, 0, 2)), 51821),
        tunnel_address: Ipv4Addr::new(10, 0, 1, 1),
        peer_tunnel_address: Ipv4Addr::new(10, 0, 1, 2),
        listen_port: 51821,
        mtu: 1440,
        lease_seconds: 150,
    }
}

const VALUES: [&str; 20] = [
    "--interface",
    "bench0",
    "--private-key",
    "aa",
    "--peer-public-key",
    "bb",
    "--preshared-key",
    "cc",
    "--peer-endpoint",
    "10.0.0.2:51821",
    "--tunnel-address",
    "10.0.1.1",
    "--peer-tunnel-address",
    "10.0.1.2",
    "--listen-port",
    "51821",
    "--mtu",
    "1440",
    "--lease-seconds",
    "150",
];

#[test]
fn endpoint_values_follow_what_is_there() {
    let mut values = vec!["endpoint".to_owned()];
    append_endpoint_values(&mut values, &args());
    assert_eq!(values[0], "endpoint");
    assert_eq!(values[1..], VALUES);
}

#[test]
fn endpoint_args_follow_those_of_the_command() {
    let mut command = plain("p", &["x"]);
    append_endpoint_args(&mut command, &args());
    assert_eq!(command.program, "p");
    assert_eq!(command.args.len(), 21);
    assert_eq!(command.args[0], text("x"));
    assert_eq!(command.args[1], text("--interface"));
    assert_eq!(command.args[20], text("150"));
}

#[test]
fn local_endpoint_runs_this_executable() {
    let line = spawn_local_endpoint(&args());
    assert_eq!(line.program, "sudo");
    assert_eq!(line.args[0], text("-n"));
    assert_eq!(line.args[1], CommandArg::Executable);
    assert_eq!(line.args[2], text("endpoint"));
    let values: Vec<CommandArg> = VALUES.iter().map(|value| text(value)).collect();
    assert_eq!(line.args[3..], values);
}

#[test]
fn remote_endpoint_runs_in_a_shell_on_the_peer() {
    let line = spawn_remote_endpoint("mole@peer", "/tmp/benchy-1/gotatun-throughput", &args());
    let quoted: Vec<String> = VALUES.iter().map(|value| format!("'{value}'")).collect();
    let command = format!(
        "sudo -n '/tmp/benchy-1/gotatun-throughput' 'endpoint' {}",
        quoted.join(" ")
    );
    assert_eq!(line, plain("ssh", &["mole@peer", command.as_str()]));
}

#[test]
fn executable_is_deployed_in_three_steps() {
    let dir = "/tmp/it's";
    let file = "/tmp/it's/gotatun-throughput";
    assert_eq!(
        deploy(DeployStep::MakeDirectory, "mole@peer", dir, file),
        plain("ssh", &["mole@peer", "mkdir -p '/tmp/it'\\''s'"])
    );
    assert_eq!(
        deploy(DeployStep::CopyExecutable, "mole@peer", dir, file),
        CommandLine {
            program: "scp".to_owned(),
            args: vec![
                CommandArg::Executable,
                text("mole@peer:/tmp/it's/gotatun-throughput"),
            ],
        }
    );
    assert_eq!(
        deploy(DeployStep::AllowExecution, "mole@peer", dir, file),
        plain("ssh", &["mole@peer", "chmod 755 '/tmp/it'\\''s/gotatun-throughput'"])
    );
}

#[test]
fn measurement_runs_through_the_tunnel() {
    let address = Ipv4Addr::new(10, 0, 1, 1);
    assert_eq!(
        iperf_server(&address, 5201),
        plain("iperf3", &["--server", "--bind", "10.0.1.1", "--port", "5201"])
    );
    assert_eq!(
        iperf_client("mole@peer", &address, 5201, 30),
        plain(
            "ssh",
            &[
                "mole@peer",
                "'iperf3' '--client' '10.0.1.1' '--port' '5201' '--time' '30' '--json'",
            ]
        )
    );
    assert_eq!(
        tunnel_probe("mole@peer", &address),
        plain("ssh", &["mole@peer", "'ping' '-c' '1' '-W' '1' '10.0.1.1'"])
    );
}

#[test]
fn endpoints_are_interrupted_where_they_run() {
    assert_eq!(stop_endpoint(None, 77), plain("sudo", &["-n", "kill", "-INT", "77"]));
    assert_eq!(
        stop_endpoint(Some("mole@peer"), 4294967295),
        plain("ssh", &["mole@peer", "'sudo' '-n' 'kill' '-INT' '4294967295'"])
    );
}

#[test]
fn interface_gets_its_address_and_mtu() {
    assert_eq!(
        set_address(&Ipv4Addr::new(10, 0, 1, 2), "bench0"),
        plain("ip", &["address", "replace", "10.0.1.2/24", "dev", "bench0"])
    );
    assert_eq!(
        set_link_up("bench0", 1440),
        plain("ip", &["link", "set", "dev", "bench0", "mtu", "1440", "up"])
    );
}
