use gotatun_throughput::address::{AddrParseError, IpAddr, Ipv4Addr, Ipv6Addr};
use gotatun_throughput::config::{
    controller_config, env_value, recorded_parameters, run_id, ConfigError, ControllerConfig, EnvVar,
    Parameter,
};
use gotatun_throughput::numeral::NumberError;

fn env(vars: &[(&str, &str)]) -> Vec<EnvVar> {
    vars.iter()
        .map(|(name, value)| EnvVar { name: (*name).to_owned(), value: (*value).to_owned() })
        .collect()
}

fn default_config() -> ControllerConfig {
    ControllerConfig {
        peer: "mole@10.0.0.2".to_owned(),
        alice_address: IpAddr::V4(Ipv4Addr::new(10, 0, 0, 1)),
        bob_address: IpAddr::V4(Ipv4Addr::new(10, 0, 0, 2)),
        interface: "bench0".to_owned(),
        listen_port: 51821,
        iperf_port: 5201,
        duration: 30,
        mtu: 1440,
    }
}

#[test]
fn unset_variables_have_defaults() {
    assert_eq!(controller_config(&[]), Ok(default_config()));
}

#[test]
fn empty_variables_have_defaults() {
    let vars = env(&[
        ("BENCHY_PEER", ""),
        ("BENCHY_ALICE_ADDRESS", ""),
        ("BENCHY_BOB_ADDRESS", ""),
        ("BENCHY_INTERFACE", ""),
        ("BENCHY_WIREGUARD_PORT", ""),
        ("BENCHY_IPERF_PORT", ""),
        ("BENCHY_DURATION", ""),
        ("BENCHY_MTU", ""),
    ]);
    assert_eq!(controller_config(&vars), Ok(default_config()));
}

#[test]
fn set_variables_are_read() {
    let vars = env(&[
        ("HOME", "/root"),
        ("BENCHY_PEER", "root@peer"),
        ("BENCHY_ALICE_ADDRESS", "::1"),
        ("BENCHY_BOB_ADDRESS", "192.0.2.7"),
        ("BENCHY_INTERFACE", "wg7"),
        ("BENCHY_WIREGUARD_PORT", "0"),
        ("BENCHY_IPERF_PORT", "65535"),
        ("BENCHY_DURATION", "18446744073709551615"),
        ("BENCHY_MTU", "+1280"),
    ]);
    assert_eq!(
        controller_config(&vars),
        Ok(ControllerConfig {
            peer: "root@peer".to_owned(),
            alice_address: IpAddr::V6(Ipv6Addr { segments: [0, 0, 0, 0, 0, 0, 0, 1] }),
            bob_address: IpAddr::V4(Ipv4Addr::new(192, 0, 2, 7)),
            interface: "wg7".to_owned(),
            listen_port: 0,
            iperf_port: 65535,
            duration: u64::MAX,
            mtu: 1280,
        })
    );
}

#[test]
fn first_unreadable_variable_is_reported() {
    let mut vars = env(&[
        ("BENCHY_ALICE_ADDRESS", "alice"),
        ("BENCHY_BOB_ADDRESS", "10.0.0.02"),
        ("BENCHY_WIREGUARD_PORT", "65536"),
        ("BENCHY_IPERF_PORT", "x"),
        ("BENCHY_DURATION", "-1"),
        ("BENCHY_MTU", "70000"),
    ]);
    let errors = [
        ConfigError::AliceAddress(AddrParseError),
        ConfigError::BobAddress(AddrParseError),
        ConfigError::WireguardPort(NumberError::PosOverflow),
        ConfigError::IperfPort(NumberError::InvalidDigit),
        ConfigError::Duration(NumberError::InvalidDigit),
        ConfigError::Mtu(NumberError::PosOverflow),
    ];
    let messages = [
        "invalid IP address syntax",
        "invalid IP address syntax",
        "number too large to fit in target type",
        "invalid digit found in string",
        "invalid digit found in string",
        "number too large to fit in target type",
    ];
    for (error, message) in errors.into_iter().zip(messages) {
        assert_eq!(controller_config(&vars), Err(error));
        assert_eq!(error.message(), message);
        vars.remove(0);
    }
    assert_eq!(controller_config(&vars), Ok(default_config()));
    assert_eq!(
        ConfigError::Mtu(NumberError::Empty).message(),
        "cannot parse integer from empty string"
    );
}

#[test]
fn first_variable_of_a_name_counts() {
    let vars = env(&[("A", "1"), ("B", ""), ("A", "2"), ("B", "3")]);
    assert_eq!(env_value(&vars, "A", "d"), "1");
    assert_eq!(env_value(&vars, "B", "d"), "d");
    assert_eq!(env_value(&vars, "C", "d"), "d");
    assert_eq!(env_value(&vars, "a", "d"), "d");
}

#[test]
fn run_is_named_by_the_variable_or_the_process() {
    assert_eq!(run_id(&[], 4711), "4711");
    assert_eq!(run_id(&env(&[("GITHUB_RUN_ID", "99")]), 4711), "99");
    assert_eq!(run_id(&env(&[("GITHUB_RUN_ID", "")]), 4711), "");
}

#[test]
fn parameters_are_recorded() {
    let parameter = |name: &str, value: u64| Parameter { name: name.to_owned(), value };
    assert_eq!(
        recorded_parameters(&default_config()),
        vec![
            parameter("duration_seconds", 30),
            parameter("mtu", 1440),
            parameter("listen_port", 51821),
        ]
    );
}

#[test]
fn written_configuration_is_read_back() {
    let config = default_config();
    let vars = env(&[
        ("BENCHY_PEER", config.peer.as_str()),
        ("BENCHY_ALICE_ADDRESS", "10.0.0.1"),
        ("BENCHY_BOB_ADDRESS", "10.0.0.2"),
        ("BENCHY_INTERFACE", config.interface.as_str()),
        ("BENCHY_WIREGUARD_PORT", "51821"),
        ("BENCHY_IPERF_PORT", "5201"),
        ("BENCHY_DURATION", "30"),
        ("BENCHY_MTU", "1440"),
    ]);
    assert_eq!(controller_config(&vars), Ok(config));
}
