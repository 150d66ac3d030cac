//! Configuration of the controller, read from environment variables.

use crate::address;
use crate::address::{AddrParseError, IpAddr};
use crate::numeral;
use crate::numeral::NumberError;
use vstd::prelude::*;

verus! {

/// An environment variable.
#[derive(Clone, Debug, PartialEq, Eq)]
pub struct EnvVar {
    pub name: String,
    pub value: String,
}

/// What the controller is told.
#[derive(Clone, Debug, PartialEq, Eq)]
pub struct ControllerConfig {
    /// The peer host, as `ssh` takes it.
    pub peer: String,
    /// The address of the controller host.
    pub alice_address: IpAddr,
    /// The address of the peer host.
    pub bob_address: IpAddr,
    /// The name of the tunnel interface.
    pub interface: String,
    /// The UDP port of the tunnel.
    pub listen_port: u16,
    /// The TCP port of iperf3.
    pub iperf_port: u16,
    /// How long to measure, in seconds.
    pub duration: u64,
    /// The MTU of the tunnel interface.
    pub mtu: u16,
}

/// A configuration, its texts seen as sequences of characters.
pub struct ControllerConfigView {
    pub peer: Seq<char>,
    pub alice_address: address::IpAddrView,
    pub bob_address: address::IpAddrView,
    pub interface: Seq<char>,
    pub listen_port: u16,
    pub iperf_port: u16,
    pub duration: u64,
    pub mtu: u16,
}

impl View for ControllerConfig {
    type V = ControllerConfigView;

    open spec fn view(&self) -> ControllerConfigView {
        ControllerConfigView {
            peer: self.peer@,
            alice_address: self.alice_address@,
            bob_address: self.bob_address@,
            interface: self.interface@,
            listen_port: self.listen_port,
            iperf_port: self.iperf_port,
            duration: self.duration,
            mtu: self.mtu,
        }
    }
}

/// The variable that makes a configuration invalid, with the fault of its value.
#[derive(Clone, Copy, Debug, PartialEq, Eq, Structural)]
pub enum ConfigError {
    AliceAddress(AddrParseError),
    BobAddress(AddrParseError),
    WireguardPort(NumberError),
    IperfPort(NumberError),
    Duration(NumberError),
    Mtu(NumberError),
}

impl ConfigError {
    /// What is wrong with the value, in words.
    pub open spec fn words(self) -> Seq<char> {
        match self {
            ConfigError::AliceAddress(_) => "invalid IP address syntax"@,
            ConfigError::BobAddress(_) => "invalid IP address syntax"@,
            ConfigError::WireguardPort(error) => error.words(),
            ConfigError::IperfPort(error) => error.words(),
            ConfigError::Duration(error) => error.words(),
            ConfigError::Mtu(error) => error.words(),
        }
    }

    /// What is wrong with the value, in words.
    pub fn message(&self) -> (message: String)
        ensures
            message@ == self.words(),
    {
        match self {
            ConfigError::AliceAddress(error) => error.message(),
            ConfigError::BobAddress(error) => error.message(),
            ConfigError::WireguardPort(error) => error.message(),
            ConfigError::IperfPort(error) => error.message(),
            ConfigError::Duration(error) => error.message(),
            ConfigError::Mtu(error) => error.message(),
        }
    }
}

/// The names and values of environment variables.
pub open spec fn environment(vars: Seq<EnvVar>) -> Seq<(Seq<char>, Seq<char>)> {
    vars.map_values(|v: EnvVar| (v.name@, v.value@))
}

/// The value of the first variable of this name.
pub open spec fn lookup(env: Seq<(Seq<char>, Seq<char>)>, key: Seq<char>) -> Option<Seq<char>>
    decreases env.len(),
{
    if env.len() == 0 {
        None
    } else if env[0].0 == key {
        Some(env[0].1)
    } else {
        lookup(env.drop_first(), key)
    }
}

/// The value of the variable, or the default where the variable is unset or empty.
pub open spec fn setting(
    env: Seq<(Seq<char>, Seq<char>)>,
    key: Seq<char>,
    default_value: Seq<char>,
) -> Seq<char> {
    match lookup(env, key) {
        Some(value) => if value.len() > 0 {
            value
        } else {
            default_value
        },
        None => default_value,
    }
}

/// The configuration that the variables stand for; otherwise the fault of the first of
/// them, in the order of the fields, whose value cannot be read.
pub open spec fn config_read(env: Seq<(Seq<char>, Seq<char>)>) -> Result<
    ControllerConfigView,
    ConfigError,
> {
    let alice = address::ip_read(setting(env, "BENCHY_ALICE_ADDRESS"@, "10.0.0.1"@));
    let bob = address::ip_read(setting(env, "BENCHY_BOB_ADDRESS"@, "10.0.0.2"@));
    let listen_port = numeral::number_read(
        setting(env, "BENCHY_WIREGUARD_PORT"@, "51821"@),
        u16::MAX as int,
    );
    let iperf_port = numeral::number_read(
        setting(env, "BENCHY_IPERF_PORT"@, "5201"@),
        u16::MAX as int,
    );
    let duration = numeral::number_read(setting(env, "BENCHY_DURATION"@, "30"@), u64::MAX as int);
    let mtu = numeral::number_read(setting(env, "BENCHY_MTU"@, "1440"@), u16::MAX as int);
    if alice is None {
        Err(ConfigError::AliceAddress(AddrParseError))
    } else if bob is None {
        Err(ConfigError::BobAddress(AddrParseError))
    } else if listen_port is Err {
        Err(ConfigError::WireguardPort(listen_port->Err_0))
    } else if iperf_port is Err {
        Err(ConfigError::IperfPort(iperf_port->Err_0))
    } else if duration is Err {
        Err(ConfigError::Duration(duration->Err_0))
    } else if mtu is Err {
        Err(ConfigError::Mtu(mtu->Err_0))
    } else {
        Ok(
            ControllerConfigView {
                peer: setting(env, "BENCHY_PEER"@, "mole@10.0.0.2"@),
                alice_address: alice.unwrap(),
                bob_address: bob.unwrap(),
                interface: setting(env, "BENCHY_INTERFACE"@, "bench0"@),
                listen_port: listen_port->Ok_0 as u16,
                iperf_port: iperf_port->Ok_0 as u16,
                duration: duration->Ok_0 as u64,
                mtu: mtu->Ok_0 as u16,
            },
        )
    }
}

/// The result of reading a configuration, seen as above.
pub open spec fn config_view(result: Result<ControllerConfig, ConfigError>) -> Result<
    ControllerConfigView,
    ConfigError,
> {
    match result {
        Ok(config) => Ok(config@),
        Err(error) => Err(error),
    }
}

/// The value of the first variable of this name.
fn find_variable(vars: &[EnvVar], key: &str) -> (value: Option<String>)
    ensures
        value is Some <==> lookup(environment(vars@), key@) is Some,
        value is Some ==> lookup(environment(vars@), key@) == Some(value.unwrap()@),
{
    let name = key.to_owned();
    let ghost env = environment(vars@);
    let mut i: usize = 0;
    assert(env.skip(0) == env);
    while i < vars.len()
        invariant
            i <= vars@.len(),
            name@ == key@,
            env == environment(vars@),
            lookup(env, key@) == lookup(env.skip(i as int), key@),
        decreases vars@.len() - i,
    {
        assert(env.skip(i as int)[0] == (vars@[i as int].name@, vars@[i as int].value@));
        if vars[i].name == name {
            return Some(vars[i].value.clone());
        }
        assert(env.skip(i as int).drop_first() == env.skip(i + 1));
        i = i + 1;
    }
    None
}

/// The value of the variable, or the default where the variable is unset or empty.
pub fn env_value(vars: &[EnvVar], key: &str, default_value: &str) -> (value: String)
    ensures
        value@ == setting(environment(vars@), key@, default_value@),
{
    match find_variable(vars, key) {
        Some(value) => if value.as_str().is_empty() {
            default_value.to_owned()
        } else {
            value
        },
        None => default_value.to_owned(),
    }
}

/// The sixteen-bit number that `text` stands for.
fn parse_u16(text: &str) -> (result: Result<u16, NumberError>)
    ensures
        match result {
            Ok(value) => numeral::number_read(text@, u16::MAX as int) == Ok::<int, NumberError>(
                value as int,
            ),
            Err(error) => numeral::number_read(text@, u16::MAX as int) == Err::<int, NumberError>(
                error,
            ),
        },
{
    let result = numeral::parse_number(text, u16::MAX as u64);
    proof {
        if let Ok(value) = result {
            numeral::number_read_accepts(text@, u16::MAX as int, value as int);
        }
    }
    match result {
        Ok(value) => Ok(value as u16),
        Err(error) => Err(error),
    }
}

/// The configuration that the environment variables stand for.
pub fn controller_config(vars: &[EnvVar]) -> (result: Result<ControllerConfig, ConfigError>)
    ensures
        config_view(result) == config_read(environment(vars@)),
{
    let peer = env_value(vars, "BENCHY_PEER", "mole@10.0.0.2");
    let alice = env_value(vars, "BENCHY_ALICE_ADDRESS", "10.0.0.1");
    let alice_address = match address::parse_ip(alice.as_str()) {
        Ok(ip) => ip,
        Err(error) => {
            return Err(ConfigError::AliceAddress(error));
        },
    };
    let bob = env_value(vars, "BENCHY_BOB_ADDRESS", "10.0.0.2");
    let bob_address = match address::parse_ip(bob.as_str()) {
        Ok(ip) => ip,
        Err(error) => {
            return Err(ConfigError::BobAddress(error));
        },
    };
    let interface = env_value(vars, "BENCHY_INTERFACE", "bench0");
    let listen_port_text = env_value(vars, "BENCHY_WIREGUARD_PORT", "51821");
    let listen_port: u16 = match parse_u16(listen_port_text.as_str()) {
        Ok(port) => port,
        Err(error) => {
            return Err(ConfigError::WireguardPort(error));
        },
    };
    let iperf_port_text = env_value(vars, "BENCHY_IPERF_PORT", "5201");
    let iperf_port: u16 = match parse_u16(iperf_port_text.as_str()) {
        Ok(port) => port,
        Err(error) => {
            return Err(ConfigError::IperfPort(error));
        },
    };
    let duration_text = env_value(vars, "BENCHY_DURATION", "30");
    let duration: u64 = match numeral::parse_number(duration_text.as_str(), u64::MAX) {
        Ok(duration) => duration,
        Err(error) => {
            return Err(ConfigError::Duration(error));
        },
    };
    let mtu_text = env_value(vars, "BENCHY_MTU", "1440");
    let mtu: u16 = match parse_u16(mtu_text.as_str()) {
        Ok(mtu) => mtu,
        Err(error) => {
            return Err(ConfigError::Mtu(error));
        },
    };
    Ok(
        ControllerConfig {
            peer,
            alice_address,
            bob_address,
            interface,
            listen_port,
            iperf_port,
            duration,
            mtu,
        },
    )
}

/// The identity of a run: the value of `GITHUB_RUN_ID` where it is set, even to nothing,
/// otherwise the number of the process.
pub open spec fn run_identity(env: Seq<(Seq<char>, Seq<char>)>, process_id: u32) -> Seq<char> {
    match lookup(env, "GITHUB_RUN_ID"@) {
        Some(value) => value,
        None => numeral::decimal(process_id as int),
    }
}

/// The identity of a run.
pub fn run_id(vars: &[EnvVar], process_id: u32) -> (id: String)
    ensures
        id@ == run_identity(environment(vars@), process_id),
{
    match find_variable(vars, "GITHUB_RUN_ID") {
        Some(value) => value,
        None => numeral::decimal_text(process_id as u64),
    }
}

/// A parameter of a run that its result records.
#[derive(Debug, PartialEq, Eq)]
pub struct Parameter {
    pub name: String,
    pub value: u64,
}

/// The names and values of parameters.
pub open spec fn parameters_view(parameters: Seq<Parameter>) -> Seq<(Seq<char>, u64)> {
    parameters.map_values(|p: Parameter| (p.name@, p.value))
}

/// The names and values of the parameters that the result of a run records.
pub open spec fn recorded(config: ControllerConfigView) -> Seq<(Seq<char>, u64)> {
    seq![
        ("duration_seconds"@, config.duration),
        ("mtu"@, config.mtu as u64),
        ("listen_port"@, config.listen_port as u64),
    ]
}

/// The parameters that the result of a run records.
pub fn recorded_parameters(config: &ControllerConfig) -> (parameters: Vec<Parameter>)
    ensures
        parameters_view(parameters@) == seq![
            ("duration_seconds"@, config.duration),
            ("mtu"@, config.mtu as u64),
            ("listen_port"@, config.listen_port as u64),
        ],
        parameters_view(parameters@) == recorded(config@),
{
    let mut parameters: Vec<Parameter> = Vec::new();
    parameters.push(Parameter { name: "duration_seconds".to_owned(), value: config.duration });
    parameters.push(Parameter { name: "mtu".to_owned(), value: config.mtu as u64 });
    parameters.push(Parameter { name: "listen_port".to_owned(), value: config.listen_port as u64 });
    assert(parameters_view(parameters@) =~= seq![
        ("duration_seconds"@, config.duration),
        ("mtu"@, config.mtu as u64),
        ("listen_port"@, config.listen_port as u64),
    ]);
    parameters
}

/// Two environments that agree on the eight variables give the same configuration.
pub proof fn config_depends_on_its_variables(
    a: Seq<(Seq<char>, Seq<char>)>,
    b: Seq<(Seq<char>, Seq<char>)>,
)
    requires
        lookup(a, "BENCHY_PEER"@) == lookup(b, "BENCHY_PEER"@),
        lookup(a, "BENCHY_ALICE_ADDRESS"@) == lookup(b, "BENCHY_ALICE_ADDRESS"@),
        lookup(a, "BENCHY_BOB_ADDRESS"@) == lookup(b, "BENCHY_BOB_ADDRESS"@),
        lookup(a, "BENCHY_INTERFACE"@) == lookup(b, "BENCHY_INTERFACE"@),
        lookup(a, "BENCHY_WIREGUARD_PORT"@) == lookup(b, "BENCHY_WIREGUARD_PORT"@),
        lookup(a, "BENCHY_IPERF_PORT"@) == lookup(b, "BENCHY_IPERF_PORT"@),
        lookup(a, "BENCHY_DURATION"@) == lookup(b, "BENCHY_DURATION"@),
        lookup(a, "BENCHY_MTU"@) == lookup(b, "BENCHY_MTU"@),
    ensures
        config_read(a) == config_read(b),
{
}

/// A variable that is set to nothing counts as unset.
pub proof fn empty_variable_counts_as_unset(
    env: Seq<(Seq<char>, Seq<char>)>,
    key: Seq<char>,
    default_value: Seq<char>,
)
    ensures
        setting(seq![(key, Seq::<char>::empty())] + env, key, default_value) == default_value,
        setting(Seq::empty(), key, default_value) == default_value,
{
    let with = seq![(key, Seq::<char>::empty())] + env;
    assert(with[0].0 == key);
}

/// A configuration whose values are written into the variables is read back from them,
/// where the two names are not empty.
pub proof fn config_reads_back(
    env: Seq<(Seq<char>, Seq<char>)>,
    config: ControllerConfigView,
)
    requires
        config.peer.len() > 0,
        config.interface.len() > 0,
        config.alice_address is V6 ==> config.alice_address->V6_0.len() == 8,
        config.bob_address is V6 ==> config.bob_address->V6_0.len() == 8,
        lookup(env, "BENCHY_PEER"@) == Some(config.peer),
        lookup(env, "BENCHY_ALICE_ADDRESS"@) == Some(address::ip_text(config.alice_address)),
        lookup(env, "BENCHY_BOB_ADDRESS"@) == Some(address::ip_text(config.bob_address)),
        lookup(env, "BENCHY_INTERFACE"@) == Some(config.interface),
        lookup(env, "BENCHY_WIREGUARD_PORT"@) == Some(numeral::decimal(config.listen_port as int)),
        lookup(env, "BENCHY_IPERF_PORT"@) == Some(numeral::decimal(config.iperf_port as int)),
        lookup(env, "BENCHY_DURATION"@) == Some(numeral::decimal(config.duration as int)),
        lookup(env, "BENCHY_MTU"@) == Some(numeral::decimal(config.mtu as int)),
    ensures
        config_read(env) == Ok::<ControllerConfigView, ConfigError>(config),
{
    address::ip_text_reads_back(config.alice_address);
    address::ip_text_reads_back(config.bob_address);
    address::lemma_empty_is_no_address();
    numeral::lemma_numeral(config.listen_port as int, 10);
    numeral::lemma_numeral(config.iperf_port as int, 10);
    numeral::lemma_numeral(config.duration as int, 10);
    numeral::lemma_numeral(config.mtu as int, 10);
    numeral::decimal_reads_back(config.listen_port as int, u16::MAX as int);
    numeral::decimal_reads_back(config.iperf_port as int, u16::MAX as int);
    numeral::decimal_reads_back(config.duration as int, u64::MAX as int);
    numeral::decimal_reads_back(config.mtu as int, u16::MAX as int);
    assert(address::ip_text(config.alice_address) != Seq::<char>::empty());
    assert(address::ip_text(config.bob_address) != Seq::<char>::empty());
}

/// The value of a variable is that of the first variable of its name; a name that no
/// variable has gives none.
pub proof fn first_variable_of_a_name_counts(
    env: Seq<(Seq<char>, Seq<char>)>,
    key: Seq<char>,
    i: int,
)
    ensures
        0 <= i < env.len() && env[i].0 == key && (forall|j: int|
            0 <= j < i ==> (#[trigger] env[j]).0 != key) ==> lookup(env, key) == Some(env[i].1),
        (forall|j: int| 0 <= j < env.len() ==> (#[trigger] env[j]).0 != key) ==> lookup(
            env,
            key,
        ) is None,
    decreases env.len(),
{
    if env.len() > 0 {
        let rest = env.drop_first();
        assert(forall|j: int| 0 <= j < rest.len() ==> #[trigger] rest[j] == env[j + 1]);
        assert((env[0]).0 == key || env[0].0 != key);
        first_variable_of_a_name_counts(rest, key, i - 1);
    }
}

/// Whether the variable is set to more than nothing.
pub open spec fn is_given(env: Seq<(Seq<char>, Seq<char>)>, key: Seq<char>) -> bool {
    lookup(env, key) matches Some(value) && value.len() > 0
}

/// A variable that is set to more than nothing gives its value, whatever the default; any
/// other gives the default.
pub proof fn given_value_goes_before_the_default(
    env: Seq<(Seq<char>, Seq<char>)>,
    key: Seq<char>,
    default_value: Seq<char>,
)
    ensures
        is_given(env, key) ==> Some(setting(env, key, default_value)) == lookup(env, key),
        !is_given(env, key) ==> setting(env, key, default_value) == default_value,
{
}

/// What the defaults are read as.
proof fn lemma_defaults()
    ensures
        address::ip_read("10.0.0.1"@) == Some(
            address::IpAddrView::V4(address::Ipv4Addr { a: 10, b: 0, c: 0, d: 1 }),
        ),
        address::ip_read("10.0.0.2"@) == Some(
            address::IpAddrView::V4(address::Ipv4Addr { a: 10, b: 0, c: 0, d: 2 }),
        ),
        numeral::number_read("51821"@, u16::MAX as int) == Ok::<int, NumberError>(51821),
        numeral::number_read("5201"@, u16::MAX as int) == Ok::<int, NumberError>(5201),
        numeral::number_read("30"@, u64::MAX as int) == Ok::<int, NumberError>(30),
        numeral::number_read("1440"@, u16::MAX as int) == Ok::<int, NumberError>(1440),
{
    reveal_strlit("10.0.0.1");
    reveal_strlit("10.0.0.2");
    reveal_strlit("51821");
    reveal_strlit("5201");
    reveal_strlit("30");
    reveal_strlit("1440");
    reveal_with_fuel(numeral::numeral, 6);
    let alice = address::Ipv4Addr { a: 10, b: 0, c: 0, d: 1 };
    let bob = address::Ipv4Addr { a: 10, b: 0, c: 0, d: 2 };
    address::lemma_ipv4_text_written_out(alice);
    address::lemma_ipv4_text_written_out(bob);
    assert(address::ipv4_text(alice) =~= "10.0.0.1"@);
    assert(address::ipv4_text(bob) =~= "10.0.0.2"@);
    address::ip_text_reads_back(address::IpAddrView::V4(alice));
    address::ip_text_reads_back(address::IpAddrView::V4(bob));
    assert(numeral::decimal(51821) =~= "51821"@);
    assert(numeral::decimal(5201) =~= "5201"@);
    assert(numeral::decimal(30) =~= "30"@);
    assert(numeral::decimal(1440) =~= "1440"@);
    numeral::decimal_reads_back(51821, u16::MAX as int);
    numeral::decimal_reads_back(5201, u16::MAX as int);
    numeral::decimal_reads_back(30, u64::MAX as int);
    numeral::decimal_reads_back(1440, u16::MAX as int);
}

/// Each field comes from its own variable alone, whatever the other variables are: where
/// that variable is set to more than nothing the field is what its value is read as,
/// otherwise the field has its default.
pub proof fn each_field_has_its_own_variable(
    env: Seq<(Seq<char>, Seq<char>)>,
    config: ControllerConfigView,
)
    requires
        config_read(env) == Ok::<ControllerConfigView, ConfigError>(config),
    ensures
        is_given(env, "BENCHY_PEER"@) ==> lookup(env, "BENCHY_PEER"@) == Some(config.peer),
        !is_given(env, "BENCHY_PEER"@) ==> config.peer == "mole@10.0.0.2"@,
        is_given(env, "BENCHY_INTERFACE"@) ==> lookup(env, "BENCHY_INTERFACE"@) == Some(config.interface),
        !is_given(env, "BENCHY_INTERFACE"@) ==> config.interface == "bench0"@,
        is_given(env, "BENCHY_ALICE_ADDRESS"@) ==> address::ip_read(lookup(env, "BENCHY_ALICE_ADDRESS"@).unwrap()) == Some(
            config.alice_address,
        ),
        !is_given(env, "BENCHY_ALICE_ADDRESS"@) ==> config.alice_address == address::IpAddrView::V4(
            address::Ipv4Addr { a: 10, b: 0, c: 0, d: 1 },
        ),
        is_given(env, "BENCHY_BOB_ADDRESS"@) ==> address::ip_read(lookup(env, "BENCHY_BOB_ADDRESS"@).unwrap()) == Some(
            config.bob_address,
        ),
        !is_given(env, "BENCHY_BOB_ADDRESS"@) ==> config.bob_address == address::IpAddrView::V4(
            address::Ipv4Addr { a: 10, b: 0, c: 0, d: 2 },
        ),
        is_given(env, "BENCHY_WIREGUARD_PORT"@) ==> numeral::number_read(
            lookup(env, "BENCHY_WIREGUARD_PORT"@).unwrap(),
            u16::MAX as int,
        ) == Ok::<int, NumberError>(config.listen_port as int),
        !is_given(env, "BENCHY_WIREGUARD_PORT"@) ==> config.listen_port == 51821,
        is_given(env, "BENCHY_IPERF_PORT"@) ==> numeral::number_read(
            lookup(env, "BENCHY_IPERF_PORT"@).unwrap(),
            u16::MAX as int,
        ) == Ok::<int, NumberError>(config.iperf_port as int),
        !is_given(env, "BENCHY_IPERF_PORT"@) ==> config.iperf_port == 5201,
        is_given(env, "BENCHY_DURATION"@) ==> numeral::number_read(
            lookup(env, "BENCHY_DURATION"@).unwrap(),
            u64::MAX as int,
        ) == Ok::<int, NumberError>(config.duration as int),
        !is_given(env, "BENCHY_DURATION"@) ==> config.duration == 30,
        is_given(env, "BENCHY_MTU"@) ==> numeral::number_read(
            lookup(env, "BENCHY_MTU"@).unwrap(),
            u16::MAX as int,
        ) == Ok::<int, NumberError>(config.mtu as int),
        !is_given(env, "BENCHY_MTU"@) ==> config.mtu == 1440,
{
    lemma_defaults();
    lemma_read_number_is_small(setting(env, "BENCHY_WIREGUARD_PORT"@, "51821"@), u16::MAX as int);
    lemma_read_number_is_small(setting(env, "BENCHY_IPERF_PORT"@, "5201"@), u16::MAX as int);
    lemma_read_number_is_small(setting(env, "BENCHY_DURATION"@, "30"@), u64::MAX as int);
    lemma_read_number_is_small(setting(env, "BENCHY_MTU"@, "1440"@), u16::MAX as int);
}

/// A number that was read is neither negative nor too large.
proof fn lemma_read_number_is_small(s: Seq<char>, max: int)
    requires
        max >= 0,
    ensures
        numeral::number_read(s, max) matches Ok(value) ==> 0 <= value <= max,
{
    if let Ok(value) = numeral::number_read(s, max) {
        numeral::number_read_accepts(s, max, value);
        numeral::lemma_digits_value_is_natural(numeral::unsigned_digits(s));
    }
}

/// A field whose variable holds the text of a value has that value, whatever the other
/// variables are.
pub proof fn written_field_is_read_back(
    env: Seq<(Seq<char>, Seq<char>)>,
    config: ControllerConfigView,
    ip: address::IpAddrView,
    small: u16,
    large: u64,
)
    requires
        config_read(env) == Ok::<ControllerConfigView, ConfigError>(config),
        ip is V6 ==> ip->V6_0.len() == 8,
    ensures
        lookup(env, "BENCHY_ALICE_ADDRESS"@) == Some(address::ip_text(ip)) ==> config.alice_address == ip,
        lookup(env, "BENCHY_BOB_ADDRESS"@) == Some(address::ip_text(ip)) ==> config.bob_address == ip,
        lookup(env, "BENCHY_WIREGUARD_PORT"@) == Some(numeral::decimal(small as int)) ==> config.listen_port == small,
        lookup(env, "BENCHY_IPERF_PORT"@) == Some(numeral::decimal(small as int)) ==> config.iperf_port == small,
        lookup(env, "BENCHY_DURATION"@) == Some(numeral::decimal(large as int)) ==> config.duration == large,
        lookup(env, "BENCHY_MTU"@) == Some(numeral::decimal(small as int)) ==> config.mtu == small,
{
    each_field_has_its_own_variable(env, config);
    address::ip_text_reads_back(ip);
    address::lemma_empty_is_no_address();
    assert(address::ip_text(ip) != Seq::<char>::empty());
    numeral::lemma_numeral(small as int, 10);
    numeral::lemma_numeral(large as int, 10);
    numeral::decimal_reads_back(small as int, u16::MAX as int);
    numeral::decimal_reads_back(large as int, u64::MAX as int);
}

/// Whether the variable is set to a text that is no address.
pub open spec fn is_bad_address(env: Seq<(Seq<char>, Seq<char>)>, key: Seq<char>) -> bool {
    is_given(env, key) && address::ip_read(lookup(env, key).unwrap()) is None
}

/// Whether the variable is set to a text that is no number of at most `max`, for this
/// reason.
pub open spec fn is_bad_number(
    env: Seq<(Seq<char>, Seq<char>)>,
    key: Seq<char>,
    max: int,
    error: NumberError,
) -> bool {
    is_given(env, key) && numeral::number_read(lookup(env, key).unwrap(), max) == Err::<
        int,
        NumberError,
    >(error)
}

/// Whether the variable is set to a text that is no number of at most `max`.
pub open spec fn is_no_number(
    env: Seq<(Seq<char>, Seq<char>)>,
    key: Seq<char>,
    max: int,
) -> bool {
    exists|error: NumberError| #[trigger] is_bad_number(env, key, max, error)
}

/// A configuration is refused exactly where a variable is set to a text that cannot be
/// read, and the fault is that of the first such variable: the addresses before the ports,
/// these before the duration, and the MTU last. Names cannot be refused.
pub proof fn first_bad_variable_is_told(env: Seq<(Seq<char>, Seq<char>)>, error: NumberError)
    ensures
        ({
            let alice = is_bad_address(env, "BENCHY_ALICE_ADDRESS"@);
            let bob = is_bad_address(env, "BENCHY_BOB_ADDRESS"@);
            let listen_port = is_no_number(env, "BENCHY_WIREGUARD_PORT"@, u16::MAX as int);
            let iperf_port = is_no_number(env, "BENCHY_IPERF_PORT"@, u16::MAX as int);
            let duration = is_no_number(env, "BENCHY_DURATION"@, u64::MAX as int);
            let mtu = is_no_number(env, "BENCHY_MTU"@, u16::MAX as int);
            let result = config_read(env);
            &&& result is Ok <==> !alice && !bob && !listen_port && !iperf_port && !duration && !mtu
            &&& result == Err::<ControllerConfigView, ConfigError>(
                ConfigError::AliceAddress(AddrParseError),
            ) <==> alice
            &&& result == Err::<ControllerConfigView, ConfigError>(
                ConfigError::BobAddress(AddrParseError),
            ) <==> !alice && bob
            &&& result == Err::<ControllerConfigView, ConfigError>(
                ConfigError::WireguardPort(error),
            ) <==> !alice && !bob && is_bad_number(
                env,
                "BENCHY_WIREGUARD_PORT"@,
                u16::MAX as int,
                error,
            )
            &&& result == Err::<ControllerConfigView, ConfigError>(
                ConfigError::IperfPort(error),
            ) <==> !alice && !bob && !listen_port && is_bad_number(
                env,
                "BENCHY_IPERF_PORT"@,
                u16::MAX as int,
                error,
            )
            &&& result == Err::<ControllerConfigView, ConfigError>(
                ConfigError::Duration(error),
            ) <==> !alice && !bob && !listen_port && !iperf_port && is_bad_number(
                env,
                "BENCHY_DURATION"@,
                u64::MAX as int,
                error,
            )
            &&& result == Err::<ControllerConfigView, ConfigError>(
                ConfigError::Mtu(error),
            ) <==> !alice && !bob && !listen_port && !iperf_port && !duration && is_bad_number(
                env,
                "BENCHY_MTU"@,
                u16::MAX as int,
                error,
            )
        }),
{
    lemma_defaults();
    lemma_number_setting(env, "BENCHY_WIREGUARD_PORT"@, "51821"@, u16::MAX as int, error);
    lemma_number_setting(env, "BENCHY_IPERF_PORT"@, "5201"@, u16::MAX as int, error);
    lemma_number_setting(env, "BENCHY_DURATION"@, "30"@, u64::MAX as int, error);
    lemma_number_setting(env, "BENCHY_MTU"@, "1440"@, u16::MAX as int, error);
}

/// A number cannot be read exactly where its variable is set to a text that is none.
proof fn lemma_number_setting(
    env: Seq<(Seq<char>, Seq<char>)>,
    key: Seq<char>,
    default_value: Seq<char>,
    max: int,
    error: NumberError,
)
    requires
        numeral::number_read(default_value, max) is Ok,
    ensures
        numeral::number_read(setting(env, key, default_value), max) is Err <==> is_no_number(
            env,
            key,
            max,
        ),
        numeral::number_read(setting(env, key, default_value), max) == Err::<int, NumberError>(
            error,
        ) <==> is_bad_number(env, key, max, error),
        is_bad_number(env, key, max, error) ==> is_no_number(env, key, max),
{
    let result = numeral::number_read(setting(env, key, default_value), max);
    if result is Err {
        assert(is_bad_number(env, key, max, result->Err_0));
    }
}

/// A run is named by the value of `GITHUB_RUN_ID` where that is set, even to nothing, and
/// by the numeral of its process where it is not.
pub proof fn run_is_named(env: Seq<(Seq<char>, Seq<char>)>, process_id: u32)
    ensures
        lookup(env, "GITHUB_RUN_ID"@) matches Some(value) ==> run_identity(env, process_id)
            == value,
        lookup(env, "GITHUB_RUN_ID"@) is None ==> numeral::is_numeral_of(
            run_identity(env, process_id),
            process_id as int,
        ),
{
    numeral::decimal_is_the_only_numeral(numeral::decimal(process_id as int), process_id as int);
}

/// The result of a run records three parameters, each once: the duration in seconds, the
/// MTU and the port of the tunnel, with the values of the configuration.
pub proof fn parameters_are_those_of_the_configuration(config: ControllerConfigView)
    ensures
        recorded(config).len() == 3,
        lookup_parameter(recorded(config), "duration_seconds"@) == Some(config.duration),
        lookup_parameter(recorded(config), "mtu"@) == Some(config.mtu as u64),
        lookup_parameter(recorded(config), "listen_port"@) == Some(config.listen_port as u64),
{
    reveal_strlit("duration_seconds");
    reveal_strlit("mtu");
    reveal_strlit("listen_port");
    reveal_with_fuel(lookup_parameter, 4);
    assert("duration_seconds"@.len() == 16 && "mtu"@.len() == 3 && "listen_port"@.len() == 11);
}

/// The value of the first parameter of this name.
pub open spec fn lookup_parameter(
    parameters: Seq<(Seq<char>, u64)>,
    name: Seq<char>,
) -> Option<u64>
    decreases parameters.len(),
{
    if parameters.len() == 0 {
        None
    } else if parameters[0].0 == name {
        Some(parameters[0].1)
    } else {
        lookup_parameter(parameters.drop_first(), name)
    }
}

/// A configuration is seen with all its fields, a fault as itself, and the environment as the
/// names and values of its variables in their order.
pub proof fn configuration_is_seen_as_it_is(
    config: ControllerConfig,
    error: ConfigError,
    vars: Seq<EnvVar>,
    i: int,
)
    ensures
        config@.peer == config.peer@,
        config@.alice_address == config.alice_address@,
        config@.bob_address == config.bob_address@,
        config@.interface == config.interface@,
        config@.listen_port == config.listen_port,
        config@.iperf_port == config.iperf_port,
        config@.duration == config.duration,
        config@.mtu == config.mtu,
        config_view(Ok(config)) == Ok::<ControllerConfigView, ConfigError>(config@),
        config_view(Err(error)) == Err::<ControllerConfigView, ConfigError>(error),
        environment(vars).len() == vars.len(),
        0 <= i < vars.len() ==> environment(vars)[i] == (vars[i].name@, vars[i].value@),
{
}

/// Parameters are seen as their names and values in their order.
pub proof fn parameters_are_seen_as_they_are(parameters: Seq<Parameter>, i: int)
    ensures
        parameters_view(parameters).len() == parameters.len(),
        0 <= i < parameters.len() ==> parameters_view(parameters)[i] == (
            parameters[i].name@,
            parameters[i].value,
        ),
{
}

} // verus!
