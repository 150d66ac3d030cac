//! Arguments of a tunnel endpoint.

use crate::address;
use crate::address::{Ipv4Addr, SocketAddr};
use crate::numeral;
use crate::text;
use vstd::prelude::*;

verus! {

/// The MTU of a tunnel interface where none is given.
pub const DEFAULT_MTU: u16 = 1440;

/// How long an endpoint serves where nothing else is given, in seconds.
pub const DEFAULT_LEASE_SECONDS: u64 = 300;

/// What an endpoint is told. Keys are in hexadecimal.
#[derive(Clone, Debug, PartialEq, Eq)]
pub struct EndpointArgs {
    /// The name of the tunnel interface.
    pub interface: String,
    /// The endpoint's own secret key.
    pub private_key: String,
    /// The public key of the other endpoint.
    pub peer_public_key: String,
    /// The key that both endpoints share.
    pub preshared_key: String,
    /// Where the other endpoint is reached.
    pub peer_endpoint: SocketAddr,
    /// The endpoint's own address inside the tunnel.
    pub tunnel_address: Ipv4Addr,
    /// The address of the other endpoint inside the tunnel.
    pub peer_tunnel_address: Ipv4Addr,
    /// The UDP port of the tunnel.
    pub listen_port: u16,
    /// The MTU of the tunnel interface.
    pub mtu: u16,
    /// How long to serve, in seconds.
    pub lease_seconds: u64,
}

/// Endpoint arguments, their texts seen as sequences of characters.
pub struct EndpointArgsView {
    pub interface: Seq<char>,
    pub private_key: Seq<char>,
    pub peer_public_key: Seq<char>,
    pub preshared_key: Seq<char>,
    pub peer_endpoint: address::SocketAddrView,
    pub tunnel_address: Ipv4Addr,
    pub peer_tunnel_address: Ipv4Addr,
    pub listen_port: u16,
    pub mtu: u16,
    pub lease_seconds: u64,
}

impl View for EndpointArgs {
    type V = EndpointArgsView;

    open spec fn view(&self) -> EndpointArgsView {
        EndpointArgsView {
            interface: self.interface@,
            private_key: self.private_key@,
            peer_public_key: self.peer_public_key@,
            preshared_key: self.preshared_key@,
            peer_endpoint: self.peer_endpoint@,
            tunnel_address: self.tunnel_address,
            peer_tunnel_address: self.peer_tunnel_address,
            listen_port: self.listen_port,
            mtu: self.mtu,
            lease_seconds: self.lease_seconds,
        }
    }
}

/// The arguments as command-line words: each flag, then its value.
pub open spec fn endpoint_values(args: EndpointArgsView) -> Seq<Seq<char>> {
    seq![
        "--interface"@,
        args.interface,
        "--private-key"@,
        args.private_key,
        "--peer-public-key"@,
        args.peer_public_key,
        "--preshared-key"@,
        args.preshared_key,
        "--peer-endpoint"@,
        address::socket_text(args.peer_endpoint),
        "--tunnel-address"@,
        address::ipv4_text(args.tunnel_address),
        "--peer-tunnel-address"@,
        address::ipv4_text(args.peer_tunnel_address),
        "--listen-port"@,
        numeral::decimal(args.listen_port as int),
        "--mtu"@,
        numeral::decimal(args.mtu as int),
        "--lease-seconds"@,
        numeral::decimal(args.lease_seconds as int),
    ]
}

/// Puts a flag and its value behind the words.
fn push_pair(values: &mut Vec<String>, flag: &str, value: String)
    ensures
        text::texts(final(values)@) == text::texts(old(values)@).push(flag@).push(value@),
        final(values)@.len() == old(values)@.len() + 2,
        final(values)@.take(old(values)@.len() as int) == old(values)@,
{
    let ghost before = values@;
    values.push(flag.to_owned());
    let ghost middle = values@;
    values.push(value);
    assert(text::texts(middle) == text::texts(before).push(flag@));
    assert(text::texts(values@) == text::texts(middle).push(value@));
    assert(values@.take(before.len() as int) == before);
}

/// Puts the arguments behind the words: each flag, then its value.
pub fn append_endpoint_values(values: &mut Vec<String>, args: &EndpointArgs)
    ensures
        text::texts(final(values)@) == text::texts(old(values)@) + endpoint_values(args@),
        final(values)@.take(old(values)@.len() as int) == old(values)@,
{
    let ghost before = values@;
    push_pair(values, "--interface", args.interface.clone());
    push_pair(values, "--private-key", args.private_key.clone());
    push_pair(values, "--peer-public-key", args.peer_public_key.clone());
    push_pair(values, "--preshared-key", args.preshared_key.clone());
    push_pair(values, "--peer-endpoint", args.peer_endpoint.to_text());
    push_pair(values, "--tunnel-address", args.tunnel_address.to_text());
    push_pair(values, "--peer-tunnel-address", args.peer_tunnel_address.to_text());
    push_pair(values, "--listen-port", numeral::decimal_text(args.listen_port as u64));
    push_pair(values, "--mtu", numeral::decimal_text(args.mtu as u64));
    push_pair(values, "--lease-seconds", numeral::decimal_text(args.lease_seconds));
    assert(text::texts(values@) =~= text::texts(before) + endpoint_values(args@));
    assert(values@.take(before.len() as int) =~= before);
}

/// The word behind the first occurrence of a flag among words that alternate between
/// flags and values.
pub open spec fn flag_value(words: Seq<Seq<char>>, flag: Seq<char>) -> Option<Seq<char>>
    decreases words.len(),
{
    if words.len() < 2 {
        None
    } else if words[0] == flag {
        Some(words[1])
    } else {
        flag_value(words.skip(2), flag)
    }
}

/// Whatever the values are, each flag is found once, with the value of its argument
/// behind it.
pub proof fn endpoint_values_pair_flags_with_values(args: EndpointArgsView)
    ensures
        flag_value(endpoint_values(args), "--interface"@) == Some(args.interface),
        flag_value(endpoint_values(args), "--private-key"@) == Some(args.private_key),
        flag_value(endpoint_values(args), "--peer-public-key"@) == Some(args.peer_public_key),
        flag_value(endpoint_values(args), "--preshared-key"@) == Some(args.preshared_key),
        flag_value(endpoint_values(args), "--peer-endpoint"@) == Some(address::socket_text(args.peer_endpoint)),
        flag_value(endpoint_values(args), "--tunnel-address"@) == Some(address::ipv4_text(args.tunnel_address)),
        flag_value(endpoint_values(args), "--peer-tunnel-address"@) == Some(address::ipv4_text(args.peer_tunnel_address)),
        flag_value(endpoint_values(args), "--listen-port"@) == Some(numeral::decimal(args.listen_port as int)),
        flag_value(endpoint_values(args), "--mtu"@) == Some(numeral::decimal(args.mtu as int)),
        flag_value(endpoint_values(args), "--lease-seconds"@) == Some(numeral::decimal(args.lease_seconds as int)),
{
    reveal_strlit("--interface");
    reveal_strlit("--private-key");
    reveal_strlit("--peer-public-key");
    reveal_strlit("--preshared-key");
    reveal_strlit("--peer-endpoint");
    reveal_strlit("--tunnel-address");
    reveal_strlit("--peer-tunnel-address");
    reveal_strlit("--listen-port");
    reveal_strlit("--mtu");
    reveal_strlit("--lease-seconds");
    let words = endpoint_values(args);
    assert(words[0].len() == 11 && words[2].len() == 13 && words[4].len() == 17 && words[6].len()
        == 15 && words[8].len() == 15 && words[10].len() == 16 && words[12].len() == 21
        && words[14].len() == 13 && words[16].len() == 5 && words[18].len() == 15);
    assert(words[2][2] == 'p' && words[14][2] == 'l');
    assert(words[6][3] == 'r' && words[8][3] == 'e' && words[18][3] == 'e');
    assert(words[8][2] == 'p' && words[18][2] == 'l');
    reveal_with_fuel(flag_value, 11);
    assert(words.skip(2).skip(2) == words.skip(4));
    assert(words.skip(4).skip(2) == words.skip(6));
    assert(words.skip(6).skip(2) == words.skip(8));
    assert(words.skip(8).skip(2) == words.skip(10));
    assert(words.skip(10).skip(2) == words.skip(12));
    assert(words.skip(12).skip(2) == words.skip(14));
    assert(words.skip(14).skip(2) == words.skip(16));
    assert(words.skip(16).skip(2) == words.skip(18));
}

/// The command-line words of an endpoint lose nothing: two endpoints with the same words
/// have the same arguments, but for the flow label of an IPv6 address, which its text does
/// not hold.
pub proof fn endpoint_values_determine_arguments(a: EndpointArgsView, b: EndpointArgsView)
    requires
        a.peer_endpoint is V6 ==> a.peer_endpoint->segments.len() == 8,
        b.peer_endpoint is V6 ==> b.peer_endpoint->segments.len() == 8,
        endpoint_values(a) == endpoint_values(b),
    ensures
        a == (EndpointArgsView { peer_endpoint: a.peer_endpoint, ..b }),
        address::socket_text(a.peer_endpoint) == address::socket_text(b.peer_endpoint),
        a.peer_endpoint is V4 ==> a == b,
        a.peer_endpoint is V6 && b.peer_endpoint is V6 && a.peer_endpoint->flowinfo
            == b.peer_endpoint->flowinfo ==> a == b,
{
    let left = endpoint_values(a);
    let right = endpoint_values(b);
    assert(left[1] == right[1] && left[3] == right[3] && left[5] == right[5] && left[7] == right[7]
        && left[9] == right[9] && left[11] == right[11] && left[13] == right[13] && left[15]
        == right[15] && left[17] == right[17] && left[19] == right[19]);
    address::socket_text_determines_address(a.peer_endpoint, b.peer_endpoint);
    address::ipv4_text_reads_back(a.tunnel_address);
    address::ipv4_text_reads_back(b.tunnel_address);
    address::ipv4_text_reads_back(a.peer_tunnel_address);
    address::ipv4_text_reads_back(b.peer_tunnel_address);
    numeral::decimal_is_injective(a.listen_port as int, b.listen_port as int);
    numeral::decimal_is_injective(a.mtu as int, b.mtu as int);
    numeral::decimal_is_injective(a.lease_seconds as int, b.lease_seconds as int);
}

/// The command-line words of an endpoint are ten flags, each with a value behind it that is
/// read as the argument: texts are themselves, numbers are their numerals, and addresses
/// are read as they are.
pub proof fn endpoint_values_are_read_back(args: EndpointArgsView)
    ensures
        ({
            let words = endpoint_values(args);
            &&& words.len() == 20
            &&& flag_value(words, "--interface"@) == Some(args.interface)
            &&& flag_value(words, "--private-key"@) == Some(args.private_key)
            &&& flag_value(words, "--peer-public-key"@) == Some(args.peer_public_key)
            &&& flag_value(words, "--preshared-key"@) == Some(args.preshared_key)
            &&& flag_value(words, "--peer-endpoint"@) == Some(
                address::socket_text(args.peer_endpoint),
            )
            &&& flag_value(words, "--tunnel-address"@) matches Some(word) && address::ipv4_read(
                word,
            ) == Some(args.tunnel_address)
            &&& flag_value(words, "--peer-tunnel-address"@) matches Some(word)
                && address::ipv4_read(word) == Some(args.peer_tunnel_address)
            &&& flag_value(words, "--listen-port"@) matches Some(word) && numeral::is_numeral_of(
                word,
                args.listen_port as int,
            )
            &&& flag_value(words, "--mtu"@) matches Some(word) && numeral::is_numeral_of(
                word,
                args.mtu as int,
            )
            &&& flag_value(words, "--lease-seconds"@) matches Some(word) && numeral::is_numeral_of(
                word,
                args.lease_seconds as int,
            )
        }),
{
    endpoint_values_pair_flags_with_values(args);
    address::ipv4_text_reads_back(args.tunnel_address);
    address::ipv4_text_reads_back(args.peer_tunnel_address);
    numeral::decimal_is_the_only_numeral(
        numeral::decimal(args.listen_port as int),
        args.listen_port as int,
    );
    numeral::decimal_is_the_only_numeral(numeral::decimal(args.mtu as int), args.mtu as int);
    numeral::decimal_is_the_only_numeral(
        numeral::decimal(args.lease_seconds as int),
        args.lease_seconds as int,
    );
}

/// An argument is shown by the value of its own flag alone: an endpoint that differs from
/// another in its MTU, or in its port, or in its lease only, has the same values behind all
/// other flags.
pub proof fn endpoint_flags_are_independent(
    a: EndpointArgsView,
    mtu: u16,
    listen_port: u16,
    lease_seconds: u64,
    flag: Seq<char>,
)
    requires
        flag != "--mtu"@,
        flag != "--listen-port"@,
        flag != "--lease-seconds"@,
    ensures
        flag_value(endpoint_values(a), flag) == flag_value(
            endpoint_values(EndpointArgsView { mtu, listen_port, lease_seconds, ..a }),
            flag,
        ),
{
    let left = endpoint_values(a);
    let right = endpoint_values(EndpointArgsView { mtu, listen_port, lease_seconds, ..a });
    lemma_flags_apart(left, right, flag);
}

/// Words that agree in their flags, and in their values but for other flags, agree on the
/// value of a flag.
proof fn lemma_flags_apart(left: Seq<Seq<char>>, right: Seq<Seq<char>>, flag: Seq<char>)
    requires
        left.len() == right.len(),
        forall|i: int|
            0 <= i < left.len() ==> #[trigger] left[i] == right[i] || (i % 2 == 1 && left[i - 1]
                == right[i - 1] && left[i - 1] != flag),
    ensures
        flag_value(left, flag) == flag_value(right, flag),
    decreases left.len(),
{
    if left.len() >= 2 {
        let a = left.skip(2);
        let b = right.skip(2);
        assert forall|i: int| 0 <= i < a.len() implies #[trigger] a[i] == b[i] || (i % 2 == 1
            && a[i - 1] == b[i - 1] && a[i - 1] != flag) by {
            assert(left[i + 2] == right[i + 2] || ((i + 2) % 2 == 1 && left[i + 1] == right[i + 1]
                && left[i + 1] != flag));
        }
        assert(left[0] == right[0]);
        assert(left[1] == right[1] || left[0] != flag);
        lemma_flags_apart(a, b, flag);
    }
}

/// The flags of an endpoint stand in front of their values and in the same order, whatever
/// the values are.
pub proof fn endpoint_flags_are_always_the_same(a: EndpointArgsView, b: EndpointArgsView, i: int)
    requires
        0 <= i < 10,
    ensures
        endpoint_values(a)[2 * i] == endpoint_values(b)[2 * i],
{
}

/// Where nothing else is given, an endpoint has the MTU that the controller gives where
/// nothing else is given to it, and serves for five minutes.
pub proof fn endpoint_defaults()
    ensures
        DEFAULT_MTU == 1440,
        DEFAULT_LEASE_SECONDS == 5 * 60,
{
}

/// The arguments of an endpoint are seen with all their fields.
pub proof fn arguments_are_seen_as_they_are(args: EndpointArgs)
    ensures
        args@.interface == args.interface@,
        args@.private_key == args.private_key@,
        args@.peer_public_key == args.peer_public_key@,
        args@.preshared_key == args.preshared_key@,
        args@.peer_endpoint == args.peer_endpoint@,
        args@.tunnel_address == args.tunnel_address,
        args@.peer_tunnel_address == args.peer_tunnel_address,
        args@.listen_port == args.listen_port,
        args@.mtu == args.mtu,
        args@.lease_seconds == args.lease_seconds,
{
}

} // verus!
