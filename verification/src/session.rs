//! One benchmark run: its endpoints and its paths on the peer.

use crate::address::{Ipv4Addr, SocketAddr};
use crate::address;
use crate::config;
use crate::config::ControllerConfig;
use crate::endpoint;
use crate::endpoint::EndpointArgs;
use crate::keys;
use crate::text;
use vstd::prelude::*;

verus! {

/// How long the endpoints outlast the measurement, in seconds.
pub const LEASE_MARGIN: u64 = 120;

/// The two endpoints of a tunnel: on this host and on the peer.
#[derive(Debug, PartialEq, Eq)]
pub struct EndpointPair {
    pub local: EndpointArgs,
    pub remote: EndpointArgs,
}

/// The address inside the tunnel of the endpoint on this host.
pub open spec fn local_tunnel_address() -> Ipv4Addr {
    Ipv4Addr { a: 10, b: 0, c: 1, d: 1 }
}

/// The address inside the tunnel of the endpoint on the peer.
pub open spec fn remote_tunnel_address() -> Ipv4Addr {
    Ipv4Addr { a: 10, b: 0, c: 1, d: 2 }
}

/// The keys of a run.
#[derive(Clone, Copy, Debug, PartialEq, Eq)]
pub struct RunKeys {
    /// The secret key of the endpoint on this host.
    pub alice_private: [u8; 32],
    /// The public key of the endpoint on this host.
    pub alice_public: [u8; 32],
    /// The secret key of the endpoint on the peer.
    pub bob_private: [u8; 32],
    /// The public key of the endpoint on the peer.
    pub bob_public: [u8; 32],
    /// The key that both endpoints share.
    pub preshared_key: [u8; 32],
}

/// The arguments of the endpoint on this host, given its secret key, the public key of
/// the other and the shared key.
pub open spec fn local_endpoint(
    config: config::ControllerConfigView,
    private_key: Seq<u8>,
    peer_public_key: Seq<u8>,
    preshared_key: Seq<u8>,
) -> endpoint::EndpointArgsView {
    endpoint::EndpointArgsView {
        interface: config.interface,
        private_key: keys::hex_text(private_key),
        peer_public_key: keys::hex_text(peer_public_key),
        preshared_key: keys::hex_text(preshared_key),
        peer_endpoint: address::socket_of(config.bob_address, config.listen_port),
        tunnel_address: local_tunnel_address(),
        peer_tunnel_address: remote_tunnel_address(),
        listen_port: config.listen_port,
        mtu: config.mtu,
        lease_seconds: (config.duration + LEASE_MARGIN) as u64,
    }
}

/// The arguments of the endpoint on the peer, given its secret key, the public key of the
/// other and the shared key.
pub open spec fn remote_endpoint(
    config: config::ControllerConfigView,
    private_key: Seq<u8>,
    peer_public_key: Seq<u8>,
    preshared_key: Seq<u8>,
) -> endpoint::EndpointArgsView {
    endpoint::EndpointArgsView {
        interface: config.interface,
        private_key: keys::hex_text(private_key),
        peer_public_key: keys::hex_text(peer_public_key),
        preshared_key: keys::hex_text(preshared_key),
        peer_endpoint: address::socket_of(config.alice_address, config.listen_port),
        tunnel_address: remote_tunnel_address(),
        peer_tunnel_address: local_tunnel_address(),
        listen_port: config.listen_port,
        mtu: config.mtu,
        lease_seconds: (config.duration + LEASE_MARGIN) as u64,
    }
}

/// Whether an endpoint accepts its keys, and takes them for these.
pub open spec fn holds_keys(
    args: endpoint::EndpointArgsView,
    private_key: Seq<u8>,
    peer_public_key: Seq<u8>,
    preshared_key: Seq<u8>,
) -> bool {
    &&& keys::key_read(args.private_key) == Ok::<Seq<u8>, keys::KeyError>(private_key)
    &&& keys::key_read(args.peer_public_key) == Ok::<Seq<u8>, keys::KeyError>(peer_public_key)
    &&& keys::key_read(args.preshared_key) == Ok::<Seq<u8>, keys::KeyError>(preshared_key)
}

/// The endpoints of a run with these keys.
pub fn endpoint_pair(config: &ControllerConfig, run_keys: &RunKeys) -> (pair: EndpointPair)
    requires
        config.duration + LEASE_MARGIN <= u64::MAX,
    ensures
        pair.local@ == local_endpoint(
            config@,
            run_keys.alice_private@,
            run_keys.bob_public@,
            run_keys.preshared_key@,
        ),
        pair.remote@ == remote_endpoint(
            config@,
            run_keys.bob_private@,
            run_keys.alice_public@,
            run_keys.preshared_key@,
        ),
{
    let local = EndpointArgs {
        interface: config.interface.clone(),
        private_key: keys::encode_key(&run_keys.alice_private),
        peer_public_key: keys::encode_key(&run_keys.bob_public),
        preshared_key: keys::encode_key(&run_keys.preshared_key),
        peer_endpoint: SocketAddr::new(config.bob_address, config.listen_port),
        tunnel_address: Ipv4Addr::new(10, 0, 1, 1),
        peer_tunnel_address: Ipv4Addr::new(10, 0, 1, 2),
        listen_port: config.listen_port,
        mtu: config.mtu,
        lease_seconds: config.duration + LEASE_MARGIN,
    };
    let remote = EndpointArgs {
        interface: local.interface.clone(),
        private_key: keys::encode_key(&run_keys.bob_private),
        peer_public_key: keys::encode_key(&run_keys.alice_public),
        preshared_key: local.preshared_key.clone(),
        peer_endpoint: SocketAddr::new(config.alice_address, config.listen_port),
        tunnel_address: local.peer_tunnel_address,
        peer_tunnel_address: local.tunnel_address,
        listen_port: local.listen_port,
        mtu: local.mtu,
        lease_seconds: local.lease_seconds,
    };
    EndpointPair { local, remote }
}

/// The keys of a run, made of random bytes: each public key belongs to its secret key.
pub fn run_keys(alice_seed: [u8; 32], bob_seed: [u8; 32], preshared_key: [u8; 32]) -> (run_keys:
    RunKeys)
    ensures
        run_keys.alice_private@ == alice_seed@,
        run_keys.alice_public@ == keys::x25519_public_key(alice_seed@),
        run_keys.bob_private@ == bob_seed@,
        run_keys.bob_public@ == keys::x25519_public_key(bob_seed@),
        run_keys.preshared_key@ == preshared_key@,
{
    let alice_private = keys::secret_key_of(alice_seed);
    let bob_private = keys::secret_key_of(bob_seed);
    let alice_public = keys::public_key(&alice_private);
    let bob_public = keys::public_key(&bob_private);
    RunKeys { alice_private, alice_public, bob_private, bob_public, preshared_key }
}

/// Whether the endpoints are those of a run with secret keys of these bytes: each has its
/// own secret key, the public key that belongs to the secret key of the other, and the
/// shared key, and accepts all three.
pub open spec fn is_pair_of(
    pair: EndpointPair,
    config: config::ControllerConfigView,
    alice: Seq<u8>,
    bob: Seq<u8>,
    preshared: Seq<u8>,
) -> bool {
    let alice_public = keys::x25519_public_key(alice);
    let bob_public = keys::x25519_public_key(bob);
    &&& pair.local@ == local_endpoint(config, alice, bob_public, preshared)
    &&& pair.remote@ == remote_endpoint(config, bob, alice_public, preshared)
    &&& holds_keys(pair.local@, alice, bob_public, preshared)
    &&& holds_keys(pair.remote@, bob, alice_public, preshared)
}

/// The endpoints of a new run, with keys made for this run alone. That the keys cannot be
/// guessed and do not come twice is not stated: it rests on chance.
pub fn new_endpoint_pair(config: &ControllerConfig) -> (pair: EndpointPair)
    requires
        config.duration + LEASE_MARGIN <= u64::MAX,
    ensures
        exists|alice: Seq<u8>, bob: Seq<u8>, preshared: Seq<u8>|
            alice.len() == keys::KEY_LENGTH && bob.len() == keys::KEY_LENGTH && preshared.len()
                == keys::KEY_LENGTH && #[trigger] is_pair_of(pair, config@, alice, bob, preshared),
{
    let alice_seed = keys::random_bytes();
    let bob_seed = keys::random_bytes();
    let preshared_key = keys::random_bytes();
    let run_keys = run_keys(alice_seed, bob_seed, preshared_key);
    let pair = endpoint_pair(config, &run_keys);
    proof {
        endpoints_accept_their_keys(
            config@,
            run_keys.alice_private@,
            run_keys.bob_public@,
            run_keys.preshared_key@,
        );
        endpoints_accept_their_keys(
            config@,
            run_keys.bob_private@,
            run_keys.alice_public@,
            run_keys.preshared_key@,
        );
        assert(is_pair_of(pair, config@, alice_seed@, bob_seed@, preshared_key@));
    }
    pair
}

/// The directory of a run on the peer.
pub open spec fn remote_dir_path(run_id: Seq<char>) -> Seq<char> {
    "/tmp/benchy-"@ + run_id
}

/// The directory of a run on the peer.
pub fn remote_dir(run_id: &str) -> (path: String)
    ensures
        path@ == remote_dir_path(run_id@),
{
    let mut path = "/tmp/benchy-".to_owned();
    path.append(run_id);
    path
}

/// The executable in the directory of a run on the peer.
pub open spec fn remote_executable_path(remote_dir: Seq<char>) -> Seq<char> {
    remote_dir + "/gotatun-throughput"@
}

/// The executable in the directory of a run on the peer.
pub fn remote_executable(remote_dir: &str) -> (path: String)
    ensures
        path@ == remote_executable_path(remote_dir@),
{
    let mut path = remote_dir.to_owned();
    path.append("/gotatun-throughput");
    path
}

/// The endpoints mirror each other: what one has for itself the other has for its peer,
/// each reaches the other at its host and port, and everything else they share.
pub proof fn endpoints_mirror_each_other(
    config: config::ControllerConfigView,
    alice_private: Seq<u8>,
    alice_public: Seq<u8>,
    bob_private: Seq<u8>,
    bob_public: Seq<u8>,
    preshared_key: Seq<u8>,
)
    ensures
        ({
            let local = local_endpoint(config, alice_private, bob_public, preshared_key);
            let remote = remote_endpoint(config, bob_private, alice_public, preshared_key);
            &&& local.tunnel_address == remote.peer_tunnel_address
            &&& remote.tunnel_address == local.peer_tunnel_address
            &&& local.tunnel_address != remote.tunnel_address
            &&& local.peer_endpoint == address::socket_of(config.bob_address, remote.listen_port)
            &&& remote.peer_endpoint == address::socket_of(config.alice_address, local.listen_port)
            &&& local.preshared_key == remote.preshared_key
            &&& local.interface == remote.interface
            &&& local.listen_port == remote.listen_port
            &&& local.mtu == remote.mtu
            &&& local.lease_seconds == remote.lease_seconds
        }),
{
}

/// Both endpoints accept the keys of a run, whatever keys of thirty-two bytes they are,
/// and take them for what they are.
pub proof fn endpoints_accept_their_keys(
    config: config::ControllerConfigView,
    private_key: Seq<u8>,
    peer_public_key: Seq<u8>,
    preshared_key: Seq<u8>,
)
    requires
        private_key.len() == keys::KEY_LENGTH,
        peer_public_key.len() == keys::KEY_LENGTH,
        preshared_key.len() == keys::KEY_LENGTH,
    ensures
        holds_keys(
            local_endpoint(config, private_key, peer_public_key, preshared_key),
            private_key,
            peer_public_key,
            preshared_key,
        ),
        holds_keys(
            remote_endpoint(config, private_key, peer_public_key, preshared_key),
            private_key,
            peer_public_key,
            preshared_key,
        ),
{
    keys::encoded_key_decodes(private_key);
    keys::encoded_key_decodes(peer_public_key);
    keys::encoded_key_decodes(preshared_key);
}

/// Both endpoints serve for longer than the measurement takes.
pub proof fn endpoints_outlast_the_measurement(
    config: config::ControllerConfigView,
    private_key: Seq<u8>,
    peer_public_key: Seq<u8>,
    preshared_key: Seq<u8>,
)
    requires
        config.duration + LEASE_MARGIN <= u64::MAX,
    ensures
        local_endpoint(config, private_key, peer_public_key, preshared_key).lease_seconds
            == config.duration + LEASE_MARGIN,
        remote_endpoint(config, private_key, peer_public_key, preshared_key).lease_seconds
            == config.duration + LEASE_MARGIN,
{
}

/// Both endpoints of a run follow its configuration: its interface, its MTU and its port of
/// the tunnel, whatever they are, and a lease two minutes longer than the measurement. Each
/// reaches the other at the address of its host and at that port.
pub proof fn endpoints_follow_the_configuration(
    config: config::ControllerConfigView,
    private_key: Seq<u8>,
    peer_public_key: Seq<u8>,
    preshared_key: Seq<u8>,
)
    ensures
        ({
            let args = local_endpoint(config, private_key, peer_public_key, preshared_key);
            &&& args.interface == config.interface
            &&& args.mtu == config.mtu
            &&& args.listen_port == config.listen_port
            &&& config.duration + 120 <= u64::MAX ==> args.lease_seconds == config.duration + 120
            &&& config.bob_address matches address::IpAddrView::V4(ip) ==> args.peer_endpoint == (
            address::SocketAddrView::V4 { ip, port: config.listen_port })
            &&& config.bob_address matches address::IpAddrView::V6(segments) ==> args.peer_endpoint
                == (address::SocketAddrView::V6 {
                segments,
                port: config.listen_port,
                flowinfo: 0,
                scope_id: 0,
            })
        }),
        ({
            let args = remote_endpoint(config, private_key, peer_public_key, preshared_key);
            &&& args.interface == config.interface
            &&& args.mtu == config.mtu
            &&& args.listen_port == config.listen_port
            &&& config.duration + 120 <= u64::MAX ==> args.lease_seconds == config.duration + 120
            &&& config.alice_address matches address::IpAddrView::V4(ip) ==> args.peer_endpoint == (
            address::SocketAddrView::V4 { ip, port: config.listen_port })
            &&& config.alice_address matches address::IpAddrView::V6(segments) ==> args.peer_endpoint
                == (address::SocketAddrView::V6 {
                segments,
                port: config.listen_port,
                flowinfo: 0,
                scope_id: 0,
            })
        }),
{
    address::socket_has_its_address_and_port(config.alice_address, config.listen_port);
    address::socket_has_its_address_and_port(config.bob_address, config.listen_port);
}

/// Whatever the configuration and the keys are, the endpoints of a run have the addresses
/// 10.0.1.1 on this host and 10.0.1.2 on the peer inside the tunnel, and each knows that of
/// the other.
pub proof fn endpoints_have_neighbouring_addresses(
    config: config::ControllerConfigView,
    private_key: Seq<u8>,
    peer_public_key: Seq<u8>,
    preshared_key: Seq<u8>,
)
    ensures
        ({
            let alice = Ipv4Addr { a: 10, b: 0, c: 1, d: 1 };
            let bob = Ipv4Addr { a: 10, b: 0, c: 1, d: 2 };
            let local = local_endpoint(config, private_key, peer_public_key, preshared_key);
            let remote = remote_endpoint(config, private_key, peer_public_key, preshared_key);
            &&& local.tunnel_address == alice && local.peer_tunnel_address == bob
            &&& remote.tunnel_address == bob && remote.peer_tunnel_address == alice
        }),
{
}

/// The keys of an endpoint are in lower-case hexadecimal, and are its own secret key, the
/// public key of the other, and the shared key.
pub proof fn endpoints_show_their_keys(
    config: config::ControllerConfigView,
    private_key: Seq<u8>,
    peer_public_key: Seq<u8>,
    preshared_key: Seq<u8>,
)
    ensures
        ({
            let local = local_endpoint(config, private_key, peer_public_key, preshared_key);
            let remote = remote_endpoint(config, private_key, peer_public_key, preshared_key);
            &&& local.private_key == keys::hex_text(private_key)
            &&& local.peer_public_key == keys::hex_text(peer_public_key)
            &&& local.preshared_key == keys::hex_text(preshared_key)
            &&& remote.private_key == keys::hex_text(private_key)
            &&& remote.peer_public_key == keys::hex_text(peer_public_key)
            &&& remote.preshared_key == keys::hex_text(preshared_key)
        }),
{
}

/// The directory of a run on the peer is `benchy-` and the identity of the run, below
/// `/tmp`, and the executable in a directory is `gotatun-throughput`.
pub proof fn paths_name_the_run(run_id: Seq<char>, dir: Seq<char>)
    requires
        text::lacks(run_id, '/'),
    ensures
        ({
            let fields = text::split(remote_dir_path(run_id), '/');
            &&& fields.len() == 3
            &&& fields[0] == Seq::<char>::empty()
            &&& fields[1] == "tmp"@
            &&& fields[2] == "benchy-"@ + run_id
        }),
        ({
            let fields = text::split(remote_executable_path(dir), '/');
            &&& fields.last() == "gotatun-throughput"@
            &&& fields.drop_last() == text::split(dir, '/')
        }),
{
    lemma_directory_fields(run_id);
    lemma_executable_fields(dir);
}

/// The fields of the path of a directory.
proof fn lemma_directory_fields(run_id: Seq<char>)
    requires
        text::lacks(run_id, '/'),
    ensures
        text::split(remote_dir_path(run_id), '/') == seq![
            Seq::<char>::empty(),
            "tmp"@,
            "benchy-"@ + run_id,
        ],
{
    reveal_strlit("/tmp/benchy-");
    reveal_strlit("tmp");
    reveal_strlit("benchy-");
    let nothing = Seq::<char>::empty();
    let name = "benchy-"@ + run_id;
    let slash = seq!['/'];
    assert(text::lacks(name, '/')) by {
        assert forall|i: int| 0 <= i < name.len() implies #[trigger] name[i] != '/' by {
            if i >= 7 {
                assert(name[i] == run_id[i - 7]);
            }
        }
    }
    let one = seq![nothing];
    let two = one.push("tmp"@);
    let fields = two.push(name);
    text::joined_grows_by_a_part(Seq::empty(), nothing, slash);
    text::joined_grows_by_a_part(one, "tmp"@, slash);
    text::joined_grows_by_a_part(two, name, slash);
    assert(nothing + slash + "tmp"@ + slash + name =~= remote_dir_path(run_id));
    assert(fields =~= seq![nothing, "tmp"@, name]);
    text::split_undoes_joined(fields, '/');
}

/// The fields of the path of an executable.
proof fn lemma_executable_fields(dir: Seq<char>)
    ensures
        text::split(remote_executable_path(dir), '/') == text::split(dir, '/').push(
            "gotatun-throughput"@,
        ),
        text::split(remote_executable_path(dir), '/').drop_last() == text::split(dir, '/'),
{
    reveal_strlit("/gotatun-throughput");
    reveal_strlit("gotatun-throughput");
    let name = "gotatun-throughput"@;
    let parts = text::split(dir, '/');
    let longer = parts.push(name);
    text::joined_undoes_split(dir, '/');
    text::joined_grows_by_a_part(parts, name, seq!['/']);
    assert(dir + seq!['/'] + name =~= remote_executable_path(dir));
    assert forall|i: int| 0 <= i < longer.len() implies text::lacks(#[trigger] longer[i], '/') by {
        if i < parts.len() {
            assert(longer[i] == parts[i]);
        }
    }
    text::split_undoes_joined(longer, '/');
    assert(longer.drop_last() =~= parts);
}

/// The path of a run holds its identity as it is, whatever characters it has, so that two
/// runs have two directories, and two directories have two executables.
pub proof fn paths_are_told_apart(a: Seq<char>, b: Seq<char>)
    ensures
        remote_dir_path(a) == remote_dir_path(b) ==> a == b,
        remote_executable_path(a) == remote_executable_path(b) ==> a == b,
        remote_dir_path(a + b) == remote_dir_path(a) + b,
        remote_executable_path(a + b) == a + remote_executable_path(b),
{
    reveal_strlit("/tmp/benchy-");
    reveal_strlit("/gotatun-throughput");
    let n = "/tmp/benchy-"@.len() as int;
    let m = "/gotatun-throughput"@.len() as int;
    assert(remote_dir_path(a).skip(n) =~= a);
    assert(remote_dir_path(b).skip(n) =~= b);
    assert(remote_executable_path(a).take(remote_executable_path(a).len() - m) =~= a);
    assert(remote_executable_path(b).take(remote_executable_path(b).len() - m) =~= b);
    assert(remote_dir_path(a + b) =~= remote_dir_path(a) + b);
    assert(remote_executable_path(a + b) =~= a + remote_executable_path(b));
}

/// The endpoints of a run, whatever its keys are, follow its configuration: what each of them
/// holds is what the configuration says, their tunnel addresses and hosts are each other's,
/// both accept their keys, and the public key of each belongs to the secret key of the other.
pub proof fn pair_of_a_run_follows_the_configuration(
    pair: EndpointPair,
    config: config::ControllerConfigView,
    alice: Seq<u8>,
    bob: Seq<u8>,
    preshared: Seq<u8>,
)
    requires
        is_pair_of(pair, config, alice, bob, preshared),
        config.duration + 120 <= u64::MAX,
    ensures
        pair.local@.interface == config.interface && pair.remote@.interface == config.interface,
        pair.local@.mtu == config.mtu && pair.remote@.mtu == config.mtu,
        pair.local@.listen_port == config.listen_port && pair.remote@.listen_port
            == config.listen_port,
        pair.local@.lease_seconds == config.duration + 120 && pair.remote@.lease_seconds
            == config.duration + 120,
        pair.local@.tunnel_address == (Ipv4Addr { a: 10, b: 0, c: 1, d: 1 }),
        pair.remote@.tunnel_address == (Ipv4Addr { a: 10, b: 0, c: 1, d: 2 }),
        pair.local@.peer_tunnel_address == pair.remote@.tunnel_address,
        pair.remote@.peer_tunnel_address == pair.local@.tunnel_address,
        pair.local@.peer_endpoint == address::socket_of(config.bob_address, config.listen_port),
        pair.remote@.peer_endpoint == address::socket_of(config.alice_address, config.listen_port),
        keys::key_read(pair.local@.private_key) == Ok::<Seq<u8>, keys::KeyError>(alice),
        keys::key_read(pair.remote@.private_key) == Ok::<Seq<u8>, keys::KeyError>(bob),
        keys::key_read(pair.local@.peer_public_key) == Ok::<Seq<u8>, keys::KeyError>(
            keys::x25519_public_key(bob),
        ),
        keys::key_read(pair.remote@.peer_public_key) == Ok::<Seq<u8>, keys::KeyError>(
            keys::x25519_public_key(alice),
        ),
        keys::key_read(pair.local@.preshared_key) == Ok::<Seq<u8>, keys::KeyError>(preshared),
        keys::key_read(pair.remote@.preshared_key) == Ok::<Seq<u8>, keys::KeyError>(preshared),
{
}

} // verus!
