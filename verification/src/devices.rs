//! This device, the other clients, and what is known of their NATs.

use vstd::prelude::*;

use crate::config;
use crate::core_api::{ClientIp, CoreApi, CurrentNetwork, ServerClient, ServerNode};
use crate::ipv4;
use crate::routes;
use crate::text;

verus! {

/// Another client as it is shown.
#[derive(Debug)]
pub struct RustPeerClientInfo {
    pub virtual_ip: String,
    pub name: String,
    pub status: String,
    pub client_secret: bool,
}

/// The value of a [`RustPeerClientInfo`].
pub struct PeerClient {
    pub virtual_ip: Seq<char>,
    pub name: Seq<char>,
    pub status: Seq<char>,
    pub client_secret: bool,
}

impl View for RustPeerClientInfo {
    type V = PeerClient;

    open spec fn view(&self) -> PeerClient {
        PeerClient {
            virtual_ip: self.virtual_ip@,
            name: self.name@,
            status: self.status@,
            client_secret: self.client_secret,
        }
    }
}

/// The values of some clients.
pub open spec fn peers_view(peers: Seq<RustPeerClientInfo>) -> Seq<PeerClient> {
    peers.map_values(|peer: RustPeerClientInfo| peer@)
}

/// Whether a client is online, in words.
pub open spec fn status_text(online: bool) -> Seq<char> {
    if online {
        "Online"@
    } else {
        "Offline"@
    }
}

/// The bytes of a key signature that may be missing.
pub open spec fn bytes_option(bytes: Option<Vec<u8>>) -> Option<Seq<u8>> {
    match bytes {
        Some(bytes) => Some(bytes@),
        None => None,
    }
}

/// The key signature of a client: none if it is empty.
pub open spec fn given_key_sign(key_sign: Option<Seq<u8>>) -> Option<Seq<u8>> {
    match key_sign {
        Some(bytes) if bytes.len() > 0 => Some(bytes),
        _ => None,
    }
}

/// A client that the server lists, as it is shown: under its address if its name is blank, and
/// secret if its key signature is not that of this device.
pub open spec fn listed_peer(client: ServerClient, local_key_sign: Option<Seq<u8>>) -> PeerClient {
    PeerClient {
        virtual_ip: ipv4::address_text(client.ip),
        name: if config::is_blank(client.name@) {
            ipv4::address_text(client.ip)
        } else {
            client.name@
        },
        status: status_text(client.online),
        client_secret: given_key_sign(bytes_option(client.key_sign)) != local_key_sign,
    }
}

/// A client that only the core knows, as it is shown.
pub open spec fn known_peer(client: ClientIp) -> PeerClient {
    PeerClient {
        virtual_ip: ipv4::address_text(client.ip),
        name: ipv4::address_text(client.ip),
        status: status_text(client.online),
        client_secret: false,
    }
}

/// The clients as they are shown: those that the server lists, if it answers with any, else those
/// that the core knows.
pub open spec fn peer_list(
    listed: Option<Seq<ServerClient>>,
    local_key_sign: Option<Seq<u8>>,
    known: Seq<ClientIp>,
) -> Seq<PeerClient> {
    match listed {
        Some(clients) if clients.len() > 0 => clients.map_values(
            |client: ServerClient| listed_peer(client, local_key_sign),
        ),
        _ => known.map_values(|client: ClientIp| known_peer(client)),
    }
}

/// Whether two byte strings are equal.
fn same_bytes(a: &Vec<u8>, b: &Vec<u8>) -> (same: bool)
    ensures
        same == (a@ == b@),
{
    if a.len() != b.len() {
        return false;
    }
    let mut i: usize = 0;
    while i < a.len()
        invariant
            i <= a.len() == b.len(),
            forall|j: int| 0 <= j < i ==> a@[j] == b@[j],
        decreases a.len() - i,
    {
        if a[i] != b[i] {
            return false;
        }
        i += 1;
    }
    assert(a@ == b@);
    true
}

/// Whether the key signature of a client differs from that of this device.
fn is_secret(key_sign: &Option<Vec<u8>>, local_key_sign: &Option<Vec<u8>>) -> (b: bool)
    ensures
        b == (given_key_sign(bytes_option(*key_sign)) != bytes_option(*local_key_sign)),
{
    let given = match key_sign {
        Some(bytes) => bytes.len() > 0,
        None => false,
    };
    match (key_sign, local_key_sign) {
        (Some(theirs), Some(ours)) => !given || !same_bytes(theirs, ours),
        (_, Some(_)) => true,
        (_, None) => given,
    }
}

/// Whether a client is online, in words.
fn status_of(online: bool) -> (s: String)
    ensures
        s@ == status_text(online),
{
    if online {
        "Online".to_string()
    } else {
        "Offline".to_string()
    }
}

/// The clients that the server lists, as they are shown.
fn listed_peers(clients: &Vec<ServerClient>, local_key_sign: &Option<Vec<u8>>) -> (peers: Vec<
    RustPeerClientInfo,
>)
    ensures
        peers_view(peers@) == clients@.map_values(
            |client: ServerClient| listed_peer(client, bytes_option(*local_key_sign)),
        ),
{
    let mut peers: Vec<RustPeerClientInfo> = Vec::new();
    let mut i: usize = 0;
    while i < clients.len()
        invariant
            i <= clients.len(),
            peers@.len() == i,
            forall|j: int| 0 <= j < i ==> (#[trigger] peers@[j])@ == listed_peer(
                clients@[j],
                bytes_option(*local_key_sign),
            ),
        decreases clients.len() - i,
    {
        let client = &clients[i];
        let name = if client.name.as_str().trim().is_empty() {
            ipv4::to_text(client.ip)
        } else {
            client.name.clone()
        };
        peers.push(
            RustPeerClientInfo {
                virtual_ip: ipv4::to_text(client.ip),
                name,
                status: status_of(client.online),
                client_secret: is_secret(&client.key_sign, local_key_sign),
            },
        );
        i += 1;
    }
    peers
}

/// The clients that the core knows, as they are shown.
fn known_peers(clients: &Vec<ClientIp>) -> (peers: Vec<RustPeerClientInfo>)
    ensures
        peers_view(peers@) == clients@.map_values(|client: ClientIp| known_peer(client)),
{
    let mut peers: Vec<RustPeerClientInfo> = Vec::new();
    let mut i: usize = 0;
    while i < clients.len()
        invariant
            i <= clients.len(),
            peers@.len() == i,
            forall|j: int| 0 <= j < i ==> (#[trigger] peers@[j])@ == known_peer(clients@[j]),
        decreases clients.len() - i,
    {
        let client = clients[i];
        peers.push(
            RustPeerClientInfo {
                virtual_ip: ipv4::to_text(client.ip),
                name: ipv4::to_text(client.ip),
                status: status_of(client.online),
                client_secret: false,
            },
        );
        i += 1;
    }
    peers
}

/// The clients as they are shown. `listed` is what the server answers, if it does.
pub fn build_peer_list(
    listed: &Option<Vec<ServerClient>>,
    local_key_sign: &Option<Vec<u8>>,
    known: &Vec<ClientIp>,
) -> (peers: Vec<RustPeerClientInfo>)
    ensures
        peers_view(peers@) == peer_list(
            match *listed {
                Some(clients) => Some(clients@),
                None => None,
            },
            bytes_option(*local_key_sign),
            known@,
        ),
{
    if let Some(clients) = listed {
        if clients.len() > 0 {
            return listed_peers(clients, local_key_sign);
        }
    }
    known_peers(known)
}

/// This device as it is shown.
#[derive(Debug)]
pub struct RustCurrentDeviceInfo {
    pub virtual_ip: String,
    pub virtual_netmask: String,
    pub virtual_gateway: String,
    pub virtual_network: String,
    pub broadcast_ip: String,
    pub connect_server: String,
    pub status: String,
}

/// The value of a [`RustCurrentDeviceInfo`].
pub struct CurrentDevice {
    pub virtual_ip: Seq<char>,
    pub virtual_netmask: Seq<char>,
    pub virtual_gateway: Seq<char>,
    pub virtual_network: Seq<char>,
    pub broadcast_ip: Seq<char>,
    pub connect_server: Seq<char>,
    pub status: Seq<char>,
}

impl View for RustCurrentDeviceInfo {
    type V = CurrentDevice;

    open spec fn view(&self) -> CurrentDevice {
        CurrentDevice {
            virtual_ip: self.virtual_ip@,
            virtual_netmask: self.virtual_netmask@,
            virtual_gateway: self.virtual_gateway@,
            virtual_network: self.virtual_network@,
            broadcast_ip: self.broadcast_ip@,
            connect_server: self.connect_server@,
            status: self.status@,
        }
    }
}

/// A device of which nothing is known.
pub open spec fn unknown_device() -> CurrentDevice {
    let none = Seq::<char>::empty();
    CurrentDevice {
        virtual_ip: none,
        virtual_netmask: none,
        virtual_gateway: none,
        virtual_network: none,
        broadcast_ip: none,
        connect_server: none,
        status: none,
    }
}

impl Default for RustCurrentDeviceInfo {
    fn default() -> (device: Self)
        ensures
            device@ == unknown_device(),
    {
        RustCurrentDeviceInfo {
            virtual_ip: String::new(),
            virtual_netmask: String::new(),
            virtual_gateway: String::new(),
            virtual_network: String::new(),
            broadcast_ip: String::new(),
            connect_server: String::new(),
            status: String::new(),
        }
    }
}

/// `i` is the first server that is connected.
pub open spec fn is_first_connected(nodes: Seq<ServerNode>, i: int) -> bool {
    &&& 0 <= i < nodes.len()
    &&& nodes[i].connected
    &&& forall|j: int| 0 <= j < i ==> !(#[trigger] nodes[j]).connected
}

/// A server is connected.
pub open spec fn is_connected(nodes: Seq<ServerNode>) -> bool {
    exists|i: int| 0 <= i < nodes.len() && (#[trigger] nodes[i]).connected
}

/// The server that the device uses: the first that is connected, else the first, if there is any.
pub open spec fn connect_server(nodes: Seq<ServerNode>) -> Seq<char> {
    if exists|i: int| is_first_connected(nodes, i) {
        nodes[choose|i: int| is_first_connected(nodes, i)].server_addr@
    } else if nodes.len() > 0 {
        nodes[0].server_addr@
    } else {
        Seq::empty()
    }
}

/// This device as it is shown.
pub open spec fn current_device(api: CoreApi) -> CurrentDevice {
    match api.network {
        Some(network) => CurrentDevice {
            virtual_ip: ipv4::address_text(network.addr.ip),
            virtual_netmask: ipv4::address_text(ipv4::netmask(network.addr.prefix_len)),
            virtual_gateway: ipv4::address_text(network.addr.gateway),
            virtual_network: ipv4::address_text(
                ipv4::network_part(network.net.addr, network.net.prefix_len),
            ),
            broadcast_ip: ipv4::address_text(network.addr.broadcast),
            connect_server: connect_server(api.server_nodes@),
            status: if is_connected(api.server_nodes@) {
                "Online"@
            } else {
                "Connecting"@
            },
        },
        None => unknown_device(),
    }
}

/// The first server that is connected.
fn first_connected(nodes: &Vec<ServerNode>) -> (r: Option<usize>)
    ensures
        r matches Some(i) ==> is_first_connected(nodes@, i as int),
        r is None ==> !is_connected(nodes@),
{
    let mut i: usize = 0;
    while i < nodes.len()
        invariant
            i <= nodes.len(),
            forall|j: int| 0 <= j < i ==> !(#[trigger] nodes@[j]).connected,
        decreases nodes.len() - i,
    {
        if nodes[i].connected {
            return Some(i);
        }
        i += 1;
    }
    None
}

/// This device as it is shown.
pub fn current_device_from_api(api: &CoreApi) -> (device: RustCurrentDeviceInfo)
    requires
        api.wf(),
    ensures
        device@ == current_device(*api),
{
    let network = match &api.network {
        Some(network) => *network,
        None => return RustCurrentDeviceInfo::default(),
    };
    let nodes = &api.server_nodes;
    let connected = first_connected(nodes);
    let connect_server = match connected {
        Some(i) => {
            proof {
                let k = choose|k: int| is_first_connected(nodes@, k);
                assert(is_first_connected(nodes@, k));
                assert(nodes@[i as int].connected && nodes@[k].connected);
            }
            nodes[i].server_addr.clone()
        },
        None => if nodes.len() > 0 {
            nodes[0].server_addr.clone()
        } else {
            String::new()
        },
    };
    let virtual_network = match ipv4::network_address(network.net) {
        Ok(addr) => ipv4::to_text(addr),
        // A valid prefix is not refused.
        Err(_) => String::new(),
    };
    RustCurrentDeviceInfo {
        virtual_ip: ipv4::to_text(network.addr.ip),
        virtual_netmask: ipv4::to_text(ipv4::prefix_to_netmask(network.addr.prefix_len)),
        virtual_gateway: ipv4::to_text(network.addr.gateway),
        virtual_network,
        broadcast_ip: ipv4::to_text(network.addr.broadcast),
        connect_server,
        status: if connected.is_some() {
            "Online".to_string()
        } else {
            "Connecting".to_string()
        },
    }
}

/// The kinds of NAT.
#[derive(Debug, Clone, Copy, PartialEq, Eq, Structural)]
pub enum NatType {
    Cone,
    Symmetric,
}

/// What is known of the NAT in front of a client. The IPv6 address is given as its text.
#[derive(Debug)]
pub struct NatInfo {
    pub nat_type: NatType,
    pub public_ips: Vec<u32>,
    pub local_ipv4: u32,
    pub ipv6: Option<String>,
}

/// What is known of the NAT in front of a client, as it is shown.
#[derive(Debug)]
pub struct RustNatInfo {
    pub public_ips: Vec<String>,
    pub nat_type: String,
    pub local_ipv4: Option<String>,
    pub ipv6: Option<String>,
}

/// The value of a [`RustNatInfo`].
pub struct Nat {
    pub public_ips: Seq<Seq<char>>,
    pub nat_type: Seq<char>,
    pub local_ipv4: Option<Seq<char>>,
    pub ipv6: Option<Seq<char>>,
}

impl View for RustNatInfo {
    type V = Nat;

    open spec fn view(&self) -> Nat {
        Nat {
            public_ips: config::texts(self.public_ips@),
            nat_type: self.nat_type@,
            local_ipv4: config::text_option(self.local_ipv4),
            ipv6: config::text_option(self.ipv6),
        }
    }
}

/// A NAT of which nothing is known.
pub open spec fn unknown_nat() -> Nat {
    Nat {
        public_ips: Seq::empty(),
        nat_type: Seq::empty(),
        local_ipv4: None,
        ipv6: None,
    }
}

impl Default for RustNatInfo {
    fn default() -> (shown: Self)
        ensures
            shown@ == unknown_nat(),
    {
        let shown = RustNatInfo {
            public_ips: Vec::new(),
            nat_type: String::new(),
            local_ipv4: None,
            ipv6: None,
        };
        assert(shown@.public_ips == Seq::<Seq<char>>::empty());
        shown
    }
}

/// The name of a kind of NAT.
pub open spec fn nat_type_name(nat_type: NatType) -> Seq<char> {
    match nat_type {
        NatType::Cone => "Cone"@,
        NatType::Symmetric => "Symmetric"@,
    }
}

/// The `Debug` form of `rust_p2p_core::nat::NatType` is the name of the variant.
#[verifier::external_body]
fn nat_type_text(nat_type: NatType) -> (s: String)
    ensures
        s@ == nat_type_name(nat_type),
{
    let nat_type = match nat_type {
        NatType::Cone => rust_p2p_core::nat::NatType::Cone,
        NatType::Symmetric => rust_p2p_core::nat::NatType::Symmetric,
    };
    format!("{:?}", nat_type)
}

/// What is known of a NAT, as it is shown. The local address is left out if it is unspecified,
/// which is zero.
pub open spec fn shown_nat(info: NatInfo) -> Nat {
    Nat {
        public_ips: info.public_ips@.map_values(|ip: u32| ipv4::address_text(ip)),
        nat_type: nat_type_name(info.nat_type),
        local_ipv4: if info.local_ipv4 == 0 {
            None
        } else {
            Some(ipv4::address_text(info.local_ipv4))
        },
        ipv6: config::text_option(info.ipv6),
    }
}

impl vstd::std_specs::convert::FromSpecImpl<NatInfo> for RustNatInfo {
    /// The texts are determined by their values, not as objects: the `ensures` of `from` says more.
    open spec fn obeys_from_spec() -> bool {
        false
    }

    open spec fn from_spec(value: NatInfo) -> Self {
        arbitrary()
    }
}

impl From<NatInfo> for RustNatInfo {
    /// What is known of a NAT, as it is shown.
    fn from(value: NatInfo) -> (shown: Self)
        ensures
            shown@ == shown_nat(value),
    {
        let local_ipv4 = if value.local_ipv4 == 0 {
            None
        } else {
            Some(ipv4::to_text(value.local_ipv4))
        };
        let ips = &value.public_ips;
        let mut public_ips: Vec<String> = Vec::new();
        let mut i: usize = 0;
        while i < ips.len()
            invariant
                i <= ips.len(),
                public_ips@.len() == i,
                forall|j: int| 0 <= j < i ==> (#[trigger] public_ips@[j])@ == ipv4::address_text(ips@[j]),
            decreases ips.len() - i,
        {
            public_ips.push(ipv4::to_text(ips[i]));
            i += 1;
        }
        assert(config::texts(public_ips@) == ips@.map_values(|ip: u32| ipv4::address_text(ip)));
        RustNatInfo {
            public_ips,
            nat_type: nat_type_text(value.nat_type),
            local_ipv4,
            ipv6: value.ipv6,
        }
    }
}

/// As many clients are shown as the server lists, or as the core knows if the server lists none, and
/// in the same order: each under its address, with its status.
pub proof fn law_peer_list_keeps_clients(
    listed: Option<Seq<ServerClient>>,
    local_key_sign: Option<Seq<u8>>,
    known: Seq<ClientIp>,
)
    ensures
        ({
            let peers = peer_list(listed, local_key_sign, known);
            match listed {
                Some(clients) if clients.len() > 0 => {
                    &&& peers.len() == clients.len()
                    &&& forall|i: int|
                        0 <= i < clients.len() ==> (#[trigger] peers[i]).virtual_ip
                            == ipv4::address_text(clients[i].ip) && peers[i].status == status_text(
                            clients[i].online,
                        )
                },
                _ => {
                    &&& peers.len() == known.len()
                    &&& forall|i: int|
                        0 <= i < known.len() ==> (#[trigger] peers[i]).virtual_ip
                            == ipv4::address_text(known[i].ip) && peers[i].status == status_text(
                            known[i].online,
                        )
                },
            }
        }),
{
}

/// No client is shown with a blank name.
pub proof fn law_peers_have_names(
    listed: Option<Seq<ServerClient>>,
    local_key_sign: Option<Seq<u8>>,
    known: Seq<ClientIp>,
    i: int,
)
    requires
        0 <= i < peer_list(listed, local_key_sign, known).len(),
    ensures
        !config::is_blank(peer_list(listed, local_key_sign, known)[i].name),
{
    assert forall|ip: u32| !config::is_blank(#[trigger] ipv4::address_text(ip)) by {
        let s = ipv4::address_text(ip);
        text::lemma_decimal(ipv4::octet(ip, 0));
        text::lemma_decimal(ipv4::octet(ip, 3));
        let first = text::decimal(ipv4::octet(ip, 0));
        let last = text::decimal(ipv4::octet(ip, 3));
        assert(s[0] == first[0] && text::is_digit(first[0]));
        assert(s.last() == last.last() && text::is_digit(last[last.len() - 1]));
        assert(text::trimmed(s) == s);
    }
}

/// A client with the key signature of this device is not secret, and neither is a client without
/// one if this device has none.
pub proof fn law_same_key_is_not_secret(client: ServerClient, local_key_sign: Option<Seq<u8>>)
    requires
        local_key_sign matches Some(bytes) ==> bytes.len() > 0,
    ensures
        bytes_option(client.key_sign) == local_key_sign ==> !listed_peer(
            client,
            local_key_sign,
        ).client_secret,
        local_key_sign is None ==> (listed_peer(client, local_key_sign).client_secret <==> (
        bytes_option(client.key_sign) matches Some(bytes) && bytes.len() > 0)),
{
}

/// A device in a network is online exactly when the route to the server goes over a connected one.
pub proof fn law_status_agrees_with_route(api: CoreApi)
    requires
        api.network is Some,
    ensures
        current_device(api).status == "Online"@ <==> (routes::server_route(api.server_nodes@) matches Some(
            route,
        ) && route.protocol == "Server"@),
{
    let nodes = api.server_nodes@;
    reveal_strlit("Online");
    reveal_strlit("Connecting");
    reveal_strlit("Server");
    reveal_strlit("ServerConnecting");
    assert("Online"@.len() != "Connecting"@.len());
    assert("Server"@.len() != "ServerConnecting"@.len());
    if is_connected(nodes) {
        let i = choose|i: int| 0 <= i < nodes.len() && (#[trigger] nodes[i]).connected;
        routes::law_server_route_is_connected(nodes, i);
    } else {
        assert(forall|i: int| !routes::is_best(nodes, None, i));
    }
}

/// The value of a client tells all of its parts, and the values of clients are those of each.
pub proof fn law_peer_view(peers: Seq<RustPeerClientInfo>)
    ensures
        peers_view(peers).len() == peers.len(),
        forall|i: int|
            0 <= i < peers.len() ==> {
                let value = #[trigger] peers_view(peers)[i];
                &&& value.virtual_ip == peers[i].virtual_ip@
                &&& value.name == peers[i].name@
                &&& value.status == peers[i].status@
                &&& value.client_secret == peers[i].client_secret
            },
{
}

/// Each client that the server lists is shown in its place, with its own address, under its own name
/// unless that is blank, in which case under its address, and online or offline as the server says.
/// It is secret exactly if its key signature is not that of this device, where an empty one counts as
/// none.
pub proof fn law_listed_client(
    clients: Seq<ServerClient>,
    local_key_sign: Option<Seq<u8>>,
    known: Seq<ClientIp>,
    i: int,
)
    requires
        0 <= i < clients.len(),
    ensures
        ({
            let peers = peer_list(Some(clients), local_key_sign, known);
            let client = clients[i];
            &&& peers.len() == clients.len()
            &&& peers[i].virtual_ip == ipv4::address_text(client.ip)
            &&& config::is_blank(client.name@) ==> peers[i].name == ipv4::address_text(client.ip)
            &&& !config::is_blank(client.name@) ==> peers[i].name == client.name@
            &&& client.online ==> peers[i].status == "Online"@
            &&& !client.online ==> peers[i].status == "Offline"@
            &&& match client.key_sign {
                Some(key) if key@.len() > 0 => peers[i].client_secret <==> local_key_sign != Some(key@),
                _ => peers[i].client_secret <==> local_key_sign is Some,
            }
        }),
{
}

/// Where the server lists no client, each one that the core knows is shown in its place, under its
/// own address, online or offline as the core says, and never as secret.
pub proof fn law_known_client(
    listed: Option<Seq<ServerClient>>,
    local_key_sign: Option<Seq<u8>>,
    known: Seq<ClientIp>,
    i: int,
)
    requires
        listed matches Some(clients) ==> clients.len() == 0,
        0 <= i < known.len(),
    ensures
        ({
            let peers = peer_list(listed, local_key_sign, known);
            &&& peers.len() == known.len()
            &&& peers[i].virtual_ip == ipv4::address_text(known[i].ip)
            &&& peers[i].name == ipv4::address_text(known[i].ip)
            &&& known[i].online ==> peers[i].status == "Online"@
            &&& !known[i].online ==> peers[i].status == "Offline"@
            &&& !peers[i].client_secret
        }),
{
}

/// The bytes of a key signature that may be missing are there exactly if it is.
pub proof fn law_key_bytes(key: Option<Vec<u8>>)
    ensures
        key is None ==> bytes_option(key) is None,
        key matches Some(bytes) ==> bytes_option(key) == Some(bytes@),
{
}

/// The value of a device tells all of its parts.
pub proof fn law_device_view(device: RustCurrentDeviceInfo)
    ensures
        device@.virtual_ip == device.virtual_ip@,
        device@.virtual_netmask == device.virtual_netmask@,
        device@.virtual_gateway == device.virtual_gateway@,
        device@.virtual_network == device.virtual_network@,
        device@.broadcast_ip == device.broadcast_ip@,
        device@.connect_server == device.connect_server@,
        device@.status == device.status@,
{
}

/// A device in a network is shown with its own address, the netmask of its prefix, its gateway, its
/// network, which is an address of it under the netmask, and its broadcast address.
pub proof fn law_device_addresses(api: CoreApi, network: CurrentNetwork)
    requires
        api.network == Some(network),
        network.net.prefix_len <= 32,
    ensures
        ipv4::address_of(current_device(api).virtual_ip) == Some(network.addr.ip),
        ipv4::address_of(current_device(api).virtual_netmask) == Some(
            ipv4::netmask(network.addr.prefix_len),
        ),
        ipv4::address_of(current_device(api).virtual_gateway) == Some(network.addr.gateway),
        ipv4::address_of(current_device(api).virtual_network) == Some(
            network.net.addr & ipv4::netmask(network.net.prefix_len),
        ),
        ipv4::address_of(current_device(api).broadcast_ip) == Some(network.addr.broadcast),
{
    ipv4::law_network_part_is_masked(network.net.addr, network.net.prefix_len);
    ipv4::law_address_round_trip(network.addr.ip);
    ipv4::law_address_round_trip(ipv4::netmask(network.addr.prefix_len));
    ipv4::law_address_round_trip(network.addr.gateway);
    ipv4::law_address_round_trip(ipv4::network_part(network.net.addr, network.net.prefix_len));
    ipv4::law_address_round_trip(network.addr.broadcast);
}

/// A device in a network is online with the first server that is connected.
pub proof fn law_device_uses_connected_server(api: CoreApi, i: int)
    requires
        api.network is Some,
        0 <= i < api.server_nodes@.len(),
        api.server_nodes@[i].connected,
        forall|j: int| 0 <= j < i ==> !(#[trigger] api.server_nodes@[j]).connected,
    ensures
        current_device(api).connect_server == api.server_nodes@[i].server_addr@,
        current_device(api).status == "Online"@,
{
    let nodes = api.server_nodes@;
    assert(is_first_connected(nodes, i));
    let k = choose|k: int| is_first_connected(nodes, k);
    assert(is_first_connected(nodes, k));
    assert(nodes[i].connected && nodes[k].connected);
}

/// While no server is connected, a device in a network is connecting to the first, if there is any.
pub proof fn law_device_connects_to_first_server(api: CoreApi)
    requires
        api.network is Some,
        forall|j: int|
            0 <= j < api.server_nodes@.len() ==> !(#[trigger] api.server_nodes@[j]).connected,
    ensures
        current_device(api).status == "Connecting"@,
        api.server_nodes@.len() > 0 ==> current_device(api).connect_server
            == api.server_nodes@[0].server_addr@,
        api.server_nodes@.len() == 0 ==> current_device(api).connect_server.len() == 0,
{
    assert(forall|i: int| !is_first_connected(api.server_nodes@, i));
}

/// Of a device without a network nothing is shown.
pub proof fn law_device_without_network(api: CoreApi)
    requires
        api.network is None,
    ensures
        current_device(api) == unknown_device(),
        unknown_device().virtual_ip.len() == 0,
        unknown_device().virtual_netmask.len() == 0,
        unknown_device().virtual_gateway.len() == 0,
        unknown_device().virtual_network.len() == 0,
        unknown_device().broadcast_ip.len() == 0,
        unknown_device().connect_server.len() == 0,
        unknown_device().status.len() == 0,
{
}

/// The value of what is shown of a NAT tells all of its parts.
pub proof fn law_nat_view(shown: RustNatInfo)
    ensures
        shown@.public_ips.len() == shown.public_ips@.len(),
        forall|i: int|
            0 <= i < shown.public_ips@.len() ==> #[trigger] shown@.public_ips[i] == shown.public_ips@[i]@,
        shown@.nat_type == shown.nat_type@,
        shown.local_ipv4 is None ==> shown@.local_ipv4 is None,
        shown.local_ipv4 matches Some(ip) ==> shown@.local_ipv4 == Some(ip@),
        shown.ipv6 is None ==> shown@.ipv6 is None,
        shown.ipv6 matches Some(ip) ==> shown@.ipv6 == Some(ip@),
{
}

/// Of a NAT all public addresses are shown, in their order, its kind, the local address unless it is
/// unspecified, and the IPv6 address if there is one.
pub proof fn law_shown_nat(info: NatInfo)
    ensures
        shown_nat(info).public_ips.len() == info.public_ips@.len(),
        forall|i: int|
            0 <= i < info.public_ips@.len() ==> #[trigger] shown_nat(info).public_ips[i]
                == ipv4::address_text(info.public_ips@[i]),
        info.nat_type == NatType::Cone ==> shown_nat(info).nat_type == "Cone"@,
        info.nat_type == NatType::Symmetric ==> shown_nat(info).nat_type == "Symmetric"@,
        info.local_ipv4 == 0 ==> shown_nat(info).local_ipv4 is None,
        info.local_ipv4 != 0 ==> shown_nat(info).local_ipv4 == Some(
            ipv4::address_text(info.local_ipv4),
        ),
        info.ipv6 is None ==> shown_nat(info).ipv6 is None,
        info.ipv6 matches Some(ip) ==> shown_nat(info).ipv6 == Some(ip@),
        unknown_nat().public_ips.len() == 0,
        unknown_nat().nat_type.len() == 0,
        unknown_nat().local_ipv4 is None,
        unknown_nat().ipv6 is None,
{
}

} // verus!
