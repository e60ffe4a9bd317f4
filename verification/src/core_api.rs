//! What the core of the client reports of its network.

use std::collections::HashMap;

use vstd::prelude::*;

use crate::ipv4;

verus! {

/// A client as the server lists it.
#[derive(Debug)]
pub struct ServerClient {
    pub ip: u32,
    pub name: String,
    pub online: bool,
    pub key_sign: Option<Vec<u8>>,
}

/// A client as the core knows it.
#[derive(Debug, Clone, Copy)]
pub struct ClientIp {
    pub ip: u32,
    pub online: bool,
}

/// A server that the core connects to: its address, whether it is connected, the round-trip time
/// if one was measured, and whether the clients that it knows are online.
#[derive(Debug)]
pub struct ServerNode {
    pub server_addr: String,
    pub connected: bool,
    pub rtt: Option<u32>,
    pub client_map: HashMap<u32, bool>,
}

/// A route between two clients.
#[derive(Debug)]
pub struct CoreRoute {
    pub direct: bool,
    pub addr: String,
    pub metric: u8,
    pub rtt: u32,
}

/// The addresses that the server gave to this client.
#[derive(Debug, Clone, Copy)]
pub struct NetworkAddr {
    pub ip: u32,
    pub prefix_len: u8,
    pub gateway: u32,
    pub broadcast: u32,
}

impl NetworkAddr {
    /// The prefix is no longer than an address.
    pub open spec fn wf(self) -> bool {
        self.prefix_len <= 32
    }
}

/// The network that this client is in.
#[derive(Debug, Clone, Copy)]
pub struct CurrentNetwork {
    pub addr: NetworkAddr,
    pub net: ipv4::Ipv4Network,
}

impl CurrentNetwork {
    /// Both prefixes are no longer than an address.
    pub open spec fn wf(self) -> bool {
        self.addr.wf() && self.net.wf()
    }
}

/// How many bytes went to a client and came from it.
#[derive(Debug, Clone, Copy)]
pub struct TrafficInfo {
    pub ip: u32,
    pub tx_bytes: u64,
    pub rx_bytes: u64,
}

/// What the core reports at one moment.
#[derive(Debug)]
pub struct CoreApi {
    pub network: Option<CurrentNetwork>,
    pub server_nodes: Vec<ServerNode>,
    pub client_ips: Vec<ClientIp>,
    pub route_table: Vec<(u32, Vec<CoreRoute>)>,
    pub traffic: Vec<TrafficInfo>,
}

impl CoreApi {
    /// The network, if there is one, has valid prefixes.
    pub open spec fn wf(self) -> bool {
        self.network matches Some(network) ==> network.wf()
    }
}

/// Addresses, a network and a report are valid exactly if no prefix has more than 32 bits.
pub proof fn law_validity(addr: NetworkAddr, network: CurrentNetwork, api: CoreApi)
    ensures
        addr.wf() <==> addr.prefix_len <= 32,
        network.wf() <==> network.addr.prefix_len <= 32 && network.net.prefix_len <= 32,
        api.network is None ==> api.wf(),
        api.network matches Some(current) ==> (api.wf() <==> current.addr.prefix_len <= 32
            && current.net.prefix_len <= 32),
{
}

} // verus!
