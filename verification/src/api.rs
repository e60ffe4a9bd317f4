//! A client that has joined its network, and the questions that can be put to it.

use vstd::prelude::*;

use crate::core_api::{ClientIp, CoreApi, CoreRoute, ServerClient, TrafficInfo};
use crate::devices;
use crate::devices::{NatInfo, RustCurrentDeviceInfo, RustNatInfo, RustPeerClientInfo};
use crate::ipv4;
use crate::routes;
use crate::routes::RustRoute;
use crate::traffic;

verus! {

/// A client that has joined its network, over the manager that keeps it there. It has the manager
/// until it is stopped.
///
/// What the core reports at the time of a question is handed over with the question.
pub struct VntApi<M> {
    network_manager: Option<M>,
}

impl<M> View for VntApi<M> {
    type V = Option<M>;

    closed spec fn view(&self) -> Option<M> {
        self.network_manager
    }
}

/// The values of the lines of a traffic table: the text of an address, the bytes up, the bytes
/// down.
pub open spec fn lines_view(lines: Seq<(String, u64, u64)>) -> Seq<(Seq<char>, u64, u64)> {
    lines.map_values(|line: (String, u64, u64)| (line.0@, line.1, line.2))
}

/// The lines of the traffic table, one for each client.
pub open spec fn traffic_lines(traffic: Seq<TrafficInfo>) -> Seq<(Seq<char>, u64, u64)> {
    traffic.map_values(
        |info: TrafficInfo| (ipv4::address_text(info.ip), info.tx_bytes, info.rx_bytes),
    )
}

/// The bytes that the core counted for a client, as a line of one point, empty if there are none.
pub open spec fn traffic_line(info: Option<TrafficInfo>, upstream: bool) -> Seq<u64> {
    match info {
        Some(info) => seq![traffic::bytes_of(info, upstream)],
        None => Seq::empty(),
    }
}

/// The bytes that the core counted for a client, in words, empty if there are none.
pub open spec fn traffic_words(info: Option<TrafficInfo>, upstream: bool) -> Seq<char> {
    match info {
        Some(info) => traffic::traffic_text(traffic::bytes_of(info, upstream)),
        None => Seq::empty(),
    }
}

impl<M> VntApi<M> {
    /// The client has been stopped.
    pub open spec fn stopped(&self) -> bool {
        self@ is None
    }

    /// The address that a question is about: none if the client is stopped or the text writes no
    /// address.
    pub open spec fn asked(&self, ip: Seq<char>) -> Option<u32> {
        if self.stopped() {
            None
        } else {
            ipv4::address_of(ip)
        }
    }

    /// A client that has joined its network.
    pub fn new(network_manager: M) -> (api: VntApi<M>)
        ensures
            api@ == Some(network_manager),
    {
        VntApi { network_manager: Some(network_manager) }
    }

    /// Stops the client. Gives up the manager, the first time.
    pub fn stop(&mut self) -> (manager: Option<M>)
        ensures
            manager == old(self)@,
            old(self).stopped() ==> manager is None,
            final(self).stopped(),
    {
        self.network_manager.take()
    }

    /// Whether the client has been stopped.
    pub fn is_stopped(&self) -> (b: bool)
        ensures
            b == self.stopped(),
    {
        self.network_manager.is_none()
    }

    /// The other clients, where `listed` is what the server answers, if it does, and `known` are
    /// the clients that the core knows.
    pub fn device_list(
        &self,
        listed: &Option<Vec<ServerClient>>,
        local_key_sign: &Option<Vec<u8>>,
        known: &Vec<ClientIp>,
    ) -> (peers: Vec<RustPeerClientInfo>)
        ensures
            self.stopped() ==> peers@.len() == 0,
            !self.stopped() ==> devices::peers_view(peers@) == devices::peer_list(
                match *listed {
                    Some(clients) => Some(clients@),
                    None => None,
                },
                devices::bytes_option(*local_key_sign),
                known@,
            ),
    {
        if self.is_stopped() {
            return Vec::new();
        }
        devices::build_peer_list(listed, local_key_sign, known)
    }

    /// The route list.
    pub fn route_list(&self, core: &CoreApi) -> (list: Vec<(String, Vec<RustRoute>)>)
        ensures
            self.stopped() ==> list@.len() == 0,
            !self.stopped() ==> routes::entries_view(list@) == routes::route_list(*core),
    {
        if self.is_stopped() {
            return Vec::new();
        }
        routes::build_route_list_from_api(core)
    }

    /// What is known of the NAT in front of this client. `info` is what the core knows of it.
    pub fn nat_info(&self, info: Option<NatInfo>) -> (shown: RustNatInfo)
        ensures
            shown@ == (match info {
                Some(info) if !self.stopped() => devices::shown_nat(info),
                _ => devices::unknown_nat(),
            }),
    {
        if self.is_stopped() {
            return RustNatInfo::default();
        }
        match info {
            Some(info) => RustNatInfo::from(info),
            None => RustNatInfo::default(),
        }
    }

    /// This device.
    pub fn current_device(&self, core: &CoreApi) -> (device: RustCurrentDeviceInfo)
        requires
            core.wf(),
        ensures
            device@ == (if self.stopped() {
                devices::unknown_device()
            } else {
                devices::current_device(*core)
            }),
    {
        if self.is_stopped() {
            return RustCurrentDeviceInfo::default();
        }
        devices::current_device_from_api(core)
    }

    /// The address that a question is about, if the core is to be asked about one.
    pub fn lookup_address(&self, ip: &str) -> (r: Option<u32>)
        ensures
            r == self.asked(ip@),
    {
        if self.is_stopped() {
            return None;
        }
        ipv4::from_text(ip)
    }

    /// The route to an address. `found` is the route that the core finds to it.
    pub fn route(&self, core: &CoreApi, ip: &String, found: Option<CoreRoute>) -> (r: Option<
        RustRoute,
    >)
        ensures
            self.asked(ip@) is None ==> r is None,
            self.asked(ip@) matches Some(addr) ==> {
                &&& r is Some <==> routes::route_to(*core, addr, found) is Some
                &&& r matches Some(route) ==> routes::route_to(*core, addr, found) == Some(route@)
            },
    {
        match self.lookup_address(ip.as_str()) {
            Some(addr) => routes::build_route_from_api(core, addr, found),
            None => None,
        }
    }

    /// What is known of the NAT in front of another client. `info` is what the core knows of it.
    pub fn peer_nat_info(&self, ip: &String, info: Option<NatInfo>) -> (r: Option<RustNatInfo>)
        ensures
            r is Some <==> self.asked(ip@) is Some && info is Some,
            r matches Some(shown) ==> shown@ == devices::shown_nat(info->0),
    {
        match (self.lookup_address(ip.as_str()), info) {
            (Some(_), Some(info)) => Some(RustNatInfo::from(info)),
            _ => None,
        }
    }

    /// The bytes that went up in all, in words. A client that is stopped still tells them.
    pub fn up_stream(&self, core: &CoreApi) -> (s: String)
        requires
            traffic::total_bytes(core.traffic@, true) <= u64::MAX,
        ensures
            s@ == traffic::traffic_text(traffic::total_bytes(core.traffic@, true) as u64),
    {
        traffic::convert(traffic::total_traffic(core, true))
    }

    /// The bytes that came down in all, in words. A client that is stopped still tells them.
    pub fn down_stream(&self, core: &CoreApi) -> (s: String)
        requires
            traffic::total_bytes(core.traffic@, false) <= u64::MAX,
        ensures
            s@ == traffic::traffic_text(traffic::total_bytes(core.traffic@, false) as u64),
    {
        traffic::convert(traffic::total_traffic(core, false))
    }

    /// The traffic with each client.
    pub fn stream_all(&self, core: &CoreApi) -> (lines: Vec<(String, u64, u64)>)
        ensures
            self.stopped() ==> lines@.len() == 0,
            !self.stopped() ==> lines_view(lines@) == traffic_lines(core.traffic@),
            !self.stopped() ==> lines@.len() == core.traffic@.len(),
            !self.stopped() ==> forall|i: int|
                0 <= i < lines@.len() ==> (#[trigger] lines@[i]).0@ == ipv4::address_text(
                    core.traffic@[i].ip,
                ) && lines@[i].1 == core.traffic@[i].tx_bytes && lines@[i].2
                    == core.traffic@[i].rx_bytes,
    {
        let mut lines: Vec<(String, u64, u64)> = Vec::new();
        if self.is_stopped() {
            return lines;
        }
        let infos = &core.traffic;
        let mut i: usize = 0;
        while i < infos.len()
            invariant
                i <= infos.len(),
                lines@.len() == i,
                forall|j: int|
                    0 <= j < i ==> ((#[trigger] lines@[j]).0@, lines@[j].1, lines@[j].2) == (
                        ipv4::address_text(infos@[j].ip),
                        infos@[j].tx_bytes,
                        infos@[j].rx_bytes,
                    ),
            decreases infos.len() - i,
        {
            let info = infos[i];
            lines.push((ipv4::to_text(info.ip), info.tx_bytes, info.rx_bytes));
            i += 1;
        }
        assert(lines_view(lines@) == traffic_lines(core.traffic@));
        lines
    }

    /// The bytes of a client, as a line of one point. `info` is what the core counted for it.
    fn stream_line(&self, ip: &str, info: Option<TrafficInfo>, upstream: bool) -> (line: Vec<u64>)
        ensures
            line@ == (if self.asked(ip@) is Some {
                traffic_line(info, upstream)
            } else {
                Seq::empty()
            }),
    {
        let mut line: Vec<u64> = Vec::new();
        if let Some(_) = self.lookup_address(ip) {
            if let Some(info) = info {
                line.push(if upstream { info.tx_bytes } else { info.rx_bytes });
            }
        }
        line
    }

    /// The bytes of a client, in words. `info` is what the core counted for it.
    fn stream_total(&self, ip: &str, info: Option<TrafficInfo>, upstream: bool) -> (s: String)
        ensures
            s@ == (if self.asked(ip@) is Some {
                traffic_words(info, upstream)
            } else {
                Seq::empty()
            }),
    {
        if let Some(_) = self.lookup_address(ip) {
            if let Some(info) = info {
                return traffic::convert(if upstream { info.tx_bytes } else { info.rx_bytes });
            }
        }
        String::new()
    }

    /// The bytes that went up to a client. `info` is what the core counted for it.
    pub fn up_stream_line(&self, ip: String, info: Option<TrafficInfo>) -> (line: Vec<u64>)
        ensures
            line@ == (if self.asked(ip@) is Some {
                traffic_line(info, true)
            } else {
                Seq::empty()
            }),
            line@.len() == 1 <==> self.asked(ip@) is Some && info is Some,
            line@.len() == 1 ==> line@[0] == info->0.tx_bytes,
    {
        self.stream_line(ip.as_str(), info, true)
    }

    /// The bytes that came down from a client. `info` is what the core counted for it.
    pub fn down_stream_line(&self, ip: String, info: Option<TrafficInfo>) -> (line: Vec<u64>)
        ensures
            line@ == (if self.asked(ip@) is Some {
                traffic_line(info, false)
            } else {
                Seq::empty()
            }),
            line@.len() == 1 <==> self.asked(ip@) is Some && info is Some,
            line@.len() == 1 ==> line@[0] == info->0.rx_bytes,
    {
        self.stream_line(ip.as_str(), info, false)
    }

    /// The bytes that went up to a client, in words. `info` is what the core counted for it.
    pub fn ip_up_stream_total(&self, ip: String, info: Option<TrafficInfo>) -> (s: String)
        ensures
            s@ == (if self.asked(ip@) is Some {
                traffic_words(info, true)
            } else {
                Seq::empty()
            }),
    {
        self.stream_total(ip.as_str(), info, true)
    }

    /// The bytes that came down from a client, in words. `info` is what the core counted for it.
    pub fn ip_down_stream_total(&self, ip: String, info: Option<TrafficInfo>) -> (s: String)
        ensures
            s@ == (if self.asked(ip@) is Some {
                traffic_words(info, false)
            } else {
                Seq::empty()
            }),
    {
        self.stream_total(ip.as_str(), info, false)
    }
}

/// The bytes up, or down, of all lines of a traffic table.
pub open spec fn lines_total(lines: Seq<(Seq<char>, u64, u64)>, upstream: bool) -> nat
    decreases lines.len(),
{
    if lines.len() == 0 {
        0
    } else {
        let bytes = if upstream { lines.last().1 } else { lines.last().2 };
        lines_total(lines.drop_last(), upstream) + bytes as nat
    }
}

/// The bytes that are told in all are those of the lines of the traffic table.
pub proof fn law_lines_add_up(traffic: Seq<TrafficInfo>, upstream: bool)
    ensures
        traffic::total_bytes(traffic, upstream) == lines_total(traffic_lines(traffic), upstream),
    decreases traffic.len(),
{
    if traffic.len() > 0 {
        law_lines_add_up(traffic.drop_last(), upstream);
        assert(traffic_lines(traffic).drop_last() == traffic_lines(traffic.drop_last()));
    }
}

/// The traffic table has one line for each entry of the core, in the same order, with the address of
/// that entry and its bytes up and down. Entries of different clients have different titles.
pub proof fn law_lines_belong_to_entries(traffic: Seq<TrafficInfo>, i: int, j: int)
    requires
        0 <= i < traffic.len(),
        0 <= j < traffic.len(),
    ensures
        traffic_lines(traffic).len() == traffic.len(),
        ipv4::address_of(traffic_lines(traffic)[i].0) == Some(traffic[i].ip),
        traffic_lines(traffic)[i].1 == traffic[i].tx_bytes,
        traffic_lines(traffic)[i].2 == traffic[i].rx_bytes,
        traffic_lines(traffic)[i].0 == traffic_lines(traffic)[j].0 <==> traffic[i].ip == traffic[j].ip,
{
    ipv4::law_address_round_trip(traffic[i].ip);
    ipv4::law_address_round_trip(traffic[j].ip);
}

/// The traffic tables of two groups of clients put together are the table of both.
pub proof fn law_lines_append(first: Seq<TrafficInfo>, second: Seq<TrafficInfo>)
    ensures
        traffic_lines(first + second) == traffic_lines(first) + traffic_lines(second),
{
    assert(traffic_lines(first + second) == traffic_lines(first) + traffic_lines(second));
}

/// The values of lines are their titles and numbers, in their order.
pub proof fn law_lines_view(lines: Seq<(String, u64, u64)>)
    ensures
        lines_view(lines).len() == lines.len(),
        forall|i: int|
            0 <= i < lines.len() ==> (#[trigger] lines_view(lines)[i]).0 == lines[i].0@ && lines_view(
                lines,
            )[i].1 == lines[i].1 && lines_view(lines)[i].2 == lines[i].2,
{
}

/// A client of which the core counted bytes has a line of one point and a text; one of which it did
/// not has neither.
pub proof fn law_bytes_of_client(info: TrafficInfo)
    ensures
        traffic_line(Some(info), true) == seq![info.tx_bytes],
        traffic_line(Some(info), false) == seq![info.rx_bytes],
        traffic_line(None, true).len() == 0 && traffic_line(None, false).len() == 0,
        traffic_words(Some(info), true) == traffic::traffic_text(info.tx_bytes),
        traffic_words(Some(info), false) == traffic::traffic_text(info.rx_bytes),
        traffic_words(None, true).len() == 0 && traffic_words(None, false).len() == 0,
{
}

/// A client is stopped exactly when it has given up its manager. While it is not, the address that a
/// question is about is the one whose text is given; when it is, no question is about any.
pub proof fn law_asked<M>(api: VntApi<M>, ip: Seq<char>, addr: u32)
    ensures
        api.stopped() <==> api@ is None,
        api@ is Some ==> (api.asked(ip) == Some(addr) <==> ip == ipv4::address_text(addr)),
        api@ is None ==> api.asked(ip) is None,
{
    ipv4::law_address_is_read(ip, addr);
}

} // verus!
