//! Routes: to the servers, to the clients, and the list of them.

use vstd::prelude::*;

use crate::core_api::{ClientIp, CoreApi, CoreRoute, ServerNode};
use crate::ipv4;

verus! {

broadcast use vstd::std_specs::hash::group_hash_axioms;

/// A route as it is shown: how it goes, over which address, its number of hops and its round-trip
/// time.
#[derive(Debug, Clone)]
pub struct RustRoute {
    pub protocol: String,
    pub addr: String,
    pub metric: u8,
    pub rt: i64,
}

/// The value of a [`RustRoute`].
pub struct Route {
    pub protocol: Seq<char>,
    pub addr: Seq<char>,
    pub metric: u8,
    pub rt: i64,
}

impl View for RustRoute {
    type V = Route;

    open spec fn view(&self) -> Route {
        Route { protocol: self.protocol@, addr: self.addr@, metric: self.metric, rt: self.rt }
    }
}

/// The values of some routes.
pub open spec fn routes_view(routes: Seq<RustRoute>) -> Seq<Route> {
    routes.map_values(|route: RustRoute| route@)
}

/// The values of the entries of a route list: a title and the routes under it.
pub open spec fn entries_view(entries: Seq<(String, Vec<RustRoute>)>) -> Seq<(
    Seq<char>,
    Seq<Route>,
)> {
    entries.map_values(|entry: (String, Vec<RustRoute>)| (entry.0@, routes_view(entry.1@)))
}

/// A route of the core as it is shown.
pub open spec fn client_route(route: CoreRoute) -> Route {
    Route {
        protocol: if route.direct { "P2P"@ } else { "ClientRelay"@ },
        addr: route.addr@,
        metric: route.metric,
        rt: route.rtt as i64,
    }
}

/// The round-trip time of a server, the greatest number if none was measured.
pub open spec fn latency(node: ServerNode) -> u32 {
    match node.rtt {
        Some(rtt) => rtt,
        None => u32::MAX,
    }
}

/// The round-trip time of a server, zero if none was measured.
pub open spec fn shown_latency(node: ServerNode) -> u32 {
    match node.rtt {
        Some(rtt) => rtt,
        None => 0,
    }
}

/// A server is connected and, where a client is asked for, knows it to be online.
pub open spec fn serves(node: ServerNode, client: Option<u32>) -> bool {
    &&& node.connected
    &&& client matches Some(ip) ==> node.client_map@.contains_key(ip) && node.client_map@[ip]
}

/// Among the servers that serve the client, `i` is the first with the least round-trip time.
pub open spec fn is_best(nodes: Seq<ServerNode>, client: Option<u32>, i: int) -> bool {
    &&& 0 <= i < nodes.len()
    &&& serves(nodes[i], client)
    &&& forall|j: int|
        0 <= j < nodes.len() && serves(#[trigger] nodes[j], client) ==> latency(nodes[i])
            <= latency(nodes[j]) && (j < i ==> latency(nodes[i]) < latency(nodes[j]))
}

/// The first server with the least round-trip time among those that serve the client.
pub open spec fn best(nodes: Seq<ServerNode>, client: Option<u32>) -> Option<int> {
    if exists|i: int| is_best(nodes, client, i) {
        Some(choose|i: int| is_best(nodes, client, i))
    } else {
        None
    }
}

/// The best server is the only one that satisfies [`is_best`].
proof fn lemma_best(nodes: Seq<ServerNode>, client: Option<u32>, i: int)
    requires
        is_best(nodes, client, i),
    ensures
        best(nodes, client) == Some(i),
{
    let k = choose|k: int| is_best(nodes, client, k);
    assert(is_best(nodes, client, k));
    assert(serves(nodes[k], client) && serves(nodes[i], client));
}

/// The route to a server.
pub open spec fn via_server(node: ServerNode) -> Route {
    Route {
        protocol: if node.connected { "Server"@ } else { "ServerConnecting"@ },
        addr: node.server_addr@,
        metric: 0,
        rt: shown_latency(node) as i64,
    }
}

/// The route to a client over a server: twice the way to the server.
pub open spec fn via_relay(node: ServerNode) -> Route {
    let twice = shown_latency(node) * 2;
    Route {
        protocol: "ServerRelay"@,
        addr: node.server_addr@,
        metric: 2,
        rt: (if twice <= u32::MAX { twice } else { u32::MAX as int }) as i64,
    }
}

/// The route to the server: the best one that is connected, else the first.
pub open spec fn server_route(nodes: Seq<ServerNode>) -> Option<Route> {
    match best(nodes, None) {
        Some(i) => Some(via_server(nodes[i])),
        None => if nodes.len() > 0 {
            Some(via_server(nodes[0]))
        } else {
            None
        },
    }
}

/// The route to a client over a server: the best one that knows it to be online, else the best
/// one that is connected.
pub open spec fn relay_route(nodes: Seq<ServerNode>, ip: u32) -> Option<Route> {
    match best(nodes, Some(ip)) {
        Some(i) => Some(via_relay(nodes[i])),
        None => match best(nodes, None) {
            Some(i) => Some(via_relay(nodes[i])),
            None => None,
        },
    }
}

/// Whether a server serves a client.
fn node_serves(node: &ServerNode, client: Option<u32>) -> (b: bool)
    ensures
        b == serves(*node, client),
{
    if !node.connected {
        return false;
    }
    match client {
        Some(ip) => match node.client_map.get(&ip) {
            Some(online) => *online,
            None => false,
        },
        None => true,
    }
}

/// The round-trip time of a server, the greatest number if none was measured.
fn node_latency(node: &ServerNode) -> (rtt: u32)
    ensures
        rtt == latency(*node),
{
    match node.rtt {
        Some(rtt) => rtt,
        None => u32::MAX,
    }
}

/// The first server with the least round-trip time among those that serve the client.
fn best_server(nodes: &Vec<ServerNode>, client: Option<u32>) -> (r: Option<usize>)
    ensures
        r matches Some(i) ==> i < nodes.len() && best(nodes@, client) == Some(i as int),
        r is None ==> best(nodes@, client) is None,
{
    let mut found: Option<usize> = None;
    let mut i: usize = 0;
    while i < nodes.len()
        invariant
            i <= nodes.len(),
            found is None ==> forall|j: int| 0 <= j < i ==> !serves(#[trigger] nodes@[j], client),
            found matches Some(b) ==> b < i && is_best(nodes@.take(i as int), client, b as int),
        decreases nodes.len() - i,
    {
        let ghost before = nodes@.take(i as int);
        let ghost after = nodes@.take(i + 1);
        assert(forall|j: int| 0 <= j < i ==> #[trigger] after[j] == before[j]);
        assert(forall|j: int| 0 <= j < i ==> #[trigger] after[j] == nodes@[j]);
        assert(after[i as int] == nodes@[i as int]);
        if node_serves(&nodes[i], client) {
            match found {
                None => {
                    found = Some(i);
                },
                Some(b) => {
                    assert(serves(before[b as int], client));
                    if node_latency(&nodes[i]) < node_latency(&nodes[b]) {
                        found = Some(i);
                    }
                },
            }
        }
        i += 1;
    }
    assert(nodes@.take(nodes@.len() as int) == nodes@);
    proof {
        if let Some(b) = found {
            lemma_best(nodes@, client, b as int);
        }
    }
    found
}

/// A route of the core as it is shown.
fn rust_route_from_core_route(route: &CoreRoute) -> (r: RustRoute)
    ensures
        r@ == client_route(*route),
{
    RustRoute {
        protocol: if route.direct { "P2P".to_string() } else { "ClientRelay".to_string() },
        addr: route.addr.clone(),
        metric: route.metric,
        rt: route.rtt as i64,
    }
}

/// The route to the server.
pub fn build_server_route_from_api(api: &CoreApi) -> (r: Option<RustRoute>)
    ensures
        r is Some <==> server_route(api.server_nodes@) is Some,
        r matches Some(route) ==> server_route(api.server_nodes@) == Some(route@),
{
    let nodes = &api.server_nodes;
    let i: usize = match best_server(nodes, None) {
        Some(i) => i,
        None => {
            if nodes.len() == 0 {
                return None;
            }
            0
        },
    };
    let node = &nodes[i];
    let rtt: u32 = match node.rtt {
        Some(rtt) => rtt,
        None => 0,
    };
    Some(
        RustRoute {
            protocol: if node.connected {
                "Server".to_string()
            } else {
                "ServerConnecting".to_string()
            },
            addr: node.server_addr.clone(),
            metric: 0,
            rt: rtt as i64,
        },
    )
}

/// The route to a client over a server.
pub fn build_server_relay_route_from_api(api: &CoreApi, ip: u32) -> (r: Option<RustRoute>)
    ensures
        r is Some <==> relay_route(api.server_nodes@, ip) is Some,
        r matches Some(route) ==> relay_route(api.server_nodes@, ip) == Some(route@),
{
    let nodes = &api.server_nodes;
    let i: usize = match best_server(nodes, Some(ip)) {
        Some(i) => i,
        None => match best_server(nodes, None) {
            Some(i) => i,
            None => return None,
        },
    };
    let node = &nodes[i];
    let rtt: u32 = match node.rtt {
        Some(rtt) => rtt,
        None => 0,
    };
    let twice: u32 = if rtt <= u32::MAX / 2 { rtt * 2 } else { u32::MAX };
    Some(
        RustRoute {
            protocol: "ServerRelay".to_string(),
            addr: node.server_addr.clone(),
            metric: 2,
            rt: twice as i64,
        },
    )
}

/// A client is known to be online.
pub open spec fn is_online(clients: Seq<ClientIp>, ip: u32) -> bool {
    exists|i: int| 0 <= i < clients.len() && (#[trigger] clients[i]).ip == ip && clients[i].online
}

/// The route to an address: to the server if it is the gateway's; to a client that is online, the
/// route that the core found, else over a server.
pub open spec fn route_to(api: CoreApi, ip: u32, found: Option<CoreRoute>) -> Option<Route> {
    if api.network matches Some(network) && network.addr.gateway == ip {
        server_route(api.server_nodes@)
    } else if !is_online(api.client_ips@, ip) {
        None
    } else {
        match found {
            Some(route) => Some(client_route(route)),
            None => relay_route(api.server_nodes@, ip),
        }
    }
}

/// Whether a client is known to be online.
fn client_is_online(clients: &Vec<ClientIp>, ip: u32) -> (b: bool)
    ensures
        b == is_online(clients@, ip),
{
    let mut i: usize = 0;
    while i < clients.len()
        invariant
            i <= clients.len(),
            forall|j: int| 0 <= j < i ==> !((#[trigger] clients@[j]).ip == ip && clients@[j].online),
        decreases clients.len() - i,
    {
        if clients[i].ip == ip && clients[i].online {
            return true;
        }
        i += 1;
    }
    false
}

/// The route to an address, where `found` is the route that the core finds to it.
pub fn build_route_from_api(api: &CoreApi, ip: u32, found: Option<CoreRoute>) -> (r: Option<
    RustRoute,
>)
    ensures
        r is Some <==> route_to(*api, ip, found) is Some,
        r matches Some(route) ==> route_to(*api, ip, found) == Some(route@),
{
    if let Some(network) = &api.network {
        if network.addr.gateway == ip {
            return build_server_route_from_api(api);
        }
    }
    if !client_is_online(&api.client_ips, ip) {
        return None;
    }
    match found {
        Some(route) => Some(rust_route_from_core_route(&route)),
        None => build_server_relay_route_from_api(api, ip),
    }
}

/// Each number is less than those behind it.
pub open spec fn increasing(s: Seq<u32>) -> bool {
    forall|i: int, j: int| 0 <= i < j < s.len() ==> s[i] < s[j]
}

/// `ips` are the addresses of the clients that are online, each once, in ascending order.
pub open spec fn are_online(clients: Seq<ClientIp>, ips: Seq<u32>) -> bool {
    &&& increasing(ips)
    &&& forall|ip: u32| #[trigger] ips.contains(ip) <==> is_online(clients, ip)
}

/// The addresses of the clients that are online, each once, in ascending order.
pub open spec fn online_addresses(clients: Seq<ClientIp>) -> Seq<u32> {
    choose|ips: Seq<u32>| are_online(clients, ips)
}

/// Increasing sequences with the same members are equal.
proof fn lemma_increasing_unique(s: Seq<u32>, t: Seq<u32>)
    requires
        increasing(s),
        increasing(t),
        forall|x: u32| s.contains(x) <==> t.contains(x),
    ensures
        s == t,
    decreases s.len(),
{
    if s.len() == 0 {
        if t.len() > 0 {
            assert(t.contains(t[0]));
            assert(s.contains(t[0]));
        }
    } else {
        assert(s.contains(s.last()));
        assert(t.contains(s.last()));
        assert(t.len() > 0);
        assert(t.contains(t.last()));
        assert(s.contains(t.last()));
        assert(s.last() == t.last());
        let s1 = s.drop_last();
        let t1 = t.drop_last();
        assert forall|x: u32| s1.contains(x) <==> t1.contains(x) by {
            if s1.contains(x) {
                let i = choose|i: int| 0 <= i < s1.len() && s1[i] == x;
                assert(s[i] == x && x < s.last());
                assert(s.contains(x));
                let j = choose|j: int| 0 <= j < t.len() && t[j] == x;
                assert(t1[j] == x);
            }
            if t1.contains(x) {
                let i = choose|i: int| 0 <= i < t1.len() && t1[i] == x;
                assert(t[i] == x && x < t.last());
                assert(t.contains(x));
                let j = choose|j: int| 0 <= j < s.len() && s[j] == x;
                assert(s1[j] == x);
            }
        }
        lemma_increasing_unique(s1, t1);
        assert(s == s1.push(s.last()));
        assert(t == t1.push(t.last()));
    }
}

/// The addresses of the clients that are online are determined by [`are_online`].
proof fn lemma_online_addresses(clients: Seq<ClientIp>, ips: Seq<u32>)
    requires
        are_online(clients, ips),
    ensures
        online_addresses(clients) == ips,
{
    let chosen = online_addresses(clients);
    assert(are_online(clients, chosen));
    assert forall|x: u32| chosen.contains(x) <==> ips.contains(x) by {
        assert(chosen.contains(x) <==> is_online(clients, x));
        assert(ips.contains(x) <==> is_online(clients, x));
    }
    lemma_increasing_unique(chosen, ips);
}

/// Puts `ip` in its place, unless it is there already.
fn insert_address(ips: &mut Vec<u32>, ip: u32)
    requires
        increasing(old(ips)@),
    ensures
        increasing(final(ips)@),
        forall|x: u32| #[trigger] final(ips)@.contains(x) <==> old(ips)@.contains(x) || x == ip,
{
    let ghost before = ips@;
    let mut i: usize = 0;
    while i < ips.len() && ips[i] < ip
        invariant
            i <= ips.len(),
            ips@ == before,
            forall|j: int| 0 <= j < i ==> before[j] < ip,
        decreases ips.len() - i,
    {
        i += 1;
    }
    if i < ips.len() && ips[i] == ip {
        assert(before.contains(ip));
        return;
    }
    ips.insert(i, ip);
    proof {
        let after = ips@;
        assert(forall|j: int| i <= j < before.len() ==> ip < before[j]) by {
            if i < before.len() {
                assert(ip < before[i as int]);
            }
        }
        assert(after == before.insert(i as int, ip));
        assert forall|x: u32| #[trigger] after.contains(x) <==> before.contains(x) || x == ip by {
            if after.contains(x) {
                let k = choose|k: int| 0 <= k < after.len() && after[k] == x;
                if k < i {
                    assert(before[k] == x);
                } else if k > i {
                    assert(before[k - 1] == x);
                }
            }
            if before.contains(x) {
                let k = choose|k: int| 0 <= k < before.len() && before[k] == x;
                if k < i {
                    assert(after[k] == x);
                } else {
                    assert(after[k + 1] == x);
                }
            }
            assert(after[i as int] == ip);
        }
    }
}

/// The addresses of the clients that are online, each once, in ascending order.
fn online_client_addresses(clients: &Vec<ClientIp>) -> (ips: Vec<u32>)
    ensures
        are_online(clients@, ips@),
        ips@ == online_addresses(clients@),
{
    let mut ips: Vec<u32> = Vec::new();
    let mut i: usize = 0;
    while i < clients.len()
        invariant
            i <= clients.len(),
            are_online(clients@.take(i as int), ips@),
        decreases clients.len() - i,
    {
        let ghost before = ips@;
        let ghost head = clients@.take(i as int);
        let ghost next = clients@.take(i + 1);
        let client = clients[i];
        if client.online {
            insert_address(&mut ips, client.ip);
        }
        proof {
            assert forall|ip: u32| #[trigger] ips@.contains(ip) <==> is_online(next, ip) by {
                assert(before.contains(ip) <==> is_online(head, ip));
                if is_online(head, ip) {
                    let k = choose|k: int|
                        0 <= k < head.len() && (#[trigger] head[k]).ip == ip && head[k].online;
                    assert(next[k] == head[k]);
                }
                if is_online(next, ip) {
                    let k = choose|k: int|
                        0 <= k < next.len() && (#[trigger] next[k]).ip == ip && next[k].online;
                    if k < i {
                        assert(head[k] == next[k]);
                    }
                }
                assert(next[i as int] == client);
            }
        }
        i += 1;
    }
    assert(clients@.take(clients@.len() as int) == clients@);
    proof {
        lemma_online_addresses(clients@, ips@);
    }
    ips
}

/// The routes that the table has for an address. A later entry replaces an earlier one.
pub open spec fn table_routes(table: Seq<(u32, Vec<CoreRoute>)>, ip: u32) -> Seq<Route>
    decreases table.len(),
{
    if table.len() == 0 {
        Seq::empty()
    } else if table.last().0 == ip {
        table.last().1@.map_values(|route: CoreRoute| client_route(route))
    } else {
        table_routes(table.drop_last(), ip)
    }
}

/// The routes to a client that is online: those of the table, else the one over a server.
pub open spec fn client_routes(api: CoreApi, ip: u32) -> Seq<Route> {
    let listed = table_routes(api.route_table@, ip);
    if listed.len() > 0 {
        listed
    } else {
        match relay_route(api.server_nodes@, ip) {
            Some(route) => seq![route],
            None => Seq::empty(),
        }
    }
}

/// The entries of the clients that have a route, each under the text of its address.
pub open spec fn client_entries(api: CoreApi, ips: Seq<u32>) -> Seq<(Seq<char>, Seq<Route>)>
    decreases ips.len(),
{
    if ips.len() == 0 {
        Seq::empty()
    } else {
        let head = client_entries(api, ips.drop_last());
        let routes = client_routes(api, ips.last());
        if routes.len() > 0 {
            head.push((ipv4::address_text(ips.last()), routes))
        } else {
            head
        }
    }
}

/// The entry of the server, if there is a route to it.
pub open spec fn server_entries(api: CoreApi) -> Seq<(Seq<char>, Seq<Route>)> {
    match server_route(api.server_nodes@) {
        Some(route) => seq![("服务器"@, seq![route])],
        None => Seq::empty(),
    }
}

/// The route list: the server, then the clients that are online and have a route, in the order of
/// their addresses.
pub open spec fn route_list(api: CoreApi) -> Seq<(Seq<char>, Seq<Route>)> {
    server_entries(api) + client_entries(api, online_addresses(api.client_ips@))
}

/// The routes that the table has for an address.
fn routes_of(table: &Vec<(u32, Vec<CoreRoute>)>, ip: u32) -> (routes: Vec<RustRoute>)
    ensures
        routes_view(routes@) == table_routes(table@, ip),
{
    let mut n: usize = table.len();
    assert(table@.take(n as int) == table@);
    while n > 0
        invariant
            n <= table.len(),
            table_routes(table@, ip) == table_routes(table@.take(n as int), ip),
        decreases n,
    {
        let entry = &table[n - 1];
        assert(table@.take(n as int).drop_last() == table@.take(n - 1));
        if entry.0 == ip {
            let mut routes: Vec<RustRoute> = Vec::new();
            let listed = &entry.1;
            let mut i: usize = 0;
            while i < listed.len()
                invariant
                    i <= listed.len(),
                    routes_view(routes@) == listed@.take(i as int).map_values(
                        |route: CoreRoute| client_route(route),
                    ),
                decreases listed.len() - i,
            {
                let route = rust_route_from_core_route(&listed[i]);
                let ghost before = routes@;
                routes.push(route);
                proof {
                    assert(routes_view(routes@) == routes_view(before).push(route@));
                    assert(listed@.take(i + 1) == listed@.take(i as int).push(listed@[i as int]));
                }
                i += 1;
            }
            assert(listed@.take(listed@.len() as int) == listed@);
            return routes;
        }
        n -= 1;
    }
    let routes: Vec<RustRoute> = Vec::new();
    assert(routes_view(routes@) == Seq::<Route>::empty());
    routes
}

/// The routes to a client that is online.
fn routes_to_client(api: &CoreApi, ip: u32) -> (routes: Vec<RustRoute>)
    ensures
        routes_view(routes@) == client_routes(*api, ip),
{
    let mut routes = routes_of(&api.route_table, ip);
    if routes.len() > 0 {
        return routes;
    }
    match build_server_relay_route_from_api(api, ip) {
        Some(route) => {
            routes.push(route);
            assert(routes_view(routes@) == seq![route@]);
        },
        None => {},
    }
    routes
}

/// The route list.
pub fn build_route_list_from_api(api: &CoreApi) -> (list: Vec<(String, Vec<RustRoute>)>)
    ensures
        entries_view(list@) == route_list(*api),
{
    let mut list: Vec<(String, Vec<RustRoute>)> = Vec::new();
    if let Some(route) = build_server_route_from_api(api) {
        let mut routes: Vec<RustRoute> = Vec::new();
        routes.push(route);
        assert(routes_view(routes@) == seq![route@]);
        list.push(("服务器".to_string(), routes));
    }
    assert(entries_view(list@) == server_entries(*api));
    let ips = online_client_addresses(&api.client_ips);
    let mut i: usize = 0;
    while i < ips.len()
        invariant
            i <= ips.len(),
            entries_view(list@) == server_entries(*api) + client_entries(*api, ips@.take(i as int)),
        decreases ips.len() - i,
    {
        let ip = ips[i];
        let routes = routes_to_client(api, ip);
        let ghost before = list@;
        assert(ips@.take(i + 1).drop_last() == ips@.take(i as int));
        if routes.len() > 0 {
            let title = ipv4::to_text(ip);
            let entry = (title, routes);
            list.push(entry);
            assert(entries_view(list@) == entries_view(before).push(
                (entry.0@, routes_view(entry.1@)),
            ));
        }
        i += 1;
    }
    assert(ips@.take(ips@.len() as int) == ips@);
    list
}

/// If a server serves the client, one of those that do is the best.
proof fn lemma_best_exists(nodes: Seq<ServerNode>, client: Option<u32>, i: int)
    requires
        0 <= i < nodes.len(),
        serves(nodes[i], client),
    ensures
        best(nodes, client) is Some,
        is_best(nodes, client, best(nodes, client)->0),
    decreases nodes.len(),
{
    let last = nodes.len() - 1;
    let head = nodes.drop_last();
    if exists|j: int| 0 <= j < last && serves(#[trigger] head[j], client) {
        let j = choose|j: int| 0 <= j < last && serves(#[trigger] head[j], client);
        lemma_best_exists(head, client, j);
        let b = best(head, client)->0;
        assert(head[b] == nodes[b]);
        assert forall|k: int| 0 <= k < last implies nodes[k] == #[trigger] head[k] by {}
        if serves(nodes[last], client) && latency(nodes[last]) < latency(nodes[b]) {
            assert forall|k: int|
                0 <= k < nodes.len() && serves(#[trigger] nodes[k], client) implies latency(
                nodes[last],
            ) <= latency(nodes[k]) && (k < last ==> latency(nodes[last]) < latency(nodes[k])) by {
                if k < last {
                    assert(serves(head[k], client));
                }
            }
            assert(is_best(nodes, client, last));
        } else {
            assert forall|k: int|
                0 <= k < nodes.len() && serves(#[trigger] nodes[k], client) implies latency(
                nodes[b],
            ) <= latency(nodes[k]) && (k < b ==> latency(nodes[b]) < latency(nodes[k])) by {
                if k < last {
                    assert(serves(head[k], client));
                }
            }
            assert(is_best(nodes, client, b));
        }
    } else {
        assert forall|k: int| 0 <= k < last implies !serves(#[trigger] nodes[k], client) by {
            assert(!serves(head[k], client));
        }
        assert(is_best(nodes, client, last));
    }
}

/// While a server is connected, the route to the server goes over a connected one, and no
/// connected server has a shorter measured round-trip time.
pub proof fn law_server_route_is_connected(nodes: Seq<ServerNode>, i: int)
    requires
        0 <= i < nodes.len(),
        nodes[i].connected,
    ensures
        server_route(nodes) matches Some(route) && route.protocol == "Server"@ && (nodes[i].rtt
            matches Some(rtt) ==> route.rt <= rtt),
{
    lemma_best_exists(nodes, None, i);
    assert(serves(nodes[i], None));
}

/// While a server is connected, there is a route to every client over a server.
pub proof fn law_connected_server_relays(nodes: Seq<ServerNode>, i: int, ip: u32)
    requires
        0 <= i < nodes.len(),
        nodes[i].connected,
    ensures
        relay_route(nodes, ip) matches Some(route) && route.protocol == "ServerRelay"@
            && route.metric == 2,
{
    lemma_best_exists(nodes, None, i);
}

/// While a connected server knows a client to be online, the route to it over a server goes over
/// one that does.
pub proof fn law_relay_knows_client(nodes: Seq<ServerNode>, i: int, ip: u32)
    requires
        0 <= i < nodes.len(),
        serves(nodes[i], Some(ip)),
    ensures
        exists|j: int|
            {
                &&& 0 <= j < nodes.len()
                &&& serves(#[trigger] nodes[j], Some(ip))
                &&& latency(nodes[j]) <= latency(nodes[i])
                &&& relay_route(nodes, ip) == Some(via_relay(nodes[j]))
            },
{
    lemma_best_exists(nodes, Some(ip), i);
    let j = best(nodes, Some(ip))->0;
    assert(serves(nodes[j], Some(ip)));
}

/// While no server is connected, there is no route to a client over a server.
pub proof fn law_no_relay_without_server(nodes: Seq<ServerNode>, ip: u32)
    requires
        forall|i: int| 0 <= i < nodes.len() ==> !(#[trigger] nodes[i]).connected,
    ensures
        relay_route(nodes, ip) is None,
{
    assert(forall|client: Option<u32>, i: int| !is_best(nodes, client, i));
}

/// The address of the gateway has the route that heads the route list.
pub proof fn law_gateway_route_heads_list(api: CoreApi, ip: u32, found: Option<CoreRoute>)
    requires
        api.network matches Some(network) && network.addr.gateway == ip,
    ensures
        route_to(api, ip, found) is Some <==> api.server_nodes@.len() > 0,
        route_to(api, ip, found) matches Some(route) ==> route_list(api)[0] == (
            "服务器"@,
            seq![route],
        ),
{
    if api.server_nodes@.len() == 0 {
        assert(forall|i: int| !is_best(api.server_nodes@, None, i));
    }
    if let Some(route) = route_to(api, ip, found) {
        assert(server_entries(api)[0] == ("服务器"@, seq![route]));
        assert(route_list(api)[0] == server_entries(api)[0]);
    }
}

/// An address that is neither the gateway's nor that of a client that is online has no route.
pub proof fn law_offline_has_no_route(api: CoreApi, ip: u32, found: Option<CoreRoute>)
    requires
        api.network matches Some(network) ==> network.addr.gateway != ip,
        !is_online(api.client_ips@, ip),
    ensures
        route_to(api, ip, found) is None,
{
}

/// There is a sequence of the addresses that are online.
proof fn lemma_are_online_exists(clients: Seq<ClientIp>) -> (ips: Seq<u32>)
    ensures
        are_online(clients, ips),
    decreases clients.len(),
{
    if clients.len() == 0 {
        let ips = Seq::<u32>::empty();
        assert(are_online(clients, ips));
        ips
    } else {
        let head = clients.drop_last();
        let last = clients.last();
        let before = lemma_are_online_exists(head);
        let ips = if last.online {
            lemma_insert_exists(before, last.ip)
        } else {
            before
        };
        assert forall|ip: u32| #[trigger] ips.contains(ip) <==> is_online(clients, ip) by {
            assert(before.contains(ip) <==> is_online(head, ip));
            if is_online(head, ip) {
                let k = choose|k: int|
                    0 <= k < head.len() && (#[trigger] head[k]).ip == ip && head[k].online;
                assert(clients[k] == head[k]);
            }
            if is_online(clients, ip) {
                let k = choose|k: int|
                    0 <= k < clients.len() && (#[trigger] clients[k]).ip == ip && clients[k].online;
                if k < head.len() {
                    assert(head[k] == clients[k]);
                }
            }
            assert(clients[clients.len() - 1] == last);
        }
        ips
    }
}

/// A number can be put in its place in an increasing sequence.
proof fn lemma_insert_exists(s: Seq<u32>, x: u32) -> (t: Seq<u32>)
    requires
        increasing(s),
    ensures
        increasing(t),
        forall|y: u32| #[trigger] t.contains(y) <==> s.contains(y) || y == x,
    decreases s.len(),
{
    if s.len() == 0 || s.last() < x {
        let t = s.push(x);
        assert forall|y: u32| #[trigger] t.contains(y) <==> s.contains(y) || y == x by {
            if s.contains(y) {
                let k = choose|k: int| 0 <= k < s.len() && s[k] == y;
                assert(t[k] == y);
            }
            assert(t[s.len() as int] == x);
        }
        t
    } else if s.last() == x {
        assert(s.contains(x));
        s
    } else {
        let last = s.last();
        let head = s.drop_last();
        let inner = lemma_insert_exists(head, x);
        let t = inner.push(last);
        assert forall|k: int| 0 <= k < inner.len() implies #[trigger] inner[k] < last by {
            assert(inner.contains(inner[k]));
            if inner[k] != x {
                let j = choose|j: int| 0 <= j < head.len() && head[j] == inner[k];
                assert(s[j] < s[s.len() - 1]);
            }
        }
        assert forall|y: u32| #[trigger] t.contains(y) <==> s.contains(y) || y == x by {
            if t.contains(y) {
                let k = choose|k: int| 0 <= k < t.len() && t[k] == y;
                if k < inner.len() {
                    assert(inner.contains(y));
                    if y != x {
                        let j = choose|j: int| 0 <= j < head.len() && head[j] == y;
                        assert(s[j] == y);
                    }
                } else {
                    assert(s[s.len() - 1] == y);
                }
            }
            if s.contains(y) || y == x {
                if y == last {
                    assert(t[inner.len() as int] == y);
                } else {
                    if y != x {
                        let j = choose|j: int| 0 <= j < s.len() && s[j] == y;
                        assert(head[j] == y);
                    }
                    assert(inner.contains(y));
                    let k = choose|k: int| 0 <= k < inner.len() && inner[k] == y;
                    assert(t[k] == y);
                }
            }
        }
        t
    }
}

/// The addresses of the clients that are online exist, each once and in ascending order.
pub proof fn law_online_addresses(clients: Seq<ClientIp>)
    ensures
        are_online(clients, online_addresses(clients)),
{
    let ips = lemma_are_online_exists(clients);
    assert(are_online(clients, ips));
}

/// Each entry of a client stands under the text of one of the addresses, in their order.
proof fn lemma_client_entries(api: CoreApi, ips: Seq<u32>, k: int) -> (j: int)
    requires
        0 <= k < client_entries(api, ips).len(),
    ensures
        0 <= j < ips.len(),
        client_entries(api, ips)[k] == (ipv4::address_text(ips[j]), client_routes(api, ips[j])),
        client_routes(api, ips[j]).len() > 0,
        client_entries(api, ips.take(j)).len() == k,
    decreases ips.len(),
{
    let head = client_entries(api, ips.drop_last());
    if k < head.len() {
        let j = lemma_client_entries(api, ips.drop_last(), k);
        assert(ips.drop_last().take(j) == ips.take(j));
        j
    } else {
        assert(ips.take(ips.len() - 1) == ips.drop_last());
        ips.len() - 1
    }
}

/// A client with a route has its entry.
proof fn lemma_client_entry(api: CoreApi, ips: Seq<u32>, j: int)
    requires
        0 <= j < ips.len(),
        client_routes(api, ips[j]).len() > 0,
    ensures
        client_entries(api, ips).contains(
            (ipv4::address_text(ips[j]), client_routes(api, ips[j])),
        ),
    decreases ips.len(),
{
    let entries = client_entries(api, ips);
    let entry = (ipv4::address_text(ips[j]), client_routes(api, ips[j]));
    if j == ips.len() - 1 {
        assert(entries[entries.len() - 1] == entry);
    } else {
        lemma_client_entry(api, ips.drop_last(), j);
        let head = client_entries(api, ips.drop_last());
        let k = choose|k: int| 0 <= k < head.len() && head[k] == entry;
        assert(entries[k] == entry);
    }
}

/// The number of entries grows with the addresses.
proof fn lemma_client_entries_grow(api: CoreApi, ips: Seq<u32>, i: int)
    requires
        0 <= i <= ips.len(),
    ensures
        client_entries(api, ips.take(i)).len() <= client_entries(api, ips).len(),
    decreases ips.len(),
{
    if i == ips.len() {
        assert(ips.take(i) == ips);
    } else {
        lemma_client_entries_grow(api, ips.drop_last(), i);
        assert(ips.drop_last().take(i) == ips.take(i));
    }
}

/// The route list holds, behind the server's entry, only entries of clients that are online, each
/// with at least one route.
pub proof fn law_route_list_sound(api: CoreApi, k: int)
    requires
        server_entries(api).len() <= k < route_list(api).len(),
    ensures
        exists|ip: u32|
            {
                &&& #[trigger] is_online(api.client_ips@, ip)
                &&& route_list(api)[k] == (ipv4::address_text(ip), client_routes(api, ip))
                &&& client_routes(api, ip).len() > 0
            },
{
    let ips = online_addresses(api.client_ips@);
    law_online_addresses(api.client_ips@);
    let j = lemma_client_entries(api, ips, k - server_entries(api).len());
    assert(ips.contains(ips[j]));
    assert(is_online(api.client_ips@, ips[j]));
}

/// The route list holds every client that is online and has a route, with its routes.
pub proof fn law_route_list_complete(api: CoreApi, ip: u32)
    requires
        is_online(api.client_ips@, ip),
        client_routes(api, ip).len() > 0,
    ensures
        route_list(api).contains((ipv4::address_text(ip), client_routes(api, ip))),
{
    let ips = online_addresses(api.client_ips@);
    law_online_addresses(api.client_ips@);
    assert(ips.contains(ip));
    let j = choose|j: int| 0 <= j < ips.len() && ips[j] == ip;
    lemma_client_entry(api, ips, j);
    let entries = client_entries(api, ips);
    let entry = (ipv4::address_text(ip), client_routes(api, ip));
    let k = choose|k: int| 0 <= k < entries.len() && entries[k] == entry;
    assert(route_list(api)[k + server_entries(api).len()] == entry);
}

/// While a server is connected, every client that is online is in the route list.
pub proof fn law_connected_server_lists_all(api: CoreApi, i: int, ip: u32)
    requires
        0 <= i < api.server_nodes@.len(),
        api.server_nodes@[i].connected,
        is_online(api.client_ips@, ip),
    ensures
        route_list(api).contains((ipv4::address_text(ip), client_routes(api, ip))),
{
    law_connected_server_relays(api.server_nodes@, i, ip);
    law_route_list_complete(api, ip);
}

/// The entries of the clients are in ascending order of their addresses, so that no client has
/// two.
pub proof fn law_route_list_ascending(api: CoreApi, k: int, l: int)
    requires
        server_entries(api).len() <= k < l < route_list(api).len(),
    ensures
        exists|a: u32, b: u32|
            {
                &&& a < b
                &&& route_list(api)[k].0 == #[trigger] ipv4::address_text(a)
                &&& route_list(api)[l].0 == #[trigger] ipv4::address_text(b)
            },
{
    let ips = online_addresses(api.client_ips@);
    law_online_addresses(api.client_ips@);
    let n = server_entries(api).len();
    let i = lemma_client_entries(api, ips, k - n);
    let j = lemma_client_entries(api, ips, l - n);
    if j <= i {
        lemma_client_entries_grow(api, ips.take(i), j);
        assert(ips.take(i).take(j) == ips.take(j));
    }
    assert(ips[i] < ips[j]);
    assert(route_list(api)[k].0 == ipv4::address_text(ips[i]));
    assert(route_list(api)[l].0 == ipv4::address_text(ips[j]));
}

/// Where the table has no route to a client that is online and the core finds none, the route to
/// it is the one of its entry in the route list, or it has neither.
pub proof fn law_route_agrees_with_list(api: CoreApi, ip: u32)
    requires
        api.network matches Some(network) ==> network.addr.gateway != ip,
        is_online(api.client_ips@, ip),
        table_routes(api.route_table@, ip).len() == 0,
    ensures
        route_to(api, ip, None) matches Some(route) ==> route_list(api).contains(
            (ipv4::address_text(ip), seq![route]),
        ),
        route_to(api, ip, None) is None ==> client_routes(api, ip).len() == 0,
{
    if route_to(api, ip, None) is Some {
        law_route_list_complete(api, ip);
    }
}

/// The value of a route tells all of its parts.
pub proof fn law_route_view(route: RustRoute)
    ensures
        route@.protocol == route.protocol@,
        route@.addr == route.addr@,
        route@.metric == route.metric,
        route@.rt == route.rt,
{
}

/// The values of routes, and of the entries of a list, are those of each, in their order.
pub proof fn law_entries_view(entries: Seq<(String, Vec<RustRoute>)>, i: int, j: int)
    requires
        0 <= i < entries.len(),
        0 <= j < entries[i].1@.len(),
    ensures
        entries_view(entries).len() == entries.len(),
        entries_view(entries)[i].0 == entries[i].0@,
        entries_view(entries)[i].1.len() == entries[i].1@.len(),
        entries_view(entries)[i].1[j] == entries[i].1@[j]@,
        routes_view(entries[i].1@)[j] == entries[i].1@[j]@,
{
}

/// A client is online exactly if the core knows one with its address that is.
pub proof fn law_online(clients: Seq<ClientIp>, ip: u32)
    ensures
        is_online(clients, ip) <==> !forall|c: int|
            0 <= c < clients.len() && (#[trigger] clients[c]).ip == ip ==> !clients[c].online,
{
}

/// The addresses of the clients that are online ascend, are those of clients that the core knows to
/// be online, and leave none of these out.
pub proof fn law_online_addresses_ascend(clients: Seq<ClientIp>, c: int, i: int, j: int)
    requires
        0 <= c < clients.len(),
        clients[c].online,
        0 <= i < j < online_addresses(clients).len(),
    ensures
        online_addresses(clients)[i] < online_addresses(clients)[j],
        online_addresses(clients).contains(clients[c].ip),
        is_online(clients, online_addresses(clients)[i]),
        is_online(clients, online_addresses(clients)[j]),
{
    let ips = online_addresses(clients);
    law_online_addresses(clients);
    assert(is_online(clients, clients[c].ip));
    assert(ips.contains(ips[i]) && ips.contains(ips[j]));
}

/// The table has for an address what its last entry for it says.
proof fn lemma_table_routes(table: Seq<(u32, Vec<CoreRoute>)>, ip: u32, k: int)
    requires
        0 <= k < table.len(),
        table[k].0 == ip,
        forall|j: int| k < j < table.len() ==> (#[trigger] table[j]).0 != ip,
    ensures
        table_routes(table, ip) == table[k].1@.map_values(|route: CoreRoute| client_route(route)),
    decreases table.len(),
{
    if k < table.len() - 1 {
        assert(table[table.len() - 1].0 != ip);
        let head = table.drop_last();
        assert forall|j: int| k < j < head.len() implies (#[trigger] head[j]).0 != ip by {
            assert(head[j] == table[j]);
        }
        lemma_table_routes(head, ip, k);
    }
}

/// A table that has no entry for an address, or an empty one last, has no route to it.
proof fn lemma_no_table_routes(table: Seq<(u32, Vec<CoreRoute>)>, ip: u32, k: int)
    requires
        -1 <= k < table.len(),
        k >= 0 ==> table[k].0 == ip && table[k].1@.len() == 0,
        forall|j: int| k < j < table.len() ==> (#[trigger] table[j]).0 != ip,
    ensures
        table_routes(table, ip).len() == 0,
    decreases table.len(),
{
    if k >= 0 {
        lemma_table_routes(table, ip, k);
    } else if table.len() > 0 {
        assert(table[table.len() - 1].0 != ip);
        let head = table.drop_last();
        assert forall|j: int| k < j < head.len() implies (#[trigger] head[j]).0 != ip by {
            assert(head[j] == table[j]);
        }
        lemma_no_table_routes(head, ip, k);
    }
}

/// A client that is online and has routes in the table has an entry with exactly these routes, in
/// their order: each as `P2P` if it is direct and as `ClientRelay` if it is not, with its address,
/// its hops and its round-trip time. Each is the route that is shown to the client where the core
/// finds it.
pub proof fn law_table_routes_are_listed(api: CoreApi, ip: u32, c: int, k: int)
    requires
        0 <= c < api.client_ips@.len(),
        api.client_ips@[c].ip == ip,
        api.client_ips@[c].online,
        0 <= k < api.route_table@.len(),
        api.route_table@[k].0 == ip,
        forall|j: int| k < j < api.route_table@.len() ==> (#[trigger] api.route_table@[j]).0 != ip,
        api.route_table@[k].1@.len() > 0,
    ensures
        exists|e: int|
            {
                let core = api.route_table@[k].1@;
                let entry = #[trigger] route_list(api)[e];
                &&& 0 <= e < route_list(api).len()
                &&& entry.0 == ipv4::address_text(ip)
                &&& entry.1.len() == core.len()
                &&& forall|i: int|
                    0 <= i < core.len() ==> {
                        let shown = #[trigger] entry.1[i];
                        &&& core[i].direct ==> shown.protocol == "P2P"@
                        &&& !core[i].direct ==> shown.protocol == "ClientRelay"@
                        &&& shown.addr == core[i].addr@
                        &&& shown.metric == core[i].metric
                        &&& shown.rt == core[i].rtt
                        &&& (api.network matches Some(network) ==> network.addr.gateway != ip)
                            ==> route_to(api, ip, Some(core[i])) == Some(shown)
                    }
            },
{
    lemma_table_routes(api.route_table@, ip, k);
    assert(is_online(api.client_ips@, ip));
    law_route_list_complete(api, ip);
    let entry = (ipv4::address_text(ip), client_routes(api, ip));
    let e = choose|e: int| 0 <= e < route_list(api).len() && route_list(api)[e] == entry;
    assert(route_list(api)[e] == entry);
}

/// A client that is online and has no entry in the table, or an empty one last, at `k`, has an entry
/// in the list with the one route over a server, if there is such a route, and else no entry.
pub proof fn law_relayed_client_is_listed(api: CoreApi, ip: u32, c: int, k: int)
    requires
        0 <= c < api.client_ips@.len(),
        api.client_ips@[c].ip == ip,
        api.client_ips@[c].online,
        -1 <= k < api.route_table@.len(),
        k >= 0 ==> api.route_table@[k].0 == ip && api.route_table@[k].1@.len() == 0,
        forall|j: int| k < j < api.route_table@.len() ==> (#[trigger] api.route_table@[j]).0 != ip,
    ensures
        relay_route(api.server_nodes@, ip) matches Some(route) ==> route_list(api).contains(
            (ipv4::address_text(ip), seq![route]),
        ),
        relay_route(api.server_nodes@, ip) is None ==> forall|e: int|
            server_entries(api).len() <= e < route_list(api).len() ==> (#[trigger] route_list(
                api,
            )[e]).0 != ipv4::address_text(ip),
{
    lemma_no_table_routes(api.route_table@, ip, k);
    assert(is_online(api.client_ips@, ip));
    if relay_route(api.server_nodes@, ip) is Some {
        law_route_list_complete(api, ip);
    } else {
        assert forall|e: int| server_entries(api).len() <= e < route_list(api).len() implies (
        #[trigger] route_list(api)[e]).0 != ipv4::address_text(ip) by {
            law_route_list_sound(api, e);
            let other = choose|other: u32|
                {
                    &&& #[trigger] is_online(api.client_ips@, other)
                    &&& route_list(api)[e] == (
                        ipv4::address_text(other),
                        client_routes(api, other),
                    )
                    &&& client_routes(api, other).len() > 0
                };
            if ipv4::address_text(other) == ipv4::address_text(ip) {
                ipv4::law_address_text_injective(other, ip);
            }
        }
    }
}

/// A client that is not online has no entry, even if the table has routes to it.
pub proof fn law_offline_client_is_not_listed(api: CoreApi, ip: u32, e: int)
    requires
        forall|c: int|
            0 <= c < api.client_ips@.len() && (#[trigger] api.client_ips@[c]).ip == ip
                ==> !api.client_ips@[c].online,
        server_entries(api).len() <= e < route_list(api).len(),
    ensures
        route_list(api)[e].0 != ipv4::address_text(ip),
        route_list(api)[e].1.len() > 0,
{
    law_route_list_sound(api, e);
    let other = choose|other: u32|
        {
            &&& #[trigger] is_online(api.client_ips@, other)
            &&& route_list(api)[e] == (ipv4::address_text(other), client_routes(api, other))
            &&& client_routes(api, other).len() > 0
        };
    if ipv4::address_text(other) == ipv4::address_text(ip) {
        ipv4::law_address_text_injective(other, ip);
    }
}

/// The list starts with the route to the server, under its title, if there is any server, and else
/// with the first client.
pub proof fn law_server_heads_list(api: CoreApi)
    ensures
        server_entries(api).len() == (if api.server_nodes@.len() > 0 {
            1nat
        } else {
            0nat
        }),
        server_route(api.server_nodes@) is Some <==> api.server_nodes@.len() > 0,
        api.server_nodes@.len() > 0 ==> route_list(api).len() > 0 && route_list(api)[0].0 == "服务器"@
            && route_list(api)[0].1.len() == 1 && Some(route_list(api)[0].1[0]) == server_route(
            api.server_nodes@,
        ),
{
    let nodes = api.server_nodes@;
    if nodes.len() == 0 {
        assert(forall|i: int| !is_best(nodes, None, i));
    } else {
        assert(route_list(api)[0] == server_entries(api)[0]);
    }
}

/// The route to the server goes over the connected server with the least round-trip time, the first
/// of them, where one that was not measured counts as the slowest.
pub proof fn law_server_route_is_fastest(nodes: Seq<ServerNode>, i: int)
    requires
        0 <= i < nodes.len(),
        nodes[i].connected,
        forall|j: int|
            0 <= j < nodes.len() && (#[trigger] nodes[j]).connected && j != i ==> match (
                nodes[i].rtt,
                nodes[j].rtt,
            ) {
                (Some(own), Some(other)) => own < other || own == other && i < j,
                (Some(own), None) => own < u32::MAX || i < j,
                (None, Some(other)) => other == u32::MAX && i < j,
                (None, None) => i < j,
            },
    ensures
        server_route(nodes) matches Some(route) && {
            &&& route.protocol == "Server"@
            &&& route.addr == nodes[i].server_addr@
            &&& route.metric == 0
            &&& nodes[i].rtt matches Some(rtt) ==> route.rt == rtt
            &&& nodes[i].rtt is None ==> route.rt == 0
        },
{
    assert(is_best(nodes, None, i));
    lemma_best(nodes, None, i);
}

/// While no server is connected, the route to the server is that to the first, which is being
/// connected to.
pub proof fn law_server_route_while_connecting(nodes: Seq<ServerNode>)
    requires
        nodes.len() > 0,
        forall|j: int| 0 <= j < nodes.len() ==> !(#[trigger] nodes[j]).connected,
    ensures
        server_route(nodes) matches Some(route) && {
            &&& route.protocol == "ServerConnecting"@
            &&& route.addr == nodes[0].server_addr@
            &&& route.metric == 0
            &&& nodes[0].rtt matches Some(rtt) ==> route.rt == rtt
            &&& nodes[0].rtt is None ==> route.rt == 0
        },
{
    assert(!nodes[0].connected);
    assert(forall|i: int| !is_best(nodes, None, i));
}

/// The route to a client over a server goes over the fastest of the connected servers that know it to
/// be online, or of all connected ones if none does. It takes two hops and twice the time, as far as
/// that can be told in 32 bits.
pub proof fn law_relay_route_is_fastest(nodes: Seq<ServerNode>, ip: u32, i: int)
    requires
        0 <= i < nodes.len(),
        nodes[i].connected,
        ({
            let knows = |j: int|
                nodes[j].client_map@.contains_key(ip) && nodes[j].client_map@[ip];
            let rival = |j: int|
                0 <= j < nodes.len() && j != i && nodes[j].connected && (knows(i) ==> knows(j));
            &&& knows(i) || forall|j: int|
                0 <= j < nodes.len() && (#[trigger] nodes[j]).connected ==> !knows(j)
            &&& forall|j: int|
                #![trigger nodes[j]]
                rival(j) ==> match (nodes[i].rtt, nodes[j].rtt) {
                    (Some(own), Some(other)) => own < other || own == other && i < j,
                    (Some(own), None) => own < u32::MAX || i < j,
                    (None, Some(other)) => other == u32::MAX && i < j,
                    (None, None) => i < j,
                }
        }),
    ensures
        relay_route(nodes, ip) matches Some(route) && {
            &&& route.protocol == "ServerRelay"@
            &&& route.addr == nodes[i].server_addr@
            &&& route.metric == 2
            &&& nodes[i].rtt matches Some(rtt) ==> {
                &&& rtt <= 0x7fff_ffff ==> route.rt == rtt + rtt
                &&& rtt > 0x7fff_ffff ==> route.rt == 0xffff_ffff
            }
            &&& nodes[i].rtt is None ==> route.rt == 0
        },
{
    if nodes[i].client_map@.contains_key(ip) && nodes[i].client_map@[ip] {
        assert(is_best(nodes, Some(ip), i));
        lemma_best(nodes, Some(ip), i);
    } else {
        assert(forall|j: int| !is_best(nodes, Some(ip), j));
        assert(is_best(nodes, None, i));
        lemma_best(nodes, None, i);
    }
}

/// The route to the gateway is that to the server. The route to a client that is online is the one
/// that the core found, as `P2P` if it is direct and as `ClientRelay` if it is not, with its address,
/// hops and round-trip time; if the core found none, it is the one over a server.
pub proof fn law_route_to(api: CoreApi, ip: u32, c: int, found: CoreRoute)
    requires
        0 <= c < api.client_ips@.len(),
        api.client_ips@[c].ip == ip,
        api.client_ips@[c].online,
    ensures
        api.network matches Some(network) && network.addr.gateway == ip ==> route_to(
            api,
            ip,
            Some(found),
        ) == server_route(api.server_nodes@) && route_to(api, ip, None) == server_route(
            api.server_nodes@,
        ),
        !(api.network matches Some(network) && network.addr.gateway == ip) ==> {
            &&& route_to(api, ip, None) == relay_route(api.server_nodes@, ip)
            &&& route_to(api, ip, Some(found)) matches Some(route) && {
                &&& found.direct ==> route.protocol == "P2P"@
                &&& !found.direct ==> route.protocol == "ClientRelay"@
                &&& route.addr == found.addr@
                &&& route.metric == found.metric
                &&& route.rt == found.rtt
            }
        },
{
    assert(is_online(api.client_ips@, ip));
}

} // verus!
