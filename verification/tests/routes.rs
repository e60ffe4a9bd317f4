use std::collections::HashMap;

use vnt_api::core_api::{ClientIp, CoreApi, CoreRoute, CurrentNetwork, NetworkAddr, ServerNode};
use vnt_api::ipv4::Ipv4Network;
use vnt_api::routes::{
    build_route_from_api, build_route_list_from_api, build_server_relay_route_from_api,
    build_server_route_from_api, RustRoute,
};

fn node(server_addr: &str, connected: bool, rtt: Option<u32>, clients: &[(u32, bool)]) -> ServerNode {
    let mut client_map = HashMap::new();
    for (ip, online) in clients {
        client_map.insert(*ip, *online);
    }
    ServerNode { server_addr: server_addr.to_string(), connected, rtt, client_map }
}

fn snapshot(server_nodes: Vec<ServerNode>, client_ips: Vec<ClientIp>, route_table: Vec<(u32, Vec<CoreRoute>)>) -> CoreApi {
    CoreApi {
        network: Some(CurrentNetwork {
            addr: NetworkAddr { ip: 0x0a1a_0002, prefix_len: 24, gateway: 0x0a1a_0001, broadcast: 0x0a1a_00ff },
            net: Ipv4Network { addr: 0x0a1a_0002, prefix_len: 24 },
        }),
        server_nodes,
        client_ips,
        route_table,
        traffic: vec![],
    }
}

fn direct(addr: &str, rtt: u32) -> CoreRoute {
    CoreRoute { direct: true, addr: addr.to_string(), metric: 1, rtt }
}

fn shown(route: &RustRoute) -> (&str, &str, u8, i64) {
    (&route.protocol, &route.addr, route.metric, route.rt)
}

#[test]
fn server_route_is_the_fastest_connected() {
    let api = snapshot(
        vec![node("a", false, Some(1), &[]), node("b", true, Some(9), &[]), node("c", true, Some(5), &[]), node("d", true, Some(5), &[])],
        vec![],
        vec![],
    );
    assert_eq!(shown(&build_server_route_from_api(&api).unwrap()), ("Server", "c", 0, 5));
}

#[test]
fn server_without_measurement_comes_last() {
    let api = snapshot(vec![node("a", true, None, &[]), node("b", true, Some(u32::MAX - 1), &[])], vec![], vec![]);
    assert_eq!(shown(&build_server_route_from_api(&api).unwrap()), ("Server", "b", 0, 4294967294));
    let api = snapshot(vec![node("a", true, None, &[])], vec![], vec![]);
    assert_eq!(shown(&build_server_route_from_api(&api).unwrap()), ("Server", "a", 0, 0));
}

#[test]
fn server_route_without_connection_is_the_first() {
    let api = snapshot(vec![node("a", false, Some(7), &[]), node("b", false, Some(1), &[])], vec![], vec![]);
    assert_eq!(shown(&build_server_route_from_api(&api).unwrap()), ("ServerConnecting", "a", 0, 7));
    assert!(build_server_route_from_api(&snapshot(vec![], vec![], vec![])).is_none());
}

#[test]
fn relay_prefers_a_server_that_knows_the_client() {
    let api = snapshot(
        vec![
            node("a", true, Some(1), &[(5, false)]),
            node("b", true, Some(40), &[(5, true)]),
            node("c", true, Some(30), &[(5, true)]),
            node("d", false, Some(2), &[(5, true)]),
        ],
        vec![],
        vec![],
    );
    assert_eq!(shown(&build_server_relay_route_from_api(&api, 5).unwrap()), ("ServerRelay", "c", 2, 60));
    assert_eq!(shown(&build_server_relay_route_from_api(&api, 6).unwrap()), ("ServerRelay", "a", 2, 2));
}

#[test]
fn relay_time_saturates() {
    let api = snapshot(vec![node("a", true, Some(0x8000_0000), &[])], vec![], vec![]);
    assert_eq!(build_server_relay_route_from_api(&api, 5).unwrap().rt, 4294967295);
    let api = snapshot(vec![node("a", true, Some(0x7fff_ffff), &[])], vec![], vec![]);
    assert_eq!(build_server_relay_route_from_api(&api, 5).unwrap().rt, 4294967294);
}

#[test]
fn no_relay_without_a_connected_server() {
    let api = snapshot(vec![node("a", false, Some(1), &[(5, true)])], vec![], vec![]);
    assert!(build_server_relay_route_from_api(&api, 5).is_none());
}

#[test]
fn route_to_the_gateway_is_that_to_the_server() {
    let api = snapshot(vec![node("a", true, Some(3), &[])], vec![], vec![]);
    let route = build_route_from_api(&api, 0x0a1a_0001, Some(direct("x", 1))).unwrap();
    assert_eq!(shown(&route), ("Server", "a", 0, 3));
    let list = build_route_list_from_api(&api);
    assert_eq!(list[0].0, "服务器");
    assert_eq!(shown(&list[0].1[0]), shown(&route));
}

#[test]
fn route_to_a_client() {
    let api = snapshot(
        vec![node("a", true, Some(3), &[])],
        vec![ClientIp { ip: 5, online: true }, ClientIp { ip: 6, online: false }],
        vec![],
    );
    assert_eq!(shown(&build_route_from_api(&api, 5, Some(direct("x", 8))).unwrap()), ("P2P", "x", 1, 8));
    let relayed = CoreRoute { direct: false, addr: "y".to_string(), metric: 2, rtt: 9 };
    assert_eq!(shown(&build_route_from_api(&api, 5, Some(relayed)).unwrap()), ("ClientRelay", "y", 2, 9));
    assert_eq!(shown(&build_route_from_api(&api, 5, None).unwrap()), ("ServerRelay", "a", 2, 6));
    assert!(build_route_from_api(&api, 6, Some(direct("x", 8))).is_none());
    assert!(build_route_from_api(&api, 7, Some(direct("x", 8))).is_none());
}

#[test]
fn route_list_is_sorted_and_holds_each_online_client_once() {
    let api = snapshot(
        vec![node("a", true, Some(3), &[])],
        vec![
            ClientIp { ip: 9, online: true },
            ClientIp { ip: 5, online: true },
            ClientIp { ip: 7, online: false },
            ClientIp { ip: 9, online: true },
            ClientIp { ip: 0x0a1a_0003, online: true },
        ],
        vec![
            (9, vec![direct("old", 1)]),
            (7, vec![direct("offline", 1)]),
            (5, vec![]),
            (9, vec![direct("new", 2), direct("newer", 3)]),
        ],
    );
    let list = build_route_list_from_api(&api);
    let titles: Vec<&str> = list.iter().map(|entry| entry.0.as_str()).collect();
    assert_eq!(titles, vec!["服务器", "0.0.0.5", "0.0.0.9", "10.26.0.3"]);
    assert_eq!(shown(&list[1].1[0]), ("ServerRelay", "a", 2, 6));
    assert_eq!(list[2].1.len(), 2);
    assert_eq!(shown(&list[2].1[0]), ("P2P", "new", 1, 2));
    assert_eq!(shown(&list[2].1[1]), ("P2P", "newer", 1, 3));
    assert_eq!(shown(&list[3].1[0]), ("ServerRelay", "a", 2, 6));
}

#[test]
fn clients_without_a_route_are_left_out() {
    let api = snapshot(
        vec![node("a", false, None, &[])],
        vec![ClientIp { ip: 5, online: true }, ClientIp { ip: 6, online: true }],
        vec![(6, vec![direct("x", 1)])],
    );
    let list = build_route_list_from_api(&api);
    assert_eq!(list.len(), 2);
    assert_eq!(shown(&list[0].1[0]), ("ServerConnecting", "a", 0, 0));
    assert_eq!(list[1].0, "0.0.0.6");
    assert!(build_route_list_from_api(&snapshot(vec![], vec![ClientIp { ip: 5, online: true }], vec![])).is_empty());
}
