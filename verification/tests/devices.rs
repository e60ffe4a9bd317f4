use std::collections::HashMap;

use vnt_api::core_api::{ClientIp, CoreApi, CurrentNetwork, NetworkAddr, ServerClient, ServerNode};
use vnt_api::devices::{
    build_peer_list, current_device_from_api, NatInfo, NatType, RustCurrentDeviceInfo, RustNatInfo,
};
use vnt_api::ipv4::Ipv4Network;
use vnt_api::routes::build_server_route_from_api;

fn client(ip: u32, name: &str, online: bool, key_sign: Option<&[u8]>) -> ServerClient {
    ServerClient { ip, name: name.to_string(), online, key_sign: key_sign.map(|bytes| bytes.to_vec()) }
}

fn node(server_addr: &str, connected: bool) -> ServerNode {
    ServerNode { server_addr: server_addr.to_string(), connected, rtt: None, client_map: HashMap::new() }
}

fn snapshot(server_nodes: Vec<ServerNode>) -> CoreApi {
    CoreApi {
        network: Some(CurrentNetwork {
            addr: NetworkAddr { ip: 0x0a1a_0502, prefix_len: 20, gateway: 0x0a1a_0001, broadcast: 0x0a1a_0fff },
            net: Ipv4Network { addr: 0x0a1a_0502, prefix_len: 20 },
        }),
        server_nodes,
        client_ips: vec![],
        route_table: vec![],
        traffic: vec![],
    }
}

#[test]
fn clients_that_the_server_lists() {
    let listed = Some(vec![
        client(0x0a1a_0002, " phone ", true, None),
        client(0x0a1a_0003, "  ", false, Some(b"k")),
    ]);
    let peers = build_peer_list(&listed, &None, &vec![ClientIp { ip: 9, online: true }]);
    assert_eq!(peers.len(), 2);
    assert_eq!(peers[0].virtual_ip, "10.26.0.2");
    assert_eq!(peers[0].name, " phone ");
    assert_eq!(peers[0].status, "Online");
    assert!(!peers[0].client_secret);
    assert_eq!(peers[1].name, "10.26.0.3");
    assert_eq!(peers[1].status, "Offline");
    assert!(peers[1].client_secret);
}

#[test]
fn key_signatures_are_compared() {
    let secret = |theirs: Option<&[u8]>, ours: Option<&[u8]>| {
        let listed = Some(vec![client(1, "a", true, theirs)]);
        build_peer_list(&listed, &ours.map(|bytes| bytes.to_vec()), &vec![])[0].client_secret
    };
    assert!(!secret(None, None));
    assert!(!secret(Some(b""), None));
    assert!(secret(Some(b"x"), None));
    assert!(secret(None, Some(b"x")));
    assert!(secret(Some(b""), Some(b"x")));
    assert!(secret(Some(b""), Some(b"")));
    assert!(!secret(Some(b"xy"), Some(b"xy")));
    assert!(secret(Some(b"xy"), Some(b"xz")));
    assert!(secret(Some(b"xy"), Some(b"x")));
}

#[test]
fn clients_that_only_the_core_knows() {
    let known = vec![ClientIp { ip: 1, online: true }, ClientIp { ip: 2, online: false }];
    for listed in [None, Some(vec![])] {
        let peers = build_peer_list(&listed, &Some(b"k".to_vec()), &known);
        assert_eq!(peers.len(), 2);
        assert_eq!(peers[0].virtual_ip, "0.0.0.1");
        assert_eq!(peers[0].name, "0.0.0.1");
        assert_eq!(peers[0].status, "Online");
        assert!(!peers[0].client_secret);
        assert_eq!(peers[1].status, "Offline");
    }
}

#[test]
fn current_device_of_a_network() {
    let device = current_device_from_api(&snapshot(vec![node("a", false), node("b", true), node("c", true)]));
    assert_eq!(device.virtual_ip, "10.26.5.2");
    assert_eq!(device.virtual_netmask, "255.255.240.0");
    assert_eq!(device.virtual_gateway, "10.26.0.1");
    assert_eq!(device.virtual_network, "10.26.0.0");
    assert_eq!(device.broadcast_ip, "10.26.15.255");
    assert_eq!(device.connect_server, "b");
    assert_eq!(device.status, "Online");
}

#[test]
fn current_device_while_connecting() {
    let device = current_device_from_api(&snapshot(vec![node("a", false), node("b", false)]));
    assert_eq!(device.connect_server, "a");
    assert_eq!(device.status, "Connecting");
    assert_eq!(current_device_from_api(&snapshot(vec![])).connect_server, "");
}

#[test]
fn current_device_without_network() {
    let mut api = snapshot(vec![node("a", true)]);
    api.network = None;
    for device in [current_device_from_api(&api), RustCurrentDeviceInfo::default()] {
        assert_eq!(device.virtual_ip, "");
        assert_eq!(device.virtual_netmask, "");
        assert_eq!(device.virtual_gateway, "");
        assert_eq!(device.virtual_network, "");
        assert_eq!(device.broadcast_ip, "");
        assert_eq!(device.connect_server, "");
        assert_eq!(device.status, "");
    }
}

#[test]
fn network_parts() {
    for (addr, prefix_len, expected) in [
        (0xffff_ffffu32, 0u8, "0.0.0.0"),
        (0xffff_ffff, 1, "128.0.0.0"),
        (0xac10_7b7b, 16, "172.16.0.0"),
        (0xc0a8_01ff, 31, "192.168.1.254"),
        (0xc0a8_01ff, 32, "192.168.1.255"),
    ] {
        let mut api = snapshot(vec![]);
        api.network.as_mut().unwrap().net = Ipv4Network { addr, prefix_len };
        assert_eq!(current_device_from_api(&api).virtual_network, expected);
    }
}

#[test]
fn nat_of_a_client() {
    let nat = RustNatInfo::from(NatInfo {
        nat_type: NatType::Symmetric,
        public_ips: vec![0x0102_0304, 0x0506_0708],
        local_ipv4: 0xc0a8_0102,
        ipv6: Some("2001:db8::1".to_string()),
    });
    assert_eq!(nat.public_ips, vec!["1.2.3.4".to_string(), "5.6.7.8".to_string()]);
    assert_eq!(nat.nat_type, "Symmetric");
    assert_eq!(nat.local_ipv4, Some("192.168.1.2".to_string()));
    assert_eq!(nat.ipv6, Some("2001:db8::1".to_string()));
}

#[test]
fn unspecified_local_address_is_left_out() {
    let nat = RustNatInfo::from(NatInfo { nat_type: NatType::Cone, public_ips: vec![], local_ipv4: 0, ipv6: None });
    assert_eq!(nat.nat_type, "Cone");
    assert!(nat.public_ips.is_empty());
    assert_eq!(nat.local_ipv4, None);
    assert_eq!(nat.ipv6, None);
    let none = RustNatInfo::default();
    assert_eq!(none.nat_type, "");
    assert!(none.public_ips.is_empty() && none.local_ipv4.is_none() && none.ipv6.is_none());
}

#[test]
fn nat_converts_by_into() {
    let nat: RustNatInfo =
        NatInfo { nat_type: NatType::Cone, public_ips: vec![7], local_ipv4: 9, ipv6: None }.into();
    assert_eq!(nat.public_ips, vec!["0.0.0.7".to_string()]);
    assert_eq!(nat.local_ipv4, Some("0.0.0.9".to_string()));
}

#[test]
fn no_client_is_shown_without_a_name() {
    let listed = Some(vec![client(1, "", true, None), client(2, "\u{3000}", true, None), client(3, " c", true, None)]);
    for peer in build_peer_list(&listed, &None, &vec![]) {
        assert!(!peer.name.trim().is_empty());
    }
}

#[test]
fn status_agrees_with_the_server_route() {
    for nodes in [vec![], vec![node("a", false)], vec![node("a", false), node("b", true)]] {
        let api = snapshot(nodes);
        let online = current_device_from_api(&api).status == "Online";
        let protocol = build_server_route_from_api(&api).map(|route| route.protocol);
        assert_eq!(online, protocol == Some("Server".to_string()));
    }
}
