use std::collections::HashMap;

use vnt_api::api::VntApi;
use vnt_api::core_api::{ClientIp, CoreApi, CoreRoute, CurrentNetwork, NetworkAddr, ServerNode, TrafficInfo};
use vnt_api::devices::{NatInfo, NatType};
use vnt_api::ipv4::Ipv4Network;

fn snapshot() -> CoreApi {
    CoreApi {
        network: Some(CurrentNetwork {
            addr: NetworkAddr { ip: 0x0a1a_0002, prefix_len: 24, gateway: 0x0a1a_0001, broadcast: 0x0a1a_00ff },
            net: Ipv4Network { addr: 0x0a1a_0002, prefix_len: 24 },
        }),
        server_nodes: vec![ServerNode {
            server_addr: "s".to_string(),
            connected: true,
            rtt: Some(4),
            client_map: HashMap::new(),
        }],
        client_ips: vec![ClientIp { ip: 0x0a1a_0003, online: true }],
        route_table: vec![],
        traffic: vec![TrafficInfo { ip: 0x0a1a_0003, tx_bytes: 2048, rx_bytes: 5 }],
    }
}

fn nat_reply() -> Option<NatInfo> {
    Some(NatInfo { nat_type: NatType::Cone, public_ips: vec![], local_ipv4: 1, ipv6: None })
}

fn info() -> Option<TrafficInfo> {
    Some(TrafficInfo { ip: 0x0a1a_0003, tx_bytes: 2048, rx_bytes: 5 })
}

#[test]
fn manager_is_given_up_once() {
    let mut api = VntApi::new("manager");
    assert!(!api.is_stopped());
    assert_eq!(api.stop(), Some("manager"));
    assert!(api.is_stopped());
    assert_eq!(api.stop(), None);
    assert!(api.is_stopped());
}

#[test]
fn running_client_answers() {
    let api = VntApi::new(());
    let ip = "10.26.0.3".to_string();
    assert_eq!(api.device_list(&None, &None, &snapshot().client_ips)[0].virtual_ip, "10.26.0.3");
    assert_eq!(api.route_list(&snapshot()).len(), 2);
    assert_eq!(api.nat_info(nat_reply()).nat_type, "Cone");
    assert_eq!(api.nat_info(None).nat_type, "");
    assert_eq!(api.current_device(&snapshot()).virtual_ip, "10.26.0.2");
    assert_eq!(api.lookup_address(&ip), Some(0x0a1a_0003));
    assert_eq!(api.route(&snapshot(), &ip, None).unwrap().protocol, "ServerRelay");
    let found = CoreRoute { direct: true, addr: "x".to_string(), metric: 1, rtt: 3 };
    assert_eq!(api.route(&snapshot(), &ip, Some(found)).unwrap().protocol, "P2P");
    assert_eq!(api.peer_nat_info(&ip, nat_reply()).unwrap().local_ipv4, Some("0.0.0.1".to_string()));
    assert!(api.peer_nat_info(&ip, None).is_none());
    assert_eq!(api.up_stream(&snapshot()), "2 KB ");
    assert_eq!(api.down_stream(&snapshot()), "5 bytes");
    assert_eq!(api.stream_all(&snapshot()), vec![("10.26.0.3".to_string(), 2048, 5)]);
    assert_eq!(api.up_stream_line(ip.clone(), info()), vec![2048]);
    assert_eq!(api.down_stream_line(ip.clone(), info()), vec![5]);
    assert!(api.up_stream_line(ip.clone(), None).is_empty());
    assert_eq!(api.ip_up_stream_total(ip.clone(), info()), "2 KB ");
    assert_eq!(api.ip_down_stream_total(ip.clone(), info()), "5 bytes");
    assert_eq!(api.ip_down_stream_total(ip, None), "");
}

#[test]
fn texts_that_are_no_address_have_no_answer() {
    let api = VntApi::new(());
    let bad = "10.26.0".to_string();
    assert_eq!(api.lookup_address(&bad), None);
    assert!(api.route(&snapshot(), &bad, None).is_none());
    assert!(api.peer_nat_info(&bad, nat_reply()).is_none());
    assert!(api.up_stream_line(bad.clone(), info()).is_empty());
    assert!(api.down_stream_line(bad.clone(), info()).is_empty());
    assert_eq!(api.ip_up_stream_total(bad.clone(), info()), "");
    assert_eq!(api.ip_down_stream_total(bad, info()), "");
}

#[test]
fn stopped_client_answers_nothing_but_the_totals() {
    let mut api = VntApi::new(());
    api.stop();
    let ip = "10.26.0.3".to_string();
    assert!(api.device_list(&None, &None, &snapshot().client_ips).is_empty());
    assert!(api.route_list(&snapshot()).is_empty());
    assert_eq!(api.nat_info(nat_reply()).nat_type, "");
    assert_eq!(api.current_device(&snapshot()).virtual_ip, "");
    assert_eq!(api.lookup_address(&ip), None);
    assert!(api.route(&snapshot(), &ip, None).is_none());
    assert!(api.peer_nat_info(&ip, nat_reply()).is_none());
    assert!(api.stream_all(&snapshot()).is_empty());
    assert!(api.up_stream_line(ip.clone(), info()).is_empty());
    assert!(api.down_stream_line(ip.clone(), info()).is_empty());
    assert_eq!(api.ip_up_stream_total(ip.clone(), info()), "");
    assert_eq!(api.ip_down_stream_total(ip, info()), "");
    assert_eq!(api.up_stream(&snapshot()), "2 KB ");
    assert_eq!(api.down_stream(&snapshot()), "5 bytes");
}

#[test]
fn totals_are_those_of_the_lines() {
    let api = VntApi::new(());
    let mut reported = snapshot();
    reported.traffic.push(TrafficInfo { ip: 1, tx_bytes: 1024, rx_bytes: 1019 });
    let lines = api.stream_all(&reported);
    assert_eq!(lines.iter().map(|line| line.1).sum::<u64>(), 3072);
    assert_eq!(api.up_stream(&reported), "3 KB ");
    assert_eq!(lines.iter().map(|line| line.2).sum::<u64>(), 1024);
    assert_eq!(api.down_stream(&reported), "1 KB ");
}
