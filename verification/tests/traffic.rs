use vnt_api::core_api::{CoreApi, TrafficInfo};
use vnt_api::traffic::{checked_total_traffic, convert, total_traffic};

fn snapshot(traffic: Vec<TrafficInfo>) -> CoreApi {
    CoreApi { network: None, server_nodes: vec![], client_ips: vec![], route_table: vec![], traffic }
}

#[test]
fn amounts_in_words() {
    assert_eq!(convert(0), "");
    assert_eq!(convert(1), "1 bytes");
    assert_eq!(convert(1023), "1023 bytes");
    assert_eq!(convert(1024), "1 KB ");
    assert_eq!(convert(1025), "1 KB 1 bytes");
    assert_eq!(convert(1024 * 1024), "1 MB ");
    assert_eq!(convert(1024 * 1024 * 1024), "1 GB ");
    assert_eq!(convert(1024 * 1024 * 1024 + 2 * 1024 * 1024 + 3 * 1024 + 4), "1 GB 2 MB 3 KB 4 bytes");
    assert_eq!(convert(5 * 1024 * 1024 * 1024 + 7), "5 GB 7 bytes");
    assert_eq!(convert(u64::MAX), "17179869183 GB 1023 MB 1023 KB 1023 bytes");
}

#[test]
fn amounts_can_be_told_apart() {
    let mut seen: Vec<String> = vec![];
    for num in [0u64, 1, 10, 1024, 10 * 1024, 1024 * 1024, 11 * 1024 * 1024, 1 << 30, (1 << 30) + 1, 1 << 40] {
        let text = convert(num);
        assert!(!seen.contains(&text));
        seen.push(text);
    }
}

#[test]
fn totals() {
    let api = snapshot(vec![
        TrafficInfo { ip: 1, tx_bytes: 10, rx_bytes: 1 },
        TrafficInfo { ip: 2, tx_bytes: 20, rx_bytes: 2 },
        TrafficInfo { ip: 1, tx_bytes: 30, rx_bytes: 3 },
    ]);
    assert_eq!(total_traffic(&api, true), 60);
    assert_eq!(total_traffic(&api, false), 6);
    assert_eq!(total_traffic(&snapshot(vec![]), true), 0);
}

#[test]
fn totals_that_do_not_fit() {
    let api = snapshot(vec![
        TrafficInfo { ip: 1, tx_bytes: u64::MAX, rx_bytes: u64::MAX },
        TrafficInfo { ip: 2, tx_bytes: 1, rx_bytes: 0 },
    ]);
    assert_eq!(checked_total_traffic(&api, true), None);
    assert_eq!(checked_total_traffic(&api, false), Some(u64::MAX));
}

#[test]
fn amounts_split_at_units() {
    for num in [0u64, 5, 1024, 5000, (3 << 20) + 7, (9 << 30) + (8 << 20) + (7 << 10) + 6, u64::MAX] {
        for unit in [1u64 << 10, 1 << 20, 1 << 30] {
            assert_eq!(convert(num), format!("{}{}", convert(num - num % unit), convert(num % unit)));
        }
    }
}
