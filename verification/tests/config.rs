use vnt_api::config::{
    check_config, config_questions, convert_to_core_config, decode_cert_mode, needs_device_id,
    normalize_stun_servers, parse_server_addresses, CheckedConfig, ConfigAnswers, ConfigError, ServerAddress,
    VntConfig,
};
use vnt_api::ipv4::Ipv4Network;

type Checked = CheckedConfig<u32, u8, u16, u64>;

fn strings(values: &[&str]) -> Vec<String> {
    values.iter().map(|value| value.to_string()).collect()
}

fn config() -> VntConfig {
    VntConfig {
        server_addr: strings(&[" quic://a:1 ", "", "  ", "tcp://b:2"]),
        cert_mode: " skip\n".to_string(),
        network_code: " net ".to_string(),
        device_id: " id ".to_string(),
        device_name: "\tname ".to_string(),
        tun_name: Some(" tun0 ".to_string()),
        ip: Some(" 10.26.0.5 ".to_string()),
        password: Some("  ".to_string()),
        no_punch: true,
        compress: false,
        rtx: true,
        fec: false,
        input: strings(&["in"]),
        output: strings(&["10.1.2.3/24", "000.0.0.0/00"]),
        no_nat: true,
        no_tun: false,
        mtu: Some(70000),
        port_mapping: strings(&["tcp:1-2"]),
        allow_port_mapping: true,
        udp_stun: strings(&["stun.a", " stun.b:99 "]),
        tcp_stun: strings(&[" ", "stun.c"]),
        tunnel_port: Some(7),
    }
}

fn address(address: u32, text: &str) -> Result<ServerAddress<u32>, String> {
    Ok(ServerAddress { address, text: text.to_string() })
}

fn answers() -> ConfigAnswers<u32, u8, u16, u64> {
    ConfigAnswers {
        server_addr: vec![address(1, "quic://a:1"), address(2, "tcp://b:2")],
        cert_mode: Ok(3),
        input: vec![Ok(4)],
        port_mapping: vec![Ok(5)],
    }
}

fn text(error: ConfigError) -> String {
    format!("{:#}", error.into_error())
}

#[test]
fn stun_servers_get_the_default_port() {
    let servers = normalize_stun_servers(strings(&["stun.a", " stun.b:99 ", "", " \t", "[::1]", "\u{3000}c\u{a0}"]), 3478);
    assert_eq!(servers, strings(&["stun.a:3478", "stun.b:99", "[::1]", "c:3478"]));
}

#[test]
fn stun_servers_are_normalised_once() {
    let once = normalize_stun_servers(strings(&[" a ", "b:1", ""]), 443);
    let twice = normalize_stun_servers(once.clone(), 3478);
    assert_eq!(once, twice);
    assert_eq!(once, strings(&["a:443", "b:1"]));
}

#[test]
fn texts_for_the_core() {
    let questions = config_questions(&config());
    assert_eq!(questions.server_addr, strings(&["quic://a:1", "tcp://b:2"]));
    assert_eq!(questions.cert_mode, "skip");
    assert_eq!(questions.input, strings(&["in"]));
    assert_eq!(questions.port_mapping, strings(&["tcp:1-2"]));
}

#[test]
fn valid_config_is_converted() {
    let config = config();
    let checked = check_config(&config, answers()).unwrap();
    assert!(!needs_device_id(&config));
    let (core, targets) = convert_to_core_config(&config, checked, None).unwrap();
    assert_eq!(targets, strings(&["quic://a:1", "tcp://b:2"]));
    assert_eq!(core.server_addr, vec![1, 2]);
    assert_eq!(core.cert_mode, 3);
    assert_eq!(core.network_code, "net");
    assert_eq!(core.device_id, "id");
    assert_eq!(core.device_name, "name");
    assert_eq!(core.tun_name, Some("tun0".to_string()));
    assert_eq!(core.ip, Some(0x0a1a_0005));
    assert_eq!(core.password, None);
    assert!(core.no_punch && !core.compress && core.rtx && !core.fec && core.no_nat && !core.no_tun);
    assert_eq!(core.input, vec![4]);
    assert_eq!(
        core.output,
        vec![Ipv4Network { addr: 0x0a01_0203, prefix_len: 24 }, Ipv4Network { addr: 0, prefix_len: 0 }]
    );
    assert_eq!(core.mtu, Some(65535));
    assert_eq!(core.port_mapping, vec![5]);
    assert!(core.allow_port_mapping);
    assert_eq!(core.udp_stun, strings(&["stun.a:3478", "stun.b:99"]));
    assert_eq!(core.tcp_stun, strings(&["stun.c:443"]));
    assert_eq!(core.tunnel_port, Some(7));
}

#[test]
fn small_mtu_is_kept() {
    let mut config = config();
    config.mtu = Some(1400);
    let checked = check_config(&config, answers()).unwrap();
    assert_eq!(convert_to_core_config(&config, checked, None).unwrap().0.mtu, Some(1400));
    config.mtu = None;
    let checked = check_config(&config, answers()).unwrap();
    assert_eq!(convert_to_core_config(&config, checked, None).unwrap().0.mtu, None);
}

#[test]
fn blank_device_id_is_left_to_the_core() {
    let mut config = config();
    config.device_id = " \n".to_string();
    assert!(needs_device_id(&config));
    let checked: Checked = check_config(&config, answers()).unwrap();
    let (core, _) = convert_to_core_config(&config, checked, Some(Ok(" made ".to_string()))).unwrap();
    assert_eq!(core.device_id, " made ");
    let checked: Checked = check_config(&config, answers()).unwrap();
    let error = convert_to_core_config(&config, checked, Some(Err(anyhow::Error::msg("no uid")))).unwrap_err();
    assert_eq!(text(error), "生成 VNT 2.0 device_id 失败: no uid");
}

#[test]
fn blank_servers_are_refused() {
    let mut config = config();
    config.server_addr = strings(&["", " "]);
    let mut answers = answers();
    answers.server_addr = vec![];
    answers.cert_mode = Err("bad mode".to_string());
    let error = check_config(&config, answers).unwrap_err();
    assert!(matches!(error, ConfigError::NoServerAddress));
    assert_eq!(text(error), "服务器地址不能为空");
}

#[test]
fn first_bad_server_is_named() {
    let mut answers = answers();
    answers.server_addr = vec![address(1, "x"), Err("no scheme".to_string())];
    answers.cert_mode = Err("bad mode".to_string());
    let error = check_config(&config(), answers).unwrap_err();
    assert_eq!(text(error), "无效服务器地址 tcp://b:2: no scheme");
    let both = vec![Err::<ServerAddress<u32>, String>("one".to_string()), Err("two".to_string())];
    let error = parse_server_addresses(&strings(&[" a", "b"]), both).unwrap_err();
    assert_eq!(text(error), "无效服务器地址 a: one");
}

#[test]
fn bad_cert_mode_is_refused() {
    let mut answers = answers();
    answers.cert_mode = Err("bad mode".to_string());
    answers.input = vec![Err("bad input".to_string())];
    assert_eq!(text(check_config(&config(), answers).unwrap_err()), "bad mode");
    assert_eq!(decode_cert_mode(Ok::<u8, String>(1)).unwrap(), 1);
    assert_eq!(text(decode_cert_mode(Err::<u8, String>("m".to_string())).unwrap_err()), "m");
}

#[test]
fn bad_input_is_refused() {
    let mut answers = answers();
    answers.input = vec![Err("bad input".to_string())];
    answers.port_mapping = vec![Err("bad mapping".to_string())];
    assert_eq!(text(check_config(&config(), answers).unwrap_err()), "bad input");
}

#[test]
fn bad_output_is_refused() {
    for bad in ["10.1.2.3", "10.1.2.3/33", "10.1.2/24", "10.1.2.3/", "10.1.2.3/024", "10.1.2.0003/24", " 10.1.2.3/24", "256.0.0.0/8", ""] {
        let mut config = config();
        config.output = strings(&["10.0.0.0/8", bad]);
        let mut answers = answers();
        answers.port_mapping = vec![Err("bad mapping".to_string())];
        let error = check_config(&config, answers).unwrap_err();
        assert_eq!(text(error), "解析 output 网络段失败: invalid IP address syntax", "{}", bad);
    }
}

#[test]
fn output_round_trip() {
    for (addr, prefix_len, written) in [
        (0u32, 0u8, "0.0.0.0/0"),
        (0x0a01_0203, 24, "10.1.2.3/24"),
        (u32::MAX, 32, "255.255.255.255/32"),
        (0x0a01_0203, 8, "010.001.002.003/08"),
    ] {
        let mut config = config();
        config.output = strings(&[written]);
        let checked: Checked = check_config(&config, answers()).unwrap();
        assert_eq!(checked.output, vec![Ipv4Network { addr, prefix_len }]);
    }
}

#[test]
fn bad_port_mapping_is_refused() {
    let mut config = config();
    config.ip = Some("x".to_string());
    let mut answers = answers();
    answers.port_mapping = vec![Err("bad mapping".to_string())];
    assert_eq!(text(check_config(&config, answers).unwrap_err()), "bad mapping");
}

#[test]
fn bad_virtual_ip_is_refused() {
    let mut config = config();
    config.ip = Some(" 10.26.0 ".to_string());
    let error = check_config(&config, answers()).unwrap_err();
    assert_eq!(text(error), "解析指定虚拟 IP 失败: invalid IPv4 address syntax");
}

#[test]
fn missing_or_blank_virtual_ip_is_none() {
    let mut config = config();
    config.ip = None;
    assert_eq!(check_config(&config, answers()).unwrap().ip, None);
    config.ip = Some("  ".to_string());
    assert_eq!(check_config(&config, answers()).unwrap().ip, None);
}

#[test]
fn white_space_is_that_of_unicode() {
    for c in [
        '\u{9}', '\u{a}', '\u{b}', '\u{c}', '\u{d}', ' ', '\u{85}', '\u{a0}', '\u{1680}', '\u{2000}', '\u{2005}',
        '\u{200a}', '\u{2028}', '\u{2029}', '\u{202f}', '\u{205f}', '\u{3000}',
    ] {
        assert_eq!(normalize_stun_servers(vec![format!("{}a:1{}", c, c)], 1), strings(&["a:1"]));
    }
    for c in ['\u{8}', '\u{e}', '\u{1f}', '\u{180e}', '\u{200b}', '\u{2060}', '\u{feff}'] {
        let kept = format!("{}a:1{}", c, c);
        assert_eq!(normalize_stun_servers(vec![kept.clone()], 1), vec![kept]);
    }
}

#[test]
fn lists_of_stun_servers_are_put_together() {
    let first = ["a", " ", "b:1"];
    let second = [" c ", ""];
    let mut apart = normalize_stun_servers(strings(&first), 3478);
    apart.extend(normalize_stun_servers(strings(&second), 3478));
    let together: Vec<&str> = first.iter().chain(second.iter()).copied().collect();
    assert_eq!(normalize_stun_servers(strings(&together), 3478), apart);
}
