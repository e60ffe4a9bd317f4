use vnt_api::core_api::NetworkAddr;
use vnt_api::errors::RustErrorType;
use vnt_api::ipv4::Ipv4Network;
use vnt_api::startup::{
    begin_network, connect_reports, failure_reports, start_network, success_reports, RegisterReply,
    RustRegisterInfo, StartAction, StartEvent, StartPlan, StartReport, StartState,
};

fn addr() -> NetworkAddr {
    NetworkAddr { ip: 0x0a1a_0502, prefix_len: 20, gateway: 0x0a1a_0001, broadcast: 0x0a1a_0fff }
}

fn plan(mobile: bool) -> StartPlan {
    StartPlan { mobile, input_routes: vec![Ipv4Network { addr: 0xc0a8_0117, prefix_len: 24 }] }
}

fn done() -> StartEvent {
    StartEvent::Done(Ok(()))
}

fn failed(text: &'static str) -> StartEvent {
    StartEvent::Done(Err(anyhow::Error::msg(text)))
}

fn granted(addr: NetworkAddr, no_tun: bool) -> StartEvent {
    StartEvent::Registered { reply: Ok(RegisterReply::Success(addr)), no_tun }
}

fn registering(mobile: bool) -> StartState {
    let (state, action) = begin_network(plan(mobile));
    assert!(matches!(action, StartAction::CreateNetwork));
    let (state, action) = start_network(state, done());
    assert!(matches!(action, StartAction::Register));
    state
}

fn failure(step: (StartState, StartAction)) -> String {
    assert!(matches!(step.0, StartState::Ended));
    match step.1 {
        StartAction::Fail(error) => format!("{:#}", error),
        other => panic!("{:?}", other),
    }
}

#[test]
fn desktop_start() {
    let (state, action) = start_network(registering(false), granted(addr(), false));
    assert!(matches!(action, StartAction::StartTun));
    let (state, action) = start_network(state, done());
    assert!(matches!(action, StartAction::SetTunNetworkIp { ip: 0x0a1a_0502, prefix_len: 20 }));
    let (state, action) = start_network(state, done());
    assert!(matches!(action, StartAction::AddInputRoutes));
    let (state, action) = start_network(state, done());
    assert!(matches!(state, StartState::Ended));
    match action {
        StartAction::Finish(addr) => assert_eq!(addr.gateway, 0x0a1a_0001),
        other => panic!("{:?}", other),
    }
}

#[test]
fn mobile_start() {
    let (state, action) = start_network(registering(true), granted(addr(), false));
    match action {
        StartAction::GenerateTun(config) => {
            assert_eq!(config.virtual_ip, "10.26.5.2");
            assert_eq!(config.virtual_netmask, "255.255.240.0");
            assert_eq!(config.virtual_gateway, "10.26.0.1");
            assert_eq!(config.virtual_network, "10.26.0.0");
            assert_eq!(config.external_route, vec![("192.168.1.0".to_string(), "255.255.255.0".to_string())]);
        }
        other => panic!("{:?}", other),
    }
    let (state, action) = start_network(state, StartEvent::TunGenerated(7));
    assert!(matches!(action, StartAction::StartTunFd(7)));
    let (state, action) = start_network(state, done());
    assert!(matches!(state, StartState::Ended));
    assert!(matches!(action, StartAction::Finish(_)));
}

#[test]
fn great_fd_wraps() {
    let (state, _) = start_network(registering(true), granted(addr(), false));
    let (_, action) = start_network(state, StartEvent::TunGenerated(u32::MAX));
    assert!(matches!(action, StartAction::StartTunFd(-1)));
}

#[test]
fn start_without_device() {
    for mobile in [false, true] {
        let (state, action) = start_network(registering(mobile), granted(addr(), true));
        assert!(matches!(state, StartState::Ended));
        assert!(matches!(action, StartAction::Finish(_)));
    }
}

#[test]
fn failures_are_put_into_words() {
    let (state, _) = begin_network(plan(false));
    assert_eq!(failure(start_network(state, failed("x"))), "创建 VNT 2.0 网络实例失败: x");

    let event = StartEvent::Registered { reply: Err(anyhow::Error::msg("x")), no_tun: false };
    assert_eq!(failure(start_network(registering(false), event)), "注册到 VNTS 2.0 服务端失败: x");

    let (state, _) = start_network(registering(false), granted(addr(), false));
    assert_eq!(failure(start_network(state, failed("x"))), "启动虚拟网卡失败: x");

    let (state, _) = start_network(registering(false), granted(addr(), false));
    let (state, _) = start_network(state, done());
    assert_eq!(failure(start_network(state, failed("x"))), "设置虚拟网卡 IP 失败: x");

    let (state, _) = start_network(registering(false), granted(addr(), false));
    let (state, _) = start_network(state, done());
    let (state, _) = start_network(state, done());
    assert_eq!(failure(start_network(state, failed("x"))), "添加子网路由失败: x");
}

#[test]
fn mobile_failures_are_put_into_words() {
    let mut bad = addr();
    bad.prefix_len = 33;
    assert_eq!(
        failure(start_network(registering(true), granted(bad, false))),
        "解析虚拟网络段失败: invalid IP prefix length"
    );

    let (state, _) = start_network(registering(true), granted(addr(), false));
    assert_eq!(failure(start_network(state, StartEvent::TunGenerated(0))), "系统 VPN 服务未返回有效 tun fd");

    let (state, _) = start_network(registering(true), granted(addr(), false));
    let (state, _) = start_network(state, StartEvent::TunGenerated(3));
    assert_eq!(failure(start_network(state, failed("x"))), "启动虚拟网卡失败: x");
}

#[test]
fn refused_registration_is_reported() {
    let reply = Ok(RegisterReply::Failed { code: 1, message: "no such network".to_string() });
    let (state, action) = start_network(registering(false), StartEvent::Registered { reply, no_tun: false });
    assert!(matches!(state, StartState::Ended));
    let error = match action {
        StartAction::Fail(error) => error,
        other => panic!("{:?}", other),
    };
    let reports = failure_reports(&error);
    assert_eq!(reports.len(), 1);
    match &reports[0] {
        StartReport::Error(info) => {
            assert_eq!(info.code, RustErrorType::TokenError);
            assert_eq!(info.server_code, Some(1));
            assert_eq!(info.msg.as_deref(), Some("注册到 VNTS 2.0 服务端失败(code=1): no such network"));
        }
        other => panic!("{:?}", other),
    }
}

#[test]
fn connections_are_numbered_from_one() {
    let reports = connect_reports(&vec!["a".to_string(), "b".to_string()]);
    assert_eq!(reports.len(), 2);
    match (&reports[0], &reports[1]) {
        (StartReport::Connect(first), StartReport::Connect(second)) => {
            assert_eq!((first.count, first.address.as_str()), (1, "a"));
            assert_eq!((second.count, second.address.as_str()), (2, "b"));
        }
        other => panic!("{:?}", other),
    }
}

#[test]
fn success_is_reported_in_order() {
    let reports = success_reports(&addr());
    assert_eq!(reports.len(), 3);
    match (&reports[0], &reports[1], &reports[2]) {
        (StartReport::Handshake(handshake), StartReport::Register(register), StartReport::Success) => {
            assert!(handshake.finger.is_none());
            assert_eq!(handshake.version, "2.0.0");
            assert_eq!(register.virtual_ip, "10.26.5.2");
        }
        other => panic!("{:?}", other),
    }
}

#[test]
fn registration_in_words() {
    let info = RustRegisterInfo::from_network_addr(&addr());
    assert_eq!(info.virtual_ip, "10.26.5.2");
    assert_eq!(info.virtual_netmask, "255.255.240.0");
    assert_eq!(info.virtual_gateway, "10.26.0.1");
}
