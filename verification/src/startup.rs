//! How a client joins its network, and what it reports of that.

use vstd::prelude::*;

use crate::config;
use crate::core_api::NetworkAddr;
use crate::errors;
use crate::ipv4;
use crate::text;

verus! {

/// A device and its version.
#[derive(Debug)]
pub struct RustDeviceInfo {
    pub name: String,
    pub version: String,
}

/// A server that is being connected to, and which in turn it is.
#[derive(Debug)]
pub struct RustConnectInfo {
    pub count: usize,
    pub address: String,
}

/// What was agreed with the server.
#[derive(Debug)]
pub struct RustHandshakeInfo {
    pub finger: Option<String>,
    pub version: String,
}

/// The addresses that the server gave to this client, as they are shown.
#[derive(Debug)]
pub struct RustRegisterInfo {
    pub virtual_ip: String,
    pub virtual_netmask: String,
    pub virtual_gateway: String,
}

/// What the system needs to know to make a network device.
#[derive(Debug)]
pub struct RustDeviceConfig {
    pub virtual_ip: String,
    pub virtual_netmask: String,
    pub virtual_gateway: String,
    pub virtual_network: String,
    pub external_route: Vec<(String, String)>,
}

/// The value of a [`RustRegisterInfo`].
pub struct Registration {
    pub virtual_ip: Seq<char>,
    pub virtual_netmask: Seq<char>,
    pub virtual_gateway: Seq<char>,
}

impl View for RustRegisterInfo {
    type V = Registration;

    open spec fn view(&self) -> Registration {
        Registration {
            virtual_ip: self.virtual_ip@,
            virtual_netmask: self.virtual_netmask@,
            virtual_gateway: self.virtual_gateway@,
        }
    }
}

/// The addresses that the server gave, as they are shown.
pub open spec fn registration(addr: NetworkAddr) -> Registration {
    Registration {
        virtual_ip: ipv4::address_text(addr.ip),
        virtual_netmask: ipv4::address_text(ipv4::netmask(addr.prefix_len)),
        virtual_gateway: ipv4::address_text(addr.gateway),
    }
}

impl RustRegisterInfo {
    /// The addresses that the server gave, as they are shown.
    pub fn from_network_addr(value: &NetworkAddr) -> (info: Self)
        requires
            value.wf(),
        ensures
            info@ == registration(*value),
    {
        RustRegisterInfo {
            virtual_ip: ipv4::to_text(value.ip),
            virtual_netmask: ipv4::to_text(ipv4::prefix_to_netmask(value.prefix_len)),
            virtual_gateway: ipv4::to_text(value.gateway),
        }
    }
}

/// The value of a [`RustDeviceConfig`].
pub struct DeviceConfig {
    pub virtual_ip: Seq<char>,
    pub virtual_netmask: Seq<char>,
    pub virtual_gateway: Seq<char>,
    pub virtual_network: Seq<char>,
    pub external_route: Seq<(Seq<char>, Seq<char>)>,
}

impl View for RustDeviceConfig {
    type V = DeviceConfig;

    open spec fn view(&self) -> DeviceConfig {
        DeviceConfig {
            virtual_ip: self.virtual_ip@,
            virtual_netmask: self.virtual_netmask@,
            virtual_gateway: self.virtual_gateway@,
            virtual_network: self.virtual_network@,
            external_route: self.external_route@.map_values(
                |route: (String, String)| (route.0@, route.1@),
            ),
        }
    }
}

/// A route of the system into a network: its address and its netmask.
pub open spec fn external_route(net: ipv4::Ipv4Network) -> (Seq<char>, Seq<char>) {
    (
        ipv4::address_text(ipv4::network_part(net.addr, net.prefix_len)),
        ipv4::address_text(ipv4::netmask(net.prefix_len)),
    )
}

/// What the system needs to know to make the network device.
pub open spec fn device_config(
    addr: NetworkAddr,
    input_routes: Seq<ipv4::Ipv4Network>,
) -> DeviceConfig {
    DeviceConfig {
        virtual_ip: ipv4::address_text(addr.ip),
        virtual_netmask: ipv4::address_text(ipv4::netmask(addr.prefix_len)),
        virtual_gateway: ipv4::address_text(addr.gateway),
        virtual_network: ipv4::address_text(ipv4::network_part(addr.ip, addr.prefix_len)),
        external_route: input_routes.map_values(|net: ipv4::Ipv4Network| external_route(net)),
    }
}

/// What is known before a client joins its network: whether the system makes the network device,
/// as on mobile systems, and the networks that are routed into this client.
#[derive(Debug)]
pub struct StartPlan {
    pub mobile: bool,
    pub input_routes: Vec<ipv4::Ipv4Network>,
}

impl StartPlan {
    /// All networks have valid prefixes.
    pub open spec fn wf(self) -> bool {
        forall|i: int| 0 <= i < self.input_routes@.len() ==> (#[trigger] self.input_routes@[i]).wf()
    }
}

/// What the server answers to a registration.
#[derive(Debug)]
pub enum RegisterReply {
    Success(NetworkAddr),
    Failed { code: u32, message: String },
}

/// How far a client has come in joining its network: which action is under way.
#[derive(Debug)]
pub enum StartState {
    Creating(StartPlan),
    Registering(StartPlan),
    GeneratingTun(NetworkAddr),
    StartingTunFd(NetworkAddr),
    StartingTun(NetworkAddr),
    SettingIp(NetworkAddr),
    AddingRoutes(NetworkAddr),
    Ended,
}

/// What came of an action.
#[derive(Debug)]
pub enum StartEvent {
    Done(Result<(), anyhow::Error>),
    Registered { reply: Result<RegisterReply, anyhow::Error>, no_tun: bool },
    TunGenerated(u32),
}

/// What to do next.
#[derive(Debug)]
pub enum StartAction {
    CreateNetwork,
    Register,
    GenerateTun(RustDeviceConfig),
    StartTunFd(i32),
    StartTun,
    SetTunNetworkIp { ip: u32, prefix_len: u8 },
    AddInputRoutes,
    Finish(NetworkAddr),
    Fail(anyhow::Error),
}

/// The value of a [`StartAction`].
pub enum Action {
    CreateNetwork,
    Register,
    GenerateTun(DeviceConfig),
    StartTunFd(i32),
    StartTun,
    SetTunNetworkIp { ip: u32, prefix_len: u8 },
    AddInputRoutes,
    Finish(NetworkAddr),
    Fail(Seq<Seq<char>>),
}

impl View for StartAction {
    type V = Action;

    open spec fn view(&self) -> Action {
        match *self {
            StartAction::CreateNetwork => Action::CreateNetwork,
            StartAction::Register => Action::Register,
            StartAction::GenerateTun(config) => Action::GenerateTun(config@),
            StartAction::StartTunFd(fd) => Action::StartTunFd(fd),
            StartAction::StartTun => Action::StartTun,
            StartAction::SetTunNetworkIp { ip, prefix_len } => Action::SetTunNetworkIp {
                ip,
                prefix_len,
            },
            StartAction::AddInputRoutes => Action::AddInputRoutes,
            StartAction::Finish(addr) => Action::Finish(addr),
            StartAction::Fail(error) => Action::Fail(errors::error_chain(error)),
        }
    }
}

impl StartState {
    /// The plan, as long as it is needed, is valid.
    pub open spec fn wf(self) -> bool {
        match self {
            StartState::Creating(plan) => plan.wf(),
            StartState::Registering(plan) => plan.wf(),
            _ => true,
        }
    }

    /// The event can come of the action that is under way.
    pub open spec fn expects(self, event: StartEvent) -> bool {
        match self {
            StartState::Registering(_) => event is Registered,
            StartState::GeneratingTun(_) => event is TunGenerated,
            StartState::Ended => false,
            _ => event is Done,
        }
    }
}

/// The failure of an action, put into words.
pub open spec fn failure(context: Seq<char>, error: anyhow::Error) -> (StartState, Action) {
    (StartState::Ended, Action::Fail(seq![context] + errors::error_chain(error)))
}

/// What follows a registration that the server granted.
pub open spec fn after_registration(
    plan: StartPlan,
    addr: NetworkAddr,
    no_tun: bool,
) -> (StartState, Action) {
    if no_tun {
        (StartState::Ended, Action::Finish(addr))
    } else if !plan.mobile {
        (StartState::StartingTun(addr), Action::StartTun)
    } else if addr.wf() {
        (
            StartState::GeneratingTun(addr),
            Action::GenerateTun(device_config(addr, plan.input_routes@)),
        )
    } else {
        (
            StartState::Ended,
            Action::Fail(seq!["解析虚拟网络段失败"@, "invalid IP prefix length"@]),
        )
    }
}

/// What follows an event that the state expects.
pub open spec fn next(state: StartState, event: StartEvent) -> (StartState, Action) {
    match (state, event) {
        (StartState::Creating(plan), StartEvent::Done(Ok(_))) => (
            StartState::Registering(plan),
            Action::Register,
        ),
        (StartState::Creating(_), StartEvent::Done(Err(error))) => failure(
            "创建 VNT 2.0 网络实例失败"@,
            error,
        ),
        (StartState::Registering(plan), StartEvent::Registered { reply, no_tun }) => match reply {
            Ok(RegisterReply::Success(addr)) => after_registration(plan, addr, no_tun),
            Ok(RegisterReply::Failed { code, message }) => (
                StartState::Ended,
                Action::Fail(seq![errors::refusal_text(code, message@)]),
            ),
            Err(error) => failure("注册到 VNTS 2.0 服务端失败"@, error),
        },
        (StartState::GeneratingTun(addr), StartEvent::TunGenerated(fd)) => if fd == 0 {
            (StartState::Ended, Action::Fail(seq!["系统 VPN 服务未返回有效 tun fd"@]))
        } else {
            (StartState::StartingTunFd(addr), Action::StartTunFd(fd as i32))
        },
        (StartState::StartingTunFd(addr), StartEvent::Done(Ok(_))) => (
            StartState::Ended,
            Action::Finish(addr),
        ),
        (StartState::StartingTunFd(_), StartEvent::Done(Err(error))) => failure(
            "启动虚拟网卡失败"@,
            error,
        ),
        (StartState::StartingTun(addr), StartEvent::Done(Ok(_))) => (
            StartState::SettingIp(addr),
            Action::SetTunNetworkIp { ip: addr.ip, prefix_len: addr.prefix_len },
        ),
        (StartState::StartingTun(_), StartEvent::Done(Err(error))) => failure(
            "启动虚拟网卡失败"@,
            error,
        ),
        (StartState::SettingIp(addr), StartEvent::Done(Ok(_))) => (
            StartState::AddingRoutes(addr),
            Action::AddInputRoutes,
        ),
        (StartState::SettingIp(_), StartEvent::Done(Err(error))) => failure(
            "设置虚拟网卡 IP 失败"@,
            error,
        ),
        (StartState::AddingRoutes(addr), StartEvent::Done(Ok(_))) => (
            StartState::Ended,
            Action::Finish(addr),
        ),
        (StartState::AddingRoutes(_), StartEvent::Done(Err(error))) => failure(
            "添加子网路由失败"@,
            error,
        ),
        _ => arbitrary(),
    }
}

/// The routes of the system into some networks.
fn external_routes(nets: &Vec<ipv4::Ipv4Network>) -> (routes: Vec<(String, String)>)
    requires
        forall|i: int| 0 <= i < nets@.len() ==> (#[trigger] nets@[i]).wf(),
    ensures
        routes@.map_values(|route: (String, String)| (route.0@, route.1@)) == nets@.map_values(
            |net: ipv4::Ipv4Network| external_route(net),
        ),
{
    let mut routes: Vec<(String, String)> = Vec::new();
    let mut i: usize = 0;
    while i < nets.len()
        invariant
            i <= nets.len(),
            forall|j: int| 0 <= j < nets@.len() ==> (#[trigger] nets@[j]).wf(),
            routes@.len() == i,
            forall|j: int|
                0 <= j < i ==> ((#[trigger] routes@[j]).0@, routes@[j].1@) == external_route(nets@[j]),
        decreases nets.len() - i,
    {
        let net = nets[i];
        assert(nets@[i as int].wf());
        let network = match ipv4::network_address(net) {
            Ok(addr) => ipv4::to_text(addr),
            // A valid prefix is not refused.
            Err(_) => String::new(),
        };
        routes.push((network, ipv4::to_text(ipv4::prefix_to_netmask(net.prefix_len))));
        i += 1;
    }
    routes
}

/// The end of a start that failed, with the cause put into words.
fn fail(context: &str, error: anyhow::Error) -> (r: (StartState, StartAction))
    ensures
        r.0 == failure(context@, error).0,
        r.1@ == failure(context@, error).1,
{
    (StartState::Ended, StartAction::Fail(errors::error_in_context(error, context.to_string())))
}

/// What follows a registration that the server granted.
fn registered(plan: &StartPlan, addr: NetworkAddr, no_tun: bool) -> (r: (StartState, StartAction))
    requires
        plan.wf(),
    ensures
        r.0 == after_registration(*plan, addr, no_tun).0,
        r.1@ == after_registration(*plan, addr, no_tun).1,
{
    if no_tun {
        return (StartState::Ended, StartAction::Finish(addr));
    }
    if !plan.mobile {
        return (StartState::StartingTun(addr), StartAction::StartTun);
    }
    let net = ipv4::Ipv4Network { addr: addr.ip, prefix_len: addr.prefix_len };
    let network = match ipv4::network_address(net) {
        Ok(network) => network,
        Err(error) => {
            let cause = errors::error_from_text(ipv4::prefix_len_error_text(&error));
            let action = StartAction::Fail(
                errors::error_in_context(cause, "解析虚拟网络段失败".to_string()),
            );
            assert(action@->Fail_0 == seq!["解析虚拟网络段失败"@, "invalid IP prefix length"@]);
            return (StartState::Ended, action);
        },
    };
    let config = RustDeviceConfig {
        virtual_ip: ipv4::to_text(addr.ip),
        virtual_netmask: ipv4::to_text(ipv4::prefix_to_netmask(addr.prefix_len)),
        virtual_gateway: ipv4::to_text(addr.gateway),
        virtual_network: ipv4::to_text(network),
        external_route: external_routes(&plan.input_routes),
    };
    (StartState::GeneratingTun(addr), StartAction::GenerateTun(config))
}

/// The first state and the first action.
pub fn begin_network(plan: StartPlan) -> (r: (StartState, StartAction))
    requires
        plan.wf(),
    ensures
        r.0 == StartState::Creating(plan),
        r.1@ == Action::CreateNetwork,
        r.0.wf(),
{
    (StartState::Creating(plan), StartAction::CreateNetwork)
}

/// What to do after an event.
pub fn start_network(state: StartState, event: StartEvent) -> (r: (StartState, StartAction))
    requires
        state.wf(),
        state.expects(event),
    ensures
        r.0 == next(state, event).0,
        r.1@ == next(state, event).1,
        r.0.wf(),
{
    match (state, event) {
        (StartState::Creating(plan), StartEvent::Done(result)) => match result {
            Ok(_) => (StartState::Registering(plan), StartAction::Register),
            Err(error) => fail("创建 VNT 2.0 网络实例失败", error),
        },
        (StartState::Registering(plan), StartEvent::Registered { reply, no_tun }) => match reply {
            Ok(RegisterReply::Success(addr)) => registered(&plan, addr, no_tun),
            Ok(RegisterReply::Failed { code, message }) => (
                StartState::Ended,
                StartAction::Fail(errors::refusal_error(code, message.as_str())),
            ),
            Err(error) => fail("注册到 VNTS 2.0 服务端失败", error),
        },
        (StartState::GeneratingTun(addr), StartEvent::TunGenerated(fd)) => {
            if fd == 0 {
                (
                    StartState::Ended,
                    StartAction::Fail(
                        errors::error_from_text("系统 VPN 服务未返回有效 tun fd".to_string()),
                    ),
                )
            } else {
                (StartState::StartingTunFd(addr), StartAction::StartTunFd(fd as i32))
            }
        },
        (StartState::StartingTunFd(addr), StartEvent::Done(result)) => match result {
            Ok(_) => (StartState::Ended, StartAction::Finish(addr)),
            Err(error) => fail("启动虚拟网卡失败", error),
        },
        (StartState::StartingTun(addr), StartEvent::Done(result)) => match result {
            Ok(_) => (
                StartState::SettingIp(addr),
                StartAction::SetTunNetworkIp { ip: addr.ip, prefix_len: addr.prefix_len },
            ),
            Err(error) => fail("启动虚拟网卡失败", error),
        },
        (StartState::SettingIp(addr), StartEvent::Done(result)) => match result {
            Ok(_) => (StartState::AddingRoutes(addr), StartAction::AddInputRoutes),
            Err(error) => fail("设置虚拟网卡 IP 失败", error),
        },
        (StartState::AddingRoutes(addr), StartEvent::Done(result)) => match result {
            Ok(_) => (StartState::Ended, StartAction::Finish(addr)),
            Err(error) => fail("添加子网路由失败", error),
        },
        (state, _) => {
            // No other event comes of the action that is under way.
            assert(false);
            (state, StartAction::CreateNetwork)
        },
    }
}

/// How many actions can still follow.
pub open spec fn remaining(state: StartState) -> nat {
    match state {
        StartState::Creating(_) => 5,
        StartState::Registering(_) => 4,
        StartState::GeneratingTun(_) => 2,
        StartState::StartingTunFd(_) => 1,
        StartState::StartingTun(_) => 3,
        StartState::SettingIp(_) => 2,
        StartState::AddingRoutes(_) => 1,
        StartState::Ended => 0,
    }
}

/// A start comes to an end: with each event fewer actions can still follow.
pub proof fn law_start_ends(state: StartState, event: StartEvent)
    requires
        state.expects(event),
    ensures
        remaining(next(state, event).0) < remaining(state),
{
}

/// A start is at its end exactly when it has finished or failed.
pub proof fn law_start_end_is_final(state: StartState, event: StartEvent)
    requires
        state.expects(event),
    ensures
        next(state, event).0 == StartState::Ended <==> (next(state, event).1 is Finish || next(
            state,
            event,
        ).1 is Fail),
{
}

/// An action that fails ends the start with an error whose cause is that of the action.
pub proof fn law_failed_action_fails_start(state: StartState, error: anyhow::Error)
    requires
        state.expects(StartEvent::Done(Err(error))),
    ensures
        next(state, StartEvent::Done(Err(error))).1 matches Action::Fail(chain) && chain.len()
            == errors::error_chain(error).len() + 1 && chain.skip(1) == errors::error_chain(error),
{
    let chain = next(state, StartEvent::Done(Err(error))).1->Fail_0;
    assert(chain.skip(1) == errors::error_chain(error));
}

/// Where the core makes the network device, a start without failures goes through these actions
/// in turn, and finishes with the addresses that the server gave.
pub proof fn law_desktop_start(plan: StartPlan, addr: NetworkAddr)
    requires
        !plan.mobile,
    ensures
        ({
            let ok = StartEvent::Done(Ok(()));
            let granted = StartEvent::Registered {
                reply: Ok(RegisterReply::Success(addr)),
                no_tun: false,
            };
            let s1 = next(StartState::Creating(plan), ok);
            let s2 = next(s1.0, granted);
            let s3 = next(s2.0, ok);
            let s4 = next(s3.0, ok);
            let s5 = next(s4.0, ok);
            &&& s1.1 == Action::Register
            &&& s2.1 == Action::StartTun
            &&& s3.1 == (Action::SetTunNetworkIp { ip: addr.ip, prefix_len: addr.prefix_len })
            &&& s4.1 == Action::AddInputRoutes
            &&& s5 == (StartState::Ended, Action::Finish(addr))
        }),
{
}

/// Where the system makes the network device, a start without failures asks for it, hands it to
/// the core, and finishes with the addresses that the server gave.
pub proof fn law_mobile_start(plan: StartPlan, addr: NetworkAddr, fd: u32)
    requires
        plan.mobile,
        addr.wf(),
        fd != 0,
    ensures
        ({
            let ok = StartEvent::Done(Ok(()));
            let granted = StartEvent::Registered {
                reply: Ok(RegisterReply::Success(addr)),
                no_tun: false,
            };
            let s1 = next(StartState::Creating(plan), ok);
            let s2 = next(s1.0, granted);
            let s3 = next(s2.0, StartEvent::TunGenerated(fd));
            let s4 = next(s3.0, ok);
            &&& s1.1 == Action::Register
            &&& s2.1 == Action::GenerateTun(device_config(addr, plan.input_routes@))
            &&& s3.1 == Action::StartTunFd(fd as i32)
            &&& s4 == (StartState::Ended, Action::Finish(addr))
        }),
{
}

/// Without a network device, a start ends with the registration.
pub proof fn law_start_without_device(plan: StartPlan, addr: NetworkAddr)
    ensures
        next(
            StartState::Registering(plan),
            StartEvent::Registered { reply: Ok(RegisterReply::Success(addr)), no_tun: true },
        ) == (StartState::Ended, Action::Finish(addr)),
{
}

/// A registration that the server refuses ends the start with an error that is reported with the
/// code of the server, and under the kind that belongs to it if it is a known one.
pub proof fn law_refused_registration(
    plan: StartPlan,
    code: u32,
    message: String,
    no_tun: bool,
    lowered: Seq<char>,
)
    ensures
        ({
            let event = StartEvent::Registered {
                reply: Ok(RegisterReply::Failed { code, message }),
                no_tun,
            };
            &&& next(StartState::Registering(plan), event).0 == StartState::Ended
            &&& next(StartState::Registering(plan), event).1 matches Action::Fail(chain) && {
                let info = errors::error_info(errors::joined(chain), lowered);
                &&& info.server_code == Some(code)
                &&& errors::server_code_type(code) matches Some(kind) ==> info.code == kind
            }
        }),
{
    errors::law_refusal_is_reported(code, message@, lowered);
}

/// What is reported while a client joins its network.
#[derive(Debug)]
pub enum StartReport {
    Connect(RustConnectInfo),
    Error(errors::RustErrorInfo),
    Handshake(RustHandshakeInfo),
    Register(RustRegisterInfo),
    Success,
}

/// The value of a [`StartReport`].
pub enum Report {
    Connect { count: usize, address: Seq<char> },
    Error(errors::ErrorInfo),
    Handshake { finger: Option<Seq<char>>, version: Seq<char> },
    Register(Registration),
    Success,
}

impl View for StartReport {
    type V = Report;

    open spec fn view(&self) -> Report {
        match *self {
            StartReport::Connect(info) => Report::Connect {
                count: info.count,
                address: info.address@,
            },
            StartReport::Error(info) => Report::Error(info@),
            StartReport::Handshake(info) => Report::Handshake {
                finger: match info.finger {
                    Some(finger) => Some(finger@),
                    None => None,
                },
                version: info.version@,
            },
            StartReport::Register(info) => Report::Register(info@),
            StartReport::Success => Report::Success,
        }
    }
}

/// The values of some reports.
pub open spec fn reports_view(reports: Seq<StartReport>) -> Seq<Report> {
    reports.map_values(|report: StartReport| report@)
}

/// The reports before a start: the servers that are connected to, numbered from one.
pub open spec fn connect_sequence(targets: Seq<Seq<char>>) -> Seq<Report> {
    Seq::new(
        targets.len(),
        |i: int| Report::Connect { count: (i + 1) as usize, address: targets[i] },
    )
}

/// The reports after a start that finished: the version, the addresses, the success.
pub open spec fn success_sequence(addr: NetworkAddr) -> Seq<Report> {
    seq![
        Report::Handshake { finger: None, version: "2.0.0"@ },
        Report::Register(registration(addr)),
        Report::Success,
    ]
}

/// The reports after a start that failed: the error.
pub open spec fn failure_sequence(chain: Seq<Seq<char>>) -> Seq<Report> {
    let message = errors::joined(chain);
    seq![Report::Error(errors::error_info(message, text::lowercase(message)))]
}

/// The report on an error whose text is made of ASCII characters and ideographs.
pub open spec fn plain_failure(chain: Seq<Seq<char>>) -> errors::ErrorInfo {
    let message = errors::joined(chain);
    errors::error_info(message, text::ascii_lowered(message))
}

/// If the outcome is an error whose text is made of ASCII characters and ideographs, its report is
/// the only one.
pub open spec fn tells_plainly(
    outcome: Result<NetworkAddr, anyhow::Error>,
    reports: Seq<Report>,
) -> bool {
    match outcome {
        Ok(_) => true,
        Err(error) => text::is_plain(errors::joined(errors::error_chain(error))) ==> reports == seq![
            Report::Error(plain_failure(errors::error_chain(error))),
        ],
    }
}

/// The reports after a start.
pub open spec fn outcome_sequence(outcome: Result<NetworkAddr, anyhow::Error>) -> Seq<Report> {
    match outcome {
        Ok(addr) => success_sequence(addr),
        Err(error) => failure_sequence(errors::error_chain(error)),
    }
}

/// All that is reported of a start: the servers, then the outcome.
pub open spec fn start_sequence(
    targets: Seq<Seq<char>>,
    outcome: Result<NetworkAddr, anyhow::Error>,
) -> Seq<Report> {
    connect_sequence(targets) + outcome_sequence(outcome)
}

/// What is reported before a start.
pub fn connect_reports(targets: &Vec<String>) -> (reports: Vec<StartReport>)
    ensures
        reports_view(reports@) == connect_sequence(config::texts(targets@)),
{
    let mut reports: Vec<StartReport> = Vec::new();
    let mut i: usize = 0;
    while i < targets.len()
        invariant
            i <= targets.len(),
            reports@.len() == i,
            forall|j: int|
                0 <= j < i ==> (#[trigger] reports@[j])@ == (Report::Connect {
                    count: (j + 1) as usize,
                    address: targets@[j]@,
                }),
        decreases targets.len() - i,
    {
        reports.push(
            StartReport::Connect(RustConnectInfo { count: i + 1, address: targets[i].clone() }),
        );
        i += 1;
    }
    assert(reports_view(reports@) == connect_sequence(config::texts(targets@)));
    reports
}

/// The report on what was agreed with the server: the version.
pub fn handshake_report() -> (report: StartReport)
    ensures
        report@ == (Report::Handshake { finger: None, version: "2.0.0"@ }),
{
    StartReport::Handshake(RustHandshakeInfo { finger: None, version: "2.0.0".to_string() })
}

/// What is reported after a start that finished.
pub fn success_reports(addr: &NetworkAddr) -> (reports: Vec<StartReport>)
    requires
        addr.wf(),
    ensures
        reports_view(reports@) == success_sequence(*addr),
{
    let mut reports: Vec<StartReport> = Vec::new();
    reports.push(handshake_report());
    reports.push(StartReport::Register(RustRegisterInfo::from_network_addr(addr)));
    reports.push(StartReport::Success);
    assert(reports_view(reports@) == success_sequence(*addr));
    reports
}

/// What is reported after a start that failed.
pub fn failure_reports(error: &anyhow::Error) -> (reports: Vec<StartReport>)
    ensures
        reports_view(reports@) == failure_sequence(errors::error_chain(*error)),
        tells_plainly(Err(*error), reports_view(reports@)),
{
    let info = errors::error_info_from_error(error);
    let mut reports: Vec<StartReport> = Vec::new();
    reports.push(StartReport::Error(info));
    assert(reports_view(reports@) == seq![Report::Error(info@)]);
    reports
}

/// What is reported after a start.
pub fn outcome_reports(outcome: &Result<NetworkAddr, anyhow::Error>) -> (reports: Vec<StartReport>)
    requires
        outcome matches Ok(addr) ==> addr.wf(),
    ensures
        reports_view(reports@) == outcome_sequence(*outcome),
        tells_plainly(*outcome, reports_view(reports@)),
{
    match outcome {
        Ok(addr) => success_reports(addr),
        Err(error) => failure_reports(error),
    }
}

/// The addresses that the server has given so far.
pub open spec fn granted(state: StartState) -> Option<NetworkAddr> {
    match state {
        StartState::GeneratingTun(addr) => Some(addr),
        StartState::StartingTunFd(addr) => Some(addr),
        StartState::StartingTun(addr) => Some(addr),
        StartState::SettingIp(addr) => Some(addr),
        StartState::AddingRoutes(addr) => Some(addr),
        _ => None,
    }
}

/// A start keeps the addresses that the server gave, and finishes with them and no others.
pub proof fn law_start_keeps_granted(state: StartState, event: StartEvent)
    requires
        state.expects(event),
    ensures
        ({
            let given = match event {
                StartEvent::Registered { reply: Ok(RegisterReply::Success(addr)), .. } => Some(addr),
                _ => granted(state),
            };
            let (after, action) = next(state, event);
            &&& action matches Action::Finish(addr) ==> given == Some(addr)
            &&& granted(after) is Some ==> granted(after) == given
        }),
{
}

/// The text of a failure to start the network device says so, in lower case too.
proof fn lemma_device_words(cause: Seq<Seq<char>>)
    ensures
        text::holds(
            text::ascii_lowered(errors::joined(seq!["启动虚拟网卡失败"@] + cause)),
            "启动虚拟网卡失败"@,
        ),
{
    let words = "启动虚拟网卡失败"@;
    reveal_strlit("启动虚拟网卡失败");
    let message = errors::joined(seq![words] + cause);
    let lowered = text::ascii_lowered(message);
    let n = words.len() as int;
    assert(message.subrange(0, n) == words);
    assert(lowered.subrange(0, n) == words);
    assert(text::occurs_at(lowered, words, 0));
}

/// A network device that cannot be started is reported, by [`plain_failure`], as one that could not
/// be made, or under a kind that is looked for earlier, whatever the cause.
pub proof fn law_device_failure_is_reported(state: StartState, error: anyhow::Error)
    requires
        state is StartingTun || state is StartingTunFd,
    ensures
        next(state, StartEvent::Done(Err(error))).1 matches Action::Fail(chain) && errors::rank(
            plain_failure(chain).code,
        ) <= errors::rank(errors::RustErrorType::FailedToCreateDevice),
{
    let words = "启动虚拟网卡失败"@;
    let chain = seq![words] + errors::error_chain(error);
    let lowered = text::ascii_lowered(errors::joined(chain));
    lemma_device_words(errors::error_chain(error));
    errors::lemma_device_rank(lowered);
    errors::lemma_rank_of_report(errors::joined(chain), lowered);
}

/// The values of a registration, of a device configuration and of an action tell all of their parts.
pub proof fn law_views(info: RustRegisterInfo, device: RustDeviceConfig, action: StartAction)
    ensures
        info@.virtual_ip == info.virtual_ip@,
        info@.virtual_netmask == info.virtual_netmask@,
        info@.virtual_gateway == info.virtual_gateway@,
        device@.virtual_ip == device.virtual_ip@,
        device@.virtual_netmask == device.virtual_netmask@,
        device@.virtual_gateway == device.virtual_gateway@,
        device@.virtual_network == device.virtual_network@,
        device@.external_route.len() == device.external_route@.len(),
        forall|i: int|
            0 <= i < device.external_route@.len() ==> (#[trigger] device@.external_route[i]).0
                == device.external_route@[i].0@ && device@.external_route[i].1
                == device.external_route@[i].1@,
        action is CreateNetwork <==> action@ is CreateNetwork,
        action is Register <==> action@ is Register,
        action is StartTun <==> action@ is StartTun,
        action is AddInputRoutes <==> action@ is AddInputRoutes,
        action matches StartAction::GenerateTun(config) ==> action@ == Action::GenerateTun(config@),
        action matches StartAction::StartTunFd(fd) ==> action@ == Action::StartTunFd(fd),
        action matches StartAction::SetTunNetworkIp { ip, prefix_len } ==> action@ == (
        Action::SetTunNetworkIp { ip, prefix_len }),
        action matches StartAction::Finish(addr) ==> action@ == Action::Finish(addr),
        action matches StartAction::Fail(error) ==> action@ == Action::Fail(
            errors::error_chain(error),
        ),
{
}

/// The values of reports are those of each, with all that they hold.
pub proof fn law_reports_view(reports: Seq<StartReport>, i: int)
    requires
        0 <= i < reports.len(),
    ensures
        reports_view(reports).len() == reports.len(),
        reports_view(reports)[i] == reports[i]@,
        reports[i] matches StartReport::Connect(info) ==> reports[i]@ == (Report::Connect {
            count: info.count,
            address: info.address@,
        }),
        reports[i] matches StartReport::Error(info) ==> reports[i]@ == Report::Error(info@),
        reports[i] matches StartReport::Register(info) ==> reports[i]@ == Report::Register(info@),
        reports[i] matches StartReport::Handshake(info) ==> {
            &&& reports[i]@ is Handshake
            &&& reports[i]@->version == info.version@
            &&& reports[i]@->finger is Some <==> info.finger is Some
            &&& info.finger matches Some(finger) ==> reports[i]@->finger == Some(finger@)
        },
        reports[i] is Success <==> reports[i]@ is Success,
{
}

/// A registration is shown with the address that the server gave, the netmask of its prefix and the
/// gateway.
pub proof fn law_registration(addr: NetworkAddr)
    ensures
        ipv4::address_of(registration(addr).virtual_ip) == Some(addr.ip),
        ipv4::address_of(registration(addr).virtual_netmask) == Some(ipv4::netmask(addr.prefix_len)),
        ipv4::address_of(registration(addr).virtual_gateway) == Some(addr.gateway),
{
    ipv4::law_address_round_trip(addr.ip);
    ipv4::law_address_round_trip(ipv4::netmask(addr.prefix_len));
    ipv4::law_address_round_trip(addr.gateway);
}

/// The system is asked for a device with the address that the server gave, the netmask of its prefix,
/// the gateway and the network, and with exactly one route for each network that is routed into this
/// client, in their order: its address under its netmask, and the netmask.
pub proof fn law_device_is_configured(plan: StartPlan, addr: NetworkAddr)
    requires
        plan.mobile,
        addr.prefix_len <= 32,
        forall|i: int|
            0 <= i < plan.input_routes@.len() ==> (#[trigger] plan.input_routes@[i]).prefix_len <= 32,
    ensures
        ({
            let granted = StartEvent::Registered {
                reply: Ok(RegisterReply::Success(addr)),
                no_tun: false,
            };
            next(StartState::Registering(plan), granted).1 matches Action::GenerateTun(config) && {
                let nets = plan.input_routes@;
                &&& ipv4::address_of(config.virtual_ip) == Some(addr.ip)
                &&& ipv4::address_of(config.virtual_netmask) == Some(ipv4::netmask(addr.prefix_len))
                &&& ipv4::address_of(config.virtual_gateway) == Some(addr.gateway)
                &&& ipv4::address_of(config.virtual_network) == Some(
                    addr.ip & ipv4::netmask(addr.prefix_len),
                )
                &&& config.external_route.len() == nets.len()
                &&& forall|i: int|
                    0 <= i < nets.len() ==> {
                        let route = #[trigger] config.external_route[i];
                        let mask = ipv4::netmask(nets[i].prefix_len);
                        &&& ipv4::address_of(route.0) == Some(nets[i].addr & mask)
                        &&& ipv4::address_of(route.1) == Some(mask)
                    }
            }
        }),
{
    let granted = StartEvent::Registered { reply: Ok(RegisterReply::Success(addr)), no_tun: false };
    let config = next(StartState::Registering(plan), granted).1->GenerateTun_0;
    let nets = plan.input_routes@;
    ipv4::law_address_round_trip(addr.ip);
    ipv4::law_address_round_trip(ipv4::netmask(addr.prefix_len));
    ipv4::law_address_round_trip(addr.gateway);
    ipv4::law_network_part_is_masked(addr.ip, addr.prefix_len);
    ipv4::law_address_round_trip(ipv4::network_part(addr.ip, addr.prefix_len));
    assert forall|i: int| 0 <= i < nets.len() implies {
        let route = #[trigger] config.external_route[i];
        let mask = ipv4::netmask(nets[i].prefix_len);
        &&& ipv4::address_of(route.0) == Some(nets[i].addr & mask)
        &&& ipv4::address_of(route.1) == Some(mask)
    } by {
        let net = nets[i];
        assert(config.external_route[i] == external_route(net));
        ipv4::law_network_part_is_masked(net.addr, net.prefix_len);
        ipv4::law_address_round_trip(ipv4::network_part(net.addr, net.prefix_len));
        ipv4::law_address_round_trip(ipv4::netmask(net.prefix_len));
    }
}

/// The routes of a device for two groups of networks are those for the one, then those for the other.
pub proof fn law_external_routes_append(
    addr: NetworkAddr,
    first: Seq<ipv4::Ipv4Network>,
    second: Seq<ipv4::Ipv4Network>,
)
    ensures
        device_config(addr, first + second).external_route == device_config(
            addr,
            first,
        ).external_route + device_config(addr, second).external_route,
{
    assert(device_config(addr, first + second).external_route == device_config(
        addr,
        first,
    ).external_route + device_config(addr, second).external_route);
}

/// What failed is said before the cause: the network instance, the registration, the network device,
/// its address or the routes.
pub proof fn law_failures_are_named(plan: StartPlan, addr: NetworkAddr, error: anyhow::Error, no_tun: bool)
    ensures
        ({
            let failed = StartEvent::Done(Err(error));
            let chain = errors::error_chain(error);
            let unregistered = StartEvent::Registered { reply: Err(error), no_tun };
            &&& next(StartState::Creating(plan), failed) == (
                StartState::Ended,
                Action::Fail(seq!["创建 VNT 2.0 网络实例失败"@] + chain),
            )
            &&& next(StartState::Registering(plan), unregistered) == (
                StartState::Ended,
                Action::Fail(seq!["注册到 VNTS 2.0 服务端失败"@] + chain),
            )
            &&& next(StartState::StartingTun(addr), failed) == (
                StartState::Ended,
                Action::Fail(seq!["启动虚拟网卡失败"@] + chain),
            )
            &&& next(StartState::StartingTunFd(addr), failed) == (
                StartState::Ended,
                Action::Fail(seq!["启动虚拟网卡失败"@] + chain),
            )
            &&& next(StartState::SettingIp(addr), failed) == (
                StartState::Ended,
                Action::Fail(seq!["设置虚拟网卡 IP 失败"@] + chain),
            )
            &&& next(StartState::AddingRoutes(addr), failed) == (
                StartState::Ended,
                Action::Fail(seq!["添加子网路由失败"@] + chain),
            )
        }),
{
}

/// A registration that the server refuses ends the start with the text of the refusal, whether or not
/// there is to be a network device.
pub proof fn law_refusal_ends_start(plan: StartPlan, code: u32, message: String, no_tun: bool)
    ensures
        next(
            StartState::Registering(plan),
            StartEvent::Registered { reply: Ok(RegisterReply::Failed { code, message }), no_tun },
        ) == (StartState::Ended, Action::Fail(seq![errors::refusal_text(code, message@)])),
{
}

/// Where the system makes the network device, a prefix of more than 32 bits ends the start, and so
/// does a device that the system did not make.
pub proof fn law_mobile_start_refuses(plan: StartPlan, addr: NetworkAddr, bad: NetworkAddr)
    requires
        plan.mobile,
        bad.prefix_len > 32,
    ensures
        next(
            StartState::Registering(plan),
            StartEvent::Registered { reply: Ok(RegisterReply::Success(bad)), no_tun: false },
        ) == (
            StartState::Ended,
            Action::Fail(seq!["解析虚拟网络段失败"@, "invalid IP prefix length"@]),
        ),
        next(StartState::GeneratingTun(addr), StartEvent::TunGenerated(0)) == (
            StartState::Ended,
            Action::Fail(seq!["系统 VPN 服务未返回有效 tun fd"@]),
        ),
{
}

/// Each action has one kind of event, and an end has none.
pub proof fn law_expected_events(plan: StartPlan, addr: NetworkAddr, event: StartEvent)
    ensures
        StartState::Creating(plan).expects(event) <==> event is Done,
        StartState::Registering(plan).expects(event) <==> event is Registered,
        StartState::GeneratingTun(addr).expects(event) <==> event is TunGenerated,
        StartState::StartingTunFd(addr).expects(event) <==> event is Done,
        StartState::StartingTun(addr).expects(event) <==> event is Done,
        StartState::SettingIp(addr).expects(event) <==> event is Done,
        StartState::AddingRoutes(addr).expects(event) <==> event is Done,
        !StartState::Ended.expects(event),
        plan.wf() <==> forall|i: int|
            0 <= i < plan.input_routes@.len() ==> (#[trigger] plan.input_routes@[i]).prefix_len <= 32,
{
    assert(forall|net: ipv4::Ipv4Network| #[trigger] net.wf() <==> net.prefix_len <= 32);
    if plan.wf() {
        assert forall|i: int| 0 <= i < plan.input_routes@.len() implies (
        #[trigger] plan.input_routes@[i]).prefix_len <= 32 by {
            assert(plan.input_routes@[i].wf());
        }
    }
}

/// Each server that is connected to is reported, in order, with its own address and its place.
pub proof fn law_servers_are_reported(targets: Seq<Seq<char>>, i: int)
    requires
        0 <= i < targets.len() <= usize::MAX,
    ensures
        connect_sequence(targets).len() == targets.len(),
        connect_sequence(targets)[i] matches Report::Connect { count, address } && count == i + 1
            && address == targets[i],
{
}

/// A start that finished is reported with the version, then the registration, then the success; one
/// that failed with one error, which holds the texts of all its causes.
pub proof fn law_outcome_reports(addr: NetworkAddr, error: anyhow::Error)
    ensures
        outcome_sequence(Ok(addr)).len() == 3,
        outcome_sequence(Ok(addr))[0] == (Report::Handshake { finger: None, version: "2.0.0"@ }),
        outcome_sequence(Ok(addr))[1] == Report::Register(registration(addr)),
        outcome_sequence(Ok(addr))[2] == Report::Success,
        outcome_sequence(Err(error)).len() == 1,
        outcome_sequence(Err(error))[0] matches Report::Error(info) && info.msg == Some(
            errors::joined(errors::error_chain(error)),
        ) && info == errors::error_info(
            errors::joined(errors::error_chain(error)),
            text::lowercase(errors::joined(errors::error_chain(error))),
        ),
        plain_failure(errors::error_chain(error)) == errors::error_info(
            errors::joined(errors::error_chain(error)),
            text::ascii_lowered(errors::joined(errors::error_chain(error))),
        ),
{
}

/// Of a start the servers are reported before the outcome, and nothing else.
pub proof fn law_start_reports(targets: Seq<Seq<char>>, outcome: Result<NetworkAddr, anyhow::Error>)
    ensures
        start_sequence(targets, outcome).take(targets.len() as int) == connect_sequence(targets),
        start_sequence(targets, outcome).skip(targets.len() as int) == outcome_sequence(outcome),
{
    assert(start_sequence(targets, outcome).take(targets.len() as int) == connect_sequence(targets));
    assert(start_sequence(targets, outcome).skip(targets.len() as int) == outcome_sequence(outcome));
}

/// An error whose text is made of ASCII characters and ideographs is told in one report; for others
/// nothing is asked.
pub proof fn law_plain_errors_are_told(error: anyhow::Error, addr: NetworkAddr, reports: Seq<Report>)
    ensures
        tells_plainly(Ok(addr), reports),
        text::is_plain(errors::joined(errors::error_chain(error))) ==> (tells_plainly(
            Err(error),
            reports,
        ) <==> reports == seq![Report::Error(plain_failure(errors::error_chain(error)))]),
{
}

} // verus!
