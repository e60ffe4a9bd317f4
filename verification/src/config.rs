//! The configuration of a client and how it is turned into that of the core.

use vstd::prelude::*;

use crate::errors;
use crate::ipv4;
use crate::text;

verus! {

/// What the user configured.
#[derive(Clone, Debug)]
pub struct VntConfig {
    pub server_addr: Vec<String>,
    pub cert_mode: String,
    pub network_code: String,
    pub device_id: String,
    pub device_name: String,
    pub tun_name: Option<String>,
    pub ip: Option<String>,
    pub password: Option<String>,
    pub no_punch: bool,
    pub compress: bool,
    pub rtx: bool,
    pub fec: bool,
    pub input: Vec<String>,
    pub output: Vec<String>,
    pub no_nat: bool,
    pub no_tun: bool,
    pub mtu: Option<u32>,
    pub port_mapping: Vec<String>,
    pub allow_port_mapping: bool,
    pub udp_stun: Vec<String>,
    pub tcp_stun: Vec<String>,
    pub tunnel_port: Option<u16>,
}

/// The values of some texts.
pub open spec fn texts(v: Seq<String>) -> Seq<Seq<char>> {
    v.map_values(|s: String| s@)
}

/// The value of a text that may be missing.
pub open spec fn text_option(s: Option<String>) -> Option<Seq<char>> {
    match s {
        Some(s) => Some(s@),
        None => None,
    }
}

/// A text is blank if nothing is left of it when it is trimmed.
pub open spec fn is_blank(s: Seq<char>) -> bool {
    text::trimmed(s).len() == 0
}

/// A STUN server as it is used: trimmed, with the default port if it names none.
pub open spec fn stun_server(entry: Seq<char>, default_port: u16) -> Seq<char> {
    let host = text::trimmed(entry);
    if host.len() == 0 || host.contains(':') {
        host
    } else {
        host + seq![':'] + text::decimal(default_port as nat)
    }
}

/// The STUN servers as they are used, in their order, without the blank entries.
pub open spec fn stun_servers(entries: Seq<Seq<char>>, default_port: u16) -> Seq<Seq<char>>
    decreases entries.len(),
{
    if entries.len() == 0 {
        Seq::empty()
    } else {
        let head = stun_servers(entries.drop_last(), default_port);
        if is_blank(entries.last()) {
            head
        } else {
            head.push(stun_server(entries.last(), default_port))
        }
    }
}

/// Whether a text holds a colon.
fn names_port(s: &str) -> (b: bool)
    ensures
        b == s@.contains(':'),
{
    let chars = text::chars_of(s);
    let mut i: usize = 0;
    while i < chars.len()
        invariant
            i <= chars.len(),
            chars@ == s@,
            forall|j: int| 0 <= j < i ==> chars@[j] != ':',
        decreases chars.len() - i,
    {
        if chars[i] == ':' {
            assert(s@[i as int] == ':');
            return true;
        }
        i += 1;
    }
    false
}

/// The STUN servers as they are used.
pub fn normalize_stun_servers(entries: Vec<String>, default_port: u16) -> (servers: Vec<String>)
    ensures
        texts(servers@) == stun_servers(texts(entries@), default_port),
{
    let mut servers: Vec<String> = Vec::new();
    let mut i: usize = 0;
    assert(texts(servers@) == stun_servers(texts(entries@).take(0), default_port));
    while i < entries.len()
        invariant
            i <= entries.len(),
            texts(servers@) == stun_servers(texts(entries@).take(i as int), default_port),
        decreases entries.len() - i,
    {
        let ghost before = servers@;
        let trimmed = entries[i].as_str().trim();
        proof {
            let next = texts(entries@).take(i + 1);
            assert(next.drop_last() == texts(entries@).take(i as int));
            assert(next.last() == entries@[i as int]@);
        }
        if !trimmed.is_empty() {
            let mut server = trimmed.to_string();
            if !names_port(trimmed) {
                server.push(':');
                server.append(text::decimal_text(default_port as u64).as_str());
                assert(server@ == stun_server(entries@[i as int]@, default_port));
            }
            servers.push(server);
            assert(texts(servers@) == texts(before).push(server@));
        }
        i += 1;
    }
    assert(texts(entries@).take(entries@.len() as int) == texts(entries@));
    servers
}

/// `i` is the first of the answers that is an error.
pub open spec fn is_first_error<T>(answers: Seq<Result<T, String>>, i: int) -> bool {
    &&& 0 <= i < answers.len()
    &&& answers[i] is Err
    &&& forall|j: int| 0 <= j < i ==> (#[trigger] answers[j]) is Ok
}

/// None of the answers is an error.
pub open spec fn all_ok<T>(answers: Seq<Result<T, String>>) -> bool {
    forall|i: int| 0 <= i < answers.len() ==> (#[trigger] answers[i]) is Ok
}

/// The values of answers without an error.
pub open spec fn ok_values<T>(answers: Seq<Result<T, String>>) -> Seq<T> {
    answers.map_values(|answer: Result<T, String>| answer->Ok_0)
}

/// The first of the answers that is an error.
pub open spec fn first_error<T>(answers: Seq<Result<T, String>>) -> Option<int> {
    if exists|i: int| is_first_error(answers, i) {
        Some(choose|i: int| is_first_error(answers, i))
    } else {
        None
    }
}

/// The values of the answers, or the first error and its position.
fn collect_ok<T>(answers: Vec<Result<T, String>>) -> (r: Result<Vec<T>, (usize, String)>)
    ensures
        r matches Ok(values) ==> first_error(answers@) is None && all_ok(answers@) && values@
            == ok_values(answers@),
        r matches Err((i, reason)) ==> first_error(answers@) == Some(i as int) && is_first_error(
            answers@,
            i as int,
        ) && answers@[i as int] == Err::<T, String>(reason),
{
    let ghost whole = answers@;
    let total: usize = answers.len();
    let mut values: Vec<T> = Vec::new();
    let mut n: usize = 0;
    for answer in it: answers
        invariant
            it.seq() == whole,
            whole == answers@,
            n == it.index(),
            forall|j: int| 0 <= j < n ==> (#[trigger] whole[j]) is Ok,
            values@ == ok_values(whole.take(n as int)),
            n <= whole.len() == total,
    {
        assert(answer == whole[n as int]);
        match answer {
            Ok(value) => {
                values.push(value);
                assert(values@ == ok_values(whole.take(n + 1)));
            },
            Err(reason) => {
                proof {
                    lemma_first_error(whole, n as int);
                }
                return Err((n, reason));
            },
        }
        n += 1;
    }
    assert(whole.take(whole.len() as int) == whole);
    Ok(values)
}

/// The first error is the only one that satisfies [`is_first_error`].
proof fn lemma_first_error<T>(answers: Seq<Result<T, String>>, i: int)
    requires
        is_first_error(answers, i),
    ensures
        first_error(answers) == Some(i),
{
    let k = choose|k: int| is_first_error(answers, k);
    assert(is_first_error(answers, k));
    if k < i {
        assert(answers[k] is Ok);
    } else if i < k {
        assert(answers[i] is Ok);
    }
}

/// The texts of a configuration that the core parses.
#[derive(Debug)]
pub struct ConfigQuestions {
    pub server_addr: Vec<String>,
    pub cert_mode: String,
    pub input: Vec<String>,
    pub port_mapping: Vec<String>,
}

/// A server address that the core parsed, and its text.
#[derive(Debug)]
pub struct ServerAddress<A> {
    pub address: A,
    pub text: String,
}

/// What the core makes of the texts of a configuration: for each its value, or why it has none.
#[derive(Debug)]
pub struct ConfigAnswers<A, C, I, P> {
    pub server_addr: Vec<Result<ServerAddress<A>, String>>,
    pub cert_mode: Result<C, String>,
    pub input: Vec<Result<I, String>>,
    pub port_mapping: Vec<Result<P, String>>,
}

impl<A, C, I, P> ConfigAnswers<A, C, I, P> {
    /// There is an answer to each question.
    pub open spec fn answer(self, config: VntConfig) -> bool {
        &&& self.server_addr@.len() == address_parts(texts(config.server_addr@)).len()
        &&& self.input@.len() == config.input@.len()
        &&& self.port_mapping@.len() == config.port_mapping@.len()
    }
}

/// The server addresses that are configured: trimmed, without the blank ones.
pub open spec fn address_parts(raw: Seq<Seq<char>>) -> Seq<Seq<char>>
    decreases raw.len(),
{
    if raw.len() == 0 {
        Seq::empty()
    } else {
        let head = address_parts(raw.drop_last());
        if is_blank(raw.last()) {
            head
        } else {
            head.push(text::trimmed(raw.last()))
        }
    }
}

/// The server addresses that are configured.
fn server_address_parts(raw: &Vec<String>) -> (parts: Vec<String>)
    ensures
        texts(parts@) == address_parts(texts(raw@)),
{
    let mut parts: Vec<String> = Vec::new();
    let mut i: usize = 0;
    assert(texts(parts@) == address_parts(texts(raw@).take(0)));
    while i < raw.len()
        invariant
            i <= raw.len(),
            texts(parts@) == address_parts(texts(raw@).take(i as int)),
        decreases raw.len() - i,
    {
        let ghost before = parts@;
        let part = raw[i].as_str().trim();
        proof {
            let next = texts(raw@).take(i + 1);
            assert(next.drop_last() == texts(raw@).take(i as int));
            assert(next.last() == raw@[i as int]@);
        }
        if !part.is_empty() {
            let owned = part.to_string();
            parts.push(owned);
            assert(texts(parts@) == texts(before).push(owned@));
        }
        i += 1;
    }
    assert(texts(raw@).take(raw@.len() as int) == texts(raw@));
    parts
}

/// The texts of a configuration that the core parses.
pub fn config_questions(config: &VntConfig) -> (questions: ConfigQuestions)
    ensures
        texts(questions.server_addr@) == address_parts(texts(config.server_addr@)),
        questions.cert_mode@ == text::trimmed(config.cert_mode@),
        texts(questions.input@) == texts(config.input@),
        texts(questions.port_mapping@) == texts(config.port_mapping@),
{
    let input = config.input.clone();
    let port_mapping = config.port_mapping.clone();
    assert(texts(input@) == texts(config.input@));
    assert(texts(port_mapping@) == texts(config.port_mapping@));
    ConfigQuestions {
        server_addr: server_address_parts(&config.server_addr),
        cert_mode: config.cert_mode.as_str().trim().to_string(),
        input,
        port_mapping,
    }
}

/// What is wrong with a configuration.
#[derive(Debug)]
pub enum ConfigError {
    NoServerAddress,
    ServerAddress { part: String, reason: String },
    CertMode { reason: String },
    Input { reason: String },
    Output { reason: String },
    PortMapping { reason: String },
    VirtualIp,
    DeviceId { error: anyhow::Error },
}

/// The value of a [`ConfigError`].
pub enum ConfigFault {
    NoServerAddress,
    ServerAddress { part: Seq<char>, reason: Seq<char> },
    CertMode { reason: Seq<char> },
    Input { reason: Seq<char> },
    Output { reason: Seq<char> },
    PortMapping { reason: Seq<char> },
    VirtualIp,
    DeviceId { chain: Seq<Seq<char>> },
}

impl View for ConfigError {
    type V = ConfigFault;

    open spec fn view(&self) -> ConfigFault {
        match *self {
            ConfigError::NoServerAddress => ConfigFault::NoServerAddress,
            ConfigError::ServerAddress { part, reason } => ConfigFault::ServerAddress {
                part: part@,
                reason: reason@,
            },
            ConfigError::CertMode { reason } => ConfigFault::CertMode { reason: reason@ },
            ConfigError::Input { reason } => ConfigFault::Input { reason: reason@ },
            ConfigError::Output { reason } => ConfigFault::Output { reason: reason@ },
            ConfigError::PortMapping { reason } => ConfigFault::PortMapping { reason: reason@ },
            ConfigError::VirtualIp => ConfigFault::VirtualIp,
            ConfigError::DeviceId { error } => ConfigFault::DeviceId {
                chain: errors::error_chain(error),
            },
        }
    }
}

/// The texts that a fault is reported with, the outermost first.
pub open spec fn fault_chain(fault: ConfigFault) -> Seq<Seq<char>> {
    match fault {
        ConfigFault::NoServerAddress => seq!["服务器地址不能为空"@],
        ConfigFault::ServerAddress { part, reason } => seq![
            "无效服务器地址 "@ + part + ": "@ + reason,
        ],
        ConfigFault::CertMode { reason } => seq![reason],
        ConfigFault::Input { reason } => seq![reason],
        ConfigFault::Output { reason } => seq!["解析 output 网络段失败"@, reason],
        ConfigFault::PortMapping { reason } => seq![reason],
        ConfigFault::VirtualIp => seq!["解析指定虚拟 IP 失败"@, "invalid IPv4 address syntax"@],
        ConfigFault::DeviceId { chain } => seq!["生成 VNT 2.0 device_id 失败"@] + chain,
    }
}

impl ConfigError {
    /// The error to report.
    pub fn into_error(self) -> (error: anyhow::Error)
        ensures
            errors::error_chain(error) == fault_chain(self@),
    {
        match self {
            ConfigError::NoServerAddress => errors::error_from_text("服务器地址不能为空".to_string()),
            ConfigError::ServerAddress { part, reason } => {
                let mut message = "无效服务器地址 ".to_string();
                message.append(part.as_str());
                message.append(": ");
                message.append(reason.as_str());
                errors::error_from_text(message)
            },
            ConfigError::CertMode { reason } => errors::error_from_text(reason),
            ConfigError::Input { reason } => errors::error_from_text(reason),
            ConfigError::Output { reason } => {
                let error = errors::error_in_context(
                    errors::error_from_text(reason),
                    "解析 output 网络段失败".to_string(),
                );
                assert(errors::error_chain(error) == seq!["解析 output 网络段失败"@, reason@]);
                error
            },
            ConfigError::PortMapping { reason } => errors::error_from_text(reason),
            ConfigError::VirtualIp => {
                let error = errors::error_in_context(
                    errors::error_from_text("invalid IPv4 address syntax".to_string()),
                    "解析指定虚拟 IP 失败".to_string(),
                );
                assert(errors::error_chain(error) == seq![
                    "解析指定虚拟 IP 失败"@,
                    "invalid IPv4 address syntax"@,
                ]);
                error
            },
            ConfigError::DeviceId { error } => errors::error_in_context(
                error,
                "生成 VNT 2.0 device_id 失败".to_string(),
            ),
        }
    }
}

/// The fault in the server addresses: the first that the core refuses, or that there is none.
pub open spec fn server_fault<A>(
    parts: Seq<Seq<char>>,
    answers: Seq<Result<ServerAddress<A>, String>>,
) -> Option<ConfigFault> {
    match first_error(answers) {
        Some(i) => Some(
            ConfigFault::ServerAddress { part: parts[i], reason: answers[i]->Err_0@ },
        ),
        None => if parts.len() == 0 {
            Some(ConfigFault::NoServerAddress)
        } else {
            None
        },
    }
}

/// A text writes a network.
pub open spec fn is_network(s: Seq<char>) -> bool {
    exists|net: ipv4::Ipv4Network| ipv4::writes_network(s, net)
}

/// The network that a text writes.
pub open spec fn network_of(s: Seq<char>) -> ipv4::Ipv4Network {
    choose|net: ipv4::Ipv4Network| ipv4::writes_network(s, net)
}

/// All texts write networks.
pub open spec fn are_networks(values: Seq<Seq<char>>) -> bool {
    forall|i: int| 0 <= i < values.len() ==> is_network(#[trigger] values[i])
}

/// The address that is asked for: none if it is missing or blank.
pub open spec fn virtual_ip(ip: Option<Seq<char>>) -> Option<u32> {
    match ip {
        Some(s) if !is_blank(s) => ipv4::address_of(text::trimmed(s)),
        _ => None,
    }
}

/// An address is asked for, but the text writes none.
pub open spec fn is_bad_ip(ip: Option<Seq<char>>) -> bool {
    ip matches Some(s) && !is_blank(s) && ipv4::address_of(text::trimmed(s)) is None
}

/// The first fault of a configuration, in the order: server addresses, certificate mode, input,
/// output, port mapping, virtual address.
pub open spec fn config_fault<A, C, I, P>(
    config: VntConfig,
    answers: ConfigAnswers<A, C, I, P>,
) -> Option<ConfigFault> {
    let server = server_fault(address_parts(texts(config.server_addr@)), answers.server_addr@);
    if server is Some {
        server
    } else if answers.cert_mode is Err {
        Some(ConfigFault::CertMode { reason: answers.cert_mode->Err_0@ })
    } else if let Some(i) = first_error(answers.input@) {
        Some(ConfigFault::Input { reason: answers.input@[i]->Err_0@ })
    } else if !are_networks(texts(config.output@)) {
        Some(ConfigFault::Output { reason: "invalid IP address syntax"@ })
    } else if let Some(i) = first_error(answers.port_mapping@) {
        Some(ConfigFault::PortMapping { reason: answers.port_mapping@[i]->Err_0@ })
    } else if is_bad_ip(text_option(config.ip)) {
        Some(ConfigFault::VirtualIp)
    } else {
        None
    }
}

/// The server addresses that the core parsed, from its answers to the configured ones.
pub fn parse_server_addresses<A>(
    raw: &Vec<String>,
    answers: Vec<Result<ServerAddress<A>, String>>,
) -> (r: Result<Vec<ServerAddress<A>>, ConfigError>)
    requires
        answers@.len() == address_parts(texts(raw@)).len(),
    ensures
        r matches Ok(addresses) ==> server_fault(address_parts(texts(raw@)), answers@) is None
            && addresses@ == ok_values(answers@) && all_ok(answers@),
        r matches Err(error) ==> server_fault(address_parts(texts(raw@)), answers@) == Some(error@),
{
    let parts = server_address_parts(raw);
    let ghost values = texts(parts@);
    match collect_ok(answers) {
        Ok(addresses) => {
            if addresses.len() == 0 {
                return Err(ConfigError::NoServerAddress);
            }
            Ok(addresses)
        },
        Err((i, reason)) => {
            assert(values[i as int] == parts@[i as int]@);
            Err(ConfigError::ServerAddress { part: parts[i].clone(), reason })
        },
    }
}

/// The certificate mode that the core parsed.
pub fn decode_cert_mode<C>(answer: Result<C, String>) -> (r: Result<C, ConfigError>)
    ensures
        r is Ok <==> answer is Ok,
        r matches Ok(mode) ==> answer == Ok::<C, String>(mode),
        r matches Err(error) ==> error@ == (ConfigFault::CertMode { reason: answer->Err_0@ }),
{
    match answer {
        Ok(mode) => Ok(mode),
        Err(reason) => Err(ConfigError::CertMode { reason }),
    }
}

/// The networks that texts write.
fn read_networks(values: &Vec<String>) -> (r: Result<Vec<ipv4::Ipv4Network>, ConfigError>)
    ensures
        r is Ok <==> are_networks(texts(values@)),
        r matches Ok(nets) ==> nets@ == texts(values@).map_values(|s: Seq<char>| network_of(s)),
        r matches Err(error) ==> error@ == (ConfigFault::Output {
            reason: "invalid IP address syntax"@,
        }),
{
    let ghost all = texts(values@);
    let mut nets: Vec<ipv4::Ipv4Network> = Vec::new();
    let mut i: usize = 0;
    while i < values.len()
        invariant
            i <= values.len(),
            all == texts(values@),
            nets@.len() == i,
            forall|j: int| 0 <= j < i ==> is_network(#[trigger] all[j]) && nets@[j] == network_of(all[j]),
        decreases values.len() - i,
    {
        assert(all[i as int] == values@[i as int]@);
        match ipv4::read_network(values[i].as_str()) {
            Ok(net) => {
                proof {
                    ipv4::law_network_text_unambiguous(
                        all[i as int],
                        net,
                        network_of(all[i as int]),
                    );
                }
                nets.push(net);
            },
            Err(error) => {
                assert(!is_network(all[i as int]));
                return Err(ConfigError::Output { reason: ipv4::addr_parse_error_text(&error) });
            },
        }
        i += 1;
    }
    assert(nets@ == all.map_values(|s: Seq<char>| network_of(s)));
    Ok(nets)
}

/// The address that is asked for.
fn read_virtual_ip(ip: &Option<String>) -> (r: Result<Option<u32>, ConfigError>)
    ensures
        r is Err <==> is_bad_ip(text_option(*ip)),
        r matches Ok(addr) ==> addr == virtual_ip(text_option(*ip)),
        r matches Err(error) ==> error@ == ConfigFault::VirtualIp,
{
    match ip {
        Some(s) => {
            let trimmed = s.as_str().trim();
            if trimmed.is_empty() {
                return Ok(None);
            }
            match ipv4::from_text(trimmed) {
                Some(addr) => Ok(Some(addr)),
                None => Err(ConfigError::VirtualIp),
            }
        },
        None => Ok(None),
    }
}

/// The parts of a configuration that had to be parsed, all of them valid, and the texts of the
/// server addresses.
#[derive(Debug)]
pub struct CheckedConfig<A, C, I, P> {
    pub server_addr: Vec<A>,
    pub connect_targets: Vec<String>,
    pub cert_mode: C,
    pub input: Vec<I>,
    pub output: Vec<ipv4::Ipv4Network>,
    pub port_mapping: Vec<P>,
    pub ip: Option<u32>,
}

/// `checked` holds what the core and this library made of the texts of `config`.
pub open spec fn is_checked<A, C, I, P>(
    config: VntConfig,
    answers: ConfigAnswers<A, C, I, P>,
    checked: CheckedConfig<A, C, I, P>,
) -> bool {
    let servers = ok_values(answers.server_addr@);
    &&& checked.server_addr@ == servers.map_values(|server: ServerAddress<A>| server.address)
    &&& texts(checked.connect_targets@) == servers.map_values(
        |server: ServerAddress<A>| server.text@,
    )
    &&& answers.cert_mode == Ok::<C, String>(checked.cert_mode)
    &&& checked.input@ == ok_values(answers.input@)
    &&& checked.output@ == texts(config.output@).map_values(|s: Seq<char>| network_of(s))
    &&& checked.port_mapping@ == ok_values(answers.port_mapping@)
    &&& checked.ip == virtual_ip(text_option(config.ip))
}

/// The addresses and the texts of server addresses.
fn split_addresses<A>(servers: Vec<ServerAddress<A>>) -> (r: (Vec<A>, Vec<String>))
    ensures
        r.0@ == servers@.map_values(|server: ServerAddress<A>| server.address),
        texts(r.1@) == servers@.map_values(|server: ServerAddress<A>| server.text@),
{
    let ghost whole = servers@;
    let mut addresses: Vec<A> = Vec::new();
    let mut targets: Vec<String> = Vec::new();
    for server in it: servers
        invariant
            it.seq() == whole,
            addresses@ == whole.take(it.index() as int).map_values(
                |server: ServerAddress<A>| server.address,
            ),
            texts(targets@) == whole.take(it.index() as int).map_values(
                |server: ServerAddress<A>| server.text@,
            ),
    {
        let ghost before = targets@;
        let ghost n = it.index() as int;
        assert(whole.take(n + 1) == whole.take(n).push(server));
        let ServerAddress { address, text } = server;
        addresses.push(address);
        targets.push(text);
        assert(texts(targets@) == texts(before).push(text@));
    }
    assert(whole.take(whole.len() as int) == whole);
    (addresses, targets)
}

/// Checks the parts of a configuration that have to be parsed. `answers` are what the core makes
/// of the texts in [`config_questions`].
pub fn check_config<A, C, I, P>(
    config: &VntConfig,
    answers: ConfigAnswers<A, C, I, P>,
) -> (r: Result<CheckedConfig<A, C, I, P>, ConfigError>)
    requires
        answers.answer(*config),
    ensures
        r matches Ok(checked) ==> config_fault(*config, answers) is None && is_checked(
            *config,
            answers,
            checked,
        ),
        r matches Err(error) ==> config_fault(*config, answers) == Some(error@),
{
    let servers = match parse_server_addresses(&config.server_addr, answers.server_addr) {
        Ok(servers) => servers,
        Err(error) => return Err(error),
    };
    let (server_addr, connect_targets) = split_addresses(servers);
    let cert_mode = match decode_cert_mode(answers.cert_mode) {
        Ok(mode) => mode,
        Err(error) => return Err(error),
    };
    let input = match collect_ok(answers.input) {
        Ok(input) => input,
        Err((_, reason)) => return Err(ConfigError::Input { reason }),
    };
    let output = match read_networks(&config.output) {
        Ok(output) => output,
        Err(error) => return Err(error),
    };
    let port_mapping = match collect_ok(answers.port_mapping) {
        Ok(port_mapping) => port_mapping,
        Err((_, reason)) => return Err(ConfigError::PortMapping { reason }),
    };
    let ip = match read_virtual_ip(&config.ip) {
        Ok(ip) => ip,
        Err(error) => return Err(error),
    };
    Ok(
        CheckedConfig {
            server_addr,
            connect_targets,
            cert_mode,
            input,
            output,
            port_mapping,
            ip,
        },
    )
}

/// Whether a configuration leaves the device id to the core.
pub fn needs_device_id(config: &VntConfig) -> (b: bool)
    ensures
        b == is_blank(config.device_id@),
{
    config.device_id.as_str().trim().is_empty()
}

/// The configuration of the core, over the types that it parses: server addresses, certificate
/// mode, input routes and port mappings.
#[derive(Debug)]
pub struct CoreConfig<A, C, I, P> {
    pub server_addr: Vec<A>,
    pub cert_mode: C,
    pub network_code: String,
    pub device_id: String,
    pub device_name: String,
    pub tun_name: Option<String>,
    pub ip: Option<u32>,
    pub password: Option<String>,
    pub no_punch: bool,
    pub compress: bool,
    pub rtx: bool,
    pub fec: bool,
    pub input: Vec<I>,
    pub output: Vec<ipv4::Ipv4Network>,
    pub no_nat: bool,
    pub no_tun: bool,
    pub mtu: Option<u16>,
    pub port_mapping: Vec<P>,
    pub allow_port_mapping: bool,
    pub udp_stun: Vec<String>,
    pub tcp_stun: Vec<String>,
    pub tunnel_port: Option<u16>,
}

/// A text that may be missing, trimmed; missing if it is blank.
pub open spec fn trimmed_option(s: Option<Seq<char>>) -> Option<Seq<char>> {
    match s {
        Some(s) if !is_blank(s) => Some(text::trimmed(s)),
        _ => None,
    }
}

/// The greatest packet size that fits into 16 bits and is no greater than the given one.
pub open spec fn clamped_mtu(mtu: Option<u32>) -> Option<u16> {
    match mtu {
        Some(value) => Some((if value <= u16::MAX { value as int } else { u16::MAX as int }) as u16),
        None => None,
    }
}

/// `core` is the configuration of the core that belongs to `config`, where `id` is the device id
/// and `checked` holds the parsed parts.
pub open spec fn is_core_config<A, C, I, P>(
    config: VntConfig,
    checked: CheckedConfig<A, C, I, P>,
    id: Seq<char>,
    core: CoreConfig<A, C, I, P>,
) -> bool {
    &&& core.server_addr == checked.server_addr
    &&& core.cert_mode == checked.cert_mode
    &&& core.network_code@ == text::trimmed(config.network_code@)
    &&& core.device_id@ == id
    &&& core.device_name@ == text::trimmed(config.device_name@)
    &&& text_option(core.tun_name) == trimmed_option(text_option(config.tun_name))
    &&& core.ip == checked.ip
    &&& text_option(core.password) == trimmed_option(text_option(config.password))
    &&& core.no_punch == config.no_punch
    &&& core.compress == config.compress
    &&& core.rtx == config.rtx
    &&& core.fec == config.fec
    &&& core.input == checked.input
    &&& core.output == checked.output
    &&& core.no_nat == config.no_nat
    &&& core.no_tun == config.no_tun
    &&& core.mtu == clamped_mtu(config.mtu)
    &&& core.port_mapping == checked.port_mapping
    &&& core.allow_port_mapping == config.allow_port_mapping
    &&& texts(core.udp_stun@) == stun_servers(texts(config.udp_stun@), 3478)
    &&& texts(core.tcp_stun@) == stun_servers(texts(config.tcp_stun@), 443)
    &&& core.tunnel_port == config.tunnel_port
}

/// A text that may be missing, trimmed; missing if it is blank.
fn trim_option(s: &Option<String>) -> (r: Option<String>)
    ensures
        text_option(r) == trimmed_option(text_option(*s)),
{
    match s {
        Some(value) => {
            let trimmed = value.as_str().trim();
            if trimmed.is_empty() {
                None
            } else {
                Some(trimmed.to_string())
            }
        },
        None => None,
    }
}

/// The configuration of the core and the texts of the servers to connect to. `made` is the device
/// id that the core made, or why it made none; it is asked for where [`needs_device_id`] holds.
pub fn convert_to_core_config<A, C, I, P>(
    config: &VntConfig,
    checked: CheckedConfig<A, C, I, P>,
    made: Option<Result<String, anyhow::Error>>,
) -> (r: Result<(CoreConfig<A, C, I, P>, Vec<String>), ConfigError>)
    requires
        is_blank(config.device_id@) ==> made is Some,
    ensures
        r is Err <==> is_blank(config.device_id@) && made->0 is Err,
        r matches Err(error) ==> error@ == (ConfigFault::DeviceId {
            chain: errors::error_chain(made->0->Err_0),
        }),
        r matches Ok((core, targets)) ==> targets == checked.connect_targets && is_core_config(
            *config,
            checked,
            if is_blank(config.device_id@) {
                made->0->Ok_0@
            } else {
                text::trimmed(config.device_id@)
            },
            core,
        ),
        r matches Ok((core, _)) ==> {
            &&& core.server_addr@ == checked.server_addr@
            &&& core.cert_mode == checked.cert_mode
            &&& core.input@ == checked.input@
            &&& core.output@ == checked.output@
            &&& core.port_mapping@ == checked.port_mapping@
            &&& core.ip == checked.ip
            &&& core.network_code@ == text::trimmed(config.network_code@)
            &&& core.device_name@ == text::trimmed(config.device_name@)
            &&& core.no_punch == config.no_punch
            &&& core.compress == config.compress
            &&& core.rtx == config.rtx
            &&& core.fec == config.fec
            &&& core.no_nat == config.no_nat
            &&& core.no_tun == config.no_tun
            &&& core.allow_port_mapping == config.allow_port_mapping
            &&& core.tunnel_port == config.tunnel_port
        },
        r matches Ok((core, _)) ==> match config.password {
            Some(s) if !is_blank(s@) => core.password matches Some(t) && t@ == text::trimmed(s@),
            _ => core.password is None,
        },
        r matches Ok((core, _)) ==> match config.tun_name {
            Some(s) if !is_blank(s@) => core.tun_name matches Some(t) && t@ == text::trimmed(s@),
            _ => core.tun_name is None,
        },
        r matches Ok((core, _)) ==> match config.mtu {
            Some(value) => core.mtu matches Some(mtu) && mtu == (if value < 0x1_0000 {
                value
            } else {
                0xffffu32
            }),
            None => core.mtu is None,
        },
{
    let trimmed_id = config.device_id.as_str().trim();
    let device_id = if trimmed_id.is_empty() {
        match made {
            Some(Ok(id)) => id,
            Some(Err(error)) => return Err(ConfigError::DeviceId { error }),
            None => trimmed_id.to_string(),
        }
    } else {
        trimmed_id.to_string()
    };
    let udp_entries = config.udp_stun.clone();
    let tcp_entries = config.tcp_stun.clone();
    assert(texts(udp_entries@) == texts(config.udp_stun@));
    assert(texts(tcp_entries@) == texts(config.tcp_stun@));
    let udp_stun = normalize_stun_servers(udp_entries, 3478);
    let tcp_stun = normalize_stun_servers(tcp_entries, 443);
    let mtu: Option<u16> = match config.mtu {
        Some(value) => if value <= 65535 {
            Some(value as u16)
        } else {
            Some(65535)
        },
        None => None,
    };
    let core = CoreConfig {
        server_addr: checked.server_addr,
        cert_mode: checked.cert_mode,
        network_code: config.network_code.as_str().trim().to_string(),
        device_id,
        device_name: config.device_name.as_str().trim().to_string(),
        tun_name: trim_option(&config.tun_name),
        ip: checked.ip,
        password: trim_option(&config.password),
        no_punch: config.no_punch,
        compress: config.compress,
        rtx: config.rtx,
        fec: config.fec,
        input: checked.input,
        output: checked.output,
        no_nat: config.no_nat,
        no_tun: config.no_tun,
        mtu,
        port_mapping: checked.port_mapping,
        allow_port_mapping: config.allow_port_mapping,
        udp_stun,
        tcp_stun,
        tunnel_port: config.tunnel_port,
    };
    Ok((core, checked.connect_targets))
}

/// A STUN server as it is used is no longer changed, whatever the default port.
proof fn lemma_stun_server_fixed(entry: Seq<char>, port: u16, other_port: u16)
    requires
        !is_blank(entry),
    ensures
        !is_blank(stun_server(entry, port)),
        stun_server(entry, port).contains(':'),
        stun_server(stun_server(entry, port), other_port) == stun_server(entry, port),
{
    let host = text::trimmed(entry);
    let server = stun_server(entry, port);
    text::law_trimmed_ends(entry);
    text::law_trimmed_idempotent(entry);
    if !host.contains(':') {
        let digits = text::decimal(port as nat);
        text::lemma_decimal(port as nat);
        assert(text::is_digit(digits[digits.len() - 1]));
        assert(server.last() == digits.last());
        assert(server[0] == host[0]);
        assert(server[host.len() as int] == ':');
        assert(text::trimmed(server) == server);
    }
}

/// Normalised STUN servers stay as they are when they are normalised again, whatever the default
/// port.
pub proof fn law_stun_servers_idempotent(entries: Seq<Seq<char>>, port: u16, other_port: u16)
    ensures
        stun_servers(stun_servers(entries, port), other_port) == stun_servers(entries, port),
    decreases entries.len(),
{
    if entries.len() > 0 {
        let last = entries.last();
        let head = stun_servers(entries.drop_last(), port);
        law_stun_servers_idempotent(entries.drop_last(), port, other_port);
        if !is_blank(last) {
            lemma_stun_server_fixed(last, port, other_port);
            assert(stun_servers(entries, port).drop_last() == head);
        }
    }
}

/// To normalise two lists of STUN servers put together is to put the normalised lists together.
pub proof fn law_stun_servers_append(first: Seq<Seq<char>>, second: Seq<Seq<char>>, port: u16)
    ensures
        stun_servers(first + second, port) == stun_servers(first, port) + stun_servers(second, port),
    decreases second.len(),
{
    if second.len() == 0 {
        assert(first + second == first);
    } else {
        assert((first + second).drop_last() == first + second.drop_last());
        law_stun_servers_append(first, second.drop_last(), port);
    }
}

/// Each normalised STUN server is trimmed, is not blank and names a port.
pub proof fn law_stun_servers_name_port(entries: Seq<Seq<char>>, port: u16, i: int)
    requires
        0 <= i < stun_servers(entries, port).len(),
    ensures
        ({
            let server = stun_servers(entries, port)[i];
            &&& !is_blank(server)
            &&& text::trimmed(server) == server
            &&& server.contains(':')
        }),
    decreases entries.len(),
{
    let head = stun_servers(entries.drop_last(), port);
    if i < head.len() {
        law_stun_servers_name_port(entries.drop_last(), port, i);
    } else {
        let last = entries.last();
        lemma_stun_server_fixed(last, port, port);
        let server = stun_server(last, port);
        assert(stun_server(server, port) == text::trimmed(server)) by {
            text::law_trimmed_ends(server);
            if !text::trimmed(server).contains(':') {
                let t = text::trimmed(server);
                let longer = stun_server(server, port);
                assert(longer == server);
                assert(longer.len() > t.len());
                lemma_trimmed_keeps(server, ':');
            }
        }
    }
}

/// A character that is no white space is not lost when a text is trimmed.
proof fn lemma_trimmed_keeps(s: Seq<char>, c: char)
    requires
        s.contains(c),
        !text::is_white_space(c),
    ensures
        text::trimmed(s).contains(c),
    decreases s.len(),
{
    let i = choose|i: int| 0 <= i < s.len() && s[i] == c;
    if s.len() > 0 && text::is_white_space(s[0]) {
        assert(s.skip(1)[i - 1] == c);
        lemma_trimmed_keeps(s.skip(1), c);
    } else if s.len() > 0 && text::is_white_space(s.last()) {
        assert(s.drop_last()[i] == c);
        lemma_trimmed_keeps(s.drop_last(), c);
    }
}

/// A network that is configured in its usual text is the network that the core gets.
pub proof fn law_output_round_trip(net: ipv4::Ipv4Network)
    requires
        net.wf(),
    ensures
        ({
            let s = ipv4::address_text(net.addr) + seq!['/'] + text::decimal(
                net.prefix_len as nat,
            );
            is_network(s) && network_of(s) == net
        }),
{
    let s = ipv4::address_text(net.addr) + seq!['/'] + text::decimal(net.prefix_len as nat);
    ipv4::law_network_text(net);
    ipv4::law_network_text_unambiguous(s, net, network_of(s));
}

/// An address that is configured in its usual text, with or without white space round it, is the
/// address that the core gets.
pub proof fn law_virtual_ip_round_trip(addr: u32, s: Seq<char>)
    requires
        text::trimmed(s) == ipv4::address_text(addr),
    ensures
        virtual_ip(Some(s)) == Some(addr),
        !is_bad_ip(Some(s)),
{
    ipv4::law_address_round_trip(addr);
    text::lemma_decimal(ipv4::octet(addr, 0));
}

/// A configuration whose server addresses are all blank is refused for that, whatever else it
/// holds.
pub proof fn law_blank_servers_are_refused<A, C, I, P>(
    config: VntConfig,
    answers: ConfigAnswers<A, C, I, P>,
)
    requires
        answers.answer(config),
        forall|i: int| 0 <= i < config.server_addr@.len() ==> is_blank((#[trigger] config.server_addr@[i])@),
    ensures
        config_fault(config, answers) == Some(ConfigFault::NoServerAddress),
{
    lemma_blank_parts(texts(config.server_addr@));
    assert(forall|i: int| !is_first_error(answers.server_addr@, i));
}

/// Blank server addresses leave nothing to connect to.
proof fn lemma_blank_parts(raw: Seq<Seq<char>>)
    requires
        forall|i: int| 0 <= i < raw.len() ==> is_blank(#[trigger] raw[i]),
    ensures
        address_parts(raw) == Seq::<Seq<char>>::empty(),
    decreases raw.len(),
{
    if raw.len() > 0 {
        assert(is_blank(raw[raw.len() - 1]));
        lemma_blank_parts(raw.drop_last());
    }
}

/// The values of texts are those of each, in their order; a text that may be missing has a value
/// exactly if it is there.
pub proof fn law_text_values(v: Seq<String>, s: Option<String>)
    ensures
        texts(v).len() == v.len(),
        forall|i: int| 0 <= i < v.len() ==> #[trigger] texts(v)[i] == v[i]@,
        s is None ==> text_option(s) is None,
        s matches Some(t) ==> text_option(s) == Some(t@),
{
}

/// A text is blank exactly if it is made of white space.
pub proof fn law_blank(s: Seq<char>)
    ensures
        is_blank(s) <==> forall|i: int| 0 <= i < s.len() ==> text::is_white_space(#[trigger] s[i]),
{
    if is_blank(s) {
        text::law_trimmed_is_part(s);
        let (i, j) = choose|i: int, j: int|
            {
                &&& 0 <= i <= j <= s.len()
                &&& text::trimmed(s) == #[trigger] s.subrange(i, j)
                &&& forall|k: int|
                    0 <= k < i || j <= k < s.len() ==> text::is_white_space(#[trigger] s[k])
            };
        assert(i == j);
    }
    if forall|i: int| 0 <= i < s.len() ==> text::is_white_space(#[trigger] s[i]) {
        let none = Seq::<char>::empty();
        text::law_trimmed_drops_white_space(s, none, none);
        assert(s + none + none == s);
    }
}

/// A blank STUN server is left out; one that holds a colon is only trimmed; any other gets a colon
/// and the default port behind it.
pub proof fn law_stun_server(entry: Seq<char>, port: u16)
    ensures
        is_blank(entry) ==> stun_servers(seq![entry], port).len() == 0,
        !is_blank(entry) && text::trimmed(entry).contains(':') ==> stun_servers(seq![entry], port)
            == seq![text::trimmed(entry)],
        !is_blank(entry) && !text::trimmed(entry).contains(':') ==> stun_servers(seq![entry], port)
            == seq![text::trimmed(entry) + seq![':'] + text::decimal(port as nat)],
        stun_servers(Seq::<Seq<char>>::empty(), port).len() == 0,
{
    reveal_with_fuel(stun_servers, 2);
    assert(seq![entry].drop_last() == Seq::<Seq<char>>::empty());
    if !is_blank(entry) {
        assert(stun_servers(seq![entry], port) == seq![stun_server(entry, port)]);
    }
}

/// The server addresses of two lists put together are those of the one, then those of the other. A
/// blank one is left out, any other is trimmed.
pub proof fn law_address_parts(first: Seq<Seq<char>>, second: Seq<Seq<char>>, raw: Seq<char>)
    ensures
        address_parts(first + second) == address_parts(first) + address_parts(second),
        is_blank(raw) ==> address_parts(seq![raw]).len() == 0,
        !is_blank(raw) ==> address_parts(seq![raw]) == seq![text::trimmed(raw)],
        address_parts(Seq::<Seq<char>>::empty()).len() == 0,
    decreases second.len(),
{
    reveal_with_fuel(address_parts, 2);
    assert(seq![raw].drop_last() == Seq::<Seq<char>>::empty());
    if !is_blank(raw) {
        assert(address_parts(seq![raw]) == seq![text::trimmed(raw)]);
    }
    if second.len() == 0 {
        assert(first + second == first);
        assert(address_parts(first + second) == address_parts(first) + address_parts(second));
    } else {
        assert((first + second).drop_last() == first + second.drop_last());
        law_address_parts(first, second.drop_last(), raw);
        assert(address_parts(first + second) == address_parts(first) + address_parts(second));
    }
}

/// The answers to a question have a first error only if one of them is an error.
proof fn lemma_first_error_none<T>(answers: Seq<Result<T, String>>)
    ensures
        (forall|i: int| 0 <= i < answers.len() ==> (#[trigger] answers[i]) is Ok) ==> first_error(answers) is None,
{
    if forall|i: int| 0 <= i < answers.len() ==> (#[trigger] answers[i]) is Ok {
        assert(forall|i: int| !is_first_error(answers, i));
    }
}

/// Answers without an error have no first error.
proof fn lemma_answers<A, C, I, P>(answers: ConfigAnswers<A, C, I, P>)
    ensures
        (forall|i: int| 0 <= i < answers.server_addr@.len() ==> (#[trigger] answers.server_addr@[i]) is Ok)
            ==> first_error(answers.server_addr@) is None,
        (forall|i: int| 0 <= i < answers.input@.len() ==> (#[trigger] answers.input@[i]) is Ok)
            ==> first_error(answers.input@) is None,
        (forall|i: int| 0 <= i < answers.port_mapping@.len() ==> (#[trigger] answers.port_mapping@[i]) is Ok)
            ==> first_error(answers.port_mapping@) is None,
{
    lemma_first_error_none(answers.server_addr@);
    lemma_first_error_none(answers.input@);
    lemma_first_error_none(answers.port_mapping@);
}

/// The first server address that the core refuses is the fault, whatever else is wrong.
pub proof fn law_refused_server_is_fault<A, C, I, P>(config: VntConfig, answers: ConfigAnswers<A, C, I, P>, i: int)
    requires
        answers.answer(config),
        0 <= i < answers.server_addr@.len(),
        answers.server_addr@[i] is Err,
        forall|j: int| 0 <= j < i ==> (#[trigger] answers.server_addr@[j]) is Ok,
    ensures
        config_fault(config, answers) == Some(
            ConfigFault::ServerAddress {
                part: address_parts(texts(config.server_addr@))[i],
                reason: answers.server_addr@[i]->Err_0@,
            },
        ),
{
    lemma_answers(answers);
    lemma_first_error(answers.server_addr@, i);
}

/// Behind valid server addresses, a certificate mode that the core refuses is the fault.
pub proof fn law_refused_cert_mode_is_fault<A, C, I, P>(config: VntConfig, answers: ConfigAnswers<A, C, I, P>)
    requires
        answers.answer(config),
        answers.server_addr@.len() > 0,
        forall|i: int| 0 <= i < answers.server_addr@.len() ==> (#[trigger] answers.server_addr@[i]) is Ok,
        answers.cert_mode is Err,
    ensures
        config_fault(config, answers) == Some(
            ConfigFault::CertMode { reason: answers.cert_mode->Err_0@ },
        ),
{
    lemma_answers(answers);
}

/// Behind valid server addresses and a valid certificate mode, the first input that the core refuses
/// is the fault.
pub proof fn law_refused_input_is_fault<A, C, I, P>(config: VntConfig, answers: ConfigAnswers<A, C, I, P>, i: int)
    requires
        answers.answer(config),
        answers.server_addr@.len() > 0,
        forall|i: int| 0 <= i < answers.server_addr@.len() ==> (#[trigger] answers.server_addr@[i]) is Ok,
        answers.cert_mode is Ok,
        0 <= i < answers.input@.len(),
        answers.input@[i] is Err,
        forall|j: int| 0 <= j < i ==> (#[trigger] answers.input@[j]) is Ok,
    ensures
        config_fault(config, answers) == Some(
            ConfigFault::Input { reason: answers.input@[i]->Err_0@ },
        ),
{
    lemma_answers(answers);
    lemma_first_error(answers.input@, i);
}

/// Behind all of that, an output that writes no network is the fault.
pub proof fn law_bad_output_is_fault<A, C, I, P>(config: VntConfig, answers: ConfigAnswers<A, C, I, P>, k: int)
    requires
        answers.answer(config),
        answers.server_addr@.len() > 0,
        forall|i: int| 0 <= i < answers.server_addr@.len() ==> (#[trigger] answers.server_addr@[i]) is Ok,
        answers.cert_mode is Ok,
        forall|i: int| 0 <= i < answers.input@.len() ==> (#[trigger] answers.input@[i]) is Ok,
        0 <= k < config.output@.len(),
        forall|net: ipv4::Ipv4Network| !ipv4::writes_network(config.output@[k]@, net),
    ensures
        config_fault(config, answers) == Some(
            ConfigFault::Output { reason: "invalid IP address syntax"@ },
        ),
{
    lemma_answers(answers);
    assert(!is_network(texts(config.output@)[k]));
}

/// Behind all of that, the first port mapping that the core refuses is the fault.
pub proof fn law_refused_port_mapping_is_fault<A, C, I, P>(config: VntConfig, answers: ConfigAnswers<A, C, I, P>, i: int)
    requires
        answers.answer(config),
        answers.server_addr@.len() > 0,
        forall|i: int| 0 <= i < answers.server_addr@.len() ==> (#[trigger] answers.server_addr@[i]) is Ok,
        answers.cert_mode is Ok,
        forall|i: int| 0 <= i < answers.input@.len() ==> (#[trigger] answers.input@[i]) is Ok,
        forall|i: int| 0 <= i < config.output@.len() ==> is_network((#[trigger] config.output@[i])@),
        0 <= i < answers.port_mapping@.len(),
        answers.port_mapping@[i] is Err,
        forall|j: int| 0 <= j < i ==> (#[trigger] answers.port_mapping@[j]) is Ok,
    ensures
        config_fault(config, answers) == Some(
            ConfigFault::PortMapping { reason: answers.port_mapping@[i]->Err_0@ },
        ),
{
    lemma_answers(answers);
    lemma_first_error(answers.port_mapping@, i);
    assert(are_networks(texts(config.output@))) by {
        assert forall|i: int| 0 <= i < texts(config.output@).len() implies is_network(
            #[trigger] texts(config.output@)[i],
        ) by {
            assert(is_network(config.output@[i]@));
        }
    }
}

/// Behind all of that, a virtual address that is neither blank nor writes an address is the fault.
pub proof fn law_bad_virtual_ip_is_fault<A, C, I, P>(config: VntConfig, answers: ConfigAnswers<A, C, I, P>)
    requires
        answers.answer(config),
        answers.server_addr@.len() > 0,
        forall|i: int| 0 <= i < answers.server_addr@.len() ==> (#[trigger] answers.server_addr@[i]) is Ok,
        answers.cert_mode is Ok,
        forall|i: int| 0 <= i < answers.input@.len() ==> (#[trigger] answers.input@[i]) is Ok,
        forall|i: int| 0 <= i < config.output@.len() ==> is_network((#[trigger] config.output@[i])@),
        forall|i: int| 0 <= i < answers.port_mapping@.len() ==> (#[trigger] answers.port_mapping@[i]) is Ok,
        config.ip is Some,
        !is_blank(config.ip->0@),
        forall|addr: u32| text::trimmed(config.ip->0@) != #[trigger] ipv4::address_text(addr),
    ensures
        config_fault(config, answers) == Some(ConfigFault::VirtualIp),
{
    lemma_answers(answers);
    assert(are_networks(texts(config.output@))) by {
        assert forall|i: int| 0 <= i < texts(config.output@).len() implies is_network(
            #[trigger] texts(config.output@)[i],
        ) by {
            assert(is_network(config.output@[i]@));
        }
    }
    ipv4::law_address_is_read(text::trimmed(config.ip->0@), 0);
}

/// A configuration in which all of that is valid has no fault.
pub proof fn law_valid_config_has_no_fault<A, C, I, P>(config: VntConfig, answers: ConfigAnswers<A, C, I, P>, addr: u32)
    requires
        answers.answer(config),
        answers.server_addr@.len() > 0,
        forall|i: int| 0 <= i < answers.server_addr@.len() ==> (#[trigger] answers.server_addr@[i]) is Ok,
        answers.cert_mode is Ok,
        forall|i: int| 0 <= i < answers.input@.len() ==> (#[trigger] answers.input@[i]) is Ok,
        forall|i: int| 0 <= i < config.output@.len() ==> is_network((#[trigger] config.output@[i])@),
        forall|i: int| 0 <= i < answers.port_mapping@.len() ==> (#[trigger] answers.port_mapping@[i]) is Ok,
        config.ip matches Some(s) ==> is_blank(s@) || text::trimmed(s@) == ipv4::address_text(addr),
    ensures
        config_fault(config, answers) == None::<ConfigFault>,
{
    lemma_answers(answers);
    assert(are_networks(texts(config.output@))) by {
        assert forall|i: int| 0 <= i < texts(config.output@).len() implies is_network(
            #[trigger] texts(config.output@)[i],
        ) by {
            assert(is_network(config.output@[i]@));
        }
    }
    if let Some(s) = config.ip {
        ipv4::law_address_is_read(text::trimmed(s@), addr);
    }
}

/// A checked configuration holds, each in its place, what the core made of the server addresses and
/// their texts, of the certificate mode, of the inputs and of the port mappings, the networks that the
/// outputs write, and the virtual address, if one is asked for.
pub proof fn law_checked_config<A, C, I, P>(
    config: VntConfig,
    answers: ConfigAnswers<A, C, I, P>,
    checked: CheckedConfig<A, C, I, P>,
)
    requires
        is_checked(config, answers, checked),
    ensures
        checked.server_addr@.len() == answers.server_addr@.len(),
        checked.connect_targets@.len() == answers.server_addr@.len(),
        forall|i: int|
            0 <= i < answers.server_addr@.len() ==> (#[trigger] answers.server_addr@[i] matches Ok(server) ==> checked.server_addr@[i]
                == server.address && checked.connect_targets@[i]@ == server.text@),
        answers.cert_mode == Ok::<C, String>(checked.cert_mode),
        checked.input@.len() == answers.input@.len(),
        forall|i: int|
            0 <= i < answers.input@.len() ==> (#[trigger] answers.input@[i] matches Ok(input) ==> checked.input@[i]
                == input),
        checked.port_mapping@.len() == answers.port_mapping@.len(),
        forall|i: int|
            0 <= i < answers.port_mapping@.len() ==> (#[trigger] answers.port_mapping@[i] matches Ok(mapping)
                ==> checked.port_mapping@[i] == mapping),
        checked.output@.len() == config.output@.len(),
        forall|i: int, net: ipv4::Ipv4Network|
            0 <= i < config.output@.len() && #[trigger] ipv4::writes_network(config.output@[i]@, net)
                ==> checked.output@[i] == net,
        config.ip is None ==> checked.ip is None,
        config.ip matches Some(s) ==> is_blank(s@) ==> checked.ip is None,
        config.ip matches Some(s) ==> forall|addr: u32|
            text::trimmed(s@) == #[trigger] ipv4::address_text(addr) ==> checked.ip == Some(addr),
{
    let servers = ok_values(answers.server_addr@);
    assert(texts(checked.connect_targets@).len() == servers.len());
    assert forall|i: int| 0 <= i < answers.server_addr@.len() implies (
    #[trigger] answers.server_addr@[i] matches Ok(server) ==> checked.server_addr@[i] == server.address
        && checked.connect_targets@[i]@ == server.text@) by {
        assert(texts(checked.connect_targets@)[i] == servers[i].text@);
        assert(checked.server_addr@[i] == servers[i].address);
    }
    assert forall|i: int, net: ipv4::Ipv4Network|
        0 <= i < config.output@.len() && #[trigger] ipv4::writes_network(config.output@[i]@, net) implies checked.output@[i]
        == net by {
        let s = config.output@[i]@;
        assert(texts(config.output@)[i] == s);
        ipv4::law_network_text_unambiguous(s, net, network_of(s));
    }
    if let Some(s) = config.ip {
        assert forall|addr: u32| text::trimmed(s@) == #[trigger] ipv4::address_text(addr) implies checked.ip
            == Some(addr) by {
            law_virtual_ip_round_trip(addr, s@);
        }
    }
}

/// A text that may be missing and is not blank is handed on without its surrounding white space; a
/// blank one, and one that is missing, is missing.
pub proof fn law_trimmed_option(s: Seq<char>)
    ensures
        trimmed_option(None) is None,
        is_blank(s) ==> trimmed_option(Some(s)) is None,
        !is_blank(s) ==> trimmed_option(Some(s)) == Some(text::trimmed(s)),
        s.len() > 0 && !text::is_white_space(s[0]) && !text::is_white_space(s.last())
            ==> trimmed_option(Some(s)) == Some(s),
{
}

/// A packet size that fits into 16 bits is kept, a greater one becomes the greatest.
pub proof fn law_mtu(value: u32)
    ensures
        clamped_mtu(None) is None,
        value < 0x1_0000 ==> (clamped_mtu(Some(value)) matches Some(mtu) && mtu == value),
        value >= 0x1_0000 ==> clamped_mtu(Some(value)) == Some(0xffffu16),
{
}

/// Every part of the user's configuration reaches the core: the texts trimmed, the password and the
/// name of the device unless they are blank, the flags and the port as they are, the packet size as
/// far as it fits, the STUN servers with their default ports, and what was parsed unchanged.
pub proof fn law_core_config<A, C, I, P>(
    config: VntConfig,
    checked: CheckedConfig<A, C, I, P>,
    id: Seq<char>,
    core: CoreConfig<A, C, I, P>,
)
    requires
        is_core_config(config, checked, id, core),
    ensures
        core.server_addr@ == checked.server_addr@,
        core.cert_mode == checked.cert_mode,
        core.network_code@ == text::trimmed(config.network_code@),
        core.device_id@ == id,
        core.device_name@ == text::trimmed(config.device_name@),
        config.tun_name is None ==> core.tun_name is None,
        config.tun_name matches Some(s) ==> if is_blank(s@) {
            core.tun_name is None
        } else {
            core.tun_name matches Some(t) && t@ == text::trimmed(s@)
        },
        core.ip == checked.ip,
        config.password is None ==> core.password is None,
        config.password matches Some(s) ==> if is_blank(s@) {
            core.password is None
        } else {
            core.password matches Some(t) && t@ == text::trimmed(s@)
        },
        core.no_punch == config.no_punch,
        core.compress == config.compress,
        core.rtx == config.rtx,
        core.fec == config.fec,
        core.input@ == checked.input@,
        core.output@ == checked.output@,
        core.no_nat == config.no_nat,
        core.no_tun == config.no_tun,
        config.mtu is None ==> core.mtu is None,
        config.mtu matches Some(value) ==> (core.mtu matches Some(mtu) && mtu == (if value < 0x1_0000 {
            value
        } else {
            0xffffu32
        })),
        core.port_mapping@ == checked.port_mapping@,
        core.allow_port_mapping == config.allow_port_mapping,
        texts(core.udp_stun@) == stun_servers(texts(config.udp_stun@), 3478),
        texts(core.tcp_stun@) == stun_servers(texts(config.tcp_stun@), 443),
        core.tunnel_port == config.tunnel_port,
{
}

/// A fault is reported with what is wrong: the server address and the reason of the core, the reason
/// alone, or behind a text that says what was being parsed or made.
pub proof fn law_fault_texts(part: Seq<char>, reason: Seq<char>, chain: Seq<Seq<char>>)
    ensures
        fault_chain(ConfigFault::NoServerAddress) == seq!["服务器地址不能为空"@],
        fault_chain(ConfigFault::ServerAddress { part, reason }) == seq![
            "无效服务器地址"@ + seq![' '] + part + seq![':', ' '] + reason,
        ],
        fault_chain(ConfigFault::CertMode { reason }) == seq![reason],
        fault_chain(ConfigFault::Input { reason }) == seq![reason],
        fault_chain(ConfigFault::Output { reason }) == seq!["解析 output 网络段失败"@, reason],
        fault_chain(ConfigFault::PortMapping { reason }) == seq![reason],
        fault_chain(ConfigFault::VirtualIp) == seq![
            "解析指定虚拟 IP 失败"@,
            "invalid IPv4 address syntax"@,
        ],
        fault_chain(ConfigFault::DeviceId { chain }) == seq!["生成 VNT 2.0 device_id 失败"@] + chain,
{
    reveal_strlit("无效服务器地址 ");
    reveal_strlit("无效服务器地址");
    reveal_strlit(": ");
    assert("无效服务器地址 "@ == "无效服务器地址"@ + seq![' ']);
    assert(": "@ == seq![':', ' ']);
}

/// The value of a fault is its kind, with the texts or the causes that it holds.
pub proof fn law_fault_view(error: ConfigError)
    ensures
        error is NoServerAddress <==> error@ is NoServerAddress,
        error is VirtualIp <==> error@ is VirtualIp,
        error matches ConfigError::ServerAddress { part, reason } ==> error@ == (
        ConfigFault::ServerAddress { part: part@, reason: reason@ }),
        error matches ConfigError::CertMode { reason } ==> error@ == (ConfigFault::CertMode {
            reason: reason@,
        }),
        error matches ConfigError::Input { reason } ==> error@ == (ConfigFault::Input {
            reason: reason@,
        }),
        error matches ConfigError::Output { reason } ==> error@ == (ConfigFault::Output {
            reason: reason@,
        }),
        error matches ConfigError::PortMapping { reason } ==> error@ == (ConfigFault::PortMapping {
            reason: reason@,
        }),
        error matches ConfigError::DeviceId { error: cause } ==> error@ == (ConfigFault::DeviceId {
            chain: errors::error_chain(cause),
        }),
{
}

/// A text that writes a network, in whichever way, is read as that network, and a text that is read
/// as a network writes it.
pub proof fn law_output_is_read(s: Seq<char>, net: ipv4::Ipv4Network)
    ensures
        ipv4::writes_network(s, net) ==> is_network(s) && network_of(s) == net,
        is_network(s) ==> ipv4::writes_network(s, network_of(s)),
{
    if ipv4::writes_network(s, net) {
        ipv4::law_network_text_unambiguous(s, net, network_of(s));
    }
}

} // verus!
