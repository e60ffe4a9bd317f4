use vnt_api::config::ConfigError;
use vnt_api::core_api::NetworkAddr;
use vnt_api::errors::RustErrorType;
use vnt_api::opening::{begin_opening, open_client, OpenAction, OpenEvent, OpenState, OpenStep};
use vnt_api::startup::{outcome_reports, StartReport};

fn addr() -> NetworkAddr {
    NetworkAddr { ip: 0x0a1a_0502, prefix_len: 20, gateway: 0x0a1a_0001, broadcast: 0x0a1a_0fff }
}

fn words(reports: &[StartReport]) -> Vec<String> {
    reports
        .iter()
        .map(|report| match report {
            StartReport::Connect(info) => format!("connect {} {}", info.count, info.address),
            StartReport::Error(info) => format!("error {:?}", info.msg),
            StartReport::Handshake(info) => format!("handshake {}", info.version),
            StartReport::Register(info) => format!("register {}", info.virtual_ip),
            StartReport::Success => "success".to_string(),
        })
        .collect()
}

fn joining() -> OpenStep {
    let step = begin_opening();
    assert!(matches!(step.action, OpenAction::Configure) && step.reports.is_empty());
    let targets = vec!["a".to_string(), "b".to_string()];
    let step = open_client(step.state, OpenEvent::Configured(Ok(targets)));
    assert!(matches!(step.action, OpenAction::CreateTask) && step.reports.is_empty());
    let step = open_client(step.state, OpenEvent::Done(Ok(())));
    assert!(matches!(step.action, OpenAction::CreateRuntime) && step.reports.is_empty());
    open_client(step.state, OpenEvent::Done(Ok(())))
}

fn failure(step: OpenStep) -> String {
    assert!(matches!(step.state, OpenState::Ended));
    match step.action {
        OpenAction::Fail(error) => format!("{:#}", error),
        other => panic!("{:?}", other),
    }
}

#[test]
fn opened_client_reports_servers_then_success() {
    let step = joining();
    assert!(matches!(step.action, OpenAction::Join));
    assert_eq!(words(&step.reports), vec!["connect 1 a", "connect 2 b"]);
    let step = open_client(step.state, OpenEvent::Joined(Ok(addr())));
    assert!(matches!(step.state, OpenState::Ended));
    assert!(matches!(step.action, OpenAction::Open));
    assert_eq!(words(&step.reports), vec!["handshake 2.0.0", "register 10.26.5.2", "success"]);
}

#[test]
fn failed_start_reports_the_error_alone() {
    let step = open_client(joining().state, OpenEvent::Joined(Err(anyhow::Error::msg("Bad TOKEN"))));
    assert_eq!(words(&step.reports), vec!["error Some(\"Bad TOKEN\")"]);
    match &step.reports[0] {
        StartReport::Error(info) => assert_eq!(info.code, RustErrorType::TokenError),
        other => panic!("{:?}", other),
    }
    assert_eq!(failure(step), "Bad TOKEN");
}

#[test]
fn early_failures_are_silent() {
    let step = open_client(
        begin_opening().state,
        OpenEvent::Configured(Err(ConfigError::NoServerAddress)),
    );
    assert!(step.reports.is_empty());
    assert_eq!(failure(step), "服务器地址不能为空");

    let step = open_client(
        OpenState::CreatingTask(vec!["a".to_string()]),
        OpenEvent::Done(Err(anyhow::Error::msg("no task"))),
    );
    assert!(step.reports.is_empty());
    assert_eq!(failure(step), "no task");

    let step = open_client(
        OpenState::CreatingRuntime(vec!["a".to_string()]),
        OpenEvent::Done(Err(anyhow::Error::msg("no thread"))),
    );
    assert!(step.reports.is_empty());
    assert_eq!(failure(step), "创建 Tokio Runtime 失败: no thread");
}

#[test]
fn outcomes_are_reported() {
    assert_eq!(words(&outcome_reports(&Ok(addr()))), vec!["handshake 2.0.0", "register 10.26.5.2", "success"]);
    assert_eq!(words(&outcome_reports(&Err(anyhow::Error::msg("x")))), vec!["error Some(\"x\")"]);
}
