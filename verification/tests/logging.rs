use vnt_api::logging::{begin_log, init_log_with_path, LogAction, LogEvent, LogPlan, LogState};

fn plan() -> LogPlan {
    LogPlan { log_dir: "/logs".to_string(), config_path: "/config".to_string() }
}

fn done() -> LogEvent {
    LogEvent::Done(Ok(()))
}

fn failure(step: (LogState, LogAction)) -> String {
    assert!(matches!(step.0, LogState::Ended));
    match step.1 {
        LogAction::Fail(error) => format!("{:#}", error),
        other => panic!("{:?}", other),
    }
}

#[test]
fn log_is_set_up_in_order() {
    for exists in [true, false] {
        let (state, action) = begin_log(plan());
        assert!(matches!(action, LogAction::Look));
        let (mut state, mut action) = init_log_with_path(state, LogEvent::Looked { exists });
        assert_eq!(matches!(action, LogAction::CreateDir), !exists);
        if !exists {
            (state, action) = init_log_with_path(state, done());
        }
        match action {
            LogAction::BuildRoller { pattern, count } => {
                assert_eq!((pattern.as_str(), count), ("vnt-core.{}.log", 5));
            }
            other => panic!("{:?}", other),
        }
        let (state, action) = init_log_with_path(state, done());
        match action {
            LogAction::BuildAppender { file, max_size, format } => {
                assert_eq!((file.as_str(), max_size), ("vnt-core.log", 10485760));
                assert_eq!(format, "{d(%Y-%m-%d %H:%M:%S%.3f)} [{f}:{L}] {h({l})} {M}:{m}{n}{n}");
            }
            other => panic!("{:?}", other),
        }
        let (state, action) = init_log_with_path(state, done());
        match action {
            LogAction::BuildConfig { appender } => assert_eq!(appender, "rolling_file"),
            other => panic!("{:?}", other),
        }
        let (state, action) = init_log_with_path(state, done());
        assert!(matches!(action, LogAction::Install));
        let (state, action) = init_log_with_path(state, done());
        assert!(matches!(state, LogState::Ended));
        match action {
            LogAction::Finish { lines } => assert_eq!(
                lines,
                vec![
                    "日志系统初始化成功，日志目录: /logs".to_string(),
                    "持久化配置路径: /config".to_string(),
                ]
            ),
            other => panic!("{:?}", other),
        }
    }
}

#[test]
fn log_failures_are_put_into_words() {
    let failed = || LogEvent::Done(Err(anyhow::Error::msg("x")));
    let step = init_log_with_path(LogState::CreatingDir(plan()), failed());
    assert_eq!(failure(step), "创建日志目录失败: /logs: x");
    let step = init_log_with_path(LogState::BuildingRoller(plan()), failed());
    assert_eq!(failure(step), "创建日志滚动器失败: x");
    let step = init_log_with_path(LogState::BuildingAppender(plan()), failed());
    assert_eq!(failure(step), "创建日志追加器失败: x");
    let step = init_log_with_path(LogState::BuildingConfig(plan()), failed());
    assert_eq!(failure(step), "构建日志配置失败: x");
    let step = init_log_with_path(LogState::Installing(plan()), failed());
    assert_eq!(failure(step), "初始化日志系统失败: x");
}
