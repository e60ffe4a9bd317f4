//! How the log is set up: in which order, with which files, and what is logged first.

use vstd::prelude::*;

use crate::config;
use crate::errors;

verus! {

/// Where the log goes, and where the configuration is kept.
#[derive(Debug)]
pub struct LogPlan {
    pub log_dir: String,
    pub config_path: String,
}

/// How far the log is set up: which action is under way.
#[derive(Debug)]
pub enum LogState {
    Looking(LogPlan),
    CreatingDir(LogPlan),
    BuildingRoller(LogPlan),
    BuildingAppender(LogPlan),
    BuildingConfig(LogPlan),
    Installing(LogPlan),
    Ended,
}

/// What came of an action.
#[derive(Debug)]
pub enum LogEvent {
    Looked { exists: bool },
    Done(Result<(), anyhow::Error>),
}

/// What to do next. Files are named without the directory, in which they all are.
#[derive(Debug)]
pub enum LogAction {
    /// See whether the directory exists.
    Look,
    /// Create the directory and those above it.
    CreateDir,
    /// Keep so many old files, under names in which the number takes the place of the braces.
    BuildRoller { pattern: String, count: u32 },
    /// Write to the file up to so many bytes, in the given format.
    BuildAppender { file: String, max_size: u64, format: String },
    /// Hand what is logged to the appender, under this name.
    BuildConfig { appender: String },
    Install,
    /// The log is set up; log these lines.
    Finish { lines: Vec<String> },
    Fail(anyhow::Error),
}

/// The value of a [`LogAction`].
pub enum Action {
    Look,
    CreateDir,
    BuildRoller { pattern: Seq<char>, count: u32 },
    BuildAppender { file: Seq<char>, max_size: u64, format: Seq<char> },
    BuildConfig { appender: Seq<char> },
    Install,
    Finish { lines: Seq<Seq<char>> },
    Fail(Seq<Seq<char>>),
}

impl View for LogAction {
    type V = Action;

    open spec fn view(&self) -> Action {
        match *self {
            LogAction::Look => Action::Look,
            LogAction::CreateDir => Action::CreateDir,
            LogAction::BuildRoller { pattern, count } => Action::BuildRoller {
                pattern: pattern@,
                count,
            },
            LogAction::BuildAppender { file, max_size, format } => Action::BuildAppender {
                file: file@,
                max_size,
                format: format@,
            },
            LogAction::BuildConfig { appender } => Action::BuildConfig { appender: appender@ },
            LogAction::Install => Action::Install,
            LogAction::Finish { lines } => Action::Finish { lines: config::texts(lines@) },
            LogAction::Fail(error) => Action::Fail(errors::error_chain(error)),
        }
    }
}

impl LogState {
    /// The event can come of the action that is under way.
    pub open spec fn expects(self, event: LogEvent) -> bool {
        match self {
            LogState::Looking(_) => event is Looked,
            LogState::Ended => false,
            _ => event is Done,
        }
    }
}

/// Of the old files five are kept, under numbered names.
pub open spec fn roller() -> Action {
    Action::BuildRoller { pattern: "vnt-core.{}.log"@, count: 5 }
}

/// The file that is written to: its name, the ten megabytes after which it is rolled over, and how
/// its lines look.
pub open spec fn appender() -> Action {
    Action::BuildAppender {
        file: "vnt-core.log"@,
        max_size: 0xa0_0000,
        format: "{d(%Y-%m-%d %H:%M:%S%.3f)} [{f}:{L}] {h({l})} {M}:{m}{n}{n}"@,
    }
}

/// The first lines of the log: where it is, and where the configuration is kept.
pub open spec fn first_lines(plan: LogPlan) -> Seq<Seq<char>> {
    seq![
        "日志系统初始化成功，日志目录: "@ + plan.log_dir@,
        "持久化配置路径: "@ + plan.config_path@,
    ]
}

/// What is said of an action that fails.
pub open spec fn failure_text(state: LogState) -> Seq<char> {
    match state {
        LogState::CreatingDir(plan) => "创建日志目录失败: "@ + plan.log_dir@,
        LogState::BuildingRoller(_) => "创建日志滚动器失败"@,
        LogState::BuildingAppender(_) => "创建日志追加器失败"@,
        LogState::BuildingConfig(_) => "构建日志配置失败"@,
        _ => "初始化日志系统失败"@,
    }
}

/// What follows an event that the state expects.
pub open spec fn next(state: LogState, event: LogEvent) -> (LogState, Action) {
    match (state, event) {
        (LogState::Looking(plan), LogEvent::Looked { exists }) => if exists {
            (LogState::BuildingRoller(plan), roller())
        } else {
            (LogState::CreatingDir(plan), Action::CreateDir)
        },
        (state, LogEvent::Done(Err(error))) => (
            LogState::Ended,
            Action::Fail(seq![failure_text(state)] + errors::error_chain(error)),
        ),
        (LogState::CreatingDir(plan), _) => (LogState::BuildingRoller(plan), roller()),
        (LogState::BuildingRoller(plan), _) => (LogState::BuildingAppender(plan), appender()),
        (LogState::BuildingAppender(plan), _) => (
            LogState::BuildingConfig(plan),
            Action::BuildConfig { appender: "rolling_file"@ },
        ),
        (LogState::BuildingConfig(plan), _) => (LogState::Installing(plan), Action::Install),
        (LogState::Installing(plan), _) => (
            LogState::Ended,
            Action::Finish { lines: first_lines(plan) },
        ),
        _ => arbitrary(),
    }
}

/// A text behind a label.
fn labelled(label: &str, value: &str) -> (s: String)
    ensures
        s@ == label@ + value@,
{
    let mut s = label.to_string();
    s.append(value);
    s
}

/// The number of old files and their names.
fn build_roller() -> (action: LogAction)
    ensures
        action@ == roller(),
{
    LogAction::BuildRoller { pattern: "vnt-core.{}.log".to_string(), count: 5 }
}

/// The file that is written to.
fn build_appender() -> (action: LogAction)
    ensures
        action@ == appender(),
{
    LogAction::BuildAppender {
        file: "vnt-core.log".to_string(),
        max_size: 10 * 1024 * 1024,
        format: "{d(%Y-%m-%d %H:%M:%S%.3f)} [{f}:{L}] {h({l})} {M}:{m}{n}{n}".to_string(),
    }
}

/// The first lines of the log.
fn finish(plan: &LogPlan) -> (action: LogAction)
    ensures
        action@ == (Action::Finish { lines: first_lines(*plan) }),
{
    let mut lines: Vec<String> = Vec::new();
    lines.push(labelled("日志系统初始化成功，日志目录: ", plan.log_dir.as_str()));
    lines.push(labelled("持久化配置路径: ", plan.config_path.as_str()));
    assert(config::texts(lines@) == first_lines(*plan));
    LogAction::Finish { lines }
}

/// What is said of an action that fails.
fn failure_words(state: &LogState) -> (s: String)
    ensures
        s@ == failure_text(*state),
{
    match state {
        LogState::CreatingDir(plan) => labelled("创建日志目录失败: ", plan.log_dir.as_str()),
        LogState::BuildingRoller(_) => "创建日志滚动器失败".to_string(),
        LogState::BuildingAppender(_) => "创建日志追加器失败".to_string(),
        LogState::BuildingConfig(_) => "构建日志配置失败".to_string(),
        _ => "初始化日志系统失败".to_string(),
    }
}

/// The first state and the first action.
pub fn begin_log(plan: LogPlan) -> (r: (LogState, LogAction))
    ensures
        r.0 == LogState::Looking(plan),
        r.1@ == Action::Look,
{
    (LogState::Looking(plan), LogAction::Look)
}

/// What to do after an event.
pub fn init_log_with_path(state: LogState, event: LogEvent) -> (r: (LogState, LogAction))
    requires
        state.expects(event),
    ensures
        r.0 == next(state, event).0,
        r.1@ == next(state, event).1,
{
    let exists = match event {
        LogEvent::Done(Err(error)) => {
            let failure = LogAction::Fail(errors::error_in_context(error, failure_words(&state)));
            return (LogState::Ended, failure);
        },
        LogEvent::Done(Ok(_)) => true,
        LogEvent::Looked { exists } => exists,
    };
    match state {
        LogState::Looking(plan) => if exists {
            (LogState::BuildingRoller(plan), build_roller())
        } else {
            (LogState::CreatingDir(plan), LogAction::CreateDir)
        },
        LogState::CreatingDir(plan) => (LogState::BuildingRoller(plan), build_roller()),
        LogState::BuildingRoller(plan) => (LogState::BuildingAppender(plan), build_appender()),
        LogState::BuildingAppender(plan) => (
            LogState::BuildingConfig(plan),
            LogAction::BuildConfig { appender: "rolling_file".to_string() },
        ),
        LogState::BuildingConfig(plan) => (LogState::Installing(plan), LogAction::Install),
        LogState::Installing(plan) => {
            let action = finish(&plan);
            (LogState::Ended, action)
        },
        LogState::Ended => {
            // Nothing comes of an end.
            assert(false);
            (LogState::Ended, LogAction::Install)
        },
    }
}

/// Without failures the log is set up in this order. The directory is created exactly if it is
/// missing.
pub proof fn law_log_setup(plan: LogPlan, exists: bool)
    ensures
        ({
            let ok = LogEvent::Done(Ok(()));
            let s0 = next(LogState::Looking(plan), LogEvent::Looked { exists });
            let s1 = if exists {
                s0
            } else {
                next(s0.0, ok)
            };
            let s2 = next(s1.0, ok);
            let s3 = next(s2.0, ok);
            let s4 = next(s3.0, ok);
            let s5 = next(s4.0, ok);
            &&& s0.1 == Action::CreateDir <==> !exists
            &&& s1.1 == roller()
            &&& s2.1 == appender()
            &&& s3.1 == (Action::BuildConfig { appender: "rolling_file"@ })
            &&& s4.1 == Action::Install
            &&& s5 == (LogState::Ended, Action::Finish { lines: first_lines(plan) })
        }),
{
}

/// An action that fails ends the set-up with an error whose cause is that of the action.
pub proof fn law_log_failure_keeps_cause(state: LogState, error: anyhow::Error)
    requires
        state.expects(LogEvent::Done(Err(error))),
    ensures
        next(state, LogEvent::Done(Err(error))).0 == LogState::Ended,
        next(state, LogEvent::Done(Err(error))).1 matches Action::Fail(chain) && chain.len()
            == errors::error_chain(error).len() + 1 && chain[0] == failure_text(state) && chain.skip(1)
            == errors::error_chain(error),
{
    let chain = next(state, LogEvent::Done(Err(error))).1->Fail_0;
    assert(chain.skip(1) == errors::error_chain(error));
}

/// How many actions can still follow.
pub open spec fn remaining(state: LogState) -> nat {
    match state {
        LogState::Looking(_) => 6,
        LogState::CreatingDir(_) => 5,
        LogState::BuildingRoller(_) => 4,
        LogState::BuildingAppender(_) => 3,
        LogState::BuildingConfig(_) => 2,
        LogState::Installing(_) => 1,
        LogState::Ended => 0,
    }
}

/// The set-up comes to an end: with each event fewer actions can still follow, and none exactly when
/// it has finished or failed.
pub proof fn law_log_setup_ends(state: LogState, event: LogEvent)
    requires
        state.expects(event),
    ensures
        remaining(next(state, event).0) < remaining(state),
        next(state, event).0 == LogState::Ended <==> (next(state, event).1 is Finish || next(
            state,
            event,
        ).1 is Fail),
{
}

/// The value of an action tells all of its parts.
pub proof fn law_action_view(action: LogAction)
    ensures
        action is Look <==> action@ is Look,
        action is CreateDir <==> action@ is CreateDir,
        action is Install <==> action@ is Install,
        action matches LogAction::BuildRoller { pattern, count } ==> action@ == (
        Action::BuildRoller { pattern: pattern@, count }),
        action matches LogAction::BuildAppender { file, max_size, format } ==> action@ == (
        Action::BuildAppender { file: file@, max_size, format: format@ }),
        action matches LogAction::BuildConfig { appender } ==> action@ == (Action::BuildConfig {
            appender: appender@,
        }),
        action matches LogAction::Finish { lines } ==> action@ == (Action::Finish {
            lines: config::texts(lines@),
        }),
        action matches LogAction::Fail(error) ==> action@ == Action::Fail(
            errors::error_chain(error),
        ),
{
}

/// The log goes to files of ten megabytes, of which five old ones are kept, and starts with the
/// directory that it is in and the path of the configuration.
pub proof fn law_log_files(plan: LogPlan)
    ensures
        ({
            let ok = LogEvent::Done(Ok(()));
            let found = LogEvent::Looked { exists: true };
            &&& next(LogState::Looking(plan), found).1 == (Action::BuildRoller {
                pattern: "vnt-core.{}.log"@,
                count: 5,
            })
            &&& next(LogState::CreatingDir(plan), ok).1 == (Action::BuildRoller {
                pattern: "vnt-core.{}.log"@,
                count: 5,
            })
            &&& next(LogState::BuildingRoller(plan), ok).1 == (Action::BuildAppender {
                file: "vnt-core.log"@,
                max_size: 10_485_760,
                format: "{d(%Y-%m-%d %H:%M:%S%.3f)} [{f}:{L}] {h({l})} {M}:{m}{n}{n}"@,
            })
            &&& next(LogState::Installing(plan), ok).1 matches Action::Finish { lines } && {
                &&& lines.len() == 2
                &&& lines[0] == "日志系统初始化成功，日志目录: "@ + plan.log_dir@
                &&& lines[1] == "持久化配置路径: "@ + plan.config_path@
            }
        }),
{
}

/// What failed is said before the cause: the directory, with its name, the roller, the appender, the
/// configuration or the installation.
pub proof fn law_log_failures_are_named(plan: LogPlan, error: anyhow::Error)
    ensures
        ({
            let failed = LogEvent::Done(Err(error));
            let chain = errors::error_chain(error);
            &&& next(LogState::CreatingDir(plan), failed).1 == Action::Fail(
                seq!["创建日志目录失败: "@ + plan.log_dir@] + chain,
            )
            &&& next(LogState::BuildingRoller(plan), failed).1 == Action::Fail(
                seq!["创建日志滚动器失败"@] + chain,
            )
            &&& next(LogState::BuildingAppender(plan), failed).1 == Action::Fail(
                seq!["创建日志追加器失败"@] + chain,
            )
            &&& next(LogState::BuildingConfig(plan), failed).1 == Action::Fail(
                seq!["构建日志配置失败"@] + chain,
            )
            &&& next(LogState::Installing(plan), failed).1 == Action::Fail(
                seq!["初始化日志系统失败"@] + chain,
            )
        }),
{
}

} // verus!
