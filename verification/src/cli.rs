//! The command line: what its errors mean, and what its options change.

use vstd::prelude::*;
use crate::bilibili::{ParseError, ParsedVideo};
use crate::config::{Config, RuntimeDescription, resolves, runtime_in_use, str_view};
use crate::content_results::record::UtcTime;
use crate::content_results::target::ContentSetupV1;
use crate::funasr::{FunasrError, FunasrProblem, RuntimeBackend, funasr_text};
use crate::jobs::{
    Job, JobStatus, RetentionPolicy, RuntimeSource, SourceLanguage, Stage, TranscriptionSelection,
};
use crate::paths::{absolute, below, is_absolute, join_path};
use crate::text::{
    cat2, cat3, contains, copy_opt, dec, decimal, has, lists, opt_view, same, text, views,
};

verus! {

/// The version of what is printed for programs.
pub const CLI_SCHEMA_VERSION: u32 = 1;

pub const EXIT_INVALID_ARGUMENTS: u8 = 2;

pub const EXIT_RUNTIME: u8 = 3;

pub const EXIT_PIPELINE: u8 = 4;

pub const EXIT_ARTIFACT: u8 = 5;

// ---- What is printed for programs ----

/// An error as programs see it.
#[derive(Debug, PartialEq, Eq)]
pub struct CliError {
    pub code: String,
    pub message: String,
    pub action: Option<String>,
}

/// An error as programs see it, by value.
pub struct CliProblem {
    pub code: Seq<char>,
    pub message: Seq<char>,
    pub action: Option<Seq<char>>,
}

impl View for CliError {
    type V = CliProblem;

    open spec fn view(&self) -> CliProblem {
        CliProblem { code: self.code@, message: self.message@, action: opt_view(self.action) }
    }
}

/// One result: either data or an error.
#[derive(Debug, PartialEq, Eq)]
pub struct CliEnvelope<T> {
    pub schema_version: u32,
    pub ok: bool,
    pub data: Option<T>,
    pub error: Option<CliError>,
}

/// The envelope of a success.
pub fn success_envelope<T>(data: T) -> (r: CliEnvelope<T>)
    ensures
        r.schema_version == CLI_SCHEMA_VERSION,
        r.ok,
        r.data == Some(data),
        r.error is None,
{
    CliEnvelope { schema_version: CLI_SCHEMA_VERSION, ok: true, data: Some(data), error: None }
}

/// The envelope of a failure.
pub fn error_envelope(error: CliError) -> (r: CliEnvelope<()>)
    ensures
        r.schema_version == CLI_SCHEMA_VERSION,
        !r.ok,
        r.data is None,
        r.error == Some(error),
{
    CliEnvelope { schema_version: CLI_SCHEMA_VERSION, ok: false, data: None, error: Some(error) }
}

/// An error of a kind.
pub open spec fn problem(code: Seq<char>, message: Seq<char>, action: Option<Seq<char>>) -> CliProblem {
    CliProblem { code, message, action }
}

/// An error of a kind.
pub fn cli_error(code: &str, message: &str, action: Option<&str>) -> (r: CliError)
    ensures
        r@ == problem(code@, message@, str_view(action)),
{
    CliError {
        code: text(code),
        message: text(message),
        action: match action {
            Some(a) => Some(text(a)),
            None => None,
        },
    }
}

/// What a message means, by the words in it. Earlier rules go before later ones.
pub open spec fn meaning(m: Seq<char>) -> CliProblem {
    if has(m, "runtime-contract-upgrade-required"@) {
        problem("runtime-contract-upgrade-required"@, m, Some("升级 Runtime 到 contract v2"@))
    } else if has(m, "runtime-identity-changed"@) {
        problem("runtime-identity-changed"@, m, Some("重新查看 Runtime 状态并重建任务"@))
    } else if has(m, "runtime-not-ready"@) || has(m, "Runtime 尚未就绪"@) || has(m, "Runtime is not ready"@) {
        problem("runtime-not-ready"@, m, Some("运行 runtime install 或检查 Runtime 数据目录"@))
    } else if has(m, "no Runtime is configured"@) || has(m, "未配置 FunASR Runtime"@) || has(m, "no Runtime"@) {
        problem("runtime-not-configured"@, m, Some("传入 --runtime-project 或先在设置中配置 Runtime"@))
    } else if has(m, "requires an absolute path"@) || has(m, "不是有效目录"@) || has(m, "路径"@) {
        problem("invalid-path"@, m, Some("使用存在且为绝对路径的目录"@))
    } else if has(m, "final document is missing"@) || has(m, "without an output directory"@) {
        problem("artifact-failed"@, m, Some("检查输出目录后重试"@))
    } else {
        problem("internal-error"@, m, None)
    }
}

/// Reads what a message means.
pub fn cli_error_from_message(message: &str) -> (r: CliError)
    ensures
        r@ == meaning(message@),
{
    if contains(message, "runtime-contract-upgrade-required") {
        return cli_error(
            "runtime-contract-upgrade-required",
            message,
            Some("升级 Runtime 到 contract v2"),
        );
    }
    if contains(message, "runtime-identity-changed") {
        return cli_error(
            "runtime-identity-changed",
            message,
            Some("重新查看 Runtime 状态并重建任务"),
        );
    }
    if contains(message, "runtime-not-ready") || contains(message, "Runtime 尚未就绪") || contains(
        message,
        "Runtime is not ready",
    ) {
        return cli_error(
            "runtime-not-ready",
            message,
            Some("运行 runtime install 或检查 Runtime 数据目录"),
        );
    }
    if contains(message, "no Runtime is configured") || contains(message, "未配置 FunASR Runtime")
        || contains(message, "no Runtime") {
        return cli_error(
            "runtime-not-configured",
            message,
            Some("传入 --runtime-project 或先在设置中配置 Runtime"),
        );
    }
    if contains(message, "requires an absolute path") || contains(message, "不是有效目录") || contains(
        message,
        "路径",
    ) {
        return cli_error("invalid-path", message, Some("使用存在且为绝对路径的目录"));
    }
    if contains(message, "final document is missing") || contains(
        message,
        "without an output directory",
    ) {
        return cli_error("artifact-failed", message, Some("检查输出目录后重试"));
    }
    cli_error("internal-error", message, None)
}

/// What a problem with a runtime means.
pub open spec fn runtime_meaning(p: FunasrProblem) -> CliProblem {
    match p {
        FunasrProblem::ContractUpgradeRequired(_) => problem(
            "runtime-contract-upgrade-required"@,
            funasr_text(p),
            Some("升级 Runtime 到 contract v2"@),
        ),
        FunasrProblem::NotReady => problem(
            "runtime-not-ready"@,
            funasr_text(p),
            Some("运行 runtime install 或检查 Runtime 数据目录"@),
        ),
        FunasrProblem::IdentityChanged => problem(
            "runtime-identity-changed"@,
            funasr_text(p),
            Some("重新查看 Runtime 状态并重建任务"@),
        ),
        FunasrProblem::DockerUnavailable => problem(
            "runtime-not-ready"@,
            funasr_text(p),
            Some("启动 Docker Desktop 后重试"@),
        ),
        FunasrProblem::Validation(m) => meaning(m),
        FunasrProblem::Parse(_) => problem(
            "invalid-evidence"@,
            funasr_text(p),
            Some("检查 Runtime normalized 输出"@),
        ),
        _ => problem("runtime-failed"@, funasr_text(p), Some("检查 Runtime 日志后重试"@)),
    }
}

/// Reads what a problem with a runtime means.
pub fn cli_error_from_funasr(error: &FunasrError) -> (r: CliError)
    ensures
        r@ == runtime_meaning(error@),
{
    let words = error.describe();
    let message = words.as_str();
    match error {
        FunasrError::ContractUpgradeRequired(_) => cli_error(
            "runtime-contract-upgrade-required",
            message,
            Some("升级 Runtime 到 contract v2"),
        ),
        FunasrError::NotReady => cli_error(
            "runtime-not-ready",
            message,
            Some("运行 runtime install 或检查 Runtime 数据目录"),
        ),
        FunasrError::IdentityChanged => cli_error(
            "runtime-identity-changed",
            message,
            Some("重新查看 Runtime 状态并重建任务"),
        ),
        FunasrError::DockerUnavailable => cli_error(
            "runtime-not-ready",
            message,
            Some("启动 Docker Desktop 后重试"),
        ),
        FunasrError::Validation(m) => cli_error_from_message(m.as_str()),
        FunasrError::Parse(_) => cli_error(
            "invalid-evidence",
            message,
            Some("检查 Runtime normalized 输出"),
        ),
        _ => cli_error("runtime-failed", message, Some("检查 Runtime 日志后重试")),
    }
}

/// How a job can fail on its way, with the failure in words.
#[derive(Debug)]
pub enum PipelineFailure {
    DockerNotRunning(String),
    DriveNotMounted(String),
    TranscriptionSelectionRequired(String),
    /// What the runtime said.
    Funasr(String),
    /// What went wrong with the document.
    Document(String),
    Cancelled(String),
    Other(String),
}

/// What a failure of a job means.
pub open spec fn pipeline_meaning(f: PipelineFailure) -> CliProblem {
    match f {
        PipelineFailure::DockerNotRunning(m) => problem(
            "runtime-not-ready"@,
            m@,
            Some("启动 Docker Desktop 后重试"@),
        ),
        PipelineFailure::DriveNotMounted(m) => problem(
            "external-drive-not-mounted"@,
            m@,
            Some("连接保存任务的外置盘后重试"@),
        ),
        PipelineFailure::TranscriptionSelectionRequired(m) => problem(
            "legacy-job-rebuild-required"@,
            m@,
            Some("使用新 Runtime 与语言设置重建任务"@),
        ),
        PipelineFailure::Funasr(m) => meaning(m@),
        PipelineFailure::Document(m) => problem("artifact-failed"@, m@, Some("检查输出目录后重试"@)),
        PipelineFailure::Cancelled(m) => problem("cancelled"@, m@, None),
        PipelineFailure::Other(m) => problem("pipeline-failed"@, m@, Some("检查 error.message 后重试"@)),
    }
}

/// Reads what a failure of a job means.
pub fn cli_error_from_pipeline(failure: &PipelineFailure) -> (r: CliError)
    ensures
        r@ == pipeline_meaning(*failure),
{
    match failure {
        PipelineFailure::DockerNotRunning(m) => cli_error(
            "runtime-not-ready",
            m.as_str(),
            Some("启动 Docker Desktop 后重试"),
        ),
        PipelineFailure::DriveNotMounted(m) => cli_error(
            "external-drive-not-mounted",
            m.as_str(),
            Some("连接保存任务的外置盘后重试"),
        ),
        PipelineFailure::TranscriptionSelectionRequired(m) => cli_error(
            "legacy-job-rebuild-required",
            m.as_str(),
            Some("使用新 Runtime 与语言设置重建任务"),
        ),
        PipelineFailure::Funasr(m) => cli_error_from_message(m.as_str()),
        PipelineFailure::Document(m) => cli_error(
            "artifact-failed",
            m.as_str(),
            Some("检查输出目录后重试"),
        ),
        PipelineFailure::Cancelled(m) => cli_error("cancelled", m.as_str(), None),
        PipelineFailure::Other(m) => cli_error(
            "pipeline-failed",
            m.as_str(),
            Some("检查 error.message 后重试"),
        ),
    }
}

/// Why a command failed.
#[derive(Debug)]
pub enum CommandFailure {
    Input(ParseError),
    Runtime(FunasrError),
    Pipeline(PipelineFailure),
    Message(String),
}

/// An address that names no video, in words.
pub open spec fn input_text(e: ParseError) -> Seq<char> {
    match e {
        ParseError::Empty => "empty input"@,
        ParseError::Unrecognized(s) => "not a recognizable Bilibili URL or BV id: "@ + s@,
    }
}

/// What the failure of a command means.
pub open spec fn failure_meaning(f: CommandFailure) -> CliProblem {
    match f {
        CommandFailure::Input(e) => problem(
            "invalid-input"@,
            input_text(e),
            Some("提供 Bilibili URL、BV 或 AV 标识"@),
        ),
        CommandFailure::Runtime(e) => runtime_meaning(e@),
        CommandFailure::Pipeline(p) => pipeline_meaning(p),
        CommandFailure::Message(m) => meaning(m@),
    }
}

/// Reads what the failure of a command means.
pub fn cli_error_from_failure(failure: &CommandFailure) -> (r: CliError)
    ensures
        r@ == failure_meaning(*failure),
{
    match failure {
        CommandFailure::Input(e) => cli_error(
            "invalid-input",
            e.describe().as_str(),
            Some("提供 Bilibili URL、BV 或 AV 标识"),
        ),
        CommandFailure::Runtime(e) => cli_error_from_funasr(e),
        CommandFailure::Pipeline(p) => cli_error_from_pipeline(p),
        CommandFailure::Message(m) => cli_error_from_message(m.as_str()),
    }
}

/// The exit code of an error.
pub open spec fn exit_of(code: Seq<char>) -> u8 {
    if code == "invalid-arguments"@ || code == "invalid-input"@ || code == "invalid-path"@ {
        EXIT_INVALID_ARGUMENTS
    } else if code == "runtime-not-configured"@ || code == "runtime-not-ready"@ || code
        == "runtime-contract-upgrade-required"@ || code == "runtime-identity-changed"@ || code
        == "runtime-failed"@ || code == "external-drive-not-mounted"@ || code
        == "legacy-job-rebuild-required"@ {
        EXIT_RUNTIME
    } else if code == "artifact-failed"@ || code == "invalid-evidence"@ {
        EXIT_ARTIFACT
    } else if code == "pipeline-failed"@ || code == "cancelled"@ {
        EXIT_PIPELINE
    } else {
        1
    }
}

/// The exit code of an error.
pub fn exit_code_for(error: &CliError) -> (r: u8)
    ensures
        r == exit_of(error.code@),
{
    let code = error.code.as_str();
    if same(code, "invalid-arguments") || same(code, "invalid-input") || same(code, "invalid-path") {
        EXIT_INVALID_ARGUMENTS
    } else if same(code, "runtime-not-configured") || same(code, "runtime-not-ready") || same(
        code,
        "runtime-contract-upgrade-required",
    ) || same(code, "runtime-identity-changed") || same(code, "runtime-failed") || same(
        code,
        "external-drive-not-mounted",
    ) || same(code, "legacy-job-rebuild-required") {
        EXIT_RUNTIME
    } else if same(code, "artifact-failed") || same(code, "invalid-evidence") {
        EXIT_ARTIFACT
    } else if same(code, "pipeline-failed") || same(code, "cancelled") {
        EXIT_PIPELINE
    } else {
        1
    }
}

/// A command that failed never ends with the exit code of a success.
pub proof fn a_failure_has_an_exit_code(f: CommandFailure)
    ensures
        1 <= exit_of(failure_meaning(f).code) <= 5,
{
}

/// The error of arguments that could not be read.
pub fn invalid_arguments(message: &str) -> (r: CliError)
    ensures
        r@ == problem("invalid-arguments"@, message@, Some("检查 --help 中的参数格式"@)),
        exit_of(r.code@) == EXIT_INVALID_ARGUMENTS,
{
    cli_error("invalid-arguments", message, Some("检查 --help 中的参数格式"))
}

/// Whether the arguments ask for a result for programs.
pub fn args_request_json(args: &Vec<String>) -> (b: bool)
    ensures
        b == views(args@).contains("--json"@),
{
    lists(args, "--json")
}

// ---- Options ----

/// The retention policy of a run: the one asked for, or the one in the settings.
pub fn retention_for(asked: Option<RetentionPolicy>, config: &Config) -> (r: RetentionPolicy)
    ensures
        r == (match asked {
            Some(p) => p,
            None => config.default_retention,
        }),
{
    match asked {
        Some(p) => p,
        None => config.default_retention,
    }
}

/// What is said of a path that does not begin at the root.
pub open spec fn not_absolute(path: Seq<char>, option: Seq<char>) -> Seq<char> {
    option + " requires an absolute path: "@ + path
}

/// Accepts a path that begins at the root.
pub fn require_absolute(path: &str, option: &str) -> (r: Result<String, String>)
    ensures
        match r {
            Ok(p) => absolute(path@) && p@ == path@,
            Err(e) => !absolute(path@) && e@ == not_absolute(path@, option@),
        },
{
    if !is_absolute(path) {
        return Err(cat3(option, " requires an absolute path: ", path));
    }
    Ok(text(path))
}

/// The options that change where a runtime is.
#[derive(Debug)]
pub struct RuntimePathArgs {
    pub runtime_project: Option<String>,
    pub runtime_data_dir: Option<String>,
}

/// The options that change where things are.
#[derive(Debug)]
pub struct PathOverrides {
    pub work_dir: Option<String>,
    pub output_dir: Option<String>,
    pub runtime: RuntimePathArgs,
}

/// What is wrong with an optional path.
pub open spec fn path_problem(path: Option<String>, option: Seq<char>) -> Option<Seq<char>> {
    match path {
        Some(p) if !absolute(p@) => Some(not_absolute(p@, option)),
        _ => None,
    }
}

/// What is wrong with the options of a runtime.
pub open spec fn runtime_options_problem(o: RuntimePathArgs, release_check: bool, is_dir: bool) -> Option<Seq<char>> {
    if release_check && o.runtime_project is Some {
        Some("--release-check-root requires the bundled Runtime; --runtime-project is forbidden"@)
    } else if path_problem(o.runtime_project, "--runtime-project"@) is Some {
        path_problem(o.runtime_project, "--runtime-project"@)
    } else if o.runtime_project is Some && !is_dir {
        Some("--runtime-project is not a directory: "@ + (o.runtime_project->0)@)
    } else {
        path_problem(o.runtime_data_dir, "--runtime-data-dir"@)
    }
}

/// A path that was given, or the one in the settings.
pub open spec fn given_or(o: Option<String>, kept: Seq<char>) -> Seq<char> {
    match o {
        Some(p) => p@,
        None => kept,
    }
}

/// A path where it was given and begins at the root, and else the one in the settings.
pub open spec fn accepted_or(o: Option<String>, kept: Seq<char>) -> Seq<char> {
    match o {
        Some(p) if absolute(p@) => p@,
        _ => kept,
    }
}

/// The project that the options leave behind where a later one was refused: the given one, if it
/// was accepted, and else the one in the settings.
pub open spec fn accepted_project(
    o: RuntimePathArgs,
    release_check: bool,
    is_dir: bool,
    kept: Option<String>,
) -> Option<Seq<char>> {
    match o.runtime_project {
        Some(p) if !release_check && absolute(p@) && is_dir => Some(p@),
        _ => opt_view(kept),
    }
}

/// Changes where the runtime of a run is, given whether the project is a directory.
pub fn apply_runtime_overrides(
    config: &mut Config,
    o: &RuntimePathArgs,
    release_check: bool,
    is_dir: bool,
) -> (r: Result<(), String>)
    ensures
        match r {
            Ok(_) => {
                &&& runtime_options_problem(*o, release_check, is_dir) is None
                &&& *final(config) == (Config {
                    runtime_project: final(config).runtime_project,
                    runtime_data_dir: final(config).runtime_data_dir,
                    ..*old(config)
                })
                &&& opt_view(final(config).runtime_project) == (match o.runtime_project {
                    Some(p) => Some(p@),
                    None => opt_view(old(config).runtime_project),
                })
                &&& final(config).runtime_data_dir@ == given_or(
                    o.runtime_data_dir,
                    old(config).runtime_data_dir@,
                )
            },
            Err(e) => {
                &&& runtime_options_problem(*o, release_check, is_dir) == Some(e@)
                &&& *final(config) == (Config { runtime_project: final(config).runtime_project, ..*old(config) })
                &&& opt_view(final(config).runtime_project) == accepted_project(
                    *o,
                    release_check,
                    is_dir,
                    old(config).runtime_project,
                )
            },
        },
{
    if release_check && o.runtime_project.is_some() {
        return Err(
            text("--release-check-root requires the bundled Runtime; --runtime-project is forbidden"),
        );
    }
    if let Some(path) = &o.runtime_project {
        let path = match require_absolute(path.as_str(), "--runtime-project") {
            Ok(p) => p,
            Err(e) => {
                return Err(e);
            },
        };
        if !is_dir {
            return Err(cat2("--runtime-project is not a directory: ", path.as_str()));
        }
        config.runtime_project = Some(path);
    }
    if let Some(path) = &o.runtime_data_dir {
        match require_absolute(path.as_str(), "--runtime-data-dir") {
            Ok(p) => config.runtime_data_dir = p,
            Err(e) => {
                return Err(e);
            },
        }
    }
    Ok(())
}

/// What is wrong with the options of a run.
pub open spec fn options_problem(o: PathOverrides, release_check: bool, is_dir: bool) -> Option<Seq<char>> {
    if path_problem(o.work_dir, "--work-dir"@) is Some {
        path_problem(o.work_dir, "--work-dir"@)
    } else if path_problem(o.output_dir, "--output-dir"@) is Some {
        path_problem(o.output_dir, "--output-dir"@)
    } else {
        runtime_options_problem(o.runtime, release_check, is_dir)
    }
}

/// Changes where the things of a run are.
pub fn apply_path_overrides(
    config: &mut Config,
    o: &PathOverrides,
    release_check: bool,
    is_dir: bool,
) -> (r: Result<(), String>)
    ensures
        match r {
            Ok(_) => {
                &&& options_problem(*o, release_check, is_dir) is None
                &&& *final(config) == (Config {
                    working_dir: final(config).working_dir,
                    output_dir: final(config).output_dir,
                    runtime_project: final(config).runtime_project,
                    runtime_data_dir: final(config).runtime_data_dir,
                    ..*old(config)
                })
                &&& final(config).working_dir@ == given_or(o.work_dir, old(config).working_dir@)
                &&& final(config).output_dir@ == given_or(o.output_dir, old(config).output_dir@)
                &&& opt_view(final(config).runtime_project) == (match o.runtime.runtime_project {
                    Some(p) => Some(p@),
                    None => opt_view(old(config).runtime_project),
                })
                &&& final(config).runtime_data_dir@ == given_or(
                    o.runtime.runtime_data_dir,
                    old(config).runtime_data_dir@,
                )
            },
            Err(e) => {
                &&& options_problem(*o, release_check, is_dir) == Some(e@)
                &&& *final(config) == (Config {
                    working_dir: final(config).working_dir,
                    output_dir: final(config).output_dir,
                    runtime_project: final(config).runtime_project,
                    ..*old(config)
                })
                &&& final(config).working_dir@ == accepted_or(o.work_dir, old(config).working_dir@)
                &&& final(config).output_dir@ == (if path_problem(o.work_dir, "--work-dir"@) is None {
                    accepted_or(o.output_dir, old(config).output_dir@)
                } else {
                    old(config).output_dir@
                })
                &&& opt_view(final(config).runtime_project) == (if path_problem(o.work_dir, "--work-dir"@) is None
                    && path_problem(o.output_dir, "--output-dir"@) is None {
                    accepted_project(o.runtime, release_check, is_dir, old(config).runtime_project)
                } else {
                    opt_view(old(config).runtime_project)
                })
            },
        },
{
    if let Some(path) = &o.work_dir {
        match require_absolute(path.as_str(), "--work-dir") {
            Ok(p) => config.working_dir = p,
            Err(e) => {
                return Err(e);
            },
        }
    }
    if let Some(path) = &o.output_dir {
        match require_absolute(path.as_str(), "--output-dir") {
            Ok(p) => config.output_dir = p,
            Err(e) => {
                return Err(e);
            },
        }
    }
    apply_runtime_overrides(config, &o.runtime, release_check, is_dir)
}

/// The runtime of a command, which has to have one.
pub fn require_runtime_project(config: &Config, bundled: Option<&str>) -> (r: Result<String, String>)
    ensures
        match r {
            Ok(p) => runtime_in_use(config.runtime_project, str_view(bundled)) == Some(p@),
            Err(e) => runtime_in_use(config.runtime_project, str_view(bundled)) is None && e@
                == "no Runtime is configured or bundled; pass --runtime-project or configure it in the app"@,
        },
{
    match config.effective_runtime_project(bundled) {
        Some(p) => Ok(p),
        None => Err(
            text("no Runtime is configured or bundled; pass --runtime-project or configure it in the app"),
        ),
    }
}

/// The root and the token of a release check, where one is asked for.
pub fn release_check(root: Option<&str>, token: Option<&str>) -> (r: Result<Option<(String, String)>, String>)
    ensures
        match root {
            None => r == Ok::<Option<(String, String)>, String>(None),
            Some(path) => match token {
                None => r matches Err(e) && e@ == "--release-check-root requires --release-check-token"@,
                Some(t) => if absolute(path@) {
                    r matches Ok(Some(both)) && both.0@ == path@ && both.1@ == t@
                } else {
                    r matches Err(e) && e@ == not_absolute(path@, "--release-check-root"@)
                },
            },
        },
{
    let path = match root {
        Some(path) => path,
        None => {
            return Ok(None);
        },
    };
    match token {
        None => Err(text("--release-check-root requires --release-check-token")),
        Some(t) => match require_absolute(path, "--release-check-root") {
            Ok(p) => Ok(Some((p, text(t)))),
            Err(e) => Err(e),
        },
    }
}

/// What is said where the lock of the program cannot be taken.
pub fn lock_refusal(held: bool, error: &str) -> (r: String)
    ensures
        r@ == (if held {
            "BiMyScribe is already running; quit the app or wait for the other CLI command"@
        } else {
            error@
        }),
{
    if held {
        text("BiMyScribe is already running; quit the app or wait for the other CLI command")
    } else {
        text(error)
    }
}

// ---- A transcription ----

/// Leaves the model out of a run where that is asked for.
pub fn apply_no_llm(config: &mut Config, no_llm: bool)
    ensures
        *final(config) == (Config { llm_enabled: old(config).llm_enabled && !no_llm, ..*old(config) }),
{
    if no_llm {
        config.llm_enabled = false;
    }
}

/// The job of a command: queued, and frozen with its selection, its retention and its setup. An
/// address that names no part means the first.
pub open spec fn commanded(
    j: Job,
    id: u128,
    video: ParsedVideo,
    selection: TranscriptionSelection,
    retention: RetentionPolicy,
    setup: ContentSetupV1,
    input: Seq<char>,
) -> bool {
    &&& j.id == id && j.bvid@ == video.bvid@ && j.title@ == video.bvid@
    &&& j.page == (match video.page {
        Some(p) => p,
        None => 1,
    })
    &&& opt_view(j.source_url) == Some(input)
    &&& j.untouched()
    &&& j.transcription_selection == Some(selection)
    &&& j.retention == retention
    &&& j.content_setup == Some(setup)
}

/// The job of a command.
pub fn new_cli_job(
    id: u128,
    video: ParsedVideo,
    selection: TranscriptionSelection,
    retention: Option<RetentionPolicy>,
    config: &Config,
    input: &str,
) -> (j: Job)
    ensures
        exists|setup: ContentSetupV1| #[trigger]
            resolves(*config, setup) && commanded(
                j,
                id,
                video,
                selection,
                match retention {
                    Some(p) => p,
                    None => config.default_retention,
                },
                setup,
                input@,
            ),
{
    let page: u32 = match video.page {
        Some(p) => p,
        None => 1,
    };
    let setup = config.content_setup();
    let mut job = Job::new(id, video.bvid, page);
    job.transcription_selection = Some(selection);
    job.retention = retention_for(retention, config);
    job.content_setup = Some(setup);
    job.source_url = Some(text(input));
    job
}

/// A job that begins to run.
pub fn mark_running(job: &mut Job, now: UtcTime)
    ensures
        *final(job) == (Job { status: JobStatus::Running, started_at: Some(now), ..*old(job) }),
{
    job.status = JobStatus::Running;
    job.started_at = Some(now);
}

/// A job that has ended, well or with an error.
pub fn mark_finished(job: &mut Job, error: Option<String>, now: UtcTime)
    ensures
        *final(job) == (match error {
            None => Job {
                status: JobStatus::Completed,
                stage: Stage::Completed,
                stage_progress: 100,
                finished_at: Some(now),
                ..*old(job)
            },
            Some(e) => Job {
                status: JobStatus::Failed,
                error: Some(e),
                finished_at: Some(now),
                ..*old(job)
            },
        }),
{
    job.finished_at = Some(now);
    match error {
        None => {
            job.status = JobStatus::Completed;
            job.stage = Stage::Completed;
            job.stage_progress = 100;
        },
        Some(e) => {
            job.status = JobStatus::Failed;
            job.error = Some(e);
        },
    }
}

/// The job at `i` is the first with an identifier.
pub open spec fn first_with(jobs: Seq<Job>, id: u128, i: int) -> bool {
    0 <= i < jobs.len() && jobs[i].id == id && forall|j: int| 0 <= j < i ==> (#[trigger] jobs[j]).id != id
}

/// Puts the new state of a job in the place of the old one.
pub fn replace_queued_job(jobs: &mut Vec<Job>, job: Job) -> (r: Result<(), String>)
    ensures
        match r {
            Ok(_) => exists|i: int| #[trigger]
                first_with(old(jobs)@, job.id, i) && final(jobs)@ == old(jobs)@.update(i, job),
            Err(e) => final(jobs)@ == old(jobs)@ && e@ == "CLI job disappeared from the queue"@ && (forall|
                j: int,
            |
                0 <= j < old(jobs)@.len() ==> (#[trigger] old(jobs)@[j]).id != job.id),
        },
{
    let mut i: usize = 0;
    while i < jobs.len()
        invariant
            i <= jobs@.len(),
            jobs@ == old(jobs)@,
            forall|j: int| 0 <= j < i ==> (#[trigger] jobs@[j]).id != job.id,
        decreases jobs@.len() - i,
    {
        if jobs[i].id == job.id {
            assert(first_with(old(jobs)@, job.id, i as int));
            jobs[i] = job;
            return Ok(());
        }
        i += 1;
    }
    Err(text("CLI job disappeared from the queue"))
}

/// The place of a job's final document.
pub fn document_place(job: &Job) -> (r: Result<String, String>)
    ensures
        match r {
            Ok(p) => job.final_output_dir matches Some(d) && p@ == below(d@, "full.md"@),
            Err(e) => job.final_output_dir is None && e@
                == "pipeline completed without an output directory"@,
        },
{
    match &job.final_output_dir {
        Some(d) => Ok(join_path(d.as_str(), "full.md")),
        None => Err(text("pipeline completed without an output directory")),
    }
}

/// Accepts a job's final document, given whether it is there.
pub fn final_document(job: &Job, is_file: bool) -> (r: Result<String, String>)
    ensures
        match r {
            Ok(p) => is_file && (job.final_output_dir matches Some(d) && p@ == below(d@, "full.md"@)),
            Err(e) => match job.final_output_dir {
                None => e@ == "pipeline completed without an output directory"@,
                Some(d) => !is_file && e@ == "pipeline completed but the final document is missing: "@ + below(
                    d@,
                    "full.md"@,
                ),
            },
        },
{
    match document_place(job) {
        Err(e) => Err(e),
        Ok(p) => {
            if !is_file {
                return Err(
                    cat2("pipeline completed but the final document is missing: ", p.as_str()),
                );
            }
            Ok(p)
        },
    }
}

/// What is printed of a job that is done.
#[derive(Debug)]
pub struct TranscriptionOutput {
    pub job_id: u128,
    pub bvid: String,
    pub page: u32,
    pub document: String,
    pub work_dir: Option<String>,
    pub runtime_identity: String,
    pub runtime_source: RuntimeSource,
    pub runtime_backend: RuntimeBackend,
    pub model_description: Option<String>,
    pub requested_language: SourceLanguage,
    pub reported_language: Option<SourceLanguage>,
    pub reported_model: Option<String>,
    pub reported_runtime_identity: Option<String>,
}

/// What is printed of a job that is done: what was asked for, and what the runtime reported.
pub fn transcription_output(job: &Job, document: &str) -> (r: Result<TranscriptionOutput, String>)
    ensures
        match r {
            Ok(o) => job.transcription_selection matches Some(s) && {
                &&& o.job_id == job.id
                &&& o.bvid@ == job.bvid@
                &&& o.page == job.page
                &&& o.document@ == document@
                &&& opt_view(o.work_dir) == opt_view(job.work_dir)
                &&& o.runtime_identity@ == s.runtime_identity@
                &&& o.runtime_source == s.runtime_source
                &&& o.runtime_backend == s.runtime_backend
                &&& opt_view(o.model_description) == opt_view(s.model_description)
                &&& o.requested_language == s.requested_language
                &&& match job.transcription_result {
                    Some(x) => o.reported_language == x.reported_language && opt_view(o.reported_model)
                        == opt_view(x.reported_model) && opt_view(o.reported_runtime_identity) == opt_view(
                        x.reported_runtime_identity,
                    ),
                    None => o.reported_language is None && o.reported_model is None
                        && o.reported_runtime_identity is None,
                }
            },
            Err(e) => job.transcription_selection is None && e@
                == "completed CLI Job has no transcription selection"@,
        },
{
    let s = match &job.transcription_selection {
        Some(s) => s,
        None => {
            return Err(text("completed CLI Job has no transcription selection"));
        },
    };
    let (language, model, identity) = match &job.transcription_result {
        Some(x) => (
            x.reported_language,
            copy_opt(&x.reported_model),
            copy_opt(&x.reported_runtime_identity),
        ),
        None => (None, None, None),
    };
    Ok(
        TranscriptionOutput {
            job_id: job.id,
            bvid: job.bvid.clone(),
            page: job.page,
            document: text(document),
            work_dir: copy_opt(&job.work_dir),
            runtime_identity: s.runtime_identity.clone(),
            runtime_source: s.runtime_source,
            runtime_backend: s.runtime_backend,
            model_description: copy_opt(&s.model_description),
            requested_language: s.requested_language,
            reported_language: language,
            reported_model: model,
            reported_runtime_identity: identity,
        },
    )
}

// ---- The state of a runtime ----

/// The state of a runtime in lines for people.
pub open spec fn status_lines(d: RuntimeDescription) -> Seq<Seq<char>> {
    seq![
        "source: "@ + d.source.wire_text(),
        "backend: "@ + d.backend.wire_text(),
        "contract: v"@ + dec(d.contract_version as nat),
        "project: "@ + d.project@,
        "data: "@ + d.data_dir@,
        "identity: "@ + d.identity@,
        "status: "@ + if d.ready {
            "ready"@
        } else {
            "not-ready"@
        },
    ]
}

/// The state of a runtime in lines for people.
pub fn runtime_status_lines(d: &RuntimeDescription) -> (r: Vec<String>)
    ensures
        views(r@) == status_lines(*d),
{
    let r = vec![
        cat2("source: ", d.source.as_str()),
        cat2("backend: ", d.backend.as_str()),
        cat2("contract: v", decimal(d.contract_version as u64).as_str()),
        cat2("project: ", d.project.as_str()),
        cat2("data: ", d.data_dir.as_str()),
        cat2("identity: ", d.identity.as_str()),
        cat2(
            "status: ",
            if d.ready {
                "ready"
            } else {
                "not-ready"
            },
        ),
    ];
    assert(views(r@) =~= status_lines(*d));
    r
}

/// The exit code of a question for the state of a runtime.
pub fn runtime_status_exit(ready: bool) -> (r: u8)
    ensures
        r == (if ready {
            0
        } else {
            EXIT_RUNTIME
        }),
{
    if ready {
        0
    } else {
        EXIT_RUNTIME
    }
}

/// A failure keeps its words, and every kind of failure has its own exit code: 2 for what was
/// entered, 3 for the runtime, 4 for the pipeline, 5 for what came out.
pub proof fn a_failure_keeps_its_words(m: Seq<char>, p: FunasrProblem)
    ensures
        meaning(m).message == m,
        p !is Validation ==> runtime_meaning(p).message == funasr_text(p),
        p is NotReady || p is ContractUpgradeRequired || p is IdentityChanged || p is DockerUnavailable || p is Process
            || p is Io || p is Read || p is Docker || p is Manifest || p is Cancelled ==> exit_of(
            runtime_meaning(p).code,
        ) == 3,
        p is Parse ==> exit_of(runtime_meaning(p).code) == 5,
        has(m, "runtime-not-ready"@) ==> exit_of(meaning(m).code) == 3,
        has(m, "runtime-identity-changed"@) ==> exit_of(meaning(m).code) == 3,
        has(m, "runtime-contract-upgrade-required"@) ==> exit_of(meaning(m).code) == 3 && meaning(m).code
            == "runtime-contract-upgrade-required"@,
{
    reveal_strlit("invalid-arguments");
    reveal_strlit("invalid-input");
    reveal_strlit("invalid-path");
    reveal_strlit("invalid-evidence");
    reveal_strlit("runtime-not-configured");
    reveal_strlit("runtime-not-ready");
    reveal_strlit("runtime-contract-upgrade-required");
    reveal_strlit("runtime-identity-changed");
    reveal_strlit("runtime-failed");
    reveal_strlit("external-drive-not-mounted");
    reveal_strlit("legacy-job-rebuild-required");
    reveal_strlit("artifact-failed");
    let r = "runtime-not-ready"@;
    assert(r[0] == 'r' && "invalid-arguments"@[0] == 'i' && "invalid-input"@[0] == 'i' && "invalid-path"@[0] == 'i');
    assert("runtime-contract-upgrade-required"@[0] == 'r' && "runtime-identity-changed"@[0] == 'r'
        && "runtime-failed"@[0] == 'r');
    let e = "invalid-evidence"@;
    assert(e[8] == 'e' && "invalid-arguments"@[8] == 'a' && "invalid-input"@[8] == 'i' && "invalid-path"@[8] == 'p');
    assert(e[0] == 'i' && "runtime-not-configured"@[0] == 'r' && "external-drive-not-mounted"@[0] == 'e'
        && "legacy-job-rebuild-required"@[0] == 'l' && "artifact-failed"@[0] == 'a');
}

/// Paths are taken as they are given where every one of them begins at the root; else what is said
/// names the path that does not.
pub proof fn only_paths_from_the_root_are_taken(o: PathOverrides, release_check: bool, is_dir: bool)
    ensures
        options_problem(o, release_check, is_dir) is None ==> {
            &&& o.work_dir matches Some(p) ==> p@.len() > 0 && p@[0] == '/'
            &&& o.output_dir matches Some(p) ==> p@.len() > 0 && p@[0] == '/'
            &&& o.runtime.runtime_project matches Some(p) ==> p@.len() > 0 && p@[0] == '/' && is_dir && !release_check
            &&& o.runtime.runtime_data_dir matches Some(p) ==> p@.len() > 0 && p@[0] == '/'
        },
        o.work_dir is None && o.output_dir is None && o.runtime.runtime_project is None
            && o.runtime.runtime_data_dir is None ==> options_problem(o, release_check, is_dir) is None,
        o.work_dir matches Some(p) ==> !(p@.len() > 0 && p@[0] == '/') ==> {
            &&& options_problem(o, release_check, is_dir) is Some
            &&& p@.is_suffix_of(options_problem(o, release_check, is_dir)->0)
            &&& "--work-dir"@.is_prefix_of(options_problem(o, release_check, is_dir)->0)
        },
{
}

/// The state of a runtime is told line by line, each fact at the end of its line.
pub proof fn every_fact_of_a_runtime_is_told(d: RuntimeDescription)
    ensures
        status_lines(d).len() == 7,
        d.project@.is_suffix_of(status_lines(d)[3]),
        d.data_dir@.is_suffix_of(status_lines(d)[4]),
        d.identity@.is_suffix_of(status_lines(d)[5]),
        dec(d.contract_version as nat).is_suffix_of(status_lines(d)[2]),
        d.ready ==> status_lines(d)[6] == "status: ready"@,
        !d.ready ==> status_lines(d)[6] == "status: not-ready"@,
{
    reveal_strlit("status: ");
    reveal_strlit("ready");
    reveal_strlit("not-ready");
    reveal_strlit("status: ready");
    reveal_strlit("status: not-ready");
    assert("status: "@ + "ready"@ =~= "status: ready"@);
    assert("status: "@ + "not-ready"@ =~= "status: not-ready"@);
}

/// A runtime from the command line takes the place of the kept one where it is a directory that is
/// named from the root and another runtime is not forbidden; else the kept one stays.
pub proof fn a_named_runtime_takes_the_place_of_the_kept_one(
    o: RuntimePathArgs,
    release_check: bool,
    is_dir: bool,
    kept: Option<String>,
    p: String,
)
    requires
        o.runtime_project == Some(p),
    ensures
        !release_check && is_dir && p@.len() > 0 && p@[0] == '/' ==> accepted_project(o, release_check, is_dir, kept)
            == Some(p@),
        release_check || !is_dir || p@.len() == 0 || p@[0] != '/' ==> accepted_project(o, release_check, is_dir, kept)
            == opt_view(kept),
{
}

} // verus!
