//! Speech recognition: the transcript and the runtime that makes it.

use vstd::prelude::*;
use crate::ids::{hyphenated, id_text};
use crate::paths::{absolute, below, is_absolute, is_leaving, join_path, leaves};
use crate::text::{
    cat2, cat3, cat4, chars_of, dec, decimal, decimal_padded, find_from, lists, own_texts, opt_view,
    padded, padded_decimals_differ, padded_reads_back, same, signed_dec, signed_decimal, text,
    text_of, trim, trimmed, value, views, views_push,
};

verus! {

/// The name of a runtime's manifest.
pub const RUNTIME_MANIFEST: &'static str = "bimyscribe-runtime.toml";

/// The contract that a runtime has to speak for a new job.
pub const SUPPORTED_CONTRACT_VERSION: u32 = 2;

/// The oldest contract that can be read.
pub const OLDEST_CONTRACT_VERSION: u32 = 1;

/// The schema of a runtime's output.
pub const SUPPORTED_SCHEMA_VERSION: u32 = 1;

/// One recognised segment of speech.
#[derive(Debug, PartialEq, Eq)]
pub struct Utterance {
    pub id: String,
    pub text: String,
    pub start_ms: u64,
    pub end_ms: u64,
    pub speaker_id: u32,
}

impl Clone for Utterance {
    fn clone(&self) -> (r: Self)
        ensures
            r == *self,
    {
        Utterance {
            id: self.id.clone(),
            text: self.text.clone(),
            start_ms: self.start_ms,
            end_ms: self.end_ms,
            speaker_id: self.speaker_id,
        }
    }
}

/// How a runtime is started.
#[derive(Debug, Clone, Copy, PartialEq, Eq, Structural)]
pub enum RuntimeBackend {
    NativeUv,
    DockerCompose,
}

impl RuntimeBackend {
    /// The name that is shown.
    pub open spec fn label_text(self) -> Seq<char> {
        match self {
            RuntimeBackend::NativeUv => "原生 uv"@,
            RuntimeBackend::DockerCompose => "Docker Compose"@,
        }
    }

    /// The name that is shown.
    pub fn label(self) -> (r: &'static str)
        ensures
            r@ == self.label_text(),
    {
        match self {
            RuntimeBackend::NativeUv => "原生 uv",
            RuntimeBackend::DockerCompose => "Docker Compose",
        }
    }

    /// The name that is stored.
    pub open spec fn wire_text(self) -> Seq<char> {
        match self {
            RuntimeBackend::NativeUv => "native-uv"@,
            RuntimeBackend::DockerCompose => "docker-compose"@,
        }
    }

    /// The name that is stored.
    pub fn as_str(self) -> (r: &'static str)
        ensures
            r@ == self.wire_text(),
    {
        match self {
            RuntimeBackend::NativeUv => "native-uv",
            RuntimeBackend::DockerCompose => "docker-compose",
        }
    }
}

// ---- Errors ----

/// What can go wrong with a runtime.
#[derive(Debug, PartialEq, Eq)]
pub enum FunasrError {
    Read(String),
    Parse(String),
    Manifest(String),
    Validation(String),
    Io(String),
    Docker(String),
    DockerUnavailable,
    Process(String),
    Cancelled,
    ContractUpgradeRequired(u32),
    NotReady,
    IdentityChanged,
}

/// What can go wrong with a runtime, by value.
pub enum FunasrProblem {
    Read(Seq<char>),
    Parse(Seq<char>),
    Manifest(Seq<char>),
    Validation(Seq<char>),
    Io(Seq<char>),
    Docker(Seq<char>),
    DockerUnavailable,
    Process(Seq<char>),
    Cancelled,
    ContractUpgradeRequired(u32),
    NotReady,
    IdentityChanged,
}

impl View for FunasrError {
    type V = FunasrProblem;

    open spec fn view(&self) -> FunasrProblem {
        match self {
            FunasrError::Read(m) => FunasrProblem::Read(m@),
            FunasrError::Parse(m) => FunasrProblem::Parse(m@),
            FunasrError::Manifest(m) => FunasrProblem::Manifest(m@),
            FunasrError::Validation(m) => FunasrProblem::Validation(m@),
            FunasrError::Io(m) => FunasrProblem::Io(m@),
            FunasrError::Docker(m) => FunasrProblem::Docker(m@),
            FunasrError::DockerUnavailable => FunasrProblem::DockerUnavailable,
            FunasrError::Process(m) => FunasrProblem::Process(m@),
            FunasrError::Cancelled => FunasrProblem::Cancelled,
            FunasrError::ContractUpgradeRequired(v) => FunasrProblem::ContractUpgradeRequired(*v),
            FunasrError::NotReady => FunasrProblem::NotReady,
            FunasrError::IdentityChanged => FunasrProblem::IdentityChanged,
        }
    }
}

/// A problem in words.
pub open spec fn funasr_text(p: FunasrProblem) -> Seq<char> {
    match p {
        FunasrProblem::Read(m) => "读取 Runtime 数据："@ + m,
        FunasrProblem::Parse(m) => "解析转录结果："@ + m,
        FunasrProblem::Manifest(m) => "解析 Runtime manifest："@ + m,
        FunasrProblem::Validation(m) => "验证失败："@ + m,
        FunasrProblem::Io(m) => "I/O："@ + m,
        FunasrProblem::Docker(m) => "Docker："@ + m,
        FunasrProblem::DockerUnavailable => "Docker Desktop 未运行"@,
        FunasrProblem::Process(m) => "Runtime 进程："@ + m,
        FunasrProblem::Cancelled => "任务已取消"@,
        FunasrProblem::ContractUpgradeRequired(v) => "runtime-contract-upgrade-required: v"@ + dec(v as nat),
        FunasrProblem::NotReady => "runtime-not-ready: Runtime 尚未就绪"@,
        FunasrProblem::IdentityChanged => "runtime-identity-changed: Runtime 身份已改变"@,
    }
}

impl FunasrError {
    /// The error in words.
    pub fn describe(&self) -> (r: String)
        ensures
            r@ == funasr_text(self@),
    {
        match self {
            FunasrError::Read(m) => cat2("读取 Runtime 数据：", m.as_str()),
            FunasrError::Parse(m) => cat2("解析转录结果：", m.as_str()),
            FunasrError::Manifest(m) => cat2("解析 Runtime manifest：", m.as_str()),
            FunasrError::Validation(m) => cat2("验证失败：", m.as_str()),
            FunasrError::Io(m) => cat2("I/O：", m.as_str()),
            FunasrError::Docker(m) => cat2("Docker：", m.as_str()),
            FunasrError::DockerUnavailable => text("Docker Desktop 未运行"),
            FunasrError::Process(m) => cat2("Runtime 进程：", m.as_str()),
            FunasrError::Cancelled => text("任务已取消"),
            FunasrError::ContractUpgradeRequired(v) => cat2(
                "runtime-contract-upgrade-required: v",
                decimal(*v as u64).as_str(),
            ),
            FunasrError::NotReady => text("runtime-not-ready: Runtime 尚未就绪"),
            FunasrError::IdentityChanged => text("runtime-identity-changed: Runtime 身份已改变"),
        }
    }
}

/// How a long recognition is shown.
#[derive(Debug, Clone, Copy, PartialEq, Eq)]
pub enum ProgressEvent {
    Started { total_ms: u64 },
    Indeterminate,
    Completed,
}

// ---- The manifest of a runtime ----

/// What a runtime says of itself.
#[derive(Debug, Clone, PartialEq, Eq)]
pub struct RuntimeManifest {
    pub contract_version: u32,
    pub backend: RuntimeBackend,
    pub entrypoint: Option<String>,
    pub compose_file: Option<String>,
    pub transcribe_service: Option<String>,
    pub probe_service: Option<String>,
    pub output_schema_version: u32,
    pub output_schema_file: String,
}

/// A directory that can hold a runtime.
pub fn check_runtime_dir(project_dir: &str, is_dir: bool) -> (r: Result<(), FunasrError>)
    ensures
        match r {
            Ok(_) => absolute(project_dir@) && is_dir,
            Err(e) => !(absolute(project_dir@) && is_dir) && e@ == FunasrProblem::Validation(
                "Runtime 目录无效："@ + project_dir@,
            ),
        },
{
    if !is_absolute(project_dir) || !is_dir {
        return Err(FunasrError::Validation(cat2("Runtime 目录无效：", project_dir)));
    }
    Ok(())
}

/// An optional text that is not there or is empty.
pub open spec fn missing(s: Option<String>) -> bool {
    match s {
        Some(s) => s@.len() == 0,
        None => true,
    }
}

fn is_missing(s: &Option<String>) -> (b: bool)
    ensures
        b == missing(*s),
{
    match s {
        Some(s) => s.as_str().is_empty(),
        None => true,
    }
}

/// What is wrong with a file that a manifest names.
pub open spec fn named_file_problem(file: Seq<char>, present: Seq<Seq<char>>) -> Option<Seq<char>> {
    if leaves(file) {
        Some("Runtime manifest 包含越界路径："@ + file)
    } else if !present.contains(file) {
        Some("Runtime 文件不存在："@ + file)
    } else {
        None
    }
}

/// What is wrong with the files that a manifest names: its schema, and what it is started by.
pub open spec fn named_files_problem(m: RuntimeManifest, start: Seq<char>, present: Seq<Seq<char>>) -> Option<
    Seq<char>,
> {
    if named_file_problem(m.output_schema_file@, present) is Some {
        named_file_problem(m.output_schema_file@, present)
    } else {
        named_file_problem(start, present)
    }
}

/// The message of a fixed file that is not there.
pub open spec fn fixed_file(name: Seq<char>) -> Option<Seq<char>> {
    Some("native-uv Runtime 文件不存在："@ + name)
}

/// What is wrong with a manifest, given the paths in its directory that are files.
pub open spec fn manifest_problem(m: RuntimeManifest, present: Seq<Seq<char>>) -> Option<Seq<char>> {
    if !(OLDEST_CONTRACT_VERSION <= m.contract_version <= SUPPORTED_CONTRACT_VERSION) {
        Some("不支持 Runtime contract_version "@ + dec(m.contract_version as nat))
    } else if m.output_schema_version != SUPPORTED_SCHEMA_VERSION {
        Some("不支持输出 schema_version "@ + dec(m.output_schema_version as nat))
    } else {
        match m.backend {
            RuntimeBackend::NativeUv => match m.entrypoint {
                None => Some("native-uv Runtime 缺少 entrypoint"@),
                Some(entrypoint) => if !present.contains("pyproject.toml"@) {
                    fixed_file("pyproject.toml"@)
                } else if !present.contains(".python-version"@) {
                    fixed_file(".python-version"@)
                } else if !present.contains("uv.lock"@) {
                    fixed_file("uv.lock"@)
                } else {
                    named_files_problem(m, entrypoint@, present)
                },
            },
            RuntimeBackend::DockerCompose => match m.compose_file {
                None => Some("docker-compose Runtime 缺少 compose_file"@),
                Some(compose) => if missing(m.transcribe_service) || missing(m.probe_service) {
                    Some("Docker Runtime 服务名不能为空"@)
                } else {
                    named_files_problem(m, compose@, present)
                },
            },
        }
    }
}

/// The result of a check, as the message of a validation error.
pub open spec fn validation(r: Result<(), FunasrError>) -> Option<FunasrProblem> {
    match r {
        Ok(_) => None,
        Err(e) => Some(e@),
    }
}

/// A message as a validation problem.
pub open spec fn invalid(m: Option<Seq<char>>) -> Option<FunasrProblem> {
    match m {
        Some(m) => Some(FunasrProblem::Validation(m)),
        None => None,
    }
}

fn check_named_file(file: &str, present: &Vec<String>) -> (r: Result<(), FunasrError>)
    ensures
        validation(r) == invalid(named_file_problem(file@, views(present@))),
{
    if let Err(e) = validate_runtime_relative_path(file) {
        return Err(e);
    }
    if !lists(present, file) {
        return Err(FunasrError::Validation(cat2("Runtime 文件不存在：", file)));
    }
    Ok(())
}

/// Accepts a path that stays in its directory.
pub fn validate_runtime_relative_path(path: &str) -> (r: Result<(), FunasrError>)
    ensures
        validation(r) == invalid(
            if leaves(path@) {
                Some("Runtime manifest 包含越界路径："@ + path@)
            } else {
                None
            },
        ),
{
    if is_leaving(path) {
        return Err(FunasrError::Validation(cat2("Runtime manifest 包含越界路径：", path)));
    }
    Ok(())
}

fn check_fixed_file(name: &str, present: &Vec<String>) -> (r: Result<(), FunasrError>)
    ensures
        validation(r) == invalid(
            if views(present@).contains(name@) {
                None
            } else {
                fixed_file(name@)
            },
        ),
{
    if !lists(present, name) {
        return Err(FunasrError::Validation(cat2("native-uv Runtime 文件不存在：", name)));
    }
    Ok(())
}

/// Accepts the manifest of a runtime, given the paths in its directory that are files.
pub fn check_manifest(m: &RuntimeManifest, present: &Vec<String>) -> (r: Result<(), FunasrError>)
    ensures
        validation(r) == invalid(manifest_problem(*m, views(present@))),
{
    if m.contract_version < OLDEST_CONTRACT_VERSION || m.contract_version > SUPPORTED_CONTRACT_VERSION {
        return Err(
            FunasrError::Validation(
                cat2(
                    "不支持 Runtime contract_version ",
                    decimal(m.contract_version as u64).as_str(),
                ),
            ),
        );
    }
    if m.output_schema_version != SUPPORTED_SCHEMA_VERSION {
        return Err(
            FunasrError::Validation(
                cat2("不支持输出 schema_version ", decimal(m.output_schema_version as u64).as_str()),
            ),
        );
    }
    let start = match m.backend {
        RuntimeBackend::NativeUv => match &m.entrypoint {
            None => {
                return Err(FunasrError::Validation(text("native-uv Runtime 缺少 entrypoint")));
            },
            Some(entrypoint) => {
                if let Err(e) = check_fixed_file("pyproject.toml", present) {
                    return Err(e);
                }
                if let Err(e) = check_fixed_file(".python-version", present) {
                    return Err(e);
                }
                if let Err(e) = check_fixed_file("uv.lock", present) {
                    return Err(e);
                }
                entrypoint
            },
        },
        RuntimeBackend::DockerCompose => match &m.compose_file {
            None => {
                return Err(
                    FunasrError::Validation(text("docker-compose Runtime 缺少 compose_file")),
                );
            },
            Some(compose) => {
                if is_missing(&m.transcribe_service) || is_missing(&m.probe_service) {
                    return Err(FunasrError::Validation(text("Docker Runtime 服务名不能为空")));
                }
                compose
            },
        },
    };
    if let Err(e) = check_named_file(m.output_schema_file.as_str(), present) {
        return Err(e);
    }
    check_named_file(start.as_str(), present)
}

/// The paths that a check of a manifest asks for.
pub fn files_to_look_for(m: &RuntimeManifest) -> (r: Vec<String>)
    ensures
        ({
            let fixed = seq![
                m.output_schema_file@,
                "pyproject.toml"@,
                ".python-version"@,
                "uv.lock"@,
            ];
            let with_entry = match m.entrypoint {
                Some(e) => fixed.push(e@),
                None => fixed,
            };
            views(r@) == match m.compose_file {
                Some(c) => with_entry.push(c@),
                None => with_entry,
            }
        }),
{
    let mut out = own_texts(
        vec![m.output_schema_file.as_str(), "pyproject.toml", ".python-version", "uv.lock"],
    );
    assert(views(out@) =~= seq![
        m.output_schema_file@,
        "pyproject.toml"@,
        ".python-version"@,
        "uv.lock"@,
    ]);
    if let Some(e) = &m.entrypoint {
        let e = e.clone();
        proof {
            views_push(out@, e);
        }
        out.push(e);
    }
    if let Some(c) = &m.compose_file {
        let c = c.clone();
        proof {
            views_push(out@, c);
        }
        out.push(c);
    }
    out
}

/// A manifest that was accepted names what its runtime is started by, inside its directory.
pub proof fn an_accepted_manifest_can_be_started(m: RuntimeManifest, present: Seq<Seq<char>>)
    requires
        manifest_problem(m, present) is None,
    ensures
        m.backend is NativeUv ==> m.entrypoint is Some && !leaves((m.entrypoint->0)@) && present.contains(
            (m.entrypoint->0)@,
        ),
        m.backend is DockerCompose ==> m.compose_file is Some && !leaves((m.compose_file->0)@)
            && present.contains((m.compose_file->0)@) && m.transcribe_service is Some
            && m.probe_service is Some,
        !leaves(m.output_schema_file@),
{
}

// ---- Is a runtime ready ----

/// The record that a runtime was installed and checked.
#[derive(Debug, Clone, PartialEq, Eq)]
pub struct RuntimeReady {
    pub contract_version: u32,
    pub backend: String,
    pub project_dir: String,
    pub fingerprint: u64,
    pub device: String,
}

/// A record is about this runtime as it is now.
pub open spec fn still_ready(
    ready: RuntimeReady,
    m: RuntimeManifest,
    project_dir: Seq<char>,
    fingerprint: Option<u64>,
) -> bool {
    &&& ready.contract_version == m.contract_version
    &&& ready.backend@ == m.backend.label_text()
    &&& ready.project_dir@ == project_dir
    &&& fingerprint == Some(ready.fingerprint)
}

/// The record, where it is about this runtime as it is now. The directory is the resolved one,
/// and the fingerprint is missing where the files could not be read.
pub fn matching_ready_record(
    ready: Option<RuntimeReady>,
    m: &RuntimeManifest,
    project_dir: &str,
    fingerprint: Option<u64>,
) -> (r: Option<RuntimeReady>)
    ensures
        r == (match ready {
            Some(x) if still_ready(x, *m, project_dir@, fingerprint) => Some(x),
            _ => None,
        }),
{
    match ready {
        None => None,
        Some(x) => {
            let fresh = match fingerprint {
                Some(f) => f == x.fingerprint,
                None => false,
            };
            if x.contract_version == m.contract_version && same(x.backend.as_str(), m.backend.label())
                && same(x.project_dir.as_str(), project_dir) && fresh {
                Some(x)
            } else {
                None
            }
        },
    }
}

/// The files that the fingerprint of a runtime is made of, in their order.
pub fn fingerprint_files(m: &RuntimeManifest, has_script: bool, has_lock: bool) -> (r: Vec<String>)
    ensures
        ({
            let a = seq![RUNTIME_MANIFEST@, m.output_schema_file@];
            let b = match m.entrypoint {
                Some(e) => a.push(e@),
                None => a,
            };
            let c = match m.compose_file {
                Some(f) => b.push(f@),
                None => b,
            };
            let d = if has_script {
                c.push("transcribe.py"@)
            } else {
                c
            };
            views(r@) == if has_lock {
                d.push("uv.lock"@)
            } else {
                d
            }
        }),
{
    let mut out = own_texts(vec![RUNTIME_MANIFEST, m.output_schema_file.as_str()]);
    assert(views(out@) =~= seq![RUNTIME_MANIFEST@, m.output_schema_file@]);
    if let Some(e) = &m.entrypoint {
        let e = e.clone();
        proof {
            views_push(out@, e);
        }
        out.push(e);
    }
    if let Some(f) = &m.compose_file {
        let f = f.clone();
        proof {
            views_push(out@, f);
        }
        out.push(f);
    }
    if has_script {
        let t = text("transcribe.py");
        proof {
            views_push(out@, t);
        }
        out.push(t);
    }
    if has_lock {
        let t = text("uv.lock");
        proof {
            views_push(out@, t);
        }
        out.push(t);
    }
    out
}

/// The state of a runtime in words: what keeps it from being read, or whether it is ready.
pub fn runtime_status(manifest: &Result<RuntimeManifest, FunasrError>, ready: &Option<RuntimeReady>) -> (r:
    String)
    ensures
        r@ == (match *manifest {
            Err(e) => "配置无效："@ + funasr_text(e@),
            Ok(m) => match *ready {
                Some(x) => m.backend.label_text() + " · 已就绪 · "@ + x.device@,
                None => m.backend.label_text() + " · 未安装或需要重新验证"@,
            },
        }),
{
    match manifest {
        Err(e) => cat2("配置无效：", e.describe().as_str()),
        Ok(m) => match ready {
            Some(x) => cat3(m.backend.label(), " · 已就绪 · ", x.device.as_str()),
            None => cat2(m.backend.label(), " · 未安装或需要重新验证"),
        },
    }
}

/// Whether a runtime is ready.
pub fn runtime_is_ready(manifest: &Result<RuntimeManifest, FunasrError>, ready: &Option<RuntimeReady>) -> (b:
    bool)
    ensures
        b == (manifest is Ok && ready is Some),
{
    manifest.is_ok() && ready.is_some()
}

// ---- Commands ----

/// A program to be started.
#[derive(Debug)]
pub struct SubprocessSpec {
    pub argv: Vec<String>,
    pub env: Vec<(String, String)>,
    pub cwd: Option<String>,
    pub log: Option<String>,
}

/// Pairs of texts, by value.
pub open spec fn pairs(s: Seq<(String, String)>) -> Seq<(Seq<char>, Seq<char>)> {
    s.map_values(|p: (String, String)| (p.0@, p.1@))
}

/// The program with its arguments, and nothing else set.
pub open spec fn plain_command(s: SubprocessSpec, argv: Seq<Seq<char>>) -> bool {
    views(s.argv@) == argv && s.env@.len() == 0 && s.cwd is None && s.log is None
}

impl SubprocessSpec {
    /// A program with its arguments.
    pub fn new(argv: Vec<String>) -> (r: SubprocessSpec)
        ensures
            r.argv == argv,
            plain_command(r, views(argv@)),
    {
        SubprocessSpec { argv, env: Vec::new(), cwd: None, log: None }
    }

    /// The program in a directory.
    pub fn cwd(self, dir: &str) -> (r: SubprocessSpec)
        ensures
            r == (SubprocessSpec { cwd: r.cwd, ..self }),
            opt_view(r.cwd) == Some(dir@),
    {
        SubprocessSpec { argv: self.argv, env: self.env, cwd: Some(text(dir)), log: self.log }
    }

    /// The program with its output kept in a file.
    pub fn log(self, path: &str) -> (r: SubprocessSpec)
        ensures
            r == (SubprocessSpec { log: r.log, ..self }),
            opt_view(r.log) == Some(path@),
    {
        SubprocessSpec { argv: self.argv, env: self.env, cwd: self.cwd, log: Some(text(path)) }
    }

    /// The program with one more variable.
    pub fn env(self, name: &str, value: &str) -> (r: SubprocessSpec)
        ensures
            r == (SubprocessSpec { env: r.env, ..self }),
            pairs(r.env@) == pairs(self.env@).push((name@, value@)),
    {
        let ghost before = self.env@;
        let mut env = self.env;
        env.push((text(name), text(value)));
        assert(pairs(env@) =~= pairs(before).push((name@, value@)));
        SubprocessSpec { argv: self.argv, env, cwd: self.cwd, log: self.log }
    }
}

/// The directories below a runtime's data that have to be there, in the order in which they
/// are made.
pub open spec fn data_dirs() -> Seq<Seq<char>> {
    seq![
        "python-environment"@,
        "python-installations"@,
        "uv-cache"@,
        "models"@,
        "huggingface"@,
        "torch"@,
        "cache"@,
        "tmp"@,
    ]
}

/// The directories below a runtime's data that have to be there.
pub fn native_data_dirs() -> (r: Vec<String>)
    ensures
        views(r@) == data_dirs(),
{
    let r = own_texts(
        vec![
            "python-environment",
            "python-installations",
            "uv-cache",
            "models",
            "huggingface",
            "torch",
            "cache",
            "tmp",
        ],
    );
    assert(views(r@) =~= data_dirs());
    r
}

/// The variables that keep everything large or temporary below a runtime's data.
pub open spec fn uv_environment(data: Seq<char>) -> Seq<(Seq<char>, Seq<char>)> {
    seq![
        ("UV_PROJECT_ENVIRONMENT"@, below(data, "python-environment"@)),
        ("UV_CACHE_DIR"@, below(data, "uv-cache"@)),
        ("UV_NO_CONFIG"@, "1"@),
        ("UV_PYTHON_PREFERENCE"@, "only-managed"@),
        ("UV_PYTHON_INSTALL_DIR"@, below(data, "python-installations"@)),
        ("MODELSCOPE_CACHE"@, below(data, "models"@)),
        ("HF_HOME"@, below(data, "huggingface"@)),
        ("TORCH_HOME"@, below(data, "torch"@)),
        ("TMPDIR"@, below(data, "tmp"@)),
        ("BIMYSCRIBE_FUNASR_CACHE_DIR"@, below(data, "cache"@)),
    ]
}

/// Sets the variables that keep everything large or temporary below a runtime's data.
pub fn native_uv_environment(spec: SubprocessSpec, runtime_data: &str) -> (r: SubprocessSpec)
    ensures
        r == (SubprocessSpec { env: r.env, ..spec }),
        pairs(r.env@) == pairs(spec.env@) + uv_environment(runtime_data@),
{
    let r = spec.env(
        "UV_PROJECT_ENVIRONMENT",
        join_path(runtime_data, "python-environment").as_str(),
    ).env("UV_CACHE_DIR", join_path(runtime_data, "uv-cache").as_str()).env("UV_NO_CONFIG", "1").env(
        "UV_PYTHON_PREFERENCE",
        "only-managed",
    ).env(
        "UV_PYTHON_INSTALL_DIR",
        join_path(runtime_data, "python-installations").as_str(),
    ).env("MODELSCOPE_CACHE", join_path(runtime_data, "models").as_str()).env(
        "HF_HOME",
        join_path(runtime_data, "huggingface").as_str(),
    ).env("TORCH_HOME", join_path(runtime_data, "torch").as_str()).env(
        "TMPDIR",
        join_path(runtime_data, "tmp").as_str(),
    ).env("BIMYSCRIBE_FUNASR_CACHE_DIR", join_path(runtime_data, "cache").as_str());
    assert(pairs(r.env@) =~= pairs(spec.env@) + uv_environment(runtime_data@));
    r
}

/// A command of `uv` with the variables of a runtime.
pub open spec fn uv_command(s: SubprocessSpec, argv: Seq<Seq<char>>, data: Seq<char>) -> bool {
    views(s.argv@) == argv && pairs(s.env@) == uv_environment(data)
}

fn uv(argv: Vec<String>, runtime_data: &str) -> (r: SubprocessSpec)
    ensures
        uv_command(r, views(argv@), runtime_data@),
        r.cwd is None,
        r.log is None,
{
    let spec = SubprocessSpec::new(argv);
    let r = native_uv_environment(spec, runtime_data);
    assert(pairs(r.env@) =~= uv_environment(runtime_data@));
    r
}

/// The command that asks `uv` for its version.
pub fn uv_version_spec(runtime_data: &str, log_path: &str) -> (r: SubprocessSpec)
    ensures
        uv_command(r, seq!["uv"@, "--version"@], runtime_data@),
        r.cwd is None,
        opt_view(r.log) == Some(log_path@),
{
    let argv = own_texts(vec!["uv", "--version"]);
    assert(views(argv@) =~= seq!["uv"@, "--version"@]);
    uv(argv, runtime_data).log(log_path)
}

/// The command that installs what a runtime needs, exactly as it is locked.
pub fn uv_sync_spec(project_dir: &str, runtime_data: &str, log_path: &str) -> (r: SubprocessSpec)
    ensures
        uv_command(
            r,
            seq!["uv"@, "sync"@, "--project"@, project_dir@, "--frozen"@, "--no-dev"@],
            runtime_data@,
        ),
        opt_view(r.cwd) == Some(project_dir@),
        opt_view(r.log) == Some(log_path@),
{
    let argv = own_texts(vec!["uv", "sync", "--project", project_dir, "--frozen", "--no-dev"]);
    assert(views(argv@) =~= seq![
        "uv"@,
        "sync"@,
        "--project"@,
        project_dir@,
        "--frozen"@,
        "--no-dev"@,
    ]);
    uv(argv, runtime_data).cwd(project_dir).log(log_path)
}

/// The file that a self-check writes.
pub fn self_check_path(runtime_data: &str) -> (r: String)
    ensures
        r@ == below(runtime_data@, "self-check.json"@),
{
    join_path(runtime_data, "self-check.json")
}

/// The command by which a runtime checks itself.
pub fn uv_check_spec(project_dir: &str, runtime_data: &str, entrypoint: &str, log_path: &str) -> (r:
    SubprocessSpec)
    ensures
        uv_command(
            r,
            seq![
                "uv"@,
                "run"@,
                "--project"@,
                project_dir@,
                "--frozen"@,
                "--no-sync"@,
                "python"@,
                entrypoint@,
                "--self-check"@,
                below(runtime_data@, "self-check.json"@),
                "--device"@,
                "auto"@,
            ],
            runtime_data@,
        ),
        opt_view(r.cwd) == Some(project_dir@),
        opt_view(r.log) == Some(log_path@),
{
    let file = self_check_path(runtime_data);
    let argv = own_texts(
        vec![
            "uv",
            "run",
            "--project",
            project_dir,
            "--frozen",
            "--no-sync",
            "python",
            entrypoint,
            "--self-check",
            file.as_str(),
            "--device",
            "auto",
        ],
    );
    assert(views(argv@) =~= seq![
        "uv"@,
        "run"@,
        "--project"@,
        project_dir@,
        "--frozen"@,
        "--no-sync"@,
        "python"@,
        entrypoint@,
        "--self-check"@,
        below(runtime_data@, "self-check.json"@),
        "--device"@,
        "auto"@,
    ]);
    uv(argv, runtime_data).cwd(project_dir).log(log_path)
}

/// The command that transcribes a file with a native runtime.
pub fn native_uv_spec(project_dir: &str, entrypoint: &str, input: &str, output: &str, runtime_data: &str) -> (r:
    SubprocessSpec)
    ensures
        uv_command(
            r,
            seq![
                "uv"@,
                "run"@,
                "--project"@,
                project_dir@,
                "--frozen"@,
                "--no-sync"@,
                "python"@,
                entrypoint@,
                input@,
                "--out"@,
                output@,
                "--device"@,
                "auto"@,
            ],
            runtime_data@,
        ),
        opt_view(r.cwd) == Some(project_dir@),
        r.log is None,
{
    let argv = own_texts(
        vec![
            "uv",
            "run",
            "--project",
            project_dir,
            "--frozen",
            "--no-sync",
            "python",
            entrypoint,
            input,
            "--out",
            output,
            "--device",
            "auto",
        ],
    );
    assert(views(argv@) =~= seq![
        "uv"@,
        "run"@,
        "--project"@,
        project_dir@,
        "--frozen"@,
        "--no-sync"@,
        "python"@,
        entrypoint@,
        input@,
        "--out"@,
        output@,
        "--device"@,
        "auto"@,
    ]);
    uv(argv, runtime_data).cwd(project_dir)
}

/// The four directories that a container sees.
pub struct Mounts<'a> {
    pub input: &'a str,
    pub output: &'a str,
    pub model_cache: &'a str,
    pub runtime_cache: &'a str,
}

/// The variables that name the four directories.
pub open spec fn mount_environment(m: Mounts) -> Seq<(Seq<char>, Seq<char>)> {
    seq![
        ("BIMYSCRIBE_FUNASR_INPUT_DIR"@, m.input@),
        ("BIMYSCRIBE_FUNASR_OUTPUT_DIR"@, m.output@),
        ("BIMYSCRIBE_FUNASR_MODEL_CACHE_DIR"@, m.model_cache@),
        ("BIMYSCRIBE_FUNASR_CACHE_DIR"@, m.runtime_cache@),
    ]
}

/// A command of Docker Compose.
pub fn compose_spec(project_dir: &str, compose_file: &str, mounts: &Mounts, tail: Vec<String>) -> (r:
    SubprocessSpec)
    ensures
        views(r.argv@) == seq!["docker"@, "compose"@, "-f"@, compose_file@] + views(tail@),
        pairs(r.env@) == mount_environment(*mounts),
        opt_view(r.cwd) == Some(project_dir@),
        r.log is None,
{
    let mut argv = own_texts(vec!["docker", "compose", "-f", compose_file]);
    let ghost head = seq!["docker"@, "compose"@, "-f"@, compose_file@];
    assert(views(argv@) =~= head);
    let mut i: usize = 0;
    while i < tail.len()
        invariant
            i <= tail@.len(),
            views(argv@) =~= head + views(tail@).take(i as int),
        decreases tail@.len() - i,
    {
        let part = tail[i].clone();
        proof {
            views_push(argv@, part);
            assert(views(tail@).take(i + 1) =~= views(tail@).take(i as int).push(part@));
        }
        argv.push(part);
        i += 1;
    }
    assert(views(tail@).take(tail@.len() as int) =~= views(tail@));
    let r = SubprocessSpec::new(argv).cwd(project_dir).env(
        "BIMYSCRIBE_FUNASR_INPUT_DIR",
        mounts.input,
    ).env("BIMYSCRIBE_FUNASR_OUTPUT_DIR", mounts.output).env(
        "BIMYSCRIBE_FUNASR_MODEL_CACHE_DIR",
        mounts.model_cache,
    ).env("BIMYSCRIBE_FUNASR_CACHE_DIR", mounts.runtime_cache);
    assert(pairs(r.env@) =~= mount_environment(*mounts));
    r
}

// ---- Installing ----

/// The steps of installing a native runtime.
#[derive(Debug, Clone, Copy, PartialEq, Eq, Structural)]
pub enum InstallStep {
    Version,
    Sync,
    SelfCheck,
    Installed,
}

/// The step after one that went well.
pub open spec fn step_after(step: InstallStep) -> InstallStep {
    match step {
        InstallStep::Version => InstallStep::Sync,
        InstallStep::Sync => InstallStep::SelfCheck,
        _ => InstallStep::Installed,
    }
}

/// What is said of a step that failed.
pub open spec fn step_failure(step: InstallStep) -> Seq<char> {
    match step {
        InstallStep::Version => "uv 版本检查退出码 "@,
        InstallStep::Sync => "uv sync 退出码 "@,
        _ => "Runtime 自检退出码 "@,
    }
}

/// Goes on after a step of an installation has ended.
pub fn install_step(step: InstallStep, exit: i32) -> (r: Result<InstallStep, FunasrError>)
    ensures
        match r {
            Ok(next) => exit == 0 && next == step_after(step),
            Err(e) => exit != 0 && e@ == FunasrProblem::Process(
                step_failure(step) + signed_dec(exit as int),
            ),
        },
{
    if exit != 0 {
        let what = match step {
            InstallStep::Version => "uv 版本检查退出码 ",
            InstallStep::Sync => "uv sync 退出码 ",
            _ => "Runtime 自检退出码 ",
        };
        return Err(FunasrError::Process(cat2(what, signed_decimal(exit as i64).as_str())));
    }
    Ok(
        match step {
            InstallStep::Version => InstallStep::Sync,
            InstallStep::Sync => InstallStep::SelfCheck,
            _ => InstallStep::Installed,
        },
    )
}

/// Accepts the device that a self-check reports.
pub fn accept_device(device: String) -> (r: Result<String, FunasrError>)
    ensures
        match r {
            Ok(d) => d == device && (device@ == "mps"@ || device@ == "cpu"@),
            Err(e) => device@ != "mps"@ && device@ != "cpu"@ && e@ == FunasrProblem::Validation(
                "Runtime 返回未知设备："@ + device@,
            ),
        },
{
    if !same(device.as_str(), "mps") && !same(device.as_str(), "cpu") {
        return Err(FunasrError::Validation(cat2("Runtime 返回未知设备：", device.as_str())));
    }
    Ok(device)
}

/// The device that a container runtime is recorded with.
pub const DOCKER_DEVICE: &'static str = "Docker CPU";

/// The record of a runtime that was installed.
pub fn ready_record(m: &RuntimeManifest, project_dir: String, fingerprint: u64, device: String) -> (r:
    RuntimeReady)
    ensures
        r.contract_version == m.contract_version,
        r.backend@ == m.backend.label_text(),
        r.project_dir == project_dir,
        r.fingerprint == fingerprint,
        r.device == device,
        still_ready(r, *m, project_dir@, Some(fingerprint)),
{
    RuntimeReady {
        contract_version: m.contract_version,
        backend: text(m.backend.label()),
        project_dir,
        fingerprint,
        device,
    }
}

/// A container probe is for a container runtime only.
pub fn check_probe_backend(m: &RuntimeManifest) -> (r: Result<(), FunasrError>)
    ensures
        validation(r) == (if m.backend is DockerCompose {
            None
        } else {
            Some(FunasrProblem::Validation("原生 Runtime 必须通过冻结环境自检，不使用 Docker 探针"@))
        }),
{
    if m.backend != RuntimeBackend::DockerCompose {
        return Err(
            FunasrError::Validation(text("原生 Runtime 必须通过冻结环境自检，不使用 Docker 探针")),
        );
    }
    Ok(())
}

/// Reads how the two commands of a container probe ended. The second is not run where the
/// first failed.
pub fn probe_result(config_exit: i32, probe_exit: Option<i32>) -> (r: Result<(), FunasrError>)
    ensures
        validation(r) == (if config_exit != 0 {
            Some(FunasrProblem::Docker("Docker Compose 配置解析失败"@))
        } else if probe_exit == Some(0i32) {
            None
        } else {
            Some(FunasrProblem::Docker("Runtime 四挂载探针失败"@))
        }),
{
    if config_exit != 0 {
        return Err(FunasrError::Docker(text("Docker Compose 配置解析失败")));
    }
    match probe_exit {
        Some(code) if code == 0 => Ok(()),
        _ => Err(FunasrError::Docker(text("Runtime 四挂载探针失败"))),
    }
}

// ---- Containers ----

/// The bytes of a character in UTF-8.
pub open spec fn bytes_of(c: char) -> int {
    if (c as int) < 0x80 {
        1
    } else if (c as int) < 0x800 {
        2
    } else if (c as int) < 0x10000 {
        3
    } else {
        4
    }
}

/// The bytes of a text in UTF-8.
pub open spec fn byte_len(s: Seq<char>) -> int
    decreases s.len(),
{
    if s.len() == 0 {
        0
    } else {
        byte_len(s.drop_last()) + bytes_of(s.last())
    }
}

/// The first `k` characters are the first twelve bytes of a text, or all of it where it is
/// shorter.
pub open spec fn short_prefix(s: Seq<char>, k: int) -> bool {
    0 <= k <= s.len() && (byte_len(s.take(k)) == 12 || (k == s.len() && byte_len(s) < 12))
}

fn count_bytes(c: char) -> (n: usize)
    ensures
        n == bytes_of(c),
{
    let v: u32 = c as u32;
    if v < 0x80 {
        1
    } else if v < 0x800 {
        2
    } else if v < 0x10000 {
        3
    } else {
        4
    }
}

proof fn byte_len_grows(s: Seq<char>, i: int, j: int)
    requires
        0 <= i <= j <= s.len(),
    ensures
        byte_len(s.take(i)) + (j - i) <= byte_len(s.take(j)),
    decreases j - i,
{
    if i < j {
        byte_len_grows(s, i, j - 1);
        assert(s.take(j).drop_last() =~= s.take(j - 1));
    }
}

/// The name of the container of a job: it holds the start of the instance's name, and the job.
pub fn container_name(job_id: u128, instance_nonce: &str) -> (r: String)
    requires
        exists|k: int| short_prefix(instance_nonce@, k),
    ensures
        exists|k: int| #[trigger]
            short_prefix(instance_nonce@, k) && r@ == "bimyscribe-"@ + instance_nonce@.take(k) + "-"@
                + hyphenated(job_id),
{
    let v = chars_of(instance_nonce);
    let ghost wanted = choose|k: int| short_prefix(instance_nonce@, k);
    let mut k: usize = 0;
    let mut bytes: usize = 0;
    assert(v@.take(0) =~= Seq::<char>::empty());
    while k < v.len() && bytes < 12
        invariant
            k <= v@.len(),
            v@ == instance_nonce@,
            bytes == byte_len(v@.take(k as int)),
            bytes <= 15,
            short_prefix(v@, wanted),
            k <= wanted,
        decreases v@.len() - k,
    {
        proof {
            assert(v@.take(k + 1).drop_last() =~= v@.take(k as int));
            if k == wanted {
                assert(v@.take(v@.len() as int) =~= v@);
            }
        }
        bytes += count_bytes(v[k]);
        k += 1;
    }
    proof {
        assert(v@.take(v@.len() as int) =~= v@);
        byte_len_grows(v@, k as int, wanted);
        assert(short_prefix(v@, k as int));
    }
    let start = text_of(&v, 0, k);
    assert(start@ =~= instance_nonce@.take(k as int));
    let id = id_text(job_id);
    let head = cat2("bimyscribe-", start.as_str());
    cat3(head.as_str(), "-", id.as_str())
}

/// The arguments behind `docker compose -f FILE` that transcribe a file in a container, marked
/// as this program's, this job's and this instance's.
pub fn docker_run_args(container: &str, job_id: u128, instance_nonce: &str, service: &str) -> (r: Vec<String>)
    ensures
        views(r@) == seq![
            "run"@,
            "--rm"@,
            "--name"@,
            container@,
            "--label"@,
            "com.bimyscribe.app=true"@,
            "--label"@,
            "com.bimyscribe.job="@ + hyphenated(job_id),
            "--label"@,
            "com.bimyscribe.instance="@ + instance_nonce@,
            service@,
            "/workspace/input/normalized.wav"@,
            "--out"@,
            "/workspace/output"@,
        ],
{
    let job = cat2("com.bimyscribe.job=", id_text(job_id).as_str());
    let instance = cat2("com.bimyscribe.instance=", instance_nonce);
    let r = own_texts(
        vec![
            "run",
            "--rm",
            "--name",
            container,
            "--label",
            "com.bimyscribe.app=true",
            "--label",
            job.as_str(),
            "--label",
            instance.as_str(),
            service,
            "/workspace/input/normalized.wav",
            "--out",
            "/workspace/output",
        ],
    );
    assert(views(r@) =~= seq![
        "run"@,
        "--rm"@,
        "--name"@,
        container@,
        "--label"@,
        "com.bimyscribe.app=true"@,
        "--label"@,
        "com.bimyscribe.job="@ + hyphenated(job_id),
        "--label"@,
        "com.bimyscribe.instance="@ + instance_nonce@,
        service@,
        "/workspace/input/normalized.wav"@,
        "--out"@,
        "/workspace/output"@,
    ]);
    r
}

/// Whether the labels of a container prove that it is this program's, this job's and this
/// instance's.
pub fn owns_container(labels: &str, job_id: u128, instance_nonce: &str) -> (b: bool)
    ensures
        b == (trimmed(labels@) == "true|"@ + hyphenated(job_id) + "|"@ + instance_nonce@),
{
    let wanted = cat4("true|", id_text(job_id).as_str(), "|", instance_nonce);
    same(trim(labels), wanted.as_str())
}

/// The identifiers of jobs, as text.
pub open spec fn id_texts(ids: Seq<u128>) -> Seq<Seq<char>> {
    ids.map_values(|id: u128| hyphenated(id))
}

/// The labels of a container prove that it was left behind: it belongs to a job that is known,
/// and to another instance than this one.
pub open spec fn left_behind(labels: Seq<char>, jobs: Seq<u128>, current: Seq<char>) -> bool {
    let t = trimmed(labels);
    match find_from(t, "|"@, 0) {
        None => false,
        Some(i) => {
            let instance = t.skip(i + 1);
            id_texts(jobs).contains(t.take(i)) && instance.len() > 0 && instance != current
        },
    }
}

fn knows_job(jobs: &Vec<u128>, name: &str) -> (b: bool)
    ensures
        b == id_texts(jobs@).contains(name@),
{
    let mut i: usize = 0;
    while i < jobs.len()
        invariant
            i <= jobs@.len(),
            forall|j: int| 0 <= j < i ==> hyphenated(#[trigger] jobs@[j]) != name@,
        decreases jobs@.len() - i,
    {
        let id = id_text(jobs[i]);
        if same(id.as_str(), name) {
            assert(id_texts(jobs@)[i as int] == name@);
            return true;
        }
        i += 1;
    }
    assert forall|j: int| 0 <= j < id_texts(jobs@).len() implies id_texts(jobs@)[j] != name@ by {
        assert(hyphenated(jobs@[j]) != name@);
    }
    false
}

/// Whether a container was left behind by an earlier instance. Containers that are not known
/// are left alone.
pub fn is_left_behind(labels: &str, jobs: &Vec<u128>, current: &str) -> (b: bool)
    ensures
        b == left_behind(labels@, jobs@, current@),
{
    let t = trim(labels);
    let v = chars_of(t);
    let i: usize = match crate::text::find(t, "|") {
        Some(i) => i,
        None => {
            return false;
        },
    };
    proof {
        reveal_strlit("|");
    }
    assert(i + 1 <= v.len());
    let job = text_of(&v, 0, i);
    let instance = text_of(&v, i + 1, v.len());
    assert(job@ =~= t@.take(i as int));
    assert(instance@ =~= t@.skip(i + 1));
    knows_job(jobs, job.as_str()) && !instance.as_str().is_empty() && !same(instance.as_str(), current)
}

// ---- A run ----

/// What to do while a runtime works.
#[derive(Debug, Clone, Copy, PartialEq, Eq, Structural)]
pub enum RunStep {
    /// Stop the program, and remove its container.
    Stop,
    /// Wait a moment and look again.
    Wait,
    /// Read how it ended.
    Collect,
}

/// What to do while a runtime works: a job that was asked to stop is stopped, whether the
/// program still runs or not.
pub fn run_step(cancelled: bool, running: bool) -> (r: RunStep)
    ensures
        r == (if cancelled {
            RunStep::Stop
        } else if running {
            RunStep::Wait
        } else {
            RunStep::Collect
        }),
{
    if cancelled {
        RunStep::Stop
    } else if running {
        RunStep::Wait
    } else {
        RunStep::Collect
    }
}

/// A run needs a runtime that is ready.
pub fn require_ready(ready: &Option<RuntimeReady>) -> (r: Result<(), FunasrError>)
    ensures
        validation(r) == (if ready is Some {
            None
        } else {
            Some(
                FunasrProblem::Validation("Runtime 尚未安装、验证记录已失效或项目内容已改变"@),
            )
        }),
{
    if ready.is_none() {
        return Err(
            FunasrError::Validation(text("Runtime 尚未安装、验证记录已失效或项目内容已改变")),
        );
    }
    Ok(())
}

/// Reads how a run ended.
pub fn check_run_exit(exit: i32) -> (r: Result<(), FunasrError>)
    ensures
        validation(r) == (if exit == 0 {
            None
        } else {
            Some(FunasrProblem::Process("Runtime 退出码 "@ + signed_dec(exit as int)))
        }),
{
    if exit != 0 {
        return Err(
            FunasrError::Process(cat2("Runtime 退出码 ", signed_decimal(exit as i64).as_str())),
        );
    }
    Ok(())
}

// ---- The transcript ----

/// Who speaks in a segment, as a runtime writes it.
#[derive(Debug)]
pub enum SpeakerLabel {
    /// It is not known.
    Unknown,
    /// A speaker with a label.
    Named(String),
    /// Something that is neither a text nor empty.
    Other,
}

/// One segment, as a runtime writes it.
#[derive(Debug)]
pub struct Segment {
    pub text: String,
    pub start_ms: u64,
    pub end_ms: u64,
    pub speaker: SpeakerLabel,
}

/// The labels of the first `n` segments, each once, in the order in which they first occur.
pub open spec fn labels(segments: Seq<Segment>, n: int) -> Seq<Seq<char>>
    decreases n,
{
    if n <= 0 {
        Seq::empty()
    } else {
        let before = labels(segments, n - 1);
        match segments[n - 1].speaker {
            SpeakerLabel::Named(l) => if before.contains(l@) {
                before
            } else {
                before.push(l@)
            },
            _ => before,
        }
    }
}

/// The place of a label, counted from `i`; the end where it is not there.
pub open spec fn place_from(ls: Seq<Seq<char>>, l: Seq<char>, i: int) -> int
    decreases ls.len() - i,
{
    if i < 0 || i >= ls.len() || ls[i] == l {
        i
    } else {
        place_from(ls, l, i + 1)
    }
}

/// The number of the speaker of a segment. Zero is for those who are not known; the others are
/// counted in the order in which they first speak.
pub open spec fn speaker_number(segments: Seq<Segment>, i: int) -> int {
    match segments[i].speaker {
        SpeakerLabel::Named(l) => place_from(labels(segments, i), l@, 0) + 1,
        _ => 0,
    }
}

/// What is wrong with a segment.
pub open spec fn segment_complaint(segments: Seq<Segment>, i: int) -> Option<Seq<char>> {
    if segments[i].end_ms < segments[i].start_ms {
        Some("segment "@ + dec((i + 1) as nat) + " 的结束时间早于开始时间"@)
    } else if segments[i].speaker is Other {
        Some("segment "@ + dec((i + 1) as nat) + " 的 speaker 必须是字符串或 null"@)
    } else {
        None
    }
}

/// The first thing that is wrong from segment `i` on.
pub open spec fn segments_complaint(segments: Seq<Segment>, i: int) -> Option<Seq<char>>
    decreases segments.len() - i,
{
    if i < 0 || i >= segments.len() {
        None
    } else if segment_complaint(segments, i) is Some {
        segment_complaint(segments, i)
    } else {
        segments_complaint(segments, i + 1)
    }
}

/// The identifier of the utterance at place `i`.
pub open spec fn utterance_id(i: int) -> Seq<char> {
    "u"@ + padded(dec((i + 1) as nat), 4, '0')
}

/// The utterance of a segment.
pub open spec fn said_in(u: Utterance, segments: Seq<Segment>, i: int) -> bool {
    &&& u.id@ == utterance_id(i)
    &&& u.text@ == segments[i].text@
    &&& u.start_ms == segments[i].start_ms
    &&& u.end_ms == segments[i].end_ms
    &&& u.speaker_id == speaker_number(segments, i)
}

/// What is wrong with an utterance of a transcript.
pub open spec fn stored_complaint(us: Seq<Utterance>, i: int) -> Option<Seq<char>> {
    if us.take(i).map_values(|u: Utterance| u.id@).contains(us[i].id@) {
        Some("重复的 utterance id："@ + us[i].id@)
    } else if us[i].end_ms < us[i].start_ms {
        Some(us[i].id@ + " 的结束时间早于开始时间"@)
    } else {
        None
    }
}

/// The first thing that is wrong with a transcript from utterance `i` on.
pub open spec fn stored_complaints(us: Seq<Utterance>, i: int) -> Option<Seq<char>>
    decreases us.len() - i,
{
    if i < 0 || i >= us.len() {
        None
    } else if stored_complaint(us, i) is Some {
        stored_complaint(us, i)
    } else {
        stored_complaints(us, i + 1)
    }
}

fn seen_before(us: &Vec<Utterance>, i: usize) -> (b: bool)
    requires
        i < us@.len(),
    ensures
        b == us@.take(i as int).map_values(|u: Utterance| u.id@).contains(us@[i as int].id@),
{
    let ghost ids = us@.take(i as int).map_values(|u: Utterance| u.id@);
    let mut k: usize = 0;
    while k < i
        invariant
            k <= i < us@.len(),
            ids == us@.take(i as int).map_values(|u: Utterance| u.id@),
            forall|j: int| 0 <= j < k ==> #[trigger] ids[j] != us@[i as int].id@,
        decreases i - k,
    {
        assert(ids[k as int] == us@[k as int].id@);
        if same(us[k].id.as_str(), us[i].id.as_str()) {
            return true;
        }
        k += 1;
    }
    false
}

/// Accepts a transcript whose identifiers are unique and whose times run forward.
pub fn validate(us: &Vec<Utterance>) -> (r: Result<(), FunasrError>)
    ensures
        validation(r) == invalid(stored_complaints(us@, 0)),
{
    let mut i: usize = 0;
    while i < us.len()
        invariant
            i <= us@.len(),
            stored_complaints(us@, 0) == stored_complaints(us@, i as int),
        decreases us@.len() - i,
    {
        if seen_before(us, i) {
            return Err(
                FunasrError::Validation(cat2("重复的 utterance id：", us[i].id.as_str())),
            );
        }
        if us[i].end_ms < us[i].start_ms {
            return Err(
                FunasrError::Validation(cat2(us[i].id.as_str(), " 的结束时间早于开始时间")),
            );
        }
        i += 1;
    }
    Ok(())
}

/// A transcript made from segments that are in order passes its check.
pub proof fn a_made_transcript_is_valid(us: Seq<Utterance>, segments: Seq<Segment>, i: int)
    requires
        us.len() == segments.len(),
        0 <= i,
        segments_complaint(segments, 0) is None,
        forall|k: int| 0 <= k < us.len() ==> said_in(#[trigger] us[k], segments, k),
    ensures
        stored_complaints(us, i) is None,
    decreases us.len() - i,
{
    if i < us.len() {
        let ids = us.take(i).map_values(|u: Utterance| u.id@);
        assert(said_in(us[i], segments, i));
        if ids.contains(us[i].id@) {
            let j = choose|j: int| 0 <= j < ids.len() && ids[j] == us[i].id@;
            assert(said_in(us[j], segments, j));
            reveal_strlit("u");
            let a = utterance_id(j);
            let b = utterance_id(i);
            assert(a.skip(1) =~= padded(dec((j + 1) as nat), 4, '0'));
            assert(b.skip(1) =~= padded(dec((i + 1) as nat), 4, '0'));
            padded_decimals_differ((j + 1) as nat, (i + 1) as nat, 4);
        }
        no_complaint_at(segments, 0, i);
        a_made_transcript_is_valid(us, segments, i + 1);
    }
}

proof fn no_complaint_at(segments: Seq<Segment>, from: int, i: int)
    requires
        0 <= from <= i < segments.len(),
        segments_complaint(segments, from) is None,
    ensures
        segment_complaint(segments, i) is None,
    decreases i - from,
{
    if from < i {
        no_complaint_at(segments, from + 1, i);
    }
}

fn find_label(ls: &Vec<String>, l: &str) -> (r: usize)
    ensures
        r == place_from(views(ls@), l@, 0),
        r <= ls@.len(),
        r < ls@.len() ==> views(ls@).contains(l@),
        r == ls@.len() ==> !views(ls@).contains(l@),
{
    assert(views(ls@).len() == ls@.len());
    let mut i: usize = 0;
    while i < ls.len()
        invariant
            i <= ls@.len(),
            views(ls@).len() == ls@.len(),
            place_from(views(ls@), l@, 0) == place_from(views(ls@), l@, i as int),
            forall|j: int| 0 <= j < i ==> #[trigger] views(ls@)[j] != l@,
        decreases ls@.len() - i,
    {
        assert(views(ls@)[i as int] == ls@[i as int]@);
        if same(ls[i].as_str(), l) {
            return i;
        }
        i += 1;
    }
    i
}

proof fn labels_are_few(segments: Seq<Segment>, n: int)
    requires
        0 <= n,
    ensures
        labels(segments, n).len() <= n,
    decreases n,
{
    if n > 0 {
        labels_are_few(segments, n - 1);
    }
}

fn utterances_of(segments: &Vec<Segment>) -> (r: Result<Vec<Utterance>, FunasrError>)
    requires
        segments@.len() < u32::MAX,
    ensures
        match r {
            Ok(us) => segments_complaint(segments@, 0) is None && us@.len() == segments@.len() && (forall|
                k: int,
            |
                0 <= k < us@.len() ==> said_in(#[trigger] us@[k], segments@, k)),
            Err(e) => segments_complaint(segments@, 0) is Some && e@ == FunasrProblem::Validation(
                segments_complaint(segments@, 0)->0,
            ),
        },
{
    let mut known: Vec<String> = Vec::new();
    let mut out: Vec<Utterance> = Vec::new();
    let mut i: usize = 0;
    assert(views(known@) =~= Seq::<Seq<char>>::empty());
    while i < segments.len()
        invariant
            i <= segments@.len(),
            segments@.len() < u32::MAX,
            out@.len() == i,
            views(known@) == labels(segments@, i as int),
            segments_complaint(segments@, 0) == segments_complaint(segments@, i as int),
            forall|k: int| 0 <= k < i ==> said_in(#[trigger] out@[k], segments@, k),
        decreases segments@.len() - i,
    {
        let number: u64 = i as u64 + 1;
        if segments[i].end_ms < segments[i].start_ms {
            return Err(
                FunasrError::Validation(
                    cat3("segment ", decimal(number).as_str(), " 的结束时间早于开始时间"),
                ),
            );
        }
        let speaker_id: u32 = match &segments[i].speaker {
            SpeakerLabel::Unknown => 0,
            SpeakerLabel::Named(label) => {
                proof {
                    labels_are_few(segments@, i as int);
                    assert(views(known@).len() == known@.len());
                }
                let place: usize = find_label(&known, label.as_str());
                if place == known.len() {
                    let l = label.clone();
                    proof {
                        views_push(known@, l);
                    }
                    known.push(l);
                }
                place as u32 + 1
            },
            SpeakerLabel::Other => {
                return Err(
                    FunasrError::Validation(
                        cat3("segment ", decimal(number).as_str(), " 的 speaker 必须是字符串或 null"),
                    ),
                );
            },
        };
        let u = Utterance {
            id: cat2("u", decimal_padded(number, 4).as_str()),
            text: segments[i].text.clone(),
            start_ms: segments[i].start_ms,
            end_ms: segments[i].end_ms,
            speaker_id,
        };
        assert(said_in(u, segments@, i as int));
        out.push(u);
        i += 1;
    }
    Ok(out)
}

/// Reads the output of a runtime: one utterance for each segment, in order.
pub fn parse_transcript(schema_version: u32, segments: &Vec<Segment>) -> (r: Result<
    Vec<Utterance>,
    FunasrError,
>)
    requires
        segments@.len() < u32::MAX,
    ensures
        match r {
            Ok(us) => {
                &&& schema_version == SUPPORTED_SCHEMA_VERSION
                &&& segments_complaint(segments@, 0) is None
                &&& us@.len() == segments@.len()
                &&& forall|k: int| 0 <= k < us@.len() ==> said_in(#[trigger] us@[k], segments@, k)
                &&& stored_complaints(us@, 0) is None
            },
            Err(e) => if schema_version != SUPPORTED_SCHEMA_VERSION {
                e@ == FunasrProblem::Validation(
                    "不支持 normalized schema_version "@ + dec(schema_version as nat),
                )
            } else {
                segments_complaint(segments@, 0) is Some && e@ == FunasrProblem::Validation(
                    segments_complaint(segments@, 0)->0,
                )
            },
        },
{
    if schema_version != SUPPORTED_SCHEMA_VERSION {
        return Err(
            FunasrError::Validation(
                cat2("不支持 normalized schema_version ", decimal(schema_version as u64).as_str()),
            ),
        );
    }
    match utterances_of(segments) {
        Err(e) => Err(e),
        Ok(us) => {
            proof {
                a_made_transcript_is_valid(us@, segments@, 0);
            }
            match validate(&us) {
                Ok(()) => Ok(us),
                Err(e) => Err(e),
            }
        },
    }
}

proof fn labels_are_distinct(segments: Seq<Segment>, n: int)
    ensures
        labels(segments, n).no_duplicates(),
    decreases n,
{
    if n > 0 {
        labels_are_distinct(segments, n - 1);
    }
}

proof fn labels_grow(segments: Seq<Segment>, i: int, n: int)
    requires
        0 <= i <= n,
    ensures
        labels(segments, i).len() <= labels(segments, n).len(),
        labels(segments, n).take(labels(segments, i).len() as int) == labels(segments, i),
    decreases n - i,
{
    let a = labels(segments, i);
    if i < n {
        labels_grow(segments, i, n - 1);
        let b = labels(segments, n - 1);
        let c = labels(segments, n);
        assert(c.take(a.len() as int) =~= b.take(a.len() as int));
    } else {
        assert(a.take(a.len() as int) =~= a);
    }
}

proof fn place_is_first(ls: Seq<Seq<char>>, l: Seq<char>, i: int)
    requires
        0 <= i <= ls.len(),
    ensures
        i <= place_from(ls, l, i) <= ls.len(),
        place_from(ls, l, i) < ls.len() ==> ls[place_from(ls, l, i)] == l,
        forall|k: int| i <= k < place_from(ls, l, i) ==> #[trigger] ls[k] != l,
    decreases ls.len() - i,
{
    if i < ls.len() && ls[i] != l {
        place_is_first(ls, l, i + 1);
    }
}

proof fn the_number_is_a_place(segments: Seq<Segment>, i: int)
    requires
        0 <= i < segments.len(),
        segments[i].speaker is Named,
    ensures
        1 <= speaker_number(segments, i) <= labels(segments, segments.len() as int).len(),
        labels(segments, segments.len() as int)[speaker_number(segments, i) - 1] == segments[i].speaker->0@,
{
    let l = segments[i].speaker->0@;
    let before = labels(segments, i);
    let after = labels(segments, i + 1);
    let all = labels(segments, segments.len() as int);
    place_is_first(before, l, 0);
    labels_grow(segments, i, segments.len() as int);
    labels_grow(segments, i + 1, segments.len() as int);
    let p = place_from(before, l, 0);
    if p < before.len() {
        assert(all.take(before.len() as int)[p] == all[p]);
    } else {
        if before.contains(l) {
            let k = choose|k: int| 0 <= k < before.len() && before[k] == l;
            assert(before[k] != l);
        }
        assert(after == before.push(l));
        assert(all.take(after.len() as int)[p] == all[p]);
    }
}

/// Two segments have one speaker number if and only if they carry one label. Who is not known
/// has the number zero, and nobody else has.
pub proof fn one_label_has_one_number(us: Seq<Utterance>, segments: Seq<Segment>, i: int, j: int)
    requires
        us.len() == segments.len(),
        0 <= i < us.len(),
        0 <= j < us.len(),
        said_in(us[i], segments, i),
        said_in(us[j], segments, j),
    ensures
        segments[i].speaker is Named && segments[j].speaker is Named ==> (us[i].speaker_id == us[j].speaker_id
            <==> segments[i].speaker->0@ == segments[j].speaker->0@),
        us[i].speaker_id == 0 <==> segments[i].speaker !is Named,
{
    labels_are_distinct(segments, segments.len() as int);
    if segments[i].speaker is Named {
        the_number_is_a_place(segments, i);
        if segments[j].speaker is Named {
            the_number_is_a_place(segments, j);
        }
    }
}

proof fn an_earlier_number_occurs(segments: Seq<Segment>, n: int, p: int)
    requires
        0 <= n <= segments.len(),
        0 <= p < labels(segments, n).len(),
    ensures
        exists|j: int|
            0 <= j < n && (#[trigger] segments[j]).speaker is Named && segments[j].speaker->0@ == labels(
                segments,
                n,
            )[p],
    decreases n,
{
    let before = labels(segments, n - 1);
    if p < before.len() {
        an_earlier_number_occurs(segments, n - 1, p);
        labels_grow(segments, n - 1, n);
        let all = labels(segments, n);
        assert(all.take(before.len() as int)[p] == all[p]);
        let j = choose|j: int|
            0 <= j < n - 1 && (#[trigger] segments[j]).speaker is Named && segments[j].speaker->0@ == before[p];
        assert(segments[j].speaker->0@ == all[p]);
    } else {
        assert(segments[n - 1].speaker->0@ == labels(segments, n)[p]);
    }
}

/// Speakers are counted from one, without gaps, in the order in which they first speak: whoever
/// has a number above one speaks only after somebody with the number before it has spoken.
pub proof fn numbers_follow_the_first_words(us: Seq<Utterance>, segments: Seq<Segment>, i: int)
    requires
        us.len() == segments.len(),
        0 <= i < us.len(),
        forall|k: int| 0 <= k < us.len() ==> said_in(#[trigger] us[k], segments, k),
        us[i].speaker_id > 1,
    ensures
        exists|j: int| 0 <= j < i && (#[trigger] us[j]).speaker_id == us[i].speaker_id - 1,
{
    assert(said_in(us[i], segments, i));
    let before = labels(segments, i);
    let l = segments[i].speaker->0@;
    place_is_first(before, l, 0);
    let p = place_from(before, l, 0) - 1;
    assert(us[i].speaker_id == p + 2);
    an_earlier_number_occurs(segments, i, p);
    let j = choose|j: int|
        0 <= j < i && (#[trigger] segments[j]).speaker is Named && segments[j].speaker->0@ == before[p];
    assert(said_in(us[j], segments, j));
    the_number_is_a_place(segments, j);
    labels_are_distinct(segments, segments.len() as int);
    labels_grow(segments, i, segments.len() as int);
    let all = labels(segments, segments.len() as int);
    assert(all.take(before.len() as int)[p] == all[p]);
    assert(all[us[j].speaker_id - 1] == all[p]);
    assert(us[j].speaker_id == us[i].speaker_id - 1);
}

/// An utterance says what its segment says, at the same times, under a name that no other
/// utterance of the transcript has.
pub proof fn an_utterance_repeats_its_segment(us: Seq<Utterance>, segments: Seq<Segment>, i: int, j: int)
    requires
        us.len() == segments.len(),
        0 <= i < us.len(),
        0 <= j < us.len(),
        said_in(us[i], segments, i),
        said_in(us[j], segments, j),
    ensures
        us[i].text@ == segments[i].text@,
        us[i].start_ms == segments[i].start_ms,
        us[i].end_ms == segments[i].end_ms,
        us[i].id@[0] == 'u',
        us[i].id@.len() >= 5,
        value(us[i].id@.skip(1)) == i + 1,
        us[i].id@ == us[j].id@ <==> i == j,
{
    reveal_strlit("u");
    let d = padded(dec((i + 1) as nat), 4, '0');
    assert(us[i].id@.skip(1) =~= d);
    padded_reads_back((i + 1) as nat, 4);
    let e = padded(dec((j + 1) as nat), 4, '0');
    assert(us[j].id@.skip(1) =~= e);
    padded_reads_back((j + 1) as nat, 4);
}

/// A transcript is made unless a segment runs backwards or has a speaker that is no text.
pub proof fn orderly_segments_make_a_transcript(segments: Seq<Segment>, from: int)
    requires
        0 <= from,
    ensures
        segments_complaint(segments, from) is None <==> forall|i: int|
            from <= i < segments.len() ==> (#[trigger] segments[i]).start_ms <= segments[i].end_ms
                && segments[i].speaker !is Other,
    decreases segments.len() - from,
{
    if from < segments.len() {
        orderly_segments_make_a_transcript(segments, from + 1);
        if segments_complaint(segments, from) is None {
            assert(segment_complaint(segments, from) is None);
        } else if segment_complaint(segments, from) is Some {
            assert(segments[from].end_ms < segments[from].start_ms || segments[from].speaker is Other);
        }
    }
}

/// A transcript passes its check if and only if no name occurs twice and every utterance runs
/// forward.
pub proof fn a_valid_transcript_is_orderly(us: Seq<Utterance>)
    ensures
        stored_complaints(us, 0) is None <==> (forall|i: int|
            0 <= i < us.len() ==> (#[trigger] us[i]).start_ms <= us[i].end_ms) && (forall|i: int, j: int|
            0 <= i < j < us.len() ==> (#[trigger] us[i]).id@ != (#[trigger] us[j]).id@),
{
    valid_from(us, 0);
}

proof fn valid_from(us: Seq<Utterance>, from: int)
    requires
        0 <= from <= us.len(),
    ensures
        stored_complaints(us, from) is None <==> (forall|i: int|
            from <= i < us.len() ==> (#[trigger] us[i]).start_ms <= us[i].end_ms) && (forall|i: int, j: int|
            0 <= i < j < us.len() && from <= j ==> (#[trigger] us[i]).id@ != (#[trigger] us[j]).id@),
    decreases us.len() - from,
{
    if from < us.len() {
        valid_from(us, from + 1);
        let ids = us.take(from).map_values(|u: Utterance| u.id@);
        if ids.contains(us[from].id@) {
            let k = choose|k: int| 0 <= k < ids.len() && ids[k] == us[from].id@;
            assert(us[k].id@ == us[from].id@);
        } else {
            assert forall|i: int| 0 <= i < from implies (#[trigger] us[i]).id@ != us[from].id@ by {
                assert(ids[i] == us[i].id@);
            }
        }
    }
}

proof fn bytes_follow_on(s: Seq<char>, c: char)
    ensures
        vstd::utf8::encode_utf8(s.push(c)).len() == vstd::utf8::encode_utf8(s).len() + bytes_of(c),
    decreases s.len(),
{
    let t = s.push(c);
    if s.len() == 0 {
        assert(t.drop_first() =~= Seq::<char>::empty());
        assert(vstd::utf8::encode_utf8(t.drop_first()).len() == 0);
    } else {
        bytes_follow_on(s.drop_first(), c);
        assert(t.drop_first() =~= s.drop_first().push(c));
    }
}

/// The length of a text in bytes is that of its UTF-8 form.
pub proof fn bytes_are_those_of_utf8(s: Seq<char>)
    ensures
        byte_len(s) == vstd::utf8::encode_utf8(s).len(),
    decreases s.len(),
{
    if s.len() > 0 {
        bytes_are_those_of_utf8(s.drop_last());
        bytes_follow_on(s.drop_last(), s.last());
        assert(s.drop_last().push(s.last()) =~= s);
    }
}

/// A container was left behind exactly where it names a job that is known and an instance that is
/// not this one.
pub proof fn a_foreign_container_was_left_behind(name: Seq<char>, instance: Seq<char>, jobs: Seq<u128>, current: Seq<char>)
    requires
        !name.contains('|'),
        trimmed(name + seq!['|'] + instance) == name + seq!['|'] + instance,
    ensures
        left_behind(name + seq!['|'] + instance, jobs, current) <==> instance.len() > 0 && instance != current && exists|
            k: int,
        |
            0 <= k < jobs.len() && name == hyphenated(#[trigger] jobs[k]),
        trimmed(name) == name ==> !left_behind(name, jobs, current),
{
    reveal_strlit("|");
    let t = name + seq!['|'] + instance;
    let n = name.len() as int;
    crate::text::find_from_is_first(t, "|"@, 0);
    crate::text::find_from_is_first(name, "|"@, 0);
    assert(t.subrange(n, n + 1) =~= "|"@);
    assert(crate::text::at(t, "|"@, n));
    let i = find_from(t, "|"@, 0)->0;
    if i < n {
        assert(t.subrange(i, i + 1)[0] == '|');
        assert(name[i] == '|');
    }
    if let Some(j) = find_from(name, "|"@, 0) {
        assert(name.subrange(j, j + 1)[0] == '|');
        assert(name[j] == '|');
    }
    assert(t.take(n) =~= name);
    assert(t.skip(n + 1) =~= instance);
    let ids = id_texts(jobs);
    if ids.contains(name) {
        let k = choose|k: int| 0 <= k < ids.len() && ids[k] == name;
        assert(name == hyphenated(jobs[k]));
    }
    if exists|k: int| 0 <= k < jobs.len() && name == hyphenated(#[trigger] jobs[k]) {
        let k = choose|k: int| 0 <= k < jobs.len() && name == hyphenated(#[trigger] jobs[k]);
        assert(ids[k] == name);
    }
}

/// A runtime is accepted exactly where its versions are known, it says how it is started, and the
/// files that this takes are there and below its directory.
pub proof fn a_complete_manifest_is_accepted(m: RuntimeManifest, present: Seq<Seq<char>>)
    ensures
        manifest_problem(m, present) is None <==> {
            &&& m.contract_version == 1 || m.contract_version == 2
            &&& m.output_schema_version == 1
            &&& !leaves(m.output_schema_file@) && present.contains(m.output_schema_file@)
            &&& m.backend is NativeUv ==> m.entrypoint is Some && !leaves((m.entrypoint->0)@) && present.contains(
                (m.entrypoint->0)@,
            ) && present.contains("pyproject.toml"@) && present.contains(".python-version"@) && present.contains(
                "uv.lock"@,
            )
            &&& m.backend is DockerCompose ==> m.compose_file is Some && !leaves((m.compose_file->0)@)
                && present.contains((m.compose_file->0)@) && m.transcribe_service is Some && (
            m.transcribe_service->0)@.len() > 0 && m.probe_service is Some && (m.probe_service->0)@.len() > 0
        },
{
}

/// Everything that a native runtime writes lies below its data directory.
pub proof fn a_native_runtime_keeps_to_its_directory(data: Seq<char>, i: int)
    requires
        0 <= i < uv_environment(data).len(),
    ensures
        uv_environment(data)[i].1 == "1"@ || uv_environment(data)[i].1 == "only-managed"@ || exists|k: int|
            0 <= k < data_dirs().len() && uv_environment(data)[i].1 == below(data, #[trigger] data_dirs()[k]),
        forall|k: int|
            0 <= k < data_dirs().len() ==> exists|j: int|
                0 <= j < uv_environment(data).len() && (#[trigger] uv_environment(data)[j]).1 == below(
                    data,
                    #[trigger] data_dirs()[k],
                ),
{
    let d = data_dirs();
    let e = uv_environment(data);
    assert(e[0].1 == below(data, d[0]));
    assert(e[1].1 == below(data, d[2]));
    assert(e[4].1 == below(data, d[1]));
    assert(e[5].1 == below(data, d[3]));
    assert(e[6].1 == below(data, d[4]));
    assert(e[7].1 == below(data, d[5]));
    assert(e[8].1 == below(data, d[7]));
    assert(e[9].1 == below(data, d[6]));
}

/// Installing goes forward: each step that went well leads to one nearer to the end, and the end
/// is not left.
pub proof fn installing_goes_forward(step: InstallStep)
    ensures
        step is Installed ==> step_after(step) is Installed,
        !(step is Installed) ==> step_after(step) != step && !(step_after(step) is Version),
        step_after(step_after(step_after(step))) is Installed,
        step_after(step_after(step)) is Installed <==> !(step is Version),
        step_after(step) is Installed <==> step is SelfCheck || step is Installed,
{
}

} // verus!
