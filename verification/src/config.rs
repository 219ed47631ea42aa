//! The settings that are kept between runs.

use vstd::prelude::*;
use crate::content_results::endpoint::{canonical_of, endpoint_problem, url_parts};
use crate::content_results::publishing::{harmless_is_sanitized, not_in};
use crate::content_results::target::{
    ApiFormat, ContentSetupV1, InitialTargetV1, LlmConnection, ReadyGenerationTargetV1,
    TargetUnavailableCodeV1, TargetUnavailableV1, model_problem, resolve_content_setup,
    says_missing, sanitized_field, setup_for,
};
use crate::funasr::{
    FunasrError, FunasrProblem, RuntimeBackend, SUPPORTED_CONTRACT_VERSION, funasr_text,
};
use crate::jobs::{
    CreatedFrom, RetentionPolicy, RuntimeSource, SourceLanguage, TranscriptionSelection,
};
use crate::paths::{AppPaths, absolute, below, is_absolute, join_path};
use crate::text::{
    at, blank, cat2, cat3, drop_trailing, ends, ends_with, has, is_blank, lowered, no_control,
    opt_view, same, starts, starts_with, text, trim, trimmed, views, visible_ends, white,
    white_around_is_trimmed, without_trailing,
};

verus! {

// ---- Connections ----

impl ApiFormat {
    /// The name that is shown.
    pub open spec fn label_text(self) -> Seq<char> {
        match self {
            ApiFormat::OpenAiChatCompletions => "OpenAI Chat Completions"@,
            ApiFormat::AnthropicMessages => "Anthropic Messages"@,
        }
    }

    /// The name that is shown.
    pub fn label(self) -> (r: &'static str)
        ensures
            r@ == self.label_text(),
    {
        match self {
            ApiFormat::OpenAiChatCompletions => "OpenAI Chat Completions",
            ApiFormat::AnthropicMessages => "Anthropic Messages",
        }
    }

    /// The protocol with a name; a name that is not known means the first one.
    pub open spec fn of_label(label: Seq<char>) -> ApiFormat {
        if label == "Anthropic Messages"@ {
            ApiFormat::AnthropicMessages
        } else {
            ApiFormat::OpenAiChatCompletions
        }
    }

    /// The protocol with a name; a name that is not known means the first one.
    pub fn from_label(label: &str) -> (r: ApiFormat)
        ensures
            r == ApiFormat::of_label(label@),
    {
        if same(label, "Anthropic Messages") {
            ApiFormat::AnthropicMessages
        } else {
            ApiFormat::OpenAiChatCompletions
        }
    }
}

/// A protocol is found again by the name that is shown for it.
pub proof fn protocol_labels_read_back(format: ApiFormat)
    ensures
        ApiFormat::of_label(format.label_text()) == format,
{
    reveal_strlit("OpenAI Chat Completions");
    reveal_strlit("Anthropic Messages");
    assert("OpenAI Chat Completions"@[0] == 'O' && "Anthropic Messages"@[0] == 'A');
}

/// An address without white space around it and without slashes at its end.
pub fn normalize_base_url(base_url: &str) -> (r: String)
    ensures
        r@ == drop_trailing(trimmed(base_url@), '/'),
{
    text(without_trailing(trim(base_url), '/'))
}

// ---- The settings ----

/// The settings that are kept between runs.
#[derive(Debug, Clone, PartialEq)]
pub struct Config {
    pub working_dir: String,
    pub output_dir: String,
    /// The runtime that was chosen; none means the one that comes with the program.
    pub runtime_project: Option<String>,
    pub runtime_data_dir: String,
    pub llm_enabled: bool,
    pub llm_connection: Option<LlmConnection>,
    pub default_screenshots: bool,
    pub default_retention: RetentionPolicy,
    /// The selection of the latest job that was created in the window.
    pub last_transcription_selection: Option<TranscriptionSelection>,
    /// The name of this process; it is not kept.
    pub instance_nonce: String,
}

/// What a settings file holds; what is missing keeps its default.
#[derive(Debug)]
pub struct ConfigFile {
    pub working_dir: Option<String>,
    pub output_dir: Option<String>,
    pub runtime_project: Option<String>,
    pub runtime_data_dir: Option<String>,
    pub llm_enabled: Option<bool>,
    pub llm_connection: Option<LlmConnection>,
    pub default_screenshots: Option<bool>,
    pub default_retention: Option<RetentionPolicy>,
    pub last_transcription_selection: Option<TranscriptionSelection>,
}

/// What a new job takes from the settings.
#[derive(Debug, Clone, PartialEq)]
pub struct JobCreationDefaults {
    pub runtime_project: Option<String>,
    pub runtime_data_dir: String,
    pub requested_language: SourceLanguage,
    pub retention: RetentionPolicy,
}

/// What a runtime says of itself when a job is created.
#[derive(Debug, Clone)]
pub struct RuntimeDescription {
    pub source: RuntimeSource,
    pub project: String,
    pub data_dir: String,
    pub identity: String,
    pub backend: RuntimeBackend,
    pub model_description: Option<String>,
    pub contract_version: u32,
    pub ready: bool,
    pub display_name: Option<String>,
    pub recommended_languages: Vec<SourceLanguage>,
    pub known_limitations: Vec<String>,
    /// Whether the runtime can find out the language by itself, where it says so.
    pub auto_detection: Option<bool>,
}

/// Settings in which nothing was chosen.
pub open spec fn untouched(c: Config) -> bool {
    &&& c.runtime_project is None
    &&& !c.llm_enabled
    &&& c.llm_connection is None
    &&& !c.default_screenshots
    &&& c.default_retention is Recommended
    &&& c.last_transcription_selection is None
}

/// An optional text, or another in its place.
pub open spec fn or_else(o: Option<String>, other: Seq<char>) -> Seq<char> {
    match o {
        Some(s) => s@,
        None => other,
    }
}

/// A place that an early version of the program wrote into its settings by itself.
pub open spec fn private_default(p: Seq<char>) -> bool {
    (starts(p, "/Volumes/"@) && ends(p, "/bilibili-reader/jobs"@)) || (starts(p, "/Users/"@) && ends(
        p,
        "/Projects/funasr-docker"@,
    ))
}

/// Whether a place is one that an early version of the program wrote into its settings.
pub fn is_private_default(p: &str) -> (b: bool)
    ensures
        b == private_default(p@),
{
    (starts_with(p, "/Volumes/") && ends_with(p, "/bilibili-reader/jobs")) || (starts_with(p, "/Users/")
        && ends_with(p, "/Projects/funasr-docker"))
}

/// The runtime in use: the one that was chosen, or the one that comes with the program.
pub open spec fn runtime_in_use(chosen: Option<String>, bundled: Option<Seq<char>>) -> Option<Seq<char>> {
    match chosen {
        Some(p) => Some(p@),
        None => bundled,
    }
}

/// An optional borrowed text, by value.
pub open spec fn str_view(s: Option<&str>) -> Option<Seq<char>> {
    match s {
        Some(s) => Some(s@),
        None => None,
    }
}

/// A selection made from a description.
pub open spec fn selection_of(
    s: TranscriptionSelection,
    d: RuntimeDescription,
    language: SourceLanguage,
    created_from: CreatedFrom,
) -> bool {
    &&& s.runtime_source == d.source
    &&& s.runtime_project@ == d.project@
    &&& s.runtime_data_dir@ == d.data_dir@
    &&& s.runtime_identity@ == d.identity@
    &&& s.runtime_backend == d.backend
    &&& opt_view(s.model_description) == opt_view(d.model_description)
    &&& s.requested_language == language
    &&& s.created_from == created_from
}

/// The setup that the settings give.
pub open spec fn resolves(c: Config, setup: ContentSetupV1) -> bool {
    match c.llm_connection {
        Some(connection) => setup_for(
            c.llm_enabled,
            Some(connection),
            canonical_of(url_parts(trimmed(connection.base_url@))),
            setup,
        ),
        None => forall|canonical| #[trigger] setup_for(c.llm_enabled, None, canonical, setup),
    }
}

impl Config {
    /// The settings of a program that was never set up, given the places of the user, where their
    /// home is known, and the name of this process.
    pub fn default(paths: Option<&AppPaths>, instance_nonce: String) -> (r: Config)
        ensures
            r.working_dir@ == (match paths {
                Some(p) => p.jobs_dir@,
                None => "bi2read/Jobs"@,
            }),
            r.output_dir@ == (match paths {
                Some(p) => p.markdown_output_dir@,
                None => "bi2read/Documents"@,
            }),
            r.runtime_data_dir@ == (match paths {
                Some(p) => p.funasr_runtime_data_dir@,
                None => "bi2read/Runtime"@,
            }),
            r.instance_nonce == instance_nonce,
            untouched(r),
    {
        match paths {
            Some(p) => Config::for_paths(p, instance_nonce),
            None => Config {
                working_dir: text("bi2read/Jobs"),
                output_dir: text("bi2read/Documents"),
                runtime_project: None,
                runtime_data_dir: text("bi2read/Runtime"),
                llm_enabled: false,
                llm_connection: None,
                default_screenshots: false,
                default_retention: RetentionPolicy::Recommended,
                last_transcription_selection: None,
                instance_nonce,
            },
        }
    }

    /// The settings of a new installation.
    pub fn for_paths(paths: &AppPaths, instance_nonce: String) -> (r: Config)
        ensures
            r.working_dir@ == paths.jobs_dir@,
            r.output_dir@ == paths.markdown_output_dir@,
            r.runtime_data_dir@ == paths.funasr_runtime_data_dir@,
            r.instance_nonce == instance_nonce,
            untouched(r),
    {
        Config {
            working_dir: paths.jobs_dir.clone(),
            output_dir: paths.markdown_output_dir.clone(),
            runtime_project: None,
            runtime_data_dir: paths.funasr_runtime_data_dir.clone(),
            llm_enabled: false,
            llm_connection: None,
            default_screenshots: false,
            default_retention: RetentionPolicy::Recommended,
            last_transcription_selection: None,
            instance_nonce,
        }
    }

    /// The settings that a file gives, or those of a new installation where there is none.
    pub fn load_from(file: Option<ConfigFile>, paths: &AppPaths, instance_nonce: String) -> (r: Config)
        ensures
            r.instance_nonce == instance_nonce,
            match file {
                None => {
                    &&& r.working_dir@ == paths.jobs_dir@
                    &&& r.output_dir@ == paths.markdown_output_dir@
                    &&& r.runtime_data_dir@ == paths.funasr_runtime_data_dir@
                    &&& untouched(r)
                },
                Some(f) => {
                    &&& r.working_dir@ == or_else(f.working_dir, paths.jobs_dir@)
                    &&& r.output_dir@ == or_else(f.output_dir, paths.markdown_output_dir@)
                    &&& r.runtime_data_dir@ == or_else(f.runtime_data_dir, paths.funasr_runtime_data_dir@)
                    &&& r.runtime_project == f.runtime_project
                    &&& r.llm_enabled == (f.llm_enabled == Some(true))
                    &&& r.llm_connection == f.llm_connection
                    &&& r.default_screenshots == (f.default_screenshots == Some(true))
                    &&& r.default_retention == (match f.default_retention {
                        Some(p) => p,
                        None => RetentionPolicy::Recommended,
                    })
                    &&& r.last_transcription_selection == f.last_transcription_selection
                },
            },
    {
        let mut config = Config::for_paths(paths, instance_nonce);
        let file = match file {
            Some(f) => f,
            None => {
                return config;
            },
        };
        if let Some(value) = file.working_dir {
            config.working_dir = value;
        }
        if let Some(value) = file.output_dir {
            config.output_dir = value;
        }
        config.runtime_project = file.runtime_project;
        if let Some(value) = file.runtime_data_dir {
            config.runtime_data_dir = value;
        }
        if let Some(value) = file.llm_enabled {
            config.llm_enabled = value;
        }
        config.llm_connection = file.llm_connection;
        if let Some(value) = file.default_screenshots {
            config.default_screenshots = value;
        }
        if let Some(value) = file.default_retention {
            config.default_retention = value;
        }
        config.last_transcription_selection = file.last_transcription_selection;
        config
    }

    /// Replaces what an early version of the program wrote into the settings by itself.
    pub fn normalize_legacy_defaults(&mut self, paths: &AppPaths)
        ensures
            *final(self) == (Config {
                working_dir: final(self).working_dir,
                output_dir: final(self).output_dir,
                runtime_project: final(self).runtime_project,
                runtime_data_dir: final(self).runtime_data_dir,
                ..*old(self)
            }),
            final(self).working_dir@ == (if private_default(old(self).working_dir@) {
                paths.jobs_dir@
            } else {
                old(self).working_dir@
            }),
            final(self).output_dir@ == (if old(self).output_dir@.len() == 0 || private_default(
                old(self).output_dir@,
            ) {
                paths.markdown_output_dir@
            } else {
                old(self).output_dir@
            }),
            opt_view(final(self).runtime_project) == (match old(self).runtime_project {
                Some(p) => if p@.len() == 0 || private_default(p@) {
                    None
                } else {
                    Some(p@)
                },
                None => None,
            }),
            final(self).runtime_data_dir@ == (if old(self).runtime_data_dir@.len() == 0
                || private_default(old(self).runtime_data_dir@) {
                paths.funasr_runtime_data_dir@
            } else {
                old(self).runtime_data_dir@
            }),
    {
        if is_private_default(self.working_dir.as_str()) {
            self.working_dir = paths.jobs_dir.clone();
        }
        if self.output_dir.as_str().is_empty() || is_private_default(self.output_dir.as_str()) {
            self.output_dir = paths.markdown_output_dir.clone();
        }
        let stale = match &self.runtime_project {
            Some(p) => p.as_str().is_empty() || is_private_default(p.as_str()),
            None => false,
        };
        if stale {
            self.runtime_project = None;
        }
        if self.runtime_data_dir.as_str().is_empty() || is_private_default(
            self.runtime_data_dir.as_str(),
        ) {
            self.runtime_data_dir = paths.funasr_runtime_data_dir.clone();
        }
    }

    /// The runtime in use, given the one that comes with the program.
    pub fn effective_runtime_project(&self, bundled: Option<&str>) -> (r: Option<String>)
        ensures
            opt_view(r) == runtime_in_use(self.runtime_project, str_view(bundled)),
    {
        match &self.runtime_project {
            Some(p) => Some(p.clone()),
            None => match bundled {
                Some(b) => Some(text(b)),
                None => None,
            },
        }
    }

    /// What a new job takes from the settings. The language is always detected unless the job
    /// says otherwise.
    pub fn job_creation_defaults(&self, bundled: Option<&str>) -> (r: JobCreationDefaults)
        ensures
            opt_view(r.runtime_project) == runtime_in_use(self.runtime_project, str_view(bundled)),
            r.runtime_data_dir@ == self.runtime_data_dir@,
            r.requested_language is Auto,
            r.retention == self.default_retention,
    {
        JobCreationDefaults {
            runtime_project: self.effective_runtime_project(bundled),
            runtime_data_dir: self.runtime_data_dir.clone(),
            requested_language: SourceLanguage::Auto,
            retention: self.default_retention,
        }
    }

    /// The setup that a new job is frozen with.
    pub fn content_setup(&self) -> (r: ContentSetupV1)
        ensures
            resolves(*self, r),
            r.initial_target matches InitialTargetV1::Ready(t) ==> endpoint_problem(t.endpoint@) is None,
    {
        match &self.llm_connection {
            Some(c) => resolve_content_setup(self.llm_enabled, Some(c)),
            None => resolve_content_setup(self.llm_enabled, None),
        }
    }

    /// The target of a text that is made again now. Settings that are switched off have none.
    pub fn content_target(&self) -> (r: Result<ReadyGenerationTargetV1, TargetUnavailableV1>)
        ensures
            exists|setup: ContentSetupV1| #[trigger]
                resolves(*self, setup) && target_from(setup, r),
    {
        let setup = self.content_setup();
        let ghost s = setup;
        let r = target_of(setup);
        assert(resolves(*self, s));
        r
    }

    /// The language that a new job in the window starts with: that of the latest one if it had
    /// the same runtime, and Chinese otherwise.
    pub fn app_default_language(&self, runtime_identity: &str) -> (r: SourceLanguage)
        ensures
            r == (match self.last_transcription_selection {
                Some(s) if s.runtime_identity@ == runtime_identity@ => s.requested_language,
                _ => SourceLanguage::Zh,
            }),
    {
        match &self.last_transcription_selection {
            Some(s) => {
                if same(s.runtime_identity.as_str(), runtime_identity) {
                    s.requested_language
                } else {
                    SourceLanguage::Zh
                }
            },
            None => SourceLanguage::Zh,
        }
    }

    /// Where the runtime of a new job comes from.
    pub fn runtime_source(&self) -> (r: RuntimeSource)
        ensures
            r == (if self.runtime_project is Some {
                RuntimeSource::External
            } else {
                RuntimeSource::Bundled
            }),
    {
        if self.runtime_project.is_some() {
            RuntimeSource::External
        } else {
            RuntimeSource::Bundled
        }
    }

    /// The selection that a new job is frozen with, given what its runtime says of itself. The
    /// runtime has to speak the contract in use, and to be ready. `checked` is what the check of
    /// the selection says.
    pub fn job_transcription_selection(
        &self,
        bundled: Option<&str>,
        description: Result<RuntimeDescription, FunasrError>,
        created_from: CreatedFrom,
        requested_language: SourceLanguage,
        checked: Result<(), String>,
    ) -> (r: Result<TranscriptionSelection, String>)
        ensures
            match r {
                Ok(s) => {
                    &&& checked is Ok
                    &&& runtime_in_use(self.runtime_project, str_view(bundled)) is Some
                    &&& description matches Ok(d) && d.contract_version == SUPPORTED_CONTRACT_VERSION
                        && d.ready && selection_of(s, d, requested_language, created_from)
                },
                Err(e) => if runtime_in_use(self.runtime_project, str_view(bundled)) is None {
                    e@ == "未配置 FunASR Runtime"@
                } else {
                    match description {
                        Err(x) => e@ == "解析 FunASR Runtime："@ + funasr_text(x@),
                        Ok(d) => if d.contract_version != SUPPORTED_CONTRACT_VERSION {
                            e@ == funasr_text(
                                FunasrProblem::ContractUpgradeRequired(d.contract_version),
                            )
                        } else if !d.ready {
                            e@ == funasr_text(FunasrProblem::NotReady)
                        } else {
                            checked matches Err(x) && e@ == "任务转写选择无效："@ + x@
                        },
                    }
                },
            },
    {
        let defaults = self.job_creation_defaults(bundled);
        if defaults.runtime_project.is_none() {
            return Err(text("未配置 FunASR Runtime"));
        }
        let d = match description {
            Ok(d) => d,
            Err(e) => {
                return Err(cat2("解析 FunASR Runtime：", e.describe().as_str()));
            },
        };
        if d.contract_version != SUPPORTED_CONTRACT_VERSION {
            return Err(FunasrError::ContractUpgradeRequired(d.contract_version).describe());
        }
        if !d.ready {
            return Err(FunasrError::NotReady.describe());
        }
        if let Err(e) = checked {
            return Err(cat2("任务转写选择无效：", e.as_str()));
        }
        Ok(
            TranscriptionSelection {
                runtime_source: d.source,
                runtime_project: d.project,
                runtime_data_dir: d.data_dir,
                runtime_identity: d.identity,
                runtime_backend: d.backend,
                model_description: d.model_description,
                requested_language,
                created_from,
            },
        )
    }
}

/// Where the settings are kept.
pub fn config_path(paths: &AppPaths) -> (r: String)
    ensures
        r@ == paths.config_file@,
{
    paths.config_file.clone()
}

/// What a setup says of the target of a text that is made again now.
pub open spec fn target_from(
    setup: ContentSetupV1,
    r: Result<ReadyGenerationTargetV1, TargetUnavailableV1>,
) -> bool {
    match setup.initial_target {
        InitialTargetV1::Ready(t) => r == Ok::<ReadyGenerationTargetV1, TargetUnavailableV1>(t),
        InitialTargetV1::Unavailable(reason) => r == Err::<ReadyGenerationTargetV1, TargetUnavailableV1>(reason),
        InitialTargetV1::Disabled => r matches Err(reason) && says_missing(
            reason,
            TargetUnavailableCodeV1::ConnectionMissing,
            "未配置本地 AI"@,
            "llm_connection"@,
        ),
    }
}

/// The target that a setup names.
pub fn target_of(setup: ContentSetupV1) -> (r: Result<ReadyGenerationTargetV1, TargetUnavailableV1>)
    ensures
        target_from(setup, r),
{
    match setup.initial_target {
        InitialTargetV1::Ready(target) => Ok(target),
        InitialTargetV1::Unavailable(reason) => Err(reason),
        InitialTargetV1::Disabled => Err(
            TargetUnavailableV1 {
                code: TargetUnavailableCodeV1::ConnectionMissing,
                message: text("未配置本地 AI"),
                invalid_field: Some(text("llm_connection")),
            },
        ),
    }
}

// ---- A resolved setup ----

proof fn field_is_sanitized(f: Seq<char>)
    requires
        f == "llm_connection"@ || f == "llm_connection.base_url"@ || f == "llm_connection.model"@,
    ensures
        sanitized_field(f),
{
    reveal_strlit("llm_connection");
    reveal_strlit("llm_connection.base_url");
    reveal_strlit("llm_connection.model");
    visible_ends(f);
    assert(no_control(f));
    let t = lowered(f);
    assert(t =~= f);
    reveal_strlit("://");
    reveal_strlit("@");
    reveal_strlit("?");
    reveal_strlit("#");
    reveal_strlit("authorization");
    reveal_strlit("x-api-key");
    reveal_strlit("api_key");
    reveal_strlit("token");
    reveal_strlit("secret");
    reveal_strlit("password");
    not_in(t, "://"@, 0);
    not_in(t, "@"@, 0);
    not_in(t, "?"@, 0);
    not_in(t, "#"@, 0);
    not_in(t, "authorization"@, 3);
    not_in(t, "x-api-key"@, 0);
    not_in(t, "api_key"@, 1);
    not_in(t, "token"@, 2);
    not_in(t, "password"@, 0);
    assert(!(has(t, "secret"@))) by {
        if has(t, "secret"@) {
            let i = choose|i: int| at(t, "secret"@, i);
            let w = t.subrange(i, i + 6);
            assert(w[0] == 's' && w[2] == 'c');
            assert(t[i] == 's' && t[i + 2] == 'c');
        }
    }
}

/// A setup that was resolved is valid wherever its model name may be used, as its address always is
/// spelled canonically; one that says why there is no target is valid in any case.
pub proof fn a_resolved_setup_is_valid(
    enabled: bool,
    connection: Option<LlmConnection>,
    canonical: Result<Seq<char>, crate::content_results::error::SchemaProblem>,
    setup: ContentSetupV1,
)
    requires
        setup_for(enabled, connection, canonical, setup),
        setup.initial_target matches InitialTargetV1::Ready(t) ==> endpoint_problem(t.endpoint@) is None
            && model_problem(t.model@) is None,
    ensures
        setup.problem() is None,
{
    reveal_strlit("未配置本地 AI");
    reveal_strlit("本地 AI 地址不可用");
    reveal_strlit("未配置本地 AI 模型");
    harmless_is_sanitized("未配置本地 AI"@);
    harmless_is_sanitized("本地 AI 地址不可用"@);
    harmless_is_sanitized("未配置本地 AI 模型"@);
    field_is_sanitized("llm_connection"@);
    field_is_sanitized("llm_connection.base_url"@);
    field_is_sanitized("llm_connection.model"@);
}

// ---- Directories ----

/// What was found out about a directory that is to be written to.
#[derive(Debug)]
pub enum DirectoryFacts {
    /// The path is an ordinary file.
    File,
    /// The path is there; its resolved form, or why it could not be resolved.
    Exists(Result<String, String>),
    /// The path is not there. The names that are missing, the deepest first, and the resolved
    /// form of what is there above them, or why it could not be resolved.
    Missing { names: Vec<String>, parent_is_dir: bool, parent: Result<String, String> },
    /// Nothing above the path is there.
    NoParent,
}

/// A path with the last `n` of a list of names below it, the last one first.
pub open spec fn with_names(base: Seq<char>, names: Seq<Seq<char>>, n: int) -> Seq<char>
    decreases n,
{
    if n <= 0 {
        base
    } else {
        with_names(below(base, names[n - 1]), names, n - 1)
    }
}

/// Where to try whether a directory can be written to, and its resolved form.
pub open spec fn directory_plan(path: Seq<char>, label: Seq<char>, facts: DirectoryFacts) -> Result<
    (Seq<char>, Seq<char>),
    Seq<char>,
> {
    if !absolute(path) {
        Err(label + "必须是绝对路径"@)
    } else {
        match facts {
            DirectoryFacts::File => Err(label + "指向普通文件"@),
            DirectoryFacts::NoParent => Err(label + "没有可创建的父目录"@),
            DirectoryFacts::Exists(r) => match r {
                Ok(p) => Ok((p@, p@)),
                Err(e) => Err("无法解析"@ + label + "："@ + e@),
            },
            DirectoryFacts::Missing { names, parent_is_dir, parent } => if !parent_is_dir {
                Err(label + "的已有父路径不是目录"@)
            } else {
                match parent {
                    Ok(p) => Ok((p@, with_names(p@, views(names@), names@.len() as int))),
                    Err(e) => Err("无法解析"@ + label + "父目录："@ + e@),
                }
            },
        }
    }
}

/// A pair of texts or a message, by value.
pub open spec fn plan_view(r: Result<(String, String), String>) -> Result<(Seq<char>, Seq<char>), Seq<char>> {
    match r {
        Ok((a, b)) => Ok((a@, b@)),
        Err(e) => Err(e@),
    }
}

/// Says where to try whether a directory can be written to, and gives its resolved form.
pub fn plan_writable_directory(path: &str, label: &str, facts: DirectoryFacts) -> (r: Result<
    (String, String),
    String,
>)
    ensures
        plan_view(r) == directory_plan(path@, label@, facts),
{
    if !is_absolute(path) {
        return Err(cat2(label, "必须是绝对路径"));
    }
    match facts {
        DirectoryFacts::File => Err(cat2(label, "指向普通文件")),
        DirectoryFacts::NoParent => Err(cat2(label, "没有可创建的父目录")),
        DirectoryFacts::Exists(r) => match r {
            Ok(p) => Ok((p.clone(), p)),
            Err(e) => Err(crate::text::cat4("无法解析", label, "：", e.as_str())),
        },
        DirectoryFacts::Missing { names, parent_is_dir, parent } => {
            if !parent_is_dir {
                return Err(cat2(label, "的已有父路径不是目录"));
            }
            let base = match parent {
                Ok(p) => p,
                Err(e) => {
                    return Err(crate::text::cat4("无法解析", label, "父目录：", e.as_str()));
                },
            };
            let mut resolved = base.clone();
            let mut n: usize = names.len();
            assert(views(names@).len() == names@.len());
            while n > 0
                invariant
                    n <= names@.len(),
                    views(names@).len() == names@.len(),
                    with_names(base@, views(names@), names@.len() as int) == with_names(
                        resolved@,
                        views(names@),
                        n as int,
                    ),
                decreases n,
            {
                assert(views(names@)[n - 1] == names@[n - 1]@);
                resolved = join_path(resolved.as_str(), names[n - 1].as_str());
                n -= 1;
            }
            Ok((base, resolved))
        },
    }
}

/// Accepts a directory that has to be there, given whether it is and its resolved form.
pub fn absolute_existing_directory(path: &str, label: &str, is_dir: bool, resolved: Result<String, String>) -> (r:
    Result<String, String>)
    ensures
        match r {
            Ok(p) => absolute(path@) && is_dir && resolved == Ok::<String, String>(p),
            Err(e) => if !absolute(path@) {
                e@ == label@ + "必须是绝对路径"@
            } else if !is_dir {
                e@ == label@ + "不是有效目录："@ + path@
            } else {
                resolved matches Err(x) && e@ == "无法解析"@ + label@ + "："@ + x@
            },
        },
{
    if !is_absolute(path) {
        return Err(cat2(label, "必须是绝对路径"));
    }
    if !is_dir {
        return Err(cat3(label, "不是有效目录：", path));
    }
    match resolved {
        Ok(p) => Ok(p),
        Err(e) => Err(crate::text::cat4("无法解析", label, "：", e.as_str())),
    }
}

// ---- The settings window ----

/// What the settings window shows.
#[derive(Debug, PartialEq)]
pub struct SettingsView {
    pub working_dir: String,
    pub output_dir: String,
    pub runtime_project: String,
    pub runtime_bundled: bool,
    pub funasr_status: String,
    pub runtime_data_dir: String,
    pub llm_enabled: bool,
    pub llm_connection_name: String,
    pub llm_model: String,
    pub llm_base_url: String,
    pub llm_api_format: String,
    pub llm_remote_warn: bool,
    pub default_screenshots: bool,
    pub default_retention: String,
}

/// A part of an optional connection, or an empty text.
pub open spec fn connection_part(c: Option<LlmConnection>, part: spec_fn(LlmConnection) -> Seq<char>) -> Seq<char> {
    match c {
        Some(c) => part(c),
        None => Seq::empty(),
    }
}

impl Config {
    /// What the settings window shows. The state of the runtime in use is given where there is
    /// one, and whether the address of the connection is on this machine.
    pub fn to_view(&self, bundled: Option<&str>, status: Option<String>, is_local: bool) -> (r: SettingsView)
        ensures
            r.working_dir@ == self.working_dir@,
            r.output_dir@ == self.output_dir@,
            r.runtime_project@ == (match runtime_in_use(self.runtime_project, str_view(bundled)) {
                Some(p) => p,
                None => Seq::empty(),
            }),
            r.runtime_bundled == (self.runtime_project is None && bundled is Some),
            r.funasr_status@ == (if runtime_in_use(self.runtime_project, str_view(bundled)) is Some {
                or_else(status, "未配置"@)
            } else {
                "未配置"@
            }),
            r.runtime_data_dir@ == self.runtime_data_dir@,
            r.llm_enabled == self.llm_enabled,
            r.llm_connection_name@ == connection_part(self.llm_connection, |c: LlmConnection| c.name@),
            r.llm_model@ == connection_part(self.llm_connection, |c: LlmConnection| c.model@),
            r.llm_base_url@ == connection_part(self.llm_connection, |c: LlmConnection| c.base_url@),
            r.llm_api_format@ == (match self.llm_connection {
                Some(c) => c.api_format.label_text(),
                None => ApiFormat::OpenAiChatCompletions.label_text(),
            }),
            r.llm_remote_warn == (self.llm_enabled && self.llm_connection is Some && (
            self.llm_connection->0).base_url@.len() > 0 && !is_local),
            r.default_screenshots == self.default_screenshots,
            r.default_retention@ == self.default_retention.label_text(),
    {
        let project = self.effective_runtime_project(bundled);
        let funasr_status = match &project {
            Some(_) => match status {
                Some(s) => s,
                None => text("未配置"),
            },
            None => text("未配置"),
        };
        let runtime_project = match project {
            Some(p) => p,
            None => String::new(),
        };
        let (base_url, api_format, model, name) = match &self.llm_connection {
            Some(c) => (c.base_url.clone(), c.api_format.label(), c.model.clone(), c.name.clone()),
            None => (
                String::new(),
                ApiFormat::OpenAiChatCompletions.label(),
                String::new(),
                String::new(),
            ),
        };
        let remote = self.llm_connection.is_some() && !base_url.as_str().is_empty() && !is_local;
        SettingsView {
            working_dir: self.working_dir.clone(),
            output_dir: self.output_dir.clone(),
            runtime_project,
            runtime_bundled: self.runtime_project.is_none() && bundled.is_some(),
            funasr_status,
            runtime_data_dir: self.runtime_data_dir.clone(),
            llm_enabled: self.llm_enabled,
            llm_connection_name: name,
            llm_model: model,
            llm_base_url: base_url,
            llm_api_format: text(api_format),
            llm_remote_warn: remote && self.llm_enabled,
            default_screenshots: self.default_screenshots,
            default_retention: text(self.default_retention.label()),
        }
    }
}

/// Which runtime the settings window asks for.
#[derive(Debug)]
pub enum RuntimeRequest {
    /// The one that comes with the program.
    Bundled,
    /// None.
    Unset,
    /// One at a place.
    At(String),
}

/// Which runtime the settings window asks for.
pub fn runtime_request(s: &SettingsView) -> (r: RuntimeRequest)
    ensures
        match r {
            RuntimeRequest::Bundled => s.runtime_bundled,
            RuntimeRequest::Unset => !s.runtime_bundled && blank(s.runtime_project@),
            RuntimeRequest::At(p) => !s.runtime_bundled && !blank(s.runtime_project@) && p@
                == s.runtime_project@,
        },
{
    if s.runtime_bundled {
        RuntimeRequest::Bundled
    } else if is_blank(s.runtime_project.as_str()) {
        RuntimeRequest::Unset
    } else {
        RuntimeRequest::At(s.runtime_project.clone())
    }
}

/// What became of the runtime that the settings window asks for.
#[derive(Debug)]
pub enum RuntimeAnswer {
    /// It comes with the program; whether there is one, and whether it could be read.
    Bundled { available: bool, loaded: Result<(), FunasrError> },
    /// None was asked for.
    Unset,
    /// It is at a place: that place resolved, or why not, and whether it could be read.
    At { directory: Result<String, String>, loaded: Result<(), FunasrError> },
}

/// The runtime that is kept, or why none is.
pub open spec fn chosen_runtime(a: RuntimeAnswer) -> Result<Option<Seq<char>>, Seq<char>> {
    match a {
        RuntimeAnswer::Bundled { available, loaded } => if !available {
            Err("内置 FunASR Runtime 不可用"@)
        } else {
            match loaded {
                Ok(_) => Ok(None),
                Err(e) => Err("内置 FunASR Runtime："@ + funasr_text(e@)),
            }
        },
        RuntimeAnswer::Unset => Ok(None),
        RuntimeAnswer::At { directory, loaded } => match directory {
            Err(e) => Err(e@),
            Ok(p) => match loaded {
                Ok(_) => Ok(Some(p@)),
                Err(e) => Err("FunASR Runtime："@ + funasr_text(e@)),
            },
        },
    }
}

/// An optional text or a message, by value.
pub open spec fn choice_view(r: Result<Option<String>, String>) -> Result<Option<Seq<char>>, Seq<char>> {
    match r {
        Ok(o) => Ok(opt_view(o)),
        Err(e) => Err(e@),
    }
}

/// The runtime that is kept, or why none is.
pub fn choose_runtime(a: RuntimeAnswer) -> (r: Result<Option<String>, String>)
    ensures
        choice_view(r) == chosen_runtime(a),
{
    match a {
        RuntimeAnswer::Bundled { available, loaded } => {
            if !available {
                return Err(text("内置 FunASR Runtime 不可用"));
            }
            match loaded {
                Ok(()) => Ok(None),
                Err(e) => Err(cat2("内置 FunASR Runtime：", e.describe().as_str())),
            }
        },
        RuntimeAnswer::Unset => Ok(None),
        RuntimeAnswer::At { directory, loaded } => match directory {
            Err(e) => Err(e),
            Ok(p) => match loaded {
                Ok(()) => Ok(Some(p)),
                Err(e) => Err(cat2("FunASR Runtime：", e.describe().as_str())),
            },
        },
    }
}

/// The connection that the settings window asks for: one is kept while it is switched on, or
/// has an address.
pub open spec fn wanted_connection(s: SettingsView, c: Option<LlmConnection>) -> bool {
    if s.llm_enabled || s.llm_base_url@.len() > 0 {
        c matches Some(c) && c.id@ == "default"@ && c.name@ == s.llm_connection_name@ && c.api_format
            == ApiFormat::of_label(s.llm_api_format@) && c.base_url@ == drop_trailing(
            trimmed(s.llm_base_url@),
            '/',
        ) && c.model@ == s.llm_model@
    } else {
        c is None
    }
}

fn connection_of(s: &SettingsView) -> (r: Option<LlmConnection>)
    ensures
        wanted_connection(*s, r),
{
    if s.llm_enabled || !s.llm_base_url.as_str().is_empty() {
        Some(
            LlmConnection {
                id: text("default"),
                name: s.llm_connection_name.clone(),
                api_format: ApiFormat::from_label(s.llm_api_format.as_str()),
                base_url: normalize_base_url(s.llm_base_url.as_str()),
                model: s.llm_model.clone(),
            },
        )
    } else {
        None
    }
}

impl Config {
    /// Takes the settings over from the window, given what became of each directory and of the
    /// runtime. What was checked before the first failure is kept.
    pub fn apply_view(
        &mut self,
        s: &SettingsView,
        working: Result<String, String>,
        output: Result<String, String>,
        runtime_data: Result<String, String>,
        runtime: RuntimeAnswer,
    ) -> (r: Result<(), String>)
        ensures
            final(self).working_dir@ == (match working {
                Ok(p) => p@,
                Err(_) => old(self).working_dir@,
            }),
            final(self).output_dir@ == (match (working, output) {
                (Ok(_), Ok(p)) => p@,
                _ => old(self).output_dir@,
            }),
            final(self).runtime_data_dir@ == (match (working, output, runtime_data) {
                (Ok(_), Ok(_), Ok(p)) => p@,
                _ => old(self).runtime_data_dir@,
            }),
            match (working, output, runtime_data, chosen_runtime(runtime)) {
                (Err(e), _, _, _) => r matches Err(m) && m@ == e@,
                (_, Err(e), _, _) => r matches Err(m) && m@ == e@,
                (_, _, Err(e), _) => r matches Err(m) && m@ == e@,
                (_, _, _, Err(e)) => r matches Err(m) && m@ == e,
                _ => r is Ok,
            },
            match r {
                Err(_) => *final(self) == (Config {
                    working_dir: final(self).working_dir,
                    output_dir: final(self).output_dir,
                    runtime_data_dir: final(self).runtime_data_dir,
                    ..*old(self)
                }),
                Ok(_) => {
                    &&& chosen_runtime(runtime) == Ok::<Option<Seq<char>>, Seq<char>>(
                        opt_view(final(self).runtime_project),
                    )
                    &&& final(self).llm_enabled == s.llm_enabled
                    &&& wanted_connection(*s, final(self).llm_connection)
                    &&& final(self).default_screenshots == s.default_screenshots
                    &&& final(self).default_retention == RetentionPolicy::of_label(s.default_retention@)
                    &&& final(self).last_transcription_selection == old(self).last_transcription_selection
                    &&& final(self).instance_nonce == old(self).instance_nonce
                },
            },
    {
        match working {
            Ok(p) => self.working_dir = p,
            Err(e) => {
                return Err(e);
            },
        }
        match output {
            Ok(p) => self.output_dir = p,
            Err(e) => {
                return Err(e);
            },
        }
        match runtime_data {
            Ok(p) => self.runtime_data_dir = p,
            Err(e) => {
                return Err(e);
            },
        }
        match choose_runtime(runtime) {
            Ok(p) => self.runtime_project = p,
            Err(e) => {
                return Err(e);
            },
        }
        self.llm_enabled = s.llm_enabled;
        self.llm_connection = connection_of(s);
        self.default_screenshots = s.default_screenshots;
        self.default_retention = RetentionPolicy::from_label(s.default_retention.as_str());
        Ok(())
    }
}

/// An address is kept without the white space around it and without the strokes at its end.
pub proof fn an_address_is_kept_bare(before: Seq<char>, s: Seq<char>, n: nat, after: Seq<char>)
    requires
        forall|k: int| 0 <= k < before.len() ==> white(#[trigger] before[k]),
        forall|k: int| 0 <= k < after.len() ==> white(#[trigger] after[k]),
        s.len() > 0,
        !white(s[0]) && !white(s.last()),
        s.last() != '/',
    ensures
        drop_trailing(trimmed(before + (s + Seq::new(n, |i: int| '/')) + after), '/') == s,
{
    let strokes = Seq::new(n, |i: int| '/');
    let t = s + strokes;
    crate::text::white_takes_no_ink('/');
    if n > 0 {
        assert(t.last() == strokes.last());
    } else {
        assert(t =~= s);
    }
    assert(t[0] == s[0]);
    white_around_is_trimmed(before, t, after);
    strokes_are_dropped(s, n);
}

proof fn strokes_are_dropped(s: Seq<char>, n: nat)
    requires
        s.len() > 0,
        s.last() != '/',
    ensures
        drop_trailing(s + Seq::new(n, |i: int| '/'), '/') == s,
    decreases n,
{
    let t = s + Seq::new(n, |i: int| '/');
    if n > 0 {
        let m = (n - 1) as nat;
        assert(t.last() == '/');
        assert(t.drop_last() =~= s + Seq::new(m, |i: int| '/'));
        strokes_are_dropped(s, m);
    } else {
        assert(t =~= s);
    }
}

/// A directory that is to be made lies below the one that is there: the names are put to it one
/// after another, the innermost, which is listed first, at the end.
pub proof fn the_innermost_name_comes_last(base: Seq<char>, names: Seq<Seq<char>>)
    ensures
        names.len() == 0 ==> with_names(base, names, names.len() as int) == base,
        names.len() > 0 ==> with_names(base, names, names.len() as int) == below(
            with_names(base, names.skip(1), names.len() - 1),
            names.first(),
        ),
        (forall|k: int| 0 <= k < names.len() ==> !absolute(#[trigger] names[k])) ==> base.is_prefix_of(
            with_names(base, names, names.len() as int),
        ) && (names.len() > 0 ==> names.first().is_suffix_of(with_names(base, names, names.len() as int))),
{
    if names.len() > 0 {
        all_but_the_innermost(base, names, names.len() as int);
    }
    if forall|k: int| 0 <= k < names.len() ==> !absolute(#[trigger] names[k]) {
        names_go_behind(base, names, names.len() as int);
        if names.len() > 0 {
            assert(!absolute(names[0]));
        }
    }
}

proof fn all_but_the_innermost(base: Seq<char>, names: Seq<Seq<char>>, n: int)
    requires
        1 <= n <= names.len(),
    ensures
        with_names(base, names, n) == below(with_names(base, names.skip(1), n - 1), names[0]),
    decreases n,
{
    if n > 1 {
        assert(names.skip(1)[n - 2] == names[n - 1]);
        all_but_the_innermost(below(base, names[n - 1]), names, n - 1);
    } else {
        reveal_with_fuel(with_names, 2);
    }
}

proof fn names_go_behind(base: Seq<char>, names: Seq<Seq<char>>, n: int)
    requires
        0 <= n <= names.len(),
        forall|k: int| 0 <= k < names.len() ==> !absolute(#[trigger] names[k]),
    ensures
        base.is_prefix_of(with_names(base, names, n)),
    decreases n,
{
    if n > 0 {
        let next = below(base, names[n - 1]);
        assert(!absolute(names[n - 1]));
        assert(base.is_prefix_of(next));
        names_go_behind(next, names, n - 1);
    }
}

/// A place on somebody's own disk is no place to keep as a default: these two are told by their
/// first and their last names, whatever stands between.
pub proof fn private_places_are_told(x: Seq<char>, p: Seq<char>)
    ensures
        private_default("/Volumes/"@ + x + "/bilibili-reader/jobs"@),
        private_default("/Users/"@ + x + "/Projects/funasr-docker"@),
        private_default(p) ==> "/Volumes/"@.is_prefix_of(p) || "/Users/"@.is_prefix_of(p),
        private_default(p) ==> "/bilibili-reader/jobs"@.is_suffix_of(p) || "/Projects/funasr-docker"@.is_suffix_of(p),
{
    let a = "/Volumes/"@;
    let b = "/bilibili-reader/jobs"@;
    let c = "/Users/"@;
    let d = "/Projects/funasr-docker"@;
    assert((a + x + b).subrange(0, a.len() as int) =~= a);
    assert((a + x + b).subrange(a.len() + x.len() as int, a.len() + x.len() + b.len() as int) =~= b);
    assert((c + x + d).subrange(0, c.len() as int) =~= c);
    assert((c + x + d).subrange(c.len() + x.len() as int, c.len() + x.len() + d.len() as int) =~= d);
}

/// What the settings show of a connection is what they are read back as, where its address is kept
/// bare and there is an address or the use of it is switched on.
pub proof fn a_shown_connection_reads_back(shown: LlmConnection, s: SettingsView, read: Option<LlmConnection>)
    requires
        s.llm_connection_name@ == shown.name@,
        s.llm_model@ == shown.model@,
        s.llm_base_url@ == shown.base_url@,
        s.llm_api_format@ == shown.api_format.label_text(),
        shown.base_url@.len() > 0,
        !white(shown.base_url@[0]) && !white(shown.base_url@.last()) && shown.base_url@.last() != '/',
        wanted_connection(s, read),
    ensures
        read is Some,
        (read->0).id@ == "default"@,
        (read->0).name@ == shown.name@,
        (read->0).model@ == shown.model@,
        (read->0).base_url@ == shown.base_url@,
        (read->0).api_format == shown.api_format,
{
    protocol_labels_read_back(shown.api_format);
    let none = Seq::<char>::empty();
    let u = shown.base_url@;
    assert(u =~= none + (u + Seq::new(0, |i: int| '/')) + none);
    an_address_is_kept_bare(none, u, 0, none);
}

/// Settings that nobody has changed use no model and no runtime of their own: a result is then not
/// asked of a model.
pub proof fn unchanged_settings_use_no_model(c: Config, bundled: Option<Seq<char>>)
    requires
        untouched(c),
    ensures
        runtime_in_use(c.runtime_project, bundled) == bundled,
        !c.llm_enabled && c.llm_connection is None,
        !c.default_screenshots,
        c.default_retention is Recommended,
        c.last_transcription_selection is None,
{
}

/// A runtime of the user's own goes before the one that comes with the program.
pub proof fn an_own_runtime_goes_first(own: String, bundled: Option<Seq<char>>)
    ensures
        runtime_in_use(Some(own), bundled) == Some(own@),
        runtime_in_use(None, bundled) == bundled,
{
}

} // verus!
