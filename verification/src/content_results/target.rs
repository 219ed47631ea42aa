//! The model that makes text: where it is, what it is asked with, and why there is none.

use vstd::prelude::*;
use super::endpoint::{
    bare_host, canonical_local_endpoint, canonical_of, endpoint_problem, local_host,
    require_canonical_local_endpoint, spelled, url_parts,
};
use super::error::{ContentSchemaError, SchemaProblem, broken, found, violation};
use crate::text::{
    blank, contains, copy_opt, has, has_no_control, is_blank, lower_text, lowered, no_control, opt_view, same,
    text, trim, trimmed, a_part_is_found, control,
};

verus! {

/// The schema version that is written.
pub const CONTENT_SCHEMA_VERSION: u32 = 2;

/// The set of recipes in use.
pub const CONTENT_RECIPE_SET_VERSION: u32 = 1;

/// The longest message about a missing target, in characters.
pub const MAX_UNAVAILABLE_MESSAGE_CHARS: usize = 160;

/// The longest field name in such a message.
pub const MAX_UNAVAILABLE_FIELD_CHARS: usize = 64;

/// The bits of the double-precision number 0.2.
pub const TEMPERATURE_BITS: u64 = 0x3fc999999999999a;

/// The schema versions that can be read.
pub open spec fn readable_version(version: u32) -> bool {
    1 <= version <= CONTENT_SCHEMA_VERSION
}

/// Whether a schema version can be read: the first published one up to the one in use.
pub fn is_supported_content_schema_version(version: u32) -> (b: bool)
    ensures
        b == readable_version(version),
{
    version == 1 || version == 2
}

/// The kind of service that answers.
#[derive(Debug, Clone, Copy, PartialEq, Eq, Structural)]
pub enum GenerationProviderV1 {
    OpenAiCompatible,
    AnthropicCompatible,
}

/// The protocol that the service speaks.
#[derive(Debug, Clone, Copy, PartialEq, Eq, Structural)]
pub enum GenerationApiFormatV1 {
    OpenAiChatCompletions,
    AnthropicMessages,
}

/// The fixed parameters of a request. The temperature is kept as the bits of a
/// double-precision number.
#[derive(Debug, Clone, Copy, PartialEq, Eq, Structural)]
pub enum GenerationParametersV1 {
    OpenAiChatCompletions { temperature_bits: u64 },
    AnthropicMessages { max_tokens: u32 },
}

impl GenerationParametersV1 {
    /// What is wrong with the parameters.
    pub open spec fn problem(self) -> Option<SchemaProblem> {
        match self {
            GenerationParametersV1::OpenAiChatCompletions { temperature_bits } => if temperature_bits
                == TEMPERATURE_BITS {
                None
            } else {
                broken("OpenAI temperature must be exactly 0.2"@)
            },
            GenerationParametersV1::AnthropicMessages { max_tokens } => if max_tokens == 4096 {
                None
            } else {
                broken("Anthropic max_tokens must be exactly 4096"@)
            },
        }
    }

    /// The parameters of every OpenAI-compatible request.
    pub fn openai_default() -> (r: GenerationParametersV1)
        ensures
            r == (GenerationParametersV1::OpenAiChatCompletions { temperature_bits: TEMPERATURE_BITS }),
            r.problem() is None,
    {
        GenerationParametersV1::OpenAiChatCompletions { temperature_bits: TEMPERATURE_BITS }
    }

    /// The parameters of every Anthropic-compatible request.
    pub fn anthropic_default() -> (r: GenerationParametersV1)
        ensures
            r == (GenerationParametersV1::AnthropicMessages { max_tokens: 4096 }),
            r.problem() is None,
    {
        GenerationParametersV1::AnthropicMessages { max_tokens: 4096 }
    }

    /// The token limit of a connection probe.
    pub fn max_tokens_for_probe(&self) -> (r: u32)
        ensures
            r == (match *self {
                GenerationParametersV1::AnthropicMessages { max_tokens } => max_tokens,
                GenerationParametersV1::OpenAiChatCompletions { .. } => 4096,
            }),
    {
        match self {
            GenerationParametersV1::AnthropicMessages { max_tokens } => *max_tokens,
            GenerationParametersV1::OpenAiChatCompletions { .. } => 4096,
        }
    }

    /// Accepts the fixed parameters only.
    pub fn validate(&self) -> (r: Result<(), ContentSchemaError>)
        ensures
            found(r) == self.problem(),
    {
        match *self {
            GenerationParametersV1::OpenAiChatCompletions { temperature_bits } => {
                if temperature_bits == TEMPERATURE_BITS {
                    Ok(())
                } else {
                    Err(violation("OpenAI temperature must be exactly 0.2"))
                }
            },
            GenerationParametersV1::AnthropicMessages { max_tokens } => {
                if max_tokens == 4096 {
                    Ok(())
                } else {
                    Err(violation("Anthropic max_tokens must be exactly 4096"))
                }
            },
        }
    }
}

/// What is wrong with the spelling of a model name.
pub open spec fn model_problem(model: Seq<char>) -> Option<SchemaProblem> {
    if trimmed(model) != model {
        broken("model must use its canonical trimmed spelling"@)
    } else if !no_control(model) {
        broken("model must not contain control characters"@)
    } else {
        None
    }
}

/// Accepts a trimmed model name without control characters.
pub fn validate_canonical_model(model: &str) -> (r: Result<(), ContentSchemaError>)
    ensures
        found(r) == model_problem(model@),
{
    if !same(trim(model), model) {
        return Err(violation("model must use its canonical trimmed spelling"));
    }
    if !has_no_control(model) {
        return Err(violation("model must not contain control characters"));
    }
    Ok(())
}

/// A provider, a protocol and parameters that belong together.
pub open spec fn compatible(
    provider: GenerationProviderV1,
    api_format: GenerationApiFormatV1,
    parameters: GenerationParametersV1,
) -> bool {
    match provider {
        GenerationProviderV1::OpenAiCompatible => api_format is OpenAiChatCompletions && parameters is OpenAiChatCompletions,
        GenerationProviderV1::AnthropicCompatible => api_format is AnthropicMessages && parameters is AnthropicMessages,
    }
}

/// Whether a provider, a protocol and parameters belong together.
pub fn is_compatible(
    provider: GenerationProviderV1,
    api_format: GenerationApiFormatV1,
    parameters: GenerationParametersV1,
) -> (b: bool)
    ensures
        b == compatible(provider, api_format, parameters),
{
    match (provider, api_format, parameters) {
        (
            GenerationProviderV1::OpenAiCompatible,
            GenerationApiFormatV1::OpenAiChatCompletions,
            GenerationParametersV1::OpenAiChatCompletions { .. },
        ) => true,
        (
            GenerationProviderV1::AnthropicCompatible,
            GenerationApiFormatV1::AnthropicMessages,
            GenerationParametersV1::AnthropicMessages { .. },
        ) => true,
        _ => false,
    }
}

/// A local model without authentication, as it stood when a job was created or a text was
/// asked for again.
#[derive(Debug, PartialEq)]
pub struct ReadyGenerationTargetV1 {
    pub provider: GenerationProviderV1,
    pub api_format: GenerationApiFormatV1,
    pub endpoint: String,
    pub model: String,
    pub parameters: GenerationParametersV1,
}

impl Clone for ReadyGenerationTargetV1 {
    fn clone(&self) -> (r: Self)
        ensures
            r == *self,
    {
        ReadyGenerationTargetV1 {
            provider: self.provider,
            api_format: self.api_format,
            endpoint: self.endpoint.clone(),
            model: self.model.clone(),
            parameters: self.parameters,
        }
    }
}

impl ReadyGenerationTargetV1 {
    /// What is wrong with the target, given what is wrong with its endpoint.
    pub open spec fn problem_with(&self, endpoint: Option<SchemaProblem>) -> Option<SchemaProblem> {
        if endpoint is Some {
            endpoint
        } else if model_problem(self.model@) is Some {
            model_problem(self.model@)
        } else if blank(self.model@) {
            broken("model must not be empty"@)
        } else if self.parameters.problem() is Some {
            self.parameters.problem()
        } else if !compatible(self.provider, self.api_format, self.parameters) {
            broken("provider, api_format, and parameters are incompatible"@)
        } else {
            None
        }
    }

    /// What is wrong with the target.
    pub open spec fn problem(&self) -> Option<SchemaProblem> {
        self.problem_with(endpoint_problem(self.endpoint@))
    }

    /// The same target, by value.
    pub open spec fn alike(&self, other: &Self) -> bool {
        &&& self.provider == other.provider
        &&& self.api_format == other.api_format
        &&& self.endpoint@ == other.endpoint@
        &&& self.model@ == other.model@
        &&& self.parameters == other.parameters
    }

    /// Whether two targets are the same.
    pub fn same_as(&self, other: &Self) -> (b: bool)
        ensures
            b == self.alike(other),
    {
        self.provider == other.provider && self.api_format == other.api_format && self.endpoint
            == other.endpoint && self.model == other.model && self.parameters == other.parameters
    }

    /// Accepts a target, given what the check of its endpoint said.
    pub fn validate_with(&self, endpoint: Result<(), ContentSchemaError>) -> (r: Result<
        (),
        ContentSchemaError,
    >)
        ensures
            found(r) == self.problem_with(found(endpoint)),
    {
        if let Err(e) = endpoint {
            return Err(e);
        }
        if let Err(e) = validate_canonical_model(self.model.as_str()) {
            return Err(e);
        }
        if is_blank(self.model.as_str()) {
            return Err(violation("model must not be empty"));
        }
        if let Err(e) = self.parameters.validate() {
            return Err(e);
        }
        if !is_compatible(self.provider, self.api_format, self.parameters) {
            return Err(violation("provider, api_format, and parameters are incompatible"));
        }
        Ok(())
    }

    /// Accepts a target that a request may be sent to.
    pub fn validate(&self) -> (r: Result<(), ContentSchemaError>)
        ensures
            found(r) == self.problem(),
    {
        self.validate_with(require_canonical_local_endpoint(self.endpoint.as_str()))
    }
}

/// A valid target is on this machine and asks for no credentials: its address is a plain http
/// or https one of the local host, without user, password, query or fragment.
pub proof fn a_valid_target_is_local(target: ReadyGenerationTargetV1)
    requires
        target.problem() is None,
    ensures
        url_parts(trimmed(target.endpoint@)) matches Some(u) && {
            &&& u.scheme == "http"@ || u.scheme == "https"@
            &&& u.host matches Some(h) && local_host(bare_host(h))
            &&& u.username.len() == 0
            &&& u.password is None
            &&& u.query is None
            &&& u.fragment is None
        },
{
}

/// Something in a text that must not be stored: an address, a credential, a query.
pub open spec fn sensitive(s: Seq<char>) -> bool {
    let t = lowered(s);
    ||| has(t, "://"@)
    ||| has(t, "@"@)
    ||| has(t, "?"@)
    ||| has(t, "#"@)
    ||| has(t, "authorization"@)
    ||| has(t, "x-api-key"@)
    ||| has(t, "api_key"@)
    ||| has(t, "token"@)
    ||| has(t, "secret"@)
    ||| has(t, "password"@)
}

/// Whether a text holds something that must not be stored.
pub fn contains_sensitive_detail(value: &str) -> (b: bool)
    ensures
        b == sensitive(value@),
{
    let lower = lower_text(value);
    let t = lower.as_str();
    contains(t, "://") || contains(t, "@") || contains(t, "?") || contains(t, "#") || contains(
        t,
        "authorization",
    ) || contains(t, "x-api-key") || contains(t, "api_key") || contains(t, "token") || contains(
        t,
        "secret",
    ) || contains(t, "password")
}

/// A short sentence that may be stored.
pub open spec fn sanitized(message: Seq<char>) -> bool {
    let m = trimmed(message);
    m.len() > 0 && m.len() <= MAX_UNAVAILABLE_MESSAGE_CHARS && no_control(m) && !sensitive(m)
}

/// Whether a message may be stored.
pub fn is_sanitized(message: &str) -> (b: bool)
    ensures
        b == sanitized(message@),
{
    let m = trim(message);
    !m.is_empty() && m.unicode_len() <= MAX_UNAVAILABLE_MESSAGE_CHARS && has_no_control(m)
        && !contains_sensitive_detail(m)
}

/// Why there is no target.
#[derive(Debug, Clone, Copy, PartialEq, Eq, Structural)]
pub enum TargetUnavailableCodeV1 {
    ConnectionMissing,
    ProtocolUnsupported,
    EndpointInvalid,
    ModelMissing,
}

/// Why there is no target, in words that may be stored.
#[derive(Debug, PartialEq, Eq)]
pub struct TargetUnavailableV1 {
    pub code: TargetUnavailableCodeV1,
    pub message: String,
    pub invalid_field: Option<String>,
}

impl Clone for TargetUnavailableV1 {
    fn clone(&self) -> (r: Self)
        ensures
            r == *self,
    {
        TargetUnavailableV1 {
            code: self.code,
            message: self.message.clone(),
            invalid_field: copy_opt(&self.invalid_field),
        }
    }
}

/// A field name that may be stored.
pub open spec fn sanitized_field(field: Seq<char>) -> bool {
    !blank(field) && field.len() <= MAX_UNAVAILABLE_FIELD_CHARS && no_control(field) && !sensitive(field)
}

impl TargetUnavailableV1 {
    /// What is wrong with the reason.
    pub open spec fn problem(&self) -> Option<SchemaProblem> {
        if !sanitized(self.message@) {
            broken("target unavailable message must be a short sanitized sentence"@)
        } else {
            match self.invalid_field {
                Some(f) if !sanitized_field(f@) => broken(
                    "target unavailable field must be short and sanitized"@,
                ),
                _ => None,
            }
        }
    }

    /// The same reason, by value.
    pub open spec fn alike(&self, other: &Self) -> bool {
        &&& self.code == other.code
        &&& self.message@ == other.message@
        &&& opt_view(self.invalid_field) == opt_view(other.invalid_field)
    }

    /// Accepts a reason that may be stored.
    pub fn validate(&self) -> (r: Result<(), ContentSchemaError>)
        ensures
            found(r) == self.problem(),
    {
        if !is_sanitized(self.message.as_str()) {
            return Err(
                violation("target unavailable message must be a short sanitized sentence"),
            );
        }
        if let Some(field) = &self.invalid_field {
            let f = field.as_str();
            if is_blank(f) || f.unicode_len() > MAX_UNAVAILABLE_FIELD_CHARS || !has_no_control(f)
                || contains_sensitive_detail(f) {
                return Err(violation("target unavailable field must be short and sanitized"));
            }
        }
        Ok(())
    }
}

/// The target of a job's first run.
#[derive(Debug, PartialEq)]
pub enum InitialTargetV1 {
    Disabled,
    Ready(ReadyGenerationTargetV1),
    Unavailable(TargetUnavailableV1),
}

impl Clone for InitialTargetV1 {
    fn clone(&self) -> (r: Self)
        ensures
            r == *self,
    {
        match self {
            InitialTargetV1::Disabled => InitialTargetV1::Disabled,
            InitialTargetV1::Ready(t) => InitialTargetV1::Ready(t.clone()),
            InitialTargetV1::Unavailable(t) => InitialTargetV1::Unavailable(t.clone()),
        }
    }
}

/// The content plan that is frozen when a job is created.
#[derive(Debug, PartialEq)]
pub struct ContentSetupV1 {
    pub schema_version: u32,
    pub enhancements_requested: bool,
    pub recipe_set_version: u32,
    pub initial_target: InitialTargetV1,
}

impl Clone for ContentSetupV1 {
    fn clone(&self) -> (r: Self)
        ensures
            r == *self,
    {
        ContentSetupV1 {
            schema_version: self.schema_version,
            enhancements_requested: self.enhancements_requested,
            recipe_set_version: self.recipe_set_version,
            initial_target: self.initial_target.clone(),
        }
    }
}

impl ContentSetupV1 {
    /// The setup that belongs to a target.
    pub open spec fn of(target: InitialTargetV1) -> ContentSetupV1 {
        ContentSetupV1 {
            schema_version: CONTENT_SCHEMA_VERSION,
            enhancements_requested: !(target is Disabled),
            recipe_set_version: CONTENT_RECIPE_SET_VERSION,
            initial_target: target,
        }
    }

    /// What is wrong with the setup.
    pub open spec fn problem(&self) -> Option<SchemaProblem> {
        if !readable_version(self.schema_version) {
            Some(
                SchemaProblem::SchemaVersion {
                    expected: CONTENT_SCHEMA_VERSION,
                    actual: self.schema_version,
                },
            )
        } else if self.recipe_set_version != CONTENT_RECIPE_SET_VERSION {
            Some(
                SchemaProblem::RecipeSetVersion {
                    expected: CONTENT_RECIPE_SET_VERSION,
                    actual: self.recipe_set_version,
                },
            )
        } else {
            match self.initial_target {
                InitialTargetV1::Disabled => if self.enhancements_requested {
                    broken("disabled target cannot request enhancements"@)
                } else {
                    None
                },
                InitialTargetV1::Ready(t) => if self.enhancements_requested {
                    t.problem()
                } else {
                    broken("enabled target must request enhancements"@)
                },
                InitialTargetV1::Unavailable(t) => if self.enhancements_requested {
                    t.problem()
                } else {
                    broken("enabled target must request enhancements"@)
                },
            }
        }
    }

    /// The same setup, by value.
    pub open spec fn alike(&self, other: &Self) -> bool {
        &&& self.schema_version == other.schema_version
        &&& self.enhancements_requested == other.enhancements_requested
        &&& self.recipe_set_version == other.recipe_set_version
        &&& match (self.initial_target, other.initial_target) {
            (InitialTargetV1::Disabled, InitialTargetV1::Disabled) => true,
            (InitialTargetV1::Ready(a), InitialTargetV1::Ready(b)) => a.alike(&b),
            (InitialTargetV1::Unavailable(a), InitialTargetV1::Unavailable(b)) => a.alike(&b),
            _ => false,
        }
    }

    /// Rules only.
    pub fn disabled() -> (r: ContentSetupV1)
        ensures
            r == ContentSetupV1::of(InitialTargetV1::Disabled),
            r.problem() is None,
    {
        ContentSetupV1 {
            schema_version: CONTENT_SCHEMA_VERSION,
            enhancements_requested: false,
            recipe_set_version: CONTENT_RECIPE_SET_VERSION,
            initial_target: InitialTargetV1::Disabled,
        }
    }

    /// A model is there.
    pub fn ready(target: ReadyGenerationTargetV1) -> (r: ContentSetupV1)
        ensures
            r == ContentSetupV1::of(InitialTargetV1::Ready(target)),
            r.problem() == target.problem(),
    {
        ContentSetupV1 {
            schema_version: CONTENT_SCHEMA_VERSION,
            enhancements_requested: true,
            recipe_set_version: CONTENT_RECIPE_SET_VERSION,
            initial_target: InitialTargetV1::Ready(target),
        }
    }

    /// A model was asked for and is not there.
    pub fn unavailable(target: TargetUnavailableV1) -> (r: ContentSetupV1)
        ensures
            r == ContentSetupV1::of(InitialTargetV1::Unavailable(target)),
            r.problem() == target.problem(),
    {
        ContentSetupV1 {
            schema_version: CONTENT_SCHEMA_VERSION,
            enhancements_requested: true,
            recipe_set_version: CONTENT_RECIPE_SET_VERSION,
            initial_target: InitialTargetV1::Unavailable(target),
        }
    }

    /// The setup of any of the three targets.
    pub fn from_initial_target(initial_target: InitialTargetV1) -> (r: ContentSetupV1)
        ensures
            r == ContentSetupV1::of(initial_target),
    {
        match initial_target {
            InitialTargetV1::Disabled => ContentSetupV1::disabled(),
            InitialTargetV1::Ready(target) => ContentSetupV1::ready(target),
            InitialTargetV1::Unavailable(target) => ContentSetupV1::unavailable(target),
        }
    }

    /// Accepts a setup that a job may carry.
    pub fn validate(&self) -> (r: Result<(), ContentSchemaError>)
        ensures
            found(r) == self.problem(),
    {
        if !is_supported_content_schema_version(self.schema_version) {
            return Err(
                ContentSchemaError::SchemaVersion {
                    expected: CONTENT_SCHEMA_VERSION,
                    actual: self.schema_version,
                },
            );
        }
        if self.recipe_set_version != CONTENT_RECIPE_SET_VERSION {
            return Err(
                ContentSchemaError::RecipeSetVersion {
                    expected: CONTENT_RECIPE_SET_VERSION,
                    actual: self.recipe_set_version,
                },
            );
        }
        match &self.initial_target {
            InitialTargetV1::Disabled => {
                if self.enhancements_requested {
                    Err(violation("disabled target cannot request enhancements"))
                } else {
                    Ok(())
                }
            },
            InitialTargetV1::Ready(target) => {
                if self.enhancements_requested {
                    target.validate()
                } else {
                    Err(violation("enabled target must request enhancements"))
                }
            },
            InitialTargetV1::Unavailable(target) => {
                if self.enhancements_requested {
                    target.validate()
                } else {
                    Err(violation("enabled target must request enhancements"))
                }
            },
        }
    }

    /// Whether two setups are the same.
    pub fn same_as(&self, other: &Self) -> (b: bool)
        ensures
            b == self.alike(other),
    {
        if self.schema_version != other.schema_version || self.enhancements_requested
            != other.enhancements_requested || self.recipe_set_version != other.recipe_set_version {
            return false;
        }
        match (&self.initial_target, &other.initial_target) {
            (InitialTargetV1::Disabled, InitialTargetV1::Disabled) => true,
            (InitialTargetV1::Ready(a), InitialTargetV1::Ready(b)) => a.same_as(b),
            (InitialTargetV1::Unavailable(a), InitialTargetV1::Unavailable(b)) => {
                a.code == b.code && a.message == b.message && crate::text::same_opt(
                    &a.invalid_field,
                    &b.invalid_field,
                )
            },
            _ => false,
        }
    }
}

/// The protocols that a connection can be set to.
#[derive(Debug, Clone, Copy, PartialEq, Eq, Structural)]
pub enum ApiFormat {
    OpenAiChatCompletions,
    AnthropicMessages,
}

/// A configured connection to a model.
#[derive(Debug, PartialEq)]
pub struct LlmConnection {
    pub id: String,
    pub name: String,
    pub api_format: ApiFormat,
    pub base_url: String,
    pub model: String,
}

impl Clone for LlmConnection {
    fn clone(&self) -> (r: Self)
        ensures
            r == *self,
    {
        LlmConnection {
            id: self.id.clone(),
            name: self.name.clone(),
            api_format: self.api_format,
            base_url: self.base_url.clone(),
            model: self.model.clone(),
        }
    }
}

/// The reason for a missing connection.
pub open spec fn says_missing(
    t: TargetUnavailableV1,
    code: TargetUnavailableCodeV1,
    message: Seq<char>,
    field: Seq<char>,
) -> bool {
    t.code == code && t.message@ == message && opt_view(t.invalid_field) == Some(field)
}

/// The setup that a configuration gives, with the canonical spelling of its address worked
/// out.
pub open spec fn setup_for(
    enabled: bool,
    connection: Option<LlmConnection>,
    canonical: Result<Seq<char>, SchemaProblem>,
    setup: ContentSetupV1,
) -> bool {
    &&& setup == ContentSetupV1::of(setup.initial_target)
    &&& if !enabled {
        setup.initial_target is Disabled
    } else {
        match connection {
            None => setup.initial_target matches InitialTargetV1::Unavailable(t) && says_missing(
                t,
                TargetUnavailableCodeV1::ConnectionMissing,
                "未配置本地 AI"@,
                "llm_connection"@,
            ),
            Some(c) => match canonical {
                Err(_) => setup.initial_target matches InitialTargetV1::Unavailable(t)
                    && says_missing(
                    t,
                    TargetUnavailableCodeV1::EndpointInvalid,
                    "本地 AI 地址不可用"@,
                    "llm_connection.base_url"@,
                ),
                Ok(endpoint) => if blank(c.model@) {
                    setup.initial_target matches InitialTargetV1::Unavailable(t) && says_missing(
                        t,
                        TargetUnavailableCodeV1::ModelMissing,
                        "未配置本地 AI 模型"@,
                        "llm_connection.model"@,
                    )
                } else {
                    setup.initial_target matches InitialTargetV1::Ready(t) && {
                        &&& t.endpoint@ == endpoint
                        &&& t.model@ == trimmed(c.model@)
                        &&& compatible(t.provider, t.api_format, t.parameters)
                        &&& t.parameters.problem() is None
                        &&& c.api_format is OpenAiChatCompletions <==> t.api_format is OpenAiChatCompletions
                    }
                },
            },
        }
    }
}

fn missing(code: TargetUnavailableCodeV1, message: &str, field: &str) -> (r: ContentSetupV1)
    ensures
        r == ContentSetupV1::of(r.initial_target),
        r.initial_target matches InitialTargetV1::Unavailable(t) && says_missing(
            t,
            code,
            message@,
            field@,
        ),
{
    ContentSetupV1::unavailable(
        TargetUnavailableV1 { code, message: text(message), invalid_field: Some(text(field)) },
    )
}

/// The setup of a job that is created now, with the canonical spelling of the configured
/// address given.
pub fn content_setup_with(
    enabled: bool,
    connection: Option<&LlmConnection>,
    canonical: Result<String, ContentSchemaError>,
) -> (r: ContentSetupV1)
    ensures
        setup_for(
            enabled,
            match connection {
                Some(c) => Some(*c),
                None => None,
            },
            spelled(canonical),
            r,
        ),
{
    if !enabled {
        return ContentSetupV1::disabled();
    }
    match connection {
        None => missing(
            TargetUnavailableCodeV1::ConnectionMissing,
            "未配置本地 AI",
            "llm_connection",
        ),
        Some(c) => {
            let (provider, api_format, parameters) = match c.api_format {
                ApiFormat::OpenAiChatCompletions => (
                    GenerationProviderV1::OpenAiCompatible,
                    GenerationApiFormatV1::OpenAiChatCompletions,
                    GenerationParametersV1::openai_default(),
                ),
                ApiFormat::AnthropicMessages => (
                    GenerationProviderV1::AnthropicCompatible,
                    GenerationApiFormatV1::AnthropicMessages,
                    GenerationParametersV1::anthropic_default(),
                ),
            };
            match canonical {
                Err(_) => missing(
                    TargetUnavailableCodeV1::EndpointInvalid,
                    "本地 AI 地址不可用",
                    "llm_connection.base_url",
                ),
                Ok(endpoint) => {
                    let model = trim(c.model.as_str());
                    if model.is_empty() {
                        missing(
                            TargetUnavailableCodeV1::ModelMissing,
                            "未配置本地 AI 模型",
                            "llm_connection.model",
                        )
                    } else {
                        ContentSetupV1::ready(
                            ReadyGenerationTargetV1 {
                                provider,
                                api_format,
                                endpoint,
                                model: text(model),
                                parameters,
                            },
                        )
                    }
                },
            }
        },
    }
}

/// The setup of a job that is created now. An enabled connection that cannot be used is
/// never taken for a disabled one.
pub fn resolve_content_setup(llm_enabled: bool, connection: Option<&LlmConnection>) -> (r:
    ContentSetupV1)
    ensures
        connection matches Some(c) ==> setup_for(
            llm_enabled,
            Some(*c),
            canonical_of(url_parts(trimmed(c.base_url@))),
            r,
        ),
        connection is None ==> forall|canonical: Result<Seq<char>, SchemaProblem>| #[trigger]
            setup_for(llm_enabled, None, canonical, r),
        r.initial_target matches InitialTargetV1::Ready(t) ==> endpoint_problem(t.endpoint@) is None,
{
    match connection {
        None => content_setup_with(llm_enabled, None, Err(violation(""))),
        Some(c) => {
            let canonical = canonical_local_endpoint(c.base_url.as_str());
            content_setup_with(llm_enabled, Some(c), canonical)
        },
    }
}

proof fn lowered_adds(a: Seq<char>, b: Seq<char>, c: Seq<char>)
    ensures
        lowered(a + b + c) == lowered(a) + lowered(b) + lowered(c),
{
    assert(lowered(a + b + c) =~= lowered(a) + lowered(b) + lowered(c));
}

proof fn a_mark_is_sensitive(a: Seq<char>, spelled: Seq<char>, b: Seq<char>, mark: Seq<char>)
    requires
        lowered(spelled) == mark,
    ensures
        has(lowered(a + spelled + b), mark),
{
    lowered_adds(a, spelled, b);
    a_part_is_found(lowered(a), mark, lowered(b));
}

/// An address, and a word that goes with a secret, is never stored, wherever it stands and in
/// whatever case it is written.
pub proof fn what_goes_with_a_secret_is_sensitive(a: Seq<char>, spelled: Seq<char>, b: Seq<char>)
    ensures
        lowered(spelled) == "://"@ || lowered(spelled) == "@"@ || lowered(spelled) == "?"@ || lowered(spelled) == "#"@
            || lowered(spelled) == "authorization"@ || lowered(spelled) == "x-api-key"@ || lowered(spelled)
            == "api_key"@ || lowered(spelled) == "token"@ || lowered(spelled) == "secret"@ || lowered(spelled)
            == "password"@ ==> sensitive(a + spelled + b),
{
    a_mark_is_sensitive(a, spelled, b, lowered(spelled));
}

/// What is stored is a sentence of at most 160 characters without line breaks or other control
/// characters, and says nothing sensitive; a sentence like that may be stored.
pub proof fn a_short_plain_sentence_may_be_stored(m: Seq<char>)
    requires
        trimmed(m) == m,
    ensures
        sanitized(m) <==> 1 <= m.len() <= 160 && !sensitive(m) && forall|i: int|
            0 <= i < m.len() ==> !((#[trigger] m[i]) as int <= 0x1f || 0x7f <= m[i] as int <= 0x9f),
{
    if forall|i: int| 0 <= i < m.len() ==> !((#[trigger] m[i]) as int <= 0x1f || 0x7f <= m[i] as int <= 0x9f) {
        assert(no_control(m));
    } else {
        let i = choose|i: int| 0 <= i < m.len() && ((#[trigger] m[i]) as int <= 0x1f || 0x7f <= m[i] as int <= 0x9f);
        assert(control(m[i]));
    }
}

/// A connection that is switched on and complete is used as it is written: its address, its
/// model without the white space around it, and its interface with that interface's own
/// provider. Switched off, nothing is asked for.
pub proof fn a_connection_is_used_as_written(
    enabled: bool,
    c: LlmConnection,
    endpoint: Seq<char>,
    setup: ContentSetupV1,
)
    requires
        setup_for(enabled, Some(c), Ok(endpoint), setup),
    ensures
        !enabled ==> setup.initial_target is Disabled && !setup.enhancements_requested,
        enabled ==> setup.enhancements_requested,
        enabled && blank(c.model@) ==> setup.initial_target is Unavailable,
        enabled && !blank(c.model@) ==> (setup.initial_target matches InitialTargetV1::Ready(t) && t.endpoint@ == endpoint
            && t.model@ == trimmed(c.model@) && (c.api_format is AnthropicMessages ==> t.api_format is AnthropicMessages
            && t.provider is AnthropicCompatible && t.parameters is AnthropicMessages) && (
        c.api_format is OpenAiChatCompletions ==> t.api_format is OpenAiChatCompletions && t.provider is OpenAiCompatible
            && t.parameters is OpenAiChatCompletions)),
{
}

/// A target is used exactly where its address is spelled as one of this machine, its model is
/// named plainly, and its provider, interface and parameters belong together.
pub proof fn a_sound_target_is_used(t: ReadyGenerationTargetV1)
    ensures
        t.problem() is None <==> {
            &&& endpoint_problem(t.endpoint@) is None
            &&& !blank(t.model@) && trimmed(t.model@) == t.model@ && no_control(t.model@)
            &&& t.parameters.problem() is None
            &&& (t.provider is OpenAiCompatible && t.api_format is OpenAiChatCompletions
                && t.parameters is OpenAiChatCompletions) || (t.provider is AnthropicCompatible
                && t.api_format is AnthropicMessages && t.parameters is AnthropicMessages)
        },
{
}

/// A field can be named by at most 64 plain characters that give nothing away.
pub proof fn a_short_plain_field_may_be_named(f: Seq<char>)
    requires
        trimmed(f) == f,
    ensures
        sanitized_field(f) <==> 1 <= f.len() <= 64 && !sensitive(f) && forall|i: int|
            0 <= i < f.len() ==> !((#[trigger] f[i]) as int <= 0x1f || 0x7f <= f[i] as int <= 0x9f),
{
    if forall|i: int| 0 <= i < f.len() ==> !((#[trigger] f[i]) as int <= 0x1f || 0x7f <= f[i] as int <= 0x9f) {
        assert(no_control(f));
    } else {
        let i = choose|i: int| 0 <= i < f.len() && ((#[trigger] f[i]) as int <= 0x1f || 0x7f <= f[i] as int <= 0x9f);
        assert(control(f[i]));
    }
}

/// A provider speaks one format, and the parameters are those of that format.
pub proof fn a_provider_speaks_its_own_format(
    provider: GenerationProviderV1,
    format: GenerationApiFormatV1,
    other: GenerationApiFormatV1,
    parameters: GenerationParametersV1,
)
    ensures
        compatible(provider, format, parameters) && compatible(provider, other, parameters) ==> format == other,
        compatible(provider, format, parameters) ==> (provider is OpenAiCompatible <==> format is OpenAiChatCompletions)
            && (format is OpenAiChatCompletions <==> parameters is OpenAiChatCompletions),
        (provider is OpenAiCompatible) == (format is OpenAiChatCompletions) && (format is OpenAiChatCompletions) == (
        parameters is OpenAiChatCompletions) ==> compatible(provider, format, parameters),
{
}

} // verus!
