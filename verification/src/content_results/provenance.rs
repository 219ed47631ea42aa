//! How a record came about.

use vstd::prelude::*;
use super::endpoint::{endpoint_problem, require_canonical_local_endpoint};
use super::error::{ContentSchemaError, SchemaProblem, broken, found, violation};
use super::kinds::{
    ArtifactKindV1, EffectivePathV1, FallbackReasonCodeV1, recipe_id, recipe_of,
};
use super::target::{
    ContentSetupV1, GenerationApiFormatV1, GenerationParametersV1, GenerationProviderV1, InitialTargetV1,
    ReadyGenerationTargetV1, compatible, is_compatible, is_sanitized, model_problem, sanitized,
    validate_canonical_model,
};
use crate::text::{copy_opt, opt_view, same, text};

verus! {

/// The version of every recipe.
pub const RECIPE_VERSION: u32 = 1;

/// The version of every prompt.
pub const PROMPT_VERSION: u32 = 1;

/// The version of the rules.
pub const RULES_VERSION: u32 = 1;

/// Why rules stood in for the model, in words that may be stored.
#[derive(Debug, PartialEq, Eq)]
pub struct FallbackReasonV1 {
    pub code: FallbackReasonCodeV1,
    pub message: String,
}

impl Clone for FallbackReasonV1 {
    fn clone(&self) -> (r: Self)
        ensures
            r == *self,
    {
        FallbackReasonV1 { code: self.code, message: self.message.clone() }
    }
}

impl FallbackReasonV1 {
    /// What is wrong with the reason.
    pub open spec fn problem(&self) -> Option<SchemaProblem> {
        if sanitized(self.message@) {
            None
        } else {
            broken("fallback reason must be a short sanitized sentence"@)
        }
    }

    /// Accepts a reason that may be stored.
    pub fn validate(&self) -> (r: Result<(), ContentSchemaError>)
        ensures
            found(r) == self.problem(),
    {
        if !is_sanitized(self.message.as_str()) {
            return Err(violation("fallback reason must be a short sanitized sentence"));
        }
        Ok(())
    }
}

/// How a record came about: its recipe, its model if there was one, and the path taken.
#[derive(Debug, PartialEq)]
pub struct DerivationProvenanceV1 {
    pub recipe_id: String,
    pub recipe_version: u32,
    pub prompt_id: Option<String>,
    pub prompt_version: Option<u32>,
    pub rules_id: String,
    pub rules_version: u32,
    pub provider: Option<GenerationProviderV1>,
    pub api_format: Option<GenerationApiFormatV1>,
    pub endpoint: Option<String>,
    pub model: Option<String>,
    pub parameters: Option<GenerationParametersV1>,
    pub effective_path: EffectivePathV1,
    pub fallback_reason: Option<FallbackReasonV1>,
}

impl Clone for DerivationProvenanceV1 {
    fn clone(&self) -> (r: Self)
        ensures
            r == *self,
    {
        DerivationProvenanceV1 {
            recipe_id: self.recipe_id.clone(),
            recipe_version: self.recipe_version,
            prompt_id: copy_opt(&self.prompt_id),
            prompt_version: self.prompt_version,
            rules_id: self.rules_id.clone(),
            rules_version: self.rules_version,
            provider: self.provider,
            api_format: self.api_format,
            endpoint: copy_opt(&self.endpoint),
            model: copy_opt(&self.model),
            parameters: self.parameters,
            effective_path: self.effective_path,
            fallback_reason: match &self.fallback_reason {
                Some(f) => Some(f.clone()),
                None => None,
            },
        }
    }
}

impl DerivationProvenanceV1 {
    /// Nothing is said of a model.
    pub open spec fn no_target(&self) -> bool {
        self.provider is None && self.api_format is None && self.endpoint is None && self.model is None
            && self.parameters is None
    }

    /// Everything is said of a model.
    pub open spec fn full_target(&self) -> bool {
        self.provider is Some && self.api_format is Some && self.endpoint is Some && self.model is Some
            && self.parameters is Some
    }

    /// What is wrong with the model that is named, given what is wrong with its endpoint.
    pub open spec fn target_problem(&self, endpoint: Option<SchemaProblem>) -> Option<SchemaProblem> {
        if self.no_target() {
            None
        } else if self.full_target() && compatible(
            self.provider->0,
            self.api_format->0,
            self.parameters->0,
        ) {
            if endpoint is Some {
                endpoint
            } else if model_problem((self.model->0)@) is Some {
                model_problem((self.model->0)@)
            } else if (self.model->0)@.len() == 0 {
                broken("provenance target endpoint and model must not be empty"@)
            } else {
                None
            }
        } else {
            broken("provenance target and typed parameters are incompatible"@)
        }
    }

    /// What is wrong with the prompt that is named.
    pub open spec fn prompt_problem(&self, kind: ArtifactKindV1) -> Option<SchemaProblem> {
        match self.prompt_id {
            Some(id) => if id@ != recipe_of(kind) || self.prompt_version != Some(PROMPT_VERSION) {
                broken("provenance prompt identity does not match the fixed recipe"@)
            } else {
                None
            },
            None => if self.prompt_version is Some {
                broken("provenance prompt version requires a prompt identity"@)
            } else {
                None
            },
        }
    }

    /// What is wrong with the path, given the rest.
    pub open spec fn path_problem(&self) -> Option<SchemaProblem> {
        match self.effective_path {
            EffectivePathV1::Rules => if self.no_target() && self.prompt_id is None
                && self.prompt_version is None && self.fallback_reason is None {
                None
            } else {
                broken("rules provenance must not carry an AI target or fallback reason"@)
            },
            EffectivePathV1::Llm => if self.fallback_reason is None && self.prompt_id is Some
                && self.provider is Some {
                None
            } else {
                broken("llm provenance must carry the fixed prompt and target"@)
            },
            EffectivePathV1::RulesFallback => match self.fallback_reason {
                None => broken("rules fallback provenance must carry a fallback reason"@),
                Some(reason) => if (reason.code is TargetUnavailable && !self.full_target()
                    && self.prompt_id is None) || (!(reason.code is TargetUnavailable)
                    && self.full_target() && self.prompt_id is Some) {
                    None
                } else {
                    broken("fallback provenance target does not match its reason"@)
                },
            },
        }
    }

    /// What is wrong with the provenance of a record, given what is wrong with its endpoint.
    pub open spec fn problem_with(
        &self,
        kind: ArtifactKindV1,
        endpoint: Option<SchemaProblem>,
    ) -> Option<SchemaProblem> {
        if self.recipe_id@ != recipe_of(kind) || self.rules_id@ != recipe_of(kind) {
            broken("provenance recipe and rules ids do not match the artifact kind"@)
        } else if self.recipe_version != RECIPE_VERSION || self.rules_version != RULES_VERSION {
            broken("provenance recipe or rules version is not the fixed version"@)
        } else if self.target_problem(endpoint) is Some {
            self.target_problem(endpoint)
        } else if self.parameters is Some && (self.parameters->0).problem() is Some {
            (self.parameters->0).problem()
        } else if self.fallback_reason is Some && (self.fallback_reason->0).problem() is Some {
            (self.fallback_reason->0).problem()
        } else if self.prompt_problem(kind) is Some {
            self.prompt_problem(kind)
        } else {
            self.path_problem()
        }
    }

    /// What is wrong with the endpoint that is named, if one is.
    pub open spec fn named_endpoint_problem(&self) -> Option<SchemaProblem> {
        match self.endpoint {
            Some(e) => endpoint_problem(e@),
            None => None,
        }
    }

    /// What is wrong with the provenance of a record.
    pub open spec fn problem(&self, kind: ArtifactKindV1) -> Option<SchemaProblem> {
        self.problem_with(kind, self.named_endpoint_problem())
    }

    fn validate_target(&self, endpoint: Result<(), ContentSchemaError>) -> (r: Result<
        (),
        ContentSchemaError,
    >)
        ensures
            found(r) == self.target_problem(found(endpoint)),
    {
        match (&self.provider, &self.api_format, &self.endpoint, &self.model, &self.parameters) {
            (None, None, None, None, None) => Ok(()),
            (Some(provider), Some(api_format), Some(_), Some(model), Some(parameters)) => {
                if !is_compatible(*provider, *api_format, *parameters) {
                    return Err(
                        violation("provenance target and typed parameters are incompatible"),
                    );
                }
                if let Err(e) = endpoint {
                    return Err(e);
                }
                if let Err(e) = validate_canonical_model(model.as_str()) {
                    return Err(e);
                }
                if model.as_str().is_empty() {
                    return Err(
                        violation("provenance target endpoint and model must not be empty"),
                    );
                }
                Ok(())
            },
            _ => Err(violation("provenance target and typed parameters are incompatible")),
        }
    }

    fn validate_prompt(&self, kind: ArtifactKindV1) -> (r: Result<(), ContentSchemaError>)
        ensures
            found(r) == self.prompt_problem(kind),
    {
        match &self.prompt_id {
            Some(id) => {
                let version_ok = match self.prompt_version {
                    Some(v) => v == PROMPT_VERSION,
                    None => false,
                };
                if !same(id.as_str(), recipe_id(kind)) || !version_ok {
                    return Err(
                        violation("provenance prompt identity does not match the fixed recipe"),
                    );
                }
                Ok(())
            },
            None => {
                if self.prompt_version.is_some() {
                    return Err(violation("provenance prompt version requires a prompt identity"));
                }
                Ok(())
            },
        }
    }

    fn validate_path(&self) -> (r: Result<(), ContentSchemaError>)
        ensures
            found(r) == self.path_problem(),
    {
        match self.effective_path {
            EffectivePathV1::Rules => {
                if self.provider.is_some() || self.api_format.is_some() || self.endpoint.is_some()
                    || self.model.is_some() || self.parameters.is_some() || self.prompt_id.is_some()
                    || self.prompt_version.is_some() || self.fallback_reason.is_some() {
                    return Err(
                        violation(
                            "rules provenance must not carry an AI target or fallback reason",
                        ),
                    );
                }
                Ok(())
            },
            EffectivePathV1::Llm => {
                if self.fallback_reason.is_some() || self.prompt_id.is_none()
                    || self.provider.is_none() {
                    return Err(violation("llm provenance must carry the fixed prompt and target"));
                }
                Ok(())
            },
            EffectivePathV1::RulesFallback => {
                match &self.fallback_reason {
                    None => Err(
                        violation("rules fallback provenance must carry a fallback reason"),
                    ),
                    Some(reason) => {
                        let target_present = self.provider.is_some() && self.api_format.is_some()
                            && self.endpoint.is_some() && self.model.is_some()
                            && self.parameters.is_some();
                        let fits = match reason.code {
                            FallbackReasonCodeV1::TargetUnavailable => !target_present
                                && self.prompt_id.is_none(),
                            _ => target_present && self.prompt_id.is_some(),
                        };
                        if !fits {
                            return Err(
                                violation("fallback provenance target does not match its reason"),
                            );
                        }
                        Ok(())
                    },
                }
            },
        }
    }

    /// Accepts the provenance of a record, given what the check of its endpoint said.
    pub fn validate_with(
        &self,
        kind: ArtifactKindV1,
        endpoint: Result<(), ContentSchemaError>,
    ) -> (r: Result<(), ContentSchemaError>)
        ensures
            found(r) == self.problem_with(kind, found(endpoint)),
    {
        let expected = recipe_id(kind);
        if !same(self.recipe_id.as_str(), expected) || !same(self.rules_id.as_str(), expected) {
            return Err(
                violation("provenance recipe and rules ids do not match the artifact kind"),
            );
        }
        if self.recipe_version != RECIPE_VERSION || self.rules_version != RULES_VERSION {
            return Err(violation("provenance recipe or rules version is not the fixed version"));
        }
        if let Err(e) = self.validate_target(endpoint) {
            return Err(e);
        }
        if let Some(parameters) = &self.parameters {
            if let Err(e) = parameters.validate() {
                return Err(e);
            }
        }
        if let Some(reason) = &self.fallback_reason {
            if let Err(e) = reason.validate() {
                return Err(e);
            }
        }
        if let Err(e) = self.validate_prompt(kind) {
            return Err(e);
        }
        self.validate_path()
    }

    /// Accepts the provenance of a record of the given kind.
    pub fn validate(&self, kind: ArtifactKindV1) -> (r: Result<(), ContentSchemaError>)
        ensures
            found(r) == self.problem(kind),
    {
        let endpoint = match &self.endpoint {
            Some(e) => require_canonical_local_endpoint(e.as_str()),
            None => Ok(()),
        };
        self.validate_with(kind, endpoint)
    }
}

/// The provenance names exactly this target.
pub open spec fn names_target(p: DerivationProvenanceV1, t: ReadyGenerationTargetV1) -> bool {
    &&& p.provider == Some(t.provider)
    &&& p.api_format == Some(t.api_format)
    &&& opt_view(p.endpoint) == Some(t.endpoint@)
    &&& opt_view(p.model) == Some(t.model@)
    &&& p.parameters == Some(t.parameters)
}

/// Whether the provenance names exactly this target.
pub fn provenance_target_matches(
    provenance: &DerivationProvenanceV1,
    target: &ReadyGenerationTargetV1,
) -> (b: bool)
    ensures
        b == names_target(*provenance, *target),
{
    let provider = match provenance.provider {
        Some(p) => p == target.provider,
        None => false,
    };
    let format = match provenance.api_format {
        Some(f) => f == target.api_format,
        None => false,
    };
    let endpoint = match &provenance.endpoint {
        Some(e) => *e == target.endpoint,
        None => false,
    };
    let model = match &provenance.model {
        Some(m) => *m == target.model,
        None => false,
    };
    let parameters = match provenance.parameters {
        Some(p) => p == target.parameters,
        None => false,
    };
    provider && format && endpoint && model && parameters
}

/// What is wrong with a record's provenance under the setup that its job was frozen with.
pub open spec fn setup_mismatch(
    kind: ArtifactKindV1,
    p: DerivationProvenanceV1,
    setup: ContentSetupV1,
) -> Option<SchemaProblem> {
    if kind != ArtifactKindV1::FaithfulText {
        if p.effective_path is Llm {
            None
        } else {
            broken("enhancement current must use the LLM path"@)
        }
    } else {
        match setup.initial_target {
            InitialTargetV1::Disabled => if p.effective_path is Rules {
                None
            } else {
                broken("disabled faithful current must use rules"@)
            },
            InitialTargetV1::Unavailable(t) => if p.effective_path is RulesFallback && p.provider is None
                && p.fallback_reason is Some && (p.fallback_reason->0).code is TargetUnavailable && (
            p.fallback_reason->0).message@ == t.message@ {
                None
            } else {
                broken("unavailable faithful current must be the matching target fallback"@)
            },
            InitialTargetV1::Ready(t) => if names_target(p, t) && (p.effective_path is Llm || (
            p.effective_path is RulesFallback && p.fallback_reason is Some && !((
            p.fallback_reason->0).code is TargetUnavailable))) {
                None
            } else {
                broken("ready faithful current target/path does not match frozen setup"@)
            },
        }
    }
}

/// Accepts a record's provenance under the setup that its job was frozen with.
pub fn validate_record_provenance_for_setup(
    kind: ArtifactKindV1,
    provenance: &DerivationProvenanceV1,
    setup: &ContentSetupV1,
) -> (r: Result<(), ContentSchemaError>)
    ensures
        found(r) == setup_mismatch(kind, *provenance, *setup),
{
    if kind != ArtifactKindV1::FaithfulText {
        if provenance.effective_path != EffectivePathV1::Llm {
            return Err(violation("enhancement current must use the LLM path"));
        }
        return Ok(());
    }
    match &setup.initial_target {
        InitialTargetV1::Disabled => {
            if provenance.effective_path != EffectivePathV1::Rules {
                return Err(violation("disabled faithful current must use rules"));
            }
        },
        InitialTargetV1::Unavailable(target) => {
            let fits = match &provenance.fallback_reason {
                Some(reason) => reason.code == FallbackReasonCodeV1::TargetUnavailable
                    && reason.message == target.message,
                None => false,
            };
            if provenance.effective_path != EffectivePathV1::RulesFallback
                || provenance.provider.is_some() || !fits {
                return Err(
                    violation("unavailable faithful current must be the matching target fallback"),
                );
            }
        },
        InitialTargetV1::Ready(target) => {
            let after_call = match &provenance.fallback_reason {
                Some(reason) => reason.code != FallbackReasonCodeV1::TargetUnavailable,
                None => false,
            };
            let named = provenance_target_matches(provenance, target);
            let fits = match provenance.effective_path {
                EffectivePathV1::Rules => false,
                EffectivePathV1::Llm => named,
                EffectivePathV1::RulesFallback => named && after_call,
            };
            if !fits {
                return Err(
                    violation("ready faithful current target/path does not match frozen setup"),
                );
            }
        },
    }
    Ok(())
}

/// The provenance that a record gets when it is made.
pub open spec fn provenance_for(
    kind: ArtifactKindV1,
    target: Option<ReadyGenerationTargetV1>,
    path: EffectivePathV1,
    reason: Option<FallbackReasonV1>,
    p: DerivationProvenanceV1,
) -> bool {
    &&& p.recipe_id@ == recipe_of(kind)
    &&& p.rules_id@ == recipe_of(kind)
    &&& p.recipe_version == RECIPE_VERSION
    &&& p.rules_version == RULES_VERSION
    &&& p.effective_path == path
    &&& p.fallback_reason == reason
    &&& match target {
        Some(t) => names_target(p, t) && opt_view(p.prompt_id) == Some(recipe_of(kind))
            && p.prompt_version == Some(PROMPT_VERSION),
        None => p.no_target() && p.prompt_id is None && p.prompt_version is None,
    }
}

/// The provenance that a record gets when it is made.
pub fn build_provenance(
    kind: ArtifactKindV1,
    target: Option<&ReadyGenerationTargetV1>,
    effective_path: EffectivePathV1,
    fallback_reason: Option<FallbackReasonV1>,
) -> (r: DerivationProvenanceV1)
    ensures
        provenance_for(
            kind,
            match target {
                Some(t) => Some(*t),
                None => None,
            },
            effective_path,
            fallback_reason,
            r,
        ),
{
    let recipe = recipe_id(kind);
    match target {
        Some(t) => DerivationProvenanceV1 {
            recipe_id: text(recipe),
            recipe_version: RECIPE_VERSION,
            prompt_id: Some(text(recipe)),
            prompt_version: Some(PROMPT_VERSION),
            rules_id: text(recipe),
            rules_version: RULES_VERSION,
            provider: Some(t.provider),
            api_format: Some(t.api_format),
            endpoint: Some(t.endpoint.clone()),
            model: Some(t.model.clone()),
            parameters: Some(t.parameters),
            effective_path,
            fallback_reason,
        },
        None => DerivationProvenanceV1 {
            recipe_id: text(recipe),
            recipe_version: RECIPE_VERSION,
            prompt_id: None,
            prompt_version: None,
            rules_id: text(recipe),
            rules_version: RULES_VERSION,
            provider: None,
            api_format: None,
            endpoint: None,
            model: None,
            parameters: None,
            effective_path,
            fallback_reason,
        },
    }
}

/// A record of a valid target that came from the model has a valid provenance.
pub proof fn model_provenance_is_valid(
    kind: ArtifactKindV1,
    target: ReadyGenerationTargetV1,
    p: DerivationProvenanceV1,
)
    requires
        target.problem() is None,
        provenance_for(kind, Some(target), EffectivePathV1::Llm, None, p),
    ensures
        p.problem(kind) is None,
{
    let m = target.model@;
    assert(crate::text::trimmed(m) == m);
}

/// The provenance of a record made by rules alone is valid, and fits a disabled setup.
pub proof fn rules_provenance_is_valid(kind: ArtifactKindV1, p: DerivationProvenanceV1, setup: ContentSetupV1)
    requires
        provenance_for(kind, None, EffectivePathV1::Rules, None, p),
        setup.initial_target is Disabled,
    ensures
        p.problem(kind) is None,
        setup_mismatch(ArtifactKindV1::FaithfulText, p, setup) is None,
{
}

/// A record that passes says truly how it was made: one made by rules names no model, one made by
/// a model names all of it, with an address of this machine, and one that fell back says why.
pub proof fn a_record_says_how_it_was_made(kind: ArtifactKindV1, p: DerivationProvenanceV1)
    requires
        p.problem(kind) is None,
    ensures
        p.recipe_id@ == recipe_of(kind),
        p.effective_path is Rules ==> p.provider is None && p.endpoint is None && p.model is None && p.prompt_id is None
            && p.fallback_reason is None,
        p.effective_path is Llm ==> p.provider is Some && p.endpoint is Some && p.model is Some && p.parameters is Some
            && p.prompt_id is Some && p.fallback_reason is None,
        p.effective_path is RulesFallback ==> p.fallback_reason is Some && sanitized((p.fallback_reason->0).message@)
            && ((p.fallback_reason->0).code is TargetUnavailable <==> p.prompt_id is None),
        p.endpoint is Some ==> endpoint_problem((p.endpoint->0)@) is None,
        p.model is Some ==> (p.model->0)@.len() > 0,
{
}

/// Only a model makes an enhancement; the faithful text is made the way that the setup of the job
/// says, or by rules where the model did not answer.
pub proof fn a_text_is_made_the_way_it_was_asked_for(
    kind: ArtifactKindV1,
    p: DerivationProvenanceV1,
    setup: ContentSetupV1,
)
    requires
        setup_mismatch(kind, p, setup) is None,
    ensures
        kind !is FaithfulText ==> p.effective_path is Llm,
        kind is FaithfulText && setup.initial_target is Disabled ==> p.effective_path is Rules,
        kind is FaithfulText && setup.initial_target is Unavailable ==> p.effective_path is RulesFallback,
        kind is FaithfulText ==> (setup.initial_target matches InitialTargetV1::Ready(t) ==> !(p.effective_path is Rules)
            && opt_view(p.endpoint) == Some(t.endpoint@) && opt_view(p.model) == Some(t.model@)),
{
}

} // verus!
