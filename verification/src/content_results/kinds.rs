//! The closed vocabularies of stored content.

use vstd::prelude::*;
use crate::text::same;

verus! {

/// The kinds of text that a job can have. The short and the long summary are made on
/// demand only; the other four belong to the first run.
#[derive(Debug, Clone, Copy, PartialEq, Eq, Structural, Hash)]
pub enum ArtifactKindV1 {
    FaithfulText,
    Chapters,
    DefaultSummary,
    Highlights,
    ShortSummary,
    LongSummary,
}

impl ArtifactKindV1 {
    /// The two tiers that are never required.
    pub open spec fn optional_tier(self) -> bool {
        self is ShortSummary || self is LongSummary
    }

    /// Whether this is one of the two tiers that are never required.
    pub fn is_summary_tier(self) -> (b: bool)
        ensures
            b == self.optional_tier(),
    {
        match self {
            ArtifactKindV1::ShortSummary | ArtifactKindV1::LongSummary => true,
            _ => false,
        }
    }

    /// The name of the variant.
    pub open spec fn name_text(self) -> Seq<char> {
        match self {
            ArtifactKindV1::FaithfulText => "FaithfulText"@,
            ArtifactKindV1::Chapters => "Chapters"@,
            ArtifactKindV1::DefaultSummary => "DefaultSummary"@,
            ArtifactKindV1::Highlights => "Highlights"@,
            ArtifactKindV1::ShortSummary => "ShortSummary"@,
            ArtifactKindV1::LongSummary => "LongSummary"@,
        }
    }

    /// The name of the variant.
    pub fn name(self) -> (r: &'static str)
        ensures
            r@ == self.name_text(),
    {
        match self {
            ArtifactKindV1::FaithfulText => "FaithfulText",
            ArtifactKindV1::Chapters => "Chapters",
            ArtifactKindV1::DefaultSummary => "DefaultSummary",
            ArtifactKindV1::Highlights => "Highlights",
            ArtifactKindV1::ShortSummary => "ShortSummary",
            ArtifactKindV1::LongSummary => "LongSummary",
        }
    }

    /// The name under which the kind is stored.
    pub open spec fn wire_text(self) -> Seq<char> {
        match self {
            ArtifactKindV1::FaithfulText => "faithful_text"@,
            ArtifactKindV1::Chapters => "chapters"@,
            ArtifactKindV1::DefaultSummary => "default_summary"@,
            ArtifactKindV1::Highlights => "highlights"@,
            ArtifactKindV1::ShortSummary => "short_summary"@,
            ArtifactKindV1::LongSummary => "long_summary"@,
        }
    }

    /// The name under which the kind is stored.
    pub fn wire_name(self) -> (r: &'static str)
        ensures
            r@ == self.wire_text(),
    {
        match self {
            ArtifactKindV1::FaithfulText => "faithful_text",
            ArtifactKindV1::Chapters => "chapters",
            ArtifactKindV1::DefaultSummary => "default_summary",
            ArtifactKindV1::Highlights => "highlights",
            ArtifactKindV1::ShortSummary => "short_summary",
            ArtifactKindV1::LongSummary => "long_summary",
        }
    }
}

/// The recipe that makes a kind.
pub open spec fn recipe_of(kind: ArtifactKindV1) -> Seq<char> {
    match kind {
        ArtifactKindV1::FaithfulText => "faithful-text"@,
        ArtifactKindV1::DefaultSummary => "default-summary"@,
        ArtifactKindV1::ShortSummary => "summary-short"@,
        ArtifactKindV1::LongSummary => "summary-long"@,
        ArtifactKindV1::Highlights => "highlights"@,
        ArtifactKindV1::Chapters => "chapters"@,
    }
}

/// The recipe that makes a kind.
pub fn recipe_id(kind: ArtifactKindV1) -> (r: &'static str)
    ensures
        r@ == recipe_of(kind),
{
    match kind {
        ArtifactKindV1::FaithfulText => "faithful-text",
        ArtifactKindV1::DefaultSummary => "default-summary",
        ArtifactKindV1::ShortSummary => "summary-short",
        ArtifactKindV1::LongSummary => "summary-long",
        ArtifactKindV1::Highlights => "highlights",
        ArtifactKindV1::Chapters => "chapters",
    }
}

/// What a block is in its record.
#[derive(Debug, Clone, Copy, PartialEq, Eq, Structural)]
pub enum ContentBlockRoleV1 {
    Paragraph,
    Summary,
    Highlight,
    Chapter,
}

/// The role of every block of a kind.
pub open spec fn role_of(kind: ArtifactKindV1) -> ContentBlockRoleV1 {
    match kind {
        ArtifactKindV1::FaithfulText => ContentBlockRoleV1::Paragraph,
        ArtifactKindV1::DefaultSummary => ContentBlockRoleV1::Summary,
        ArtifactKindV1::ShortSummary => ContentBlockRoleV1::Summary,
        ArtifactKindV1::LongSummary => ContentBlockRoleV1::Summary,
        ArtifactKindV1::Highlights => ContentBlockRoleV1::Highlight,
        ArtifactKindV1::Chapters => ContentBlockRoleV1::Chapter,
    }
}

/// The role of every block of a kind.
pub fn expected_role(kind: ArtifactKindV1) -> (r: ContentBlockRoleV1)
    ensures
        r == role_of(kind),
{
    match kind {
        ArtifactKindV1::FaithfulText => ContentBlockRoleV1::Paragraph,
        ArtifactKindV1::DefaultSummary | ArtifactKindV1::ShortSummary
        | ArtifactKindV1::LongSummary => ContentBlockRoleV1::Summary,
        ArtifactKindV1::Highlights => ContentBlockRoleV1::Highlight,
        ArtifactKindV1::Chapters => ContentBlockRoleV1::Chapter,
    }
}

/// Kinds whose blocks are claims that the referenced text must support.
pub open spec fn claims(kind: ArtifactKindV1) -> bool {
    kind is DefaultSummary || kind is ShortSummary || kind is LongSummary || kind is Highlights
}

/// Whether the blocks of a kind are claims that the referenced text must support.
pub fn is_claims(kind: ArtifactKindV1) -> (b: bool)
    ensures
        b == claims(kind),
{
    match kind {
        ArtifactKindV1::DefaultSummary | ArtifactKindV1::ShortSummary
        | ArtifactKindV1::LongSummary | ArtifactKindV1::Highlights => true,
        _ => false,
    }
}

/// Whether a block names the place in the evidence that it rests on.
#[derive(Debug, Clone, Copy, PartialEq, Eq, Structural)]
pub enum SourceStatusV1 {
    Mapped,
    Limited,
}

/// How a record came about.
#[derive(Debug, Clone, Copy, PartialEq, Eq, Structural)]
pub enum EffectivePathV1 {
    Rules,
    Llm,
    RulesFallback,
}

/// Why rules stood in for the model.
#[derive(Debug, Clone, Copy, PartialEq, Eq, Structural)]
pub enum FallbackReasonCodeV1 {
    TargetUnavailable,
    GenerationFailed,
    ResponseInvalid,
}

/// Why a kind has no new record.
#[derive(Debug, Clone, Copy, PartialEq, Eq, Structural)]
pub enum FailureCodeV1 {
    TargetUnavailable,
    GenerationFailed,
    ResponseInvalid,
}

/// The kinds that a user can have made again.
#[derive(Debug, Clone, Copy, PartialEq, Eq, Structural)]
pub enum RegenerableKind {
    DefaultSummary,
    Highlights,
    Chapters,
    ShortSummary,
    LongSummary,
}

impl RegenerableKind {
    /// The kind that is made again.
    pub open spec fn kind(self) -> ArtifactKindV1 {
        match self {
            RegenerableKind::DefaultSummary => ArtifactKindV1::DefaultSummary,
            RegenerableKind::Highlights => ArtifactKindV1::Highlights,
            RegenerableKind::Chapters => ArtifactKindV1::Chapters,
            RegenerableKind::ShortSummary => ArtifactKindV1::ShortSummary,
            RegenerableKind::LongSummary => ArtifactKindV1::LongSummary,
        }
    }

    /// The kind that is made again.
    pub fn artifact_kind(self) -> (r: ArtifactKindV1)
        ensures
            r == self.kind(),
    {
        match self {
            RegenerableKind::DefaultSummary => ArtifactKindV1::DefaultSummary,
            RegenerableKind::Highlights => ArtifactKindV1::Highlights,
            RegenerableKind::Chapters => ArtifactKindV1::Chapters,
            RegenerableKind::ShortSummary => ArtifactKindV1::ShortSummary,
            RegenerableKind::LongSummary => ArtifactKindV1::LongSummary,
        }
    }

    /// The kind that an action key asks for.
    pub open spec fn of_action(action: Seq<char>) -> Option<RegenerableKind> {
        if action == "summary"@ {
            Some(RegenerableKind::DefaultSummary)
        } else if action == "summary-short"@ {
            Some(RegenerableKind::ShortSummary)
        } else if action == "summary-long"@ {
            Some(RegenerableKind::LongSummary)
        } else if action == "highlights"@ {
            Some(RegenerableKind::Highlights)
        } else if action == "chapters"@ {
            Some(RegenerableKind::Chapters)
        } else {
            None
        }
    }

    /// The kind that an action key asks for.
    pub fn from_action(action: &str) -> (r: Option<RegenerableKind>)
        ensures
            r == RegenerableKind::of_action(action@),
    {
        if same(action, "summary") {
            Some(RegenerableKind::DefaultSummary)
        } else if same(action, "summary-short") {
            Some(RegenerableKind::ShortSummary)
        } else if same(action, "summary-long") {
            Some(RegenerableKind::LongSummary)
        } else if same(action, "highlights") {
            Some(RegenerableKind::Highlights)
        } else if same(action, "chapters") {
            Some(RegenerableKind::Chapters)
        } else {
            None
        }
    }
}

/// Faithful text cannot be asked for again.
pub proof fn faithful_text_is_not_regenerable(kind: RegenerableKind)
    ensures
        kind.kind() != ArtifactKindV1::FaithfulText,
{
}

/// The optional tiers are the two summaries beside the one that every result has.
pub proof fn the_usual_summary_is_not_optional(kind: ArtifactKindV1)
    ensures
        kind.optional_tier() <==> !(kind is FaithfulText || kind is Chapters || kind is DefaultSummary || kind
            is Highlights),
{
}

} // verus!
