//! What can be wrong with stored content.

use vstd::prelude::*;
use crate::text::{cat2, cat4, decimal, dec};

verus! {

/// A stored value breaks the content schema.
#[derive(Debug)]
pub enum ContentSchemaError {
    /// The schema version is none that can be read.
    SchemaVersion { expected: u32, actual: u32 },
    /// The set of recipes is not the one in use.
    RecipeSetVersion { expected: u32, actual: u32 },
    /// Two stored facts contradict each other, or one is out of its range.
    Invariant(String),
    /// The stored bytes are no JSON of the schema.
    Json(String),
}

/// The mathematical value of a `ContentSchemaError`.
pub enum SchemaProblem {
    SchemaVersion { expected: u32, actual: u32 },
    RecipeSetVersion { expected: u32, actual: u32 },
    Invariant(Seq<char>),
    Json(Seq<char>),
}

impl View for ContentSchemaError {
    type V = SchemaProblem;

    open spec fn view(&self) -> SchemaProblem {
        match *self {
            ContentSchemaError::SchemaVersion { expected, actual } => SchemaProblem::SchemaVersion {
                expected,
                actual,
            },
            ContentSchemaError::RecipeSetVersion { expected, actual } => SchemaProblem::RecipeSetVersion {
                expected,
                actual,
            },
            ContentSchemaError::Invariant(s) => SchemaProblem::Invariant(s@),
            ContentSchemaError::Json(s) => SchemaProblem::Json(s@),
        }
    }
}

/// What a check found: nothing, or one problem.
pub open spec fn found(r: Result<(), ContentSchemaError>) -> Option<SchemaProblem> {
    match r {
        Ok(_) => None,
        Err(e) => Some(e@),
    }
}

/// A broken invariant with its message.
pub open spec fn broken(message: Seq<char>) -> Option<SchemaProblem> {
    Some(SchemaProblem::Invariant(message))
}

/// A broken invariant with its message.
pub fn violation(message: &str) -> (e: ContentSchemaError)
    ensures
        e@ == SchemaProblem::Invariant(message@),
{
    ContentSchemaError::Invariant(message.to_owned())
}

/// The sentence that describes a problem.
pub open spec fn problem_text(p: SchemaProblem) -> Seq<char> {
    match p {
        SchemaProblem::SchemaVersion { expected, actual } => {
            "unsupported schema version: expected "@ + dec(expected as nat) + ", got "@ + dec(actual as nat)
        },
        SchemaProblem::RecipeSetVersion { expected, actual } => {
            "unsupported recipe set version: expected "@ + dec(expected as nat) + ", got "@ + dec(
                actual as nat,
            )
        },
        SchemaProblem::Invariant(s) => "invalid content invariant: "@ + s,
        SchemaProblem::Json(s) => "invalid current JSON: "@ + s,
    }
}

impl ContentSchemaError {
    /// The sentence that describes the problem.
    pub fn describe(&self) -> (r: String)
        ensures
            r@ == problem_text(self@),
    {
        match self {
            ContentSchemaError::SchemaVersion { expected, actual } => cat4(
                "unsupported schema version: expected ",
                decimal(*expected as u64).as_str(),
                ", got ",
                decimal(*actual as u64).as_str(),
            ),
            ContentSchemaError::RecipeSetVersion { expected, actual } => cat4(
                "unsupported recipe set version: expected ",
                decimal(*expected as u64).as_str(),
                ", got ",
                decimal(*actual as u64).as_str(),
            ),
            ContentSchemaError::Invariant(s) => cat2("invalid content invariant: ", s.as_str()),
            ContentSchemaError::Json(s) => cat2("invalid current JSON: ", s.as_str()),
        }
    }
}

/// A content operation did not come to its end.
#[derive(Debug)]
pub enum ContentError {
    /// Stored content, or a target, breaks the schema.
    Schema(ContentSchemaError),
    /// A file could not be read or written.
    Io(String),
    /// The job is older than structured content.
    Legacy,
    /// The raw transcript cannot be used.
    Evidence(String),
    /// The user cancelled.
    Cancelled,
    /// The operation does not fit the state of the job.
    InvalidIntent(String),
    /// A record could not be made.
    Generation(String),
}

/// The mathematical value of a `ContentError`.
pub enum ContentProblem {
    Schema(SchemaProblem),
    Io(Seq<char>),
    Legacy,
    Evidence(Seq<char>),
    Cancelled,
    InvalidIntent(Seq<char>),
    Generation(Seq<char>),
}

impl View for ContentError {
    type V = ContentProblem;

    open spec fn view(&self) -> ContentProblem {
        match *self {
            ContentError::Schema(e) => ContentProblem::Schema(e@),
            ContentError::Io(s) => ContentProblem::Io(s@),
            ContentError::Legacy => ContentProblem::Legacy,
            ContentError::Evidence(s) => ContentProblem::Evidence(s@),
            ContentError::Cancelled => ContentProblem::Cancelled,
            ContentError::InvalidIntent(s) => ContentProblem::InvalidIntent(s@),
            ContentError::Generation(s) => ContentProblem::Generation(s@),
        }
    }
}

/// The sentence that describes a problem.
pub open spec fn content_problem_text(p: ContentProblem) -> Seq<char> {
    match p {
        ContentProblem::Schema(s) => "content schema: "@ + problem_text(s),
        ContentProblem::Io(s) => "content I/O: "@ + s,
        ContentProblem::Legacy => "content legacy job"@,
        ContentProblem::Evidence(s) => "content Evidence is invalid: "@ + s,
        ContentProblem::Cancelled => "content operation cancelled"@,
        ContentProblem::InvalidIntent(s) => "content intent is invalid: "@ + s,
        ContentProblem::Generation(s) => "content generation failed: "@ + s,
    }
}

impl ContentError {
    /// The sentence that describes the problem.
    pub fn describe(&self) -> (r: String)
        ensures
            r@ == content_problem_text(self@),
    {
        match self {
            ContentError::Schema(e) => cat2("content schema: ", e.describe().as_str()),
            ContentError::Io(s) => cat2("content I/O: ", s.as_str()),
            ContentError::Legacy => "content legacy job".to_owned(),
            ContentError::Evidence(s) => cat2("content Evidence is invalid: ", s.as_str()),
            ContentError::Cancelled => "content operation cancelled".to_owned(),
            ContentError::InvalidIntent(s) => cat2("content intent is invalid: ", s.as_str()),
            ContentError::Generation(s) => cat2("content generation failed: ", s.as_str()),
        }
    }
}

} // verus!
