//! The one stored result of a job, and what may be read from it.

use vstd::prelude::*;
use super::assembly::{evidence_problem, validate_record_against_evidence};
use super::error::{
    ContentError, ContentProblem, ContentSchemaError, SchemaProblem, broken, found, violation,
};
use super::evidence::{EvidenceDescriptorV1, SourceContextSnapshotV1, ValidatedEvidenceViewV1};
use super::kinds::ArtifactKindV1;
use super::provenance::{setup_mismatch, validate_record_provenance_for_setup};
use super::record::{
    DerivationFailureV1, DerivationRecordV1, shape_problem, validate_record_shape,
};
use super::target::{
    CONTENT_SCHEMA_VERSION, ContentSetupV1, is_supported_content_schema_version, readable_version,
};
use crate::jobs::Job;
use crate::text::{cat2, cat3};

verus! {

/// What there is of one kind: the record in force, and the latest failure.
#[derive(Debug, Clone, PartialEq)]
pub struct ArtifactSlotV1 {
    pub current: Option<DerivationRecordV1>,
    pub last_failure: Option<DerivationFailureV1>,
}

impl ArtifactSlotV1 {
    /// Something was tried.
    pub open spec fn settled(&self) -> bool {
        self.current is Some || self.last_failure is Some
    }

    /// Whether something was tried.
    pub fn is_settled(&self) -> (b: bool)
        ensures
            b == self.settled(),
    {
        self.current.is_some() || self.last_failure.is_some()
    }

    /// Nothing was tried.
    pub fn empty() -> (r: ArtifactSlotV1)
        ensures
            r.current is None,
            r.last_failure is None,
    {
        ArtifactSlotV1 { current: None, last_failure: None }
    }
}

/// One slot for each kind.
#[derive(Debug, Clone, PartialEq)]
pub struct ContentSlotsV1 {
    pub faithful_text: ArtifactSlotV1,
    pub default_summary: ArtifactSlotV1,
    pub highlights: ArtifactSlotV1,
    pub chapters: ArtifactSlotV1,
    pub short_summary: ArtifactSlotV1,
    pub long_summary: ArtifactSlotV1,
}

/// The first of two problems.
pub open spec fn first(a: Option<SchemaProblem>, b: Option<SchemaProblem>) -> Option<SchemaProblem> {
    if a is Some {
        a
    } else {
        b
    }
}

/// What is wrong with whether an enhancement was tried.
pub open spec fn settlement_problem(
    kind: ArtifactKindV1,
    slot: ArtifactSlotV1,
    setup: ContentSetupV1,
) -> Option<SchemaProblem> {
    if !setup.enhancements_requested && slot.settled() {
        broken(
            "enhancement slot "@ + kind.name_text() + " is populated while enhancements are disabled"@,
        )
    } else if setup.enhancements_requested && !slot.settled() {
        broken("requested enhancement slot "@ + kind.name_text() + " is unsettled"@)
    } else {
        None
    }
}

fn check_settlement(kind: ArtifactKindV1, slot: &ArtifactSlotV1, setup: &ContentSetupV1) -> (r: Result<
    (),
    ContentSchemaError,
>)
    ensures
        found(r) == settlement_problem(kind, *slot, *setup),
{
    if !setup.enhancements_requested && slot.is_settled() {
        return Err(
            ContentSchemaError::Invariant(
                cat3(
                    "enhancement slot ",
                    kind.name(),
                    " is populated while enhancements are disabled",
                ),
            ),
        );
    }
    if setup.enhancements_requested && !slot.is_settled() {
        return Err(
            ContentSchemaError::Invariant(
                cat3("requested enhancement slot ", kind.name(), " is unsettled"),
            ),
        );
    }
    Ok(())
}

impl ContentSlotsV1 {
    /// The slot of a kind.
    pub open spec fn slot(&self, kind: ArtifactKindV1) -> ArtifactSlotV1 {
        match kind {
            ArtifactKindV1::FaithfulText => self.faithful_text,
            ArtifactKindV1::DefaultSummary => self.default_summary,
            ArtifactKindV1::Highlights => self.highlights,
            ArtifactKindV1::Chapters => self.chapters,
            ArtifactKindV1::ShortSummary => self.short_summary,
            ArtifactKindV1::LongSummary => self.long_summary,
        }
    }

    /// The slots with one of them replaced.
    pub open spec fn with_slot(&self, kind: ArtifactKindV1, s: ArtifactSlotV1) -> ContentSlotsV1 {
        match kind {
            ArtifactKindV1::FaithfulText => ContentSlotsV1 { faithful_text: s, ..*self },
            ArtifactKindV1::DefaultSummary => ContentSlotsV1 { default_summary: s, ..*self },
            ArtifactKindV1::Highlights => ContentSlotsV1 { highlights: s, ..*self },
            ArtifactKindV1::Chapters => ContentSlotsV1 { chapters: s, ..*self },
            ArtifactKindV1::ShortSummary => ContentSlotsV1 { short_summary: s, ..*self },
            ArtifactKindV1::LongSummary => ContentSlotsV1 { long_summary: s, ..*self },
        }
    }

    /// No slot was tried.
    pub fn empty() -> (r: ContentSlotsV1)
        ensures
            forall|kind: ArtifactKindV1| !(#[trigger] r.slot(kind)).settled(),
    {
        ContentSlotsV1 {
            faithful_text: ArtifactSlotV1::empty(),
            default_summary: ArtifactSlotV1::empty(),
            highlights: ArtifactSlotV1::empty(),
            chapters: ArtifactSlotV1::empty(),
            short_summary: ArtifactSlotV1::empty(),
            long_summary: ArtifactSlotV1::empty(),
        }
    }

    /// The slot of a kind.
    pub fn get(&self, kind: ArtifactKindV1) -> (r: &ArtifactSlotV1)
        ensures
            *r == self.slot(kind),
    {
        match kind {
            ArtifactKindV1::FaithfulText => &self.faithful_text,
            ArtifactKindV1::DefaultSummary => &self.default_summary,
            ArtifactKindV1::Highlights => &self.highlights,
            ArtifactKindV1::Chapters => &self.chapters,
            ArtifactKindV1::ShortSummary => &self.short_summary,
            ArtifactKindV1::LongSummary => &self.long_summary,
        }
    }

    /// The slot of a kind, to be changed.
    pub fn get_mut(&mut self, kind: ArtifactKindV1) -> (r: &mut ArtifactSlotV1)
        ensures
            *r == old(self).slot(kind),
            *final(self) == old(self).with_slot(kind, *final(r)),
    {
        match kind {
            ArtifactKindV1::FaithfulText => &mut self.faithful_text,
            ArtifactKindV1::DefaultSummary => &mut self.default_summary,
            ArtifactKindV1::Highlights => &mut self.highlights,
            ArtifactKindV1::Chapters => &mut self.chapters,
            ArtifactKindV1::ShortSummary => &mut self.short_summary,
            ArtifactKindV1::LongSummary => &mut self.long_summary,
        }
    }

    /// What is wrong with which slots are filled. The short and the long summary may always
    /// be empty.
    pub open spec fn problem(&self, setup: ContentSetupV1) -> Option<SchemaProblem> {
        if self.faithful_text.current is None {
            broken("published current must contain faithful_text"@)
        } else {
            first(
                settlement_problem(ArtifactKindV1::DefaultSummary, self.default_summary, setup),
                first(
                    settlement_problem(ArtifactKindV1::Highlights, self.highlights, setup),
                    settlement_problem(ArtifactKindV1::Chapters, self.chapters, setup),
                ),
            )
        }
    }

    /// Accepts slots that are filled as the setup demands.
    pub fn validate(&self, setup: &ContentSetupV1) -> (r: Result<(), ContentSchemaError>)
        ensures
            found(r) == self.problem(*setup),
    {
        if self.faithful_text.current.is_none() {
            return Err(violation("published current must contain faithful_text"));
        }
        if let Err(e) = check_settlement(ArtifactKindV1::DefaultSummary, &self.default_summary, setup) {
            return Err(e);
        }
        if let Err(e) = check_settlement(ArtifactKindV1::Highlights, &self.highlights, setup) {
            return Err(e);
        }
        check_settlement(ArtifactKindV1::Chapters, &self.chapters, setup)
    }
}

/// The stored result of a job.
#[derive(Debug, Clone, PartialEq)]
pub struct ContentCurrentV1 {
    pub schema_version: u32,
    pub job_id: u128,
    pub evidence: EvidenceDescriptorV1,
    pub source_context: SourceContextSnapshotV1,
    pub setup: ContentSetupV1,
    pub slots: ContentSlotsV1,
}

/// The message of a problem with the record of a kind.
pub open spec fn about(what: Seq<char>, kind: ArtifactKindV1) -> Option<SchemaProblem> {
    broken(what + kind.name_text())
}

/// What is wrong with a record in the slot of a kind.
pub open spec fn record_problem(
    kind: ArtifactKindV1,
    r: DerivationRecordV1,
    evidence: EvidenceDescriptorV1,
    context: SourceContextSnapshotV1,
    setup: ContentSetupV1,
) -> Option<SchemaProblem> {
    if !readable_version(r.schema_version) {
        Some(
            SchemaProblem::SchemaVersion { expected: CONTENT_SCHEMA_VERSION, actual: r.schema_version },
        )
    } else if r.kind != kind {
        about("record kind mismatch for "@, kind)
    } else if r.revision == 0 {
        about("record revision must be positive for "@, kind)
    } else if r.evidence_identity@ != evidence.identity@ {
        about("record evidence identity mismatch for "@, kind)
    } else if r.source_context@ != context@ {
        about("record source context mismatch for "@, kind)
    } else if r.provenance.problem(r.kind) is Some {
        r.provenance.problem(r.kind)
    } else if setup_mismatch(r.kind, r.provenance, setup) is Some {
        setup_mismatch(r.kind, r.provenance, setup)
    } else {
        shape_problem(r.facts())
    }
}

fn mismatch(what: &str, kind: ArtifactKindV1) -> (e: ContentSchemaError)
    ensures
        Some(e@) == about(what@, kind),
{
    ContentSchemaError::Invariant(cat2(what, kind.name()))
}

fn check_record(
    kind: ArtifactKindV1,
    record: &DerivationRecordV1,
    evidence: &EvidenceDescriptorV1,
    context: &SourceContextSnapshotV1,
    setup: &ContentSetupV1,
) -> (r: Result<(), ContentSchemaError>)
    ensures
        found(r) == record_problem(kind, *record, *evidence, *context, *setup),
{
    if !is_supported_content_schema_version(record.schema_version) {
        return Err(
            ContentSchemaError::SchemaVersion {
                expected: CONTENT_SCHEMA_VERSION,
                actual: record.schema_version,
            },
        );
    }
    if record.kind != kind {
        return Err(mismatch("record kind mismatch for ", kind));
    }
    if record.revision == 0 {
        return Err(mismatch("record revision must be positive for ", kind));
    }
    if record.evidence_identity != evidence.identity {
        return Err(mismatch("record evidence identity mismatch for ", kind));
    }
    if !record.source_context.same_as(context) {
        return Err(mismatch("record source context mismatch for ", kind));
    }
    if let Err(e) = record.provenance.validate(record.kind) {
        return Err(e);
    }
    if let Err(e) = validate_record_provenance_for_setup(record.kind, &record.provenance, setup) {
        return Err(e);
    }
    validate_record_shape(record)
}

/// What is wrong with one slot.
pub open spec fn slot_problem(
    kind: ArtifactKindV1,
    slot: ArtifactSlotV1,
    evidence: EvidenceDescriptorV1,
    context: SourceContextSnapshotV1,
    setup: ContentSetupV1,
) -> Option<SchemaProblem> {
    first(
        match slot.current {
            Some(r) => record_problem(kind, r, evidence, context, setup),
            None => None,
        },
        match slot.last_failure {
            Some(f) => f.problem(),
            None => None,
        },
    )
}

fn check_slot(
    kind: ArtifactKindV1,
    slot: &ArtifactSlotV1,
    evidence: &EvidenceDescriptorV1,
    context: &SourceContextSnapshotV1,
    setup: &ContentSetupV1,
) -> (r: Result<(), ContentSchemaError>)
    ensures
        found(r) == slot_problem(kind, *slot, *evidence, *context, *setup),
{
    if let Some(record) = &slot.current {
        if let Err(e) = check_record(kind, record, evidence, context, setup) {
            return Err(e);
        }
    }
    if let Some(failure) = &slot.last_failure {
        return failure.validate();
    }
    Ok(())
}

impl ContentCurrentV1 {
    /// What is wrong with the slot of a kind.
    pub open spec fn slot_problem(&self, kind: ArtifactKindV1) -> Option<SchemaProblem> {
        slot_problem(kind, self.slots.slot(kind), self.evidence, self.source_context, self.setup)
    }

    /// The first problem of the six slots.
    pub open spec fn slots_problem(&self) -> Option<SchemaProblem> {
        first(
            self.slot_problem(ArtifactKindV1::FaithfulText),
            first(
                self.slot_problem(ArtifactKindV1::DefaultSummary),
                first(
                    self.slot_problem(ArtifactKindV1::Highlights),
                    first(
                        self.slot_problem(ArtifactKindV1::Chapters),
                        first(
                            self.slot_problem(ArtifactKindV1::ShortSummary),
                            self.slot_problem(ArtifactKindV1::LongSummary),
                        ),
                    ),
                ),
            ),
        )
    }

    /// What is wrong with the stored result.
    pub open spec fn problem(&self) -> Option<SchemaProblem> {
        if !readable_version(self.schema_version) {
            Some(
                SchemaProblem::SchemaVersion {
                    expected: CONTENT_SCHEMA_VERSION,
                    actual: self.schema_version,
                },
            )
        } else if self.evidence.problem() is Some {
            self.evidence.problem()
        } else if self.setup.problem() is Some {
            self.setup.problem()
        } else if self.job_id != self.evidence.job_id {
            broken("current job_id does not match evidence job_id"@)
        } else if self.slots.problem(self.setup) is Some {
            self.slots.problem(self.setup)
        } else {
            self.slots_problem()
        }
    }

    fn validate_slot(&self, kind: ArtifactKindV1) -> (r: Result<(), ContentSchemaError>)
        ensures
            found(r) == self.slot_problem(kind),
    {
        check_slot(kind, self.slots.get(kind), &self.evidence, &self.source_context, &self.setup)
    }

    /// Accepts a stored result that may be shown and built on.
    pub fn validate(&self) -> (r: Result<(), ContentSchemaError>)
        ensures
            found(r) == self.problem(),
    {
        if !is_supported_content_schema_version(self.schema_version) {
            return Err(
                ContentSchemaError::SchemaVersion {
                    expected: CONTENT_SCHEMA_VERSION,
                    actual: self.schema_version,
                },
            );
        }
        if let Err(e) = self.evidence.validate() {
            return Err(e);
        }
        if let Err(e) = self.setup.validate() {
            return Err(e);
        }
        if self.job_id != self.evidence.job_id {
            return Err(violation("current job_id does not match evidence job_id"));
        }
        if let Err(e) = self.slots.validate(&self.setup) {
            return Err(e);
        }
        if let Err(e) = self.validate_slot(ArtifactKindV1::FaithfulText) {
            return Err(e);
        }
        if let Err(e) = self.validate_slot(ArtifactKindV1::DefaultSummary) {
            return Err(e);
        }
        if let Err(e) = self.validate_slot(ArtifactKindV1::Highlights) {
            return Err(e);
        }
        if let Err(e) = self.validate_slot(ArtifactKindV1::Chapters) {
            return Err(e);
        }
        if let Err(e) = self.validate_slot(ArtifactKindV1::ShortSummary) {
            return Err(e);
        }
        self.validate_slot(ArtifactKindV1::LongSummary)
    }
}

// ---- A stored result and its job ----

/// What is wrong with the record of a kind under the transcript.
pub open spec fn record_evidence_problem(
    current: ContentCurrentV1,
    kind: ArtifactKindV1,
    evidence: ValidatedEvidenceViewV1,
) -> Option<SchemaProblem> {
    match current.slots.slot(kind).current {
        Some(r) => first(
            evidence_problem(r.facts(), evidence.utterances@),
            if r.kind != kind {
                broken("current slot record kind mismatch"@)
            } else {
                None
            },
        ),
        None => None,
    }
}

/// The first record that does not rest on the transcript.
pub open spec fn records_problem(current: ContentCurrentV1, evidence: ValidatedEvidenceViewV1) -> Option<
    SchemaProblem,
> {
    first(
        record_evidence_problem(current, ArtifactKindV1::FaithfulText, evidence),
        first(
            record_evidence_problem(current, ArtifactKindV1::DefaultSummary, evidence),
            first(
                record_evidence_problem(current, ArtifactKindV1::Highlights, evidence),
                first(
                    record_evidence_problem(current, ArtifactKindV1::Chapters, evidence),
                    first(
                        record_evidence_problem(current, ArtifactKindV1::ShortSummary, evidence),
                        record_evidence_problem(current, ArtifactKindV1::LongSummary, evidence),
                    ),
                ),
            ),
        ),
    )
}

/// What keeps a stored result from being the one of a job.
pub open spec fn match_problem(
    current: ContentCurrentV1,
    job_id: u128,
    evidence: ValidatedEvidenceViewV1,
    context: SourceContextSnapshotV1,
    setup: ContentSetupV1,
) -> Option<SchemaProblem> {
    if current.problem() is Some {
        current.problem()
    } else if current.job_id != job_id || !current.evidence.alike(&evidence.descriptor)
        || current.source_context@ != context@ || !current.setup.alike(&setup) {
        broken("current does not match the Job, Evidence, context, or setup"@)
    } else {
        records_problem(current, evidence)
    }
}

fn check_record_evidence(
    current: &ContentCurrentV1,
    kind: ArtifactKindV1,
    evidence: &ValidatedEvidenceViewV1,
) -> (r: Result<(), ContentSchemaError>)
    ensures
        found(r) == record_evidence_problem(*current, kind, *evidence),
{
    if let Some(record) = &current.slots.get(kind).current {
        if let Err(e) = validate_record_against_evidence(record, &evidence.utterances) {
            return Err(e);
        }
        if record.kind != kind {
            return Err(violation("current slot record kind mismatch"));
        }
    }
    Ok(())
}

/// Accepts a stored result as the one of a job: same evidence, context and setup, and every
/// record rests on the transcript.
pub fn current_matches_job(
    current: &ContentCurrentV1,
    job_id: u128,
    evidence: &ValidatedEvidenceViewV1,
    context: &SourceContextSnapshotV1,
    setup: &ContentSetupV1,
) -> (r: Result<(), ContentSchemaError>)
    ensures
        found(r) == match_problem(*current, job_id, *evidence, *context, *setup),
{
    if let Err(e) = current.validate() {
        return Err(e);
    }
    if current.job_id != job_id || !current.evidence.same_as(&evidence.descriptor)
        || !current.source_context.same_as(context) || !current.setup.same_as(setup) {
        return Err(violation("current does not match the Job, Evidence, context, or setup"));
    }
    if let Err(e) = check_record_evidence(current, ArtifactKindV1::FaithfulText, evidence) {
        return Err(e);
    }
    if let Err(e) = check_record_evidence(current, ArtifactKindV1::DefaultSummary, evidence) {
        return Err(e);
    }
    if let Err(e) = check_record_evidence(current, ArtifactKindV1::Highlights, evidence) {
        return Err(e);
    }
    if let Err(e) = check_record_evidence(current, ArtifactKindV1::Chapters, evidence) {
        return Err(e);
    }
    if let Err(e) = check_record_evidence(current, ArtifactKindV1::ShortSummary, evidence) {
        return Err(e);
    }
    check_record_evidence(current, ArtifactKindV1::LongSummary, evidence)
}

/// What the file of a stored result holds.
#[derive(Debug)]
pub enum StoredCurrent {
    /// There is no such file.
    Missing,
    /// The file cannot be read.
    Unreadable(String),
    /// The bytes are no JSON of the schema.
    NotJson(String),
    /// The bytes are JSON of the schema.
    Parsed(ContentCurrentV1),
}

/// The stored result, if there is one and it is sound in itself.
pub open spec fn loads_as(stored: StoredCurrent, r: Result<Option<ContentCurrentV1>, ContentError>) -> bool {
    match stored {
        StoredCurrent::Missing => r == Ok::<Option<ContentCurrentV1>, ContentError>(None),
        StoredCurrent::Unreadable(m) => r matches Err(e) && e@ == ContentProblem::Io(m@),
        StoredCurrent::NotJson(m) => r matches Err(e) && e@ == ContentProblem::Schema(
            SchemaProblem::Json(m@),
        ),
        StoredCurrent::Parsed(c) => match c.problem() {
            None => r == Ok::<Option<ContentCurrentV1>, ContentError>(Some(c)),
            Some(p) => r matches Err(e) && e@ == ContentProblem::Schema(p),
        },
    }
}

/// The stored result, if there is one and it is sound in itself.
pub fn load_current(stored: StoredCurrent) -> (r: Result<Option<ContentCurrentV1>, ContentError>)
    ensures
        loads_as(stored, r),
{
    match stored {
        StoredCurrent::Missing => Ok(None),
        StoredCurrent::Unreadable(m) => Err(ContentError::Io(m)),
        StoredCurrent::NotJson(m) => Err(ContentError::Schema(ContentSchemaError::Json(m))),
        StoredCurrent::Parsed(c) => {
            match c.validate() {
                Ok(()) => Ok(Some(c)),
                Err(e) => Err(ContentError::Schema(e)),
            }
        },
    }
}

/// The stored result as far as it can be built on: one that is damaged, or belongs to
/// something else, counts as none.
pub fn load_matching_current(
    stored: StoredCurrent,
    job_id: u128,
    evidence: &ValidatedEvidenceViewV1,
    context: &SourceContextSnapshotV1,
    setup: &ContentSetupV1,
) -> (r: Result<Option<ContentCurrentV1>, ContentError>)
    ensures
        match stored {
            StoredCurrent::Unreadable(m) => r matches Err(e) && e@ == ContentProblem::Io(m@),
            StoredCurrent::Parsed(c) => if match_problem(c, job_id, *evidence, *context, *setup) is None {
                r == Ok::<Option<ContentCurrentV1>, ContentError>(Some(c))
            } else {
                r == Ok::<Option<ContentCurrentV1>, ContentError>(None)
            },
            _ => r == Ok::<Option<ContentCurrentV1>, ContentError>(None),
        },
{
    match load_current(stored) {
        Err(ContentError::Schema(_)) => Ok(None),
        Err(e) => Err(e),
        Ok(None) => Ok(None),
        Ok(Some(c)) => {
            if current_matches_job(&c, job_id, evidence, context, setup).is_ok() {
                Ok(Some(c))
            } else {
                Ok(None)
            }
        },
    }
}

/// A stored result together with the transcript it rests on.
#[derive(Debug, Clone)]
pub struct ContentSnapshotV1 {
    pub current: ContentCurrentV1,
    pub evidence: ValidatedEvidenceViewV1,
}

/// Why there is only the raw transcript.
#[derive(Debug, Clone, Copy, PartialEq, Eq, Structural)]
pub enum CurrentIssueV1 {
    NotGenerated,
    Corrupt,
}

/// What can be shown of a job's content.
#[derive(Debug, Clone)]
pub enum ContentViewV1 {
    /// The job is older than structured content.
    Legacy,
    /// Only the raw transcript can be shown.
    RawOnly { evidence: ValidatedEvidenceViewV1, current_issue: CurrentIssueV1 },
    /// Everything can be shown.
    Current(ContentSnapshotV1),
}

/// What can be shown of a job's content.
pub open spec fn shows(
    job: Job,
    evidence: Result<ValidatedEvidenceViewV1, ContentError>,
    context: SourceContextSnapshotV1,
    stored: StoredCurrent,
    r: Result<ContentViewV1, ContentError>,
) -> bool {
    match job.content_setup {
        None => r matches Ok(ContentViewV1::Legacy),
        Some(setup) => match setup.problem() {
            Some(p) => r matches Err(e) && e@ == ContentProblem::Schema(p),
            None => match evidence {
                Err(p) => r == Err::<ContentViewV1, ContentError>(p),
                Ok(ev) => match stored {
                    StoredCurrent::Missing => r == Ok::<ContentViewV1, ContentError>(
                        ContentViewV1::RawOnly {
                            evidence: ev,
                            current_issue: CurrentIssueV1::NotGenerated,
                        },
                    ),
                    StoredCurrent::Unreadable(m) => r matches Err(e) && e@ == ContentProblem::Io(m@),
                    StoredCurrent::Parsed(c) if match_problem(c, job.id, ev, context, setup) is None => r
                        == Ok::<ContentViewV1, ContentError>(
                        ContentViewV1::Current(ContentSnapshotV1 { current: c, evidence: ev }),
                    ),
                    _ => r == Ok::<ContentViewV1, ContentError>(
                        ContentViewV1::RawOnly {
                            evidence: ev,
                            current_issue: CurrentIssueV1::Corrupt,
                        },
                    ),
                },
            },
        },
    }
}

/// What can be shown of a job's content, given its transcript and what the file of its result
/// holds. Nothing is repaired on the way.
pub fn current(
    job: &Job,
    evidence: Result<ValidatedEvidenceViewV1, ContentError>,
    context: &SourceContextSnapshotV1,
    stored: StoredCurrent,
) -> (r: Result<ContentViewV1, ContentError>)
    ensures
        shows(*job, evidence, *context, stored, r),
{
    let setup = match &job.content_setup {
        None => {
            return Ok(ContentViewV1::Legacy);
        },
        Some(s) => s,
    };
    if let Err(e) = setup.validate() {
        return Err(ContentError::Schema(e));
    }
    let evidence = match evidence {
        Ok(ev) => ev,
        Err(e) => {
            return Err(e);
        },
    };
    match load_current(stored) {
        Err(ContentError::Schema(_)) => Ok(
            ContentViewV1::RawOnly { evidence, current_issue: CurrentIssueV1::Corrupt },
        ),
        Err(e) => Err(e),
        Ok(None) => Ok(
            ContentViewV1::RawOnly { evidence, current_issue: CurrentIssueV1::NotGenerated },
        ),
        Ok(Some(c)) => {
            if current_matches_job(&c, job.id, &evidence, context, setup).is_ok() {
                Ok(ContentViewV1::Current(ContentSnapshotV1 { current: c, evidence }))
            } else {
                Ok(ContentViewV1::RawOnly { evidence, current_issue: CurrentIssueV1::Corrupt })
            }
        },
    }
}

/// The text that is read first: the chosen summary where there is one, else the faithful
/// text; never another summary.
pub fn primary_consumption_record(
    snapshot: &ContentSnapshotV1,
    selected_tier: Option<ArtifactKindV1>,
) -> (r: Option<&DerivationRecordV1>)
    ensures
        r == (match selected_tier {
            Some(kind) if snapshot.current.slots.slot(kind).current is Some => Some(
                &(snapshot.current.slots.slot(kind).current->0),
            ),
            _ => match snapshot.current.slots.faithful_text.current {
                Some(record) => Some(&record),
                None => None,
            },
        }),
{
    if let Some(kind) = selected_tier {
        if let Some(record) = &snapshot.current.slots.get(kind).current {
            return Some(record);
        }
    }
    match &snapshot.current.slots.faithful_text.current {
        Some(record) => Some(record),
        None => None,
    }
}

// ---- What a result that is shown can be relied on for ----

/// Every kind has a place of its own: what is put there is found there, and nothing else moves.
pub proof fn every_kind_has_its_own_place(
    slots: ContentSlotsV1,
    kind: ArtifactKindV1,
    other: ArtifactKindV1,
    s: ArtifactSlotV1,
)
    ensures
        slots.with_slot(kind, s).slot(kind) == s,
        other != kind ==> slots.with_slot(kind, s).slot(other) == slots.slot(other),
{
}

/// A result that passes belongs to its evidence and has a faithful text. Every record in it is of
/// the kind of its place, comes from that evidence and that context, and is well formed; the usual
/// texts are settled exactly where they were asked for.
pub proof fn a_sound_result_is_sound_in_every_place(c: ContentCurrentV1, kind: ArtifactKindV1)
    requires
        c.problem() is None,
    ensures
        c.job_id == c.evidence.job_id,
        c.evidence.problem() is None,
        c.setup.problem() is None,
        c.slots.faithful_text.current is Some,
        kind is DefaultSummary || kind is Highlights || kind is Chapters ==> (c.slots.slot(kind).settled()
            <==> c.setup.enhancements_requested),
        c.slots.slot(kind).current matches Some(r) ==> {
            &&& r.kind == kind
            &&& r.revision >= 1
            &&& r.evidence_identity@ == c.evidence.identity@
            &&& r.source_context@ == c.source_context@
            &&& r.provenance.problem(kind) is None
            &&& shape_problem(r.facts()) is None
        },
        c.slots.slot(kind).last_failure matches Some(f) ==> f.problem() is None,
{
    assert(c.slot_problem(ArtifactKindV1::FaithfulText) is None);
    assert(c.slot_problem(ArtifactKindV1::DefaultSummary) is None);
    assert(c.slot_problem(ArtifactKindV1::Highlights) is None);
    assert(c.slot_problem(ArtifactKindV1::Chapters) is None);
    assert(c.slot_problem(ArtifactKindV1::ShortSummary) is None);
    assert(c.slot_problem(ArtifactKindV1::LongSummary) is None);
    assert(c.slot_problem(kind) is None);
}

/// A result that is shown for a job is that job's, from the evidence, the context and the setup
/// that it has now, and every record in it holds against the transcript.
pub proof fn a_shown_result_holds_against_the_transcript(
    c: ContentCurrentV1,
    job_id: u128,
    evidence: ValidatedEvidenceViewV1,
    context: SourceContextSnapshotV1,
    setup: ContentSetupV1,
    kind: ArtifactKindV1,
)
    requires
        match_problem(c, job_id, evidence, context, setup) is None,
    ensures
        c.problem() is None,
        c.job_id == job_id,
        c.evidence.identity@ == evidence.descriptor.identity@,
        c.source_context@ == context@,
        c.setup.alike(&setup),
        c.slots.slot(kind).current matches Some(r) ==> r.kind == kind && evidence_problem(
            r.facts(),
            evidence.utterances@,
        ) is None,
{
    assert(record_evidence_problem(c, ArtifactKindV1::FaithfulText, evidence) is None);
    assert(record_evidence_problem(c, ArtifactKindV1::DefaultSummary, evidence) is None);
    assert(record_evidence_problem(c, ArtifactKindV1::Highlights, evidence) is None);
    assert(record_evidence_problem(c, ArtifactKindV1::Chapters, evidence) is None);
    assert(record_evidence_problem(c, ArtifactKindV1::ShortSummary, evidence) is None);
    assert(record_evidence_problem(c, ArtifactKindV1::LongSummary, evidence) is None);
    assert(record_evidence_problem(c, kind, evidence) is None);
}

/// A job is shown its result only where that holds against the transcript; without one it is
/// shown the transcript and told that there is none, or that it is broken.
pub proof fn only_a_matching_result_is_shown(
    job: Job,
    evidence: ValidatedEvidenceViewV1,
    context: SourceContextSnapshotV1,
    stored: StoredCurrent,
    r: Result<ContentViewV1, ContentError>,
)
    requires
        shows(job, Ok(evidence), context, stored, r),
        job.content_setup is Some,
        (job.content_setup->0).problem() is None,
    ensures
        r matches Ok(ContentViewV1::Current(s)) ==> stored == StoredCurrent::Parsed(s.current) && s.evidence
            == evidence && match_problem(s.current, job.id, evidence, context, job.content_setup->0) is None,
        stored is Missing ==> (r matches Ok(ContentViewV1::RawOnly { evidence: e, current_issue: i })
            && i is NotGenerated && e == evidence),
        stored is NotJson ==> (r matches Ok(ContentViewV1::RawOnly { evidence: e, current_issue: i }) && i is Corrupt
            && e == evidence),
        (stored matches StoredCurrent::Parsed(c) && match_problem(
            c,
            job.id,
            evidence,
            context,
            job.content_setup->0,
        ) is None) ==> (r matches Ok(ContentViewV1::Current(s)) && stored == StoredCurrent::Parsed(s.current)),
{
}

/// An enhancement is tried where it was asked for, and only there.
pub proof fn enhancements_are_tried_where_asked_for(kind: ArtifactKindV1, slot: ArtifactSlotV1, setup: ContentSetupV1)
    ensures
        settlement_problem(kind, slot, setup) is None <==> (setup.enhancements_requested <==> slot.current is Some
            || slot.last_failure is Some),
{
}

} // verus!
