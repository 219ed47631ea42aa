//! Making a job's texts: which comes next, what an answer changes, and what is published.
//!
//! The model is asked outside. Here each answer is taken in and the next question, or the
//! result, is worked out.

use vstd::prelude::*;
use super::assembly::{
    ChunkResult, GeneratedChunk, GenerationPortError, fresh_record, mergeable, merged_facts,
};
use super::chunks::{chunk_utterances, chunks_of};
use super::current::{
    ArtifactSlotV1, ContentCurrentV1, ContentSlotsV1, current_matches_job, match_problem,
};
use super::error::{ContentError, ContentProblem, SchemaProblem};
use super::evidence::{SourceContextSnapshotV1, ValidatedEvidenceViewV1};
use super::generation::{
    GenerationRequest, answer_result, asks, failure_code, failure_for_port, failure_text, fallback_code,
    finish_generation, generation_request, read_answer, usable_answer,
};
use super::kinds::{ArtifactKindV1, EffectivePathV1, FailureCodeV1, FallbackReasonCodeV1, RegenerableKind};
use super::provenance::FallbackReasonV1;
use super::record::{DerivationFailureV1, DerivationRecordV1, UtcTime};
use super::rules::{
    deterministic_faithful_record, rules_repeat_the_transcript, rules_results, sound_transcript,
};
use super::target::{
    CONTENT_SCHEMA_VERSION, ContentSetupV1, InitialTargetV1, ReadyGenerationTargetV1,
};
use crate::jobs::{Job, JobStatus};
use crate::text::{text, views};

verus! {

// ---- May an operation begin ----

/// What a user or the pipeline asks for.
#[derive(Debug, Clone)]
pub enum Intent {
    /// Make what is missing of the first run.
    Initial,
    /// Make one text again.
    Regenerate { kind: RegenerableKind, target: ReadyGenerationTargetV1 },
}

/// Why an operation may not begin.
pub open spec fn refusal(job: Job, intent: Intent) -> Option<ContentProblem> {
    match job.content_setup {
        None => Some(ContentProblem::Legacy),
        Some(setup) => if setup.problem() is Some {
            Some(ContentProblem::Schema(setup.problem()->0))
        } else {
            match intent {
                Intent::Initial => None,
                Intent::Regenerate { kind, target } => if target.problem() is Some {
                    Some(ContentProblem::Schema(target.problem()->0))
                } else if !setup.enhancements_requested {
                    Some(ContentProblem::InvalidIntent("当前任务未请求 AI 增强"@))
                } else if !job.status.terminal() {
                    Some(ContentProblem::InvalidIntent("任务尚未进入终态"@))
                } else {
                    None
                },
            }
        },
    }
}

/// Refuses an operation before anything is read or changed.
pub fn authorize(job: &Job, intent: &Intent) -> (r: Result<(), ContentError>)
    ensures
        match r {
            Ok(_) => refusal(*job, *intent) is None,
            Err(e) => refusal(*job, *intent) == Some(e@),
        },
{
    let setup = match &job.content_setup {
        None => {
            return Err(ContentError::Legacy);
        },
        Some(s) => s,
    };
    if let Err(e) = setup.validate() {
        return Err(ContentError::Schema(e));
    }
    if let Intent::Regenerate { kind: _, target } = intent {
        if let Err(e) = target.validate() {
            return Err(ContentError::Schema(e));
        }
        if !setup.enhancements_requested {
            return Err(ContentError::InvalidIntent(text("当前任务未请求 AI 增强")));
        }
        if !job.status.is_terminal() {
            return Err(ContentError::InvalidIntent(text("任务尚未进入终态")));
        }
    }
    Ok(())
}

// ---- Small pieces ----

/// The revision of the next record of a slot.
pub open spec fn revision_after(slot: ArtifactSlotV1) -> int {
    match slot.current {
        Some(r) => r.revision + 1,
        None => 1,
    }
}

/// The revision of the next record of a slot, unless there is none left.
pub fn next_revision(slot: &ArtifactSlotV1) -> (r: Result<u32, ContentError>)
    ensures
        match r {
            Ok(n) => n == revision_after(*slot),
            Err(e) => revision_after(*slot) > u32::MAX && e@ == ContentProblem::Generation(
                "结果 revision 已达到上限"@,
            ),
        },
{
    match &slot.current {
        None => Ok(1),
        Some(record) => {
            if record.revision == u32::MAX {
                return Err(ContentError::Generation(text("结果 revision 已达到上限")));
            }
            Ok(record.revision + 1)
        },
    }
}

/// A failure as it is recorded.
pub open spec fn failed(f: DerivationFailureV1, code: FailureCodeV1, message: Seq<char>, now: UtcTime) -> bool {
    f.code == code && f.message@ == message && f.retryable && f.occurred_at == now
}

/// A failure as it is recorded.
pub fn make_failure(code: FailureCodeV1, message: &str, now: UtcTime) -> (f: DerivationFailureV1)
    ensures
        failed(f, code, message@, now),
{
    DerivationFailureV1 { code, message: text(message), retryable: true, occurred_at: now }
}

/// A job's result before anything was made.
pub open spec fn blank_current(
    c: ContentCurrentV1,
    job_id: u128,
    evidence: ValidatedEvidenceViewV1,
    context: SourceContextSnapshotV1,
    setup: ContentSetupV1,
) -> bool {
    &&& c.schema_version == CONTENT_SCHEMA_VERSION
    &&& c.job_id == job_id
    &&& c.evidence == evidence.descriptor
    &&& c.source_context@ == context@
    &&& c.setup == setup
    &&& forall|kind: ArtifactKindV1| !(#[trigger] c.slots.slot(kind)).settled()
}

/// A job's result before anything was made.
pub fn build_empty_current(
    job_id: u128,
    evidence: &ValidatedEvidenceViewV1,
    context: &SourceContextSnapshotV1,
    setup: &ContentSetupV1,
) -> (r: ContentCurrentV1)
    ensures
        blank_current(r, job_id, *evidence, *context, *setup),
{
    ContentCurrentV1 {
        schema_version: CONTENT_SCHEMA_VERSION,
        job_id,
        evidence: evidence.descriptor.clone(),
        source_context: context.clone(),
        setup: setup.clone(),
        slots: ContentSlotsV1::empty(),
    }
}

/// A slot with its record in the schema version in use.
pub open spec fn upgraded_slot(s: ArtifactSlotV1) -> ArtifactSlotV1 {
    ArtifactSlotV1 {
        current: match s.current {
            Some(r) => Some(DerivationRecordV1 { schema_version: CONTENT_SCHEMA_VERSION, ..r }),
            None => None,
        },
        ..s
    }
}

/// A stored result in the schema version in use. Nothing but version numbers changes.
pub open spec fn upgraded(c: ContentCurrentV1) -> ContentCurrentV1 {
    ContentCurrentV1 {
        schema_version: CONTENT_SCHEMA_VERSION,
        slots: ContentSlotsV1 {
            faithful_text: upgraded_slot(c.slots.faithful_text),
            default_summary: upgraded_slot(c.slots.default_summary),
            highlights: upgraded_slot(c.slots.highlights),
            chapters: upgraded_slot(c.slots.chapters),
            short_summary: upgraded_slot(c.slots.short_summary),
            long_summary: upgraded_slot(c.slots.long_summary),
        },
        ..c
    }
}

fn upgrade_slot(s: ArtifactSlotV1) -> (r: ArtifactSlotV1)
    ensures
        r == upgraded_slot(s),
{
    match s.current {
        Some(record) => {
            let mut record = record;
            record.schema_version = CONTENT_SCHEMA_VERSION;
            ArtifactSlotV1 { current: Some(record), last_failure: s.last_failure }
        },
        None => ArtifactSlotV1 { current: None, last_failure: s.last_failure },
    }
}

/// A stored result in the schema version in use.
pub fn upgrade_current(c: ContentCurrentV1) -> (r: ContentCurrentV1)
    ensures
        r == upgraded(c),
{
    ContentCurrentV1 {
        schema_version: CONTENT_SCHEMA_VERSION,
        job_id: c.job_id,
        evidence: c.evidence,
        source_context: c.source_context,
        setup: c.setup,
        slots: ContentSlotsV1 {
            faithful_text: upgrade_slot(c.slots.faithful_text),
            default_summary: upgrade_slot(c.slots.default_summary),
            highlights: upgrade_slot(c.slots.highlights),
            chapters: upgrade_slot(c.slots.chapters),
            short_summary: upgrade_slot(c.slots.short_summary),
            long_summary: upgrade_slot(c.slots.long_summary),
        },
    }
}

// ---- One answer ----

/// How far the answers about one text have come.
#[derive(Debug)]
pub enum Progress {
    /// More pieces are to be asked about; these were answered.
    More(Vec<ChunkResult>),
    /// The text is made, or cannot be made.
    Finished(Result<DerivationRecordV1, GenerationPortError>),
}

/// What an answer about the next piece brings.
pub open spec fn progress_after(
    kind: ArtifactKindV1,
    target: ReadyGenerationTargetV1,
    evidence: ValidatedEvidenceViewV1,
    context: SourceContextSnapshotV1,
    answered: Seq<ChunkResult>,
    reply: Result<GeneratedChunk, GenerationPortError>,
    now: UtcTime,
    p: Progress,
) -> bool {
    let pieces = chunks_of(evidence.utterances@);
    let index = answered.len() as int;
    match reply {
        Err(e) => p == Progress::Finished(Err(e)),
        Ok(g) => if !usable_answer(kind, index, g, pieces[index]) {
            p == Progress::Finished(Err(GenerationPortError::ResponseInvalid))
        } else {
            exists|result: ChunkResult| #[trigger]
                answer_result(kind, index, g, pieces[index], result) && if index + 1 < pieces.len() {
                    p matches Progress::More(all) && all@ == answered.push(result)
                } else if mergeable(kind, answered.push(result), evidence) {
                    p matches Progress::Finished(Ok(record)) && fresh_record(
                        record,
                        merged_facts(
                            kind,
                            answered.push(result),
                            evidence.descriptor.utterance_count as int,
                        ),
                        evidence.descriptor,
                        context,
                        Some(target),
                        EffectivePathV1::Llm,
                        None,
                        now,
                    )
                } else {
                    p == Progress::Finished(Err(GenerationPortError::ResponseInvalid))
                }
        },
    }
}

/// Takes in the answer about the next piece.
pub fn take_reply(
    kind: ArtifactKindV1,
    target: &ReadyGenerationTargetV1,
    evidence: &ValidatedEvidenceViewV1,
    context: &SourceContextSnapshotV1,
    answered: Vec<ChunkResult>,
    reply: Result<GeneratedChunk, GenerationPortError>,
    now: UtcTime,
) -> (p: Progress)
    requires
        answered@.len() < chunks_of(evidence.utterances@).len(),
    ensures
        progress_after(kind, *target, *evidence, *context, answered@, reply, now, p),
{
    let generated = match reply {
        Err(e) => {
            return Progress::Finished(Err(e));
        },
        Ok(g) => g,
    };
    let pieces = chunk_utterances(&evidence.utterances);
    let index: usize = answered.len();
    assert(views(pieces@).len() == pieces@.len());
    assert(views(pieces@)[index as int] == pieces@[index as int]@);
    match read_answer(kind, index, &pieces[index], generated) {
        Err(e) => Progress::Finished(Err(e)),
        Ok(result) => {
            let ghost before = answered@;
            let mut all = answered;
            all.push(result);
            assert(answer_result(
                kind,
                index as int,
                generated,
                chunks_of(evidence.utterances@)[index as int],
                result,
            ));
            if all.len() < pieces.len() {
                Progress::More(all)
            } else {
                Progress::Finished(finish_generation(kind, target, evidence, context, all, now))
            }
        },
    }
}

// ---- The first run ----

/// The text that is made at a stage of the first run.
pub open spec fn stage_kind(i: int) -> ArtifactKindV1 {
    if i <= 0 {
        ArtifactKindV1::FaithfulText
    } else if i == 1 {
        ArtifactKindV1::DefaultSummary
    } else if i == 2 {
        ArtifactKindV1::Highlights
    } else {
        ArtifactKindV1::Chapters
    }
}

/// The text that is made at a stage of the first run.
pub fn kind_of_stage(i: usize) -> (r: ArtifactKindV1)
    ensures
        r == stage_kind(i as int),
{
    if i == 0 {
        ArtifactKindV1::FaithfulText
    } else if i == 1 {
        ArtifactKindV1::DefaultSummary
    } else if i == 2 {
        ArtifactKindV1::Highlights
    } else {
        ArtifactKindV1::Chapters
    }
}

/// Nothing is to be done at a stage: its text is there, or was not asked for.
pub open spec fn idle(setup: ContentSetupV1, slots: ContentSlotsV1, i: int) -> bool {
    slots.slot(stage_kind(i)).current is Some || (i > 0 && !setup.enhancements_requested)
}

/// The model is to be asked at a stage.
pub open spec fn needs_model(setup: ContentSetupV1, slots: ContentSlotsV1, i: int) -> bool {
    setup.initial_target is Ready && !idle(setup, slots, i)
}

/// The first stage from `i` on at which the model is to be asked; 4 if there is none.
pub open spec fn next_stop(setup: ContentSetupV1, slots: ContentSlotsV1, i: int) -> int
    decreases 4 - i,
{
    if i >= 4 {
        4
    } else if needs_model(setup, slots, i) {
        i
    } else {
        next_stop(setup, slots, i + 1)
    }
}

/// A record of faithful text that rules made.
pub open spec fn made_by_rules(
    r: DerivationRecordV1,
    evidence: ValidatedEvidenceViewV1,
    context: SourceContextSnapshotV1,
    target: Option<ReadyGenerationTargetV1>,
    path: EffectivePathV1,
    now: UtcTime,
) -> bool {
    exists|results: Seq<ChunkResult>| #[trigger]
        rules_results(results, evidence.utterances@) && mergeable(
            ArtifactKindV1::FaithfulText,
            results,
            evidence,
        ) && fresh_record(
            r,
            merged_facts(
                ArtifactKindV1::FaithfulText,
                results,
                evidence.descriptor.utterance_count as int,
            ),
            evidence.descriptor,
            context,
            target,
            path,
            r.provenance.fallback_reason,
            now,
        )
}

/// The reason for a fallback, by value.
pub open spec fn reason_is(r: Option<FallbackReasonV1>, code: FallbackReasonCodeV1, message: Seq<char>) -> bool {
    r matches Some(f) && f.code == code && f.message@ == message
}

/// The faithful text of a job without a model.
pub open spec fn faithful_without_model(
    r: DerivationRecordV1,
    setup: ContentSetupV1,
    evidence: ValidatedEvidenceViewV1,
    context: SourceContextSnapshotV1,
    now: UtcTime,
) -> bool {
    match setup.initial_target {
        InitialTargetV1::Disabled => made_by_rules(
            r,
            evidence,
            context,
            None,
            EffectivePathV1::Rules,
            now,
        ) && r.provenance.fallback_reason is None,
        InitialTargetV1::Unavailable(t) => made_by_rules(
            r,
            evidence,
            context,
            None,
            EffectivePathV1::RulesFallback,
            now,
        ) && reason_is(
            r.provenance.fallback_reason,
            FallbackReasonCodeV1::TargetUnavailable,
            t.message@,
        ),
        InitialTargetV1::Ready(_) => false,
    }
}

/// What a stage without a model does to its slot.
pub open spec fn filled_without_model(
    i: int,
    before: ArtifactSlotV1,
    after: ArtifactSlotV1,
    setup: ContentSetupV1,
    evidence: ValidatedEvidenceViewV1,
    context: SourceContextSnapshotV1,
    now: UtcTime,
) -> bool {
    if i == 0 {
        after.last_failure is None && after.current is Some && faithful_without_model(
            after.current->0,
            setup,
            evidence,
            context,
            now,
        )
    } else {
        after.current is None && after.last_failure is Some && failed(
            after.last_failure->0,
            FailureCodeV1::TargetUnavailable,
            "本地 AI 配置不可用"@,
            now,
        )
    }
}

/// The first run of a job's content on its way.
#[derive(Debug)]
pub struct InitialRun {
    pub current: ContentCurrentV1,
    pub dirty: bool,
    pub stage: usize,
    pub answered: Vec<ChunkResult>,
}

/// What is to be done next.
#[derive(Debug)]
pub enum InitialStep {
    /// Ask the model.
    Ask(GenerationRequest),
    /// Write the result.
    Publish,
    /// Nothing changed; there is nothing to write.
    Unchanged,
}

/// How the slots change between two stages, without the model.
pub open spec fn walked(
    setup: ContentSetupV1,
    evidence: ValidatedEvidenceViewV1,
    context: SourceContextSnapshotV1,
    before: ContentSlotsV1,
    from: int,
    after: ContentSlotsV1,
    to: int,
    now: UtcTime,
) -> bool {
    &&& forall|i: int|
        #![trigger stage_kind(i)]
        0 <= i < 4 ==> if from <= i < to && !idle(setup, before, i) {
            filled_without_model(
                i,
                before.slot(stage_kind(i)),
                after.slot(stage_kind(i)),
                setup,
                evidence,
                context,
                now,
            )
        } else {
            after.slot(stage_kind(i)) == before.slot(stage_kind(i))
        }
    &&& after.short_summary == before.short_summary
    &&& after.long_summary == before.long_summary
}

/// Something was done between two stages.
pub open spec fn busy_between(setup: ContentSetupV1, slots: ContentSlotsV1, from: int, to: int) -> bool {
    exists|i: int| from <= i < to && !#[trigger] idle(setup, slots, i)
}

/// The run went from stage `from` to the next stage at which the model is needed, or to the
/// end.
pub open spec fn walked_on(
    setup: ContentSetupV1,
    evidence: ValidatedEvidenceViewV1,
    context: SourceContextSnapshotV1,
    current: ContentCurrentV1,
    dirty: bool,
    from: int,
    run: InitialRun,
    step: InitialStep,
    now: UtcTime,
) -> bool {
    let stop = next_stop(setup, current.slots, from);
    &&& run.stage == stop
    &&& run.answered@.len() == 0
    &&& run.dirty == (dirty || busy_between(setup, current.slots, from, stop))
    &&& run.current == (ContentCurrentV1 { slots: run.current.slots, ..current })
    &&& walked(setup, evidence, context, current.slots, from, run.current.slots, stop, now)
    &&& if stop < 4 {
        step matches InitialStep::Ask(q) && asks(
            q,
            stage_kind(stop),
            evidence.utterances@,
            context@,
            0,
        )
    } else if run.dirty {
        step is Publish
    } else {
        step is Unchanged
    }
}

fn fill_faithful(
    setup: &ContentSetupV1,
    evidence: &ValidatedEvidenceViewV1,
    context: &SourceContextSnapshotV1,
    now: UtcTime,
) -> (r: Result<DerivationRecordV1, ContentError>)
    requires
        !(setup.initial_target is Ready),
    ensures
        match r {
            Ok(record) => faithful_without_model(record, *setup, *evidence, *context, now),
            Err(e) => e@ == ContentProblem::Schema(
                SchemaProblem::Invariant("faithful rules merge failed"@),
            ) && !(sound_transcript(evidence.utterances@) && evidence.descriptor.utterance_count
                == evidence.utterances@.len()),
        },
{
    let made = match &setup.initial_target {
        InitialTargetV1::Unavailable(t) => deterministic_faithful_record(
            evidence,
            context,
            EffectivePathV1::RulesFallback,
            None,
            Some(
                FallbackReasonV1 {
                    code: FallbackReasonCodeV1::TargetUnavailable,
                    message: t.message.clone(),
                },
            ),
            now,
        ),
        _ => deterministic_faithful_record(evidence, context, EffectivePathV1::Rules, None, None, now),
    };
    match made {
        Ok(record) => {
            assert(record.provenance.fallback_reason == record.provenance.fallback_reason);
            Ok(record)
        },
        Err(e) => Err(ContentError::Schema(e)),
    }
}

fn is_idle(setup: &ContentSetupV1, slots: &ContentSlotsV1, i: usize) -> (b: bool)
    ensures
        b == idle(*setup, *slots, i as int),
{
    slots.get(kind_of_stage(i)).current.is_some() || (i > 0 && !setup.enhancements_requested)
}

/// Goes from a stage to the next one at which the model is needed, or to the end.
#[verifier::loop_isolation(false)]
pub fn walk_on(
    setup: &ContentSetupV1,
    evidence: &ValidatedEvidenceViewV1,
    context: &SourceContextSnapshotV1,
    current: ContentCurrentV1,
    dirty: bool,
    from: usize,
    now: UtcTime,
) -> (r: Result<(InitialRun, InitialStep), ContentError>)
    requires
        from <= 4,
        evidence.utterances@.len() > 0,
    ensures
        match r {
            Ok((run, step)) => walked_on(
                *setup,
                *evidence,
                *context,
                current,
                dirty,
                from as int,
                run,
                step,
                now,
            ) && (step is Ask ==> run.waiting(*evidence) && setup.initial_target is Ready),
            Err(e) => e@ == ContentProblem::Schema(
                SchemaProblem::Invariant("faithful rules merge failed"@),
            ) && !(sound_transcript(evidence.utterances@) && evidence.descriptor.utterance_count
                == evidence.utterances@.len()) && from == 0 && !idle(*setup, current.slots, 0)
                && !(setup.initial_target is Ready),
        },
{
    let ghost start = current;
    let ghost before = current.slots;
    let mut current = current;
    let mut changed = dirty;
    let mut i: usize = from;
    let ready = match &setup.initial_target {
        InitialTargetV1::Ready(_) => true,
        _ => false,
    };
    while i < 4 && !(ready && !is_idle(setup, &current.slots, i))
        invariant
            from <= i <= 4,
            current == (ContentCurrentV1 { slots: current.slots, ..start }),
            walked(
                *setup,
                *evidence,
                *context,
                before,
                from as int,
                current.slots,
                i as int,
                now,
            ),
            changed == (dirty || busy_between(*setup, before, from as int, i as int)),
            next_stop(*setup, before, from as int) == next_stop(*setup, before, i as int),
        decreases 4 - i,
    {
        proof {
            assert(stage_kind(i as int) == stage_kind(i as int));
            assert(current.slots.slot(stage_kind(i as int)) == before.slot(stage_kind(i as int)));
        }
        if !is_idle(setup, &current.slots, i) {
            let ghost old_slots = current.slots;
            if i == 0 {
                match fill_faithful(setup, evidence, context, now) {
                    Err(e) => {
                        return Err(e);
                    },
                    Ok(record) => {
                        current.slots.faithful_text = ArtifactSlotV1 {
                            current: Some(record),
                            last_failure: None,
                        };
                    },
                }
            } else {
                let failure = make_failure(
                    FailureCodeV1::TargetUnavailable,
                    "本地 AI 配置不可用",
                    now,
                );
                let slot = current.slots.get_mut(kind_of_stage(i));
                slot.last_failure = Some(failure);
            }
            changed = true;
            assert(!idle(*setup, before, i as int));
        }
        i += 1;
    }
    proof {
        if i < 4 {
            assert(stage_kind(i as int) == stage_kind(i as int));
            assert(current.slots.slot(stage_kind(i as int)) == before.slot(stage_kind(i as int)));
            assert(needs_model(*setup, before, i as int));
        }
    }
    let step = if i < 4 {
        proof {
            super::chunks::chunks_reach_the_end(evidence.utterances@);
        }
        InitialStep::Ask(generation_request(kind_of_stage(i), evidence, context, 0))
    } else if changed {
        InitialStep::Publish
    } else {
        InitialStep::Unchanged
    };
    Ok((InitialRun { current, dirty: changed, stage: i, answered: Vec::new() }, step))
}

/// Begins the first run, on top of a stored result where there is one.
pub fn start_initial(
    existing: Option<ContentCurrentV1>,
    job_id: u128,
    setup: &ContentSetupV1,
    evidence: &ValidatedEvidenceViewV1,
    context: &SourceContextSnapshotV1,
    cancelled: bool,
    now: UtcTime,
) -> (r: Result<(InitialRun, InitialStep), ContentError>)
    requires
        evidence.utterances@.len() > 0,
    ensures
        r matches Ok((run, step)) ==> (step is Ask ==> run.waiting(*evidence) && setup.initial_target is Ready),
        cancelled ==> (r matches Err(e) && e@ is Cancelled),
        !cancelled ==> match r {
            Ok((run, step)) => match existing {
                Some(c) => walked_on(
                    *setup,
                    *evidence,
                    *context,
                    upgraded(c),
                    c.schema_version != CONTENT_SCHEMA_VERSION,
                    0,
                    run,
                    step,
                    now,
                ),
                None => exists|c: ContentCurrentV1| #[trigger]
                    blank_current(c, job_id, *evidence, *context, *setup) && walked_on(
                        *setup,
                        *evidence,
                        *context,
                        c,
                        true,
                        0,
                        run,
                        step,
                        now,
                    ),
            },
            Err(e) => {
                &&& e@ == ContentProblem::Schema(SchemaProblem::Invariant("faithful rules merge failed"@))
                &&& !(sound_transcript(evidence.utterances@) && evidence.descriptor.utterance_count
                    == evidence.utterances@.len())
                &&& !(setup.initial_target is Ready)
                &&& existing matches Some(c) ==> !idle(*setup, upgraded(c).slots, 0)
            },
        },
{
    if cancelled {
        return Err(ContentError::Cancelled);
    }
    let (current, dirty) = match existing {
        Some(c) => {
            let old_version: u32 = c.schema_version;
            (upgrade_current(c), old_version != CONTENT_SCHEMA_VERSION)
        },
        None => (build_empty_current(job_id, evidence, context, setup), true),
    };
    walk_on(setup, evidence, context, current, dirty, 0, now)
}

/// What the outcome of a generation does to the slot of its stage.
pub open spec fn settled_by(
    i: int,
    before: ArtifactSlotV1,
    after: ArtifactSlotV1,
    outcome: Result<DerivationRecordV1, GenerationPortError>,
    target: ReadyGenerationTargetV1,
    evidence: ValidatedEvidenceViewV1,
    context: SourceContextSnapshotV1,
    now: UtcTime,
) -> bool {
    match outcome {
        Ok(record) => after == (ArtifactSlotV1 {
            current: Some(DerivationRecordV1 { revision: 1, ..record }),
            last_failure: None,
        }),
        Err(e) => if i == 0 {
            after.last_failure is None && after.current is Some && made_by_rules(
                after.current->0,
                evidence,
                context,
                Some(target),
                EffectivePathV1::RulesFallback,
                now,
            ) && reason_is(
                (after.current->0).provenance.fallback_reason,
                fallback_code(e),
                failure_text(e),
            )
        } else {
            after.current == before.current && after.last_failure is Some && failed(
                after.last_failure->0,
                failure_code(e),
                failure_text(e),
                now,
            )
        },
    }
}

/// Records the outcome of a generation in the slot of its stage.
pub fn settle_stage(
    i: usize,
    outcome: Result<DerivationRecordV1, GenerationPortError>,
    target: &ReadyGenerationTargetV1,
    evidence: &ValidatedEvidenceViewV1,
    context: &SourceContextSnapshotV1,
    current: ContentCurrentV1,
    now: UtcTime,
) -> (r: Result<ContentCurrentV1, ContentError>)
    requires
        i < 4,
        current.slots.slot(stage_kind(i as int)).current is None,
    ensures
        match r {
            Ok(c) => {
                let kind = stage_kind(i as int);
                &&& c == (ContentCurrentV1 {
                    slots: current.slots.with_slot(kind, c.slots.slot(kind)),
                    ..current
                })
                &&& settled_by(
                    i as int,
                    current.slots.slot(kind),
                    c.slots.slot(kind),
                    outcome,
                    *target,
                    *evidence,
                    *context,
                    now,
                )
            },
            Err(e) => e@ == ContentProblem::Schema(
                SchemaProblem::Invariant("faithful rules merge failed"@),
            ) && outcome is Err && i == 0 && !(sound_transcript(evidence.utterances@)
                && evidence.descriptor.utterance_count == evidence.utterances@.len()),
        },
{
    let kind = kind_of_stage(i);
    let mut current = current;
    match outcome {
        Ok(record) => {
            let mut record = record;
            record.revision = 1;
            let slot = current.slots.get_mut(kind);
            slot.current = Some(record);
            slot.last_failure = None;
        },
        Err(error) => {
            let (code, reason_code, message) = failure_for_port(error);
            if i == 0 {
                let reason = FallbackReasonV1 { code: reason_code, message: text(message) };
                match deterministic_faithful_record(
                    evidence,
                    context,
                    EffectivePathV1::RulesFallback,
                    Some(target),
                    Some(reason),
                    now,
                ) {
                    Ok(record) => {
                        let slot = current.slots.get_mut(kind);
                        slot.current = Some(record);
                        slot.last_failure = None;
                    },
                    Err(e) => {
                        return Err(ContentError::Schema(e));
                    },
                }
            } else {
                let failure = make_failure(code, message, now);
                let slot = current.slots.get_mut(kind);
                slot.last_failure = Some(failure);
            }
        },
    }
    Ok(current)
}

impl InitialRun {
    /// The run waits for an answer.
    pub open spec fn waiting(&self, evidence: ValidatedEvidenceViewV1) -> bool {
        &&& self.stage < 4
        &&& self.answered@.len() < chunks_of(evidence.utterances@).len()
        &&& self.current.slots.slot(stage_kind(self.stage as int)).current is None
    }
}

/// What an answer makes of a run that waits for it.
pub open spec fn resumed(
    run: InitialRun,
    target: ReadyGenerationTargetV1,
    setup: ContentSetupV1,
    evidence: ValidatedEvidenceViewV1,
    context: SourceContextSnapshotV1,
    p: Progress,
    now: UtcTime,
    next: InitialRun,
    step: InitialStep,
) -> bool {
    match p {
        Progress::More(answered) => {
            &&& next == (InitialRun { answered, ..run })
            &&& step matches InitialStep::Ask(q) && asks(
                q,
                stage_kind(run.stage as int),
                evidence.utterances@,
                context@,
                answered@.len() as int,
            )
        },
        Progress::Finished(outcome) => {
            let kind = stage_kind(run.stage as int);
            exists|settled: ContentCurrentV1| #[trigger]
                settled_by(
                    run.stage as int,
                    run.current.slots.slot(kind),
                    settled.slots.slot(kind),
                    outcome,
                    target,
                    evidence,
                    context,
                    now,
                ) && settled == (ContentCurrentV1 {
                    slots: run.current.slots.with_slot(kind, settled.slots.slot(kind)),
                    ..run.current
                }) && walked_on(
                    setup,
                    evidence,
                    context,
                    settled,
                    true,
                    run.stage + 1,
                    next,
                    step,
                    now,
                )
        },
    }
}

/// Takes in the answer that a run waits for. A cancelled run ends without a result.
pub fn resume_initial(
    run: InitialRun,
    target: &ReadyGenerationTargetV1,
    setup: &ContentSetupV1,
    evidence: &ValidatedEvidenceViewV1,
    context: &SourceContextSnapshotV1,
    reply: Result<GeneratedChunk, GenerationPortError>,
    cancelled: bool,
    now: UtcTime,
) -> (r: Result<(InitialRun, InitialStep), ContentError>)
    requires
        run.waiting(*evidence),
        evidence.utterances@.len() > 0,
    ensures
        r matches Ok((next, step)) ==> (step is Ask ==> next.waiting(*evidence)),
        cancelled ==> (r matches Err(e) && e@ is Cancelled),
        !cancelled ==> match r {
            Ok((next, step)) => exists|p: Progress| #[trigger]
                progress_after(
                    stage_kind(run.stage as int),
                    *target,
                    *evidence,
                    *context,
                    run.answered@,
                    reply,
                    now,
                    p,
                ) && resumed(run, *target, *setup, *evidence, *context, p, now, next, step),
            Err(e) => {
                &&& e@ == ContentProblem::Schema(SchemaProblem::Invariant("faithful rules merge failed"@))
                &&& !(sound_transcript(evidence.utterances@) && evidence.descriptor.utterance_count
                    == evidence.utterances@.len())
                &&& run.stage == 0
                &&& exists|p: Progress| #[trigger]
                    progress_after(
                        stage_kind(run.stage as int),
                        *target,
                        *evidence,
                        *context,
                        run.answered@,
                        reply,
                        now,
                        p,
                    ) && (p matches Progress::Finished(outcome) && outcome is Err)
            },
        },
{
    if cancelled {
        return Err(ContentError::Cancelled);
    }
    let ghost start = run;
    let stage: usize = run.stage;
    let kind = kind_of_stage(stage);
    let current = run.current;
    let dirty = run.dirty;
    let progress = take_reply(kind, target, evidence, context, run.answered, reply, now);
    let ghost p = progress;
    match progress {
        Progress::More(answered) => {
            let request = generation_request(kind, evidence, context, answered.len());
            Ok((InitialRun { current, dirty, stage, answered }, InitialStep::Ask(request)))
        },
        Progress::Finished(outcome) => {
            match settle_stage(stage, outcome, target, evidence, context, current, now) {
                Err(e) => Err(e),
                Ok(settled) => {
                    let ghost s = settled;
                    let r = walk_on(setup, evidence, context, settled, true, stage + 1, now);
                    proof {
                        if r is Ok {
                            let (next, step) = r->Ok_0;
                            assert(settled_by(
                                start.stage as int,
                                start.current.slots.slot(kind),
                                s.slots.slot(kind),
                                outcome,
                                *target,
                                *evidence,
                                *context,
                                now,
                            ));
                            assert(resumed(start, *target, *setup, *evidence, *context, p, now, next, step));
                        }
                    }
                    r
                },
            }
        },
    }
}

// ---- Making one text again ----

/// One text on its way to being made again.
#[derive(Debug)]
pub struct RegenerateRun {
    pub current: ContentCurrentV1,
    pub kind: RegenerableKind,
    pub answered: Vec<ChunkResult>,
}

/// Why a text cannot be made again.
pub open spec fn regenerate_refusal(
    setup: ContentSetupV1,
    status: JobStatus,
    target: ReadyGenerationTargetV1,
    existing: Option<ContentCurrentV1>,
    cancelled: bool,
) -> Option<ContentProblem> {
    if !setup.enhancements_requested {
        Some(ContentProblem::InvalidIntent("当前任务未请求 AI 增强"@))
    } else if !status.terminal() {
        Some(ContentProblem::InvalidIntent("任务尚未进入终态"@))
    } else if target.problem() is Some {
        Some(ContentProblem::Schema(target.problem()->0))
    } else if existing is None {
        Some(ContentProblem::InvalidIntent("当前可信结果不可用"@))
    } else if (existing->0).slots.faithful_text.current is None {
        Some(ContentProblem::InvalidIntent("忠实正文尚未生成"@))
    } else if cancelled {
        Some(ContentProblem::Cancelled)
    } else {
        None
    }
}

/// Begins to make one text again.
pub fn start_regenerate(
    setup: &ContentSetupV1,
    status: JobStatus,
    kind: RegenerableKind,
    target: &ReadyGenerationTargetV1,
    existing: Option<ContentCurrentV1>,
    evidence: &ValidatedEvidenceViewV1,
    context: &SourceContextSnapshotV1,
    cancelled: bool,
) -> (r: Result<(RegenerateRun, GenerationRequest), ContentError>)
    requires
        evidence.utterances@.len() > 0,
    ensures
        r matches Ok((run, q)) ==> run.answered@.len() < chunks_of(evidence.utterances@).len(),
        match r {
            Ok((run, q)) => {
                &&& regenerate_refusal(*setup, status, *target, existing, cancelled) is None
                &&& run.current == existing->0
                &&& run.kind == kind
                &&& run.answered@.len() == 0
                &&& asks(q, kind.kind(), evidence.utterances@, context@, 0)
            },
            Err(e) => regenerate_refusal(*setup, status, *target, existing, cancelled) == Some(e@),
        },
{
    if !setup.enhancements_requested {
        return Err(ContentError::InvalidIntent(text("当前任务未请求 AI 增强")));
    }
    if !status.is_terminal() {
        return Err(ContentError::InvalidIntent(text("任务尚未进入终态")));
    }
    if let Err(e) = target.validate() {
        return Err(ContentError::Schema(e));
    }
    let current = match existing {
        Some(c) => c,
        None => {
            return Err(ContentError::InvalidIntent(text("当前可信结果不可用")));
        },
    };
    if current.slots.faithful_text.current.is_none() {
        return Err(ContentError::InvalidIntent(text("忠实正文尚未生成")));
    }
    if cancelled {
        return Err(ContentError::Cancelled);
    }
    proof {
        super::chunks::chunks_reach_the_end(evidence.utterances@);
    }
    let request = generation_request(kind.artifact_kind(), evidence, context, 0);
    Ok((RegenerateRun { current, kind, answered: Vec::new() }, request))
}

/// What the outcome of making a text again does to its slot.
pub open spec fn regenerated(
    before: ArtifactSlotV1,
    after: ArtifactSlotV1,
    outcome: Result<DerivationRecordV1, GenerationPortError>,
    now: UtcTime,
) -> bool {
    match outcome {
        Ok(record) => after == (ArtifactSlotV1 {
            current: Some(
                DerivationRecordV1 { revision: revision_after(before) as u32, ..record },
            ),
            last_failure: None,
        }),
        Err(e) => after.current == before.current && after.last_failure is Some && failed(
            after.last_failure->0,
            failure_code(e),
            failure_text(e),
            now,
        ),
    }
}

/// The result after one of its texts was made again, or could not be: the other texts, and all
/// else, are as they were. A new record has a revision that is still left.
pub open spec fn republished(
    before: ContentCurrentV1,
    after: ContentCurrentV1,
    kind: RegenerableKind,
    outcome: Result<DerivationRecordV1, GenerationPortError>,
    now: UtcTime,
) -> bool {
    let k = kind.kind();
    &&& after == (ContentCurrentV1 { slots: before.slots.with_slot(k, after.slots.slot(k)), ..before })
    &&& regenerated(before.slots.slot(k), after.slots.slot(k), outcome, now)
    &&& outcome is Ok ==> revision_after(before.slots.slot(k)) <= u32::MAX
}

/// Making a text again changes that text alone. Where it goes well, the new record has the
/// revision after the old one's, or the first, and no failure is left; where it fails, the old
/// record stays, beside the failure.
pub proof fn making_again_changes_one_text(
    before: ContentCurrentV1,
    after: ContentCurrentV1,
    kind: RegenerableKind,
    outcome: Result<DerivationRecordV1, GenerationPortError>,
    now: UtcTime,
    other: ArtifactKindV1,
)
    requires
        republished(before, after, kind, outcome, now),
    ensures
        other != kind.kind() ==> after.slots.slot(other) == before.slots.slot(other),
        ({
            let old_slot = before.slots.slot(kind.kind());
            let new_slot = after.slots.slot(kind.kind());
            match outcome {
                Ok(_) => {
                    &&& new_slot.last_failure is None
                    &&& new_slot.current matches Some(record) && record.revision == (match old_slot.current {
                        Some(old_record) => old_record.revision + 1,
                        None => 1,
                    })
                },
                Err(_) => new_slot.current == old_slot.current && new_slot.last_failure is Some,
            }
        }),
{
}

/// Records the outcome of making a text again. The other texts stay as they are, and a failure
/// leaves the old record in force.
pub fn settle_regenerate(
    current: ContentCurrentV1,
    kind: RegenerableKind,
    outcome: Result<DerivationRecordV1, GenerationPortError>,
    now: UtcTime,
) -> (r: Result<ContentCurrentV1, ContentError>)
    ensures
        match r {
            Ok(c) => republished(current, c, kind, outcome, now),
            Err(e) => outcome is Ok && revision_after(current.slots.slot(kind.kind())) > u32::MAX && e@
                == ContentProblem::Generation("结果 revision 已达到上限"@),
        },
{
    let k = kind.artifact_kind();
    let mut current = current;
    match outcome {
        Ok(record) => {
            let revision: u32 = match next_revision(current.slots.get(k)) {
                Ok(n) => n,
                Err(e) => {
                    return Err(e);
                },
            };
            let mut record = record;
            record.revision = revision;
            let slot = current.slots.get_mut(k);
            slot.current = Some(record);
            slot.last_failure = None;
        },
        Err(error) => {
            let (code, _, message) = failure_for_port(error);
            let failure = make_failure(code, message, now);
            let slot = current.slots.get_mut(k);
            slot.last_failure = Some(failure);
        },
    }
    Ok(current)
}

/// What is to be done next when a text is made again.
#[derive(Debug)]
pub enum RegenerateStep {
    /// Ask the model about the next piece.
    Ask(RegenerateRun, GenerationRequest),
    /// Write the result.
    Publish(ContentCurrentV1),
}

/// Takes in the answer that a text being made again waits for.
pub fn resume_regenerate(
    run: RegenerateRun,
    target: &ReadyGenerationTargetV1,
    evidence: &ValidatedEvidenceViewV1,
    context: &SourceContextSnapshotV1,
    reply: Result<GeneratedChunk, GenerationPortError>,
    cancelled: bool,
    now: UtcTime,
) -> (r: Result<RegenerateStep, ContentError>)
    requires
        run.answered@.len() < chunks_of(evidence.utterances@).len(),
    ensures
        r matches Ok(RegenerateStep::Ask(next, q)) ==> next.answered@.len() < chunks_of(
            evidence.utterances@,
        ).len(),
        cancelled ==> (r matches Err(e) && e@ is Cancelled),
        !cancelled ==> exists|p: Progress| #[trigger]
            progress_after(
                run.kind.kind(),
                *target,
                *evidence,
                *context,
                run.answered@,
                reply,
                now,
                p,
            ) && match p {
                Progress::More(answered) => r matches Ok(RegenerateStep::Ask(next, q)) && next == (
                RegenerateRun { answered, ..run }) && asks(
                    q,
                    run.kind.kind(),
                    evidence.utterances@,
                    context@,
                    answered@.len() as int,
                ),
                Progress::Finished(outcome) => match r {
                    Ok(RegenerateStep::Publish(c)) => republished(run.current, c, run.kind, outcome, now),
                    Ok(_) => false,
                    Err(e) => outcome is Ok && revision_after(run.current.slots.slot(run.kind.kind()))
                        > u32::MAX && e@ == ContentProblem::Generation("结果 revision 已达到上限"@),
                },
            },
{
    if cancelled {
        return Err(ContentError::Cancelled);
    }
    let kind = run.kind;
    let current = run.current;
    let progress = take_reply(
        kind.artifact_kind(),
        target,
        evidence,
        context,
        run.answered,
        reply,
        now,
    );
    let ghost p = progress;
    assert(progress_after(kind.kind(), *target, *evidence, *context, run.answered@, reply, now, p));
    match progress {
        Progress::More(answered) => {
            let request = generation_request(
                kind.artifact_kind(),
                evidence,
                context,
                answered.len(),
            );
            Ok(RegenerateStep::Ask(RegenerateRun { current, kind, answered }, request))
        },
        Progress::Finished(outcome) => {
            match settle_regenerate(current, kind, outcome, now) {
                Ok(c) => Ok(RegenerateStep::Publish(c)),
                Err(e) => Err(e),
            }
        },
    }
}

// ---- Publishing ----

/// Accepts a result that may be written over the stored one.
pub fn validate_current_snapshot(
    current: &ContentCurrentV1,
    job_id: u128,
    evidence: &ValidatedEvidenceViewV1,
    context: &SourceContextSnapshotV1,
    setup: &ContentSetupV1,
) -> (r: Result<(), ContentError>)
    ensures
        match r {
            Ok(_) => match_problem(*current, job_id, *evidence, *context, *setup) is None,
            Err(e) => match_problem(*current, job_id, *evidence, *context, *setup) is Some && e@
                == ContentProblem::Schema(match_problem(*current, job_id, *evidence, *context, *setup)->0),
        },
{
    match current_matches_job(current, job_id, evidence, context, setup) {
        Ok(()) => Ok(()),
        Err(e) => Err(ContentError::Schema(e)),
    }
}

/// A faithful text made by rules says, block by block, what the utterances say.
pub proof fn a_text_made_by_rules_repeats_the_transcript(
    r: DerivationRecordV1,
    evidence: ValidatedEvidenceViewV1,
    context: SourceContextSnapshotV1,
    target: Option<ReadyGenerationTargetV1>,
    path: EffectivePathV1,
    now: UtcTime,
)
    requires
        made_by_rules(r, evidence, context, target, path, now),
    ensures
        r.kind is FaithfulText,
        r.blocks@.len() == evidence.utterances@.len(),
        forall|k: int|
            0 <= k < r.blocks@.len() ==> (#[trigger] r.blocks@[k]).text@ == evidence.utterances@[k].text@
                && r.blocks@[k].source_refs@.len() == 1 && r.blocks@[k].source_refs@[0].start_ms
                == evidence.utterances@[k].start_ms && r.blocks@[k].source_refs@[0].end_ms
                == evidence.utterances@[k].end_ms,
{
    let results = choose|results: Seq<ChunkResult>| #[trigger]
        rules_results(results, evidence.utterances@) && mergeable(ArtifactKindV1::FaithfulText, results, evidence)
            && fresh_record(
            r,
            merged_facts(ArtifactKindV1::FaithfulText, results, evidence.descriptor.utterance_count as int),
            evidence.descriptor,
            context,
            target,
            path,
            r.provenance.fallback_reason,
            now,
        );
    rules_repeat_the_transcript(results, evidence.utterances@);
    assert(r.facts().blocks == r.blocks@);
}

/// A result of an older version is carried over whole: every text and every failure stays in its
/// place, and only the version of the format changes.
pub proof fn an_older_result_is_carried_over(c: ContentCurrentV1, kind: ArtifactKindV1)
    ensures
        upgraded(c).schema_version == CONTENT_SCHEMA_VERSION,
        upgraded(c).job_id == c.job_id,
        upgraded(c).evidence == c.evidence,
        upgraded(c).source_context == c.source_context,
        upgraded(c).setup == c.setup,
        upgraded(c).slots.slot(kind).last_failure == c.slots.slot(kind).last_failure,
        upgraded(c).slots.slot(kind).current is Some <==> c.slots.slot(kind).current is Some,
        c.slots.slot(kind).current matches Some(r) ==> ({
            let n = upgraded(c).slots.slot(kind).current->0;
            &&& n.schema_version == CONTENT_SCHEMA_VERSION
            &&& n.blocks == r.blocks && n.kind == r.kind && n.revision == r.revision
            &&& n.evidence_identity == r.evidence_identity && n.source_context == r.source_context
            &&& n.provenance == r.provenance && n.validation == r.validation && n.created_at == r.created_at
        }),
{
}

/// A run stops for the model at the first text, from the one that it has come to on, that is not
/// there and was asked for: the faithful text always is, the others where enhancements are. With
/// no model it never stops.
pub proof fn a_run_stops_where_the_model_is_needed(setup: ContentSetupV1, slots: ContentSlotsV1, i: int)
    requires
        0 <= i <= 4,
    ensures
        i <= next_stop(setup, slots, i) <= 4,
        setup.initial_target !is Ready ==> next_stop(setup, slots, i) == 4,
        next_stop(setup, slots, i) < 4 ==> slots.slot(stage_kind(next_stop(setup, slots, i))).current is None && (
        next_stop(setup, slots, i) == 0 || setup.enhancements_requested),
        forall|j: int|
            #![trigger stage_kind(j)]
            i <= j < next_stop(setup, slots, i) && setup.initial_target is Ready ==> slots.slot(
                stage_kind(j),
            ).current is Some || (j > 0 && !setup.enhancements_requested),
    decreases 4 - i,
{
    if i < 4 && !needs_model(setup, slots, i) {
        a_run_stops_where_the_model_is_needed(setup, slots, i + 1);
    }
}

/// The texts are made in one order: the faithful text, the summary, the highlights, the chapters.
pub proof fn texts_are_made_in_order()
    ensures
        stage_kind(0) is FaithfulText,
        stage_kind(1) is DefaultSummary,
        stage_kind(2) is Highlights,
        stage_kind(3) is Chapters,
{
}

/// A text is made anew only for a finished job that asked for enhancements, and with a target
/// that can be used; the first texts are made for every job that has a sound setup.
pub proof fn an_operation_is_allowed(job: Job, kind: RegenerableKind, target: ReadyGenerationTargetV1)
    ensures
        refusal(job, Intent::Initial) is None <==> job.content_setup is Some && (job.content_setup->0).problem() is None,
        refusal(job, Intent::Regenerate { kind, target }) is None <==> {
            &&& job.content_setup is Some
            &&& (job.content_setup->0).problem() is None
            &&& (job.content_setup->0).enhancements_requested
            &&& target.problem() is None
            &&& job.status is Completed || job.status is Failed || job.status is Cancelled
        },
        job.content_setup is None ==> refusal(job, Intent::Initial) == Some(ContentProblem::Legacy) && refusal(
            job,
            Intent::Regenerate { kind, target },
        ) == Some(ContentProblem::Legacy),
{
}

/// A text is made anew where enhancements were asked for, the job is over, the target is sound,
/// there is a faithful text to go by, and nobody has cancelled: there, and nowhere else.
pub proof fn when_a_text_is_made_anew(
    setup: ContentSetupV1,
    status: JobStatus,
    target: ReadyGenerationTargetV1,
    existing: Option<ContentCurrentV1>,
    cancelled: bool,
)
    ensures
        regenerate_refusal(setup, status, target, existing, cancelled) is None <==> {
            &&& setup.enhancements_requested
            &&& status is Completed || status is Failed || status is Cancelled
            &&& target.problem() is None
            &&& existing is Some
            &&& (existing->0).slots.faithful_text.current is Some
            &&& !cancelled
        },
        regenerate_refusal(setup, status, target, existing, cancelled) is Some && !cancelled ==> !(
        regenerate_refusal(setup, status, target, existing, cancelled)->0 is Cancelled),
{
}

} // verus!
