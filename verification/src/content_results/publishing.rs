//! What holds of every result that is published.

use vstd::prelude::*;
use super::assembly::{GenerationPortError, evidence_problem};
use super::current::{
    ContentCurrentV1, match_problem, record_evidence_problem, record_problem, slot_problem,
};
use super::evidence::{SourceContextSnapshotV1, ValidatedEvidenceViewV1};
use super::execute::{
    InitialRun, InitialStep, Progress, blank_current, idle, made_by_rules, next_stop,
    progress_after, reason_is, regenerated, resumed, revision_after, settled_by, stage_kind,
    upgraded, walked_on,
};
use super::generation::{fallback_code, failure_text};
use super::kinds::{ArtifactKindV1, EffectivePathV1};
use super::provenance::setup_mismatch;
use super::record::{DerivationRecordV1, UtcTime};
use super::rules::sound_transcript;
use super::target::{
    CONTENT_SCHEMA_VERSION, ContentSetupV1, InitialTargetV1, ReadyGenerationTargetV1,
    readable_version, sanitized,
};
use crate::text::{at, control, has, lower, lowered, no_control, trimmed, visible_ends, white};

verus! {

// ---- The fixed sentences may be stored ----

/// A character of the fixed sentences: it occurs in no word that must not be stored.
pub open spec fn harmless(c: char) -> bool {
    c == 'A' || c == 'I' || c == ' ' || 0x4e00 <= c as int <= 0x9fff
}

/// A text that lacks a character of a word lacks the word.
pub proof fn not_in(s: Seq<char>, p: Seq<char>, j: int)
    requires
        0 <= j < p.len(),
        forall|i: int| 0 <= i < s.len() ==> #[trigger] s[i] != p[j],
    ensures
        !(has(s, p)),
{
    if has(s, p) {
        let i = choose|i: int| at(s, p, i);
        assert(s.subrange(i, i + p.len() as int)[j] == s[i + j]);
    }
}

/// A short sentence of harmless characters may be stored.
pub proof fn harmless_is_sanitized(m: Seq<char>)
    requires
        1 <= m.len() <= 160,
        forall|i: int| 0 <= i < m.len() ==> harmless(#[trigger] m[i]),
        !white(m[0]),
        !white(m.last()),
    ensures
        sanitized(m),
{
    visible_ends(m);
    assert(no_control(m)) by {
        assert forall|i: int| 0 <= i < m.len() implies !control(#[trigger] m[i]) by {
            assert(harmless(m[i]));
        }
    }
    let t = lowered(m);
    assert forall|i: int| 0 <= i < t.len() implies (#[trigger] t[i] == 'a' || t[i] == 'i' || t[i] == ' '
        || 0x4e00 <= t[i] as int) by {
        assert(harmless(m[i]));
        assert(t[i] == lower(m[i]));
    }
    reveal_strlit("://");
    reveal_strlit("@");
    reveal_strlit("?");
    reveal_strlit("#");
    reveal_strlit("authorization");
    reveal_strlit("x-api-key");
    reveal_strlit("api_key");
    reveal_strlit("token");
    reveal_strlit("secret");
    reveal_strlit("password");
    not_in(t, "://"@, 0);
    not_in(t, "@"@, 0);
    not_in(t, "?"@, 0);
    not_in(t, "#"@, 0);
    not_in(t, "authorization"@, 1);
    not_in(t, "x-api-key"@, 0);
    not_in(t, "api_key"@, 3);
    not_in(t, "token"@, 0);
    not_in(t, "secret"@, 0);
    not_in(t, "password"@, 0);
}

/// The sentences that failures and fallbacks are recorded with may be stored.
pub proof fn fixed_sentences_may_be_stored(e: GenerationPortError)
    ensures
        sanitized(failure_text(e)),
        sanitized("本地 AI 配置不可用"@),
{
    reveal_strlit("本地 AI 配置不可用");
    reveal_strlit("本地 AI 请求失败");
    reveal_strlit("本地 AI 返回内容未通过校验");
    harmless_is_sanitized("本地 AI 配置不可用"@);
    harmless_is_sanitized("本地 AI 请求失败"@);
    harmless_is_sanitized("本地 AI 返回内容未通过校验"@);
}

// ---- A run keeps its result sound ----

/// The slot of a kind holds nothing that may not be published.
pub open spec fn sound_slot(
    c: ContentCurrentV1,
    kind: ArtifactKindV1,
    evidence: ValidatedEvidenceViewV1,
) -> bool {
    c.slot_problem(kind) is None && record_evidence_problem(c, kind, evidence) is None
}

/// A result that belongs to a job and whose slots are all sound.
pub open spec fn sound_result(
    c: ContentCurrentV1,
    job_id: u128,
    evidence: ValidatedEvidenceViewV1,
    context: SourceContextSnapshotV1,
    setup: ContentSetupV1,
) -> bool {
    &&& readable_version(c.schema_version)
    &&& c.job_id == job_id
    &&& c.evidence.problem() is None
    &&& c.evidence.job_id == job_id
    &&& c.evidence.alike(&evidence.descriptor)
    &&& c.source_context@ == context@
    &&& c.setup.problem() is None
    &&& c.setup.alike(&setup)
    &&& forall|kind: ArtifactKindV1| #[trigger] sound_slot(c, kind, evidence)
}

/// The stages before `i` are settled, and none that was not asked for.
pub open spec fn settled_before(c: ContentCurrentV1, i: int) -> bool {
    &&& i > 0 ==> c.slots.faithful_text.current is Some
    &&& forall|j: int|
        #![trigger stage_kind(j)]
        1 <= j < 4 ==> (if c.setup.enhancements_requested {
            j < i ==> c.slots.slot(stage_kind(j)).settled()
        } else {
            !c.slots.slot(stage_kind(j)).settled()
        })
}

/// What a job hands to a run: a valid setup, and evidence that was accepted.
pub open spec fn sound_input(job_id: u128, evidence: ValidatedEvidenceViewV1, setup: ContentSetupV1) -> bool {
    &&& setup.problem() is None
    &&& evidence.descriptor.problem() is None
    &&& evidence.descriptor.job_id == job_id
    &&& evidence.descriptor.utterance_count == evidence.utterances@.len()
    &&& sound_transcript(evidence.utterances@)
}

proof fn setups_alike(kind: ArtifactKindV1, r: DerivationRecordV1, a: ContentSetupV1, b: ContentSetupV1)
    requires
        a.alike(&b),
    ensures
        setup_mismatch(kind, r.provenance, a) == setup_mismatch(kind, r.provenance, b),
{
}

/// A record that was just made and passes the checks of its pieces is sound in its slot.
proof fn fresh_record_is_sound(
    c: ContentCurrentV1,
    r: DerivationRecordV1,
    kind: ArtifactKindV1,
    evidence: ValidatedEvidenceViewV1,
    context: SourceContextSnapshotV1,
    setup: ContentSetupV1,
)
    requires
        readable_version(r.schema_version),
        r.kind == kind,
        r.revision > 0,
        r.evidence_identity@ == evidence.descriptor.identity@,
        r.source_context@ == context@,
        r.provenance.problem(kind) is None,
        setup_mismatch(kind, r.provenance, setup) is None,
        evidence_problem(r.facts(), evidence.utterances@) is None,
        c.evidence.alike(&evidence.descriptor),
        c.source_context@ == context@,
        c.setup.alike(&setup),
    ensures
        record_problem(kind, r, c.evidence, c.source_context, c.setup) is None,
{
    setups_alike(kind, r, c.setup, setup);
}

proof fn rules_record_is_sound(
    c: ContentCurrentV1,
    r: DerivationRecordV1,
    target: Option<ReadyGenerationTargetV1>,
    path: EffectivePathV1,
    evidence: ValidatedEvidenceViewV1,
    context: SourceContextSnapshotV1,
    setup: ContentSetupV1,
    now: UtcTime,
)
    requires
        made_by_rules(r, evidence, context, target, path, now),
        c.evidence.alike(&evidence.descriptor),
        c.source_context@ == context@,
        c.setup.alike(&setup),
        match setup.initial_target {
            InitialTargetV1::Disabled => target is None && path is Rules && r.provenance.fallback_reason is None,
            InitialTargetV1::Unavailable(t) => target is None && path is RulesFallback && t.problem() is None
                && reason_is(
                r.provenance.fallback_reason,
                super::kinds::FallbackReasonCodeV1::TargetUnavailable,
                t.message@,
            ),
            InitialTargetV1::Ready(t) => target == Some(t) && t.problem() is None && path is RulesFallback
                && exists|e: GenerationPortError| #[trigger]
                reason_is(r.provenance.fallback_reason, fallback_code(e), failure_text(e)),
        },
    ensures
        record_problem(ArtifactKindV1::FaithfulText, r, c.evidence, c.source_context, c.setup) is None,
        evidence_problem(r.facts(), evidence.utterances@) is None,
        r.kind is FaithfulText,
{
    if let InitialTargetV1::Ready(t) = setup.initial_target {
        let e = choose|e: GenerationPortError| #[trigger]
            reason_is(r.provenance.fallback_reason, fallback_code(e), failure_text(e));
        fixed_sentences_may_be_stored(e);
        assert(trimmed(t.model@) == t.model@);
    }
    fresh_record_is_sound(c, r, ArtifactKindV1::FaithfulText, evidence, context, setup);
}

/// Stages without a model keep a result sound.
pub proof fn a_walk_keeps_the_result_sound(
    setup: ContentSetupV1,
    evidence: ValidatedEvidenceViewV1,
    context: SourceContextSnapshotV1,
    current: ContentCurrentV1,
    dirty: bool,
    from: int,
    run: InitialRun,
    step: InitialStep,
    now: UtcTime,
    job_id: u128,
)
    requires
        0 <= from <= 4,
        sound_input(job_id, evidence, setup),
        sound_result(current, job_id, evidence, context, setup),
        settled_before(current, from),
        walked_on(setup, evidence, context, current, dirty, from, run, step, now),
    ensures
        sound_result(run.current, job_id, evidence, context, setup),
        settled_before(run.current, run.stage as int),
{
    let c = run.current;
    let stop = next_stop(setup, current.slots, from);
    fixed_sentences_may_be_stored(GenerationPortError::Transport);
    stop_is_in_range(setup, current.slots, from);
    assert forall|i: int| 0 <= i < 4 implies sound_slot(c, #[trigger] stage_kind(i), evidence) by {
        let kind = stage_kind(i);
        assert(sound_slot(current, kind, evidence));
        if from <= i < stop && !idle(setup, current.slots, i) {
            assert(!(setup.initial_target is Ready)) by {
                no_model_was_skipped(setup, current.slots, from, i);
            }
            let after = c.slots.slot(kind);
            if i == 0 {
                let r = after.current->0;
                match setup.initial_target {
                    InitialTargetV1::Disabled => {
                        rules_record_is_sound(
                            c,
                            r,
                            None,
                            EffectivePathV1::Rules,
                            evidence,
                            context,
                            setup,
                            now,
                        );
                    },
                    InitialTargetV1::Unavailable(t) => {
                        rules_record_is_sound(
                            c,
                            r,
                            None,
                            EffectivePathV1::RulesFallback,
                            evidence,
                            context,
                            setup,
                            now,
                        );
                    },
                    InitialTargetV1::Ready(t) => {},
                }
            }
        }
    }
    assert forall|kind: ArtifactKindV1| #[trigger] sound_slot(c, kind, evidence) by {
        assert(sound_slot(current, kind, evidence));
        match kind {
            ArtifactKindV1::FaithfulText => assert(stage_kind(0) == kind),
            ArtifactKindV1::DefaultSummary => assert(stage_kind(1) == kind),
            ArtifactKindV1::Highlights => assert(stage_kind(2) == kind),
            ArtifactKindV1::Chapters => assert(stage_kind(3) == kind),
            ArtifactKindV1::ShortSummary => {},
            ArtifactKindV1::LongSummary => {},
        }
    }
    assert(settled_before(c, stop)) by {
        assert(stage_kind(0) is FaithfulText);
        assert forall|j: int| 1 <= j < 4 implies (if c.setup.enhancements_requested {
            j < stop ==> c.slots.slot(#[trigger] stage_kind(j)).settled()
        } else {
            !c.slots.slot(stage_kind(j)).settled()
        }) by {
            assert(stage_kind(j) == stage_kind(j));
        }
    }
}

proof fn stop_is_in_range(setup: ContentSetupV1, slots: super::current::ContentSlotsV1, from: int)
    requires
        from <= 4,
    ensures
        from <= next_stop(setup, slots, from) <= 4,
    decreases 4 - from,
{
    if from < 4 && !super::execute::needs_model(setup, slots, from) {
        stop_is_in_range(setup, slots, from + 1);
    }
}

proof fn no_model_was_skipped(
    setup: ContentSetupV1,
    slots: super::current::ContentSlotsV1,
    from: int,
    i: int,
)
    requires
        from <= i < next_stop(setup, slots, from),
    ensures
        !super::execute::needs_model(setup, slots, i),
    decreases i - from,
{
    if from < i {
        no_model_was_skipped(setup, slots, from + 1, i);
    }
}

/// The outcome of a generation keeps a result sound.
pub proof fn a_settled_stage_keeps_the_result_sound(
    i: int,
    current: ContentCurrentV1,
    settled: ContentCurrentV1,
    answered: Seq<super::assembly::ChunkResult>,
    reply: Result<super::assembly::GeneratedChunk, GenerationPortError>,
    outcome: Result<DerivationRecordV1, GenerationPortError>,
    target: ReadyGenerationTargetV1,
    setup: ContentSetupV1,
    evidence: ValidatedEvidenceViewV1,
    context: SourceContextSnapshotV1,
    now: UtcTime,
    job_id: u128,
)
    requires
        0 <= i < 4,
        sound_input(job_id, evidence, setup),
        setup.initial_target == InitialTargetV1::Ready(target),
        sound_result(current, job_id, evidence, context, setup),
        settled_before(current, i),
        current.slots.slot(stage_kind(i)).current is None,
        progress_after(
            stage_kind(i),
            target,
            evidence,
            context,
            answered,
            reply,
            now,
            Progress::Finished(outcome),
        ),
        settled_by(
            i,
            current.slots.slot(stage_kind(i)),
            settled.slots.slot(stage_kind(i)),
            outcome,
            target,
            evidence,
            context,
            now,
        ),
        settled == (ContentCurrentV1 {
            slots: current.slots.with_slot(stage_kind(i), settled.slots.slot(stage_kind(i))),
            ..current
        }),
    ensures
        sound_result(settled, job_id, evidence, context, setup),
        settled_before(settled, i + 1),
{
    let kind = stage_kind(i);
    let after = settled.slots.slot(kind);
    assert(sound_slot(current, kind, evidence));
    match outcome {
        Ok(record) => {
            let r = after.current->0;
            made_by_model_is_sound(settled, record, r, kind, answered, reply, target, setup, evidence, context, now);
            assert(sound_slot(settled, kind, evidence));
        },
        Err(e) => {
            fixed_sentences_may_be_stored(e);
            if i == 0 {
                let r = after.current->0;
                assert(reason_is(r.provenance.fallback_reason, fallback_code(e), failure_text(e)));
                rules_record_is_sound(
                    settled,
                    r,
                    Some(target),
                    EffectivePathV1::RulesFallback,
                    evidence,
                    context,
                    setup,
                    now,
                );
            }
            assert(sound_slot(settled, kind, evidence));
        },
    }
    assert forall|k: ArtifactKindV1| #[trigger] sound_slot(settled, k, evidence) by {
        assert(sound_slot(current, k, evidence));
        if k != kind {
            assert(settled.slots.slot(k) == current.slots.slot(k));
        }
    }
    assert(stage_kind(0) is FaithfulText);
    assert forall|j: int| 1 <= j < 4 implies (if settled.setup.enhancements_requested {
        j < i + 1 ==> settled.slots.slot(#[trigger] stage_kind(j)).settled()
    } else {
        !settled.slots.slot(stage_kind(j)).settled()
    }) by {
        if j != i {
            assert(stage_kind(j) != stage_kind(i));
            assert(settled.slots.slot(stage_kind(j)) == current.slots.slot(stage_kind(j)));
        }
    }
}

/// A record from the model is sound in its slot, whatever revision it gets.
proof fn made_by_model_is_sound(
    c: ContentCurrentV1,
    record: DerivationRecordV1,
    r: DerivationRecordV1,
    kind: ArtifactKindV1,
    answered: Seq<super::assembly::ChunkResult>,
    reply: Result<super::assembly::GeneratedChunk, GenerationPortError>,
    target: ReadyGenerationTargetV1,
    setup: ContentSetupV1,
    evidence: ValidatedEvidenceViewV1,
    context: SourceContextSnapshotV1,
    now: UtcTime,
)
    requires
        target.problem() is None,
        kind is FaithfulText ==> setup.initial_target == InitialTargetV1::Ready(target),
        c.evidence.alike(&evidence.descriptor),
        c.source_context@ == context@,
        c.setup.alike(&setup),
        r == (DerivationRecordV1 { revision: r.revision, ..record }),
        r.revision > 0,
        progress_after(
            kind,
            target,
            evidence,
            context,
            answered,
            reply,
            now,
            Progress::Finished(Ok(record)),
        ),
    ensures
        record_problem(kind, r, c.evidence, c.source_context, c.setup) is None,
        evidence_problem(r.facts(), evidence.utterances@) is None,
        r.kind == kind,
{
    super::provenance::model_provenance_is_valid(kind, target, r.provenance);
    assert(r.facts() == record.facts());
    fresh_record_is_sound(c, r, kind, evidence, context, setup);
}

/// A sound result whose stages are all settled may be published.
pub proof fn a_sound_result_may_be_published(
    c: ContentCurrentV1,
    job_id: u128,
    evidence: ValidatedEvidenceViewV1,
    context: SourceContextSnapshotV1,
    setup: ContentSetupV1,
)
    requires
        sound_result(c, job_id, evidence, context, setup),
        settled_before(c, 4),
    ensures
        match_problem(c, job_id, evidence, context, setup) is None,
{
    assert(stage_kind(1) is DefaultSummary);
    assert(stage_kind(2) is Highlights);
    assert(stage_kind(3) is Chapters);
    assert(sound_slot(c, ArtifactKindV1::FaithfulText, evidence));
    assert(sound_slot(c, ArtifactKindV1::DefaultSummary, evidence));
    assert(sound_slot(c, ArtifactKindV1::Highlights, evidence));
    assert(sound_slot(c, ArtifactKindV1::Chapters, evidence));
    assert(sound_slot(c, ArtifactKindV1::ShortSummary, evidence));
    assert(sound_slot(c, ArtifactKindV1::LongSummary, evidence));
}

/// A result that was accepted is sound, and stays so in the schema version in use. Nothing but
/// version numbers changes.
pub proof fn an_upgrade_keeps_an_accepted_result(
    c: ContentCurrentV1,
    job_id: u128,
    evidence: ValidatedEvidenceViewV1,
    context: SourceContextSnapshotV1,
    setup: ContentSetupV1,
)
    requires
        match_problem(c, job_id, evidence, context, setup) is None,
    ensures
        sound_result(upgraded(c), job_id, evidence, context, setup),
        settled_before(upgraded(c), 4),
        match_problem(upgraded(c), job_id, evidence, context, setup) is None,
        forall|kind: ArtifactKindV1| #![trigger upgraded(c).slots.slot(kind)]
            {
                let old_slot = c.slots.slot(kind);
                let new_slot = upgraded(c).slots.slot(kind);
                &&& new_slot.last_failure == old_slot.last_failure
                &&& new_slot.current is Some == old_slot.current is Some
                &&& old_slot.current is Some ==> {
                    let a = old_slot.current->0;
                    let b = new_slot.current->0;
                    b == (DerivationRecordV1 { schema_version: CONTENT_SCHEMA_VERSION, ..a })
                }
            },
{
    let u = upgraded(c);
    assert(stage_kind(1) is DefaultSummary);
    assert(stage_kind(2) is Highlights);
    assert(stage_kind(3) is Chapters);
    assert forall|kind: ArtifactKindV1| #[trigger] sound_slot(u, kind, evidence) by {
        assert(c.slot_problem(kind) is None);
        if let Some(r) = c.slots.slot(kind).current {
            let s = u.slots.slot(kind).current->0;
            assert(s.facts() == r.facts());
            assert(record_problem(kind, r, c.evidence, c.source_context, c.setup) is None);
        }
    }
    a_sound_result_may_be_published(u, job_id, evidence, context, setup);
}

/// A result before anything was made is sound.
pub proof fn an_empty_result_is_sound(
    c: ContentCurrentV1,
    job_id: u128,
    evidence: ValidatedEvidenceViewV1,
    context: SourceContextSnapshotV1,
    setup: ContentSetupV1,
)
    requires
        sound_input(job_id, evidence, setup),
        blank_current(c, job_id, evidence, context, setup),
    ensures
        sound_result(c, job_id, evidence, context, setup),
        settled_before(c, 0),
{
    assert forall|kind: ArtifactKindV1| #[trigger] sound_slot(c, kind, evidence) by {
        assert(!c.slots.slot(kind).settled());
    }
}

/// A run whose result is sound so far.
pub open spec fn sound_run(
    run: InitialRun,
    job_id: u128,
    evidence: ValidatedEvidenceViewV1,
    context: SourceContextSnapshotV1,
    setup: ContentSetupV1,
) -> bool {
    sound_result(run.current, job_id, evidence, context, setup) && settled_before(
        run.current,
        run.stage as int,
    )
}

/// A first run is sound from its start, whether it builds on an accepted result or on nothing.
pub proof fn a_run_starts_sound(
    existing: Option<ContentCurrentV1>,
    base: ContentCurrentV1,
    dirty: bool,
    run: InitialRun,
    step: InitialStep,
    job_id: u128,
    evidence: ValidatedEvidenceViewV1,
    context: SourceContextSnapshotV1,
    setup: ContentSetupV1,
    now: UtcTime,
)
    requires
        sound_input(job_id, evidence, setup),
        match existing {
            Some(c) => match_problem(c, job_id, evidence, context, setup) is None && base == upgraded(c),
            None => blank_current(base, job_id, evidence, context, setup),
        },
        walked_on(setup, evidence, context, base, dirty, 0, run, step, now),
    ensures
        sound_run(run, job_id, evidence, context, setup),
        step is Publish ==> match_problem(run.current, job_id, evidence, context, setup) is None,
{
    match existing {
        Some(c) => {
            an_upgrade_keeps_an_accepted_result(c, job_id, evidence, context, setup);
        },
        None => {
            an_empty_result_is_sound(base, job_id, evidence, context, setup);
        },
    }
    assert(settled_before(base, 0)) by {
        assert forall|j: int| 1 <= j < 4 implies (if base.setup.enhancements_requested {
            j < 0 ==> base.slots.slot(#[trigger] stage_kind(j)).settled()
        } else {
            !base.slots.slot(stage_kind(j)).settled()
        }) by {
            assert(stage_kind(j) == stage_kind(j));
        }
    }
    a_walk_keeps_the_result_sound(setup, evidence, context, base, dirty, 0, run, step, now, job_id);
    if step is Publish {
        stop_is_in_range(setup, base.slots, 0);
        a_sound_result_may_be_published(run.current, job_id, evidence, context, setup);
    }
}

/// An answer keeps a run sound, and what the run publishes is accepted when it is read again.
pub proof fn an_answer_keeps_a_run_sound(
    run: InitialRun,
    target: ReadyGenerationTargetV1,
    reply: Result<super::assembly::GeneratedChunk, GenerationPortError>,
    p: Progress,
    next: InitialRun,
    step: InitialStep,
    job_id: u128,
    evidence: ValidatedEvidenceViewV1,
    context: SourceContextSnapshotV1,
    setup: ContentSetupV1,
    now: UtcTime,
)
    requires
        sound_input(job_id, evidence, setup),
        setup.initial_target == InitialTargetV1::Ready(target),
        run.waiting(evidence),
        sound_run(run, job_id, evidence, context, setup),
        progress_after(
            stage_kind(run.stage as int),
            target,
            evidence,
            context,
            run.answered@,
            reply,
            now,
            p,
        ),
        resumed(run, target, setup, evidence, context, p, now, next, step),
    ensures
        sound_run(next, job_id, evidence, context, setup),
        step is Publish ==> match_problem(next.current, job_id, evidence, context, setup) is None,
{
    if let Progress::Finished(outcome) = p {
        let i = run.stage as int;
        let kind = stage_kind(i);
        let settled = choose|settled: ContentCurrentV1| #[trigger]
            settled_by(
                i,
                run.current.slots.slot(kind),
                settled.slots.slot(kind),
                outcome,
                target,
                evidence,
                context,
                now,
            ) && settled == (ContentCurrentV1 {
                slots: run.current.slots.with_slot(kind, settled.slots.slot(kind)),
                ..run.current
            }) && walked_on(setup, evidence, context, settled, true, i + 1, next, step, now);
        a_settled_stage_keeps_the_result_sound(
            i,
            run.current,
            settled,
            run.answered@,
            reply,
            outcome,
            target,
            setup,
            evidence,
            context,
            now,
            job_id,
        );
        a_walk_keeps_the_result_sound(
            setup,
            evidence,
            context,
            settled,
            true,
            i + 1,
            next,
            step,
            now,
            job_id,
        );
        stop_is_in_range(setup, settled.slots, i + 1);
        if step is Publish {
            a_sound_result_may_be_published(next.current, job_id, evidence, context, setup);
        }
    }
}

/// A first run fills what is missing and changes nothing else: a record that is there stays as
/// it is, and the short and the long summary are never touched.
pub proof fn a_first_run_only_adds(
    setup: ContentSetupV1,
    evidence: ValidatedEvidenceViewV1,
    context: SourceContextSnapshotV1,
    current: ContentCurrentV1,
    dirty: bool,
    from: int,
    run: InitialRun,
    step: InitialStep,
    now: UtcTime,
    kind: ArtifactKindV1,
)
    requires
        0 <= from <= 4,
        walked_on(setup, evidence, context, current, dirty, from, run, step, now),
    ensures
        current.slots.slot(kind).current is Some ==> run.current.slots.slot(kind) == current.slots.slot(kind),
        kind.optional_tier() ==> run.current.slots.slot(kind) == current.slots.slot(kind),
        !run.dirty ==> run.current.slots.slot(kind) == current.slots.slot(kind),
{
    stop_is_in_range(setup, current.slots, from);
    assert(stage_kind(0) is FaithfulText);
    assert(stage_kind(1) is DefaultSummary);
    assert(stage_kind(2) is Highlights);
    assert(stage_kind(3) is Chapters);
    let stop = next_stop(setup, current.slots, from);
    assert forall|i: int| from <= i < stop && !idle(setup, current.slots, i) implies run.dirty by {
        assert(super::execute::busy_between(setup, current.slots, from, stop));
    }
    assert(idle(setup, current.slots, 0) || !idle(setup, current.slots, 0));
    assert(idle(setup, current.slots, 1) || !idle(setup, current.slots, 1));
    assert(idle(setup, current.slots, 2) || !idle(setup, current.slots, 2));
    assert(idle(setup, current.slots, 3) || !idle(setup, current.slots, 3));
}

/// Making one text again keeps an accepted result accepted, touches no other text, and counts
/// the revision up by one; a failure leaves the record in force.
pub proof fn making_again_keeps_the_result_accepted(
    current: ContentCurrentV1,
    after: ContentCurrentV1,
    kind: super::kinds::RegenerableKind,
    target: ReadyGenerationTargetV1,
    answered: Seq<super::assembly::ChunkResult>,
    reply: Result<super::assembly::GeneratedChunk, GenerationPortError>,
    outcome: Result<DerivationRecordV1, GenerationPortError>,
    job_id: u128,
    evidence: ValidatedEvidenceViewV1,
    context: SourceContextSnapshotV1,
    setup: ContentSetupV1,
    now: UtcTime,
)
    requires
        match_problem(current, job_id, evidence, context, setup) is None,
        setup.enhancements_requested,
        target.problem() is None,
        progress_after(
            kind.kind(),
            target,
            evidence,
            context,
            answered,
            reply,
            now,
            Progress::Finished(outcome),
        ),
        outcome is Ok ==> revision_after(current.slots.slot(kind.kind())) <= u32::MAX,
        regenerated(current.slots.slot(kind.kind()), after.slots.slot(kind.kind()), outcome, now),
        after == (ContentCurrentV1 {
            slots: current.slots.with_slot(kind.kind(), after.slots.slot(kind.kind())),
            ..current
        }),
    ensures
        match_problem(after, job_id, evidence, context, setup) is None,
        forall|k: ArtifactKindV1|
            k != kind.kind() ==> #[trigger] after.slots.slot(k) == current.slots.slot(k),
        outcome is Ok ==> {
            &&& after.slots.slot(kind.kind()).current is Some
            &&& (after.slots.slot(kind.kind()).current->0).revision == revision_after(
                current.slots.slot(kind.kind()),
            )
        },
        outcome is Err ==> after.slots.slot(kind.kind()).current == current.slots.slot(kind.kind()).current,
{
    let k = kind.kind();
    let slot = after.slots.slot(k);
    assert(current.slot_problem(k) is None);
    assert(record_evidence_problem(current, k, evidence) is None);
    match outcome {
        Ok(record) => {
            made_by_model_is_sound(
                after,
                record,
                slot.current->0,
                k,
                answered,
                reply,
                target,
                setup,
                evidence,
                context,
                now,
            );
        },
        Err(e) => {
            fixed_sentences_may_be_stored(e);
        },
    }
    assert(sound_slot(after, k, evidence));
    assert forall|j: ArtifactKindV1| #[trigger] sound_slot(after, j, evidence) by {
        if j != k {
            assert(after.slots.slot(j) == current.slots.slot(j));
            assert(current.slot_problem(j) is None);
            assert(record_evidence_problem(current, j, evidence) is None);
        }
    }
    assert(settled_before(after, 4)) by {
        assert(stage_kind(1) is DefaultSummary);
        assert(stage_kind(2) is Highlights);
        assert(stage_kind(3) is Chapters);
    }
    a_sound_result_may_be_published(after, job_id, evidence, context, setup);
}

} // verus!
