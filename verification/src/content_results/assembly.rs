//! From a model's answers to a record that may be kept.

use vstd::prelude::*;
use super::chunks::{chunk_utterances, chunks_of};
use super::error::{ContentSchemaError, SchemaProblem, broken, found, violation};
use super::evidence::{
    EvidenceDescriptorV1, SourceContextSnapshotV1, ValidatedEvidenceViewV1, utterance_ids,
};
use super::kinds::{
    ArtifactKindV1, ContentBlockRoleV1, EffectivePathV1, SourceStatusV1, claims, expected_role, is_claims, role_of,
};
use super::lexical::{
    complaint, count, faithful_complaint, ordered_within, validate_faithful_text_pair, values, words,
    a_faithful_text_keeps_every_digit, a_faithful_text_keeps_every_letter, digits_add, digits_in, letters,
    letters_add, letters_of_one, no_digits_in,
};
use super::provenance::{FallbackReasonV1, build_provenance, provenance_for};
use super::record::{
    ChunkView, ContentBlockV1, DerivationRecordV1, ProcessingChunkV1, RecordFacts, SourceRefV1, UtcTime,
    ValidationReportV1, all_checks_passed, block_ids, blocks_status, has_title, is_titled, output_ids, passed_checks,
    say_nothing, shape_problem, status_of, validate_record_shape,
};
use super::sources::{
    accepted_references_lead_back, claim_complaint, claim_text, every_position, ints, is_every_position,
    mixed_complaint, names_a_stretch, partition_complaint, refs_outcome, rising, source_text,
    source_text_for_refs, validate_chapter_mixed_sources, validate_chapter_partitions,
    validate_source_refs, validate_supporting_block, accepted_references_use_what_they_name, lines_at, named_ids,
    the_text_behind_references_is_what_was_said,
};
use super::target::{CONTENT_SCHEMA_VERSION, ReadyGenerationTargetV1};
use crate::funasr::Utterance;
use crate::reading_time::{TextScale, cjk_count, measure, word_count};
use crate::text::{blank, cat4, dec, decimal, is_blank, join, joined, same_texts, text, views, views_push};

verus! {

// ---- A record against the transcript ----

/// A complaint as a schema problem.
pub open spec fn as_problem(c: Option<Seq<char>>) -> Option<SchemaProblem> {
    match c {
        Some(m) => broken(m),
        None => None,
    }
}

/// What is wrong with the ledger from chunk `i` on, where chunk `i` must have read exactly
/// the utterances `expected[i]`.
pub open spec fn ledger_complaint(
    chunks: Seq<ChunkView>,
    expected: Seq<Seq<Utterance>>,
    i: int,
) -> Option<Seq<char>>
    decreases chunks.len() - i,
{
    if i < 0 || i >= chunks.len() {
        None
    } else if chunks[i].index != i || chunks[i].inputs != utterance_ids(expected[i]) {
        Some("processing chunk input ledger does not match Evidence"@)
    } else if chunks[i].outputs.len() == 0 {
        Some("processing chunk has no output blocks"@)
    } else {
        ledger_complaint(chunks, expected, i + 1)
    }
}

/// What is wrong with the ledger of a record.
pub open spec fn processing_complaint(f: RecordFacts, us: Seq<Utterance>) -> Option<Seq<char>> {
    if f.chunks.len() != chunks_of(us).len() {
        Some("processing chunk count does not match Evidence"@)
    } else if ledger_complaint(f.chunks, chunks_of(us), 0) is Some {
        ledger_complaint(f.chunks, chunks_of(us), 0)
    } else if output_ids(f.chunks, f.chunks.len() as int) != block_ids(f.blocks) {
        Some("processing chunk output ledger does not match record blocks"@)
    } else {
        None
    }
}

fn ids_of(utterances: &Vec<Utterance>) -> (r: Vec<String>)
    ensures
        views(r@) == utterance_ids(utterances@),
{
    let mut out: Vec<String> = Vec::new();
    let mut i: usize = 0;
    while i < utterances.len()
        invariant
            i <= utterances@.len(),
            views(out@) =~= utterance_ids(utterances@).take(i as int),
        decreases utterances@.len() - i,
    {
        proof {
            views_push(out@, utterances@[i as int].id);
        }
        out.push(utterances[i].id.clone());
        i += 1;
    }
    assert(views(out@) =~= utterance_ids(utterances@));
    out
}

fn block_ids_of(blocks: &Vec<ContentBlockV1>) -> (r: Vec<String>)
    ensures
        views(r@) == block_ids(blocks@),
{
    let mut out: Vec<String> = Vec::new();
    let mut i: usize = 0;
    while i < blocks.len()
        invariant
            i <= blocks@.len(),
            views(out@) =~= block_ids(blocks@).take(i as int),
        decreases blocks@.len() - i,
    {
        proof {
            views_push(out@, blocks@[i as int].id);
        }
        out.push(blocks[i].id.clone());
        i += 1;
    }
    assert(views(out@) =~= block_ids(blocks@));
    out
}

fn add_all(out: &mut Vec<String>, more: &Vec<String>)
    ensures
        views(final(out)@) == views(old(out)@) + views(more@),
{
    let mut i: usize = 0;
    while i < more.len()
        invariant
            i <= more@.len(),
            views(out@) =~= views(old(out)@) + views(more@).take(i as int),
        decreases more@.len() - i,
    {
        proof {
            views_push(out@, more@[i as int]);
        }
        out.push(more[i].clone());
        i += 1;
    }
    assert(views(more@).take(i as int) =~= views(more@));
}

/// Accepts a ledger that names every utterance and every block once, in order.
#[verifier::loop_isolation(false)]
pub fn validate_processing_chunks(record: &DerivationRecordV1, utterances: &Vec<Utterance>) -> (r:
    Result<(), String>)
    ensures
        complaint(r) == processing_complaint(record.facts(), utterances@),
{
    let expected = chunk_utterances(utterances);
    let chunks = &record.validation.processing_chunks;
    let ghost ledger = views(chunks@);
    assert(views(expected@).len() == expected@.len());
    if chunks.len() != expected.len() {
        return Err("processing chunk count does not match Evidence".to_owned());
    }
    let mut outputs: Vec<String> = Vec::new();
    let mut i: usize = 0;
    assert(views(outputs@) =~= Seq::<Seq<char>>::empty());
    while i < chunks.len()
        invariant
            i <= chunks@.len(),
            views(outputs@) == output_ids(ledger, i as int),
            ledger_complaint(ledger, views(expected@), 0) == ledger_complaint(
                ledger,
                views(expected@),
                i as int,
            ),
        decreases chunks@.len() - i,
    {
        let chunk = &chunks[i];
        assert(ledger[i as int] == chunk@);
        assert(views(expected@)[i as int] == expected@[i as int]@);
        if chunk.chunk_index != i || !same_texts(&chunk.input_utterance_ids, &ids_of(&expected[i])) {
            return Err("processing chunk input ledger does not match Evidence".to_owned());
        }
        if chunk.output_block_ids.len() == 0 {
            return Err("processing chunk has no output blocks".to_owned());
        }
        add_all(&mut outputs, &chunk.output_block_ids);
        i += 1;
    }
    if !same_texts(&outputs, &block_ids_of(&record.blocks)) {
        return Err("processing chunk output ledger does not match record blocks".to_owned());
    }
    Ok(())
}

/// What is wrong with one block's sources.
pub open spec fn block_source_problem(
    kind: ArtifactKindV1,
    b: ContentBlockV1,
    us: Seq<Utterance>,
) -> Option<SchemaProblem> {
    match refs_outcome(b.source_refs@, us) {
        Err(m) => broken(m),
        Ok(_) => if kind is FaithfulText {
            match source_text(b.source_refs@, us) {
                Err(m) => broken(m),
                Ok(source) => as_problem(faithful_complaint(source, b.text@)),
            }
        } else if claims(kind) {
            as_problem(claim_complaint(kind, b, us))
        } else {
            None
        },
    }
}

/// The first problem with the sources of the blocks from `i` on.
pub open spec fn block_sources_problem(
    kind: ArtifactKindV1,
    blocks: Seq<ContentBlockV1>,
    us: Seq<Utterance>,
    i: int,
) -> Option<SchemaProblem>
    decreases blocks.len() - i,
{
    if i < 0 || i >= blocks.len() {
        None
    } else if block_source_problem(kind, blocks[i], us) is Some {
        block_source_problem(kind, blocks[i], us)
    } else {
        block_sources_problem(kind, blocks, us, i + 1)
    }
}

/// The positions that one block uses.
pub open spec fn used_by(b: ContentBlockV1, us: Seq<Utterance>) -> Seq<int> {
    match refs_outcome(b.source_refs@, us) {
        Ok(used) if b.source_status is Mapped => used,
        _ => Seq::empty(),
    }
}

/// The positions that the first `n` blocks use.
pub open spec fn all_used(blocks: Seq<ContentBlockV1>, us: Seq<Utterance>, n: int) -> Seq<int>
    decreases n,
{
    if n <= 0 {
        Seq::empty()
    } else {
        all_used(blocks, us, n - 1) + used_by(blocks[n - 1], us)
    }
}

/// What is wrong with the blocks of a record taken together.
pub open spec fn coverage_problem(f: RecordFacts, us: Seq<Utterance>) -> Option<SchemaProblem> {
    let used = all_used(f.blocks, us, f.blocks.len() as int);
    match f.kind {
        ArtifactKindV1::FaithfulText => if !(f.status is Mapped) {
            broken("faithful text cannot use limited source status"@)
        } else if !every_position(used, us.len() as int) {
            broken("faithful refs do not cover Evidence in order"@)
        } else {
            None
        },
        ArtifactKindV1::Chapters => if f.status is Mapped {
            as_problem(partition_complaint(f.blocks, us, used))
        } else {
            as_problem(mixed_complaint(f.blocks, us, used))
        },
        _ => None,
    }
}

/// What is wrong with a record as one made from a transcript.
pub open spec fn evidence_problem(f: RecordFacts, us: Seq<Utterance>) -> Option<SchemaProblem> {
    if f.total != us.len() || f.processed != us.len() || !f.complete {
        broken("record coverage counts do not match the validated Evidence"@)
    } else if shape_problem(f) is Some {
        shape_problem(f)
    } else if processing_complaint(f, us) is Some {
        as_problem(processing_complaint(f, us))
    } else if block_sources_problem(f.kind, f.blocks, us, 0) is Some {
        block_sources_problem(f.kind, f.blocks, us, 0)
    } else {
        coverage_problem(f, us)
    }
}

fn told_off(r: Result<(), String>) -> (e: Result<(), ContentSchemaError>)
    ensures
        found(e) == as_problem(complaint(r)),
{
    match r {
        Ok(()) => Ok(()),
        Err(m) => Err(ContentSchemaError::Invariant(m)),
    }
}

fn check_block_sources(kind: ArtifactKindV1, b: &ContentBlockV1, utterances: &Vec<Utterance>) -> (r:
    Result<Vec<usize>, ContentSchemaError>)
    ensures
        match r {
            Ok(used) => block_source_problem(kind, *b, utterances@) is None && refs_outcome(
                b.source_refs@,
                utterances@,
            ) == Ok::<Seq<int>, Seq<char>>(ints(used@)),
            Err(e) => block_source_problem(kind, *b, utterances@) == Some(e@),
        },
{
    let used = match validate_source_refs(&b.source_refs, utterances) {
        Ok(used) => used,
        Err(m) => {
            return Err(ContentSchemaError::Invariant(m));
        },
    };
    if kind == ArtifactKindV1::FaithfulText {
        match source_text_for_refs(&b.source_refs, utterances) {
            Err(m) => {
                return Err(ContentSchemaError::Invariant(m));
            },
            Ok(source) => {
                if let Err(m) = validate_faithful_text_pair(source.as_str(), b.text.as_str()) {
                    return Err(ContentSchemaError::Invariant(m));
                }
            },
        }
    } else if is_claims(kind) {
        if let Err(m) = validate_supporting_block(kind, b, utterances) {
            return Err(ContentSchemaError::Invariant(m));
        }
    }
    Ok(used)
}

/// Accepts a record whose blocks rest on the transcript as its kind demands.
#[verifier::loop_isolation(false)]
pub fn validate_record_against_evidence(
    record: &DerivationRecordV1,
    utterances: &Vec<Utterance>,
) -> (r: Result<(), ContentSchemaError>)
    ensures
        found(r) == evidence_problem(record.facts(), utterances@),
{
    let v = &record.validation;
    if v.total_utterance_count != utterances.len() || v.processed_utterance_count
        != utterances.len() || !v.processing_coverage_complete {
        return Err(violation("record coverage counts do not match the validated Evidence"));
    }
    if let Err(e) = validate_record_shape(record) {
        return Err(e);
    }
    if let Err(m) = validate_processing_chunks(record, utterances) {
        return Err(ContentSchemaError::Invariant(m));
    }
    let blocks = &record.blocks;
    let kind = record.kind;
    let mut used: Vec<usize> = Vec::new();
    let mut i: usize = 0;
    assert(ints(used@) =~= Seq::<int>::empty());
    while i < blocks.len()
        invariant
            i <= blocks@.len(),
            ints(used@) == all_used(blocks@, utterances@, i as int),
            block_sources_problem(kind, blocks@, utterances@, 0) == block_sources_problem(
                kind,
                blocks@,
                utterances@,
                i as int,
            ),
        decreases blocks@.len() - i,
    {
        match check_block_sources(kind, &blocks[i], utterances) {
            Err(e) => {
                return Err(e);
            },
            Ok(more) => {
                let ghost before = used@;
                let mut more = more;
                let ghost added = more@;
                if blocks[i].source_status == SourceStatusV1::Mapped {
                    used.append(&mut more);
                    assert(ints(used@) =~= ints(before) + ints(added));
                } else {
                    assert(ints(used@) =~= ints(before) + Seq::<int>::empty());
                }
            },
        }
        i += 1;
    }
    match kind {
        ArtifactKindV1::FaithfulText => {
            if v.record_source_status != SourceStatusV1::Mapped {
                return Err(violation("faithful text cannot use limited source status"));
            }
            if !is_every_position(&used, utterances.len()) {
                return Err(violation("faithful refs do not cover Evidence in order"));
            }
            Ok(())
        },
        ArtifactKindV1::Chapters => {
            if v.record_source_status == SourceStatusV1::Mapped {
                told_off(validate_chapter_partitions(blocks, utterances, &used))
            } else {
                told_off(validate_chapter_mixed_sources(blocks, utterances, &used))
            }
        },
        _ => Ok(()),
    }
}

// ---- What an accepted record promises ----

proof fn every_block_was_accepted(
    kind: ArtifactKindV1,
    blocks: Seq<ContentBlockV1>,
    us: Seq<Utterance>,
    i: int,
    k: int,
)
    requires
        0 <= i <= k < blocks.len(),
        block_sources_problem(kind, blocks, us, i) is None,
    ensures
        block_source_problem(kind, blocks[k], us) is None,
    decreases k - i,
{
    if i < k {
        every_block_was_accepted(kind, blocks, us, i + 1, k);
    }
}

/// Every reference of an accepted record, of whatever kind, names a stretch of the transcript
/// with the times at which it was spoken.
pub proof fn an_accepted_record_can_be_followed_back(f: RecordFacts, us: Seq<Utterance>, i: int, k: int)
    requires
        evidence_problem(f, us) is None,
        0 <= i < f.blocks.len(),
        0 <= k < f.blocks[i].source_refs@.len(),
    ensures
        names_a_stretch(f.blocks[i].source_refs@[k], us),
{
    every_block_was_accepted(f.kind, f.blocks, us, 0, i);
    accepted_references_lead_back(f.blocks[i].source_refs@, us);
}

/// An accepted faithful text leaves nothing out and adds nothing: its blocks go through every
/// utterance once and in order, and each says the words and the numbers, amounts and addresses
/// of its own stretch, in their order.
pub proof fn an_accepted_faithful_text_says_what_was_said(f: RecordFacts, us: Seq<Utterance>)
    requires
        f.kind is FaithfulText,
        evidence_problem(f, us) is None,
    ensures
        every_position(all_used(f.blocks, us, f.blocks.len() as int), us.len() as int),
        forall|i: int|
            0 <= i < f.blocks.len() ==> {
                let b = #[trigger] f.blocks[i];
                source_text(b.source_refs@, us) matches Ok(said) && words(b.text@) == words(said) && values(
                    b.text@,
                ) == values(said)
            },
{
    assert forall|i: int| 0 <= i < f.blocks.len() implies {
        let b = #[trigger] f.blocks[i];
        source_text(b.source_refs@, us) matches Ok(said) && words(b.text@) == words(said) && values(b.text@)
            == values(said)
    } by {
        every_block_was_accepted(f.kind, f.blocks, us, 0, i);
    }
}

/// A claim with sources invents nothing: its words stand in the referenced text in the same
/// order, and no number, amount or address occurs in it more often than there.
pub proof fn an_accepted_claim_invents_nothing(f: RecordFacts, us: Seq<Utterance>, i: int, value: Seq<char>)
    requires
        claims(f.kind),
        evidence_problem(f, us) is None,
        0 <= i < f.blocks.len(),
        f.blocks[i].source_status is Mapped,
    ensures
        source_text(f.blocks[i].source_refs@, us) matches Ok(said) && {
            let claimed = claim_text(f.kind, f.blocks[i]);
            &&& words(claimed).len() > 0
            &&& ordered_within(words(claimed), words(said))
            &&& ordered_within(values(claimed), values(said))
            &&& count(values(claimed), value) <= count(values(said), value)
        },
{
    every_block_was_accepted(f.kind, f.blocks, us, 0, i);
}

/// Accepted chapters never overlap and never go back; where all of them have sources, they
/// divide the transcript without a gap.
pub proof fn accepted_chapters_divide_the_transcript(f: RecordFacts, us: Seq<Utterance>)
    requires
        f.kind is Chapters,
        evidence_problem(f, us) is None,
    ensures
        rising(all_used(f.blocks, us, f.blocks.len() as int)),
        f.status is Mapped ==> every_position(all_used(f.blocks, us, f.blocks.len() as int), us.len() as int),
{
}

// ---- How long a summary may be ----

/// The limits of a summary tier.
#[derive(Debug, Clone, Copy, PartialEq, Eq, Structural)]
pub struct SummaryTierContract {
    pub min_cjk_chars: usize,
    pub max_cjk_chars: usize,
    pub min_en_words: usize,
    pub max_en_words: usize,
}

/// The limits of a kind, if it is a summary.
pub open spec fn tier_of(kind: ArtifactKindV1) -> Option<SummaryTierContract> {
    match kind {
        ArtifactKindV1::ShortSummary => Some(
            SummaryTierContract {
                min_cjk_chars: 0,
                max_cjk_chars: 300,
                min_en_words: 0,
                max_en_words: 180,
            },
        ),
        ArtifactKindV1::DefaultSummary => Some(
            SummaryTierContract {
                min_cjk_chars: 150,
                max_cjk_chars: 750,
                min_en_words: 90,
                max_en_words: 450,
            },
        ),
        ArtifactKindV1::LongSummary => Some(
            SummaryTierContract {
                min_cjk_chars: 400,
                max_cjk_chars: 2250,
                min_en_words: 240,
                max_en_words: 1350,
            },
        ),
        _ => None,
    }
}

/// The limits of a kind, if it is a summary.
pub fn summary_tier_contract(kind: ArtifactKindV1) -> (r: Option<SummaryTierContract>)
    ensures
        r == tier_of(kind),
{
    match kind {
        ArtifactKindV1::ShortSummary => Some(
            SummaryTierContract {
                min_cjk_chars: 0,
                max_cjk_chars: 300,
                min_en_words: 0,
                max_en_words: 180,
            },
        ),
        ArtifactKindV1::DefaultSummary => Some(
            SummaryTierContract {
                min_cjk_chars: 150,
                max_cjk_chars: 750,
                min_en_words: 90,
                max_en_words: 450,
            },
        ),
        ArtifactKindV1::LongSummary => Some(
            SummaryTierContract {
                min_cjk_chars: 400,
                max_cjk_chars: 2250,
                min_en_words: 240,
                max_en_words: 1350,
            },
        ),
        _ => None,
    }
}

/// Whether a text is mostly English: more than one word for two ideographs.
pub fn is_english_dominant(scale: TextScale) -> (b: bool)
    ensures
        b == (scale.latin_words * 2 > scale.cjk_chars),
{
    scale.latin_words > scale.cjk_chars / 2
}

/// A text of `cjk` ideographs and `words` words is within the limits of its kind.
pub open spec fn fits_tier(kind: ArtifactKindV1, cjk: int, words: int) -> bool {
    match tier_of(kind) {
        None => true,
        Some(t) => if words * 2 > cjk {
            t.min_en_words <= words <= t.max_en_words
        } else {
            t.min_cjk_chars <= cjk <= t.max_cjk_chars
        },
    }
}

/// The texts of a list of blocks.
pub open spec fn block_texts(blocks: Seq<ContentBlockV1>) -> Seq<Seq<char>> {
    Seq::new(blocks.len(), |i: int| blocks[i].text@)
}

/// The text of a record: its blocks, one to a line.
pub open spec fn plain_text(blocks: Seq<ContentBlockV1>) -> Seq<char> {
    joined(block_texts(blocks), "\n"@)
}

/// The text of a list of blocks, one to a line.
pub fn blocks_plain_text(blocks: &Vec<ContentBlockV1>) -> (r: String)
    ensures
        r@ == plain_text(blocks@),
{
    let mut texts: Vec<String> = Vec::new();
    let mut i: usize = 0;
    while i < blocks.len()
        invariant
            i <= blocks@.len(),
            views(texts@) =~= block_texts(blocks@).take(i as int),
        decreases blocks@.len() - i,
    {
        proof {
            views_push(texts@, blocks@[i as int].text);
        }
        texts.push(blocks[i].text.clone());
        i += 1;
    }
    assert(views(texts@) =~= block_texts(blocks@));
    join(&texts, "\n")
}

/// The blocks are within the limits of their kind.
pub open spec fn length_fits(kind: ArtifactKindV1, blocks: Seq<ContentBlockV1>) -> bool {
    fits_tier(kind, cjk_count(plain_text(blocks)) as int, word_count(plain_text(blocks)) as int)
}

/// Why a model's answer brought no record.
#[derive(Debug, Clone, Copy, PartialEq, Eq, Structural)]
pub enum GenerationPortError {
    Transport,
    ResponseInvalid,
}

/// Accepts a summary whose length is that of its tier.
pub fn validate_summary_tier_length(kind: ArtifactKindV1, blocks: &Vec<ContentBlockV1>) -> (r: Result<
    (),
    GenerationPortError,
>)
    ensures
        r == (if length_fits(kind, blocks@) {
            Ok::<(), GenerationPortError>(())
        } else {
            Err(GenerationPortError::ResponseInvalid)
        }),
{
    match summary_tier_contract(kind) {
        None => Ok(()),
        Some(t) => {
            let text = blocks_plain_text(blocks);
            let scale = measure(text.as_str());
            let (count, min, max): (usize, usize, usize) = if is_english_dominant(scale) {
                (scale.latin_words, t.min_en_words, t.max_en_words)
            } else {
                (scale.cjk_chars, t.min_cjk_chars, t.max_cjk_chars)
            };
            if count > max || count < min {
                return Err(GenerationPortError::ResponseInvalid);
            }
            Ok(())
        },
    }
}

// ---- Answers ----

/// A block as a model wrote it.
#[derive(Debug, Clone)]
pub struct GeneratedBlock {
    pub id: String,
    pub title: Option<String>,
    pub text: String,
    pub declared_role: Option<ContentBlockRoleV1>,
    pub source_refs: Vec<SourceRefV1>,
    pub declared_status: Option<SourceStatusV1>,
}

/// A model's answer about one piece of a transcript.
#[derive(Debug, Clone)]
pub struct GeneratedChunk {
    pub processed_utterance_ids: Vec<String>,
    pub blocks: Vec<GeneratedBlock>,
}

/// What one piece of a transcript came to.
#[derive(Debug, Clone)]
pub struct ChunkResult {
    pub chunk_index: usize,
    pub input_ids: Vec<String>,
    pub blocks: Vec<ContentBlockV1>,
}

/// The status that a block's references give it.
pub open spec fn status_by_refs(refs: Seq<SourceRefV1>) -> SourceStatusV1 {
    if refs.len() == 0 {
        SourceStatusV1::Limited
    } else {
        SourceStatusV1::Mapped
    }
}

/// A model's block can be taken over.
pub open spec fn acceptable(kind: ArtifactKindV1, g: GeneratedBlock) -> bool {
    &&& !blank(g.id@)
    &&& !blank(g.text@)
    &&& !(kind is FaithfulText && g.title is Some)
    &&& g.declared_role matches Some(role) ==> role == role_of(kind)
    &&& g.declared_status matches Some(status) ==> status == status_by_refs(g.source_refs@)
}

/// The block that a model's block becomes.
pub open spec fn taken_over(kind: ArtifactKindV1, chunk: int, g: GeneratedBlock, b: ContentBlockV1) -> bool {
    &&& b.id@ == "chunk-"@ + dec(chunk as nat) + "-"@ + g.id@
    &&& b.role == role_of(kind)
    &&& b.title == g.title
    &&& b.text == g.text
    &&& b.source_refs == g.source_refs
    &&& b.source_status == status_by_refs(g.source_refs@)
}

fn is_acceptable(kind: ArtifactKindV1, g: &GeneratedBlock) -> (b: bool)
    ensures
        b == acceptable(kind, *g),
{
    let role_ok = match g.declared_role {
        Some(role) => role == expected_role(kind),
        None => true,
    };
    let status = if g.source_refs.len() == 0 {
        SourceStatusV1::Limited
    } else {
        SourceStatusV1::Mapped
    };
    let status_ok = match g.declared_status {
        Some(declared) => declared == status,
        None => true,
    };
    !is_blank(g.id.as_str()) && !is_blank(g.text.as_str()) && !(kind == ArtifactKindV1::FaithfulText
        && g.title.is_some()) && role_ok && status_ok
}

/// Takes a model's blocks over, or refuses the answer as a whole.
#[verifier::loop_isolation(false)]
pub fn convert_generated_blocks(
    kind: ArtifactKindV1,
    chunk_index: usize,
    generated: GeneratedChunk,
) -> (r: Result<Vec<ContentBlockV1>, GenerationPortError>)
    ensures
        match r {
            Ok(blocks) => {
                &&& blocks@.len() == generated.blocks@.len() > 0
                &&& forall|i: int|
                    0 <= i < blocks@.len() ==> acceptable(kind, generated.blocks@[i]) && taken_over(
                        kind,
                        chunk_index as int,
                        generated.blocks@[i],
                        #[trigger] blocks@[i],
                    )
            },
            Err(e) => e is ResponseInvalid && (generated.blocks@.len() == 0 || exists|i: int|
                0 <= i < generated.blocks@.len() && !acceptable(kind, #[trigger] generated.blocks@[i])),
        },
{
    if generated.blocks.len() == 0 {
        return Err(GenerationPortError::ResponseInvalid);
    }
    let mut i: usize = 0;
    while i < generated.blocks.len()
        invariant
            i <= generated.blocks@.len(),
            forall|j: int| 0 <= j < i ==> acceptable(kind, #[trigger] generated.blocks@[j]),
        decreases generated.blocks@.len() - i,
    {
        if !is_acceptable(kind, &generated.blocks[i]) {
            assert(!acceptable(kind, generated.blocks@[i as int]));
            return Err(GenerationPortError::ResponseInvalid);
        }
        i += 1;
    }
    let role = expected_role(kind);
    let prefix = decimal(chunk_index as u64);
    let mut out: Vec<ContentBlockV1> = Vec::new();
    for g in it: generated.blocks
        invariant
            it.seq() == generated.blocks@,
            out@.len() == it.index(),
            forall|j: int|
                0 <= j < out@.len() ==> taken_over(
                    kind,
                    chunk_index as int,
                    generated.blocks@[j],
                    #[trigger] out@[j],
                ),
    {
        let status = if g.source_refs.len() == 0 {
            SourceStatusV1::Limited
        } else {
            SourceStatusV1::Mapped
        };
        let id = cat4("chunk-", prefix.as_str(), "-", g.id.as_str());
        out.push(
            ContentBlockV1 {
                id,
                role,
                title: g.title,
                text: g.text,
                source_refs: g.source_refs,
                source_status: status,
            },
        );
    }
    Ok(out)
}

/// A block's references are sound in its piece of the transcript, and a chapter has a title.
pub open spec fn usable(kind: ArtifactKindV1, b: ContentBlockV1, piece: Seq<Utterance>) -> bool {
    refs_outcome(b.source_refs@, piece) is Ok && !(kind is Chapters && !has_title(b.title))
}

/// A claim that its references do not support.
pub open spec fn unsupported(kind: ArtifactKindV1, b: ContentBlockV1, piece: Seq<Utterance>) -> bool {
    claims(kind) && b.source_status is Mapped && claim_complaint(kind, b, piece) is Some
}

/// The block that is kept: a claim without support keeps its text and loses its references.
pub open spec fn kept(
    kind: ArtifactKindV1,
    b: ContentBlockV1,
    piece: Seq<Utterance>,
    out: ContentBlockV1,
) -> bool {
    if unsupported(kind, b, piece) {
        out.source_refs@.len() == 0 && out == (ContentBlockV1 {
            source_refs: out.source_refs,
            source_status: SourceStatusV1::Limited,
            ..b
        })
    } else {
        out == b
    }
}

fn keep_block(kind: ArtifactKindV1, b: ContentBlockV1, piece: &Vec<Utterance>) -> (out: ContentBlockV1)
    ensures
        kept(kind, b, piece@, out),
{
    if is_claims(kind) && b.source_status == SourceStatusV1::Mapped {
        if validate_supporting_block(kind, &b, piece).is_err() {
            return ContentBlockV1 {
                id: b.id,
                role: b.role,
                title: b.title,
                text: b.text,
                source_refs: Vec::new(),
                source_status: SourceStatusV1::Limited,
            };
        }
    }
    b
}

/// Checks one piece's blocks against the piece.
#[verifier::loop_isolation(false)]
pub fn validate_chunk_result(
    kind: ArtifactKindV1,
    chunk_index: usize,
    chunk: &Vec<Utterance>,
    blocks: Vec<ContentBlockV1>,
) -> (r: Result<ChunkResult, GenerationPortError>)
    ensures
        match r {
            Ok(result) => {
                &&& result.chunk_index == chunk_index
                &&& views(result.input_ids@) == utterance_ids(chunk@)
                &&& result.blocks@.len() == blocks@.len() > 0
                &&& forall|i: int|
                    0 <= i < blocks@.len() ==> usable(kind, blocks@[i], chunk@) && kept(
                        kind,
                        blocks@[i],
                        chunk@,
                        #[trigger] result.blocks@[i],
                    )
            },
            Err(e) => e is ResponseInvalid && (blocks@.len() == 0 || exists|i: int|
                0 <= i < blocks@.len() && !usable(kind, #[trigger] blocks@[i], chunk@)),
        },
{
    if blocks.len() == 0 {
        return Err(GenerationPortError::ResponseInvalid);
    }
    let mut i: usize = 0;
    while i < blocks.len()
        invariant
            i <= blocks@.len(),
            forall|j: int| 0 <= j < i ==> usable(kind, #[trigger] blocks@[j], chunk@),
        decreases blocks@.len() - i,
    {
        let sound = validate_source_refs(&blocks[i].source_refs, chunk).is_ok();
        if !sound || (kind == ArtifactKindV1::Chapters && !is_titled(&blocks[i].title)) {
            assert(!usable(kind, blocks@[i as int], chunk@));
            return Err(GenerationPortError::ResponseInvalid);
        }
        i += 1;
    }
    let mut out: Vec<ContentBlockV1> = Vec::new();
    for b in it: blocks
        invariant
            it.seq() == blocks@,
            out@.len() == it.index(),
            forall|j: int|
                0 <= j < out@.len() ==> kept(kind, blocks@[j], chunk@, #[trigger] out@[j]),
    {
        out.push(keep_block(kind, b, chunk));
    }
    Ok(ChunkResult { chunk_index, input_ids: ids_of(chunk), blocks: out })
}

// ---- Putting the pieces together ----

/// The pieces came back complete, in order, and no utterance was read twice.
pub open spec fn complete_in_order(results: Seq<ChunkResult>, us: Seq<Utterance>) -> bool {
    &&& results.len() == chunks_of(us).len()
    &&& forall|i: int|
        0 <= i < results.len() ==> (#[trigger] results[i]).chunk_index == i && views(
            results[i].input_ids@,
        ) == utterance_ids(chunks_of(us)[i])
    &&& utterance_ids(us).no_duplicates()
}

/// The ledger entry of one piece.
pub open spec fn entry(r: ChunkResult) -> ChunkView {
    ChunkView {
        index: r.chunk_index as int,
        inputs: views(r.input_ids@),
        outputs: block_ids(r.blocks@),
    }
}

/// The ledger of all pieces.
pub open spec fn ledger_of(results: Seq<ChunkResult>) -> Seq<ChunkView> {
    Seq::new(results.len(), |i: int| entry(results[i]))
}

/// The blocks of the first `n` pieces.
pub open spec fn blocks_of(results: Seq<ChunkResult>, n: int) -> Seq<ContentBlockV1>
    decreases n,
{
    if n <= 0 {
        Seq::empty()
    } else {
        blocks_of(results, n - 1) + results[n - 1].blocks@
    }
}

/// What the checks see of the record that the pieces make.
pub open spec fn merged_facts(kind: ArtifactKindV1, results: Seq<ChunkResult>, count: int) -> RecordFacts {
    let blocks = blocks_of(results, results.len() as int);
    RecordFacts {
        kind,
        blocks,
        chunks: ledger_of(results),
        processed: count,
        total: count,
        complete: true,
        status: status_of(blocks),
        checks: passed_checks(kind),
    }
}

/// The pieces make a record that may be kept.
pub open spec fn mergeable(
    kind: ArtifactKindV1,
    results: Seq<ChunkResult>,
    evidence: ValidatedEvidenceViewV1,
) -> bool {
    let f = merged_facts(kind, results, evidence.descriptor.utterance_count as int);
    &&& complete_in_order(results, evidence.utterances@)
    &&& evidence_problem(f, evidence.utterances@) is None
    &&& length_fits(kind, f.blocks)
}

/// A new record with the given facts.
pub open spec fn fresh_record(
    r: DerivationRecordV1,
    facts: RecordFacts,
    evidence: EvidenceDescriptorV1,
    context: SourceContextSnapshotV1,
    target: Option<ReadyGenerationTargetV1>,
    path: EffectivePathV1,
    reason: Option<FallbackReasonV1>,
    now: UtcTime,
) -> bool {
    &&& r.schema_version == CONTENT_SCHEMA_VERSION
    &&& r.revision == 1
    &&& r.kind == facts.kind
    &&& r.facts() == facts
    &&& say_nothing(r.validation.checks@)
    &&& r.evidence_identity@ == evidence.identity@
    &&& r.source_context@ == context@
    &&& provenance_for(facts.kind, target, path, reason, r.provenance)
    &&& r.created_at == now
}

/// An optional reference as an optional value.
pub open spec fn value_of(t: Option<&ReadyGenerationTargetV1>) -> Option<ReadyGenerationTargetV1> {
    match t {
        Some(t) => Some(*t),
        None => None,
    }
}

/// A new record of the given blocks, its checks marked as passed.
pub fn build_record(
    kind: ArtifactKindV1,
    evidence: &EvidenceDescriptorV1,
    context: &SourceContextSnapshotV1,
    blocks: Vec<ContentBlockV1>,
    processing_chunks: Vec<ProcessingChunkV1>,
    target: Option<&ReadyGenerationTargetV1>,
    effective_path: EffectivePathV1,
    fallback_reason: Option<FallbackReasonV1>,
    now: UtcTime,
) -> (r: DerivationRecordV1)
    ensures
        fresh_record(
            r,
            RecordFacts {
                kind,
                blocks: blocks@,
                chunks: views(processing_chunks@),
                processed: evidence.utterance_count as int,
                total: evidence.utterance_count as int,
                complete: true,
                status: status_of(blocks@),
                checks: passed_checks(kind),
            },
            *evidence,
            *context,
            value_of(target),
            effective_path,
            fallback_reason,
            now,
        ),
{
    let status = blocks_status(&blocks);
    DerivationRecordV1 {
        schema_version: CONTENT_SCHEMA_VERSION,
        revision: 1,
        kind,
        evidence_identity: evidence.identity.clone(),
        source_context: context.clone(),
        provenance: build_provenance(kind, target, effective_path, fallback_reason),
        blocks,
        validation: ValidationReportV1 {
            processed_utterance_count: evidence.utterance_count,
            total_utterance_count: evidence.utterance_count,
            processing_coverage_complete: true,
            processing_chunks,
            record_source_status: status,
            checks: all_checks_passed(kind),
        },
        created_at: now,
    }
}

#[verifier::loop_isolation(false)]
fn is_complete_in_order(results: &Vec<ChunkResult>, utterances: &Vec<Utterance>) -> (b: bool)
    ensures
        b == complete_in_order(results@, utterances@),
{
    let expected = chunk_utterances(utterances);
    assert(views(expected@).len() == expected@.len());
    if results.len() != expected.len() {
        return false;
    }
    let mut i: usize = 0;
    while i < results.len()
        invariant
            i <= results@.len(),
            forall|j: int|
                0 <= j < i ==> (#[trigger] results@[j]).chunk_index == j && views(
                    results@[j].input_ids@,
                ) == utterance_ids(chunks_of(utterances@)[j]),
        decreases results@.len() - i,
    {
        assert(views(expected@)[i as int] == expected@[i as int]@);
        if results[i].chunk_index != i || !same_texts(&results[i].input_ids, &ids_of(&expected[i])) {
            assert(!(results@[i as int].chunk_index == i && views(results@[i as int].input_ids@)
                == utterance_ids(chunks_of(utterances@)[i as int])));
            return false;
        }
        i += 1;
    }
    let mut seen: Vec<String> = Vec::new();
    let ids = ids_of(utterances);
    assert(views(seen@) =~= Seq::<Seq<char>>::empty());
    let fresh = super::record::add_unseen(&mut seen, &ids);
    assert(Seq::<Seq<char>>::empty() + views(ids@) =~= views(ids@));
    fresh
}

#[verifier::loop_isolation(false)]
fn ledger_entries(results: &Vec<ChunkResult>) -> (r: Vec<ProcessingChunkV1>)
    ensures
        views(r@) == ledger_of(results@),
{
    let mut out: Vec<ProcessingChunkV1> = Vec::new();
    let mut i: usize = 0;
    while i < results.len()
        invariant
            i <= results@.len(),
            views(out@) =~= ledger_of(results@).take(i as int),
        decreases results@.len() - i,
    {
        let e = ProcessingChunkV1 {
            chunk_index: results[i].chunk_index,
            input_utterance_ids: crate::text::copy_texts(&results[i].input_ids),
            output_block_ids: block_ids_of(&results[i].blocks),
        };
        proof {
            views_push(out@, e);
            assert(e@ == ledger_of(results@)[i as int]);
        }
        out.push(e);
        i += 1;
    }
    assert(views(out@) =~= ledger_of(results@));
    out
}

#[verifier::loop_isolation(false)]
fn all_blocks(results: Vec<ChunkResult>) -> (r: Vec<ContentBlockV1>)
    ensures
        r@ == blocks_of(results@, results@.len() as int),
{
    let mut out: Vec<ContentBlockV1> = Vec::new();
    for piece in it: results
        invariant
            it.seq() == results@,
            out@ == blocks_of(results@, it.index()),
    {
        let mut more = piece.blocks;
        out.append(&mut more);
    }
    out
}

/// Puts the pieces together to a record, and keeps it only if it rests on the transcript as
/// its kind demands.
pub fn merge_chunk_results(
    kind: ArtifactKindV1,
    evidence: &ValidatedEvidenceViewV1,
    context: &SourceContextSnapshotV1,
    target: Option<&ReadyGenerationTargetV1>,
    effective_path: EffectivePathV1,
    fallback_reason: Option<FallbackReasonV1>,
    chunks: Vec<ChunkResult>,
    now: UtcTime,
) -> (r: Result<DerivationRecordV1, GenerationPortError>)
    ensures
        match r {
            Ok(record) => mergeable(kind, chunks@, *evidence) && fresh_record(
                record,
                merged_facts(kind, chunks@, evidence.descriptor.utterance_count as int),
                evidence.descriptor,
                *context,
                value_of(target),
                effective_path,
                fallback_reason,
                now,
            ),
            Err(e) => e is ResponseInvalid && !mergeable(kind, chunks@, *evidence),
        },
{
    if !is_complete_in_order(&chunks, &evidence.utterances) {
        return Err(GenerationPortError::ResponseInvalid);
    }
    let ledger = ledger_entries(&chunks);
    let blocks = all_blocks(chunks);
    let record = build_record(
        kind,
        &evidence.descriptor,
        context,
        blocks,
        ledger,
        target,
        effective_path,
        fallback_reason,
        now,
    );
    if validate_record_against_evidence(&record, &evidence.utterances).is_err() {
        return Err(GenerationPortError::ResponseInvalid);
    }
    if validate_summary_tier_length(kind, &record.blocks).is_err() {
        return Err(GenerationPortError::ResponseInvalid);
    }
    Ok(record)
}

// ---- What accepted records hold ----

/// The identifiers that the references of some blocks name, one behind the other.
pub open spec fn named_by_blocks(blocks: Seq<ContentBlockV1>) -> Seq<Seq<char>> {
    blocks.map_values(|b: ContentBlockV1| named_ids(b.source_refs@)).flatten()
}

proof fn used_are_named(blocks: Seq<ContentBlockV1>, us: Seq<Utterance>, n: int)
    requires
        0 <= n <= blocks.len(),
        forall|i: int|
            0 <= i < blocks.len() ==> (#[trigger] blocks[i]).source_status is Mapped && refs_outcome(
                blocks[i].source_refs@,
                us,
            ) is Ok,
    ensures
        named_by_blocks(blocks.take(n)) == all_used(blocks, us, n).map_values(|p: int| us[p].id@),
        forall|k: int| 0 <= k < all_used(blocks, us, n).len() ==> 0 <= #[trigger] all_used(blocks, us, n)[k] < us.len(),
    decreases n,
{
    let f = |b: ContentBlockV1| named_ids(b.source_refs@);
    let g = |p: int| us[p].id@;
    if n > 0 {
        used_are_named(blocks, us, n - 1);
        let b = blocks[n - 1];
        assert(b.source_status is Mapped);
        accepted_references_use_what_they_name(b.source_refs@, us);
        let own = used_by(b, us);
        assert(named_ids(b.source_refs@) =~= own.map_values(g));
        assert(blocks.take(n).map_values(f) =~= blocks.take(n - 1).map_values(f).push(f(b)));
        blocks.take(n - 1).map_values(f).lemma_flatten_push(f(b));
        let before = all_used(blocks, us, n - 1);
        assert((before + own).map_values(g) =~= before.map_values(g) + own.map_values(g));
        assert forall|k: int| 0 <= k < (before + own).len() implies 0 <= #[trigger] (before + own)[k] < us.len() by {
            if k >= before.len() {
                assert((before + own)[k] == own[k - before.len()]);
            }
        }
    } else {
        assert(blocks.take(n).map_values(f) =~= Seq::<Seq<Seq<char>>>::empty());
        assert(all_used(blocks, us, n).map_values(g) =~= Seq::<Seq<char>>::empty());
    }
}

proof fn no_block_is_limited(f: RecordFacts, us: Seq<Utterance>)
    requires
        evidence_problem(f, us) is None,
        f.status is Mapped,
    ensures
        forall|i: int|
            0 <= i < f.blocks.len() ==> (#[trigger] f.blocks[i]).source_status is Mapped && refs_outcome(
                f.blocks[i].source_refs@,
                us,
            ) is Ok,
{
    assert(shape_problem(f) is None);
    assert(status_of(f.blocks) == f.status);
    assert forall|i: int| 0 <= i < f.blocks.len() implies (#[trigger] f.blocks[i]).source_status is Mapped
        && refs_outcome(f.blocks[i].source_refs@, us) is Ok by {
        every_block_was_accepted(f.kind, f.blocks, us, 0, i);
    }
}

/// The blocks of an accepted faithful text, and accepted chapters that all have sources, name
/// every utterance of the transcript once, in the order in which they were spoken, and nothing
/// else.
pub proof fn accepted_blocks_name_every_utterance_once(f: RecordFacts, us: Seq<Utterance>)
    requires
        f.kind is FaithfulText || (f.kind is Chapters && f.status is Mapped),
        evidence_problem(f, us) is None,
    ensures
        named_by_blocks(f.blocks) == us.map_values(|u: Utterance| u.id@),
{
    no_block_is_limited(f, us);
    used_are_named(f.blocks, us, f.blocks.len() as int);
    assert(f.blocks.take(f.blocks.len() as int) =~= f.blocks);
    let used = all_used(f.blocks, us, f.blocks.len() as int);
    assert(used.map_values(|p: int| us[p].id@) =~= us.map_values(|u: Utterance| u.id@));
}

proof fn line_breaks_are_no_letters(us: Seq<Utterance>, used: Seq<int>)
    ensures
        letters(lines_at(us, used)) == letters(Seq::new(used.len(), |k: int| us[used[k]].text@).flatten()),
        digits_in(lines_at(us, used)) == digits_in(Seq::new(used.len(), |k: int| us[used[k]].text@).flatten()),
    decreases used.len(),
{
    let lines = Seq::new(used.len(), |k: int| us[used[k]].text@.push('\n'));
    let texts = Seq::new(used.len(), |k: int| us[used[k]].text@);
    if used.len() > 0 {
        let r = used.drop_last();
        line_breaks_are_no_letters(us, r);
        let t = us[used.last()].text@;
        let fewer_lines = Seq::new(r.len(), |k: int| us[r[k]].text@.push('\n'));
        let fewer_texts = Seq::new(r.len(), |k: int| us[r[k]].text@);
        assert(lines =~= fewer_lines.push(t.push('\n')));
        assert(texts =~= fewer_texts.push(t));
        fewer_lines.lemma_flatten_push(t.push('\n'));
        fewer_texts.lemma_flatten_push(t);
        letters_add(fewer_lines.flatten(), t.push('\n'));
        letters_add(fewer_texts.flatten(), t);
        letters_add(t, seq!['\n']);
        letters_of_one('\n');
        digits_add(fewer_lines.flatten(), t.push('\n'));
        digits_add(fewer_texts.flatten(), t);
        digits_add(t, seq!['\n']);
        no_digits_in(seq!['\n']);
        assert(t + seq!['\n'] =~= t.push('\n'));
        assert(letters(t) + Seq::<char>::empty() =~= letters(t));
        assert(digits_in(t) + Seq::<char>::empty() =~= digits_in(t));
    } else {
        assert(lines =~= Seq::<Seq<char>>::empty());
        assert(texts =~= Seq::<Seq<char>>::empty());
    }
}

/// What some blocks say, one behind the other.
pub open spec fn said_by_blocks(blocks: Seq<ContentBlockV1>) -> Seq<char> {
    blocks.map_values(|b: ContentBlockV1| b.text@).flatten()
}

proof fn blocks_keep_letters(blocks: Seq<ContentBlockV1>, us: Seq<Utterance>, n: int)
    requires
        0 <= n <= blocks.len(),
        forall|i: int|
            0 <= i < blocks.len() ==> (#[trigger] blocks[i]).source_status is Mapped && refs_outcome(
                blocks[i].source_refs@,
                us,
            ) is Ok,
        forall|i: int|
            0 <= i < blocks.len() ==> block_source_problem(ArtifactKindV1::FaithfulText, #[trigger] blocks[i], us) is None,
    ensures
        ({
            let used = all_used(blocks, us, n);
            let texts = Seq::new(used.len(), |k: int| us[used[k]].text@).flatten();
            &&& letters(said_by_blocks(blocks.take(n))) == letters(texts)
            &&& digits_in(said_by_blocks(blocks.take(n))) == digits_in(texts)
        }),
    decreases n,
{
    let f = |b: ContentBlockV1| b.text@;
    if n > 0 {
        blocks_keep_letters(blocks, us, n - 1);
        let b = blocks[n - 1];
        assert(b.source_status is Mapped);
        assert(block_source_problem(ArtifactKindV1::FaithfulText, b, us) is None);
        let own = used_by(b, us);
        the_text_behind_references_is_what_was_said(b.source_refs@, us);
        a_faithful_text_keeps_every_letter(lines_at(us, own), b.text@);
        a_faithful_text_keeps_every_digit(lines_at(us, own), b.text@);
        line_breaks_are_no_letters(us, own);
        let before = all_used(blocks, us, n - 1);
        let all = before + own;
        let x = Seq::new(before.len(), |k: int| us[before[k]].text@);
        let y = Seq::new(own.len(), |k: int| us[own[k]].text@);
        let z = Seq::new(all.len(), |k: int| us[all[k]].text@);
        assert(z =~= x + y);
        vstd::seq_lib::lemma_flatten_concat(x, y);
        letters_add(x.flatten(), y.flatten());
        digits_add(x.flatten(), y.flatten());
        let less = blocks.take(n - 1).map_values(f);
        assert(blocks.take(n).map_values(f) =~= less.push(b.text@));
        less.lemma_flatten_push(b.text@);
        letters_add(less.flatten(), b.text@);
        digits_add(less.flatten(), b.text@);
    } else {
        let used = all_used(blocks, us, n);
        assert(blocks.take(n).map_values(f) =~= Seq::<Seq<char>>::empty());
        assert(Seq::new(used.len(), |k: int| us[used[k]].text@) =~= Seq::<Seq<char>>::empty());
    }
}

/// An accepted faithful text is the transcript, letter for letter and digit for digit: only
/// punctuation, spaces and case can differ.
pub proof fn an_accepted_faithful_text_keeps_every_letter(f: RecordFacts, us: Seq<Utterance>)
    requires
        f.kind is FaithfulText,
        evidence_problem(f, us) is None,
    ensures
        letters(said_by_blocks(f.blocks)) == letters(us.map_values(|u: Utterance| u.text@).flatten()),
        digits_in(said_by_blocks(f.blocks)) == digits_in(us.map_values(|u: Utterance| u.text@).flatten()),
{
    no_block_is_limited(f, us);
    assert forall|i: int| 0 <= i < f.blocks.len() implies block_source_problem(
        ArtifactKindV1::FaithfulText,
        #[trigger] f.blocks[i],
        us,
    ) is None by {
        every_block_was_accepted(f.kind, f.blocks, us, 0, i);
    }
    let n = f.blocks.len() as int;
    blocks_keep_letters(f.blocks, us, n);
    assert(f.blocks.take(n) =~= f.blocks);
    let used = all_used(f.blocks, us, n);
    assert(Seq::new(used.len(), |k: int| us[used[k]].text@) =~= us.map_values(|u: Utterance| u.text@));
}

/// The blocks of a merged record are those of its pieces, one piece behind the other, and so is
/// the list of what each piece gave.
pub proof fn a_merged_record_has_every_block(kind: ArtifactKindV1, results: Seq<ChunkResult>, count: int)
    ensures
        merged_facts(kind, results, count).blocks == results.map_values(|r: ChunkResult| r.blocks@).flatten(),
        merged_facts(kind, results, count).chunks.len() == results.len(),
        forall|i: int|
            0 <= i < results.len() ==> {
                let c = #[trigger] merged_facts(kind, results, count).chunks[i];
                &&& c.index == results[i].chunk_index
                &&& c.inputs == results[i].input_ids@.map_values(|id: String| id@)
                &&& c.outputs == results[i].blocks@.map_values(|b: ContentBlockV1| b.id@)
            },
{
    blocks_follow_on(results, results.len() as int);
    assert(results.take(results.len() as int) =~= results);
    assert forall|i: int| 0 <= i < results.len() implies {
        let c = #[trigger] merged_facts(kind, results, count).chunks[i];
        &&& c.index == results[i].chunk_index
        &&& c.inputs == results[i].input_ids@.map_values(|id: String| id@)
        &&& c.outputs == results[i].blocks@.map_values(|b: ContentBlockV1| b.id@)
    } by {
        assert(block_ids(results[i].blocks@) =~= results[i].blocks@.map_values(|b: ContentBlockV1| b.id@));
        assert(views(results[i].input_ids@) =~= results[i].input_ids@.map_values(|id: String| id@));
    }
}

proof fn blocks_follow_on(results: Seq<ChunkResult>, n: int)
    requires
        0 <= n <= results.len(),
    ensures
        blocks_of(results, n) == results.take(n).map_values(|r: ChunkResult| r.blocks@).flatten(),
    decreases n,
{
    let f = |r: ChunkResult| r.blocks@;
    if n > 0 {
        blocks_follow_on(results, n - 1);
        assert(results.take(n).map_values(f) =~= results.take(n - 1).map_values(f).push(f(results[n - 1])));
        results.take(n - 1).map_values(f).lemma_flatten_push(f(results[n - 1]));
    } else {
        assert(results.take(n).map_values(f) =~= Seq::<Seq<ContentBlockV1>>::empty());
    }
}

/// A generated block is taken over with its title, text and references as they are; blocks of
/// different names, or of different pieces with numbers of one length, keep different names.
pub proof fn a_generated_block_keeps_its_words(
    kind: ArtifactKindV1,
    chunk: int,
    g: GeneratedBlock,
    b: ContentBlockV1,
    h: GeneratedBlock,
    c: ContentBlockV1,
)
    requires
        taken_over(kind, chunk, g, b),
        taken_over(kind, chunk, h, c),
    ensures
        b.text@ == g.text@,
        b.title == g.title,
        b.source_refs@ == g.source_refs@,
        b.source_status is Mapped <==> g.source_refs@.len() > 0,
        g.id@.is_suffix_of(b.id@),
        b.id@ == c.id@ <==> g.id@ == h.id@,
{
    let head = "chunk-"@ + dec(chunk as nat) + "-"@;
    assert(b.id@.subrange((b.id@.len() - g.id@.len()) as int, b.id@.len() as int) =~= g.id@);
    assert(b.id@.skip(head.len() as int) =~= g.id@);
    assert(c.id@.skip(head.len() as int) =~= h.id@);
}

/// A block that is kept says what it said. It loses its references exactly where it makes a claim
/// that they do not support, and is then marked as limited.
pub proof fn a_kept_block_says_the_same(
    kind: ArtifactKindV1,
    b: ContentBlockV1,
    piece: Seq<Utterance>,
    out: ContentBlockV1,
)
    requires
        kept(kind, b, piece, out),
    ensures
        out.text@ == b.text@,
        out.title == b.title,
        out.id@ == b.id@,
        out.role == b.role,
        out.source_refs@ == b.source_refs@ || (out.source_refs@.len() == 0 && out.source_status is Limited),
        claims(kind) && b.source_status is Mapped && claim_complaint(kind, b, piece) is Some
            ==> out.source_status is Limited && out.source_refs@.len() == 0,
        !(claims(kind) && b.source_status is Mapped && claim_complaint(kind, b, piece) is Some) ==> out == b,
{
}

/// A short summary has at most 300 characters, one of the usual length 150 to 750, a long one 400
/// to 2250; where more than one word in English stands for two characters, words count instead,
/// at three for five characters. Nothing else has a limit.
pub proof fn summaries_have_their_length(kind: ArtifactKindV1, cjk: int, words: int)
    requires
        0 <= cjk,
        0 <= words,
    ensures
        words * 2 <= cjk && kind is ShortSummary ==> (fits_tier(kind, cjk, words) <==> cjk <= 300),
        words * 2 <= cjk && kind is DefaultSummary ==> (fits_tier(kind, cjk, words) <==> 150 <= cjk <= 750),
        words * 2 <= cjk && kind is LongSummary ==> (fits_tier(kind, cjk, words) <==> 400 <= cjk <= 2250),
        words * 2 > cjk && kind is ShortSummary ==> (fits_tier(kind, cjk, words) <==> words <= 300 * 3 / 5),
        words * 2 > cjk && kind is DefaultSummary ==> (fits_tier(kind, cjk, words) <==> 150 * 3 / 5 <= words <= 750 * 3
            / 5),
        words * 2 > cjk && kind is LongSummary ==> (fits_tier(kind, cjk, words) <==> 400 * 3 / 5 <= words <= 2250 * 3
            / 5),
        kind !is ShortSummary && kind !is DefaultSummary && kind !is LongSummary ==> fits_tier(kind, cjk, words),
{
}

/// A block can be used where its references can be followed; a chapter needs a title besides.
pub proof fn a_block_that_can_be_used(kind: ArtifactKindV1, b: ContentBlockV1, piece: Seq<Utterance>)
    ensures
        usable(kind, b, piece) ==> refs_outcome(b.source_refs@, piece) is Ok,
        usable(kind, b, piece) && kind is Chapters ==> b.title is Some && !blank((b.title->0)@),
        !(kind is Chapters) ==> (usable(kind, b, piece) <==> refs_outcome(b.source_refs@, piece) is Ok),
        refs_outcome(b.source_refs@, piece) is Ok && b.title is Some && !blank((b.title->0)@) ==> usable(kind, b, piece),
{
}

} // verus!
