//! Records, blocks and the checks on their shape.

use vstd::prelude::*;
use super::error::{ContentSchemaError, SchemaProblem, broken, found, violation};
use super::evidence::SourceContextSnapshotV1;
use super::kinds::{
    ArtifactKindV1, ContentBlockRoleV1, FailureCodeV1, SourceStatusV1, expected_role, recipe_id, recipe_of,
    role_of,
};
use super::provenance::DerivationProvenanceV1;
use super::target::{is_sanitized, sanitized};
use crate::text::{blank, cat2, is_blank, lists, same, text, views};

verus! {

/// A moment, as seconds and nanoseconds since the beginning of 1970 UTC.
#[derive(Debug, Clone, Copy, PartialEq, Eq, Structural)]
pub struct UtcTime {
    pub seconds: i64,
    pub nanoseconds: u32,
}

impl UtcTime {
    /// The moment lies in the years -262143 to 262142, and a second longer than a whole one is
    /// the last of its minute.
    pub open spec fn valid(&self) -> bool {
        &&& -8334601228800 <= self.seconds <= 8210266876799
        &&& self.nanoseconds < 2000000000
        &&& self.nanoseconds >= 1000000000 ==> self.seconds % 60 == 59
    }

    /// Whether this is a moment that can be written.
    pub fn is_valid(&self) -> (b: bool)
        ensures
            b == self.valid(),
    {
        if self.seconds < -8334601228800 || self.seconds > 8210266876799 {
            return false;
        }
        if self.nanoseconds < 1000000000 {
            return true;
        }
        let since_first: u64 = (self.seconds + 8334601228800) as u64;
        assert(since_first % 60 == self.seconds % 60) by (nonlinear_arith)
            requires
                since_first == self.seconds + 8334601228800,
        ;
        self.nanoseconds < 2000000000 && since_first % 60 == 59
    }
}

/// The text that `to_rfc3339` writes for a moment.
pub uninterp spec fn rfc3339(seconds: i64, nanoseconds: u32) -> Seq<char>;

/// `chrono::DateTime::from_timestamp` and `to_rfc3339` on what it gives: the date and time of a
/// moment in UTC, a function of the moment alone. A valid moment always has one. What the text
/// looks like is not stated.
#[verifier::external_body]
pub(crate) fn time_text(t: UtcTime) -> (r: String)
    requires
        t.valid(),
    ensures
        r@ == rfc3339(t.seconds, t.nanoseconds),
{
    chrono::DateTime::<chrono::Utc>::from_timestamp(t.seconds, t.nanoseconds).unwrap().to_rfc3339()
}

/// A run of consecutive utterances that a block rests on.
#[derive(Debug, Clone, PartialEq, Eq)]
pub struct SourceRefV1 {
    pub utterance_ids: Vec<String>,
    pub start_ms: u64,
    pub end_ms: u64,
}

/// One paragraph, claim or chapter of a record.
#[derive(Debug, Clone, PartialEq, Eq)]
pub struct ContentBlockV1 {
    pub id: String,
    pub role: ContentBlockRoleV1,
    pub title: Option<String>,
    pub text: String,
    pub source_refs: Vec<SourceRefV1>,
    pub source_status: SourceStatusV1,
}

/// What one piece of the transcript went into and what came out of it.
#[derive(Debug, Clone, PartialEq, Eq)]
pub struct ProcessingChunkV1 {
    pub chunk_index: usize,
    pub input_utterance_ids: Vec<String>,
    pub output_block_ids: Vec<String>,
}

/// The mathematical value of a `ProcessingChunkV1`.
pub struct ChunkView {
    pub index: int,
    pub inputs: Seq<Seq<char>>,
    pub outputs: Seq<Seq<char>>,
}

impl View for ProcessingChunkV1 {
    type V = ChunkView;

    open spec fn view(&self) -> ChunkView {
        ChunkView {
            index: self.chunk_index as int,
            inputs: views(self.input_utterance_ids@),
            outputs: views(self.output_block_ids@),
        }
    }
}

/// A named check and its outcome.
#[derive(Debug, Clone, PartialEq, Eq)]
pub struct ValidationCheckV1 {
    pub name: String,
    pub passed: bool,
    pub message: Option<String>,
}

/// The names of checks, each with its outcome. What a check says beside is not looked at.
pub open spec fn outcomes(checks: Seq<ValidationCheckV1>) -> Seq<(Seq<char>, bool)> {
    Seq::new(checks.len(), |i: int| (checks[i].name@, checks[i].passed))
}

/// No check says anything beside its outcome.
pub open spec fn say_nothing(checks: Seq<ValidationCheckV1>) -> bool {
    forall|i: int| 0 <= i < checks.len() ==> (#[trigger] checks[i]).message is None
}

/// What was checked before a record was kept.
#[derive(Debug, Clone, PartialEq, Eq)]
pub struct ValidationReportV1 {
    pub processed_utterance_count: usize,
    pub total_utterance_count: usize,
    pub processing_coverage_complete: bool,
    pub processing_chunks: Vec<ProcessingChunkV1>,
    pub record_source_status: SourceStatusV1,
    pub checks: Vec<ValidationCheckV1>,
}

/// A text of one kind, with everything that is known of its making.
#[derive(Debug, Clone, PartialEq)]
pub struct DerivationRecordV1 {
    pub schema_version: u32,
    pub revision: u32,
    pub kind: ArtifactKindV1,
    pub evidence_identity: String,
    pub source_context: SourceContextSnapshotV1,
    pub provenance: DerivationProvenanceV1,
    pub blocks: Vec<ContentBlockV1>,
    pub validation: ValidationReportV1,
    pub created_at: UtcTime,
}

/// Why the latest attempt at a kind brought no record.
#[derive(Debug, Clone, PartialEq, Eq)]
pub struct DerivationFailureV1 {
    pub code: FailureCodeV1,
    pub message: String,
    pub retryable: bool,
    pub occurred_at: UtcTime,
}

impl DerivationFailureV1 {
    /// What is wrong with the failure.
    pub open spec fn problem(&self) -> Option<SchemaProblem> {
        if sanitized(self.message@) {
            None
        } else {
            broken("derivation failure must be a short sanitized sentence"@)
        }
    }

    /// Accepts a failure that may be stored.
    pub fn validate(&self) -> (r: Result<(), ContentSchemaError>)
        ensures
            found(r) == self.problem(),
    {
        if !is_sanitized(self.message.as_str()) {
            return Err(violation("derivation failure must be a short sanitized sentence"));
        }
        Ok(())
    }
}

/// The last check of a kind.
pub open spec fn kind_check(kind: ArtifactKindV1) -> Seq<char> {
    match kind {
        ArtifactKindV1::FaithfulText => "faithful_alignment"@,
        ArtifactKindV1::Chapters => "chapter_partition"@,
        _ => "supporting_claims"@,
    }
}

/// The checks that a record of a kind must have passed, in order.
pub open spec fn checks_of(kind: ArtifactKindV1) -> Seq<Seq<char>> {
    seq!["schema"@, "processing_coverage"@, "source_refs"@, kind_check(kind)]
}

/// The checks that a record of a kind must have passed, in order.
pub fn required_validation_checks(kind: ArtifactKindV1) -> (r: [&'static str; 4])
    ensures
        views(r@) == checks_of(kind),
{
    let last = match kind {
        ArtifactKindV1::FaithfulText => "faithful_alignment",
        ArtifactKindV1::DefaultSummary | ArtifactKindV1::ShortSummary
        | ArtifactKindV1::LongSummary | ArtifactKindV1::Highlights => "supporting_claims",
        ArtifactKindV1::Chapters => "chapter_partition",
    };
    let r = ["schema", "processing_coverage", "source_refs", last];
    assert(views(r@) =~= checks_of(kind));
    r
}

/// The identifiers of a list of blocks.
pub open spec fn block_ids(blocks: Seq<ContentBlockV1>) -> Seq<Seq<char>> {
    Seq::new(blocks.len(), |i: int| blocks[i].id@)
}

/// The output blocks of the first `n` chunks, one after the other.
pub open spec fn output_ids(chunks: Seq<ChunkView>, n: int) -> Seq<Seq<char>>
    decreases n,
{
    if n <= 0 {
        Seq::empty()
    } else {
        output_ids(chunks, n - 1) + chunks[n - 1].outputs
    }
}

/// Chunks are numbered in order, none is empty, and no output is named twice.
pub open spec fn ledger_in_order(chunks: Seq<ChunkView>) -> bool {
    &&& forall|i: int|
        0 <= i < chunks.len() ==> (#[trigger] chunks[i]).index == i && chunks[i].inputs.len() > 0
            && chunks[i].outputs.len() > 0
    &&& output_ids(chunks, chunks.len() as int).no_duplicates()
}

/// The title of a chapter is there and says something.
pub open spec fn has_title(title: Option<String>) -> bool {
    title is Some && !blank((title->0)@)
}

/// Whether a title is there and says something.
pub fn is_titled(title: &Option<String>) -> (b: bool)
    ensures
        b == has_title(*title),
{
    match title {
        Some(t) => !is_blank(t.as_str()),
        None => false,
    }
}

/// What is wrong with block `i` of a record.
pub open spec fn block_problem(kind: ArtifactKindV1, blocks: Seq<ContentBlockV1>, i: int) -> Option<
    SchemaProblem,
> {
    let b = blocks[i];
    if blank(b.id@) || block_ids(blocks).take(i).contains(b.id@) {
        broken("record block ids must be non-empty and unique"@)
    } else if b.role != role_of(kind) || blank(b.text@) {
        broken(recipe_of(kind) + " block role or text is invalid"@)
    } else if kind is FaithfulText && b.title is Some {
        broken("faithful blocks must not carry titles"@)
    } else if kind is Chapters && !has_title(b.title) {
        broken("chapter blocks must have a non-empty title"@)
    } else if b.source_refs@.len() == 0 && b.source_status != SourceStatusV1::Limited {
        broken("a block without refs must be limited"@)
    } else if b.source_refs@.len() > 0 && b.source_status != SourceStatusV1::Mapped {
        broken("a block with refs must be mapped"@)
    } else {
        None
    }
}

/// The first problem of the blocks from `i` on.
pub open spec fn blocks_problem(kind: ArtifactKindV1, blocks: Seq<ContentBlockV1>, i: int) -> Option<
    SchemaProblem,
>
    decreases blocks.len() - i,
{
    if i < 0 || i >= blocks.len() {
        None
    } else if block_problem(kind, blocks, i) is Some {
        block_problem(kind, blocks, i)
    } else {
        blocks_problem(kind, blocks, i + 1)
    }
}

/// Limited as soon as one block is.
pub open spec fn status_of(blocks: Seq<ContentBlockV1>) -> SourceStatusV1 {
    if exists|i: int| 0 <= i < blocks.len() && (#[trigger] blocks[i]).source_status is Limited {
        SourceStatusV1::Limited
    } else {
        SourceStatusV1::Mapped
    }
}

/// The checks of a kind, all passed.
pub open spec fn passed_checks(kind: ArtifactKindV1) -> Seq<(Seq<char>, bool)> {
    Seq::new(4, |i: int| (checks_of(kind)[i], true))
}

/// What the checks on a record look at, apart from its provenance.
pub struct RecordFacts {
    pub kind: ArtifactKindV1,
    pub blocks: Seq<ContentBlockV1>,
    pub chunks: Seq<ChunkView>,
    pub processed: int,
    pub total: int,
    pub complete: bool,
    pub status: SourceStatusV1,
    pub checks: Seq<(Seq<char>, bool)>,
}

/// What is wrong with the shape of a record.
pub open spec fn shape_problem(f: RecordFacts) -> Option<SchemaProblem> {
    if f.blocks.len() == 0 {
        broken(recipe_of(f.kind) + " record must contain a block"@)
    } else if f.total == 0 || f.processed != f.total || !f.complete || f.chunks.len() == 0 {
        broken(recipe_of(f.kind) + " record does not prove complete processing coverage"@)
    } else if !ledger_in_order(f.chunks) {
        broken("processing chunk ledger is not ordered or contains duplicate/missing IDs"@)
    } else if blocks_problem(f.kind, f.blocks, 0) is Some {
        blocks_problem(f.kind, f.blocks, 0)
    } else if status_of(f.blocks) != f.status {
        broken("record source status does not match its blocks"@)
    } else if f.checks != passed_checks(f.kind) {
        broken("record validation checks are incomplete, out of order, or failed"@)
    } else {
        None
    }
}

impl DerivationRecordV1 {
    /// What the checks look at.
    pub open spec fn facts(&self) -> RecordFacts {
        RecordFacts {
            kind: self.kind,
            blocks: self.blocks@,
            chunks: views(self.validation.processing_chunks@),
            processed: self.validation.processed_utterance_count as int,
            total: self.validation.total_utterance_count as int,
            complete: self.validation.processing_coverage_complete,
            status: self.validation.record_source_status,
            checks: outcomes(self.validation.checks@),
        }
    }
}

/// Adds texts to a list of distinct ones, as long as they stay distinct.
pub(crate) fn add_unseen(seen: &mut Vec<String>, more: &Vec<String>) -> (fresh: bool)
    requires
        views(old(seen)@).no_duplicates(),
    ensures
        fresh == (views(old(seen)@) + views(more@)).no_duplicates(),
        fresh ==> views(final(seen)@) == views(old(seen)@) + views(more@),
{
    let ghost all = views(seen@) + views(more@);
    let mut i: usize = 0;
    assert(all.take(seen@.len() as int) =~= views(seen@));
    while i < more.len()
        invariant
            i <= more@.len(),
            all == views(old(seen)@) + views(more@),
            views(seen@) =~= all.take(old(seen)@.len() + i),
            views(seen@).no_duplicates(),
        decreases more@.len() - i,
    {
        let ghost k = old(seen)@.len() + i;
        assert(all[k as int] == more@[i as int]@);
        if lists(seen, more[i].as_str()) {
            proof {
                let j = choose|j: int| 0 <= j < views(seen@).len() && views(seen@)[j] == more@[i as int]@;
                assert(all[j] == all[k as int] && j != k);
            }
            return false;
        }
        seen.push(more[i].clone());
        proof {
            assert(views(seen@) =~= all.take(k + 1));
            assert forall|a: int, b: int| 0 <= a < views(seen@).len() && 0 <= b < views(seen@).len() && a != b
                implies views(seen@)[a] != views(seen@)[b] by {
                if a == k {
                    assert(views(seen@)[b] == all.take(k as int)[b]);
                } else if b == k {
                    assert(views(seen@)[a] == all.take(k as int)[a]);
                } else {
                    assert(views(seen@)[a] == all.take(k as int)[a]);
                    assert(views(seen@)[b] == all.take(k as int)[b]);
                }
            }
        }
        i += 1;
    }
    assert(views(seen@) =~= all);
    true
}

proof fn output_ids_prefix(chunks: Seq<ChunkView>, i: int, n: int)
    requires
        0 <= i <= n <= chunks.len(),
        output_ids(chunks, n).no_duplicates(),
    ensures
        output_ids(chunks, i).no_duplicates(),
    decreases n - i,
{
    if i < n {
        let a = output_ids(chunks, n - 1);
        let b = output_ids(chunks, n);
        assert forall|x: int, y: int| 0 <= x < a.len() && 0 <= y < a.len() && x != y implies a[x] != a[y] by {
            assert(b[x] == a[x] && b[y] == a[y]);
        }
        output_ids_prefix(chunks, i, n - 1);
    }
}

fn is_ledger_in_order(chunks: &Vec<ProcessingChunkV1>) -> (b: bool)
    ensures
        b == ledger_in_order(views(chunks@)),
{
    let ghost ledger = views(chunks@);
    let mut seen: Vec<String> = Vec::new();
    let mut i: usize = 0;
    assert(views(seen@) =~= Seq::<Seq<char>>::empty());
    while i < chunks.len()
        invariant
            i <= chunks@.len(),
            ledger == views(chunks@),
            views(seen@) == output_ids(ledger, i as int),
            views(seen@).no_duplicates(),
            forall|j: int|
                0 <= j < i ==> (#[trigger] ledger[j]).index == j && ledger[j].inputs.len() > 0
                    && ledger[j].outputs.len() > 0,
        decreases chunks@.len() - i,
    {
        let chunk = &chunks[i];
        assert(ledger[i as int] == chunk@);
        if chunk.chunk_index != i || chunk.input_utterance_ids.len() == 0
            || chunk.output_block_ids.len() == 0 {
            return false;
        }
        if !add_unseen(&mut seen, &chunk.output_block_ids) {
            proof {
                if output_ids(ledger, ledger.len() as int).no_duplicates() {
                    output_ids_prefix(ledger, i + 1, ledger.len() as int);
                }
            }
            return false;
        }
        i += 1;
    }
    true
}

fn check_block(kind: ArtifactKindV1, blocks: &Vec<ContentBlockV1>, ids: &Vec<String>, i: usize) -> (r:
    Result<(), ContentSchemaError>)
    requires
        i < blocks@.len(),
        views(ids@) == block_ids(blocks@).take(i as int),
    ensures
        found(r) == block_problem(kind, blocks@, i as int),
{
    let b = &blocks[i];
    if is_blank(b.id.as_str()) || lists(ids, b.id.as_str()) {
        return Err(violation("record block ids must be non-empty and unique"));
    }
    if b.role != expected_role(kind) || is_blank(b.text.as_str()) {
        return Err(
            ContentSchemaError::Invariant(cat2(recipe_id(kind), " block role or text is invalid")),
        );
    }
    if kind == ArtifactKindV1::FaithfulText && b.title.is_some() {
        return Err(violation("faithful blocks must not carry titles"));
    }
    if kind == ArtifactKindV1::Chapters && !is_titled(&b.title) {
        return Err(violation("chapter blocks must have a non-empty title"));
    }
    if b.source_refs.len() == 0 {
        if b.source_status != SourceStatusV1::Limited {
            return Err(violation("a block without refs must be limited"));
        }
    } else if b.source_status != SourceStatusV1::Mapped {
        return Err(violation("a block with refs must be mapped"));
    }
    Ok(())
}

fn check_blocks(kind: ArtifactKindV1, blocks: &Vec<ContentBlockV1>) -> (r: Result<
    (),
    ContentSchemaError,
>)
    ensures
        found(r) == blocks_problem(kind, blocks@, 0),
{
    let mut ids: Vec<String> = Vec::new();
    let mut i: usize = 0;
    assert(views(ids@) =~= block_ids(blocks@).take(0));
    while i < blocks.len()
        invariant
            i <= blocks@.len(),
            views(ids@) == block_ids(blocks@).take(i as int),
            blocks_problem(kind, blocks@, 0) == blocks_problem(kind, blocks@, i as int),
        decreases blocks@.len() - i,
    {
        if let Err(e) = check_block(kind, blocks, &ids, i) {
            return Err(e);
        }
        let ghost before = ids@;
        ids.push(blocks[i].id.clone());
        proof {
            crate::text::views_push(before, blocks@[i as int].id);
            assert(views(ids@) =~= block_ids(blocks@).take(i + 1));
        }
        i += 1;
    }
    Ok(())
}

/// The status of a list of blocks: limited as soon as one is.
pub fn blocks_status(blocks: &Vec<ContentBlockV1>) -> (r: SourceStatusV1)
    ensures
        r == status_of(blocks@),
{
    let mut i: usize = 0;
    while i < blocks.len()
        invariant
            i <= blocks@.len(),
            forall|j: int| 0 <= j < i ==> !((#[trigger] blocks@[j]).source_status is Limited),
        decreases blocks@.len() - i,
    {
        if blocks[i].source_status == SourceStatusV1::Limited {
            assert(blocks@[i as int].source_status is Limited);
            return SourceStatusV1::Limited;
        }
        i += 1;
    }
    SourceStatusV1::Mapped
}

fn are_checks_passed(kind: ArtifactKindV1, checks: &Vec<ValidationCheckV1>) -> (b: bool)
    ensures
        b == (outcomes(checks@) == passed_checks(kind)),
{
    let required = required_validation_checks(kind);
    if checks.len() != 4 {
        assert(outcomes(checks@).len() != 4);
        return false;
    }
    let mut i: usize = 0;
    while i < 4
        invariant
            i <= 4,
            checks@.len() == 4,
            views(required@) == checks_of(kind),
            forall|j: int| 0 <= j < i ==> (#[trigger] outcomes(checks@)[j]) == passed_checks(kind)[j],
        decreases 4 - i,
    {
        assert(views(required@)[i as int] == required@[i as int]@);
        if !same(checks[i].name.as_str(), required[i]) || !checks[i].passed {
            assert(outcomes(checks@)[i as int] != passed_checks(kind)[i as int]);
            return false;
        }
        i += 1;
    }
    assert(outcomes(checks@) =~= passed_checks(kind));
    true
}

/// The checks of a kind, all passed.
pub fn all_checks_passed(kind: ArtifactKindV1) -> (r: Vec<ValidationCheckV1>)
    ensures
        outcomes(r@) == passed_checks(kind),
        say_nothing(r@),
{
    let required = required_validation_checks(kind);
    let mut out: Vec<ValidationCheckV1> = Vec::new();
    let mut i: usize = 0;
    while i < 4
        invariant
            i <= 4,
            views(required@) == checks_of(kind),
            outcomes(out@) =~= passed_checks(kind).take(i as int),
            say_nothing(out@),
        decreases 4 - i,
    {
        assert(views(required@)[i as int] == required@[i as int]@);
        let check = ValidationCheckV1 { name: text(required[i]), passed: true, message: None };
        assert(outcomes(out@.push(check)) =~= outcomes(out@).push((check.name@, true)));
        out.push(check);
        i += 1;
    }
    assert(outcomes(out@) =~= passed_checks(kind));
    out
}

/// Accepts a record whose shape is that of its kind.
pub fn validate_record_shape(record: &DerivationRecordV1) -> (r: Result<(), ContentSchemaError>)
    ensures
        found(r) == shape_problem(record.facts()),
{
    if record.blocks.len() == 0 {
        return Err(
            ContentSchemaError::Invariant(cat2(recipe_id(record.kind), " record must contain a block")),
        );
    }
    let v = &record.validation;
    if v.total_utterance_count == 0 || v.processed_utterance_count != v.total_utterance_count
        || !v.processing_coverage_complete || v.processing_chunks.len() == 0 {
        return Err(
            ContentSchemaError::Invariant(
                cat2(
                    recipe_id(record.kind),
                    " record does not prove complete processing coverage",
                ),
            ),
        );
    }
    if !is_ledger_in_order(&v.processing_chunks) {
        return Err(
            violation("processing chunk ledger is not ordered or contains duplicate/missing IDs"),
        );
    }
    if let Err(e) = check_blocks(record.kind, &record.blocks) {
        return Err(e);
    }
    if blocks_status(&record.blocks) != v.record_source_status {
        return Err(violation("record source status does not match its blocks"));
    }
    if !are_checks_passed(record.kind, &v.checks) {
        return Err(
            violation("record validation checks are incomplete, out of order, or failed"),
        );
    }
    Ok(())
}

proof fn blocks_sound_from(kind: ArtifactKindV1, blocks: Seq<ContentBlockV1>, from: int)
    requires
        0 <= from <= blocks.len(),
    ensures
        blocks_problem(kind, blocks, from) is None <==> forall|i: int|
            from <= i < blocks.len() ==> block_problem(kind, blocks, i) is None,
    decreases blocks.len() - from,
{
    if from < blocks.len() {
        blocks_sound_from(kind, blocks, from + 1);
        if blocks_problem(kind, blocks, from) is None {
            assert forall|i: int| from <= i < blocks.len() implies block_problem(kind, blocks, i) is None by {}
        }
    }
}

/// The blocks of a record pass exactly where each has a name of its own and a text, is of the
/// role that its kind calls for, and has references if and only if it says so; those of a faithful
/// text carry no title, those of chapters do.
pub proof fn what_blocks_must_be(kind: ArtifactKindV1, blocks: Seq<ContentBlockV1>)
    ensures
        blocks_problem(kind, blocks, 0) is None <==> {
            &&& forall|i: int|
                0 <= i < blocks.len() ==> {
                    let b = #[trigger] blocks[i];
                    &&& !blank(b.id@) && !blank(b.text@)
                    &&& b.role == role_of(kind)
                    &&& kind is FaithfulText ==> b.title is None
                    &&& kind is Chapters ==> b.title is Some && !blank((b.title->0)@)
                    &&& b.source_status is Mapped <==> b.source_refs@.len() > 0
                }
            &&& forall|i: int, j: int|
                0 <= i < j < blocks.len() ==> (#[trigger] blocks[i]).id@ != (#[trigger] blocks[j]).id@
        },
{
    blocks_sound_from(kind, blocks, 0);
    let ids = block_ids(blocks);
    if blocks_problem(kind, blocks, 0) is None {
        assert forall|i: int| 0 <= i < blocks.len() implies {
            let b = #[trigger] blocks[i];
            &&& !blank(b.id@) && !blank(b.text@)
            &&& b.role == role_of(kind)
            &&& kind is FaithfulText ==> b.title is None
            &&& kind is Chapters ==> b.title is Some && !blank((b.title->0)@)
            &&& b.source_status is Mapped <==> b.source_refs@.len() > 0
        } by {
            assert(block_problem(kind, blocks, i) is None);
        }
        assert forall|i: int, j: int| 0 <= i < j < blocks.len() implies (#[trigger] blocks[i]).id@ != (
        #[trigger] blocks[j]).id@ by {
            assert(block_problem(kind, blocks, j) is None);
            assert(ids.take(j)[i] == blocks[i].id@);
        }
    } else {
        let k = choose|k: int| 0 <= k < blocks.len() && block_problem(kind, blocks, k) is Some;
        let b = blocks[k];
        if ids.take(k).contains(b.id@) {
            let i = choose|i: int| 0 <= i < ids.take(k).len() && ids.take(k)[i] == b.id@;
            assert(blocks[i].id@ == blocks[k].id@);
        }
    }
}

/// A record says that its sources are limited exactly where one of its blocks does.
pub proof fn one_limited_block_limits_the_record(blocks: Seq<ContentBlockV1>)
    ensures
        status_of(blocks) is Mapped <==> forall|i: int|
            0 <= i < blocks.len() ==> (#[trigger] blocks[i]).source_status is Mapped,
{
    if !(forall|i: int| 0 <= i < blocks.len() ==> (#[trigger] blocks[i]).source_status is Mapped) {
        let i = choose|i: int| 0 <= i < blocks.len() && !((#[trigger] blocks[i]).source_status is Mapped);
        assert(blocks[i].source_status is Limited);
    }
}

/// A time lies within its second, but for the leap second at the end of a minute.
pub proof fn a_time_lies_within_its_second(t: UtcTime)
    ensures
        t.valid() && t.nanoseconds > 999_999_999 ==> t.seconds % 60 == 59,
        t.valid() ==> t.nanoseconds <= 1_999_999_999,
        0 <= t.seconds <= 0x1_0000_0000 && t.nanoseconds <= 999_999_999 ==> t.valid(),
{
}

} // verus!
