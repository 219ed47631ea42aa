//! Faithful text without a model: every utterance as it is.

use vstd::prelude::*;
use super::assembly::{
    ChunkResult, all_used, block_source_problem, block_sources_problem, blocks_of,
    complete_in_order, evidence_problem, fresh_record, ledger_complaint, ledger_of,
    merge_chunk_results, mergeable, merged_facts, processing_complaint, used_by, value_of,
};
use super::chunks::{
    chunk_is_a_part, chunk_start, chunk_utterances, chunks_of, chunks_reach_the_end,
};
use super::error::{ContentSchemaError, SchemaProblem, violation};
use super::evidence::{SourceContextSnapshotV1, ValidatedEvidenceViewV1, utterance_ids};
use super::kinds::{ArtifactKindV1, ContentBlockRoleV1, EffectivePathV1, SourceStatusV1};
use super::lexical::final_line_break_says_nothing;
use super::provenance::FallbackReasonV1;
use super::record::{
    ContentBlockV1, DerivationRecordV1, RecordFacts, SourceRefV1, UtcTime, block_ids, block_problem, blocks_problem,
    ledger_in_order, output_ids, shape_problem, status_of,
};
use super::sources::{
    every_position, position_of, ref_complaint, ref_ids, refs_from, refs_outcome, run_complaint,
    run_of, source_text, text_behind,
};
use super::target::ReadyGenerationTargetV1;
use crate::funasr::Utterance;
use crate::text::{
    blank, cat4, dec, decimal, decimal_before_dash, decimal_padded, decimal_reads_back, padded,
    padded_decimals_differ, views, visible_ends,
};

verus! {

/// The identifier of utterance `offset` of piece `chunk`.
pub open spec fn rules_id(chunk: int, offset: int) -> Seq<char> {
    "chunk-"@ + dec(chunk as nat) + "-faithful-"@ + padded(dec(offset as nat), 4, '0')
}

/// The block of an utterance: its text, unchanged, with a reference to itself.
pub open spec fn rules_block(b: ContentBlockV1, u: Utterance) -> bool {
    &&& b.role is Paragraph
    &&& b.title is None
    &&& b.text == u.text
    &&& b.source_status is Mapped
    &&& b.source_refs@.len() == 1
    &&& views(b.source_refs@[0].utterance_ids@) == seq![u.id@]
    &&& b.source_refs@[0].start_ms == u.start_ms
    &&& b.source_refs@[0].end_ms == u.end_ms
}

/// The blocks of one piece.
pub open spec fn rules_piece(r: ChunkResult, piece: Seq<Utterance>, chunk: int) -> bool {
    &&& r.chunk_index == chunk
    &&& views(r.input_ids@) == utterance_ids(piece)
    &&& r.blocks@.len() == piece.len()
    &&& forall|j: int|
        0 <= j < piece.len() ==> rules_block(#[trigger] r.blocks@[j], piece[j]) && r.blocks@[j].id@
            == rules_id(chunk, j)
}

/// The blocks of all pieces.
pub open spec fn rules_results(results: Seq<ChunkResult>, us: Seq<Utterance>) -> bool {
    &&& results.len() == chunks_of(us).len()
    &&& forall|i: int| 0 <= i < results.len() ==> rules_piece(#[trigger] results[i], chunks_of(us)[i], i)
}

fn one_block(u: &Utterance, chunk: usize, offset: usize) -> (b: ContentBlockV1)
    ensures
        rules_block(b, *u),
        b.id@ == rules_id(chunk as int, offset as int),
{
    let mut ids: Vec<String> = Vec::new();
    ids.push(u.id.clone());
    let mut refs: Vec<SourceRefV1> = Vec::new();
    assert(views(ids@) =~= seq![u.id@]);
    refs.push(SourceRefV1 { utterance_ids: ids, start_ms: u.start_ms, end_ms: u.end_ms });
    ContentBlockV1 {
        id: cat4(
            "chunk-",
            decimal(chunk as u64).as_str(),
            "-faithful-",
            decimal_padded(offset as u64, 4).as_str(),
        ),
        role: ContentBlockRoleV1::Paragraph,
        title: None,
        text: u.text.clone(),
        source_refs: refs,
        source_status: SourceStatusV1::Mapped,
    }
}

#[verifier::loop_isolation(false)]
fn one_piece(piece: &Vec<Utterance>, chunk: usize) -> (r: ChunkResult)
    ensures
        rules_piece(r, piece@, chunk as int),
{
    let mut blocks: Vec<ContentBlockV1> = Vec::new();
    let mut ids: Vec<String> = Vec::new();
    let mut j: usize = 0;
    while j < piece.len()
        invariant
            j <= piece@.len(),
            blocks@.len() == j,
            views(ids@) =~= utterance_ids(piece@).take(j as int),
            forall|k: int|
                0 <= k < j ==> rules_block(#[trigger] blocks@[k], piece@[k]) && blocks@[k].id@
                    == rules_id(chunk as int, k),
        decreases piece@.len() - j,
    {
        blocks.push(one_block(&piece[j], chunk, j));
        proof {
            crate::text::views_push(ids@, piece@[j as int].id);
        }
        ids.push(piece[j].id.clone());
        j += 1;
    }
    assert(views(ids@) =~= utterance_ids(piece@));
    ChunkResult { chunk_index: chunk, input_ids: ids, blocks }
}

#[verifier::loop_isolation(false)]
fn all_pieces(utterances: &Vec<Utterance>) -> (r: Vec<ChunkResult>)
    ensures
        rules_results(r@, utterances@),
{
    let pieces = chunk_utterances(utterances);
    let mut out: Vec<ChunkResult> = Vec::new();
    let mut i: usize = 0;
    assert(views(pieces@).len() == pieces@.len());
    while i < pieces.len()
        invariant
            i <= pieces@.len(),
            out@.len() == i,
            forall|k: int|
                0 <= k < i ==> rules_piece(#[trigger] out@[k], chunks_of(utterances@)[k], k),
        decreases pieces@.len() - i,
    {
        assert(views(pieces@)[i as int] == pieces@[i as int]@);
        out.push(one_piece(&pieces[i], i));
        i += 1;
    }
    out
}

/// A transcript whose identifiers are unique and whose utterances all say something, in time
/// that runs forward.
pub open spec fn sound_transcript(us: Seq<Utterance>) -> bool {
    &&& us.len() > 0
    &&& utterance_ids(us).no_duplicates()
    &&& forall|k: int|
        0 <= k < us.len() ==> !blank((#[trigger] us[k]).text@) && us[k].start_ms <= us[k].end_ms
}

/// Makes the faithful text of a transcript by rules.
pub fn deterministic_faithful_record(
    evidence: &ValidatedEvidenceViewV1,
    context: &SourceContextSnapshotV1,
    effective_path: EffectivePathV1,
    target: Option<&ReadyGenerationTargetV1>,
    fallback_reason: Option<FallbackReasonV1>,
    now: UtcTime,
) -> (r: Result<DerivationRecordV1, ContentSchemaError>)
    ensures
        exists|results: Seq<ChunkResult>| #[trigger]
            rules_results(results, evidence.utterances@) && match r {
                Ok(record) => mergeable(ArtifactKindV1::FaithfulText, results, *evidence) && fresh_record(
                    record,
                    merged_facts(
                        ArtifactKindV1::FaithfulText,
                        results,
                        evidence.descriptor.utterance_count as int,
                    ),
                    evidence.descriptor,
                    *context,
                    value_of(target),
                    effective_path,
                    fallback_reason,
                    now,
                ),
                Err(e) => e@ == SchemaProblem::Invariant("faithful rules merge failed"@) && !mergeable(
                    ArtifactKindV1::FaithfulText,
                    results,
                    *evidence,
                ),
            },
        sound_transcript(evidence.utterances@) && evidence.descriptor.utterance_count
            == evidence.utterances@.len() ==> r is Ok,
{
    let results = all_pieces(&evidence.utterances);
    let ghost all = results@;
    proof {
        if sound_transcript(evidence.utterances@) && evidence.descriptor.utterance_count
            == evidence.utterances@.len() {
            rules_results_are_mergeable(all, *evidence);
        }
    }
    let merged = merge_chunk_results(
        ArtifactKindV1::FaithfulText,
        evidence,
        context,
        target,
        effective_path,
        fallback_reason,
        results,
        now,
    );
    assert(rules_results(all, evidence.utterances@));
    match merged {
        Ok(record) => Ok(record),
        Err(_) => Err(violation("faithful rules merge failed")),
    }
}

// ---- Why rules always give a record ----

/// Utterance `k` of a transcript lies in some piece.
pub open spec fn lies_in(us: Seq<Utterance>, k: int, chunk: int) -> bool {
    0 <= chunk < chunks_of(us).len() && chunk_start(us, chunk) <= k < chunk_start(us, chunk + 1)
}

proof fn blocks_match(results: Seq<ChunkResult>, us: Seq<Utterance>, n: int)
    requires
        rules_results(results, us),
        0 <= n <= results.len(),
    ensures
        blocks_of(results, n).len() == chunk_start(us, n) <= us.len(),
        forall|k: int|
            0 <= k < chunk_start(us, n) ==> rules_block(#[trigger] blocks_of(results, n)[k], us[k]) && exists|
                c: int,
            |
                #[trigger] lies_in(us, k, c) && c < n && blocks_of(results, n)[k].id@ == rules_id(
                    c,
                    k - chunk_start(us, c),
                ),
        output_ids(ledger_of(results), n) == block_ids(blocks_of(results, n)),
    decreases n,
{
    if n > 0 {
        blocks_match(results, us, n - 1);
        chunk_is_a_part(us, n - 1);
        let before = blocks_of(results, n - 1);
        let piece = results[n - 1];
        let all = blocks_of(results, n);
        let start = chunk_start(us, n - 1);
        assert(rules_piece(piece, chunks_of(us)[n - 1], n - 1));
        assert(all == before + piece.blocks@);
        assert forall|k: int| 0 <= k < chunk_start(us, n) implies rules_block(#[trigger] all[k], us[k]) && exists|
            c: int,
        |
            #[trigger] lies_in(us, k, c) && c < n && all[k].id@ == rules_id(c, k - chunk_start(us, c)) by {
            if k < start {
                assert(all[k] == before[k]);
                let c = choose|c: int|
                    #[trigger] lies_in(us, k, c) && c < n - 1 && before[k].id@ == rules_id(
                        c,
                        k - chunk_start(us, c),
                    );
                assert(lies_in(us, k, c) && c < n);
            } else {
                assert(all[k] == piece.blocks@[k - start]);
                assert(chunks_of(us)[n - 1][k - start] == us[k]);
                assert(lies_in(us, k, n - 1));
            }
        }
        assert(ledger_of(results)[n - 1].outputs == block_ids(piece.blocks@));
        assert(block_ids(all) =~= block_ids(before) + block_ids(piece.blocks@));
    } else {
        assert(block_ids(blocks_of(results, n)) =~= Seq::<Seq<char>>::empty());
    }
}

proof fn rules_ids_differ(c: int, o: int, d: int, p: int)
    requires
        0 <= c,
        0 <= o,
        0 <= d,
        0 <= p,
        rules_id(c, o) == rules_id(d, p),
    ensures
        c == d,
        o == p,
{
    reveal_strlit("chunk-");
    reveal_strlit("-faithful-");
    let x = rules_id(c, o);
    let y = rules_id(d, p);
    let tail = "-faithful-"@;
    let rest = tail.skip(1);
    let cut = "chunk-"@.len() as int;
    let po = padded(dec(o as nat), 4, '0');
    let pp = padded(dec(p as nat), 4, '0');
    assert(x.skip(cut) =~= dec(c as nat) + seq!['-'] + (rest + po));
    assert(y.skip(cut) =~= dec(d as nat) + seq!['-'] + (rest + pp));
    decimal_before_dash(c as nat, rest + po, d as nat, rest + pp);
    assert((rest + po).skip(rest.len() as int) =~= po);
    assert((rest + pp).skip(rest.len() as int) =~= pp);
    padded_decimals_differ(o as nat, p as nat, 4);
}

proof fn rules_id_is_visible(c: int, o: int)
    requires
        0 <= c,
        0 <= o,
    ensures
        !blank(rules_id(c, o)),
{
    reveal_strlit("chunk-");
    let s = rules_id(c, o);
    let last = padded(dec(o as nat), 4, '0');
    decimal_reads_back(o as nat);
    assert(s[0] == 'c');
    assert(last.len() > 0 && last.last() == dec(o as nat).last());
    assert(s.last() == last.last());
    assert(crate::text::digit(dec(o as nat)[dec(o as nat).len() - 1]));
    visible_ends(s);
}

proof fn unique_position(us: Seq<Utterance>, k: int)
    requires
        0 <= k < us.len(),
        utterance_ids(us).no_duplicates(),
    ensures
        position_of(us, us[k].id@) == Some(k),
    decreases us.len(),
{
    let ids = utterance_ids(us);
    if k < us.len() - 1 {
        assert(ids[us.len() - 1] != ids[k]);
        let fewer = us.drop_last();
        let some = utterance_ids(fewer);
        assert forall|a: int, b: int| 0 <= a < some.len() && 0 <= b < some.len() && a != b implies some[a]
            != some[b] by {
            assert(ids[a] == some[a] && ids[b] == some[b]);
        }
        assert(fewer[k] == us[k]);
        unique_position(fewer, k);
    }
}

proof fn rules_block_sources(b: ContentBlockV1, us: Seq<Utterance>, k: int)
    requires
        0 <= k < us.len(),
        utterance_ids(us).no_duplicates(),
        !blank(us[k].text@),
        us[k].start_ms <= us[k].end_ms,
        rules_block(b, us[k]),
    ensures
        refs_outcome(b.source_refs@, us) == Ok::<Seq<int>, Seq<char>>(seq![k]),
        block_source_problem(ArtifactKindV1::FaithfulText, b, us) is None,
        used_by(b, us) == seq![k],
{
    let refs = b.source_refs@;
    let r = refs[0];
    let ids = views(r.utterance_ids@);
    unique_position(us, k);
    assert(ids[0] == us[k].id@ && ids.last() == us[k].id@);
    assert(run_complaint(ids, us, k, 1) is None);
    assert(run_complaint(ids, us, k, 0) is None);
    assert(ref_complaint(r, us, None) is None);
    assert(refs_from(refs, us, 1, Some(k)) == Ok::<Seq<int>, Seq<char>>(Seq::empty()));
    assert(r.utterance_ids@.len() == 1) by {
        assert(views(r.utterance_ids@).len() == 1);
    }
    assert(run_of(r, us) + Seq::<int>::empty() =~= seq![k]);
    assert(ref_ids(refs, 0) =~= Seq::<Seq<char>>::empty());
    assert(ref_ids(refs, 1) =~= seq![us[k].id@]);
    let one = ref_ids(refs, 1);
    assert(one.drop_last() =~= Seq::<Seq<char>>::empty());
    assert(text_behind(one.drop_last(), us) == Ok::<Seq<char>, Seq<char>>(Seq::empty()));
    let t = us[k].text@;
    assert(Seq::<char>::empty() + t =~= t);
    assert(source_text(refs, us) == Ok::<Seq<char>, Seq<char>>(t.push('\n')));
    final_line_break_says_nothing(t);
}

proof fn rules_used(us: Seq<Utterance>, blocks: Seq<ContentBlockV1>, n: int)
    requires
        0 <= n <= blocks.len(),
        blocks.len() == us.len(),
        sound_transcript(us),
        forall|k: int| 0 <= k < us.len() ==> rules_block(#[trigger] blocks[k], us[k]),
    ensures
        all_used(blocks, us, n) == Seq::new(n as nat, |k: int| k),
    decreases n,
{
    if n > 0 {
        rules_used(us, blocks, n - 1);
        rules_block_sources(blocks[n - 1], us, n - 1);
        assert(all_used(blocks, us, n) =~= Seq::new(n as nat, |k: int| k));
    } else {
        assert(all_used(blocks, us, n) =~= Seq::new(0, |k: int| k));
    }
}

proof fn no_block_problem(f: RecordFacts, i: int)
    requires
        0 <= i <= f.blocks.len(),
        forall|k: int| 0 <= k < f.blocks.len() ==> block_problem(f.kind, f.blocks, k) is None,
    ensures
        blocks_problem(f.kind, f.blocks, i) is None,
    decreases f.blocks.len() - i,
{
    if i < f.blocks.len() {
        no_block_problem(f, i + 1);
    }
}

proof fn no_source_problem(blocks: Seq<ContentBlockV1>, us: Seq<Utterance>, i: int)
    requires
        0 <= i <= blocks.len(),
        forall|k: int|
            0 <= k < blocks.len() ==> block_source_problem(ArtifactKindV1::FaithfulText, #[trigger] blocks[k], us) is None,
    ensures
        block_sources_problem(ArtifactKindV1::FaithfulText, blocks, us, i) is None,
    decreases blocks.len() - i,
{
    if i < blocks.len() {
        no_source_problem(blocks, us, i + 1);
    }
}

proof fn no_ledger_complaint(results: Seq<ChunkResult>, us: Seq<Utterance>, i: int)
    requires
        rules_results(results, us),
        0 <= i <= results.len(),
    ensures
        ledger_complaint(ledger_of(results), chunks_of(us), i) is None,
    decreases results.len() - i,
{
    if i < results.len() {
        assert(rules_piece(results[i], chunks_of(us)[i], i));
        chunk_is_a_part(us, i);
        assert(ledger_of(results)[i].outputs.len() > 0);
        no_ledger_complaint(results, us, i + 1);
    }
}

/// The pieces that rules make of a sound transcript pass every check.
pub proof fn rules_results_are_mergeable(results: Seq<ChunkResult>, evidence: ValidatedEvidenceViewV1)
    requires
        sound_transcript(evidence.utterances@),
        evidence.descriptor.utterance_count == evidence.utterances@.len(),
        rules_results(results, evidence.utterances@),
    ensures
        mergeable(ArtifactKindV1::FaithfulText, results, evidence),
        blocks_of(results, results.len() as int).len() == evidence.utterances@.len(),
        forall|k: int|
            0 <= k < evidence.utterances@.len() ==> rules_block(
                #[trigger] blocks_of(results, results.len() as int)[k],
                evidence.utterances@[k],
            ),
{
    let us = evidence.utterances@;
    let n = results.len() as int;
    let f = merged_facts(ArtifactKindV1::FaithfulText, results, evidence.descriptor.utterance_count as int);
    let blocks = f.blocks;
    chunks_reach_the_end(us);
    blocks_match(results, us, n);
    assert(blocks.len() == us.len());
    assert(n > 0) by {
        if n == 0 {
            assert(chunk_start(us, 0) == 0);
        }
    }
    let ids = block_ids(blocks);
    assert forall|a: int, b: int| 0 <= a < ids.len() && 0 <= b < ids.len() && a != b implies ids[a] != ids[b] by {
        assert(rules_block(blocks[a], us[a]) && rules_block(blocks[b], us[b]));
        let c = choose|c: int|
            #[trigger] lies_in(us, a, c) && c < n && blocks[a].id@ == rules_id(c, a - chunk_start(us, c));
        let d = choose|d: int|
            #[trigger] lies_in(us, b, d) && d < n && blocks[b].id@ == rules_id(d, b - chunk_start(us, d));
        if ids[a] == ids[b] {
            rules_ids_differ(c, a - chunk_start(us, c), d, b - chunk_start(us, d));
        }
    }
    assert(ids.no_duplicates());
    assert forall|k: int| 0 <= k < blocks.len() implies block_problem(f.kind, blocks, k) is None by {
        assert(rules_block(blocks[k], us[k]));
        let c = choose|c: int|
            #[trigger] lies_in(us, k, c) && c < n && blocks[k].id@ == rules_id(c, k - chunk_start(us, c));
        rules_id_is_visible(c, k - chunk_start(us, c));
        assert(!ids.take(k).contains(blocks[k].id@)) by {
            if ids.take(k).contains(blocks[k].id@) {
                let j = choose|j: int| 0 <= j < ids.take(k).len() && ids.take(k)[j] == blocks[k].id@;
                assert(ids[j] == ids[k]);
            }
        }
    }
    no_block_problem(f, 0);
    assert forall|i: int| 0 <= i < f.chunks.len() implies (#[trigger] f.chunks[i]).index == i
        && f.chunks[i].inputs.len() > 0 && f.chunks[i].outputs.len() > 0 by {
        assert(rules_piece(results[i], chunks_of(us)[i], i));
        chunk_is_a_part(us, i);
    }
    assert(ledger_in_order(f.chunks));
    assert(status_of(blocks) is Mapped) by {
        assert forall|k: int| 0 <= k < blocks.len() implies !((#[trigger] blocks[k]).source_status is Limited) by {
            assert(rules_block(blocks[k], us[k]));
        }
    }
    assert(shape_problem(f) is None);
    no_ledger_complaint(results, us, 0);
    assert(processing_complaint(f, us) is None);
    assert forall|k: int| 0 <= k < blocks.len() implies block_source_problem(
        ArtifactKindV1::FaithfulText,
        #[trigger] blocks[k],
        us,
    ) is None by {
        assert(rules_block(blocks[k], us[k]));
        rules_block_sources(blocks[k], us, k);
    }
    no_source_problem(blocks, us, 0);
    rules_used(us, blocks, us.len() as int);
    assert(every_position(all_used(blocks, us, us.len() as int), us.len() as int));
    assert(evidence_problem(f, us) is None);
    assert forall|i: int| 0 <= i < results.len() implies (#[trigger] results[i]).chunk_index == i && views(
        results[i].input_ids@,
    ) == utterance_ids(chunks_of(us)[i]) by {
        assert(rules_piece(results[i], chunks_of(us)[i], i));
    }
    assert(complete_in_order(results, us));
}

/// The text that is made by rules alone repeats the transcript: one block for each utterance, in
/// order, with its text unchanged and one reference to it and its time.
pub proof fn rules_repeat_the_transcript(results: Seq<ChunkResult>, us: Seq<Utterance>)
    requires
        rules_results(results, us),
    ensures
        ({
            let blocks = blocks_of(results, results.len() as int);
            &&& blocks.len() == us.len()
            &&& forall|k: int|
                0 <= k < us.len() ==> {
                    let b = #[trigger] blocks[k];
                    &&& b.text@ == us[k].text@
                    &&& b.title is None
                    &&& b.source_status is Mapped
                    &&& b.source_refs@.len() == 1
                    &&& b.source_refs@[0].utterance_ids@.len() == 1
                    &&& b.source_refs@[0].utterance_ids@[0]@ == us[k].id@
                    &&& b.source_refs@[0].start_ms == us[k].start_ms
                    &&& b.source_refs@[0].end_ms == us[k].end_ms
                }
        }),
{
    let n = results.len() as int;
    blocks_match(results, us, n);
    chunks_reach_the_end(us);
    let blocks = blocks_of(results, n);
    assert forall|k: int| 0 <= k < us.len() implies {
        let b = #[trigger] blocks[k];
        &&& b.text@ == us[k].text@
        &&& b.title is None
        &&& b.source_status is Mapped
        &&& b.source_refs@.len() == 1
        &&& b.source_refs@[0].utterance_ids@.len() == 1
        &&& b.source_refs@[0].utterance_ids@[0]@ == us[k].id@
        &&& b.source_refs@[0].start_ms == us[k].start_ms
        &&& b.source_refs@[0].end_ms == us[k].end_ms
    } by {
        assert(rules_block(blocks[k], us[k]));
        let ids = views(blocks[k].source_refs@[0].utterance_ids@);
        assert(ids.len() == 1 && ids[0] == us[k].id@);
        assert(ids[0] == blocks[k].source_refs@[0].utterance_ids@[0]@);
    }
}

} // verus!
