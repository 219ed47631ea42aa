//! Asking a model about a transcript, one piece at a time.

use vstd::prelude::*;
use super::assembly::{
    ChunkResult, GeneratedChunk, GenerationPortError, acceptable, convert_generated_blocks, fresh_record, kept,
    merge_chunk_results, mergeable, merged_facts, taken_over, usable, validate_chunk_result,
};
use super::chunks::{chunk_utterances, chunks_of};
use super::evidence::{SourceContextSnapshotV1, ContextView, ValidatedEvidenceViewV1, utterance_ids};
use super::kinds::{ArtifactKindV1, EffectivePathV1, FailureCodeV1, FallbackReasonCodeV1, recipe_id, recipe_of};
use super::record::{DerivationRecordV1, UtcTime};
use super::target::ReadyGenerationTargetV1;
use crate::funasr::Utterance;
use crate::json::{json_string, to_json_string};
use crate::text::{
    a_joined_part_is_held, a_part_is_found, cat3, cat5, dec, decimal, has, join, joined, same_texts, text, views, views_push,
};
use crate::document::held_inside;

verus! {

// ---- Prompts ----

/// One utterance as a JSON object.
pub open spec fn utterance_json(u: Utterance) -> Seq<char> {
    "{\"end_ms\":"@ + dec(u.end_ms as nat) + ",\"id\":"@ + json_string(u.id@) + ",\"speaker_id\":"@ + dec(
        u.speaker_id as nat,
    ) + ",\"start_ms\":"@ + dec(u.start_ms as nat) + ",\"text\":"@ + json_string(u.text@) + "}"@
}

/// The utterances of a piece as JSON objects.
pub open spec fn utterances_json(us: Seq<Utterance>) -> Seq<Seq<char>> {
    Seq::new(us.len(), |i: int| utterance_json(us[i]))
}

/// Texts as JSON strings.
pub open spec fn strings_json(texts: Seq<Seq<char>>) -> Seq<Seq<char>> {
    Seq::new(texts.len(), |i: int| json_string(texts[i]))
}

/// What a model is given to work on, as a JSON object.
pub open spec fn input_json(
    kind: ArtifactKindV1,
    context: ContextView,
    us: Seq<Utterance>,
    index: int,
    count: int,
) -> Seq<char> {
    "{\"chunk_count\":"@ + dec(count as nat) + ",\"chunk_index\":"@ + dec(index as nat)
        + ",\"context\":{\"main_title\":"@ + json_string(context.main_title) + ",\"part_title\":"@ + (
    match context.part_title {
        Some(t) => json_string(t),
        None => "null"@,
    }) + ",\"terms\":["@ + joined(strings_json(context.terms), ","@) + "]},\"kind\":\""@ + kind.wire_text()
        + "\",\"recipe\":\""@ + recipe_of(kind) + "\",\"recipe_version\":1,\"utterances\":["@ + joined(
        utterances_json(us),
        ","@,
    ) + "]}"@
}

fn put(out: &mut String, name: &str, value: &str)
    ensures
        final(out)@ == old(out)@ + name@ + value@,
{
    out.append(name);
    out.append(value);
}

fn utterance_object(u: &Utterance) -> (r: String)
    ensures
        r@ == utterance_json(*u),
{
    let mut out = text("{\"end_ms\":");
    out.append(decimal(u.end_ms).as_str());
    put(&mut out, ",\"id\":", to_json_string(u.id.as_str()).as_str());
    put(&mut out, ",\"speaker_id\":", decimal(u.speaker_id as u64).as_str());
    put(&mut out, ",\"start_ms\":", decimal(u.start_ms).as_str());
    put(&mut out, ",\"text\":", to_json_string(u.text.as_str()).as_str());
    out.append("}");
    out
}

fn utterance_objects(us: &Vec<Utterance>) -> (r: String)
    ensures
        r@ == joined(utterances_json(us@), ","@),
{
    let mut parts: Vec<String> = Vec::new();
    let mut i: usize = 0;
    while i < us.len()
        invariant
            i <= us@.len(),
            views(parts@) =~= utterances_json(us@).take(i as int),
        decreases us@.len() - i,
    {
        let part = utterance_object(&us[i]);
        proof {
            views_push(parts@, part);
        }
        parts.push(part);
        i += 1;
    }
    assert(views(parts@) =~= utterances_json(us@));
    join(&parts, ",")
}

fn json_strings(texts: &Vec<String>) -> (r: String)
    ensures
        r@ == joined(strings_json(views(texts@)), ","@),
{
    let mut parts: Vec<String> = Vec::new();
    let mut i: usize = 0;
    while i < texts.len()
        invariant
            i <= texts@.len(),
            views(parts@) =~= strings_json(views(texts@)).take(i as int),
        decreases texts@.len() - i,
    {
        let part = to_json_string(texts[i].as_str());
        proof {
            views_push(parts@, part);
        }
        parts.push(part);
        i += 1;
    }
    assert(views(parts@) =~= strings_json(views(texts@)));
    join(&parts, ",")
}

/// What a model is given to work on, as a JSON object.
pub fn prompt_input(
    kind: ArtifactKindV1,
    context: &SourceContextSnapshotV1,
    chunk: &Vec<Utterance>,
    chunk_index: usize,
    chunk_count: usize,
) -> (r: String)
    ensures
        r@ == input_json(kind, context@, chunk@, chunk_index as int, chunk_count as int),
{
    let mut out = text("{\"chunk_count\":");
    out.append(decimal(chunk_count as u64).as_str());
    put(&mut out, ",\"chunk_index\":", decimal(chunk_index as u64).as_str());
    put(
        &mut out,
        ",\"context\":{\"main_title\":",
        to_json_string(context.main_title.as_str()).as_str(),
    );
    let part = match &context.part_title {
        Some(t) => to_json_string(t.as_str()),
        None => text("null"),
    };
    put(&mut out, ",\"part_title\":", part.as_str());
    put(&mut out, ",\"terms\":[", json_strings(&context.terms).as_str());
    put(&mut out, "]},\"kind\":\"", kind.wire_name());
    put(&mut out, "\",\"recipe\":\"", recipe_id(kind));
    put(
        &mut out,
        "\",\"recipe_version\":1,\"utterances\":[",
        utterance_objects(chunk).as_str(),
    );
    out.append("]}");
    out
}

/// The remark about the piece that a prompt is for; none where there is only one piece.
pub open spec fn piece_remark(index: int, count: int) -> Seq<char> {
    if count > 1 {
        "（本次为多块处理，第 "@ + dec((index + 1) as nat) + "/"@ + dec(count as nat)
            + " 块，请按比例控制摘要字数）"@
    } else {
        Seq::empty()
    }
}

/// The instruction of a summary tier; none for other kinds.
pub open spec fn tier_instruction(kind: ArtifactKindV1, index: int, count: int) -> Seq<char> {
    match kind {
        ArtifactKindV1::ShortSummary => "本次任务档位 summary-short v1：输出单段整体结论，全文控制在 200 个汉字（或 120 个英文词）以内，不逐节展开、不分段列表"@
            + piece_remark(index, count) + "。"@,
        ArtifactKindV1::DefaultSummary => "本次任务档位 summary-standard v1：输出 300 到 500 个汉字（或 180 到 300 个英文词）的标准摘要"@
            + piece_remark(index, count) + "。"@,
        ArtifactKindV1::LongSummary => "本次任务档位 summary-long v1：输出 800 到 1500 个汉字（或 480 到 900 个英文词）的详细概述，按章节顺序逐节展开，每个 block 尽量携带可核对的 source_refs"@
            + piece_remark(index, count) + "。"@,
        _ => Seq::empty(),
    }
}

/// The instructions that every prompt begins with.
pub open spec fn general_instructions() -> Seq<Seq<char>> {
    seq![
        "你是 BiMyScribe 的可信文字整理器。请严格按 JSON 输出。"@,
        "必须把本块全部 utterance id 放入 processed_utterance_ids，不能遗漏、重复或虚构。"@,
        "blocks 的 source_refs 只能引用输入 id，并填写精确 start_ms/end_ms；无法可靠关联时使用空 refs，不得伪造时间。"@,
        "faithful_text 必须保留事实、限定条件、数字、金额、日期、URL 和顺序，禁止摘要或删减。"@,
        "输出对象必须包含 processed_utterance_ids 和 blocks；每个 block 至少有 id、text、source_refs。"@,
    ]
}

/// The instructions of a prompt.
pub open spec fn instructions(kind: ArtifactKindV1, index: int, count: int) -> Seq<Seq<char>> {
    let t = tier_instruction(kind, index, count);
    if t.len() > 0 {
        general_instructions().push(t)
    } else {
        general_instructions()
    }
}

/// A prompt around its input.
pub open spec fn prompt_around(kind: ArtifactKindV1, index: int, count: int, input: Seq<char>) -> Seq<char> {
    joined(instructions(kind, index, count), "\\n"@) + "\\nrecipe="@ + recipe_of(kind) + "; kind="@
        + kind.name_text() + "; prompt_version=1; input="@ + input
}

fn tier_text(kind: ArtifactKindV1, chunk_index: usize, chunk_count: usize) -> (r: String)
    requires
        chunk_index < usize::MAX,
    ensures
        r@ == tier_instruction(kind, chunk_index as int, chunk_count as int),
{
    let remark = if chunk_count > 1 {
        cat5(
            "（本次为多块处理，第 ",
            decimal((chunk_index + 1) as u64).as_str(),
            "/",
            decimal(chunk_count as u64).as_str(),
            " 块，请按比例控制摘要字数）",
        )
    } else {
        String::new()
    };
    match kind {
        ArtifactKindV1::ShortSummary => cat3(
            "本次任务档位 summary-short v1：输出单段整体结论，全文控制在 200 个汉字（或 120 个英文词）以内，不逐节展开、不分段列表",
            remark.as_str(),
            "。",
        ),
        ArtifactKindV1::DefaultSummary => cat3(
            "本次任务档位 summary-standard v1：输出 300 到 500 个汉字（或 180 到 300 个英文词）的标准摘要",
            remark.as_str(),
            "。",
        ),
        ArtifactKindV1::LongSummary => cat3(
            "本次任务档位 summary-long v1：输出 800 到 1500 个汉字（或 480 到 900 个英文词）的详细概述，按章节顺序逐节展开，每个 block 尽量携带可核对的 source_refs",
            remark.as_str(),
            "。",
        ),
        _ => String::new(),
    }
}

/// A prompt around its input.
pub fn prompt_with_input(kind: ArtifactKindV1, chunk_index: usize, chunk_count: usize, input: &str) -> (r:
    String)
    requires
        chunk_index < usize::MAX,
    ensures
        r@ == prompt_around(kind, chunk_index as int, chunk_count as int, input@),
{
    let mut lines: Vec<String> = Vec::new();
    lines.push(text("你是 BiMyScribe 的可信文字整理器。请严格按 JSON 输出。"));
    lines.push(
        text("必须把本块全部 utterance id 放入 processed_utterance_ids，不能遗漏、重复或虚构。"),
    );
    lines.push(
        text(
            "blocks 的 source_refs 只能引用输入 id，并填写精确 start_ms/end_ms；无法可靠关联时使用空 refs，不得伪造时间。",
        ),
    );
    lines.push(
        text("faithful_text 必须保留事实、限定条件、数字、金额、日期、URL 和顺序，禁止摘要或删减。"),
    );
    lines.push(
        text("输出对象必须包含 processed_utterance_ids 和 blocks；每个 block 至少有 id、text、source_refs。"),
    );
    assert(views(lines@) =~= general_instructions());
    let tier = tier_text(kind, chunk_index, chunk_count);
    if !tier.as_str().is_empty() {
        proof {
            views_push(lines@, tier);
        }
        lines.push(tier);
    }
    let mut out = join(&lines, "\\n");
    put(&mut out, "\\nrecipe=", recipe_id(kind));
    put(&mut out, "; kind=", kind.name());
    put(&mut out, "; prompt_version=1; input=", input);
    out
}

/// The prompt of one piece.
pub open spec fn prompt_of(
    kind: ArtifactKindV1,
    context: ContextView,
    us: Seq<Utterance>,
    index: int,
    count: int,
) -> Seq<char> {
    prompt_around(kind, index, count, input_json(kind, context, us, index, count))
}

/// The prompt of one piece.
pub fn make_prompt(
    kind: ArtifactKindV1,
    context: &SourceContextSnapshotV1,
    chunk: &Vec<Utterance>,
    chunk_index: usize,
    chunk_count: usize,
) -> (r: String)
    requires
        chunk_index < usize::MAX,
    ensures
        r@ == prompt_of(kind, context@, chunk@, chunk_index as int, chunk_count as int),
{
    let input = prompt_input(kind, context, chunk, chunk_index, chunk_count);
    prompt_with_input(kind, chunk_index, chunk_count, input.as_str())
}

// ---- Asking, piece by piece ----

/// One question to a model.
#[derive(Debug, Clone)]
pub struct GenerationRequest {
    pub kind: ArtifactKindV1,
    pub chunk_index: usize,
    pub chunk_count: usize,
    pub utterances: Vec<Utterance>,
    pub prompt: String,
}

/// The question about piece `index` of a transcript.
pub open spec fn asks(
    q: GenerationRequest,
    kind: ArtifactKindV1,
    us: Seq<Utterance>,
    context: ContextView,
    index: int,
) -> bool {
    let pieces = chunks_of(us);
    &&& q.kind == kind
    &&& q.chunk_index == index
    &&& q.chunk_count == pieces.len()
    &&& q.utterances@ == pieces[index]
    &&& q.prompt@ == prompt_of(kind, context, pieces[index], index, pieces.len() as int)
}

/// The question about one piece of a transcript.
pub fn generation_request(
    kind: ArtifactKindV1,
    evidence: &ValidatedEvidenceViewV1,
    context: &SourceContextSnapshotV1,
    index: usize,
) -> (r: GenerationRequest)
    requires
        index < chunks_of(evidence.utterances@).len(),
    ensures
        asks(r, kind, evidence.utterances@, context@, index as int),
{
    let mut pieces = chunk_utterances(&evidence.utterances);
    assert(views(pieces@).len() == pieces@.len());
    assert(views(pieces@)[index as int] == pieces@[index as int]@);
    let count: usize = pieces.len();
    let piece: Vec<Utterance> = pieces.swap_remove(index);
    let prompt = make_prompt(kind, context, &piece, index, count);
    GenerationRequest { kind, chunk_index: index, chunk_count: count, utterances: piece, prompt }
}

/// The answer names exactly the utterances that it was asked about.
pub open spec fn complete_answer(g: GeneratedChunk, piece: Seq<Utterance>) -> bool {
    views(g.processed_utterance_ids@) == utterance_ids(piece)
}

/// The answer about a piece, block by block, can be used.
pub open spec fn usable_answer(
    kind: ArtifactKindV1,
    chunk: int,
    g: GeneratedChunk,
    piece: Seq<Utterance>,
) -> bool {
    &&& complete_answer(g, piece)
    &&& g.blocks@.len() > 0
    &&& forall|i: int| 0 <= i < g.blocks@.len() ==> acceptable(kind, #[trigger] g.blocks@[i])
    &&& forall|i: int, b: super::record::ContentBlockV1|
        0 <= i < g.blocks@.len() && #[trigger] taken_over(kind, chunk, g.blocks@[i], b) ==> usable(
            kind,
            b,
            piece,
        )
}

/// The block that a model's block becomes once it was checked against its piece.
pub open spec fn stands_for(
    kind: ArtifactKindV1,
    chunk: int,
    g: super::assembly::GeneratedBlock,
    piece: Seq<Utterance>,
    out: super::record::ContentBlockV1,
) -> bool {
    exists|b: super::record::ContentBlockV1| #[trigger] taken_over(kind, chunk, g, b) && kept(kind, b, piece, out)
}

/// What an answer about a piece comes to.
pub open spec fn answer_result(
    kind: ArtifactKindV1,
    chunk: int,
    g: GeneratedChunk,
    piece: Seq<Utterance>,
    r: ChunkResult,
) -> bool {
    &&& r.chunk_index == chunk
    &&& views(r.input_ids@) == utterance_ids(piece)
    &&& r.blocks@.len() == g.blocks@.len()
    &&& forall|i: int|
        0 <= i < g.blocks@.len() ==> stands_for(kind, chunk, g.blocks@[i], piece, #[trigger] r.blocks@[i])
}

proof fn same_sources_same_use(
    kind: ArtifactKindV1,
    chunk: int,
    g: super::assembly::GeneratedBlock,
    a: super::record::ContentBlockV1,
    b: super::record::ContentBlockV1,
    piece: Seq<Utterance>,
)
    requires
        taken_over(kind, chunk, g, a),
        taken_over(kind, chunk, g, b),
    ensures
        usable(kind, a, piece) == usable(kind, b, piece),
{
}

fn ids_of(utterances: &Vec<Utterance>) -> (r: Vec<String>)
    ensures
        views(r@) == utterance_ids(utterances@),
{
    let mut out: Vec<String> = Vec::new();
    let mut i: usize = 0;
    while i < utterances.len()
        invariant
            i <= utterances@.len(),
            views(out@) =~= utterance_ids(utterances@).take(i as int),
        decreases utterances@.len() - i,
    {
        proof {
            views_push(out@, utterances@[i as int].id);
        }
        out.push(utterances[i].id.clone());
        i += 1;
    }
    assert(views(out@) =~= utterance_ids(utterances@));
    out
}

/// Takes the answer about one piece, or refuses it.
pub fn read_answer(kind: ArtifactKindV1, chunk_index: usize, chunk: &Vec<Utterance>, generated: GeneratedChunk) -> (r:
    Result<ChunkResult, GenerationPortError>)
    ensures
        match r {
            Ok(result) => usable_answer(kind, chunk_index as int, generated, chunk@) && answer_result(
                kind,
                chunk_index as int,
                generated,
                chunk@,
                result,
            ),
            Err(e) => e is ResponseInvalid && !usable_answer(kind, chunk_index as int, generated, chunk@),
        },
{
    if !same_texts(&generated.processed_utterance_ids, &ids_of(chunk)) {
        return Err(GenerationPortError::ResponseInvalid);
    }
    let ghost answers = generated.blocks@;
    let ghost c = chunk_index as int;
    match convert_generated_blocks(kind, chunk_index, generated) {
        Err(e) => Err(e),
        Ok(blocks) => {
            let ghost taken = blocks@;
            let r = validate_chunk_result(kind, chunk_index, chunk, blocks);
            proof {
                if r is Ok {
                        let result = r->Ok_0;
                        assert forall|i: int, b: super::record::ContentBlockV1|
                            0 <= i < answers.len() && #[trigger] taken_over(kind, c, answers[i], b) implies usable(
                            kind,
                            b,
                            chunk@,
                        ) by {
                            assert(kept(kind, taken[i], chunk@, result.blocks@[i]));
                            assert(taken_over(kind, c, answers[i], taken[i]));
                            same_sources_same_use(kind, c, answers[i], taken[i], b, chunk@);
                        }
                        assert forall|i: int| 0 <= i < answers.len() implies stands_for(
                            kind,
                            c,
                            answers[i],
                            chunk@,
                            #[trigger] result.blocks@[i],
                        ) by {
                            assert(taken_over(kind, c, answers[i], taken[i]));
                            assert(kept(kind, taken[i], chunk@, result.blocks@[i]));
                        }
                        assert forall|i: int| 0 <= i < answers.len() implies acceptable(kind, #[trigger] answers[i]) by {
                            assert(taken_over(kind, c, answers[i], taken[i]));
                        }
                } else {
                        let i = choose|i: int|
                            0 <= i < taken.len() && !usable(kind, #[trigger] taken[i], chunk@);
                        assert(taken_over(kind, c, answers[i], taken[i]));
                }
            }
            r
        },
    }
}

/// The record that the answers about all pieces make.
pub fn finish_generation(
    kind: ArtifactKindV1,
    target: &ReadyGenerationTargetV1,
    evidence: &ValidatedEvidenceViewV1,
    context: &SourceContextSnapshotV1,
    results: Vec<ChunkResult>,
    now: UtcTime,
) -> (r: Result<DerivationRecordV1, GenerationPortError>)
    ensures
        match r {
            Ok(record) => mergeable(kind, results@, *evidence) && fresh_record(
                record,
                merged_facts(kind, results@, evidence.descriptor.utterance_count as int),
                evidence.descriptor,
                *context,
                Some(*target),
                EffectivePathV1::Llm,
                None,
                now,
            ),
            Err(e) => e is ResponseInvalid && !mergeable(kind, results@, *evidence),
        },
{
    merge_chunk_results(kind, evidence, context, Some(target), EffectivePathV1::Llm, None, results, now)
}

// ---- Failures ----

/// What a failed generation is recorded as: the failure's code, the code of the fallback
/// that follows, and the message.
pub open spec fn failure_text(e: GenerationPortError) -> Seq<char> {
    match e {
        GenerationPortError::Transport => "本地 AI 请求失败"@,
        GenerationPortError::ResponseInvalid => "本地 AI 返回内容未通过校验"@,
    }
}

/// The failure's code.
pub open spec fn failure_code(e: GenerationPortError) -> FailureCodeV1 {
    match e {
        GenerationPortError::Transport => FailureCodeV1::GenerationFailed,
        GenerationPortError::ResponseInvalid => FailureCodeV1::ResponseInvalid,
    }
}

/// The code of the fallback that follows.
pub open spec fn fallback_code(e: GenerationPortError) -> FallbackReasonCodeV1 {
    match e {
        GenerationPortError::Transport => FallbackReasonCodeV1::GenerationFailed,
        GenerationPortError::ResponseInvalid => FallbackReasonCodeV1::ResponseInvalid,
    }
}

/// What a failed generation is recorded as.
pub fn failure_for_port(error: GenerationPortError) -> (r: (
    FailureCodeV1,
    FallbackReasonCodeV1,
    &'static str,
))
    ensures
        r.0 == failure_code(error),
        r.1 == fallback_code(error),
        r.2@ == failure_text(error),
{
    match error {
        GenerationPortError::Transport => (
            FailureCodeV1::GenerationFailed,
            FallbackReasonCodeV1::GenerationFailed,
            "本地 AI 请求失败",
        ),
        GenerationPortError::ResponseInvalid => (
            FailureCodeV1::ResponseInvalid,
            FallbackReasonCodeV1::ResponseInvalid,
            "本地 AI 返回内容未通过校验",
        ),
    }
}

/// A prompt ends with its input.
pub proof fn a_prompt_ends_with_its_input(kind: ArtifactKindV1, index: int, count: int, input: Seq<char>)
    ensures
        input.is_suffix_of(prompt_around(kind, index, count, input)),
{
    let p = prompt_around(kind, index, count, input);
    assert(p.subrange((p.len() - input.len()) as int, p.len() as int) =~= input);
}

proof fn an_utterance_is_written_out(u: Utterance)
    ensures
        has(utterance_json(u), json_string(u.text@)),
        has(utterance_json(u), ",\"id\":"@ + json_string(u.id@)),
{
    let a = "{\"end_ms\":"@ + dec(u.end_ms as nat);
    let b = ",\"id\":"@ + json_string(u.id@);
    let c = ",\"speaker_id\":"@ + dec(u.speaker_id as nat) + ",\"start_ms\":"@ + dec(u.start_ms as nat)
        + ",\"text\":"@;
    let d = json_string(u.text@);
    written_in_order(
        "{\"end_ms\":"@,
        dec(u.end_ms as nat),
        ",\"id\":"@,
        json_string(u.id@),
        ",\"speaker_id\":"@,
        dec(u.speaker_id as nat),
        ",\"start_ms\":"@,
        dec(u.start_ms as nat),
        ",\"text\":"@,
        d,
        "}"@,
    );
    a_part_is_found(a, b, c + d + "}"@);
    a_part_is_found(a + b + c, d, "}"@);
    assert(a + b + c + d + "}"@ =~= a + b + (c + d + "}"@));
}

proof fn written_in_order(
    a: Seq<char>,
    b: Seq<char>,
    c: Seq<char>,
    d: Seq<char>,
    e: Seq<char>,
    f: Seq<char>,
    g: Seq<char>,
    h: Seq<char>,
    i: Seq<char>,
    j: Seq<char>,
    k: Seq<char>,
)
    ensures
        a + b + c + d + e + f + g + h + i + j + k == a + b + (c + d) + (e + f + g + h + i) + j + k,
{
    assert(a + b + c + d + e + f + g + h + i =~= a + b + (c + d) + (e + f + g + h + i));
}

/// A request shows the model every utterance of its piece, with its name and its whole text.
pub proof fn a_prompt_shows_every_utterance(
    kind: ArtifactKindV1,
    context: ContextView,
    us: Seq<Utterance>,
    index: int,
    count: int,
    k: int,
)
    requires
        0 <= k < us.len(),
    ensures
        has(prompt_of(kind, context, us, index, count), json_string(us[k].text@)),
        has(prompt_of(kind, context, us, index, count), ",\"id\":"@ + json_string(us[k].id@)),
{
    let input = input_json(kind, context, us, index, count);
    let prompt = prompt_of(kind, context, us, index, count);
    let list = joined(utterances_json(us), ","@);
    an_utterance_is_written_out(us[k]);
    a_joined_part_is_held(utterances_json(us), ","@, k);
    let one = utterances_json(us)[k];
    assert(one == utterance_json(us[k]));
    let head = input.take((input.len() - list.len() - "]}"@.len()) as int);
    assert(input =~= head + list + "]}"@);
    a_part_is_found(head, list, "]}"@);
    let front = prompt.take((prompt.len() - input.len()) as int);
    let none = Seq::<char>::empty();
    a_prompt_ends_with_its_input(kind, index, count, input);
    assert(prompt =~= front + input + none);
    a_part_is_found(front, input, none);
    held_inside(one, list, input);
    held_inside(one, input, prompt);
    held_inside(json_string(us[k].text@), one, prompt);
    held_inside(",\"id\":"@ + json_string(us[k].id@), one, prompt);
}

/// An answer is taken over word for word: each of its blocks becomes one block with the same
/// title and text, and keeps its references or has none.
pub proof fn an_answer_is_taken_over_word_for_word(
    kind: ArtifactKindV1,
    chunk: int,
    g: GeneratedChunk,
    piece: Seq<Utterance>,
    r: ChunkResult,
    i: int,
)
    requires
        answer_result(kind, chunk, g, piece, r),
        0 <= i < g.blocks@.len(),
    ensures
        r.chunk_index == chunk,
        views(r.input_ids@) == utterance_ids(piece),
        r.blocks@.len() == g.blocks@.len(),
        r.blocks@[i].text@ == g.blocks@[i].text@,
        r.blocks@[i].title == g.blocks@[i].title,
        r.blocks@[i].source_refs@ == g.blocks@[i].source_refs@ || r.blocks@[i].source_refs@.len() == 0,
        r.input_ids@.map_values(|id: String| id@) == piece.map_values(|u: Utterance| u.id@),
{
    assert(stands_for(kind, chunk, g.blocks@[i], piece, r.blocks@[i]));
    assert(views(r.input_ids@) =~= r.input_ids@.map_values(|id: String| id@));
    assert(utterance_ids(piece) =~= piece.map_values(|u: Utterance| u.id@));
}

/// A request is made for one piece of the transcript, in the place of that piece.
pub proof fn a_request_is_about_its_piece(
    q: GenerationRequest,
    kind: ArtifactKindV1,
    us: Seq<Utterance>,
    context: ContextView,
    index: int,
    k: int,
)
    requires
        asks(q, kind, us, context, index),
        0 <= index < chunks_of(us).len(),
        0 <= k < chunks_of(us)[index].len(),
    ensures
        q.kind == kind,
        q.utterances@ == chunks_of(us)[index],
        q.chunk_index == index,
        q.chunk_count == chunks_of(us).len(),
        has(q.prompt@, json_string(chunks_of(us)[index][k].text@)),
{
    a_prompt_shows_every_utterance(kind, context, chunks_of(us)[index], index, chunks_of(us).len() as int, k);
}

/// A text that is made in one piece is not told of pieces; each of several is told its number,
/// counted from one, and how many there are.
pub proof fn a_piece_is_told_its_number(index: int, count: int)
    requires
        0 <= index < count,
    ensures
        piece_remark(index, count).len() > 0 <==> count >= 2,
        count >= 2 ==> has(piece_remark(index, count), dec((index + 1) as nat) + "/"@ + dec(count as nat)),
{
    reveal_strlit("（本次为多块处理，第 ");
    if count >= 2 {
        let a = "（本次为多块处理，第 "@;
        let p = dec((index + 1) as nat) + "/"@ + dec(count as nat);
        let b = " 块，请按比例控制摘要字数）"@;
        assert(piece_remark(index, count) =~= a + p + b);
        crate::text::a_part_is_found(a, p, b);
    }
}

} // verus!
