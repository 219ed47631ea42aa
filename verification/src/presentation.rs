//! The documents of a job that are written from its checked result alone.

use vstd::prelude::*;
use crate::bilibili::{video_address, video_url};
use crate::content_results::assembly::{blocks_plain_text, plain_text};
use crate::content_results::current::{ContentCurrentV1, ContentSnapshotV1, primary_consumption_record};
use crate::content_results::kinds::{
    ArtifactKindV1, EffectivePathV1, FallbackReasonCodeV1, SourceStatusV1,
};
use crate::content_results::provenance::DerivationProvenanceV1;
use crate::content_results::record::{
    ContentBlockV1, DerivationRecordV1, SourceRefV1, rfc3339, time_text,
};
use crate::content_results::target::{
    GenerationApiFormatV1, GenerationParametersV1, GenerationProviderV1, TEMPERATURE_BITS,
};
use crate::document::{
    DocMeta, clock, faithful_entries, find_utterance, fmt_duration, fmt_ts, full_document, or_word,
    raw_document, render_faithful_body, render_full_markdown, render_raw_markdown, spoken_length,
    text_or, with_id,
};
use crate::funasr::Utterance;
use crate::jobs::{Job, SourceLanguage};
use crate::paths::{below, join_path};
use crate::reading_time::{
    READING_PROFILE_VERSION, ReadingEstimate, cjk_count, estimate, has_profile, reading_time,
    word_count,
};
use crate::text::{
    at, cat2, cat3, cat4, cat5, chars_of, contains, copy_opt, dec, decimal, find, find_chars,
    find_from, find_from_is_first, has, is_at, join, joined, opt_view, text, text_of, trim, trimmed,
    views, views_push, a_part_is_found,
};

verus! {

// ---- Summaries ----

/// Which summary a document contains.
#[derive(Debug, Clone, Copy, PartialEq, Eq, Structural)]
pub enum SummaryTier {
    Short,
    Standard,
    Long,
}

impl SummaryTier {
    /// The kind of a summary.
    pub open spec fn kind(self) -> ArtifactKindV1 {
        match self {
            SummaryTier::Short => ArtifactKindV1::ShortSummary,
            SummaryTier::Standard => ArtifactKindV1::DefaultSummary,
            SummaryTier::Long => ArtifactKindV1::LongSummary,
        }
    }

    /// The kind of a summary.
    pub fn artifact_kind(self) -> (r: ArtifactKindV1)
        ensures
            r == self.kind(),
    {
        match self {
            SummaryTier::Short => ArtifactKindV1::ShortSummary,
            SummaryTier::Standard => ArtifactKindV1::DefaultSummary,
            SummaryTier::Long => ArtifactKindV1::LongSummary,
        }
    }

    /// The summary that is shown: the chosen one where it is there, and never another.
    pub fn resolve(self, snapshot: &ContentSnapshotV1) -> (r: Option<ArtifactKindV1>)
        ensures
            r == (if snapshot.current.slots.slot(self.kind()).current is Some {
                Some(self.kind())
            } else {
                None
            }),
    {
        let kind = self.artifact_kind();
        if snapshot.current.slots.get(kind).current.is_some() {
            Some(kind)
        } else {
            None
        }
    }
}

// ---- Where a record comes from ----

/// The name of a kind.
pub open spec fn kind_word(kind: ArtifactKindV1) -> Seq<char> {
    match kind {
        ArtifactKindV1::FaithfulText => "忠实正文"@,
        ArtifactKindV1::DefaultSummary => "默认摘要"@,
        ArtifactKindV1::ShortSummary => "短摘要"@,
        ArtifactKindV1::LongSummary => "长摘要"@,
        ArtifactKindV1::Highlights => "重点"@,
        ArtifactKindV1::Chapters => "章节"@,
    }
}

/// The name of a kind.
pub fn artifact_kind_label(kind: ArtifactKindV1) -> (r: &'static str)
    ensures
        r@ == kind_word(kind),
{
    match kind {
        ArtifactKindV1::FaithfulText => "忠实正文",
        ArtifactKindV1::DefaultSummary => "默认摘要",
        ArtifactKindV1::ShortSummary => "短摘要",
        ArtifactKindV1::LongSummary => "长摘要",
        ArtifactKindV1::Highlights => "重点",
        ArtifactKindV1::Chapters => "章节",
    }
}

/// The name of a path.
pub open spec fn path_word(path: EffectivePathV1) -> Seq<char> {
    match path {
        EffectivePathV1::Rules => "规则生成"@,
        EffectivePathV1::Llm => "AI 生成"@,
        EffectivePathV1::RulesFallback => "规则回退"@,
    }
}

/// The name of a path.
pub fn effective_path_label(path: EffectivePathV1) -> (r: &'static str)
    ensures
        r@ == path_word(path),
{
    match path {
        EffectivePathV1::Rules => "规则生成",
        EffectivePathV1::Llm => "AI 生成",
        EffectivePathV1::RulesFallback => "规则回退",
    }
}

/// The name of a status.
pub open spec fn status_word(status: SourceStatusV1) -> Seq<char> {
    match status {
        SourceStatusV1::Mapped => "可映射"@,
        SourceStatusV1::Limited => "受限"@,
    }
}

/// The name of a status.
pub fn source_status_label(status: SourceStatusV1) -> (r: &'static str)
    ensures
        r@ == status_word(status),
{
    match status {
        SourceStatusV1::Mapped => "可映射",
        SourceStatusV1::Limited => "受限",
    }
}

/// The name of a provider.
pub open spec fn provider_word(provider: GenerationProviderV1) -> Seq<char> {
    match provider {
        GenerationProviderV1::OpenAiCompatible => "OpenAI-compatible"@,
        GenerationProviderV1::AnthropicCompatible => "Anthropic-compatible"@,
    }
}

/// The name of a provider.
pub fn provider_label(provider: GenerationProviderV1) -> (r: &'static str)
    ensures
        r@ == provider_word(provider),
{
    match provider {
        GenerationProviderV1::OpenAiCompatible => "OpenAI-compatible",
        GenerationProviderV1::AnthropicCompatible => "Anthropic-compatible",
    }
}

/// The name of a protocol.
pub open spec fn format_word(format: Option<GenerationApiFormatV1>) -> Seq<char> {
    match format {
        Some(GenerationApiFormatV1::OpenAiChatCompletions) => "chat-completions"@,
        Some(GenerationApiFormatV1::AnthropicMessages) => "messages"@,
        None => "未使用"@,
    }
}

/// The name of a protocol.
pub fn api_format_label(format: Option<GenerationApiFormatV1>) -> (r: &'static str)
    ensures
        r@ == format_word(format),
{
    match format {
        Some(GenerationApiFormatV1::OpenAiChatCompletions) => "chat-completions",
        Some(GenerationApiFormatV1::AnthropicMessages) => "messages",
        None => "未使用",
    }
}

/// The parameters in words. The only temperature that is ever used is 0.2.
pub open spec fn parameters_word(p: Option<GenerationParametersV1>) -> Seq<char> {
    match p {
        Some(GenerationParametersV1::OpenAiChatCompletions { .. }) => "temperature=0.2"@,
        Some(GenerationParametersV1::AnthropicMessages { max_tokens }) => "max_tokens="@ + dec(
            max_tokens as nat,
        ),
        None => "none"@,
    }
}

/// The temperature that is named, if one is, is the one in use.
pub open spec fn usual_temperature(p: Option<GenerationParametersV1>) -> bool {
    p matches Some(GenerationParametersV1::OpenAiChatCompletions { temperature_bits })
        ==> temperature_bits == TEMPERATURE_BITS
}

/// The parameters in words.
pub fn parameters_label(p: Option<GenerationParametersV1>) -> (r: String)
    requires
        usual_temperature(p),
    ensures
        r@ == parameters_word(p),
{
    match p {
        Some(GenerationParametersV1::OpenAiChatCompletions { .. }) => text("temperature=0.2"),
        Some(GenerationParametersV1::AnthropicMessages { max_tokens }) => cat2(
            "max_tokens=",
            decimal(max_tokens as u64).as_str(),
        ),
        None => text("none"),
    }
}

/// The name of the reason for a fallback.
pub open spec fn reason_word(code: FallbackReasonCodeV1) -> Seq<char> {
    match code {
        FallbackReasonCodeV1::TargetUnavailable => "target_unavailable / AI 配置不可用"@,
        FallbackReasonCodeV1::GenerationFailed => "generation_failed / AI 生成失败"@,
        FallbackReasonCodeV1::ResponseInvalid => "response_invalid / AI 响应未通过校验"@,
    }
}

/// The name of the reason for a fallback.
pub fn fallback_reason_code_label(code: FallbackReasonCodeV1) -> (r: &'static str)
    ensures
        r@ == reason_word(code),
{
    match code {
        FallbackReasonCodeV1::TargetUnavailable => "target_unavailable / AI 配置不可用",
        FallbackReasonCodeV1::GenerationFailed => "generation_failed / AI 生成失败",
        FallbackReasonCodeV1::ResponseInvalid => "response_invalid / AI 响应未通过校验",
    }
}

/// The line on the prompt.
pub open spec fn prompt_line(p: DerivationProvenanceV1) -> Seq<char> {
    match (p.prompt_id, p.prompt_version) {
        (Some(id), Some(version)) => "> prompt "@ + id@ + " v"@ + dec(version as nat) + "。\n"@,
        _ => Seq::empty(),
    }
}

/// The line on the model.
pub open spec fn model_line(p: DerivationProvenanceV1) -> Seq<char> {
    match p.provider {
        Some(provider) => "> AI："@ + provider_word(provider) + " / "@ + format_word(p.api_format)
            + "；endpoint：`"@ + or_word(p.endpoint, "未提供"@) + "`；模型：`"@ + or_word(p.model, "未提供"@)
            + "`；参数："@ + parameters_word(p.parameters) + "。\n"@,
        None => Seq::empty(),
    }
}

/// The line on the fallback.
pub open spec fn fallback_line(p: DerivationProvenanceV1) -> Seq<char> {
    match p.fallback_reason {
        Some(reason) => "> 回退原因："@ + reason_word(reason.code) + "（"@ + reason.message@ + "）。\n"@,
        None => Seq::empty(),
    }
}

/// Where a record comes from, given the time at which it was made.
pub open spec fn provenance_lines(r: DerivationRecordV1, time: Seq<char>) -> Seq<char> {
    let p = r.provenance;
    "> 类型："@ + kind_word(r.kind) + "；路径："@ + path_word(p.effective_path) + "；revision "@ + dec(
        r.revision as nat,
    ) + "；生成时间："@ + time + "；recipe "@ + p.recipe_id@ + " v"@ + dec(p.recipe_version as nat) + "；rules "@
        + p.rules_id@ + " v"@ + dec(p.rules_version as nat) + "。\n"@ + prompt_line(p) + model_line(p)
        + fallback_line(p)
}

/// Writes where a record comes from, given the time at which it was made.
pub fn format_provenance_at(record: &DerivationRecordV1, time: &str) -> (r: String)
    requires
        usual_temperature(record.provenance.parameters),
    ensures
        r@ == provenance_lines(*record, time@),
{
    let p = &record.provenance;
    let mut out = cat4(
        "> 类型：",
        artifact_kind_label(record.kind),
        "；路径：",
        effective_path_label(p.effective_path),
    );
    out.append("；revision ");
    out.append(decimal(record.revision as u64).as_str());
    out.append("；生成时间：");
    out.append(time);
    out.append("；recipe ");
    out.append(p.recipe_id.as_str());
    out.append(" v");
    out.append(decimal(p.recipe_version as u64).as_str());
    out.append("；rules ");
    out.append(p.rules_id.as_str());
    out.append(" v");
    out.append(decimal(p.rules_version as u64).as_str());
    out.append("。\n");
    let ghost head = out@;
    assert(head + Seq::<char>::empty() =~= head);
    if let (Some(id), Some(version)) = (&p.prompt_id, &p.prompt_version) {
        let line = cat5("> prompt ", id.as_str(), " v", decimal(*version as u64).as_str(), "。\n");
        out.append(line.as_str());
    }
    let ghost prompted = out@;
    assert(prompted == head + prompt_line(*p));
    assert(prompted + Seq::<char>::empty() =~= prompted);
    if let Some(provider) = p.provider {
        let mut line = cat4("> AI：", provider_label(provider), " / ", api_format_label(p.api_format));
        line.append("；endpoint：`");
        line.append(text_or(&p.endpoint, "未提供"));
        line.append("`；模型：`");
        line.append(text_or(&p.model, "未提供"));
        line.append("`；参数：");
        line.append(parameters_label(p.parameters).as_str());
        line.append("。\n");
        out.append(line.as_str());
    }
    let ghost modelled = out@;
    assert(modelled == prompted + model_line(*p));
    assert(modelled + Seq::<char>::empty() =~= modelled);
    if let Some(reason) = &p.fallback_reason {
        let line = cat5(
            "> 回退原因：",
            fallback_reason_code_label(reason.code),
            "（",
            reason.message.as_str(),
            "）。\n",
        );
        out.append(line.as_str());
    }
    assert(out@ == modelled + fallback_line(*p));
    out
}

/// A record that can be shown: its time is a date, and its temperature the one in use.
pub open spec fn presentable(r: DerivationRecordV1) -> bool {
    r.created_at.valid() && usual_temperature(r.provenance.parameters)
}

/// Whether a record can be written about.
pub fn is_presentable(record: &DerivationRecordV1) -> (b: bool)
    ensures
        b == presentable(*record),
{
    record.created_at.is_valid() && match record.provenance.parameters {
        Some(GenerationParametersV1::OpenAiChatCompletions { temperature_bits }) => temperature_bits
            == TEMPERATURE_BITS,
        _ => true,
    }
}

/// Where a record comes from.
pub open spec fn origin(r: DerivationRecordV1) -> Seq<char> {
    provenance_lines(r, rfc3339(r.created_at.seconds, r.created_at.nanoseconds))
}

/// Writes where a record comes from.
pub fn format_provenance(record: &DerivationRecordV1) -> (r: String)
    requires
        presentable(*record),
    ensures
        r@ == origin(*record),
{
    let time = time_text(record.created_at);
    format_provenance_at(record, time.as_str())
}

// ---- Sources ----

/// A link to a moment.
pub open spec fn moment_link(job: Job, ms: u64) -> Seq<char> {
    "["@ + clock(ms) + "]("@ + video_address(job.bvid@, job.page, Some(ms)) + ")"@
}

fn write_moment_link(job: &Job, ms: u64) -> (r: String)
    ensures
        r@ == moment_link(*job, ms),
{
    let ts = fmt_ts(ms);
    let url = video_url(job.bvid.as_str(), job.page, Some(ms));
    cat5("[", ts.as_str(), "](", url.as_str(), ")")
}

/// The links of one source: to where it begins and to where it ends.
pub open spec fn source_links(job: Job, s: SourceRefV1, us: Seq<Utterance>) -> Option<Seq<char>> {
    let ids = s.utterance_ids@;
    if ids.len() == 0 {
        None
    } else {
        match (with_id(us, ids[0]@, us.len() as int), with_id(us, ids.last()@, us.len() as int)) {
            (Some(first), Some(last)) => Some(
                moment_link(job, first.start_ms) + "–"@ + moment_link(job, last.end_ms),
            ),
            _ => None,
        }
    }
}

fn write_source_links(job: &Job, s: &SourceRefV1, us: &Vec<Utterance>) -> (r: Option<String>)
    ensures
        opt_view(r) == source_links(*job, *s, us@),
{
    if s.utterance_ids.len() == 0 {
        return None;
    }
    let first = match find_utterance(us, s.utterance_ids[0].as_str()) {
        Some(u) => u,
        None => {
            return None;
        },
    };
    let last = match find_utterance(us, s.utterance_ids[s.utterance_ids.len() - 1].as_str()) {
        Some(u) => u,
        None => {
            return None;
        },
    };
    let a = write_moment_link(job, first.start_ms);
    let b = write_moment_link(job, last.end_ms);
    Some(cat3(a.as_str(), "–", b.as_str()))
}

/// The links of the first `n` sources of a block.
pub open spec fn links_of(job: Job, refs: Seq<SourceRefV1>, us: Seq<Utterance>, n: int) -> Seq<Seq<char>>
    decreases n,
{
    if n <= 0 {
        Seq::empty()
    } else {
        match source_links(job, refs[n - 1], us) {
            Some(l) => links_of(job, refs, us, n - 1).push(l),
            None => links_of(job, refs, us, n - 1),
        }
    }
}

/// The sources of a block.
pub open spec fn block_sources(job: Job, b: ContentBlockV1, us: Seq<Utterance>) -> Seq<char> {
    joined(links_of(job, b.source_refs@, us, b.source_refs@.len() as int), "、"@)
}

/// Writes the sources of a block.
pub fn render_block_sources(job: &Job, block: &ContentBlockV1, utterances: &Vec<Utterance>) -> (r: String)
    ensures
        r@ == block_sources(*job, *block, utterances@),
{
    let mut links: Vec<String> = Vec::new();
    let mut i: usize = 0;
    assert(views(links@) =~= Seq::<Seq<char>>::empty());
    while i < block.source_refs.len()
        invariant
            i <= block.source_refs@.len(),
            views(links@) == links_of(*job, block.source_refs@, utterances@, i as int),
        decreases block.source_refs@.len() - i,
    {
        if let Some(l) = write_source_links(job, &block.source_refs[i], utterances) {
            proof {
                views_push(links@, l);
            }
            links.push(l);
        }
        i += 1;
    }
    join(&links, "、")
}

// ---- The sections of a document ----

/// One block of a section.
pub open spec fn section_block(job: Job, b: ContentBlockV1, us: Seq<Utterance>) -> Seq<char> {
    (match b.title {
        Some(t) => "### "@ + trimmed(t@) + "\n\n"@,
        None => Seq::empty(),
    }) + (if b.source_status is Limited {
        "> 来源受限\n\n"@
    } else {
        Seq::empty()
    }) + trimmed(b.text@) + "\n\n"@ + (if b.source_status is Mapped && block_sources(job, b, us).len() > 0 {
        "来源："@ + block_sources(job, b, us) + "\n\n"@
    } else {
        Seq::empty()
    })
}

fn write_section_block(job: &Job, b: &ContentBlockV1, us: &Vec<Utterance>) -> (r: String)
    ensures
        r@ == section_block(*job, *b, us@),
{
    let mut out = match &b.title {
        Some(t) => cat3("### ", trim(t.as_str()), "\n\n"),
        None => String::new(),
    };
    let ghost titled = out@;
    assert(b.title is None ==> titled =~= Seq::<char>::empty());
    assert(titled + Seq::<char>::empty() =~= titled);
    if b.source_status == SourceStatusV1::Limited {
        out.append("> 来源受限\n\n");
    }
    out.append(trim(b.text.as_str()));
    out.append("\n\n");
    let ghost main = out@;
    assert(main + Seq::<char>::empty() =~= main);
    if b.source_status == SourceStatusV1::Mapped {
        let sources = render_block_sources(job, b, us);
        if !sources.as_str().is_empty() {
            let line = cat3("来源：", sources.as_str(), "\n\n");
            out.append(line.as_str());
        }
    }
    out
}

/// The first `n` blocks of a section.
pub open spec fn section_blocks(job: Job, bs: Seq<ContentBlockV1>, us: Seq<Utterance>, n: int) -> Seq<char>
    decreases n,
{
    if n <= 0 {
        Seq::empty()
    } else {
        section_blocks(job, bs, us, n - 1) + section_block(job, bs[n - 1], us)
    }
}

/// A section: its heading, where it comes from, and its blocks.
pub open spec fn section(job: Job, heading: Seq<char>, r: DerivationRecordV1, us: Seq<Utterance>) -> Seq<char> {
    heading + "\n\n"@ + origin(r) + "> 来源"@ + status_word(r.validation.record_source_status) + "\n\n"@
        + section_blocks(job, r.blocks@, us, r.blocks@.len() as int)
}

fn write_section(job: &Job, heading: &str, r: &DerivationRecordV1, us: &Vec<Utterance>) -> (s: String)
    requires
        presentable(*r),
    ensures
        s@ == section(*job, heading@, *r, us@),
{
    let mut out = cat2(heading, "\n\n");
    out.append(format_provenance(r).as_str());
    out.append("> 来源");
    out.append(source_status_label(r.validation.record_source_status));
    out.append("\n\n");
    let ghost head = out@;
    let mut i: usize = 0;
    assert(head + Seq::<char>::empty() =~= head);
    while i < r.blocks.len()
        invariant
            i <= r.blocks@.len(),
            out@ == head + section_blocks(*job, r.blocks@, us@, i as int),
        decreases r.blocks@.len() - i,
    {
        let b = write_section_block(job, &r.blocks[i], us);
        let ghost before = out@;
        out.append(b.as_str());
        assert(out@ =~= head + section_blocks(*job, r.blocks@, us@, i + 1));
        i += 1;
    }
    out
}

/// The section of an enhancement: the record, or why there is none.
pub open spec fn enhancement_section(job: Job, s: ContentSnapshotV1, kind: ArtifactKindV1, heading: Seq<char>) -> Seq<
    char,
> {
    let slot = s.current.slots.slot(kind);
    match slot.current {
        Some(r) => section(job, heading, r, s.evidence.utterances@),
        None => match slot.last_failure {
            Some(f) => heading + "\n\n> 当前未生成："@ + f.message@ + "\n\n"@,
            None => Seq::empty(),
        },
    }
}

fn write_enhancement_section(job: &Job, s: &ContentSnapshotV1, kind: ArtifactKindV1, heading: &str) -> (r: String)
    requires
        s.current.slots.slot(kind).current matches Some(x) ==> presentable(x),
    ensures
        r@ == enhancement_section(*job, *s, kind, heading@),
{
    let slot = s.current.slots.get(kind);
    match &slot.current {
        Some(r) => write_section(job, heading, r, &s.evidence.utterances),
        None => match &slot.last_failure {
            Some(f) => cat4(heading, "\n\n> 当前未生成：", f.message.as_str(), "\n\n"),
            None => {
                let e = String::new();
                assert(e@ =~= Seq::<char>::empty());
                e
            },
        },
    }
}

/// The section of the summary that was chosen.
pub open spec fn summary_section(job: Job, s: ContentSnapshotV1, tier: SummaryTier) -> Seq<char> {
    match s.current.slots.slot(tier.kind()).current {
        Some(r) => section(job, "## 摘要"@, r, s.evidence.utterances@),
        None => Seq::empty(),
    }
}

/// What is said of the faithful text.
pub open spec fn faithful_note(s: ContentSnapshotV1) -> Seq<char> {
    match s.current.slots.faithful_text.current {
        Some(r) => "## 忠实整理\n\n"@ + origin(r)
            + "忠实正文只允许对 Evidence 做保序、可核对的整理；正文主体见下方“全文”。\n\n"@,
        None => Seq::empty(),
    }
}

/// What is said of the evidence.
pub open spec fn evidence_note(s: ContentSnapshotV1) -> Seq<char> {
    "## 内容来源说明\n\n- 原始稿：FunASR Evidence 的完整输出，未经过 LLM；原始 Markdown 位于任务工作目录的 `transcript.raw.md`。\n- Evidence identity：`"@
        + s.current.evidence.identity@ + "`；来源片段数："@ + dec(s.current.evidence.utterance_count as nat)
        + "。\n\n"@
}

/// The sections that stand before the text.
pub open spec fn sections_of(job: Job, s: ContentSnapshotV1, tier: SummaryTier) -> Seq<char> {
    evidence_note(s) + faithful_note(s) + summary_section(job, s, tier) + enhancement_section(
        job,
        s,
        ArtifactKindV1::Highlights,
        "## 重点"@,
    ) + enhancement_section(job, s, ArtifactKindV1::Chapters, "## 章节"@)
}

/// Every record of a result can be shown.
pub open spec fn all_presentable(s: ContentSnapshotV1) -> bool {
    forall|kind: ArtifactKindV1|
        (#[trigger] s.current.slots.slot(kind)).current matches Some(r) ==> presentable(r)
}

fn is_slot_presentable(snapshot: &ContentSnapshotV1, kind: ArtifactKindV1) -> (b: bool)
    ensures
        b == (snapshot.current.slots.slot(kind).current matches Some(r) ==> presentable(r)),
{
    match &snapshot.current.slots.get(kind).current {
        Some(record) => is_presentable(record),
        None => true,
    }
}

/// Whether every record of a result can be written about.
pub fn is_all_presentable(snapshot: &ContentSnapshotV1) -> (b: bool)
    ensures
        b == all_presentable(*snapshot),
{
    let faithful = is_slot_presentable(snapshot, ArtifactKindV1::FaithfulText);
    let chapters = is_slot_presentable(snapshot, ArtifactKindV1::Chapters);
    let summary = is_slot_presentable(snapshot, ArtifactKindV1::DefaultSummary);
    let highlights = is_slot_presentable(snapshot, ArtifactKindV1::Highlights);
    let short = is_slot_presentable(snapshot, ArtifactKindV1::ShortSummary);
    let long = is_slot_presentable(snapshot, ArtifactKindV1::LongSummary);
    faithful && chapters && summary && highlights && short && long
}

/// Every record of a stored result that was accepted can be written about, as long as its time
/// can.
pub proof fn accepted_records_can_be_presented(current: ContentCurrentV1, kind: ArtifactKindV1)
    requires
        current.problem() is None,
        current.slots.slot(kind).current is Some,
        (current.slots.slot(kind).current->0).created_at.valid(),
    ensures
        presentable(current.slots.slot(kind).current->0),
{
    assert(current.slot_problem(kind) is None);
}

/// Writes the sections that stand before the text.
pub fn render_snapshot_sections(job: &Job, snapshot: &ContentSnapshotV1, tier: SummaryTier) -> (r: String)
    requires
        all_presentable(*snapshot),
    ensures
        r@ == sections_of(*job, *snapshot, tier),
{
    assert(snapshot.current.slots.slot(ArtifactKindV1::FaithfulText)
        == snapshot.current.slots.faithful_text);
    let mut out = cat5(
        "## 内容来源说明\n\n- 原始稿：FunASR Evidence 的完整输出，未经过 LLM；原始 Markdown 位于任务工作目录的 `transcript.raw.md`。\n- Evidence identity：`",
        snapshot.current.evidence.identity.as_str(),
        "`；来源片段数：",
        decimal(snapshot.current.evidence.utterance_count as u64).as_str(),
        "。\n\n",
    );
    let ghost a = out@;
    assert(a + Seq::<char>::empty() =~= a);
    if let Some(record) = &snapshot.current.slots.faithful_text.current {
        let note = cat3(
            "## 忠实整理\n\n",
            format_provenance(record).as_str(),
            "忠实正文只允许对 Evidence 做保序、可核对的整理；正文主体见下方“全文”。\n\n",
        );
        out.append(note.as_str());
    }
    let ghost b = out@;
    assert(b == a + faithful_note(*snapshot));
    assert(b + Seq::<char>::empty() =~= b);
    if let Some(kind) = tier.resolve(snapshot) {
        if let Some(record) = &snapshot.current.slots.get(kind).current {
            let s = write_section(job, "## 摘要", record, &snapshot.evidence.utterances);
            out.append(s.as_str());
        }
    }
    assert(out@ == b + summary_section(*job, *snapshot, tier));
    let h = write_enhancement_section(job, snapshot, ArtifactKindV1::Highlights, "## 重点");
    out.append(h.as_str());
    let c = write_enhancement_section(job, snapshot, ArtifactKindV1::Chapters, "## 章节");
    out.append(c.as_str());
    out
}

/// A document shows the summary that was chosen and no other: the other summaries may be
/// anything, or be missing, and the sections are the same.
pub proof fn only_the_chosen_summary_is_shown(job: Job, a: ContentSnapshotV1, b: ContentSnapshotV1, tier: SummaryTier)
    requires
        a.evidence.utterances@ == b.evidence.utterances@,
        a.current.evidence == b.current.evidence,
        forall|kind: ArtifactKindV1|
            kind == tier.kind() || !(kind is ShortSummary || kind is DefaultSummary || kind is LongSummary)
                ==> (#[trigger] a.current.slots.slot(kind)) == b.current.slots.slot(kind),
    ensures
        sections_of(job, a, tier) == sections_of(job, b, tier),
        a.current.slots.slot(tier.kind()).current is None ==> summary_section(job, a, tier).len() == 0,
{
    assert(a.current.slots.slot(ArtifactKindV1::FaithfulText) == b.current.slots.slot(
        ArtifactKindV1::FaithfulText,
    ));
    assert(a.current.slots.slot(ArtifactKindV1::Highlights) == b.current.slots.slot(
        ArtifactKindV1::Highlights,
    ));
    assert(a.current.slots.slot(ArtifactKindV1::Chapters) == b.current.slots.slot(
        ArtifactKindV1::Chapters,
    ));
    assert(a.current.slots.slot(tier.kind()) == b.current.slots.slot(tier.kind()));
}

// ---- The reading time in the head ----

/// The language of a job: as recognised, or else as asked for.
pub open spec fn language_of(job: Job) -> Option<SourceLanguage> {
    match job.transcription_result {
        Some(r) if r.reported_language is Some => r.reported_language,
        _ => match job.transcription_selection {
            Some(s) => Some(s.requested_language),
            None => None,
        },
    }
}

/// The language of a job.
pub fn job_language(job: &Job) -> (r: Option<SourceLanguage>)
    ensures
        r == language_of(*job),
{
    if let Some(result) = &job.transcription_result {
        if result.reported_language.is_some() {
            return result.reported_language;
        }
    }
    match &job.transcription_selection {
        Some(s) => Some(s.requested_language),
        None => None,
    }
}

/// A time in minutes, rounded up.
pub open spec fn minutes_up(ms: u64) -> nat {
    ((ms + 59999) / 60000) as nat
}

fn count_minutes(ms: u64) -> (r: u64)
    ensures
        r == minutes_up(ms),
{
    if ms == 0 {
        0
    } else {
        (ms - 1) / 60000 + 1
    }
}

/// The line on the length of a video.
pub open spec fn length_line(ms: Option<u64>) -> Seq<char> {
    match ms {
        Some(ms) => "- 视频时长: "@ + spoken_length(ms) + "\n"@,
        None => Seq::empty(),
    }
}

/// The lines on the reading time. What is not known is left out.
pub open spec fn reading_lines(e: ReadingEstimate) -> Seq<char> {
    "- 正文规模: 约 "@ + e.scale.scale_text() + "\n"@ + match (e.reading_ms, e.saved_ms) {
        (Some(reading), Some(saved)) => "- 估算口径: "@ + READING_PROFILE_VERSION@
            + "（中文 400 字/分、英文 240 词/分、1.0x 倍速；依据 Brysbaert 2019 与 2024 中文阅读实验）\n"@ + length_line(
            e.video_ms,
        ) + "- 预计阅读: 约 "@ + dec(minutes_up(reading)) + " 分钟\n- 预计节省: 约 "@ + dec(minutes_up(saved))
            + " 分钟\n"@,
        _ => length_line(e.video_ms),
    }
}

fn write_length_line(ms: Option<u64>) -> (r: String)
    ensures
        r@ == length_line(ms),
{
    match ms {
        Some(ms) => cat3("- 视频时长: ", fmt_duration(ms).as_str(), "\n"),
        None => {
            let e = String::new();
            assert(e@ =~= Seq::<char>::empty());
            e
        },
    }
}

/// Writes the lines on the reading time.
pub fn write_reading_lines(e: ReadingEstimate) -> (r: String)
    ensures
        r@ == reading_lines(e),
{
    let mut out = cat3("- 正文规模: 约 ", e.scale.format_scale().as_str(), "\n");
    let length = write_length_line(e.video_ms);
    match (e.reading_ms, e.saved_ms) {
        (Some(reading), Some(saved)) => {
            let mut more = cat4(
                "- 估算口径: ",
                READING_PROFILE_VERSION,
                "（中文 400 字/分、英文 240 词/分、1.0x 倍速；依据 Brysbaert 2019 与 2024 中文阅读实验）\n",
                length.as_str(),
            );
            more.append("- 预计阅读: 约 ");
            more.append(decimal(count_minutes(reading)).as_str());
            more.append(" 分钟\n- 预计节省: 约 ");
            more.append(decimal(count_minutes(saved)).as_str());
            more.append(" 分钟\n");
            out.append(more.as_str());
        },
        _ => {
            out.append(length.as_str());
        },
    }
    out
}

/// The end of the line that begins at `i`: behind the line break, or the end of the text.
pub open spec fn line_end(s: Seq<char>, i: int) -> int {
    match find_from(s, "\n"@, i) {
        Some(k) => k + 1,
        None => s.len() as int,
    }
}

/// Where the two lines end that the reading time replaces: the count of characters, and the
/// reading time behind it.
pub open spec fn replaced_end(s: Seq<char>, i: int) -> int {
    let e = line_end(s, i);
    if has(s.skip(i), "阅读时间"@) && at(s, "- 阅读时间"@, e) {
        match find_from(s, "\n"@, e) {
            Some(k) => k + 1,
            None => e,
        }
    } else {
        e
    }
}

/// A document with the lines on the reading time in the place of the old ones.
pub open spec fn with_reading_lines(s: Seq<char>, lines: Seq<char>) -> Seq<char> {
    match find_from(s, "- 字符数: "@, 0) {
        None => s,
        Some(i) => s.take(i) + lines + s.skip(replaced_end(s, i)),
    }
}

fn end_of_line(v: &Vec<char>, i: usize) -> (r: Option<usize>)
    requires
        i <= v@.len(),
    ensures
        match r {
            Some(e) => find_from(v@, "\n"@, i as int) == Some(e - 1) && i < e <= v@.len(),
            None => find_from(v@, "\n"@, i as int) is None,
        },
{
    let nl = chars_of("\n");
    proof {
        reveal_strlit("\n");
        find_from_is_first(v@, "\n"@, i as int);
    }
    match find_chars(v, &nl, i) {
        Some(k) => {
            assert(k + 1 <= v.len());
            Some(k + 1)
        },
        None => None,
    }
}

/// Puts the lines on the reading time in the place of the old ones.
pub fn replace_reading_lines(document: &str, lines: &str) -> (r: String)
    ensures
        r@ == with_reading_lines(document@, lines@),
{
    let v = chars_of(document);
    let start: usize = match find(document, "- 字符数: ") {
        Some(i) => i,
        None => {
            return text(document);
        },
    };
    assert(start <= v.len());
    let first: usize = match end_of_line(&v, start) {
        Some(e) => e,
        None => v.len(),
    };
    let rest = text_of(&v, start, v.len());
    assert(rest@ =~= document@.skip(start as int));
    let marker = chars_of("- 阅读时间");
    let end: usize = if contains(rest.as_str(), "阅读时间") && is_at(&v, &marker, first) {
        match end_of_line(&v, first) {
            Some(e) => e,
            None => first,
        }
    } else {
        first
    };
    let head = text_of(&v, 0, start);
    let tail = text_of(&v, end, v.len());
    assert(head@ =~= document@.take(start as int));
    assert(tail@ =~= document@.skip(end as int));
    cat3(head.as_str(), lines, tail.as_str())
}

/// The text that the reading time is worked out from.
pub open spec fn read_text(s: ContentSnapshotV1, tier: SummaryTier) -> Seq<char> {
    match s.current.slots.slot(tier.kind()).current {
        Some(r) => plain_text(r.blocks@),
        None => match s.current.slots.faithful_text.current {
            Some(r) => plain_text(r.blocks@),
            None => Seq::empty(),
        },
    }
}

/// The estimate for a text.
pub open spec fn estimated(e: ReadingEstimate, t: Seq<char>, video_ms: Option<u64>, language: Option<SourceLanguage>) -> bool {
    &&& e.scale.cjk_chars == cjk_count(t)
    &&& e.scale.latin_words == word_count(t)
    &&& e.video_ms == video_ms
    &&& e.reading_ms == (if has_profile(language) {
        Some(reading_time(e.scale) as u64)
    } else {
        None
    })
    &&& e.saved_ms == (match video_ms {
        Some(v) if has_profile(language) => Some(
            if reading_time(e.scale) >= v {
                0
            } else {
                (v - reading_time(e.scale)) as u64
            },
        ),
        _ => None,
    })
}

/// The estimate for the text that is read first.
pub fn reading_estimate(job: &Job, snapshot: &ContentSnapshotV1, tier: SummaryTier) -> (e: ReadingEstimate)
    ensures
        estimated(e, read_text(*snapshot, tier), job.duration_ms, language_of(*job)),
{
    let language = job_language(job);
    let words = match primary_consumption_record(snapshot, Some(tier.artifact_kind())) {
        Some(record) => blocks_plain_text(&record.blocks),
        None => {
            let e = String::new();
            assert(e@ =~= Seq::<char>::empty());
            e
        },
    };
    estimate(words.as_str(), job.duration_ms, language)
}

/// Puts the reading time of the text that is read first into a document.
pub fn rewrite_reading_time_metadata(document: &str, job: &Job, snapshot: &ContentSnapshotV1, tier: SummaryTier) -> (r:
    String)
    ensures
        exists|e: ReadingEstimate| #[trigger]
            estimated(e, read_text(*snapshot, tier), job.duration_ms, language_of(*job)) && r@
                == with_reading_lines(document@, reading_lines(e)),
{
    let e = reading_estimate(job, snapshot, tier);
    let lines = write_reading_lines(e);
    replace_reading_lines(document, lines.as_str())
}

// ---- Everything ----

/// A document with the sections before its text.
pub open spec fn with_sections(s: Seq<char>, sections: Seq<char>) -> Seq<char> {
    match find_from(s, "## 全文"@, 0) {
        Some(i) => s.take(i) + sections + s.skip(i),
        None => s,
    }
}

fn insert_sections(document: &str, sections: &str) -> (r: String)
    ensures
        r@ == with_sections(document@, sections@),
{
    let v = chars_of(document);
    match find(document, "## 全文") {
        Some(i) => {
            assert(i <= v.len());
            let head = text_of(&v, 0, i);
            let tail = text_of(&v, i, v.len());
            assert(head@ =~= document@.take(i as int));
            assert(tail@ =~= document@.skip(i as int));
            cat3(head.as_str(), sections, tail.as_str())
        },
        None => text(document),
    }
}

/// Why no document is written.
#[derive(Debug, PartialEq, Eq)]
pub enum DocumentError {
    Io(String),
    Snapshot(String),
}

/// Why no document is written, by value.
pub enum DocumentProblem {
    Io(Seq<char>),
    Snapshot(Seq<char>),
}

impl View for DocumentError {
    type V = DocumentProblem;

    open spec fn view(&self) -> DocumentProblem {
        match self {
            DocumentError::Io(m) => DocumentProblem::Io(m@),
            DocumentError::Snapshot(m) => DocumentProblem::Snapshot(m@),
        }
    }
}

impl DocumentError {
    /// The error in words.
    pub fn describe(&self) -> (r: String)
        ensures
            r@ == (match self@ {
                DocumentProblem::Io(m) => "document I/O: "@ + m,
                DocumentProblem::Snapshot(m) => "document snapshot: "@ + m,
            }),
    {
        match self {
            DocumentError::Io(m) => cat2("document I/O: ", m.as_str()),
            DocumentError::Snapshot(m) => cat2("document snapshot: ", m.as_str()),
        }
    }
}

/// The documents of a job and where they go.
#[derive(Debug)]
pub struct Presentation {
    pub raw_path: String,
    pub raw: String,
    pub readable_path: String,
    pub readable: String,
    pub full: String,
    /// Where the whole document goes, if the job has an output directory.
    pub full_path: Option<String>,
}

/// The head of a job's documents.
pub open spec fn meta_of(m: DocMeta, job: Job) -> bool {
    &&& m.title@ == job.title@
    &&& m.up_name@ == or_word(job.up_name, Seq::empty())
    &&& m.duration_ms == (match job.duration_ms {
        Some(d) => d,
        None => 0,
    })
    &&& m.bvid@ == job.bvid@
    &&& m.page == job.page
    &&& opt_view(m.source_url) == opt_view(job.source_url)
}

pub(crate) fn doc_meta(job: &Job) -> (m: DocMeta)
    ensures
        meta_of(m, *job),
{
    DocMeta {
        title: job.title.clone(),
        up_name: match &job.up_name {
            Some(n) => n.clone(),
            None => {
                let e = String::new();
                assert(e@ =~= Seq::<char>::empty());
                e
            },
        },
        duration_ms: match job.duration_ms {
            Some(d) => d,
            None => 0,
        },
        bvid: job.bvid.clone(),
        page: job.page,
        source_url: copy_opt(&job.source_url),
    }
}

/// Why a job's documents cannot be written from a result.
pub open spec fn presentation_problem(job: Job, s: ContentSnapshotV1) -> Option<DocumentProblem> {
    if job.work_dir is None {
        Some(DocumentProblem::Snapshot("任务没有工作目录"@))
    } else if s.current.job_id != job.id {
        Some(DocumentProblem::Snapshot("snapshot 与任务 ID 不匹配"@))
    } else if !s.current.evidence.alike(&s.evidence.descriptor) {
        Some(DocumentProblem::Snapshot("snapshot Evidence descriptor 不匹配"@))
    } else if s.current.slots.faithful_text.current is None {
        Some(DocumentProblem::Snapshot("snapshot 缺少忠实正文"@))
    } else {
        None
    }
}

/// The documents that are written from a result.
pub open spec fn presents(p: Presentation, job: Job, s: ContentSnapshotV1, tier: SummaryTier) -> bool {
    let us = s.evidence.utterances@;
    let blocks = (s.current.slots.faithful_text.current->0).blocks@;
    let work_dir = (job.work_dir->0)@;
    &&& p.raw_path@ == below(work_dir, "transcript.raw.md"@)
    &&& p.raw@ == raw_document(job, us)
    &&& p.readable_path@ == below(work_dir, "transcript.readable.md"@)
    &&& p.readable@ == faithful_entries(job, blocks, us, blocks.len() as int)
    &&& exists|m: DocMeta, e: ReadingEstimate| #[trigger]
        meta_of(m, job) && #[trigger] estimated(e, read_text(s, tier), job.duration_ms, language_of(job))
            && p.full@ == with_sections(
            with_reading_lines(
                full_document(job, m, us, Some(p.readable@), p.raw_path@),
                reading_lines(e),
            ),
            sections_of(job, s, tier),
        )
    &&& opt_view(p.full_path) == match job.final_output_dir {
        Some(d) => Some(below(d@, "full.md"@)),
        None => None,
    }
}

/// Writes the documents of a job from its result alone.
pub fn present(job: &Job, snapshot: &ContentSnapshotV1, tier: SummaryTier) -> (r: Result<
    Presentation,
    DocumentError,
>)
    requires
        all_presentable(*snapshot),
    ensures
        match r {
            Ok(p) => presentation_problem(*job, *snapshot) is None && presents(p, *job, *snapshot, tier),
            Err(e) => presentation_problem(*job, *snapshot) == Some(e@),
        },
{
    let work_dir = match &job.work_dir {
        Some(d) => d,
        None => {
            return Err(DocumentError::Snapshot(text("任务没有工作目录")));
        },
    };
    if snapshot.current.job_id != job.id {
        return Err(DocumentError::Snapshot(text("snapshot 与任务 ID 不匹配")));
    }
    if !snapshot.current.evidence.same_as(&snapshot.evidence.descriptor) {
        return Err(DocumentError::Snapshot(text("snapshot Evidence descriptor 不匹配")));
    }
    let faithful = match &snapshot.current.slots.faithful_text.current {
        Some(r) => r,
        None => {
            return Err(DocumentError::Snapshot(text("snapshot 缺少忠实正文")));
        },
    };
    let raw = render_raw_markdown(job, &snapshot.evidence.utterances);
    let readable = render_faithful_body(job, &faithful.blocks, &snapshot.evidence.utterances);
    let raw_path = join_path(work_dir.as_str(), "transcript.raw.md");
    let readable_path = join_path(work_dir.as_str(), "transcript.readable.md");
    let meta = doc_meta(job);
    let document = render_full_markdown(
        job,
        &meta,
        &snapshot.evidence.utterances,
        Some(readable.as_str()),
        raw_path.as_str(),
    );
    let document = rewrite_reading_time_metadata(document.as_str(), job, snapshot, tier);
    let sections = render_snapshot_sections(job, snapshot, tier);
    let full = insert_sections(document.as_str(), sections.as_str());
    let full_path = match &job.final_output_dir {
        Some(d) => Some(join_path(d.as_str(), "full.md")),
        None => None,
    };
    Ok(Presentation { raw_path, raw, readable_path, readable, full, full_path })
}

/// Where the whole document goes; the other two are written before this is asked.
pub fn full_document_path(p: &Presentation) -> (r: Result<String, DocumentError>)
    ensures
        match r {
            Ok(path) => opt_view(p.full_path) == Some(path@),
            Err(e) => p.full_path is None && e@ == DocumentProblem::Snapshot("任务没有最终输出目录"@),
        },
{
    match &p.full_path {
        Some(path) => Ok(path.clone()),
        None => Err(DocumentError::Snapshot(text("任务没有最终输出目录"))),
    }
}

// ---- What the documents of a result hold ----

proof fn held_on(a: Seq<char>, b: Seq<char>, p: Seq<char>)
    requires
        has(a, p),
    ensures
        has(a + b, p),
        has(b + a, p),
{
    let i = choose|i: int| at(a, p, i);
    assert((a + b).subrange(i, i + p.len() as int) =~= p);
    assert(at(a + b, p, i));
    let j = b.len() + i;
    assert((b + a).subrange(j, j + p.len() as int) =~= p);
    assert(at(b + a, p, j));
}

/// Sections are put before the full text of a document, which keeps everything else in its place;
/// a document without a full text is left alone.
pub proof fn sections_go_before_the_full_text(a: Seq<char>, b: Seq<char>, sections: Seq<char>)
    requires
        find_from(a + "## 全文"@ + b, "## 全文"@, 0) == Some(a.len() as int),
    ensures
        with_sections(a + "## 全文"@ + b, sections) == a + sections + "## 全文"@ + b,
{
    let s = a + "## 全文"@ + b;
    assert(s.take(a.len() as int) =~= a);
    assert(s.skip(a.len() as int) =~= "## 全文"@ + b);
    assert(a + sections + ("## 全文"@ + b) =~= a + sections + "## 全文"@ + b);
}

/// New lines on the reading time take the place of the two old ones, and of nothing else.
pub proof fn reading_lines_take_their_place(
    a: Seq<char>,
    count: Seq<char>,
    minutes: Seq<char>,
    b: Seq<char>,
    lines: Seq<char>,
)
    requires
        !count.contains('\n'),
        !minutes.contains('\n'),
        find_from(
            a + "- 字符数: "@ + count + seq!['\n'] + "- 阅读时间"@ + minutes + seq!['\n'] + b,
            "- 字符数: "@,
            0,
        ) == Some(a.len() as int),
    ensures
        with_reading_lines(
            a + "- 字符数: "@ + count + seq!['\n'] + "- 阅读时间"@ + minutes + seq!['\n'] + b,
            lines,
        ) == a + lines + b,
{
    reveal_strlit("- 字符数: ");
    reveal_strlit("- 阅读时间");
    reveal_strlit("阅读时间");
    reveal_strlit("\n");
    let head = "- 字符数: "@;
    let old = "- 阅读时间"@;
    let s = a + head + count + seq!['\n'] + old + minutes + seq!['\n'] + b;
    let i = a.len() as int;
    let first = head + count;
    let rest = old + minutes + seq!['\n'] + b;
    assert(s =~= a + first + seq!['\n'] + rest);
    assert(!first.contains('\n')) by {
        if first.contains('\n') {
            let k = choose|k: int| 0 <= k < first.len() && first[k] == '\n';
            if k >= head.len() {
                assert(count[k - head.len()] == '\n');
            }
        }
    }
    the_first_break(a, first, rest);
    let e = i + first.len() as int + 1;
    let second = old + minutes;
    assert(!second.contains('\n')) by {
        if second.contains('\n') {
            let k = choose|k: int| 0 <= k < second.len() && second[k] == '\n';
            if k >= old.len() {
                assert(minutes[k - old.len()] == '\n');
            }
        }
    }
    let front = a + first + seq!['\n'];
    assert(s =~= front + second + seq!['\n'] + b);
    the_first_break(front, second, b);
    assert(s.subrange(e, e + old.len() as int) =~= old);
    assert(at(s, old, e));
    let word = "阅读时间"@;
    let tail = s.skip(i);
    let x = first + seq!['\n'] + seq!['-', ' '];
    let y = minutes + seq!['\n'] + b;
    assert(old =~= seq!['-', ' '] + word);
    assert(tail =~= x + word + y);
    a_part_is_found(x, word, y);
    assert(s.take(i) =~= a);
    assert(s.skip(e + second.len() as int + 1) =~= b);
}

proof fn the_first_break(a: Seq<char>, line: Seq<char>, b: Seq<char>)
    requires
        !line.contains('\n'),
    ensures
        find_from(a + line + seq!['\n'] + b, "\n"@, a.len() as int) == Some(a.len() as int + line.len() as int),
{
    reveal_strlit("\n");
    let s = a + line + seq!['\n'] + b;
    let n = a.len() as int + line.len() as int;
    find_from_is_first(s, "\n"@, a.len() as int);
    assert(s.subrange(n, n + 1) =~= "\n"@);
    assert(at(s, "\n"@, n));
    let k = find_from(s, "\n"@, a.len() as int)->0;
    if k < n {
        assert(s.subrange(k, k + 1)[0] == '\n');
        assert(line[k - a.len()] == '\n');
    }
}

/// A started minute counts as one.
pub proof fn started_minutes_count(ms: u64)
    ensures
        ms <= 60_000 * minutes_up(ms),
        60_000 * minutes_up(ms) < ms + 60_000,
{
}

/// Every reference that can be followed becomes one link, in order.
pub proof fn every_reference_is_linked(job: Job, refs: Seq<SourceRefV1>, us: Seq<Utterance>, n: int)
    requires
        0 <= n <= refs.len(),
    ensures
        links_of(job, refs, us, n) == refs.take(n).filter(
            |r: SourceRefV1| source_links(job, r, us) is Some,
        ).map_values(|r: SourceRefV1| source_links(job, r, us)->0),
    decreases n,
{
    reveal(Seq::filter);
    let p = |r: SourceRefV1| source_links(job, r, us) is Some;
    let f = |r: SourceRefV1| source_links(job, r, us)->0;
    if n > 0 {
        every_reference_is_linked(job, refs, us, n - 1);
        assert(refs.take(n).drop_last() =~= refs.take(n - 1));
        assert(refs.take(n).last() == refs[n - 1]);
        let kept = refs.take(n - 1).filter(p);
        if p(refs[n - 1]) {
            assert(kept.push(refs[n - 1]).map_values(f) =~= kept.map_values(f).push(f(refs[n - 1])));
        }
    } else {
        assert(refs.take(n).filter(p).map_values(f) =~= Seq::<Seq<char>>::empty());
    }
}

/// The link of a reference leads from the beginning of its first utterance to the end of its last.
pub proof fn a_reference_links_to_its_stretch(job: Job, r: SourceRefV1, us: Seq<Utterance>, a: int, b: int)
    requires
        r.utterance_ids@.len() > 0,
        0 <= a < us.len(),
        0 <= b < us.len(),
        r.utterance_ids@[0]@ == us[a].id@,
        r.utterance_ids@.last()@ == us[b].id@,
        forall|i: int, j: int| 0 <= i < j < us.len() ==> (#[trigger] us[i]).id@ != (#[trigger] us[j]).id@,
    ensures
        source_links(job, r, us) == Some(
            "["@ + clock(us[a].start_ms) + "]("@ + video_address(job.bvid@, job.page, Some(us[a].start_ms)) + ")"@
                + "–"@ + ("["@ + clock(us[b].end_ms) + "]("@ + video_address(
                job.bvid@,
                job.page,
                Some(us[b].end_ms),
            ) + ")"@),
        ),
{
    crate::document::an_utterance_is_found_by_its_name(us, us[a].id@, us.len() as int);
    crate::document::an_utterance_is_found_by_its_name(us, us[b].id@, us.len() as int);
    assert(us[a].id@ == us[a].id@ && us[b].id@ == us[b].id@);
}

/// A section shows every block, in order, each with its title, its whole text but for the white
/// space around it, and its links.
pub proof fn a_section_shows_every_block(job: Job, bs: Seq<ContentBlockV1>, us: Seq<Utterance>, n: int)
    requires
        0 <= n <= bs.len(),
    ensures
        section_blocks(job, bs, us, n) == Seq::new(n as nat, |k: int| section_block(job, bs[k], us)).flatten(),
        forall|k: int| 0 <= k < n ==> has(section_blocks(job, bs, us, n), trimmed((#[trigger] bs[k]).text@)),
    decreases n,
{
    let f = |k: int| section_block(job, bs[k], us);
    let all = Seq::new(n as nat, f);
    if n > 0 {
        a_section_shows_every_block(job, bs, us, n - 1);
        let less = Seq::new((n - 1) as nat, f);
        assert(all =~= less.push(f(n - 1)));
        less.lemma_flatten_push(f(n - 1));
        a_block_is_shown_whole(job, bs[n - 1], us);
        let before = section_blocks(job, bs, us, n - 1);
        let last = section_block(job, bs[n - 1], us);
        assert forall|k: int| 0 <= k < n implies has(section_blocks(job, bs, us, n), trimmed((#[trigger] bs[k]).text@)) by {
            if k < n - 1 {
                held_on(before, last, trimmed(bs[k].text@));
            } else {
                held_on(last, before, trimmed(bs[k].text@));
            }
        }
    } else {
        assert(all =~= Seq::<Seq<char>>::empty());
    }
}

/// A block of a section shows its title, its text and, where it has sources, the links to them;
/// a block without sources says so.
pub proof fn a_block_is_shown_whole(job: Job, b: ContentBlockV1, us: Seq<Utterance>)
    ensures
        has(section_block(job, b, us), trimmed(b.text@)),
        b.title matches Some(t) ==> ("### "@ + trimmed(t@)).is_prefix_of(section_block(job, b, us)),
        b.source_status is Limited ==> has(section_block(job, b, us), "> 来源受限"@),
        b.source_status is Mapped && block_sources(job, b, us).len() > 0 ==> has(
            section_block(job, b, us),
            "来源："@ + block_sources(job, b, us),
        ),
{
    let title = match b.title {
        Some(t) => "### "@ + trimmed(t@) + "\n\n"@,
        None => Seq::empty(),
    };
    let mark = if b.source_status is Limited {
        "> 来源受限\n\n"@
    } else {
        Seq::empty()
    };
    let links = if b.source_status is Mapped && block_sources(job, b, us).len() > 0 {
        "来源："@ + block_sources(job, b, us) + "\n\n"@
    } else {
        Seq::empty()
    };
    let s = section_block(job, b, us);
    let body = trimmed(b.text@);
    assert(s == title + mark + body + "\n\n"@ + links);
    a_part_is_found(title + mark, body, "\n\n"@ + links);
    assert(title + mark + body + ("\n\n"@ + links) =~= s);
    if let Some(t) = b.title {
        let h = "### "@ + trimmed(t@);
        assert(s.subrange(0, h.len() as int) =~= h);
    }
    if b.source_status is Limited {
        reveal_strlit("> 来源受限\n\n");
        reveal_strlit("> 来源受限");
        reveal_strlit("\n\n");
        assert(mark =~= "> 来源受限"@ + "\n\n"@);
        a_part_is_found(title, "> 来源受限"@, "\n\n"@ + body + "\n\n"@ + links);
        assert(title + "> 来源受限"@ + ("\n\n"@ + body + "\n\n"@ + links) =~= s);
    }
    if b.source_status is Mapped && block_sources(job, b, us).len() > 0 {
        let l = "来源："@ + block_sources(job, b, us);
        a_part_is_found(title + mark + body + "\n\n"@, l, "\n\n"@);
        assert(title + mark + body + "\n\n"@ + l + "\n\n"@ =~= s);
    }
}

/// The sections of a result hold every text that it has of the chosen kinds: the chosen summary,
/// the highlights and the chapters, each under its heading and with where it comes from. One that
/// could not be made says why.
pub proof fn the_sections_show_what_there_is(job: Job, s: ContentSnapshotV1, tier: SummaryTier)
    ensures
        s.current.slots.slot(tier.kind()).current matches Some(r) ==> has(
            sections_of(job, s, tier),
            section(job, "## 摘要"@, r, s.evidence.utterances@),
        ),
        s.current.slots.slot(ArtifactKindV1::Highlights).current matches Some(r) ==> has(
            sections_of(job, s, tier),
            section(job, "## 重点"@, r, s.evidence.utterances@),
        ),
        s.current.slots.slot(ArtifactKindV1::Chapters).current matches Some(r) ==> has(
            sections_of(job, s, tier),
            section(job, "## 章节"@, r, s.evidence.utterances@),
        ),
        s.current.slots.slot(ArtifactKindV1::Highlights).current is None ==> (s.current.slots.slot(
            ArtifactKindV1::Highlights,
        ).last_failure matches Some(f) ==> has(sections_of(job, s, tier), f.message@)),
        s.current.slots.slot(ArtifactKindV1::Chapters).current is None ==> (s.current.slots.slot(
            ArtifactKindV1::Chapters,
        ).last_failure matches Some(f) ==> has(sections_of(job, s, tier), f.message@)),
        has(sections_of(job, s, tier), s.current.evidence.identity@),
{
    let a = evidence_note(s);
    let b = faithful_note(s);
    let c = summary_section(job, s, tier);
    let d = enhancement_section(job, s, ArtifactKindV1::Highlights, "## 重点"@);
    let e = enhancement_section(job, s, ArtifactKindV1::Chapters, "## 章节"@);
    let whole = sections_of(job, s, tier);
    assert(whole == a + b + c + d + e);
    five_in_a_row(a, b, c, d, e);
    a_failure_is_told(job, s, ArtifactKindV1::Highlights, "## 重点"@);
    a_failure_is_told(job, s, ArtifactKindV1::Chapters, "## 章节"@);
    if let Some(f) = s.current.slots.slot(ArtifactKindV1::Highlights).last_failure {
        if s.current.slots.slot(ArtifactKindV1::Highlights).current is None {
            crate::document::held_inside(f.message@, d, whole);
        }
    }
    if let Some(f) = s.current.slots.slot(ArtifactKindV1::Chapters).last_failure {
        if s.current.slots.slot(ArtifactKindV1::Chapters).current is None {
            crate::document::held_inside(f.message@, e, whole);
        }
    }
    the_evidence_is_named(s);
    crate::document::held_inside(s.current.evidence.identity@, a, whole);
}

proof fn five_in_a_row(a: Seq<char>, b: Seq<char>, c: Seq<char>, d: Seq<char>, e: Seq<char>)
    ensures
        has(a + b + c + d + e, a),
        has(a + b + c + d + e, c),
        has(a + b + c + d + e, d),
        has(a + b + c + d + e, e),
{
    let none = Seq::<char>::empty();
    a_part_is_found(none, a, b + c + d + e);
    assert(none + a + (b + c + d + e) =~= a + b + c + d + e);
    a_part_is_found(a + b, c, d + e);
    assert(a + b + c + (d + e) =~= a + b + c + d + e);
    a_part_is_found(a + b + c, d, e);
    a_part_is_found(a + b + c + d, e, none);
    assert(a + b + c + d + e + none =~= a + b + c + d + e);
}

proof fn the_evidence_is_named(s: ContentSnapshotV1)
    ensures
        has(evidence_note(s), s.current.evidence.identity@),
{
    let id = s.current.evidence.identity@;
    let x = "## 内容来源说明\n\n- 原始稿：FunASR Evidence 的完整输出，未经过 LLM；原始 Markdown 位于任务工作目录的 `transcript.raw.md`。\n- Evidence identity：`"@;
    let y = "`；来源片段数："@ + dec(s.current.evidence.utterance_count as nat) + "。\n\n"@;
    a_part_is_found(x, id, y);
    assert(x + id + y =~= evidence_note(s));
}

proof fn a_failure_is_told(job: Job, s: ContentSnapshotV1, kind: ArtifactKindV1, heading: Seq<char>)
    ensures
        s.current.slots.slot(kind).current is None ==> (s.current.slots.slot(kind).last_failure matches Some(f)
            ==> has(enhancement_section(job, s, kind, heading), f.message@)),
{
    if s.current.slots.slot(kind).current is None {
        if let Some(f) = s.current.slots.slot(kind).last_failure {
            a_part_is_found(heading + "\n\n> 当前未生成："@, f.message@, "\n\n"@);
        }
    }
}

/// What is read, and timed, is the chosen summary where there is one, and else the faithful text.
pub proof fn the_chosen_summary_is_timed(s: ContentSnapshotV1, tier: SummaryTier)
    ensures
        s.current.slots.slot(tier.kind()).current matches Some(r) ==> read_text(s, tier) == joined(
            r.blocks@.map_values(|b: ContentBlockV1| b.text@),
            seq!['\n'],
        ),
        s.current.slots.slot(tier.kind()).current is None ==> (s.current.slots.faithful_text.current matches Some(r)
            ==> read_text(s, tier) == joined(r.blocks@.map_values(|b: ContentBlockV1| b.text@), seq!['\n'])),
        tier is Short ==> tier.kind() is ShortSummary,
        tier is Standard ==> tier.kind() is DefaultSummary,
        tier is Long ==> tier.kind() is LongSummary,
{
    reveal_strlit("\n");
    assert("\n"@ =~= seq!['\n']);
    if let Some(r) = s.current.slots.slot(tier.kind()).current {
        assert(crate::content_results::assembly::block_texts(r.blocks@) =~= r.blocks@.map_values(
            |b: ContentBlockV1| b.text@,
        ));
    }
    if let Some(r) = s.current.slots.faithful_text.current {
        assert(crate::content_results::assembly::block_texts(r.blocks@) =~= r.blocks@.map_values(
            |b: ContentBlockV1| b.text@,
        ));
    }
}

/// The readable text that is shown holds every block of the faithful text, and the raw one every
/// utterance, as they are.
pub proof fn the_documents_show_the_result(
    p: Presentation,
    job: Job,
    s: ContentSnapshotV1,
    tier: SummaryTier,
    i: int,
    k: int,
)
    requires
        presents(p, job, s, tier),
        s.current.slots.faithful_text.current is Some,
        0 <= i < (s.current.slots.faithful_text.current->0).blocks@.len(),
        0 <= k < s.evidence.utterances@.len(),
    ensures
        has(p.readable@, (s.current.slots.faithful_text.current->0).blocks@[i].text@),
        has(p.raw@, s.evidence.utterances@[k].text@),
{
    let us = s.evidence.utterances@;
    let blocks = (s.current.slots.faithful_text.current->0).blocks@;
    crate::document::the_faithful_text_has_every_block(job, blocks, us, blocks.len() as int);
    assert(has(faithful_entries(job, blocks, us, blocks.len() as int), blocks[i].text@));
    let m = choose|m: DocMeta| meta_of(m, job);
    crate::document::the_documents_show_every_utterance(job, m, us, p.raw_path@, k);
    let u = us[k];
    let one = crate::document::entry(job, u.speaker_id, u.start_ms, u.text@);
    crate::document::an_entry_holds_its_parts(job, u.speaker_id, u.start_ms, u.text@);
    crate::document::held_inside(u.text@, one, p.raw@);
}

/// What reading saves is what the video takes beyond the reading: the two together are the video,
/// and nothing is saved where reading takes longer.
pub proof fn what_is_saved_is_not_read(
    e: ReadingEstimate,
    t: Seq<char>,
    video_ms: u64,
    language: Option<SourceLanguage>,
)
    requires
        estimated(e, t, Some(video_ms), language),
        language == Some(SourceLanguage::Zh) || language == Some(SourceLanguage::En),
    ensures
        e.reading_ms is Some && e.saved_ms is Some,
        e.video_ms == Some(video_ms),
        e.reading_ms->0 <= video_ms ==> e.reading_ms->0 + e.saved_ms->0 == video_ms,
        e.reading_ms->0 > video_ms ==> e.saved_ms->0 == 0,
{
    let ms = e.scale.cjk_chars * 150 + e.scale.latin_words * 250;
    assert(0 <= ms);
    assert(0 <= reading_time(e.scale) <= u64::MAX);
}

/// A text is in the language that was heard where that was reported, and in the one that was asked
/// for where it was not.
pub proof fn the_language_that_was_heard_counts(job: Job, heard: SourceLanguage, asked: SourceLanguage)
    ensures
        job.transcription_result is Some && (job.transcription_result->0).reported_language == Some(heard)
            ==> language_of(job) == Some(heard),
        job.transcription_result is None && job.transcription_selection is Some && (
        job.transcription_selection->0).requested_language == asked ==> language_of(job) == Some(asked),
        job.transcription_result is None && job.transcription_selection is None ==> language_of(job) is None,
{
}

} // verus!
