//! The result of a job as rows of a list.

use vstd::prelude::*;
use crate::bilibili::{SourceSpan, source_span, spans, video_address, video_url};
use crate::content_results::current::{ArtifactSlotV1, ContentSnapshotV1, ContentViewV1, CurrentIssueV1};
use crate::content_results::error::ContentError;
use crate::content_results::kinds::{
    ArtifactKindV1, EffectivePathV1, FailureCodeV1, FallbackReasonCodeV1, SourceStatusV1,
};
use crate::content_results::record::{
    ContentBlockV1, DerivationFailureV1, DerivationRecordV1, SourceRefV1,
};
use crate::content_results::search::{a_time_reads_back, time_point};
use crate::document::{find_utterance, two_digits, with_id};
use crate::funasr::Utterance;
use crate::ids::{hyphenated, id_text};
use crate::jobs::Job;
use crate::text::{
    cat2, cat3, cat5, dec, decimal, decimal_padded, join, joined, same, text, trim, trimmed, views, views_push,
};

verus! {

// ---- Times ----

/// A number of seconds as `MM:SS`, or as `H:MM:SS` from one hour on.
pub open spec fn elapsed(secs: u64) -> Seq<char> {
    let tail = two_digits(((secs / 60) % 60) as nat) + ":"@ + two_digits((secs % 60) as nat);
    if secs >= 3600 {
        dec((secs / 3600) as nat) + ":"@ + tail
    } else {
        tail
    }
}

/// A number of seconds as `MM:SS`, or as `H:MM:SS` from one hour on.
pub fn fmt_elapsed(secs: u64) -> (r: String)
    ensures
        r@ == elapsed(secs),
{
    let m = decimal_padded((secs / 60) % 60, 2);
    let s = decimal_padded(secs % 60, 2);
    let tail = cat3(m.as_str(), ":", s.as_str());
    if secs >= 3600 {
        let h = decimal(secs / 3600);
        cat3(h.as_str(), ":", tail.as_str())
    } else {
        tail
    }
}

/// A moment of a video.
pub fn result_timestamp(milliseconds: u64) -> (r: String)
    ensures
        r@ == elapsed(milliseconds / 1000),
{
    fmt_elapsed(milliseconds / 1000)
}

/// The length of a video, where it is known.
pub open spec fn length_word(ms: Option<u64>) -> Seq<char> {
    match ms {
        Some(ms) if ms > 0 => elapsed(ms / 1000),
        _ => "—"@,
    }
}

/// The length of a video, where it is known.
pub fn video_length(ms: Option<u64>) -> (r: String)
    ensures
        r@ == length_word(ms),
{
    match ms {
        Some(ms) if ms > 0 => fmt_elapsed(ms / 1000),
        _ => text("—"),
    }
}

/// A stretch of a video.
pub open spec fn range_word(start_ms: u64, end_ms: u64) -> Seq<char> {
    elapsed(start_ms / 1000) + "–"@ + elapsed(end_ms / 1000)
}

fn write_range(start_ms: u64, end_ms: u64) -> (r: String)
    ensures
        r@ == range_word(start_ms, end_ms),
{
    let a = result_timestamp(start_ms);
    let b = result_timestamp(end_ms);
    cat3(a.as_str(), "–", b.as_str())
}

// ---- The sources of a block ----

/// The utterances that the first `n` sources name, in their order.
pub open spec fn named_ids(refs: Seq<SourceRefV1>, n: int) -> Seq<Seq<char>>
    decreases n,
{
    if n <= 0 {
        Seq::empty()
    } else {
        named_ids(refs, n - 1) + views(refs[n - 1].utterance_ids@)
    }
}

fn list_named_ids(refs: &Vec<SourceRefV1>) -> (r: Vec<String>)
    ensures
        views(r@) == named_ids(refs@, refs@.len() as int),
{
    let mut out: Vec<String> = Vec::new();
    let mut i: usize = 0;
    assert(views(out@) =~= Seq::<Seq<char>>::empty());
    while i < refs.len()
        invariant
            i <= refs@.len(),
            views(out@) == named_ids(refs@, i as int),
        decreases refs@.len() - i,
    {
        let ids = &refs[i].utterance_ids;
        let ghost before = views(out@);
        let mut k: usize = 0;
        assert(before + views(ids@).take(0) =~= before);
        while k < ids.len()
            invariant
                k <= ids@.len(),
                views(out@) == before + views(ids@).take(k as int),
            decreases ids@.len() - k,
        {
            let id = ids[k].clone();
            proof {
                views_push(out@, id);
                assert(views(ids@).take(k + 1) =~= views(ids@).take(k as int).push(ids@[k as int]@));
                assert((before + views(ids@).take(k as int)).push(id@) =~= before + views(ids@).take(k + 1));
            }
            out.push(id);
            k += 1;
        }
        assert(views(ids@).take(ids@.len() as int) =~= views(ids@));
        i += 1;
    }
    out
}

/// The utterances behind the first `n` of a list of names: each name counts once, where it
/// first stands, and a name of no utterance does not count.
pub open spec fn picked(ids: Seq<Seq<char>>, us: Seq<Utterance>, n: int) -> Seq<Utterance>
    decreases n,
{
    if n <= 0 {
        Seq::empty()
    } else if ids.take(n - 1).contains(ids[n - 1]) {
        picked(ids, us, n - 1)
    } else {
        match with_id(us, ids[n - 1], us.len() as int) {
            Some(u) => picked(ids, us, n - 1).push(u),
            None => picked(ids, us, n - 1),
        }
    }
}

/// The utterances that a block rests on.
pub open spec fn sources(b: ContentBlockV1, us: Seq<Utterance>) -> Seq<Utterance> {
    let ids = named_ids(b.source_refs@, b.source_refs@.len() as int);
    picked(ids, us, ids.len() as int)
}

fn listed_before(ids: &Vec<String>, n: usize) -> (b: bool)
    requires
        n < ids@.len(),
    ensures
        b == views(ids@).take(n as int).contains(views(ids@)[n as int]),
{
    let mut k: usize = 0;
    while k < n
        invariant
            k <= n < ids@.len(),
            forall|j: int| 0 <= j < k ==> #[trigger] views(ids@)[j] != ids@[n as int]@,
        decreases n - k,
    {
        if same(ids[k].as_str(), ids[n].as_str()) {
            assert(views(ids@).take(n as int)[k as int] == views(ids@)[n as int]);
            return true;
        }
        k += 1;
    }
    assert forall|j: int| 0 <= j < n implies views(ids@).take(n as int)[j] != views(ids@)[n as int] by {
        assert(views(ids@)[j] != ids@[n as int]@);
    }
    false
}

fn pick_sources<'a>(b: &ContentBlockV1, us: &'a Vec<Utterance>) -> (r: Vec<&'a Utterance>)
    ensures
        r@.len() == sources(*b, us@).len(),
        forall|i: int| 0 <= i < r@.len() ==> *(#[trigger] r@[i]) == sources(*b, us@)[i],
{
    let ids = list_named_ids(&b.source_refs);
    let mut out: Vec<&'a Utterance> = Vec::new();
    let mut i: usize = 0;
    while i < ids.len()
        invariant
            i <= ids@.len(),
            out@.len() == picked(views(ids@), us@, i as int).len(),
            forall|j: int| 0 <= j < out@.len() ==> *(#[trigger] out@[j]) == picked(views(ids@), us@, i as int)[j],
        decreases ids@.len() - i,
    {
        if !listed_before(&ids, i) {
            if let Some(u) = find_utterance(us, ids[i].as_str()) {
                out.push(u);
            }
        }
        i += 1;
    }
    out
}

/// The texts of the first `n` utterances, without those that are blank.
pub open spec fn shown_texts(us: Seq<Utterance>, n: int) -> Seq<Seq<char>>
    decreases n,
{
    if n <= 0 {
        Seq::empty()
    } else if trimmed(us[n - 1].text@).len() == 0 {
        shown_texts(us, n - 1)
    } else {
        shown_texts(us, n - 1).push(trimmed(us[n - 1].text@))
    }
}

/// The speakers of the first `n` utterances; one who goes on is named once.
pub open spec fn speaking(job: Job, us: Seq<Utterance>, n: int) -> Seq<Seq<char>>
    decreases n,
{
    if n <= 0 {
        Seq::empty()
    } else {
        let rest = speaking(job, us, n - 1);
        let name = job.name_of(us[n - 1].speaker_id);
        if rest.len() > 0 && rest.last() == name {
            rest
        } else {
            rest.push(name)
        }
    }
}

/// When the utterances were spoken.
pub open spec fn moments(us: Seq<Utterance>) -> Seq<(u64, u64)> {
    us.map_values(|u: Utterance| (u.start_ms, u.end_ms))
}

/// The stretch from the earliest beginning to the latest end.
pub open spec fn stretch(parts: Seq<(u64, u64)>) -> SourceSpan {
    choose|s: SourceSpan| spans(s, parts)
}

/// There is only one such stretch.
pub proof fn the_stretch_is_unique(parts: Seq<(u64, u64)>, s: SourceSpan)
    requires
        spans(s, parts),
    ensures
        s == stretch(parts),
{
    let t = stretch(parts);
    assert(spans(t, parts));
    let a = choose|i: int| 0 <= i < parts.len() && (#[trigger] parts[i]).0 == s.start_ms;
    let b = choose|i: int| 0 <= i < parts.len() && (#[trigger] parts[i]).1 == s.end_ms;
    let c = choose|i: int| 0 <= i < parts.len() && (#[trigger] parts[i]).0 == t.start_ms;
    let d = choose|i: int| 0 <= i < parts.len() && (#[trigger] parts[i]).1 == t.end_ms;
    assert(parts[a].0 == s.start_ms && parts[c].0 == t.start_ms);
    assert(parts[b].1 == s.end_ms && parts[d].1 == t.end_ms);
}

/// What is shown of the sources of a block.
#[derive(Debug)]
pub struct SourceDetails {
    pub text: String,
    pub speaker: String,
    pub range: String,
    pub url: String,
}

/// What is shown of the sources of a block.
#[verifier::ext_equal]
pub struct SourceView {
    pub text: Seq<char>,
    pub speaker: Seq<char>,
    pub range: Seq<char>,
    pub url: Seq<char>,
}

impl View for SourceDetails {
    type V = SourceView;

    open spec fn view(&self) -> SourceView {
        SourceView { text: self.text@, speaker: self.speaker@, range: self.range@, url: self.url@ }
    }
}

/// What is shown of the utterances that a block rests on.
pub open spec fn source_view(job: Job, us: Seq<Utterance>) -> SourceView {
    let span = stretch(moments(us));
    SourceView {
        text: joined(shown_texts(us, us.len() as int), " "@),
        speaker: joined(speaking(job, us, us.len() as int), "、"@),
        range: range_word(span.start_ms, span.end_ms),
        url: video_address(job.bvid@, job.page, Some(span.start_ms)),
    }
}

/// What is shown of the sources of a block. A block whose sources are limited, or name no
/// utterance, has nothing to show and nowhere to jump to.
pub open spec fn details_of(job: Job, b: ContentBlockV1, us: Seq<Utterance>) -> Option<SourceView> {
    if b.source_status is Mapped && sources(b, us).len() > 0 {
        Some(source_view(job, sources(b, us)))
    } else {
        None
    }
}

/// What is shown of the sources of a block.
pub fn block_source_details(job: &Job, snapshot: &ContentSnapshotV1, block: &ContentBlockV1) -> (r: Option<
    SourceDetails,
>)
    ensures
        (match r {
            Some(d) => Some(d@),
            None => None,
        }) == details_of(*job, *block, snapshot.evidence.utterances@),
{
    if block.source_status != SourceStatusV1::Mapped {
        return None;
    }
    let picks = pick_sources(block, &snapshot.evidence.utterances);
    let ghost us = sources(*block, snapshot.evidence.utterances@);
    let mut texts: Vec<String> = Vec::new();
    let mut names: Vec<String> = Vec::new();
    let mut times: Vec<(u64, u64)> = Vec::new();
    let mut i: usize = 0;
    assert(views(texts@) =~= Seq::<Seq<char>>::empty());
    assert(views(names@) =~= Seq::<Seq<char>>::empty());
    assert(times@ =~= moments(us.take(0)));
    while i < picks.len()
        invariant
            i <= picks@.len() == us.len(),
            forall|j: int| 0 <= j < picks@.len() ==> *(#[trigger] picks@[j]) == us[j],
            views(texts@) == shown_texts(us, i as int),
            views(names@) == speaking(*job, us, i as int),
            times@ == moments(us.take(i as int)),
        decreases picks@.len() - i,
    {
        let u = picks[i];
        assert(*u == us[i as int]);
        let t = trim(u.text.as_str());
        if !t.is_empty() {
            let shown = text(t);
            proof {
                views_push(texts@, shown);
            }
            texts.push(shown);
        }
        let name = job.speaker_name(u.speaker_id);
        assert(names@.len() > 0 ==> views(names@).last() == names@.last()@);
        if names.len() == 0 || !same(names[names.len() - 1].as_str(), name.as_str()) {
            proof {
                views_push(names@, name);
            }
            names.push(name);
        }
        times.push((u.start_ms, u.end_ms));
        assert(times@ =~= moments(us.take(i + 1)));
        i += 1;
    }
    assert(us.take(us.len() as int) =~= us);
    let span = match source_span(&times) {
        Some(s) => s,
        None => {
            return None;
        },
    };
    proof {
        the_stretch_is_unique(times@, span);
    }
    Some(
        SourceDetails {
            text: join(&texts, " "),
            speaker: join(&names, "、"),
            range: write_range(span.start_ms, span.end_ms),
            url: video_url(job.bvid.as_str(), job.page, Some(span.start_ms)),
        },
    )
}

// ---- Rows ----

/// A row of the list: the head of a section, a block of a text, or an utterance.
#[derive(Debug)]
pub struct ContentRow {
    pub id: String,
    pub kind: String,
    pub title: String,
    pub text: String,
    pub declaration: String,
    pub status_label: String,
    pub status_kind: String,
    pub source_text: String,
    pub source_speaker: String,
    pub source_range: String,
    pub source_url: String,
    pub can_source: bool,
    pub can_jump: bool,
    pub action_kind: String,
    pub action_label: String,
    pub action_pending: bool,
}

/// A row of the list.
#[verifier::ext_equal]
pub struct RowView {
    pub id: Seq<char>,
    pub kind: Seq<char>,
    pub title: Seq<char>,
    pub text: Seq<char>,
    pub declaration: Seq<char>,
    pub status_label: Seq<char>,
    pub status_kind: Seq<char>,
    pub source_text: Seq<char>,
    pub source_speaker: Seq<char>,
    pub source_range: Seq<char>,
    pub source_url: Seq<char>,
    pub can_source: bool,
    pub can_jump: bool,
    pub action_kind: Seq<char>,
    pub action_label: Seq<char>,
    pub action_pending: bool,
}

impl View for ContentRow {
    type V = RowView;

    open spec fn view(&self) -> RowView {
        RowView {
            id: self.id@,
            kind: self.kind@,
            title: self.title@,
            text: self.text@,
            declaration: self.declaration@,
            status_label: self.status_label@,
            status_kind: self.status_kind@,
            source_text: self.source_text@,
            source_speaker: self.source_speaker@,
            source_range: self.source_range@,
            source_url: self.source_url@,
            can_source: self.can_source,
            can_jump: self.can_jump,
            action_kind: self.action_kind@,
            action_label: self.action_label@,
            action_pending: self.action_pending,
        }
    }
}

/// A row with a text and, where they are known, its sources; no button.
pub open spec fn text_row(
    id: Seq<char>,
    kind: Seq<char>,
    title: Seq<char>,
    what: Seq<char>,
    status_label: Seq<char>,
    status_kind: Seq<char>,
    source: Option<SourceView>,
) -> RowView {
    RowView {
        id,
        kind,
        title,
        text: what,
        declaration: ""@,
        status_label,
        status_kind,
        source_text: source_part(source, |s: SourceView| s.text),
        source_speaker: source_part(source, |s: SourceView| s.speaker),
        source_range: source_part(source, |s: SourceView| s.range),
        source_url: source_part(source, |s: SourceView| s.url),
        can_source: source is Some,
        can_jump: source is Some,
        action_kind: ""@,
        action_label: ""@,
        action_pending: false,
    }
}

/// A part of the sources, or nothing.
pub open spec fn source_part(source: Option<SourceView>, part: spec_fn(SourceView) -> Seq<char>) -> Seq<char> {
    match source {
        Some(s) => part(s),
        None => ""@,
    }
}

fn content_row(
    id: String,
    kind: &str,
    title: String,
    what: &str,
    status_label: &str,
    status_kind: &str,
    source: Option<SourceDetails>,
) -> (r: ContentRow)
    ensures
        r@ == text_row(
            id@,
            kind@,
            title@,
            what@,
            status_label@,
            status_kind@,
            match source {
                Some(s) => Some(s@),
                None => None,
            },
        ),
{
    let known = source.is_some();
    let (source_text, source_speaker, source_range, source_url) = match source {
        Some(s) => (s.text, s.speaker, s.range, s.url),
        None => (text(""), text(""), text(""), text("")),
    };
    ContentRow {
        id,
        kind: text(kind),
        title,
        text: text(what),
        declaration: text(""),
        status_label: text(status_label),
        status_kind: text(status_kind),
        source_text,
        source_speaker,
        source_range,
        source_url,
        can_source: known,
        can_jump: known,
        action_kind: text(""),
        action_label: text(""),
        action_pending: false,
    }
}

/// The head of a section: no sources.
pub open spec fn head_row(
    id: Seq<char>,
    title: Seq<char>,
    declaration: Seq<char>,
    status_label: Seq<char>,
    status_kind: Seq<char>,
    what: Seq<char>,
    action_kind: Seq<char>,
    action_label: Seq<char>,
    action_pending: bool,
) -> RowView {
    RowView {
        id,
        kind: "section"@,
        title,
        text: what,
        declaration,
        status_label,
        status_kind,
        source_text: ""@,
        source_speaker: ""@,
        source_range: ""@,
        source_url: ""@,
        can_source: false,
        can_jump: false,
        action_kind,
        action_label,
        action_pending,
    }
}

fn section_row(
    id: String,
    title: &str,
    declaration: &str,
    status_label: &str,
    status_kind: &str,
    what: &str,
    action_kind: &str,
    action_label: &str,
    action_pending: bool,
) -> (r: ContentRow)
    ensures
        r@ == head_row(
            id@,
            title@,
            declaration@,
            status_label@,
            status_kind@,
            what@,
            action_kind@,
            action_label@,
            action_pending,
        ),
{
    ContentRow {
        id,
        kind: text("section"),
        title: text(title),
        text: text(what),
        declaration: text(declaration),
        status_label: text(status_label),
        status_kind: text(status_kind),
        source_text: text(""),
        source_speaker: text(""),
        source_range: text(""),
        source_url: text(""),
        can_source: false,
        can_jump: false,
        action_kind: text(action_kind),
        action_label: text(action_label),
        action_pending,
    }
}

/// The name of a row: unique as long as the prefixes of the lists are.
pub open spec fn row_id(prefix: Seq<char>, id: Seq<char>, i: int) -> Seq<char> {
    prefix + "-"@ + id + "-"@ + dec(i as nat)
}

fn write_row_id(prefix: &str, id: &str, i: usize) -> (r: String)
    ensures
        r@ == row_id(prefix@, id@, i as int),
{
    let n = decimal(i as u64);
    cat5(prefix, "-", id, "-", n.as_str())
}

/// The row of a block.
pub open spec fn block_row(job: Job, us: Seq<Utterance>, b: ContentBlockV1, prefix: Seq<char>, i: int) -> RowView {
    let source = details_of(job, b, us);
    text_row(
        row_id(prefix, b.id@, i),
        "block"@,
        match b.title {
            Some(t) => t@,
            None => "条目 "@ + dec((i + 1) as nat),
        },
        trimmed(b.text@),
        if source is Some {
            "可核对"@
        } else {
            "来源受限"@
        },
        if source is Some {
            "mapped"@
        } else {
            "limited"@
        },
        source,
    )
}

/// The rows of the blocks of a text.
pub open spec fn block_rows(job: Job, us: Seq<Utterance>, bs: Seq<ContentBlockV1>, prefix: Seq<char>) -> Seq<RowView> {
    Seq::new(bs.len(), |i: int| block_row(job, us, bs[i], prefix, i))
}

/// The rows of the blocks of a text.
pub fn record_rows(job: &Job, snapshot: &ContentSnapshotV1, record: &DerivationRecordV1, id_prefix: &str) -> (r: Vec<
    ContentRow,
>)
    ensures
        views(r@) == block_rows(*job, snapshot.evidence.utterances@, record.blocks@, id_prefix@),
{
    let ghost us = snapshot.evidence.utterances@;
    let mut out: Vec<ContentRow> = Vec::new();
    let mut i: usize = 0;
    while i < record.blocks.len()
        invariant
            i <= record.blocks@.len(),
            us == snapshot.evidence.utterances@,
            out@.len() == i,
            forall|j: int| 0 <= j < i ==> (#[trigger] out@[j])@ == block_row(*job, us, record.blocks@[j], id_prefix@, j),
        decreases record.blocks@.len() - i,
    {
        let b = &record.blocks[i];
        let source = block_source_details(job, snapshot, b);
        let title = match &b.title {
            Some(t) => t.clone(),
            None => {
                assert(i + 1 <= record.blocks.len());
                let n = decimal(i as u64 + 1);
                cat2("条目 ", n.as_str())
            },
        };
        let (status_label, status_kind) = if source.is_some() {
            ("可核对", "mapped")
        } else {
            ("来源受限", "limited")
        };
        let id = write_row_id(id_prefix, b.id.as_str(), i);
        out.push(content_row(id, "block", title, trim(b.text.as_str()), status_label, status_kind, source));
        i += 1;
    }
    assert(views(out@) =~= block_rows(*job, us, record.blocks@, id_prefix@));
    out
}

/// The row of an utterance: it is its own source.
pub open spec fn utterance_row(job: Job, u: Utterance, prefix: Seq<char>, i: int) -> RowView {
    text_row(
        row_id(prefix, u.id@, i),
        "raw"@,
        job.name_of(u.speaker_id) + " · "@ + elapsed(u.start_ms / 1000),
        trimmed(u.text@),
        "可核对"@,
        "mapped"@,
        Some(
            SourceView {
                text: trimmed(u.text@),
                speaker: job.name_of(u.speaker_id),
                range: range_word(u.start_ms, u.end_ms),
                url: video_address(job.bvid@, job.page, Some(u.start_ms)),
            },
        ),
    )
}

/// The rows of the utterances.
pub open spec fn utterance_rows(job: Job, us: Seq<Utterance>, prefix: Seq<char>) -> Seq<RowView> {
    Seq::new(us.len(), |i: int| utterance_row(job, us[i], prefix, i))
}

/// The rows of the utterances.
pub fn raw_rows(job: &Job, utterances: &Vec<Utterance>, id_prefix: &str) -> (r: Vec<ContentRow>)
    ensures
        views(r@) == utterance_rows(*job, utterances@, id_prefix@),
{
    let mut out: Vec<ContentRow> = Vec::new();
    let mut i: usize = 0;
    while i < utterances.len()
        invariant
            i <= utterances@.len(),
            out@.len() == i,
            forall|j: int| 0 <= j < i ==> (#[trigger] out@[j])@ == utterance_row(*job, utterances@[j], id_prefix@, j),
        decreases utterances@.len() - i,
    {
        let u = &utterances[i];
        let name = job.speaker_name(u.speaker_id);
        let start = result_timestamp(u.start_ms);
        let title = cat3(name.as_str(), " · ", start.as_str());
        let source = SourceDetails {
            text: text(trim(u.text.as_str())),
            speaker: name,
            range: write_range(u.start_ms, u.end_ms),
            url: video_url(job.bvid.as_str(), job.page, Some(u.start_ms)),
        };
        let id = write_row_id(id_prefix, u.id.as_str(), i);
        out.push(content_row(id, "raw", title, trim(u.text.as_str()), "可核对", "mapped", Some(source)));
        i += 1;
    }
    assert(views(out@) =~= utterance_rows(*job, utterances@, id_prefix@));
    out
}

// ---- Sections ----

/// What a section says of how its text was made.
pub open spec fn declaration_of(kind: ArtifactKindV1, record: Option<DerivationRecordV1>) -> Seq<char> {
    if kind is FaithfulText {
        match record {
            None => "忠实整理 · 保留原始稿与核对入口"@,
            Some(r) => match r.provenance.effective_path {
                EffectivePathV1::Rules => "规则整理 · 未使用 AI"@,
                EffectivePathV1::RulesFallback => if r.provenance.fallback_reason is Some
                    && r.provenance.fallback_reason->0.code is TargetUnavailable {
                    "已使用规则整理 · AI 配置不可用"@
                } else {
                    "AI 校正未完成 · 已使用规则整理"@
                },
                EffectivePathV1::Llm => "忠实整理 · 保留原始稿与核对入口"@,
            },
        }
    } else if kind is Chapters {
        "结构化整理"@
    } else {
        "AI 生成内容 · 请结合来源核对"@
    }
}

/// What a section says of how its text was made.
pub fn artifact_declaration(kind: ArtifactKindV1, record: &Option<DerivationRecordV1>) -> (r: &'static str)
    ensures
        r@ == declaration_of(kind, *record),
{
    if kind == ArtifactKindV1::FaithfulText {
        return match record {
            None => "忠实整理 · 保留原始稿与核对入口",
            Some(r) => match r.provenance.effective_path {
                EffectivePathV1::Rules => "规则整理 · 未使用 AI",
                EffectivePathV1::RulesFallback => match &r.provenance.fallback_reason {
                    Some(reason) if reason.code == FallbackReasonCodeV1::TargetUnavailable => {
                        "已使用规则整理 · AI 配置不可用"
                    },
                    _ => "AI 校正未完成 · 已使用规则整理",
                },
                EffectivePathV1::Llm => "忠实整理 · 保留原始稿与核对入口",
            },
        };
    }
    if kind == ArtifactKindV1::Chapters {
        "结构化整理"
    } else {
        "AI 生成内容 · 请结合来源核对"
    }
}


/// What a text is called on the button that makes it again.
pub open spec fn short_word(kind: ArtifactKindV1) -> Seq<char> {
    match kind {
        ArtifactKindV1::Highlights => "重点"@,
        ArtifactKindV1::Chapters => "章节"@,
        ArtifactKindV1::FaithfulText => "忠实正文"@,
        _ => "摘要"@,
    }
}

/// The button that makes a text again; where no model could be used, it names the current
/// settings.
pub open spec fn action_word(kind: ArtifactKindV1, failure: Option<DerivationFailureV1>) -> Seq<char> {
    if failure is Some && failure->0.code is TargetUnavailable {
        "使用当前 AI 设置重新生成"@ + short_word(kind)
    } else {
        "重新生成"@ + short_word(kind)
    }
}

/// The button that makes a text again.
pub fn action_label(kind: ArtifactKindV1, failure: &Option<DerivationFailureV1>) -> (r: String)
    ensures
        r@ == action_word(kind, *failure),
{
    let label = match kind {
        ArtifactKindV1::Highlights => "重点",
        ArtifactKindV1::Chapters => "章节",
        ArtifactKindV1::FaithfulText => "忠实正文",
        _ => "摘要",
    };
    match failure {
        Some(f) if f.code == FailureCodeV1::TargetUnavailable => cat2("使用当前 AI 设置重新生成", label),
        _ => cat2("重新生成", label),
    }
}

/// Some block of the text, or the text as a whole, has limited sources.
pub open spec fn limited(r: DerivationRecordV1) -> bool {
    r.validation.record_source_status is Limited || exists|i: int|
        0 <= i < r.blocks@.len() && (#[trigger] r.blocks@[i]).source_status is Limited
}

fn is_limited(r: &DerivationRecordV1) -> (b: bool)
    ensures
        b == limited(*r),
{
    if r.validation.record_source_status == SourceStatusV1::Limited {
        return true;
    }
    let mut i: usize = 0;
    while i < r.blocks.len()
        invariant
            i <= r.blocks@.len(),
            forall|j: int| 0 <= j < i ==> !((#[trigger] r.blocks@[j]).source_status is Limited),
        decreases r.blocks@.len() - i,
    {
        if r.blocks[i].source_status == SourceStatusV1::Limited {
            return true;
        }
        i += 1;
    }
    false
}

/// How a slot stands: in words, as a mark, and what there is to say.
pub open spec fn slot_state(slot: ArtifactSlotV1) -> (Seq<char>, Seq<char>, Seq<char>) {
    match (slot.current, slot.last_failure) {
        (Some(_), Some(f)) => ("最近失败"@, "failure"@, "增强未完成；原始稿和忠实正文仍可用。"@ + f.message@),
        (Some(r), None) => if limited(r) {
            ("来源受限"@, "limited"@, ""@)
        } else {
            ("可用"@, "mapped"@, ""@)
        },
        (None, Some(f)) => ("生成失败"@, "failure"@, "增强未完成；原始稿和忠实正文仍可用。"@ + f.message@),
        (None, None) => ("未生成"@, "failure"@, "当前未生成；请使用当前 AI 设置重新生成。"@),
    }
}

fn write_slot_state(slot: &ArtifactSlotV1) -> (r: (&'static str, &'static str, String))
    ensures
        (r.0@, r.1@, r.2@) == slot_state(*slot),
{
    match (&slot.current, &slot.last_failure) {
        (Some(_), Some(f)) => (
            "最近失败",
            "failure",
            cat2("增强未完成；原始稿和忠实正文仍可用。", f.message.as_str()),
        ),
        (Some(r), None) => if is_limited(r) {
            ("来源受限", "limited", text(""))
        } else {
            ("可用", "mapped", text(""))
        },
        (None, Some(f)) => (
            "生成失败",
            "failure",
            cat2("增强未完成；原始稿和忠实正文仍可用。", f.message.as_str()),
        ),
        (None, None) => ("未生成", "failure", text("当前未生成；请使用当前 AI 设置重新生成。")),
    }
}

/// The rows of a slot: its head, and the blocks of the text that it holds. The faithful text
/// has no button: it is never made again on its own.
pub open spec fn section_rows(
    job: Job,
    s: ContentSnapshotV1,
    kind: ArtifactKindV1,
    title: Seq<char>,
    action_kind: Seq<char>,
    pending: Option<ArtifactKindV1>,
) -> Seq<RowView> {
    let slot = s.current.slots.slot(kind);
    let state = slot_state(slot);
    let head = head_row(
        "section-"@ + action_kind,
        title,
        declaration_of(kind, slot.current),
        state.0,
        state.1,
        state.2,
        if kind is FaithfulText {
            ""@
        } else {
            action_kind
        },
        if kind is FaithfulText {
            ""@
        } else {
            action_word(kind, slot.last_failure)
        },
        pending == Some(kind),
    );
    seq![head] + (match slot.current {
        Some(r) => block_rows(job, s.evidence.utterances@, r.blocks@, action_kind),
        None => Seq::empty(),
    })
}

proof fn views_append<T: View>(a: Seq<T>, b: Seq<T>)
    ensures
        views(a + b) == views(a) + views(b),
{
    assert(views(a + b) =~= views(a) + views(b));
}

/// The rows of a slot.
pub fn slot_rows(
    job: &Job,
    snapshot: &ContentSnapshotV1,
    kind: ArtifactKindV1,
    title: &str,
    action_kind: &str,
    pending_kind: Option<ArtifactKindV1>,
) -> (r: Vec<ContentRow>)
    ensures
        views(r@) == section_rows(*job, *snapshot, kind, title@, action_kind@, pending_kind),
{
    let slot = snapshot.current.slots.get(kind);
    let faithful = kind == ArtifactKindV1::FaithfulText;
    let (status_label, status_kind, what) = write_slot_state(slot);
    let pending = match pending_kind {
        Some(k) => k == kind,
        None => false,
    };
    let label = if faithful {
        text("")
    } else {
        action_label(kind, &slot.last_failure)
    };
    let head = section_row(
        cat2("section-", action_kind),
        title,
        artifact_declaration(kind, &slot.current),
        status_label,
        status_kind,
        what.as_str(),
        if faithful {
            ""
        } else {
            action_kind
        },
        label.as_str(),
        pending,
    );
    let mut rows: Vec<ContentRow> = Vec::new();
    let ghost first = head@;
    rows.push(head);
    assert(views(rows@) =~= seq![first]);
    if let Some(record) = &slot.current {
        let mut more = record_rows(job, snapshot, record, action_kind);
        proof {
            views_append(rows@, more@);
        }
        rows.append(&mut more);
    } else {
        assert(seq![first] + Seq::<RowView>::empty() =~= seq![first]);
    }
    rows
}

/// The rows of the raw transcript.
pub open spec fn raw_section(job: Job, us: Seq<Utterance>) -> Seq<RowView> {
    seq![
        head_row(
            "section-raw"@,
            "原始稿"@,
            "原始稿 · 未经 LLM 改写"@,
            "可用"@,
            "mapped"@,
            ""@,
            "open-raw"@,
            "打开原始稿"@,
            false,
        ),
    ] + utterance_rows(job, us, "raw"@)
}

/// The rows of the raw transcript.
pub fn raw_slot_rows(job: &Job, utterances: &Vec<Utterance>) -> (r: Vec<ContentRow>)
    ensures
        views(r@) == raw_section(*job, utterances@),
{
    let head = section_row(
        text("section-raw"),
        "原始稿",
        "原始稿 · 未经 LLM 改写",
        "可用",
        "mapped",
        "",
        "open-raw",
        "打开原始稿",
        false,
    );
    let mut rows: Vec<ContentRow> = Vec::new();
    let ghost first = head@;
    rows.push(head);
    assert(views(rows@) =~= seq![first]);
    let mut more = raw_rows(job, utterances, "raw");
    proof {
        views_append(rows@, more@);
    }
    rows.append(&mut more);
    rows
}

// ---- The result ----

/// The result of a job as the window shows it.
#[derive(Debug)]
pub struct ContentResultsData {
    pub entry_visible: bool,
    pub mode: String,
    pub title: String,
    pub job_id: String,
    pub bvid: String,
    pub page: u32,
    pub video_duration: String,
    pub status_label: String,
    pub notice: String,
    pub notice_error: bool,
    pub source_url: String,
    pub default_tab: u8,
    pub show_summary: bool,
    pub show_chapters: bool,
    pub show_faithful: bool,
    pub show_raw: bool,
    pub can_repair: bool,
    pub repair_pending: bool,
    pub repair_label: String,
    pub summary_rows: Vec<ContentRow>,
    pub chapters_rows: Vec<ContentRow>,
    pub faithful_rows: Vec<ContentRow>,
    pub raw_rows: Vec<ContentRow>,
}

/// The result of a job as the window shows it.
#[verifier::ext_equal]
pub struct ResultsView {
    pub entry_visible: bool,
    pub mode: Seq<char>,
    pub title: Seq<char>,
    pub job_id: Seq<char>,
    pub bvid: Seq<char>,
    pub page: u32,
    pub video_duration: Seq<char>,
    pub status_label: Seq<char>,
    pub notice: Seq<char>,
    pub notice_error: bool,
    pub source_url: Seq<char>,
    pub default_tab: u8,
    pub show_summary: bool,
    pub show_chapters: bool,
    pub show_faithful: bool,
    pub show_raw: bool,
    pub can_repair: bool,
    pub repair_pending: bool,
    pub repair_label: Seq<char>,
    pub summary_rows: Seq<RowView>,
    pub chapters_rows: Seq<RowView>,
    pub faithful_rows: Seq<RowView>,
    pub raw_rows: Seq<RowView>,
}

impl View for ContentResultsData {
    type V = ResultsView;

    open spec fn view(&self) -> ResultsView {
        ResultsView {
            entry_visible: self.entry_visible,
            mode: self.mode@,
            title: self.title@,
            job_id: self.job_id@,
            bvid: self.bvid@,
            page: self.page,
            video_duration: self.video_duration@,
            status_label: self.status_label@,
            notice: self.notice@,
            notice_error: self.notice_error,
            source_url: self.source_url@,
            default_tab: self.default_tab,
            show_summary: self.show_summary,
            show_chapters: self.show_chapters,
            show_faithful: self.show_faithful,
            show_raw: self.show_raw,
            can_repair: self.can_repair,
            repair_pending: self.repair_pending,
            repair_label: self.repair_label@,
            summary_rows: views(self.summary_rows@),
            chapters_rows: views(self.chapters_rows@),
            faithful_rows: views(self.faithful_rows@),
            raw_rows: views(self.raw_rows@),
        }
    }
}

/// Nothing to show.
pub open spec fn no_results() -> ResultsView {
    ResultsView {
        entry_visible: false,
        mode: "unavailable"@,
        title: ""@,
        job_id: ""@,
        bvid: ""@,
        page: 1,
        video_duration: "—"@,
        status_label: ""@,
        notice: ""@,
        notice_error: false,
        source_url: ""@,
        default_tab: 3,
        show_summary: false,
        show_chapters: false,
        show_faithful: false,
        show_raw: false,
        can_repair: false,
        repair_pending: false,
        repair_label: "修复文字结果"@,
        summary_rows: Seq::empty(),
        chapters_rows: Seq::empty(),
        faithful_rows: Seq::empty(),
        raw_rows: Seq::empty(),
    }
}

/// Nothing to show.
pub fn empty_content_results() -> (r: ContentResultsData)
    ensures
        r@ == no_results(),
{
    let r = ContentResultsData {
        entry_visible: false,
        mode: text("unavailable"),
        title: text(""),
        job_id: text(""),
        bvid: text(""),
        page: 1,
        video_duration: text("—"),
        status_label: text(""),
        notice: text(""),
        notice_error: false,
        source_url: text(""),
        default_tab: 3,
        show_summary: false,
        show_chapters: false,
        show_faithful: false,
        show_raw: false,
        can_repair: false,
        repair_pending: false,
        repair_label: text("修复文字结果"),
        summary_rows: Vec::new(),
        chapters_rows: Vec::new(),
        faithful_rows: Vec::new(),
        raw_rows: Vec::new(),
    };
    assert(r@ =~= no_results());
    r
}

/// The frame of a result: what does not depend on its texts.
pub open spec fn frame_of(job: Job, status_label: Seq<char>, us: Seq<Utterance>) -> ResultsView {
    ResultsView {
        entry_visible: true,
        title: job.title@,
        job_id: hyphenated(job.id),
        bvid: job.bvid@,
        page: job.page,
        video_duration: length_word(job.duration_ms),
        status_label,
        source_url: video_address(job.bvid@, job.page, None),
        show_raw: true,
        raw_rows: raw_section(job, us),
        ..no_results()
    }
}

fn frame(job: &Job, status_label: &str, us: &Vec<Utterance>) -> (r: ContentResultsData)
    ensures
        r@ == frame_of(*job, status_label@, us@),
{
    let mut r = empty_content_results();
    r.entry_visible = true;
    r.title = job.title.clone();
    r.job_id = id_text(job.id);
    r.bvid = job.bvid.clone();
    r.page = job.page;
    r.video_duration = video_length(job.duration_ms);
    r.status_label = text(status_label);
    r.source_url = video_url(job.bvid.as_str(), job.page, None);
    r.show_raw = true;
    r.raw_rows = raw_slot_rows(job, us);
    assert(r@ =~= frame_of(*job, status_label@, us@));
    r
}

/// A first-run text beside the faithful one could not be made.
pub open spec fn enhancement_failed(s: ContentSnapshotV1) -> bool {
    s.current.slots.default_summary.last_failure is Some || s.current.slots.highlights.last_failure is Some
        || s.current.slots.chapters.last_failure is Some
}

/// A result with its texts. Summary, highlights and chapters are there only where they were
/// asked for when the job was created.
pub open spec fn current_results(
    job: Job,
    status_label: Seq<char>,
    s: ContentSnapshotV1,
    pending: Option<ArtifactKindV1>,
) -> ResultsView {
    let asked = s.current.setup.enhancements_requested;
    let has_faithful = s.current.slots.faithful_text.current is Some;
    ResultsView {
        mode: "current"@,
        notice: if enhancement_failed(s) {
            "增强未完成；原始稿和忠实正文仍可用。"@
        } else {
            ""@
        },
        default_tab: if asked && s.current.slots.default_summary.current is Some {
            0
        } else if has_faithful {
            2
        } else {
            3
        },
        show_summary: asked,
        show_chapters: asked,
        show_faithful: has_faithful,
        summary_rows: if asked {
            section_rows(job, s, ArtifactKindV1::DefaultSummary, "默认摘要"@, "summary"@, pending) + section_rows(
                job,
                s,
                ArtifactKindV1::Highlights,
                "重点"@,
                "highlights"@,
                pending,
            )
        } else {
            Seq::empty()
        },
        chapters_rows: if asked {
            section_rows(job, s, ArtifactKindV1::Chapters, "章节"@, "chapters"@, pending)
        } else {
            Seq::empty()
        },
        faithful_rows: section_rows(job, s, ArtifactKindV1::FaithfulText, "忠实正文"@, ""@, pending),
        ..frame_of(job, status_label, s.evidence.utterances@)
    }
}

fn show_current(job: &Job, status_label: &str, snapshot: &ContentSnapshotV1, pending: Option<ArtifactKindV1>) -> (r:
    ContentResultsData)
    ensures
        r@ == current_results(*job, status_label@, *snapshot, pending),
{
    let asked = snapshot.current.setup.enhancements_requested;
    let slots = &snapshot.current.slots;
    let has_faithful = slots.faithful_text.current.is_some();
    let mut r = frame(job, status_label, &snapshot.evidence.utterances);
    r.mode = text("current");
    if slots.default_summary.last_failure.is_some() || slots.highlights.last_failure.is_some()
        || slots.chapters.last_failure.is_some() {
        r.notice = text("增强未完成；原始稿和忠实正文仍可用。");
    }
    r.default_tab = if asked && slots.default_summary.current.is_some() {
        0
    } else if has_faithful {
        2
    } else {
        3
    };
    r.show_summary = asked;
    r.show_chapters = asked;
    r.show_faithful = has_faithful;
    if asked {
        let mut rows = slot_rows(
            job,
            snapshot,
            ArtifactKindV1::DefaultSummary,
            "默认摘要",
            "summary",
            pending,
        );
        let mut more = slot_rows(job, snapshot, ArtifactKindV1::Highlights, "重点", "highlights", pending);
        proof {
            views_append(rows@, more@);
        }
        rows.append(&mut more);
        r.summary_rows = rows;
        r.chapters_rows = slot_rows(job, snapshot, ArtifactKindV1::Chapters, "章节", "chapters", pending);
    }
    r.faithful_rows = slot_rows(job, snapshot, ArtifactKindV1::FaithfulText, "忠实正文", "", pending);
    assert(r@ =~= current_results(*job, status_label@, *snapshot, pending));
    r
}

/// A result of which only the raw transcript can be shown, with the offer to repair the rest.
pub open spec fn raw_results(
    job: Job,
    status_label: Seq<char>,
    us: Seq<Utterance>,
    issue: CurrentIssueV1,
) -> ResultsView {
    ResultsView {
        mode: "raw-only"@,
        notice: "可信文字结果"@ + (match issue {
            CurrentIssueV1::NotGenerated => "尚未生成"@,
            CurrentIssueV1::Corrupt => "已损坏"@,
        }) + "；原始 Evidence 仍可用。"@,
        notice_error: true,
        can_repair: true,
        ..frame_of(job, status_label, us)
    }
}

fn show_raw_only(job: &Job, status_label: &str, us: &Vec<Utterance>, issue: CurrentIssueV1) -> (r:
    ContentResultsData)
    ensures
        r@ == raw_results(*job, status_label@, us@, issue),
{
    let mut r = frame(job, status_label, us);
    r.mode = text("raw-only");
    let what = match issue {
        CurrentIssueV1::NotGenerated => "尚未生成",
        CurrentIssueV1::Corrupt => "已损坏",
    };
    r.notice = cat3("可信文字结果", what, "；原始 Evidence 仍可用。");
    r.notice_error = true;
    r.can_repair = true;
    assert(r@ =~= raw_results(*job, status_label@, us@, issue));
    r
}

/// The result of a job. There is one only of a job that is done and that has structured
/// content.
pub open spec fn results_of(
    job: Job,
    status_label: Seq<char>,
    view: Result<ContentViewV1, ContentError>,
    pending: Option<ArtifactKindV1>,
) -> ResultsView {
    if job.content_setup is None || !job.status.terminal() {
        no_results()
    } else {
        match view {
            Ok(ContentViewV1::Current(s)) => current_results(job, status_label, s, pending),
            Ok(ContentViewV1::RawOnly { evidence, current_issue }) => raw_results(
                job,
                status_label,
                evidence.utterances@,
                current_issue,
            ),
            _ => no_results(),
        }
    }
}

/// The result of a job, given what can be shown of its content and how its status is called.
pub fn content_results_for_job(
    job: &Job,
    status_label: &str,
    view: &Result<ContentViewV1, ContentError>,
    pending_kind: Option<ArtifactKindV1>,
) -> (r: ContentResultsData)
    ensures
        r@ == results_of(*job, status_label@, *view, pending_kind),
{
    if job.content_setup.is_none() || !job.status.is_terminal() {
        return empty_content_results();
    }
    match view {
        Ok(ContentViewV1::Current(snapshot)) => show_current(job, status_label, snapshot, pending_kind),
        Ok(ContentViewV1::RawOnly { evidence, current_issue }) => show_raw_only(
            job,
            status_label,
            &evidence.utterances,
            *current_issue,
        ),
        _ => empty_content_results(),
    }
}

// ---- Laws ----

/// A row can be opened and jumped to exactly where it is marked as mapped: a limited source
/// never offers a time.
pub proof fn limited_rows_lead_nowhere(
    job: Job,
    us: Seq<Utterance>,
    bs: Seq<ContentBlockV1>,
    prefix: Seq<char>,
    i: int,
)
    requires
        0 <= i < bs.len(),
    ensures
        ({
            let row = block_rows(job, us, bs, prefix)[i];
            &&& row.can_source == row.can_jump
            &&& row.can_source == (row.status_kind == "mapped"@)
            &&& !row.can_source ==> row.source_url == ""@ && row.source_text == ""@ && row.source_range == ""@
                && row.status_kind == "limited"@
            &&& bs[i].source_status is Limited ==> !row.can_source
        }),
{
    reveal_strlit("mapped");
    reveal_strlit("limited");
    assert("mapped"@.len() == 6 && "limited"@.len() == 7);
}

/// What is being made again shows as pending in its own section and nowhere else, and changes
/// nothing else of the result.
pub proof fn only_the_pending_section_waits(
    job: Job,
    s: ContentSnapshotV1,
    kind: ArtifactKindV1,
    title: Seq<char>,
    action_kind: Seq<char>,
    pending: Option<ArtifactKindV1>,
)
    ensures
        ({
            let rows = section_rows(job, s, kind, title, action_kind, pending);
            let calm = section_rows(job, s, kind, title, action_kind, None);
            &&& rows.len() == calm.len()
            &&& rows[0].action_pending == (pending == Some(kind))
            &&& forall|i: int| 1 <= i < rows.len() ==> !(#[trigger] rows[i]).action_pending && rows[i] == calm[i]
            &&& rows[0] == (RowView { action_pending: pending == Some(kind), ..calm[0] })
        }),
{
}

/// A result keeps the name of its job, whatever is being made again; results of two jobs never
/// share it.
pub proof fn a_result_names_its_job(
    a: Job,
    b: Job,
    label: Seq<char>,
    view: Result<ContentViewV1, ContentError>,
    other: Result<ContentViewV1, ContentError>,
    pending: Option<ArtifactKindV1>,
)
    requires
        results_of(a, label, view, None).entry_visible,
        results_of(b, label, other, pending).entry_visible,
    ensures
        results_of(a, label, view, pending).job_id == results_of(a, label, view, None).job_id,
        (results_of(a, label, view, None).job_id == results_of(b, label, other, pending).job_id) <==> a.id == b.id,
{
    if hyphenated(a.id) == hyphenated(b.id) {
        crate::ids::ids_are_told_apart(a.id, b.id);
    }
}

/// The way to a result is open exactly for a finished job that was set up for texts and whose
/// transcript can be shown.
pub proof fn the_result_is_open_to_finished_jobs(
    job: Job,
    label: Seq<char>,
    view: Result<ContentViewV1, ContentError>,
    pending: Option<ArtifactKindV1>,
)
    ensures
        results_of(job, label, view, pending).entry_visible <==> job.content_setup is Some && job.status.terminal()
            && (view matches Ok(v) && !(v is Legacy)),
{
}

// ---- The rows hold what the result holds ----

/// A time as it is shown, read as a time, is that time.
pub proof fn a_shown_time_reads_back(secs: u64)
    requires
        secs * 1000 <= u64::MAX,
    ensures
        time_point(elapsed(secs)) == Some(secs * 1000),
{
    reveal_strlit(":");
    assert(":"@ =~= seq![':']);
    let h = secs / 3600;
    let m = (secs / 60) % 60;
    let s = secs % 60;
    assert(h * 3600 + m * 60 + s == secs);
    a_time_reads_back(h, m, s);
    let tail = two_digits(m as nat) + ":"@ + two_digits(s as nat);
    if secs >= 3600 {
        assert(dec(h as nat) + ":"@ + tail =~= dec(h as nat) + seq![':'] + (two_digits(m as nat) + seq![':']
            + two_digits(s as nat)));
    } else {
        assert(m * 60 + s == secs);
        padded_minutes_read_back(m, s);
    }
}

proof fn padded_minutes_read_back(m: u64, s: u64)
    requires
        m < 60,
        s < 60,
    ensures
        time_point(two_digits(m as nat) + seq![':'] + two_digits(s as nat)) == Some((m * 60 + s) * 1000),
{
    let m2 = two_digits(m as nat);
    let s2 = two_digits(s as nat);
    crate::text::padded_reads_back(m as nat, 2);
    crate::text::padded_reads_back(s as nat, 2);
    crate::content_results::search::no_colon(m2);
    crate::content_results::search::no_colon(s2);
    assert(crate::text::digit(m2[0]) && crate::text::digit(s2[0]));
    crate::text::the_first_part_is_before_the_separator(m2, ':', s2);
    crate::text::the_first_part_is_before_the_separator(s2, ':', Seq::empty());
    let two = seq![m2] + seq![s2];
    assert(crate::text::split(m2 + seq![':'] + s2, ':') == two);
    assert(two.len() == 2 && two[0] == m2 && two[1] == s2);
}

/// The sources of a block are the utterances that its references name: every identifier that
/// leads to one leads to it here, and none is here twice.
pub proof fn sources_are_what_is_named(ids: Seq<Seq<char>>, us: Seq<Utterance>, n: int)
    requires
        0 <= n <= ids.len(),
    ensures
        forall|k: int|
            0 <= k < n ==> (with_id(us, #[trigger] ids[k], us.len() as int) matches Some(u) ==> picked(
                ids,
                us,
                n,
            ).contains(u)),
        forall|i: int|
            0 <= i < picked(ids, us, n).len() ==> exists|k: int|
                0 <= k < n && with_id(us, #[trigger] ids[k], us.len() as int) == Some(#[trigger] picked(ids, us, n)[i]),
        forall|i: int, j: int|
            0 <= i < j < picked(ids, us, n).len() ==> (#[trigger] picked(ids, us, n)[i]).id@ != (#[trigger] picked(
                ids,
                us,
                n,
            )[j]).id@,
    decreases n,
{
    if n > 0 {
        sources_are_what_is_named(ids, us, n - 1);
        let before = picked(ids, us, n - 1);
        let now = picked(ids, us, n);
        let id = ids[n - 1];
        assert forall|k: int| 0 <= k < n implies (with_id(us, #[trigger] ids[k], us.len() as int) matches Some(u)
            ==> now.contains(u)) by {
            if let Some(u) = with_id(us, ids[k], us.len() as int) {
                if k < n - 1 {
                    assert(before.contains(u));
                    let i = choose|i: int| 0 <= i < before.len() && before[i] == u;
                    assert(now[i] == u);
                } else if ids.take(n - 1).contains(id) {
                    let seen = ids.take(n - 1);
                    let j = choose|j: int| 0 <= j < seen.len() && seen[j] == id;
                    assert(with_id(us, ids[j], us.len() as int) == Some(u));
                    assert(before.contains(u));
                } else {
                    assert(now.last() == u);
                }
            }
        }
        assert forall|i: int| 0 <= i < now.len() implies exists|k: int|
            0 <= k < n && with_id(us, #[trigger] ids[k], us.len() as int) == Some(#[trigger] now[i]) by {
            if i < before.len() {
                assert(now[i] == before[i]);
                let k = choose|k: int|
                    0 <= k < n - 1 && with_id(us, #[trigger] ids[k], us.len() as int) == Some(before[i]);
                assert(with_id(us, ids[k], us.len() as int) == Some(now[i]));
            } else {
                assert(with_id(us, ids[n - 1], us.len() as int) == Some(now[i]));
            }
        }
        assert forall|i: int, j: int| 0 <= i < j < now.len() implies (#[trigger] now[i]).id@ != (#[trigger] now[j]).id@ by {
            if j < before.len() {
                assert(before[i].id@ != before[j].id@);
            } else {
                let k = choose|k: int|
                    0 <= k < n - 1 && with_id(us, #[trigger] ids[k], us.len() as int) == Some(before[i]);
                crate::document::an_utterance_is_found_by_its_name(us, ids[k], us.len() as int);
                crate::document::an_utterance_is_found_by_its_name(us, id, us.len() as int);
                assert(now[i].id@ == ids[k]);
                assert(now[j].id@ == id);
                assert(ids.take(n - 1)[k] == ids[k]);
            }
        }
    }
}

proof fn named_ids_follow_on(refs: Seq<SourceRefV1>, n: int)
    requires
        0 <= n <= refs.len(),
    ensures
        named_ids(refs, n) == refs.take(n).map_values(
            |r: SourceRefV1| r.utterance_ids@.map_values(|id: String| id@),
        ).flatten(),
    decreases n,
{
    let f = |r: SourceRefV1| r.utterance_ids@.map_values(|id: String| id@);
    if n > 0 {
        named_ids_follow_on(refs, n - 1);
        assert(refs.take(n).map_values(f) =~= refs.take(n - 1).map_values(f).push(f(refs[n - 1])));
        refs.take(n - 1).map_values(f).lemma_flatten_push(f(refs[n - 1]));
        assert(views(refs[n - 1].utterance_ids@) =~= f(refs[n - 1]));
    } else {
        assert(refs.take(n).map_values(f) =~= Seq::<Seq<Seq<char>>>::empty());
    }
}

/// What is listed for a block are all the identifiers in its references, one reference behind
/// the other.
pub proof fn every_identifier_is_listed(refs: Seq<SourceRefV1>)
    ensures
        named_ids(refs, refs.len() as int) == refs.map_values(
            |r: SourceRefV1| r.utterance_ids@.map_values(|id: String| id@),
        ).flatten(),
{
    named_ids_follow_on(refs, refs.len() as int);
    assert(refs.take(refs.len() as int) =~= refs);
}

/// The text of the sources is what each of them says, in order, without the white space around
/// it and without those that say nothing.
pub proof fn every_source_is_quoted(us: Seq<Utterance>, n: int)
    requires
        0 <= n <= us.len(),
    ensures
        shown_texts(us, n) == us.take(n).filter(|u: Utterance| trimmed(u.text@).len() > 0).map_values(
            |u: Utterance| trimmed(u.text@),
        ),
    decreases n,
{
    reveal(Seq::filter);
    let p = |u: Utterance| trimmed(u.text@).len() > 0;
    let f = |u: Utterance| trimmed(u.text@);
    if n > 0 {
        every_source_is_quoted(us, n - 1);
        assert(us.take(n).drop_last() =~= us.take(n - 1));
        assert(us.take(n).last() == us[n - 1]);
        let kept = us.take(n - 1).filter(p);
        if p(us[n - 1]) {
            assert(kept.push(us[n - 1]).map_values(f) =~= kept.map_values(f).push(f(us[n - 1])));
        }
    } else {
        assert(us.take(n).filter(p).map_values(f) =~= Seq::<Seq<char>>::empty());
    }
}

/// Everyone who speaks in the sources is named, and nobody twice in a row.
pub proof fn every_speaker_of_the_sources_is_named(job: Job, us: Seq<Utterance>, n: int)
    requires
        0 <= n <= us.len(),
    ensures
        forall|k: int| 0 <= k < n ==> speaking(job, us, n).contains(job.name_of((#[trigger] us[k]).speaker_id)),
        forall|i: int| 0 < i < speaking(job, us, n).len() ==> speaking(job, us, n)[i - 1] != #[trigger] speaking(
            job,
            us,
            n,
        )[i],
    decreases n,
{
    if n > 0 {
        every_speaker_of_the_sources_is_named(job, us, n - 1);
        let before = speaking(job, us, n - 1);
        let now = speaking(job, us, n);
        assert forall|k: int| 0 <= k < n implies now.contains(job.name_of((#[trigger] us[k]).speaker_id)) by {
            let name = job.name_of(us[k].speaker_id);
            if k < n - 1 {
                assert(before.contains(name));
                let i = choose|i: int| 0 <= i < before.len() && before[i] == name;
                assert(now[i] == name);
            } else {
                assert(now.last() == name);
            }
        }
        assert forall|i: int| 0 < i < now.len() implies now[i - 1] != #[trigger] now[i] by {
            if i < before.len() {
                assert(before[i - 1] != before[i]);
            }
        }
    }
}

/// Every utterance has its row, with who says it and when, its text, and a way to the moment;
/// every block has its row, with its text.
pub proof fn everything_has_its_row(
    job: Job,
    us: Seq<Utterance>,
    bs: Seq<ContentBlockV1>,
    prefix: Seq<char>,
    k: int,
    i: int,
)
    requires
        0 <= k < us.len(),
        0 <= i < bs.len(),
    ensures
        raw_section(job, us).len() == us.len() + 1,
        ({
            let row = raw_section(job, us)[k + 1];
            &&& row.text == trimmed(us[k].text@)
            &&& row.source_speaker == job.name_of(us[k].speaker_id)
            &&& row.source_url == video_address(job.bvid@, job.page, Some(us[k].start_ms))
            &&& row.source_range == elapsed(us[k].start_ms / 1000) + "–"@ + elapsed(us[k].end_ms / 1000)
            &&& row.can_jump && row.can_source
        }),
        block_rows(job, us, bs, prefix).len() == bs.len(),
        block_rows(job, us, bs, prefix)[i].text == trimmed(bs[i].text@),
        bs[i].title matches Some(t) ==> block_rows(job, us, bs, prefix)[i].title == t@,
{
}

/// A result that is shown holds every text that it has, block by block under its heading: the
/// faithful text always, the summary, the highlights and the chapters where they were asked for.
pub proof fn a_shown_result_holds_every_text(
    job: Job,
    label: Seq<char>,
    s: ContentSnapshotV1,
    pending: Option<ArtifactKindV1>,
    i: int,
)
    requires
        0 <= i,
    ensures
        ({
            let r = current_results(job, label, s, pending);
            let slots = s.current.slots;
            let asked = s.current.setup.enhancements_requested;
            &&& slots.faithful_text.current matches Some(x) ==> (i < x.blocks@.len() ==> r.faithful_rows[i + 1].text
                == trimmed(x.blocks@[i].text@))
            &&& asked ==> (slots.default_summary.current matches Some(x) ==> (i < x.blocks@.len() ==> r.summary_rows[i
                + 1].text == trimmed(x.blocks@[i].text@)))
            &&& asked ==> (slots.chapters.current matches Some(x) ==> (i < x.blocks@.len() ==> r.chapters_rows[i
                + 1].text == trimmed(x.blocks@[i].text@)))
            &&& asked ==> (slots.highlights.current matches Some(x) ==> (i < x.blocks@.len() ==> r.summary_rows[
                r.summary_rows.len() - x.blocks@.len() + i].text == trimmed(x.blocks@[i].text@)))
            &&& r.raw_rows.len() == s.evidence.utterances@.len() + 1
            &&& r.show_summary == asked && r.show_chapters == asked
        }),
{
}

/// A stretch of time is shown by the time that it begins at and the time that it ends at. A length
/// is shown where there is one.
pub proof fn a_stretch_shows_both_ends(start_ms: u64, end_ms: u64)
    ensures
        elapsed(start_ms / 1000).is_prefix_of(range_word(start_ms, end_ms)),
        elapsed(end_ms / 1000).is_suffix_of(range_word(start_ms, end_ms)),
        range_word(start_ms, end_ms).len() == elapsed(start_ms / 1000).len() + 1 + elapsed(end_ms / 1000).len(),
        start_ms > 0 ==> length_word(Some(start_ms)) == elapsed(start_ms / 1000),
        length_word(None) == length_word(Some(0)),
{
    reveal_strlit("–");
}

/// A text that is there and did not fail is no failure, and everything else is one; what went
/// wrong last is told word for word.
pub proof fn a_failure_is_shown_as_one(slot: ArtifactSlotV1)
    ensures
        slot_state(slot).1 == "failure"@ <==> slot.current is None || slot.last_failure is Some,
        slot.last_failure matches Some(f) ==> f.message@.is_suffix_of(slot_state(slot).2),
        slot.current is Some && slot.last_failure is None ==> slot_state(slot).2.len() == 0,
{
    reveal_strlit("failure");
    reveal_strlit("limited");
    reveal_strlit("mapped");
    reveal_strlit("");
    assert("failure"@.len() == 7 && "limited"@.len() == 7 && "mapped"@.len() == 6);
    assert("failure"@[0] == 'f' && "limited"@[0] == 'l');
}

} // verus!
