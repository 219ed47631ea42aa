//! The documents of a job: the raw transcript, the readable text, and the whole.

use vstd::prelude::*;
use crate::bilibili::{video_address, video_url};
use crate::content_results::kinds::SourceStatusV1;
use crate::content_results::record::ContentBlockV1;
use crate::content_results::search::{no_colon, time_point};
use crate::funasr::Utterance;
use crate::ids::{hyphenated, id_text};
use crate::jobs::{Job, SourceLanguage};
use crate::text::{
    at, blank, cat2, cat3, cat4, cat5, contains, dec, decimal, decimal_padded, has, is_blank, join,
    joined, padded, same, text, views, a_part_is_found, decimal_reads_back, digit, padded_reads_back,
    split, the_first_part_is_before_the_separator,
};

verus! {

// ---- Small pieces ----

/// The number at least two digits wide.
pub open spec fn two_digits(n: nat) -> Seq<char> {
    padded(dec(n), 2, '0')
}

/// A time as `HH:MM:SS`.
pub open spec fn clock(ms: u64) -> Seq<char> {
    let s = ms / 1000;
    two_digits((s / 3600) as nat) + ":"@ + two_digits(((s / 60) % 60) as nat) + ":"@ + two_digits(
        (s % 60) as nat,
    )
}

/// A time as `HH:MM:SS`.
pub fn fmt_ts(ms: u64) -> (r: String)
    ensures
        r@ == clock(ms),
{
    let s: u64 = ms / 1000;
    let h = decimal_padded(s / 3600, 2);
    let m = decimal_padded((s / 60) % 60, 2);
    let sec = decimal_padded(s % 60, 2);
    cat5(h.as_str(), ":", m.as_str(), ":", sec.as_str())
}

/// A length as people say it.
pub open spec fn spoken_length(ms: u64) -> Seq<char> {
    let total = ms / 1000;
    let h = total / 3600;
    let m = (total / 60) % 60;
    let s = total % 60;
    if h > 0 {
        dec(h as nat) + "时"@ + two_digits(m as nat) + "分"@ + two_digits(s as nat) + "秒"@
    } else {
        dec(m as nat) + "分"@ + two_digits(s as nat) + "秒"@
    }
}

/// A length as people say it.
pub fn fmt_duration(ms: u64) -> (r: String)
    ensures
        r@ == spoken_length(ms),
{
    let total: u64 = ms / 1000;
    let h: u64 = total / 3600;
    let m: u64 = (total / 60) % 60;
    let s: u64 = total % 60;
    let sec = decimal_padded(s, 2);
    if h > 0 {
        let hours = decimal(h);
        let minutes = decimal_padded(m, 2);
        let head = cat4(hours.as_str(), "时", minutes.as_str(), "分");
        cat3(head.as_str(), sec.as_str(), "秒")
    } else {
        let minutes = decimal(m);
        cat4(minutes.as_str(), "分", sec.as_str(), "秒")
    }
}

/// What somebody said, with their name and a link to the moment.
pub open spec fn entry(job: Job, speaker: u32, start_ms: u64, what: Seq<char>) -> Seq<char> {
    "**["@ + job.name_of(speaker) + "]** ["@ + clock(start_ms) + "]("@ + video_address(
        job.bvid@,
        job.page,
        Some(start_ms),
    ) + ")\n"@ + what + "\n\n"@
}

fn write_entry(job: &Job, speaker: u32, start_ms: u64, what: &str) -> (r: String)
    ensures
        r@ == entry(*job, speaker, start_ms, what@),
{
    let name = job.speaker_name(speaker);
    let ts = fmt_ts(start_ms);
    let url = video_url(job.bvid.as_str(), job.page, Some(start_ms));
    let mut out = cat5("**[", name.as_str(), "]** [", ts.as_str(), "](");
    out.append(url.as_str());
    out.append(")\n");
    out.append(what);
    out.append("\n\n");
    out
}

// ---- The raw transcript ----

/// The refined text of an utterance where there is one for each and it says something, and else
/// what was recognised.
pub open spec fn chosen_text(us: Seq<Utterance>, refined: Option<Seq<Seq<char>>>, i: int) -> Seq<char> {
    match refined {
        Some(r) if r.len() == us.len() && !blank(r[i]) => r[i],
        _ => us[i].text@,
    }
}

/// The refined texts, by value.
pub open spec fn refined_view(r: Option<&Vec<String>>) -> Option<Seq<Seq<char>>> {
    match r {
        Some(v) => Some(views(v@)),
        None => None,
    }
}

fn choose_text<'a>(us: &'a Vec<Utterance>, refined: Option<&'a Vec<String>>, i: usize) -> (r: &'a str)
    requires
        i < us@.len(),
    ensures
        r@ == chosen_text(us@, refined_view(refined), i as int),
{
    if let Some(items) = refined {
        assert(views(items@).len() == items@.len());
        if items.len() == us.len() {
            assert(views(items@)[i as int] == items@[i as int]@);
            if !is_blank(items[i].as_str()) {
                return items[i].as_str();
            }
        }
    }
    us[i].text.as_str()
}

/// The first `n` utterances, one entry each.
pub open spec fn entries(job: Job, us: Seq<Utterance>, refined: Option<Seq<Seq<char>>>, n: int) -> Seq<char>
    decreases n,
{
    if n <= 0 {
        Seq::empty()
    } else {
        entries(job, us, refined, n - 1) + entry(
            job,
            us[n - 1].speaker_id,
            us[n - 1].start_ms,
            chosen_text(us, refined, n - 1),
        )
    }
}

/// Writes one entry for each utterance.
pub fn render_utterances(job: &Job, us: &Vec<Utterance>, refined: Option<&Vec<String>>) -> (r: String)
    ensures
        r@ == entries(*job, us@, refined_view(refined), us@.len() as int),
{
    let mut out = String::new();
    let mut i: usize = 0;
    assert(out@ =~= Seq::<char>::empty());
    while i < us.len()
        invariant
            i <= us@.len(),
            out@ == entries(*job, us@, refined_view(refined), i as int),
        decreases us@.len() - i,
    {
        let what = choose_text(us, refined, i);
        let e = write_entry(job, us[i].speaker_id, us[i].start_ms, what);
        out.append(e.as_str());
        i += 1;
    }
    out
}

/// The mark by which a document names its job.
pub open spec fn job_mark(id: u128) -> Seq<char> {
    "<!-- job-id: "@ + hyphenated(id) + " -->"@
}

fn write_job_mark(id: u128) -> (r: String)
    ensures
        r@ == job_mark(id),
{
    cat3("<!-- job-id: ", id_text(id).as_str(), " -->")
}

/// The raw transcript: everything that was recognised, with nothing changed.
pub open spec fn raw_document(job: Job, us: Seq<Utterance>) -> Seq<char> {
    "# 原始逐字稿\n\n"@ + job_mark(job.id) + "\n\n> 本稿未经过 LLM，是 FunASR 的完整输出，不删减。\n\n"@ + if us.len()
        == 0 {
        "（无转写内容）\n"@
    } else {
        entries(job, us, None, us.len() as int)
    }
}

/// Writes the raw transcript.
pub fn render_raw_markdown(job: &Job, utterances: &Vec<Utterance>) -> (r: String)
    ensures
        r@ == raw_document(*job, utterances@),
{
    let mark = write_job_mark(job.id);
    let mut out = cat3(
        "# 原始逐字稿\n\n",
        mark.as_str(),
        "\n\n> 本稿未经过 LLM，是 FunASR 的完整输出，不删减。\n\n",
    );
    if utterances.len() == 0 {
        out.append("（无转写内容）\n");
        return out;
    }
    let body = render_utterances(job, utterances, None);
    out.append(body.as_str());
    out
}

// ---- The readable text ----

/// Where the run of utterances ends that one speaker says from `i` on.
pub open spec fn turn_end(us: Seq<Utterance>, speaker: u32, i: int) -> int
    decreases us.len() - i,
{
    if 0 <= i < us.len() && us[i].speaker_id == speaker {
        turn_end(us, speaker, i + 1)
    } else {
        i
    }
}

/// What is said from `i` up to `j`, with nothing between the parts.
pub open spec fn turn_text(us: Seq<Utterance>, refined: Option<Seq<Seq<char>>>, i: int, j: int) -> Seq<char>
    decreases j - i,
{
    if i >= j {
        Seq::empty()
    } else {
        turn_text(us, refined, i, j - 1) + chosen_text(us, refined, j - 1)
    }
}

/// The readable text from utterance `i` on: one entry for each turn of a speaker.
pub open spec fn turns(job: Job, us: Seq<Utterance>, refined: Option<Seq<Seq<char>>>, i: int) -> Seq<char>
    decreases us.len() - i,
    when 0 <= i
    via turns_end
{
    if i >= us.len() {
        Seq::empty()
    } else {
        let e = turn_end(us, us[i].speaker_id, i + 1);
        entry(job, us[i].speaker_id, us[i].start_ms, turn_text(us, refined, i, e)) + turns(
            job,
            us,
            refined,
            e,
        )
    }
}

#[via_fn]
proof fn turns_end(job: Job, us: Seq<Utterance>, refined: Option<Seq<Seq<char>>>, i: int) {
    if i < us.len() {
        turn_goes_on(us, us[i].speaker_id, i + 1);
    }
}

/// A turn ends at or behind where it is looked for, inside the transcript.
pub proof fn turn_goes_on(us: Seq<Utterance>, speaker: u32, i: int)
    requires
        0 <= i <= us.len(),
    ensures
        i <= turn_end(us, speaker, i) <= us.len(),
        forall|k: int| i <= k < turn_end(us, speaker, i) ==> (#[trigger] us[k]).speaker_id == speaker,
        turn_end(us, speaker, i) < us.len() ==> us[turn_end(us, speaker, i)].speaker_id != speaker,
    decreases us.len() - i,
{
    if i < us.len() && us[i].speaker_id == speaker {
        turn_goes_on(us, speaker, i + 1);
    }
}

/// Writes the readable text. Parts that one speaker says in a row are joined as they are.
pub fn render_readable_body(job: &Job, utterances: &Vec<Utterance>, refined: Option<&Vec<String>>) -> (r: String)
    ensures
        r@ == turns(*job, utterances@, refined_view(refined), 0),
{
    let mut body = String::new();
    let mut index: usize = 0;
    let ghost all = turns(*job, utterances@, refined_view(refined), 0);
    assert(body@ + all =~= all);
    while index < utterances.len()
        invariant
            index <= utterances@.len(),
            all == turns(*job, utterances@, refined_view(refined), 0),
            body@ + turns(*job, utterances@, refined_view(refined), index as int) == all,
        decreases utterances@.len() - index,
    {
        let first: usize = index;
        let speaker: u32 = utterances[first].speaker_id;
        let mut what = String::new();
        assert(what@ =~= Seq::<char>::empty());
        let piece = choose_text(utterances, refined, first);
        what.append(piece);
        index += 1;
        proof {
            let r = refined_view(refined);
            assert(turn_text(utterances@, r, first as int, first as int) =~= Seq::<char>::empty());
            assert(what@ =~= turn_text(utterances@, r, first as int, first + 1));
        }
        while index < utterances.len() && utterances[index].speaker_id == speaker
            invariant
                first < index <= utterances@.len(),
                what@ == turn_text(utterances@, refined_view(refined), first as int, index as int),
                turn_end(utterances@, speaker, first + 1) == turn_end(utterances@, speaker, index as int),
            decreases utterances@.len() - index,
        {
            let piece = choose_text(utterances, refined, index);
            what.append(piece);
            index += 1;
        }
        let e = write_entry(job, speaker, utterances[first].start_ms, what.as_str());
        let ghost before = body@;
        body.append(e.as_str());
        proof {
            let r = refined_view(refined);
            assert(index == turn_end(utterances@, speaker, first + 1));
            assert(body@ + turns(*job, utterances@, r, index as int) =~= before + (e@ + turns(
                *job,
                utterances@,
                r,
                index as int,
            )));
        }
    }
    assert(body@ + Seq::<char>::empty() =~= body@);
    body
}

/// What the entries of the readable text say from utterance `i` on, without names and links.
pub open spec fn words_of_turns(us: Seq<Utterance>, refined: Option<Seq<Seq<char>>>, i: int) -> Seq<char>
    decreases us.len() - i,
    when 0 <= i
    via words_end
{
    if i >= us.len() {
        Seq::empty()
    } else {
        let e = turn_end(us, us[i].speaker_id, i + 1);
        turn_text(us, refined, i, e) + words_of_turns(us, refined, e)
    }
}

#[via_fn]
proof fn words_end(us: Seq<Utterance>, refined: Option<Seq<Seq<char>>>, i: int) {
    if i < us.len() {
        turn_goes_on(us, us[i].speaker_id, i + 1);
    }
}

proof fn turn_text_joins(us: Seq<Utterance>, refined: Option<Seq<Seq<char>>>, i: int, j: int, k: int)
    requires
        i <= j <= k,
    ensures
        turn_text(us, refined, i, j) + turn_text(us, refined, j, k) == turn_text(us, refined, i, k),
    decreases k - j,
{
    if j == k {
        assert(turn_text(us, refined, i, j) + Seq::<char>::empty() =~= turn_text(us, refined, i, j));
    } else {
        turn_text_joins(us, refined, i, j, k - 1);
        assert(turn_text(us, refined, i, j) + turn_text(us, refined, j, k) =~= (turn_text(us, refined, i, j)
            + turn_text(us, refined, j, k - 1)) + chosen_text(us, refined, k - 1));
    }
}

/// The readable text keeps every word in its place: what its entries say, one after the other,
/// is what the utterances say, one after the other.
pub proof fn the_readable_text_keeps_every_word(us: Seq<Utterance>, refined: Option<Seq<Seq<char>>>, i: int)
    requires
        0 <= i <= us.len(),
    ensures
        words_of_turns(us, refined, i) == turn_text(us, refined, i, us.len() as int),
    decreases us.len() - i,
{
    if i < us.len() {
        let e = turn_end(us, us[i].speaker_id, i + 1);
        turn_goes_on(us, us[i].speaker_id, i + 1);
        the_readable_text_keeps_every_word(us, refined, e);
        turn_text_joins(us, refined, i, e, us.len() as int);
    }
}

/// A new name for a speaker changes their own lines only: what the others say from `i` on is
/// written as before, as long as that speaker stays silent.
pub proof fn a_new_name_changes_its_own_lines(
    job: Job,
    renamed: Job,
    speaker: u32,
    us: Seq<Utterance>,
    refined: Option<Seq<Seq<char>>>,
    i: int,
)
    requires
        0 <= i <= us.len(),
        renamed.bvid@ == job.bvid@,
        renamed.page == job.page,
        forall|other: u32| other != speaker ==> #[trigger] renamed.name_of(other) == job.name_of(other),
        forall|k: int| i <= k < us.len() ==> (#[trigger] us[k]).speaker_id != speaker,
    ensures
        turns(renamed, us, refined, i) == turns(job, us, refined, i),
    decreases us.len() - i,
{
    if i < us.len() {
        let e = turn_end(us, us[i].speaker_id, i + 1);
        turn_goes_on(us, us[i].speaker_id, i + 1);
        a_new_name_changes_its_own_lines(job, renamed, speaker, us, refined, e);
    }
}

// ---- The faithful text ----

/// The utterance with an identifier; the last, should there be several.
pub open spec fn with_id(us: Seq<Utterance>, id: Seq<char>, n: int) -> Option<Utterance>
    decreases n,
{
    if n <= 0 {
        None
    } else if us[n - 1].id@ == id {
        Some(us[n - 1])
    } else {
        with_id(us, id, n - 1)
    }
}

pub(crate) fn find_utterance<'a>(us: &'a Vec<Utterance>, id: &str) -> (r: Option<&'a Utterance>)
    ensures
        match r {
            Some(u) => with_id(us@, id@, us@.len() as int) == Some(*u),
            None => with_id(us@, id@, us@.len() as int) is None,
        },
{
    let mut n: usize = us.len();
    while n > 0
        invariant
            n <= us@.len(),
            with_id(us@, id@, us@.len() as int) == with_id(us@, id@, n as int),
        decreases n,
    {
        if same(us[n - 1].id.as_str(), id) {
            return Some(&us[n - 1]);
        }
        n -= 1;
    }
    None
}

/// The utterance that a block begins with.
pub open spec fn first_source(b: ContentBlockV1, us: Seq<Utterance>) -> Option<Utterance> {
    if b.source_refs@.len() == 0 || b.source_refs@[0].utterance_ids@.len() == 0 {
        None
    } else {
        with_id(us, b.source_refs@[0].utterance_ids@[0]@, us.len() as int)
    }
}

fn get_first_source<'a>(b: &ContentBlockV1, us: &'a Vec<Utterance>) -> (r: Option<&'a Utterance>)
    ensures
        match r {
            Some(u) => first_source(*b, us@) == Some(*u),
            None => first_source(*b, us@) is None,
        },
{
    if b.source_refs.len() == 0 || b.source_refs[0].utterance_ids.len() == 0 {
        return None;
    }
    find_utterance(us, b.source_refs[0].utterance_ids[0].as_str())
}

/// A block of the faithful text: with a link where its source is known, and else marked as
/// limited, with no time made up.
pub open spec fn faithful_entry(job: Job, b: ContentBlockV1, us: Seq<Utterance>) -> Seq<char> {
    match first_source(b, us) {
        Some(u) if b.source_status is Mapped => entry(job, u.speaker_id, u.start_ms, b.text@),
        _ => "> 来源受限\n"@ + b.text@ + "\n\n"@,
    }
}

/// The first `n` blocks of the faithful text.
pub open spec fn faithful_entries(job: Job, bs: Seq<ContentBlockV1>, us: Seq<Utterance>, n: int) -> Seq<char>
    decreases n,
{
    if n <= 0 {
        Seq::empty()
    } else {
        faithful_entries(job, bs, us, n - 1) + faithful_entry(job, bs[n - 1], us)
    }
}

/// Writes the faithful text.
pub fn render_faithful_body(job: &Job, blocks: &Vec<ContentBlockV1>, utterances: &Vec<Utterance>) -> (r: String)
    ensures
        r@ == faithful_entries(*job, blocks@, utterances@, blocks@.len() as int),
{
    let mut body = String::new();
    let mut i: usize = 0;
    assert(body@ =~= Seq::<char>::empty());
    while i < blocks.len()
        invariant
            i <= blocks@.len(),
            body@ == faithful_entries(*job, blocks@, utterances@, i as int),
        decreases blocks@.len() - i,
    {
        let b = &blocks[i];
        let e = match get_first_source(b, utterances) {
            Some(u) => {
                if b.source_status == SourceStatusV1::Mapped {
                    write_entry(job, u.speaker_id, u.start_ms, b.text.as_str())
                } else {
                    cat3("> 来源受限\n", b.text.as_str(), "\n\n")
                }
            },
            None => cat3("> 来源受限\n", b.text.as_str(), "\n\n"),
        };
        body.append(e.as_str());
        i += 1;
    }
    body
}

// ---- The whole document ----

/// What the head of a document says of a video.
#[derive(Debug, Clone, PartialEq, Eq)]
pub struct DocMeta {
    pub title: String,
    pub up_name: String,
    pub duration_ms: u64,
    pub bvid: String,
    pub page: u32,
    /// What the user entered.
    pub source_url: Option<String>,
}

impl DocMeta {
    /// The address of the video: by its id and part, whatever the user entered.
    pub fn video_url(&self) -> (r: String)
        ensures
            r@ == video_address(self.bvid@, self.page, None),
    {
        video_url(self.bvid.as_str(), self.page, None)
    }
}

/// A text, or a word in its place.
pub open spec fn or_word(o: Option<String>, word: Seq<char>) -> Seq<char> {
    match o {
        Some(s) => s@,
        None => word,
    }
}

pub(crate) fn text_or<'a>(o: &'a Option<String>, word: &'a str) -> (r: &'a str)
    ensures
        r@ == or_word(*o, word@),
{
    match o {
        Some(s) => s.as_str(),
        None => word,
    }
}

/// The lines on the runtime that a job asked for.
pub open spec fn asked_lines(job: Job) -> Seq<char> {
    match job.transcription_selection {
        Some(s) => "- Runtime: "@ + s.runtime_source.label_text() + "\n- Runtime source: "@
            + s.runtime_source.wire_text() + "\n- Runtime backend: "@ + s.runtime_backend.wire_text()
            + "\n- Runtime identity: "@ + s.runtime_identity@ + "\n- 模型说明: "@ + or_word(
            s.model_description,
            "未提供"@,
        ) + "\n- 请求语言: "@ + s.requested_language.label_text() + "\n"@,
        None => "- Runtime: 未记录（legacy-unrecorded）\n- 请求语言: 未记录\n"@,
    }
}

fn write_asked_lines(job: &Job) -> (r: String)
    ensures
        r@ == asked_lines(*job),
{
    match &job.transcription_selection {
        Some(s) => {
            let mut out = cat5(
                "- Runtime: ",
                s.runtime_source.label(),
                "\n- Runtime source: ",
                s.runtime_source.as_str(),
                "\n- Runtime backend: ",
            );
            out.append(s.runtime_backend.as_str());
            out.append("\n- Runtime identity: ");
            out.append(s.runtime_identity.as_str());
            out.append("\n- 模型说明: ");
            out.append(text_or(&s.model_description, "未提供"));
            out.append("\n- 请求语言: ");
            out.append(s.requested_language.label());
            out.append("\n");
            out
        },
        None => text("- Runtime: 未记录（legacy-unrecorded）\n- 请求语言: 未记录\n"),
    }
}

/// The name of a language, or that none was reported.
pub open spec fn language_word(l: Option<SourceLanguage>) -> Seq<char> {
    match l {
        Some(l) => l.label_text(),
        None => "未报告"@,
    }
}

/// The lines on what a runtime reported.
pub open spec fn reported_lines(job: Job) -> Seq<char> {
    match job.transcription_result {
        Some(r) => "- 实际语言: "@ + language_word(r.reported_language) + "\n- 实际模型: "@ + or_word(
            r.reported_model,
            "未报告"@,
        ) + "\n- 实际 Runtime identity: "@ + or_word(r.reported_runtime_identity, "未报告"@) + "\n"@,
        None => "- 实际语言: 未报告\n- 实际模型: 未报告\n- 实际 Runtime identity: 未报告\n"@,
    }
}

fn write_reported_lines(job: &Job) -> (r: String)
    ensures
        r@ == reported_lines(*job),
{
    match &job.transcription_result {
        Some(r) => {
            let language = match r.reported_language {
                Some(l) => l.label(),
                None => "未报告",
            };
            let mut out = cat4(
                "- 实际语言: ",
                language,
                "\n- 实际模型: ",
                text_or(&r.reported_model, "未报告"),
            );
            out.append("\n- 实际 Runtime identity: ");
            out.append(text_or(&r.reported_runtime_identity, "未报告"));
            out.append("\n");
            out
        },
        None => text("- 实际语言: 未报告\n- 实际模型: 未报告\n- 实际 Runtime identity: 未报告\n"),
    }
}

/// How many of a list of numbers are smaller than one.
pub open spec fn smaller(s: Seq<u32>, x: u32) -> int
    decreases s.len(),
{
    if s.len() == 0 {
        0
    } else {
        smaller(s.drop_last(), x) + (if s.last() < x {
            1int
        } else {
            0int
        })
    }
}

/// A sorted list with one more number in its place; one that is there stays alone.
pub open spec fn with_number(s: Seq<u32>, x: u32) -> Seq<u32> {
    if s.contains(x) {
        s
    } else {
        s.insert(smaller(s, x), x)
    }
}

/// The speakers of the first `n` utterances, each once, in the order of their numbers.
pub open spec fn speakers_of(us: Seq<Utterance>, n: int) -> Seq<u32>
    decreases n,
{
    if n <= 0 {
        Seq::empty()
    } else {
        with_number(speakers_of(us, n - 1), us[n - 1].speaker_id)
    }
}

/// A list of numbers that rises.
pub open spec fn rising(s: Seq<u32>) -> bool {
    forall|i: int, j: int| 0 <= i < j < s.len() ==> #[trigger] s[i] < #[trigger] s[j]
}

proof fn smaller_splits(s: Seq<u32>, x: u32)
    requires
        rising(s),
    ensures
        0 <= smaller(s, x) <= s.len(),
        forall|i: int| 0 <= i < smaller(s, x) ==> #[trigger] s[i] < x,
        forall|i: int| smaller(s, x) <= i < s.len() ==> #[trigger] s[i] >= x,
    decreases s.len(),
{
    if s.len() > 0 {
        let t = s.drop_last();
        assert(rising(t)) by {
            assert forall|i: int, j: int| 0 <= i < j < t.len() implies #[trigger] t[i] < #[trigger] t[j] by {
                assert(s[i] < s[j]);
            }
        }
        smaller_splits(t, x);
        let k = smaller(t, x);
        if s.last() < x {
            if k < t.len() {
                assert(t[k] >= x);
                assert(s[k] < s[s.len() - 1]);
            }
            assert(k == t.len());
            assert forall|i: int| 0 <= i < s.len() implies #[trigger] s[i] < x by {
                if i < t.len() {
                    assert(t[i] < x);
                }
            }
        } else {
            assert forall|i: int| 0 <= i < k implies #[trigger] s[i] < x by {
                assert(t[i] < x);
            }
            assert forall|i: int| k <= i < s.len() implies #[trigger] s[i] >= x by {
                if i < t.len() {
                    assert(t[i] >= x);
                }
            }
        }
    }
}

/// The list of speakers rises, and holds exactly those who speak.
pub proof fn speakers_are_listed_in_order(us: Seq<Utterance>, n: int)
    requires
        0 <= n <= us.len(),
    ensures
        rising(speakers_of(us, n)),
        forall|i: int| 0 <= i < n ==> speakers_of(us, n).contains((#[trigger] us[i]).speaker_id),
        forall|x: u32| #[trigger]
            speakers_of(us, n).contains(x) ==> exists|i: int| 0 <= i < n && (#[trigger] us[i]).speaker_id == x,
    decreases n,
{
    if n > 0 {
        speakers_are_listed_in_order(us, n - 1);
        let s = speakers_of(us, n - 1);
        let x = us[n - 1].speaker_id;
        let t = speakers_of(us, n);
        if !s.contains(x) {
            smaller_splits(s, x);
            let k = smaller(s, x);
            assert(t == s.insert(k, x));
            assert(t[k] == x);
            assert forall|i: int| k <= i < s.len() implies #[trigger] s[i] > x by {
                assert(s[i] >= x);
                if s[i] == x {
                    assert(s.contains(x));
                }
            }
            assert forall|i: int, j: int| 0 <= i < j < t.len() implies #[trigger] t[i] < #[trigger] t[j] by {
                let a = if i < k {
                    i
                } else {
                    i - 1
                };
                let b = if j < k {
                    j
                } else {
                    j - 1
                };
                if i != k {
                    assert(t[i] == s[a]);
                }
                if j != k {
                    assert(t[j] == s[b]);
                }
                if i != k && j != k {
                    assert(s[a] < s[b]);
                }
            }
            assert forall|i: int| 0 <= i < n implies t.contains((#[trigger] us[i]).speaker_id) by {
                if i < n - 1 {
                    let y = us[i].speaker_id;
                    assert(s.contains(y));
                    let p = choose|p: int| 0 <= p < s.len() && s[p] == y;
                    if p < k {
                        assert(t[p] == y);
                    } else {
                        assert(t[p + 1] == y);
                    }
                }
            }
            assert forall|y: u32| #[trigger] t.contains(y) implies exists|i: int|
                0 <= i < n && (#[trigger] us[i]).speaker_id == y by {
                let p = choose|p: int| 0 <= p < t.len() && t[p] == y;
                if p == k {
                    assert(us[n - 1].speaker_id == y);
                } else {
                    if p < k {
                        assert(s[p] == y);
                    } else {
                        assert(s[p - 1] == y);
                    }
                    assert(s.contains(y));
                }
            }
        }
    }
}

pub(crate) fn speaker_list(us: &Vec<Utterance>) -> (r: Vec<u32>)
    ensures
        r@ == speakers_of(us@, us@.len() as int),
{
    let mut out: Vec<u32> = Vec::new();
    let mut i: usize = 0;
    while i < us.len()
        invariant
            i <= us@.len(),
            out@ == speakers_of(us@, i as int),
        decreases us@.len() - i,
    {
        let x: u32 = us[i].speaker_id;
        proof {
            speakers_are_listed_in_order(us@, i as int);
            smaller_splits(out@, x);
        }
        let mut k: usize = 0;
        while k < out.len() && out[k] < x
            invariant
                k <= out@.len(),
                k <= smaller(out@, x) <= out@.len(),
                forall|j: int| smaller(out@, x) <= j < out@.len() ==> #[trigger] out@[j] >= x,
                forall|j: int| 0 <= j < k ==> #[trigger] out@[j] < x,
            decreases out@.len() - k,
        {
            k += 1;
        }
        assert(k == smaller(out@, x)) by {
            if k < smaller(out@, x) {
                assert(out@[k as int] < x);
            }
        }
        if k < out.len() && out[k] == x {
            assert(out@.contains(x));
        } else {
            assert(!out@.contains(x)) by {
                if out@.contains(x) {
                    let p = choose|p: int| 0 <= p < out@.len() && out@[p] == x;
                    if p > k {
                        assert(out@[k as int] < out@[p]);
                        assert(out@[k as int] >= x);
                    }
                }
            }
            out.insert(k, x);
        }
        i += 1;
    }
    out
}

/// The names of the speakers, in the order of their numbers.
pub open spec fn names_of(job: Job, speakers: Seq<u32>) -> Seq<Seq<char>> {
    speakers.map_values(|id: u32| job.name_of(id))
}

/// The line on the speakers.
pub open spec fn speaker_line(job: Job, us: Seq<Utterance>) -> Seq<char> {
    let speakers = speakers_of(us, us.len() as int);
    if speakers.len() == 0 {
        "无说话者标注\n"@
    } else {
        joined(names_of(job, speakers), " / "@) + "\n"@
    }
}

fn write_speaker_line(job: &Job, us: &Vec<Utterance>) -> (r: String)
    ensures
        r@ == speaker_line(*job, us@),
{
    let speakers = speaker_list(us);
    if speakers.len() == 0 {
        return text("无说话者标注\n");
    }
    let mut names: Vec<String> = Vec::new();
    let mut i: usize = 0;
    while i < speakers.len()
        invariant
            i <= speakers@.len(),
            names@.len() == i,
            forall|j: int| 0 <= j < i ==> (#[trigger] names@[j])@ == job.name_of(speakers@[j]),
        decreases speakers@.len() - i,
    {
        names.push(job.speaker_name(speakers[i]));
        i += 1;
    }
    assert(views(names@) =~= names_of(*job, speakers@));
    let list = join(&names, " / ");
    cat2(list.as_str(), "\n")
}

/// The minutes that a text of so many characters takes, at 5000 a minute; at least one.
pub open spec fn legacy_minutes(chars: nat) -> nat {
    if chars == 0 {
        1
    } else {
        (chars + 4999) as nat / 5000
    }
}

/// The body of a document: the readable text where there is one, and else the utterances.
pub open spec fn body_of(job: Job, us: Seq<Utterance>, readable: Option<Seq<char>>) -> Seq<char> {
    match readable {
        Some(b) if !blank(b) => b,
        _ => turns(job, us, None, 0),
    }
}

/// The whole document.
pub open spec fn full_document(
    job: Job,
    meta: DocMeta,
    us: Seq<Utterance>,
    readable: Option<Seq<char>>,
    raw_path: Seq<char>,
) -> Seq<char> {
    let url = video_address(meta.bvid@, meta.page, None);
    let body = body_of(job, us, readable);
    "# "@ + meta.title@ + "\n\n"@ + job_mark(job.id) + "\n\n- UP主: "@ + meta.up_name@ + "\n- 时长: "@
        + spoken_length(meta.duration_ms) + "\n- 原视频链接: ["@ + url + "]("@ + url + ")\n"@ + asked_lines(job)
        + reported_lines(job) + "- 字符数: "@ + dec(body.len()) + "\n- 阅读时间(估算, 5000字/分钟): "@ + dec(
        legacy_minutes(body.len()),
    ) + " 分钟\n- Speaker 名称说明: "@ + speaker_line(job, us) + "- 原始稿本地路径: "@ + raw_path + "\n\n## 全文\n\n"@
        + body
}

/// An optional borrowed text, by value.
pub open spec fn str_value(s: Option<&str>) -> Option<Seq<char>> {
    match s {
        Some(s) => Some(s@),
        None => None,
    }
}

/// Writes the whole document.
pub fn render_full_markdown(
    job: &Job,
    meta: &DocMeta,
    utterances: &Vec<Utterance>,
    readable: Option<&str>,
    raw_md_path: &str,
) -> (r: String)
    ensures
        r@ == full_document(*job, *meta, utterances@, str_value(readable), raw_md_path@),
{
    let body = match readable {
        Some(b) => {
            if is_blank(b) {
                render_readable_body(job, utterances, None)
            } else {
                text(b)
            }
        },
        None => render_readable_body(job, utterances, None),
    };
    let count: usize = body.as_str().unicode_len();
    let minutes: u64 = if count == 0 {
        1
    } else {
        (count as u64 - 1) / 5000 + 1
    };
    assert(minutes == legacy_minutes(body@.len()));
    let mark = write_job_mark(job.id);
    let url = meta.video_url();
    let mut s = cat4("# ", meta.title.as_str(), "\n\n", mark.as_str());
    s.append("\n\n- UP主: ");
    s.append(meta.up_name.as_str());
    s.append("\n- 时长: ");
    s.append(fmt_duration(meta.duration_ms).as_str());
    s.append("\n- 原视频链接: [");
    s.append(url.as_str());
    s.append("](");
    s.append(url.as_str());
    s.append(")\n");
    s.append(write_asked_lines(job).as_str());
    s.append(write_reported_lines(job).as_str());
    s.append("- 字符数: ");
    s.append(decimal(count as u64).as_str());
    s.append("\n- 阅读时间(估算, 5000字/分钟): ");
    s.append(decimal(minutes).as_str());
    s.append(" 分钟\n- Speaker 名称说明: ");
    s.append(write_speaker_line(job, utterances).as_str());
    s.append("- 原始稿本地路径: ");
    s.append(raw_md_path);
    s.append("\n\n## 全文\n\n");
    s.append(body.as_str());
    s
}

/// A document names its job, so that it can be told whose it is: the raw one and the whole one.
pub proof fn documents_name_their_job(
    job: Job,
    meta: DocMeta,
    us: Seq<Utterance>,
    readable: Option<Seq<char>>,
    raw_path: Seq<char>,
)
    ensures
        has(raw_document(job, us), job_mark(job.id)),
        has(full_document(job, meta, us, readable, raw_path), job_mark(job.id)),
{
    let mark = job_mark(job.id);
    let raw = raw_document(job, us);
    let head = "# 原始逐字稿\n\n"@;
    assert(raw.subrange(head.len() as int, head.len() + mark.len() as int) =~= mark);
    assert(at(raw, mark, head.len() as int));
    let full = full_document(job, meta, us, readable, raw_path);
    let top = "# "@ + meta.title@ + "\n\n"@;
    assert(full.subrange(top.len() as int, top.len() + mark.len() as int) =~= mark);
    assert(at(full, mark, top.len() as int));
}

// ---- The documents hold what was said ----

/// The texts that are chosen for the utterances from `i` up to `j`, in their order.
pub open spec fn texts_between(us: Seq<Utterance>, refined: Option<Seq<Seq<char>>>, i: int, j: int) -> Seq<Seq<char>> {
    Seq::new((j - i) as nat, |k: int| chosen_text(us, refined, i + k))
}

/// Without refined texts, or with another number of them, an utterance is given as it was
/// recognised; else by its refined text, unless that is blank.
pub proof fn a_text_is_refined_or_kept(us: Seq<Utterance>, refined: Seq<Seq<char>>, i: int)
    requires
        0 <= i < us.len(),
    ensures
        chosen_text(us, None, i) == us[i].text@,
        refined.len() != us.len() || blank(refined[i]) ==> chosen_text(us, Some(refined), i) == us[i].text@,
        refined.len() == us.len() && !blank(refined[i]) ==> chosen_text(us, Some(refined), i) == refined[i],
{
}

proof fn turn_text_follows_on(us: Seq<Utterance>, refined: Option<Seq<Seq<char>>>, i: int, j: int)
    requires
        0 <= i <= j <= us.len(),
    ensures
        turn_text(us, refined, i, j) == texts_between(us, refined, i, j).flatten(),
    decreases j - i,
{
    let all = texts_between(us, refined, i, j);
    if i < j {
        turn_text_follows_on(us, refined, i, j - 1);
        let less = texts_between(us, refined, i, j - 1);
        assert(all =~= less.push(chosen_text(us, refined, j - 1)));
        less.lemma_flatten_push(chosen_text(us, refined, j - 1));
    } else {
        assert(all =~= Seq::<Seq<char>>::empty());
    }
}

proof fn turn_ends_there(us: Seq<Utterance>, speaker: u32, i: int, e: int)
    requires
        0 <= i <= e <= us.len(),
        forall|k: int| i <= k < e ==> (#[trigger] us[k]).speaker_id == speaker,
        e < us.len() ==> us[e].speaker_id != speaker,
    ensures
        turn_end(us, speaker, i) == e,
    decreases e - i,
{
    if i < e {
        assert(us[i].speaker_id == speaker);
        turn_ends_there(us, speaker, i + 1, e);
    }
}

/// What one speaker says in a row is one entry of the readable text: it names the speaker and
/// the moment of the first words, and holds everything that is said, one text behind the other.
/// The rest follows behind it.
pub proof fn a_turn_is_one_entry(
    job: Job,
    us: Seq<Utterance>,
    refined: Option<Seq<Seq<char>>>,
    i: int,
    e: int,
)
    requires
        0 <= i < e <= us.len(),
        forall|k: int| i <= k < e ==> (#[trigger] us[k]).speaker_id == us[i].speaker_id,
        e < us.len() ==> us[e].speaker_id != us[i].speaker_id,
    ensures
        turns(job, us, refined, i) == entry(
            job,
            us[i].speaker_id,
            us[i].start_ms,
            texts_between(us, refined, i, e).flatten(),
        ) + turns(job, us, refined, e),
        e == us.len() ==> turns(job, us, refined, i) == entry(
            job,
            us[i].speaker_id,
            us[i].start_ms,
            texts_between(us, refined, i, e).flatten(),
        ),
{
    turn_ends_there(us, us[i].speaker_id, i + 1, e);
    turn_text_follows_on(us, refined, i, e);
    if e == us.len() {
        let one = entry(job, us[i].speaker_id, us[i].start_ms, turn_text(us, refined, i, e));
        assert(one + Seq::<char>::empty() =~= one);
    }
}

proof fn held_before(a: Seq<char>, b: Seq<char>, p: Seq<char>)
    requires
        has(a, p),
    ensures
        has(a + b, p),
        has(b + a, p),
{
    let i = choose|i: int| at(a, p, i);
    assert((a + b).subrange(i, i + p.len() as int) =~= p);
    assert(at(a + b, p, i));
    let j = b.len() + i;
    assert((b + a).subrange(j, j + p.len() as int) =~= p);
    assert(at(b + a, p, j));
}

/// What a text holds is held by whatever holds the text.
pub proof fn held_inside(a: Seq<char>, b: Seq<char>, c: Seq<char>)
    requires
        has(b, a),
        has(c, b),
    ensures
        has(c, a),
{
    let i = choose|i: int| at(b, a, i);
    let j = choose|j: int| at(c, b, j);
    let x = c.subrange(j + i, j + i + a.len() as int);
    assert(c.subrange(j, j + b.len() as int).subrange(i, i + a.len() as int) =~= x);
    assert(at(c, a, j + i));
}

proof fn a_text_is_held(parts: Seq<Seq<char>>, k: int)
    requires
        0 <= k < parts.len(),
    ensures
        has(parts.flatten(), parts[k]),
    decreases parts.len(),
{
    let r = parts.drop_last();
    assert(parts =~= r.push(parts.last()));
    r.lemma_flatten_push(parts.last());
    if k == parts.len() - 1 {
        a_part_is_found(r.flatten(), parts.last(), Seq::empty());
        assert(r.flatten() + parts.last() + Seq::<char>::empty() =~= parts.flatten());
    } else {
        a_text_is_held(r, k);
        assert(r[k] == parts[k]);
        held_before(r.flatten(), parts.last(), parts[k]);
    }
}

/// An entry names the speaker, the moment as a clock and as a link, and says what was said, the
/// whole of it, at its end.
pub proof fn an_entry_holds_its_parts(job: Job, speaker: u32, start_ms: u64, what: Seq<char>)
    ensures
        (what + "\n\n"@).is_suffix_of(entry(job, speaker, start_ms, what)),
        has(entry(job, speaker, start_ms, what), what),
        has(entry(job, speaker, start_ms, what), "["@ + job.name_of(speaker) + "]"@),
        has(entry(job, speaker, start_ms, what), "["@ + clock(start_ms) + "]"@),
        has(
            entry(job, speaker, start_ms, what),
            "("@ + video_address(job.bvid@, job.page, Some(start_ms)) + ")"@,
        ),
{
    reveal_strlit("**[");
    reveal_strlit("]** [");
    reveal_strlit("](");
    reveal_strlit(")\n");
    reveal_strlit("\n\n");
    reveal_strlit("[");
    reveal_strlit("]");
    reveal_strlit("(");
    reveal_strlit(")");
    let e = entry(job, speaker, start_ms, what);
    let name = job.name_of(speaker);
    let time = clock(start_ms);
    let link = video_address(job.bvid@, job.page, Some(start_ms));
    let tail = what + "\n\n"@;
    assert(e.subrange((e.len() - tail.len()) as int, e.len() as int) =~= tail);
    let head = "**["@ + name + "]** ["@ + time + "]("@ + link + ")\n"@;
    assert(e =~= head + what + "\n\n"@);
    a_part_is_found(head, what, "\n\n"@);
    let x = seq!['*', '*'];
    let a = "["@ + name + "]"@;
    let ra = seq!['*', '*', ' ', '['] + time + "]("@ + link + ")\n"@ + what + "\n\n"@;
    assert(e =~= x + a + ra);
    a_part_is_found(x, a, ra);
    let y = "**["@ + name + seq![']', '*', '*', ' '];
    let b = "["@ + time + "]"@;
    let rb = seq!['('] + link + ")\n"@ + what + "\n\n"@;
    assert(e =~= y + b + rb);
    a_part_is_found(y, b, rb);
    let z = "**["@ + name + "]** ["@ + time + seq![']'];
    let c = "("@ + link + ")"@;
    let rc = seq!['\n'] + what + "\n\n"@;
    assert(e =~= z + c + rc);
    a_part_is_found(z, c, rc);
}

/// Every utterance is in the readable text with its whole text, whoever speaks before and behind
/// it.
pub proof fn every_utterance_is_in_the_readable_text(
    job: Job,
    us: Seq<Utterance>,
    refined: Option<Seq<Seq<char>>>,
    i: int,
    k: int,
)
    requires
        0 <= i <= k < us.len(),
    ensures
        has(turns(job, us, refined, i), chosen_text(us, refined, k)),
    decreases us.len() - i,
{
    let e = turn_end(us, us[i].speaker_id, i + 1);
    turn_goes_on(us, us[i].speaker_id, i + 1);
    assert forall|j: int| i <= j < e implies (#[trigger] us[j]).speaker_id == us[i].speaker_id by {}
    a_turn_is_one_entry(job, us, refined, i, e);
    let texts = texts_between(us, refined, i, e);
    let one = entry(job, us[i].speaker_id, us[i].start_ms, texts.flatten());
    let rest = turns(job, us, refined, e);
    if k < e {
        a_text_is_held(texts, k - i);
        assert(texts[k - i] == chosen_text(us, refined, k));
        an_entry_holds_its_parts(job, us[i].speaker_id, us[i].start_ms, texts.flatten());
        held_inside(texts[k - i], texts.flatten(), one);
        held_before(one, rest, texts[k - i]);
    } else {
        every_utterance_is_in_the_readable_text(job, us, refined, e, k);
        held_before(rest, one, chosen_text(us, refined, k));
    }
}

/// The raw transcript has one entry for each utterance, in their order, with its own speaker,
/// moment and text.
pub proof fn the_raw_transcript_has_every_utterance(
    job: Job,
    us: Seq<Utterance>,
    refined: Option<Seq<Seq<char>>>,
    n: int,
)
    requires
        0 <= n <= us.len(),
    ensures
        entries(job, us, refined, n) == Seq::new(
            n as nat,
            |k: int| entry(job, us[k].speaker_id, us[k].start_ms, chosen_text(us, refined, k)),
        ).flatten(),
    decreases n,
{
    let f = |k: int| entry(job, us[k].speaker_id, us[k].start_ms, chosen_text(us, refined, k));
    let all = Seq::new(n as nat, f);
    if n > 0 {
        the_raw_transcript_has_every_utterance(job, us, refined, n - 1);
        let less = Seq::new((n - 1) as nat, f);
        assert(all =~= less.push(f(n - 1)));
        less.lemma_flatten_push(f(n - 1));
    } else {
        assert(all =~= Seq::<Seq<char>>::empty());
    }
}

/// The raw document shows every utterance as it was recognised, with who says it and when; the
/// whole document shows it too, where there is no other text to show.
pub proof fn the_documents_show_every_utterance(
    job: Job,
    meta: DocMeta,
    us: Seq<Utterance>,
    raw_path: Seq<char>,
    k: int,
)
    requires
        0 <= k < us.len(),
    ensures
        has(raw_document(job, us), entry(job, us[k].speaker_id, us[k].start_ms, us[k].text@)),
        has(full_document(job, meta, us, None, raw_path), us[k].text@),
{
    let f = |i: int| entry(job, us[i].speaker_id, us[i].start_ms, chosen_text(us, None, i));
    let all = Seq::new(us.len(), f);
    the_raw_transcript_has_every_utterance(job, us, None, us.len() as int);
    a_text_is_held(all, k);
    let body = entries(job, us, None, us.len() as int);
    let head = "# 原始逐字稿\n\n"@ + job_mark(job.id) + "\n\n> 本稿未经过 LLM，是 FunASR 的完整输出，不删减。\n\n"@;
    held_before(body, head, all[k]);
    assert(raw_document(job, us) =~= head + body);
    every_utterance_is_in_the_readable_text(job, us, None, 0, k);
    the_whole_document_ends_with_its_body(job, meta, us, None, raw_path);
    let full = full_document(job, meta, us, None, raw_path);
    let text = turns(job, us, None, 0);
    let before = full.take((full.len() - text.len()) as int);
    assert(full =~= before + text);
    held_before(text, before, us[k].text@);
}

/// The whole document ends with its text: the readable one that is given, or else what was
/// recognised, turn by turn. Before it stand the title, the author, the link and how long the text
/// is.
pub proof fn the_whole_document_ends_with_its_body(
    job: Job,
    meta: DocMeta,
    us: Seq<Utterance>,
    readable: Option<Seq<char>>,
    raw_path: Seq<char>,
)
    ensures
        ({
            let full = full_document(job, meta, us, readable, raw_path);
            let body = if readable is Some && !blank(readable->0) {
                readable->0
            } else {
                turns(job, us, None, 0)
            };
            &&& body.is_suffix_of(full)
            &&& ("# "@ + meta.title@ + "\n"@).is_prefix_of(full)
            &&& has(full, "- UP主: "@ + meta.up_name@)
            &&& has(full, "("@ + video_address(meta.bvid@, meta.page, None) + ")"@)
            &&& has(full, "- 时长: "@ + spoken_length(meta.duration_ms))
            &&& has(full, "- 字符数: "@ + dec(body.len()))
            &&& has(full, asked_lines(job))
            &&& has(full, reported_lines(job))
            &&& has(full, speaker_line(job, us))
            &&& has(full, "- 原始稿本地路径: "@ + raw_path)
        }),
{
    let full = full_document(job, meta, us, readable, raw_path);
    let body = body_of(job, us, readable);
    let url = video_address(meta.bvid@, meta.page, None);
    let length = spoken_length(meta.duration_ms);
    let count = dec(body.len());
    let h0 = "# "@ + meta.title@ + "\n\n"@ + job_mark(job.id);
    let h1 = h0 + "\n\n- UP主: "@ + meta.up_name@;
    let h2 = h1 + "\n- 时长: "@ + length;
    let h3 = h2 + "\n- 原视频链接: ["@ + url + "]("@ + url + ")\n"@;
    let h4 = h3 + asked_lines(job);
    let h5 = h4 + reported_lines(job);
    let h6 = h5 + "- 字符数: "@ + count;
    let h7 = h6 + "\n- 阅读时间(估算, 5000字/分钟): "@ + dec(legacy_minutes(body.len()))
        + " 分钟\n- Speaker 名称说明: "@;
    let h8 = h7 + speaker_line(job, us);
    let h9 = h8 + "- 原始稿本地路径: "@ + raw_path;
    assert(full == h9 + "\n\n## 全文\n\n"@ + body);
    ends_with(h9 + "\n\n## 全文\n\n"@, body);
    itself_first(full);
    cut_back(full, h9, "\n\n## 全文\n\n"@, body);
    cut_back(full, h8, "- 原始稿本地路径: "@, raw_path);
    cut_back_once(full, h7, speaker_line(job, us));
    cut_back_once(
        full,
        h6 + "\n- 阅读时间(估算, 5000字/分钟): "@ + dec(legacy_minutes(body.len())),
        " 分钟\n- Speaker 名称说明: "@,
    );
    cut_back(full, h6, "\n- 阅读时间(估算, 5000字/分钟): "@, dec(legacy_minutes(body.len())));
    cut_back(full, h5, "- 字符数: "@, count);
    cut_back_once(full, h4, reported_lines(job));
    cut_back_once(full, h3, asked_lines(job));
    let k3 = h2 + "\n- 原视频链接: ["@ + url;
    cut_back(full, k3 + "]("@, url, ")\n"@);
    cut_back_once(full, k3, "]("@);
    cut_back(full, h2, "\n- 原视频链接: ["@, url);
    cut_back(full, h1, "\n- 时长: "@, length);
    cut_back(full, h0, "\n\n- UP主: "@, meta.up_name@);
    cut_back_once(full, "# "@ + meta.title@ + "\n\n"@, job_mark(job.id));
    a_title_line(full, meta.title@);
    author_held(h0, meta.up_name@);
    length_held(h1, length);
    link_held(k3, url);
    tail_held(h4, h3, asked_lines(job));
    tail_held(h5, h4, reported_lines(job));
    ends_held(h5, "- 字符数: "@, count);
    tail_held(h8, h7, speaker_line(job, us));
    ends_held(h8, "- 原始稿本地路径: "@, raw_path);
    start_held(full, h1, "- UP主: "@ + meta.up_name@);
    start_held(full, h2, "- 时长: "@ + length);
    start_held(full, h3, "("@ + url + ")"@);
    start_held(full, h4, asked_lines(job));
    start_held(full, h5, reported_lines(job));
    start_held(full, h6, "- 字符数: "@ + count);
    start_held(full, h8, speaker_line(job, us));
    start_held(full, h9, "- 原始稿本地路径: "@ + raw_path);
}

proof fn itself_first(s: Seq<char>)
    ensures
        s.is_prefix_of(s),
{
    assert(s.subrange(0, s.len() as int) =~= s);
}

proof fn ends_with(a: Seq<char>, b: Seq<char>)
    ensures
        b.is_suffix_of(a + b),
{
    assert((a + b).subrange((a + b).len() - b.len(), (a + b).len() as int) =~= b);
}

proof fn cut_back_once(s: Seq<char>, a: Seq<char>, b: Seq<char>)
    requires
        (a + b).is_prefix_of(s),
    ensures
        a.is_prefix_of(s),
{
    assert((a + b).subrange(0, a.len() as int) =~= a);
    assert(s.subrange(0, (a + b).len() as int).subrange(0, a.len() as int) =~= s.subrange(0, a.len() as int));
}

proof fn cut_back(s: Seq<char>, a: Seq<char>, b: Seq<char>, c: Seq<char>)
    requires
        (a + b + c).is_prefix_of(s),
    ensures
        a.is_prefix_of(s),
{
    cut_back_once(s, a + b, c);
    cut_back_once(s, a, b);
}

proof fn a_title_line(s: Seq<char>, title: Seq<char>)
    requires
        ("# "@ + title + "\n\n"@).is_prefix_of(s),
    ensures
        ("# "@ + title + "\n"@).is_prefix_of(s),
{
    reveal_strlit("\n\n");
    reveal_strlit("\n");
    assert("# "@ + title + "\n\n"@ =~= "# "@ + title + "\n"@ + "\n"@);
    cut_back_once(s, "# "@ + title + "\n"@, "\n"@);
}

proof fn author_held(h: Seq<char>, name: Seq<char>)
    ensures
        has(h + "\n\n- UP主: "@ + name, "- UP主: "@ + name),
{
    reveal_strlit("\n\n- UP主: ");
    reveal_strlit("- UP主: ");
    tail_held(h + "\n\n- UP主: "@ + name, h + seq!['\n', '\n'], "- UP主: "@ + name);
}

proof fn length_held(h: Seq<char>, length: Seq<char>)
    ensures
        has(h + "\n- 时长: "@ + length, "- 时长: "@ + length),
{
    reveal_strlit("\n- 时长: ");
    reveal_strlit("- 时长: ");
    tail_held(h + "\n- 时长: "@ + length, h + seq!['\n'], "- 时长: "@ + length);
}

proof fn link_held(h: Seq<char>, url: Seq<char>)
    ensures
        has(h + "]("@ + url + ")\n"@, "("@ + url + ")"@),
{
    reveal_strlit("](");
    reveal_strlit(")\n");
    reveal_strlit("(");
    reveal_strlit(")");
    assert("]("@ =~= seq![']'] + "("@);
    assert(")\n"@ =~= ")"@ + seq!['\n']);
    middle_held(h, seq![']'], "("@, url, ")"@, seq!['\n']);
}

proof fn middle_held(h: Seq<char>, a: Seq<char>, b: Seq<char>, u: Seq<char>, c: Seq<char>, d: Seq<char>)
    ensures
        has(h + (a + b) + u + (c + d), b + u + c),
{
    a_part_is_found(h + a, b + u + c, d);
    assert(h + (a + b) + u + (c + d) =~= h + a + (b + u + c) + d);
}

proof fn tail_held(s: Seq<char>, a: Seq<char>, b: Seq<char>)
    requires
        s =~= a + b,
    ensures
        has(s, b),
{
    a_part_is_found(a, b, Seq::empty());
    assert(a + b + Seq::<char>::empty() =~= s);
}

proof fn ends_held(a: Seq<char>, b: Seq<char>, c: Seq<char>)
    ensures
        has(a + b + c, b + c),
{
    tail_held(a + b + c, a, b + c);
}

proof fn start_held(s: Seq<char>, a: Seq<char>, p: Seq<char>)
    requires
        a.is_prefix_of(s),
        has(a, p),
    ensures
        has(s, p),
{
    let i = choose|i: int| at(a, p, i);
    assert(s.subrange(0, a.len() as int).subrange(i, i + p.len() as int) =~= s.subrange(i, i + p.len() as int));
    assert(at(s, p, i));
}

/// A document counts one minute for every 5000 characters that are begun, and never none.
pub proof fn begun_minutes_count(chars: nat)
    ensures
        legacy_minutes(chars) >= 1,
        chars <= 5000 * legacy_minutes(chars),
        chars > 0 ==> 5000 * (legacy_minutes(chars) - 1) < chars,
{
}

/// The clock of a moment, read as a time, is that moment to the second.
pub proof fn a_clock_reads_back(ms: u64)
    ensures
        time_point(clock(ms)) == Some((ms / 1000) * 1000),
{
    reveal_strlit(":");
    let t = ms / 1000;
    let h = (t / 3600) as nat;
    let m = ((t / 60) % 60) as nat;
    let s = (t % 60) as nat;
    padded_reads_back(h, 2);
    padded_reads_back(m, 2);
    padded_reads_back(s, 2);
    let hs = two_digits(h);
    let m2 = two_digits(m);
    let s2 = two_digits(s);
    no_colon(hs);
    no_colon(m2);
    no_colon(s2);
    assert(digit(hs[0]) && digit(m2[0]) && digit(s2[0]));
    assert(":"@ =~= seq![':']);
    assert(clock(ms) =~= hs + seq![':'] + (m2 + seq![':'] + s2));
    the_first_part_is_before_the_separator(hs, ':', m2 + seq![':'] + s2);
    the_first_part_is_before_the_separator(m2, ':', s2);
    the_first_part_is_before_the_separator(s2, ':', Seq::empty());
    let three = seq![hs] + (seq![m2] + seq![s2]);
    assert(split(clock(ms), ':') == three);
    assert(three.len() == 3 && three[0] == hs && three[1] == m2 && three[2] == s2);
    assert(h * 3600 + m * 60 + s == t);
}

/// A length is told in hours, minutes and seconds that add up to it; the hours are left out where
/// there are none.
pub proof fn a_spoken_length_adds_up(ms: u64) -> (r: (nat, nat, nat))
    ensures
        r.0 * 3600 + r.1 * 60 + r.2 == ms / 1000,
        r.1 < 60,
        r.2 < 60,
        r.0 > 0 ==> spoken_length(ms) == dec(r.0) + "时"@ + padded(dec(r.1), 2, '0') + "分"@ + padded(
            dec(r.2),
            2,
            '0',
        ) + "秒"@,
        r.0 == 0 ==> spoken_length(ms) == dec(r.1) + "分"@ + padded(dec(r.2), 2, '0') + "秒"@,
{
    let t = ms / 1000;
    ((t / 3600) as nat, ((t / 60) % 60) as nat, (t % 60) as nat)
}

/// Where no name occurs twice, an utterance is found by its name; a name that nothing carries
/// finds nothing.
pub proof fn an_utterance_is_found_by_its_name(us: Seq<Utterance>, id: Seq<char>, n: int)
    requires
        0 <= n <= us.len(),
    ensures
        match with_id(us, id, n) {
            Some(u) => exists|k: int|
                0 <= k < n && us[k] == u && (#[trigger] us[k]).id@ == id && forall|j: int|
                    k < j < n ==> (#[trigger] us[j]).id@ != id,
            None => forall|j: int| 0 <= j < n ==> (#[trigger] us[j]).id@ != id,
        },
    decreases n,
{
    if n > 0 {
        an_utterance_is_found_by_its_name(us, id, n - 1);
        if us[n - 1].id@ == id {
            assert(us[n - 1].id@ == id);
        } else if let Some(u) = with_id(us, id, n) {
            let k = choose|k: int|
                0 <= k < n - 1 && us[k] == u && (#[trigger] us[k]).id@ == id && forall|j: int|
                    k < j < n - 1 ==> (#[trigger] us[j]).id@ != id;
            assert(us[k].id@ == id);
            assert(forall|j: int| k < j < n ==> (#[trigger] us[j]).id@ != id);
        }
    }
}

/// The faithful text has one entry for each block, in their order, each with its whole text.
pub proof fn the_faithful_text_has_every_block(
    job: Job,
    bs: Seq<ContentBlockV1>,
    us: Seq<Utterance>,
    n: int,
)
    requires
        0 <= n <= bs.len(),
    ensures
        faithful_entries(job, bs, us, n) == Seq::new(n as nat, |k: int| faithful_entry(job, bs[k], us)).flatten(),
        forall|k: int| 0 <= k < n ==> has(faithful_entries(job, bs, us, n), (#[trigger] bs[k]).text@),
    decreases n,
{
    let f = |k: int| faithful_entry(job, bs[k], us);
    let all = Seq::new(n as nat, f);
    if n > 0 {
        the_faithful_text_has_every_block(job, bs, us, n - 1);
        let less = Seq::new((n - 1) as nat, f);
        assert(all =~= less.push(f(n - 1)));
        less.lemma_flatten_push(f(n - 1));
    } else {
        assert(all =~= Seq::<Seq<char>>::empty());
    }
    assert forall|k: int| 0 <= k < n implies has(faithful_entries(job, bs, us, n), (#[trigger] bs[k]).text@) by {
        a_text_is_held(all, k);
        a_block_is_shown(job, bs[k], us);
        held_inside(bs[k].text@, all[k], all.flatten());
    }
}

/// A block whose source is known carries a link to the moment of its first words; one whose
/// source is not known carries none, and says so. Either shows its text.
pub proof fn a_block_is_shown(job: Job, b: ContentBlockV1, us: Seq<Utterance>)
    ensures
        has(faithful_entry(job, b, us), b.text@),
        b.source_status is Mapped && b.source_refs@.len() > 0 && b.source_refs@[0].utterance_ids@.len() > 0
            ==> match with_id(us, b.source_refs@[0].utterance_ids@[0]@, us.len() as int) {
            Some(u) => faithful_entry(job, b, us) == entry(job, u.speaker_id, u.start_ms, b.text@),
            None => ("> 来源受限\n"@ + b.text@).is_prefix_of(faithful_entry(job, b, us)),
        },
        b.source_status !is Mapped || b.source_refs@.len() == 0 || b.source_refs@[0].utterance_ids@.len() == 0
            ==> ("> 来源受限\n"@ + b.text@).is_prefix_of(faithful_entry(job, b, us)),
{
    let limited = "> 来源受限\n"@ + b.text@ + "\n\n"@;
    a_part_is_found("> 来源受限\n"@, b.text@, "\n\n"@);
    let head = "> 来源受限\n"@ + b.text@;
    assert(limited.subrange(0, head.len() as int) =~= head);
    if let Some(u) = first_source(b, us) {
        an_entry_holds_its_parts(job, u.speaker_id, u.start_ms, b.text@);
    }
}

/// The line on the speakers names everyone who speaks, each once, in the order of their numbers.
pub proof fn everyone_who_speaks_is_named(job: Job, us: Seq<Utterance>) -> (r: Seq<u32>)
    ensures
        us.len() == 0 ==> r.len() == 0,
        forall|i: int, j: int| 0 <= i < j < r.len() ==> #[trigger] r[i] < #[trigger] r[j],
        forall|i: int| 0 <= i < us.len() ==> r.contains((#[trigger] us[i]).speaker_id),
        forall|x: u32| #[trigger]
            r.contains(x) ==> exists|i: int| 0 <= i < us.len() && (#[trigger] us[i]).speaker_id == x,
        r.len() > 0 ==> speaker_line(job, us) == joined(r.map_values(|id: u32| job.name_of(id)), " / "@) + "\n"@,
{
    speakers_are_listed_in_order(us, us.len() as int);
    speakers_of(us, us.len() as int)
}

} // verus!
