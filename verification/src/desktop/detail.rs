//! The list of jobs, and the pane with the details of the selected one.

use vstd::prelude::*;
use super::rows::{
    ContentResultsData, content_results_for_job, elapsed, fmt_elapsed, length_word, results_of, video_length,
};
use crate::content_results::current::ContentViewV1;
use crate::content_results::error::ContentError;
use crate::content_results::record::UtcTime;
use crate::document::{speaker_list, speakers_of};
use crate::funasr::Utterance;
use crate::ids::{hyphenated, id_text};
use crate::jobs::{Job, JobStatus, RetentionPolicy, Stage};
use crate::paths::{below, join_path};
use crate::text::{cat2, cat4, chars_of, dec, decimal, is_white, opt_view, text, white};

verus! {

broadcast use vstd::std_specs::hash::group_hash_axioms;

// ---- How long a job took ----

/// The whole seconds from one time to another; none where the other is earlier, and no more than
/// can be counted.
pub open spec fn seconds_between(from: UtcTime, to: UtcTime) -> int {
    let nanos = (to.seconds - from.seconds) * 1_000_000_000 + to.nanoseconds - from.nanoseconds;
    if nanos < 0 {
        0
    } else if nanos / 1_000_000_000 > u64::MAX {
        u64::MAX as int
    } else {
        nanos / 1_000_000_000
    }
}

fn whole_seconds(from: UtcTime, to: UtcTime) -> (r: u64)
    ensures
        r == seconds_between(from, to),
{
    let nanos: i128 = (to.seconds as i128 - from.seconds as i128) * 1_000_000_000 + to.nanoseconds as i128
        - from.nanoseconds as i128;
    if nanos < 0 {
        return 0;
    }
    let secs: i128 = nanos / 1_000_000_000;
    if secs > u64::MAX as i128 {
        u64::MAX
    } else {
        secs as u64
    }
}

/// How long a job took, or has taken until now: in seconds, and in words. A job that has not
/// begun shows no time at all.
pub open spec fn taken(job: Job, now: UtcTime) -> (int, Seq<char>) {
    match job.started_at {
        None => (0, "—"@),
        Some(start) => {
            let secs = seconds_between(
                start,
                match job.finished_at {
                    Some(end) => end,
                    None => now,
                },
            );
            (secs, elapsed(secs as u64))
        },
    }
}

/// How long a job took, or has taken until now.
pub fn fmt_job_elapsed(job: &Job, now: UtcTime) -> (r: (u64, String))
    ensures
        (r.0 as int, r.1@) == taken(*job, now),
{
    match job.started_at {
        None => (0, text("—")),
        Some(start) => {
            let end = match job.finished_at {
                Some(end) => end,
                None => now,
            };
            let secs: u64 = whole_seconds(start, end);
            (secs, fmt_elapsed(secs))
        },
    }
}

// ---- What is known of a job ----

/// What may be done with a job.
#[derive(Debug, Clone, Copy, PartialEq, Eq, Structural)]
pub struct JobCapabilities {
    pub can_cancel: bool,
    pub can_retry: bool,
    pub can_rebuild: bool,
    pub can_open_document: bool,
    pub can_reveal: bool,
    pub can_delete: bool,
    pub can_edit_speakers: bool,
}

/// What the queue says of a job in words.
#[derive(Debug)]
pub struct JobViewSnapshot {
    pub status_label: String,
    pub status_name: String,
    pub stage_label: String,
    pub stage_name: String,
    pub total_progress: u32,
    pub warning: Option<String>,
    pub retention_label: String,
    pub transcription_runtime: String,
    pub transcription_source: String,
    pub transcription_backend: String,
    pub transcription_model: String,
    pub requested_language: String,
    pub reported_language: String,
    pub reported_model: String,
    pub capabilities: JobCapabilities,
}

/// A row of the list of jobs.
#[derive(Debug)]
pub struct JobRow {
    pub id: String,
    pub title: String,
    pub bvid: String,
    pub page: u32,
    pub stage_name: String,
    pub stage_label: String,
    pub stage_progress: u32,
    pub total_progress: u32,
    pub indeterminate: bool,
    pub elapsed_secs: u64,
    pub elapsed: String,
    pub selected: bool,
    pub has_error: bool,
    pub error_text: String,
    pub status_label: String,
    pub status_name: String,
}

/// A text, or the empty text.
pub open spec fn or_empty(o: Option<String>) -> Seq<char> {
    match o {
        Some(s) => s@,
        None => ""@,
    }
}

fn or_nothing(o: &Option<String>) -> (r: String)
    ensures
        r@ == or_empty(*o),
{
    match o {
        Some(s) => s.clone(),
        None => text(""),
    }
}

/// The row of a job. While a job is transcribed no progress is known.
pub open spec fn row_shows(r: JobRow, job: Job, snap: JobViewSnapshot, now: UtcTime, selected: bool) -> bool {
    &&& r.id@ == hyphenated(job.id)
    &&& r.title@ == job.title@ && r.bvid@ == job.bvid@ && r.page == job.page
    &&& r.stage_name@ == snap.stage_name@ && r.stage_label@ == snap.stage_label@
    &&& r.stage_progress == job.stage_progress && r.total_progress == snap.total_progress
    &&& r.indeterminate == (job.stage is Transcribe)
    &&& (r.elapsed_secs as int, r.elapsed@) == taken(job, now)
    &&& r.selected == selected
    &&& r.has_error == (job.error is Some) && r.error_text@ == or_empty(job.error)
    &&& r.status_label@ == snap.status_label@ && r.status_name@ == snap.status_name@
}

/// The row of a job.
pub fn job_to_row(job: &Job, snap: &JobViewSnapshot, now: UtcTime, selected: bool) -> (r: JobRow)
    ensures
        row_shows(r, *job, *snap, now, selected),
{
    let (elapsed_secs, elapsed) = fmt_job_elapsed(job, now);
    JobRow {
        id: id_text(job.id),
        title: job.title.clone(),
        bvid: job.bvid.clone(),
        page: job.page,
        stage_name: snap.stage_name.clone(),
        stage_label: snap.stage_label.clone(),
        stage_progress: job.stage_progress,
        total_progress: snap.total_progress,
        indeterminate: job.stage == Stage::Transcribe,
        elapsed_secs,
        elapsed,
        selected,
        has_error: job.error.is_some(),
        error_text: or_nothing(&job.error),
        status_label: snap.status_label.clone(),
        status_name: snap.status_name.clone(),
    }
}

// ---- Speakers ----

/// A speaker as the pane shows it.
#[derive(Debug)]
pub struct SpeakerEntry {
    pub speaker_id: u32,
    pub raw_label: String,
    /// The name that the user gave, or nothing.
    pub name: String,
    /// How many utterances the speaker has; zero where that is not known.
    pub segment_count: usize,
}

/// How many of the first `n` utterances a speaker has.
pub open spec fn segments(us: Seq<Utterance>, speaker: u32, n: int) -> nat
    decreases n,
{
    if n <= 0 {
        0
    } else {
        segments(us, speaker, n - 1) + (if us[n - 1].speaker_id == speaker {
            1nat
        } else {
            0nat
        })
    }
}

fn count_segments(us: &Vec<Utterance>, speaker: u32) -> (r: usize)
    ensures
        r == segments(us@, speaker, us@.len() as int),
{
    let mut n: usize = 0;
    let mut i: usize = 0;
    while i < us.len()
        invariant
            i <= us@.len(),
            n <= i,
            n == segments(us@, speaker, i as int),
        decreases us@.len() - i,
    {
        if us[i].speaker_id == speaker {
            n += 1;
        }
        i += 1;
    }
    n
}

/// The entry of a speaker.
pub open spec fn entry_shows(e: SpeakerEntry, job: Job, id: u32, count: nat) -> bool {
    &&& e.speaker_id == id
    &&& e.raw_label@ == "Speaker "@ + dec(id as nat)
    &&& e.name@ == (if job.speaker_map@.contains_key(id) {
        job.speaker_map@[id]@
    } else {
        ""@
    })
    &&& e.segment_count == count
}

fn speaker_entry(job: &Job, id: u32, count: usize) -> (e: SpeakerEntry)
    ensures
        entry_shows(e, *job, id, count as nat),
{
    let n = decimal(id as u64);
    let name = match job.speaker_map.get(&id) {
        Some(s) => s.clone(),
        None => text(""),
    };
    SpeakerEntry { speaker_id: id, raw_label: cat2("Speaker ", n.as_str()), name, segment_count: count }
}

/// The speakers of a job: those of its transcript, each with the number of its utterances; or
/// three of whom nothing is known yet.
pub fn speaker_entries(job: &Job, transcript: Option<&Vec<Utterance>>) -> (r: Vec<SpeakerEntry>)
    ensures
        match transcript {
            Some(us) => ({
                let ids = speakers_of(us@, us@.len() as int);
                &&& r@.len() == ids.len()
                &&& forall|i: int|
                    0 <= i < ids.len() ==> entry_shows(
                        #[trigger] r@[i],
                        *job,
                        ids[i],
                        segments(us@, ids[i], us@.len() as int),
                    )
            }),
            None => r@.len() == 3 && forall|i: int| 0 <= i < 3 ==> entry_shows(#[trigger] r@[i], *job, i as u32, 0),
        },
{
    let mut out: Vec<SpeakerEntry> = Vec::new();
    match transcript {
        Some(us) => {
            let ids = speaker_list(us);
            let mut i: usize = 0;
            while i < ids.len()
                invariant
                    i <= ids@.len(),
                    out@.len() == i,
                    forall|j: int|
                        0 <= j < i ==> entry_shows(
                            #[trigger] out@[j],
                            *job,
                            ids@[j],
                            segments(us@, ids@[j], us@.len() as int),
                        ),
                decreases ids@.len() - i,
            {
                let n: usize = count_segments(us, ids[i]);
                out.push(speaker_entry(job, ids[i], n));
                i += 1;
            }
        },
        None => {
            out.push(speaker_entry(job, 0, 0));
            out.push(speaker_entry(job, 1, 0));
            out.push(speaker_entry(job, 2, 0));
        },
    }
    out
}

// ---- Files ----

/// How large the files of a video are together.
pub open spec fn media_bytes(video: u64, audio: u64) -> u64 {
    if video + audio > u64::MAX {
        u64::MAX
    } else {
        (video + audio) as u64
    }
}

/// How large the files of a video are together.
pub fn media_total(video: u64, audio: u64) -> (r: u64)
    ensures
        r == media_bytes(video, audio),
{
    video.saturating_add(audio)
}

/// What is said of the files of a video, given their sizes and the size of both in words. A
/// finished job that does not keep its files says that they were cleaned up.
pub open spec fn media_words(job: Job, video: u64, audio: u64, size: Seq<char>) -> Seq<char> {
    if job.work_dir is None {
        "尚未生成"@
    } else if video > 0 && audio > 0 {
        size + "（"@ + "音视频"@ + "）"@
    } else if video > 0 {
        size + "（"@ + "视频"@ + "）"@
    } else if audio > 0 {
        size + "（"@ + "音频"@ + "）"@
    } else if job.status is Completed && !(job.retention is KeepAll) {
        "已按保留策略清理"@
    } else {
        "尚未生成"@
    }
}

/// What is said of the files of a video.
pub fn fmt_media_size(job: &Job, video: u64, audio: u64, size: &str) -> (r: String)
    ensures
        r@ == media_words(*job, video, audio, size@),
{
    if job.work_dir.is_none() {
        return text("尚未生成");
    }
    if video > 0 || audio > 0 {
        let kind = if video > 0 && audio > 0 {
            "音视频"
        } else if video > 0 {
            "视频"
        } else {
            "音频"
        };
        return cat4(size, "（", kind, "）");
    }
    if job.status == JobStatus::Completed && job.retention != RetentionPolicy::KeepAll {
        text("已按保留策略清理")
    } else {
        text("尚未生成")
    }
}

/// The files that a job's words are counted in, in the order in which they are tried: the final
/// document, the one beside the transcript, and the raw transcript.
pub open spec fn counted_paths(job: Job) -> Seq<Option<Seq<char>>> {
    seq![
        opt_below(job.final_output_dir, "full.md"@),
        opt_below(job.work_dir, "full.md"@),
        opt_below(job.work_dir, "transcript.raw.md"@),
    ]
}

/// A file below a directory that may be missing.
pub open spec fn opt_below(dir: Option<String>, name: Seq<char>) -> Option<Seq<char>> {
    match dir {
        Some(d) => Some(below(d@, name)),
        None => None,
    }
}

fn join_opt(dir: &Option<String>, name: &str) -> (r: Option<String>)
    ensures
        opt_view(r) == opt_below(*dir, name@),
{
    match dir {
        Some(d) => Some(join_path(d.as_str(), name)),
        None => None,
    }
}

/// The files that a job's words are counted in.
pub fn document_paths(job: &Job) -> (r: [Option<String>; 3])
    ensures
        forall|i: int| 0 <= i < 3 ==> opt_view(#[trigger] r@[i]) == counted_paths(*job)[i],
{
    [
        join_opt(&job.final_output_dir, "full.md"),
        join_opt(&job.work_dir, "full.md"),
        join_opt(&job.work_dir, "transcript.raw.md"),
    ]
}

/// What is said of the words of a job, given the count of each of its files that could be read:
/// the first that could.
pub fn fmt_document_words(counts: [Option<u64>; 3]) -> (r: String)
    ensures
        r@ == (match (counts@[0], counts@[1], counts@[2]) {
            (Some(n), _, _) => dec(n as nat) + " 字"@,
            (None, Some(n), _) => dec(n as nat) + " 字"@,
            (None, None, Some(n)) => dec(n as nat) + " 字（原始稿）"@,
            (None, None, None) => "尚未生成"@,
        }),
{
    match (counts[0], counts[1], counts[2]) {
        (Some(n), _, _) => cat2(decimal(n).as_str(), " 字"),
        (None, Some(n), _) => cat2(decimal(n).as_str(), " 字"),
        (None, None, Some(n)) => cat2(decimal(n).as_str(), " 字（原始稿）"),
        (None, None, None) => text("尚未生成"),
    }
}

/// What is said of the words of a job until they are counted, given which of its files exist.
pub fn document_words_placeholder(exists: [bool; 3]) -> (r: &'static str)
    ensures
        r@ == (if exists@[0] || exists@[1] || exists@[2] {
            "统计中…"@
        } else {
            "尚未生成"@
        }),
{
    if exists[0] || exists[1] || exists[2] {
        "统计中…"
    } else {
        "尚未生成"
    }
}

/// How many of the first `n` characters are no white space.
pub open spec fn visible_count(s: Seq<char>, n: int) -> nat
    decreases n,
{
    if n <= 0 {
        0
    } else {
        visible_count(s, n - 1) + (if white(s[n - 1]) {
            0nat
        } else {
            1nat
        })
    }
}

/// How many characters of a text are no white space.
pub fn count_non_whitespace_chars(content: &str) -> (r: usize)
    ensures
        r == visible_count(content@, content@.len() as int),
{
    let v: Vec<char> = chars_of(content);
    let mut n: usize = 0;
    let mut i: usize = 0;
    while i < v.len()
        invariant
            i <= v@.len(),
            v@ == content@,
            n <= i,
            n == visible_count(content@, i as int),
        decreases v@.len() - i,
    {
        if !is_white(v[i]) {
            n += 1;
        }
        i += 1;
    }
    n
}

// ---- The pane ----

/// What depends on the machine: the times in its time zone, and what its files hold.
#[derive(Debug)]
pub struct MachineFacts {
    pub created_at: String,
    pub started_at: String,
    pub finished_at: String,
    pub video_bytes: u64,
    pub audio_bytes: u64,
    /// The size of both files in words.
    pub media_size: String,
    /// Which of the counted files exist.
    pub documents: [bool; 3],
}

/// The pane with the details of a job.
#[derive(Debug)]
pub struct JobDetailData {
    pub has_job: bool,
    pub title: String,
    pub bvid: String,
    pub page: u32,
    pub status_label: String,
    pub stage_name: String,
    pub status_name: String,
    pub total_progress: u32,
    pub elapsed_secs: u64,
    pub elapsed: String,
    pub error_text: String,
    pub has_error: bool,
    pub warning_text: String,
    pub can_cancel: bool,
    pub can_retry: bool,
    pub can_rebuild: bool,
    pub can_open: bool,
    pub can_reveal: bool,
    pub can_delete: bool,
    pub can_edit_speakers: bool,
    pub screenshots_enabled: bool,
    pub retention_label: String,
    pub created_at: String,
    pub started_at: String,
    pub finished_at: String,
    pub video_duration: String,
    pub media_size: String,
    pub document_words: String,
    pub transcription_runtime: String,
    pub transcription_source: String,
    pub transcription_backend: String,
    pub transcription_model: String,
    pub requested_language: String,
    pub reported_language: String,
    pub reported_model: String,
    pub can_view_result: bool,
}

/// What the pane warns of: what the queue says, or that the transcript of a finished job cannot
/// be used.
pub open spec fn warning_of(
    job: Job,
    snap: JobViewSnapshot,
    view: Result<ContentViewV1, ContentError>,
) -> Seq<char> {
    match snap.warning {
        Some(w) => w@,
        None => if job.content_setup is Some && job.status.terminal() && view is Err {
            "原始稿不可用，请重新创建任务。"@
        } else {
            ""@
        },
    }
}

/// The pane of a job.
pub open spec fn detail_shows(
    d: JobDetailData,
    job: Job,
    snap: JobViewSnapshot,
    view: Result<ContentViewV1, ContentError>,
    facts: MachineFacts,
    now: UtcTime,
) -> bool {
    let caps = snap.capabilities;
    &&& d.has_job
    &&& d.title@ == job.title@ && d.bvid@ == job.bvid@ && d.page == job.page
    &&& d.status_label@ == snap.status_label@ && d.stage_name@ == snap.stage_name@
    &&& d.status_name@ == snap.status_name@ && d.total_progress == snap.total_progress
    &&& (d.elapsed_secs as int, d.elapsed@) == taken(job, now)
    &&& d.error_text@ == or_empty(job.error) && d.has_error == (job.error is Some)
    &&& d.warning_text@ == warning_of(job, snap, view)
    &&& d.can_cancel == caps.can_cancel && d.can_retry == caps.can_retry && d.can_rebuild == caps.can_rebuild
    &&& d.can_open == caps.can_open_document && d.can_reveal == caps.can_reveal
    &&& d.can_delete == caps.can_delete && d.can_edit_speakers == caps.can_edit_speakers
    &&& !d.screenshots_enabled
    &&& d.retention_label@ == snap.retention_label@
    &&& d.created_at@ == facts.created_at@ && d.started_at@ == facts.started_at@
    &&& d.finished_at@ == facts.finished_at@
    &&& d.video_duration@ == length_word(job.duration_ms)
    &&& d.media_size@ == media_words(job, facts.video_bytes, facts.audio_bytes, facts.media_size@)
    &&& d.document_words@ == (if facts.documents@[0] || facts.documents@[1] || facts.documents@[2] {
        "统计中…"@
    } else {
        "尚未生成"@
    })
    &&& d.transcription_runtime@ == snap.transcription_runtime@
    &&& d.transcription_source@ == snap.transcription_source@
    &&& d.transcription_backend@ == snap.transcription_backend@
    &&& d.transcription_model@ == snap.transcription_model@
    &&& d.requested_language@ == snap.requested_language@
    &&& d.reported_language@ == snap.reported_language@ && d.reported_model@ == snap.reported_model@
    &&& d.can_view_result == results_of(job, snap.status_label@, view, None).entry_visible
}

/// The pane of a job together with its result.
pub fn show_job_detail(
    job: &Job,
    snap: &JobViewSnapshot,
    view: &Result<ContentViewV1, ContentError>,
    facts: &MachineFacts,
    now: UtcTime,
) -> (r: (JobDetailData, ContentResultsData))
    ensures
        detail_shows(r.0, *job, *snap, *view, *facts, now),
        r.1@ == results_of(*job, snap.status_label@, *view, None),
{
    let result = content_results_for_job(job, snap.status_label.as_str(), view, None);
    let (elapsed_secs, elapsed) = fmt_job_elapsed(job, now);
    let warning_text = match &snap.warning {
        Some(w) => w.clone(),
        None => {
            if job.content_setup.is_some() && job.status.is_terminal() && view.is_err() {
                text("原始稿不可用，请重新创建任务。")
            } else {
                text("")
            }
        },
    };
    let caps = &snap.capabilities;
    let detail = JobDetailData {
        has_job: true,
        title: job.title.clone(),
        bvid: job.bvid.clone(),
        page: job.page,
        status_label: snap.status_label.clone(),
        stage_name: snap.stage_name.clone(),
        status_name: snap.status_name.clone(),
        total_progress: snap.total_progress,
        elapsed_secs,
        elapsed,
        error_text: or_nothing(&job.error),
        has_error: job.error.is_some(),
        warning_text,
        can_cancel: caps.can_cancel,
        can_retry: caps.can_retry,
        can_rebuild: caps.can_rebuild,
        can_open: caps.can_open_document,
        can_reveal: caps.can_reveal,
        can_delete: caps.can_delete,
        can_edit_speakers: caps.can_edit_speakers,
        screenshots_enabled: false,
        retention_label: snap.retention_label.clone(),
        created_at: facts.created_at.clone(),
        started_at: facts.started_at.clone(),
        finished_at: facts.finished_at.clone(),
        video_duration: video_length(job.duration_ms),
        media_size: fmt_media_size(job, facts.video_bytes, facts.audio_bytes, facts.media_size.as_str()),
        document_words: text(document_words_placeholder(facts.documents)),
        transcription_runtime: snap.transcription_runtime.clone(),
        transcription_source: snap.transcription_source.clone(),
        transcription_backend: snap.transcription_backend.clone(),
        transcription_model: snap.transcription_model.clone(),
        requested_language: snap.requested_language.clone(),
        reported_language: snap.reported_language.clone(),
        reported_model: snap.reported_model.clone(),
        can_view_result: result.entry_visible,
    };
    (detail, result)
}

/// The pane shows that no job is selected.
pub open spec fn shows_nothing(d: JobDetailData) -> bool {
    &&& !d.has_job && !d.has_error && !d.can_cancel && !d.can_retry && !d.can_rebuild && !d.can_open && !d.can_reveal
        && !d.can_delete && !d.can_edit_speakers && !d.screenshots_enabled && !d.can_view_result
    &&& d.title@ == ""@ && d.bvid@ == ""@ && d.status_label@ == ""@ && d.stage_name@ == ""@ && d.status_name@ == ""@
        && d.error_text@ == ""@ && d.warning_text@ == ""@
    &&& d.page == 1 && d.total_progress == 0 && d.elapsed_secs == 0
    &&& d.elapsed@ == "—"@ && d.created_at@ == "—"@ && d.started_at@ == "—"@ && d.finished_at@ == "—"@
        && d.video_duration@ == "—"@
    &&& d.retention_label@ == RetentionPolicy::Recommended.label_text()
    &&& d.media_size@ == "尚未生成"@ && d.document_words@ == "尚未生成"@
    &&& d.transcription_runtime@ == "未记录"@ && d.transcription_source@ == "未记录"@ && d.transcription_backend@
        == "未记录"@ && d.requested_language@ == "未记录"@
    &&& d.transcription_model@ == "未提供"@
    &&& d.reported_language@ == "未报告"@ && d.reported_model@ == "未报告"@
}

/// The pane while no job is selected.
pub fn empty_detail() -> (d: JobDetailData)
    ensures
        shows_nothing(d),
{
    JobDetailData {
        has_job: false,
        title: text(""),
        bvid: text(""),
        page: 1,
        status_label: text(""),
        stage_name: text(""),
        status_name: text(""),
        total_progress: 0,
        elapsed_secs: 0,
        elapsed: text("—"),
        error_text: text(""),
        has_error: false,
        warning_text: text(""),
        can_cancel: false,
        can_retry: false,
        can_rebuild: false,
        can_open: false,
        can_reveal: false,
        can_delete: false,
        can_edit_speakers: false,
        screenshots_enabled: false,
        retention_label: text(RetentionPolicy::Recommended.label()),
        created_at: text("—"),
        started_at: text("—"),
        finished_at: text("—"),
        video_duration: text("—"),
        media_size: text("尚未生成"),
        document_words: text("尚未生成"),
        transcription_runtime: text("未记录"),
        transcription_source: text("未记录"),
        transcription_backend: text("未记录"),
        transcription_model: text("未提供"),
        requested_language: text("未记录"),
        reported_language: text("未报告"),
        reported_model: text("未报告"),
        can_view_result: false,
    }
}

/// The pane after the selected job has run: the times and what depends on its files are new, and
/// everything else stays.
pub open spec fn refreshed(
    before: JobDetailData,
    after: JobDetailData,
    job: Job,
    facts: MachineFacts,
    now: UtcTime,
) -> bool {
    &&& (after.elapsed_secs as int, after.elapsed@) == taken(job, now)
    &&& after.created_at@ == facts.created_at@ && after.started_at@ == facts.started_at@
    &&& after.finished_at@ == facts.finished_at@
    &&& after.video_duration@ == length_word(job.duration_ms)
    &&& after.media_size@ == media_words(job, facts.video_bytes, facts.audio_bytes, facts.media_size@)
    &&& after.document_words@ == (if facts.documents@[0] || facts.documents@[1] || facts.documents@[2] {
        "统计中…"@
    } else {
        "尚未生成"@
    })
    &&& after == (JobDetailData {
        elapsed_secs: after.elapsed_secs,
        elapsed: after.elapsed,
        created_at: after.created_at,
        started_at: after.started_at,
        finished_at: after.finished_at,
        video_duration: after.video_duration,
        media_size: after.media_size,
        document_words: after.document_words,
        ..before
    })
}

/// Brings the pane up to date after the selected job has run.
pub fn refresh_detail(detail: &mut JobDetailData, job: &Job, facts: &MachineFacts, now: UtcTime)
    ensures
        refreshed(*old(detail), *final(detail), *job, *facts, now),
{
    let (elapsed_secs, elapsed) = fmt_job_elapsed(job, now);
    detail.elapsed_secs = elapsed_secs;
    detail.elapsed = elapsed;
    detail.created_at = facts.created_at.clone();
    detail.started_at = facts.started_at.clone();
    detail.finished_at = facts.finished_at.clone();
    detail.video_duration = video_length(job.duration_ms);
    detail.media_size = fmt_media_size(job, facts.video_bytes, facts.audio_bytes, facts.media_size.as_str());
    detail.document_words = text(document_words_placeholder(facts.documents));
}

/// The segments of a speaker are the utterances that carry their number.
pub proof fn every_segment_counts_once(us: Seq<Utterance>, speaker: u32, n: int)
    requires
        0 <= n <= us.len(),
    ensures
        segments(us, speaker, n) == us.take(n).filter(|u: Utterance| u.speaker_id == speaker).len(),
    decreases n,
{
    reveal(Seq::filter);
    if n > 0 {
        every_segment_counts_once(us, speaker, n - 1);
        assert(us.take(n).drop_last() =~= us.take(n - 1));
        assert(us.take(n).last() == us[n - 1]);
    }
}

/// The length of a text is the number of its characters that are not white space.
pub proof fn every_visible_character_counts_once(s: Seq<char>, n: int)
    requires
        0 <= n <= s.len(),
    ensures
        visible_count(s, n) == s.take(n).filter(|c: char| !white(c)).len(),
    decreases n,
{
    reveal(Seq::filter);
    if n > 0 {
        every_visible_character_counts_once(s, n - 1);
        assert(s.take(n).drop_last() =~= s.take(n - 1));
        assert(s.take(n).last() == s[n - 1]);
    }
}

/// A job has taken the whole seconds between its beginning and its end, or until now; nothing
/// where it has not begun, or where the clock went back.
pub proof fn the_time_taken_is_the_time_between(from: UtcTime, to: UtcTime, seconds: u64)
    requires
        to.seconds == from.seconds + seconds,
        to.nanoseconds == from.nanoseconds,
    ensures
        seconds_between(from, to) == seconds,
        seconds > 0 ==> seconds_between(to, from) == 0,
{
}

/// Who speaks is listed once for each speaker, in the order of their numbers, with as many
/// segments as they have; the segments of all of them are the transcript.
pub proof fn every_speaker_has_segments(us: Seq<Utterance>, i: int)
    requires
        0 <= i < speakers_of(us, us.len() as int).len(),
    ensures
        segments(us, speakers_of(us, us.len() as int)[i], us.len() as int) >= 1,
{
    let n = us.len() as int;
    crate::document::speakers_are_listed_in_order(us, n);
    let ids = speakers_of(us, n);
    assert(ids.contains(ids[i]));
    let k = choose|k: int| 0 <= k < n && (#[trigger] us[k]).speaker_id == ids[i];
    a_segment_counts(us, ids[i], n, k);
}

proof fn a_segment_counts(us: Seq<Utterance>, speaker: u32, n: int, k: int)
    requires
        0 <= k < n <= us.len(),
        us[k].speaker_id == speaker,
    ensures
        segments(us, speaker, n) >= 1,
    decreases n,
{
    if k < n - 1 {
        a_segment_counts(us, speaker, n - 1, k);
    }
}

proof fn held_in_three(size: Seq<char>, word: Seq<char>, c: char)
    ensures
        (size + "（"@ + word + "）"@).contains(c) <==> size.contains(c) || "（"@.contains(c) || word.contains(c)
            || "）"@.contains(c),
{
    let a = "（"@;
    let b = "）"@;
    let t = size + a + word + b;
    if size.contains(c) {
        let k = choose|k: int| 0 <= k < size.len() && size[k] == c;
        assert(t[k] == c);
    }
    if a.contains(c) {
        let k = choose|k: int| 0 <= k < a.len() && a[k] == c;
        assert(t[size.len() + k] == c);
    }
    if word.contains(c) {
        let k = choose|k: int| 0 <= k < word.len() && word[k] == c;
        assert(t[size.len() + a.len() + k] == c);
    }
    if b.contains(c) {
        let k = choose|k: int| 0 <= k < b.len() && b[k] == c;
        assert(t[size.len() + a.len() + word.len() + k] == c);
    }
}

/// What is left of the media is named: the picture where there is a picture, the sound where there
/// is sound, each of them and nothing else.
pub proof fn what_is_left_of_the_media_is_named(job: Job, video: u64, audio: u64, size: Seq<char>)
    requires
        job.work_dir is Some,
        !size.contains('视'),
        !size.contains('音'),
    ensures
        media_words(job, video, audio, size).contains('视') <==> video > 0,
        media_words(job, video, audio, size).contains('音') <==> audio > 0,
        video > 0 || audio > 0 ==> size.is_prefix_of(media_words(job, video, audio, size)),
{
    reveal_strlit("（");
    reveal_strlit("）");
    reveal_strlit("音视频");
    reveal_strlit("视频");
    reveal_strlit("音频");
    reveal_strlit("已按保留策略清理");
    reveal_strlit("尚未生成");
    held_in_three(size, "音视频"@, '视');
    held_in_three(size, "音视频"@, '音');
    held_in_three(size, "视频"@, '视');
    held_in_three(size, "视频"@, '音');
    held_in_three(size, "音频"@, '视');
    held_in_three(size, "音频"@, '音');
    assert("音视频"@[0] == '音' && "音视频"@[1] == '视');
    assert("视频"@[0] == '视');
    assert("音频"@[0] == '音');
}

/// The media take what the picture and the sound take together, as far as that can be counted.
pub proof fn the_media_take_what_their_parts_take(video: u64, audio: u64)
    ensures
        video + audio <= u64::MAX ==> media_bytes(video, audio) == video + audio,
        media_bytes(video, audio) >= video && media_bytes(video, audio) >= audio,
        media_bytes(video, audio) == media_bytes(audio, video),
{
}

/// The time that a finished job took does not change any more; a job that has not begun has taken
/// none, and one that runs has taken the time since it began.
pub proof fn a_finished_job_takes_no_longer(job: Job, now: UtcTime, later: UtcTime)
    ensures
        job.finished_at is Some ==> taken(job, now) == taken(job, later),
        job.started_at is None ==> taken(job, now).0 == 0,
        job.started_at matches Some(start) ==> taken(job, now).1 == elapsed(taken(job, now).0 as u64),
        job.started_at matches Some(start) ==> job.finished_at is None ==> now.seconds >= start.seconds
            && now.nanoseconds == start.nanoseconds && now.seconds - start.seconds <= u64::MAX ==> taken(job, now).0
            == now.seconds - start.seconds,
{
}

} // verus!
