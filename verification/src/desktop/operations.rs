//! Operations on jobs that are done: cancelling, making texts again, repairing them, and writing
//! the documents anew. Each is a chain of small decisions; the files are written in between.

use vstd::prelude::*;
use super::busy::{ContentBusy, holder};
use super::worker::{Feedback, find_job, place_is_first, place_of, say, say2};
use crate::cancel::CancellationToken;
use crate::content_results::current::{ArtifactSlotV1, ContentSnapshotV1, ContentViewV1};
use crate::content_results::error::{ContentError, content_problem_text};
use crate::content_results::kinds::RegenerableKind;
use crate::document::{DocMeta, full_document, raw_document, render_full_markdown, render_raw_markdown, str_value};
use crate::funasr::Utterance;
use crate::jobs::Job;
use crate::paths::{below, join_path};
use crate::presentation::{doc_meta, meta_of};
use crate::text::{cat3, opt_view, text};

verus! {

// ---- Cancelling a job ----

/// What asking a job to stop does to it.
#[derive(Debug, Clone, Copy, PartialEq, Eq, Structural)]
pub enum CancellationTransition {
    /// The job runs and will stop by itself.
    Cooperative,
    /// The job did not run and is cancelled at once.
    Immediate,
    /// The job is already stopping.
    AlreadyCancelling,
    /// The job cannot be cancelled.
    Unavailable,
}

impl CancellationTransition {
    /// The job has a new state that must be saved.
    pub open spec fn changes(self) -> bool {
        self is Cooperative || self is Immediate
    }

    /// Whether the job has a new state that must be saved.
    pub fn is_change(self) -> (b: bool)
        ensures
            b == self.changes(),
    {
        match self {
            CancellationTransition::Cooperative | CancellationTransition::Immediate => true,
            _ => false,
        }
    }
}

/// A cancellation that is not saved yet: what it was, and the job as it was before.
#[derive(Debug)]
pub struct CancelRun {
    pub transition: CancellationTransition,
    pub place: usize,
    pub original: Job,
}

/// How a cancellation begins.
#[derive(Debug)]
pub enum CancelStart {
    /// Nothing has to be saved.
    Done(Result<CancellationTransition, String>),
    /// The changed job is in the queue; it must be saved.
    Save(CancelRun),
}

/// Puts the cancelled state of a job into the queue, given that state and what it means.
pub fn start_cancellation(
    jobs: &mut Vec<Job>,
    job_id: u128,
    transition: CancellationTransition,
    cancelled: Job,
) -> (r: CancelStart)
    ensures
        match place_of(old(jobs)@, job_id) {
            None => final(jobs)@ == old(jobs)@ && (r matches CancelStart::Done(Err(e)) && e@ == "任务不存在"@),
            Some(i) => if transition.changes() {
                &&& final(jobs)@ == old(jobs)@.update(i, cancelled)
                &&& r matches CancelStart::Save(run)
                &&& run.transition == transition && run.place == i && run.original == old(jobs)@[i]
            } else {
                final(jobs)@ == old(jobs)@ && r == CancelStart::Done(Ok(transition))
            },
        },
{
    match find_job(jobs, job_id) {
        None => CancelStart::Done(Err(text("任务不存在"))),
        Some(i) => {
            if !transition.is_change() {
                return CancelStart::Done(Ok(transition));
            }
            let ghost before = jobs@;
            let mut original = cancelled;
            std::mem::swap(&mut jobs[i], &mut original);
            assert(jobs@ =~= before.update(i as int, cancelled));
            CancelStart::Save(CancelRun { transition, place: i, original })
        },
    }
}

fn put_back(jobs: &mut Vec<Job>, place: usize, original: Job)
    requires
        place < old(jobs)@.len(),
    ensures
        final(jobs)@ == old(jobs)@.update(place as int, original),
{
    jobs[place] = original;
}

/// Goes on after the job was saved. Where that failed, the queue has the job as it was.
pub fn cancelled_job_saved(run: CancelRun, jobs: &mut Vec<Job>, saved: Result<(), String>) -> (r: Result<
    CancelRun,
    String,
>)
    requires
        run.place < old(jobs)@.len(),
    ensures
        match saved {
            Ok(_) => r == Ok::<CancelRun, String>(run) && final(jobs)@ == old(jobs)@,
            Err(e) => r == Err::<CancelRun, String>(e) && final(jobs)@ == old(jobs)@.update(
                run.place as int,
                run.original,
            ),
        },
{
    match saved {
        Ok(_) => Ok(run),
        Err(e) => {
            put_back(jobs, run.place, run.original);
            Err(e)
        },
    }
}

/// Goes on after the queue was saved. Where that failed, the queue has the job as it was, and
/// that state must be saved again.
pub fn cancelled_queue_saved(run: CancelRun, jobs: &mut Vec<Job>, saved: Result<(), String>) -> (r: Result<
    CancellationTransition,
    String,
>)
    requires
        run.place < old(jobs)@.len(),
    ensures
        match saved {
            Ok(_) => r == Ok::<CancellationTransition, String>(run.transition) && final(jobs)@ == old(jobs)@,
            Err(e) => r == Err::<CancellationTransition, String>(e) && final(jobs)@ == old(jobs)@.update(
                run.place as int,
                run.original,
            ),
        },
{
    match saved {
        Ok(_) => Ok(run.transition),
        Err(e) => {
            put_back(jobs, run.place, run.original);
            Err(e)
        },
    }
}

/// The error of a cancellation that could not be saved, after its undoing was saved or not.
pub fn cancellation_undone(error: String, saved_back: Result<(), String>) -> (r: String)
    ensures
        r@ == (match saved_back {
            Ok(_) => error@,
            Err(e) => error@ + "；回滚任务状态失败："@ + e@,
        }),
{
    match saved_back {
        Ok(_) => error,
        Err(e) => cat3(error.as_str(), "；回滚任务状态失败：", e.as_str()),
    }
}

/// A cancellation from its beginning to its end, given how the writes go: of the cancelled job, of
/// the queue, and of the job as it was where the queue could not be saved. The queue holds the
/// cancelled job only where both writes went well, and else is as it was.
pub fn cancel_job(
    jobs: &mut Vec<Job>,
    job_id: u128,
    transition: CancellationTransition,
    cancelled: Job,
    saved_job: Result<(), String>,
    saved_queue: Result<(), String>,
    saved_back: Result<(), String>,
) -> (r: Result<CancellationTransition, String>)
    ensures
        match place_of(old(jobs)@, job_id) {
            None => final(jobs)@ == old(jobs)@ && (r matches Err(e) && e@ == "任务不存在"@),
            Some(i) => if !transition.changes() {
                final(jobs)@ == old(jobs)@ && r == Ok::<CancellationTransition, String>(transition)
            } else {
                match (saved_job, saved_queue) {
                    (Ok(_), Ok(_)) => final(jobs)@ == old(jobs)@.update(i, cancelled) && r == Ok::<
                        CancellationTransition,
                        String,
                    >(transition),
                    (Err(e), _) => final(jobs)@ == old(jobs)@ && r == Err::<CancellationTransition, String>(e),
                    (Ok(_), Err(e)) => final(jobs)@ == old(jobs)@ && (r matches Err(x) && x@ == (match saved_back {
                        Ok(_) => e@,
                        Err(b) => e@ + "；回滚任务状态失败："@ + b@,
                    })),
                }
            },
        },
{
    let ghost before = jobs@;
    match start_cancellation(jobs, job_id, transition, cancelled) {
        CancelStart::Done(r) => r,
        CancelStart::Save(run) => {
            proof {
                place_is_first(before, job_id, 0);
                a_failed_cancellation_changes_nothing(before, run.place as int, cancelled);
            }
            match cancelled_job_saved(run, jobs, saved_job) {
                Err(e) => Err(e),
                Ok(run) => match cancelled_queue_saved(run, jobs, saved_queue) {
                    Ok(t) => Ok(t),
                    Err(e) => Err(cancellation_undone(e, saved_back)),
                },
            }
        },
    }
}

/// A cancellation that could not be saved leaves the queue as it was.
pub proof fn a_failed_cancellation_changes_nothing(jobs: Seq<Job>, i: int, cancelled: Job)
    requires
        0 <= i < jobs.len(),
    ensures
        jobs.update(i, cancelled).update(i, jobs[i]) == jobs,
{
    assert(jobs.update(i, cancelled).update(i, jobs[i]) =~= jobs);
}

/// What is said after a job was asked to stop.
pub fn cancellation_feedback(result: &Result<CancellationTransition, String>) -> (r: Feedback)
    ensures
        r@ == (match *result {
            Ok(CancellationTransition::Cooperative) => ("已发出取消请求"@, false),
            Ok(CancellationTransition::Immediate) => ("已取消"@, false),
            Ok(CancellationTransition::AlreadyCancelling) => ("正在取消"@, false),
            Ok(CancellationTransition::Unavailable) => ("当前任务不可取消"@, true),
            Err(e) => ("取消状态保存失败，请重试："@ + e@, true),
        }),
{
    match result {
        Ok(CancellationTransition::Cooperative) => say("已发出取消请求", false),
        Ok(CancellationTransition::Immediate) => say("已取消", false),
        Ok(CancellationTransition::AlreadyCancelling) => say("正在取消", false),
        Ok(CancellationTransition::Unavailable) => say("当前任务不可取消", true),
        Err(e) => say2("取消状态保存失败，请重试：", e.as_str(), true),
    }
}

// ---- Writing the documents ----

/// Records where the documents of a job are; nothing else of the job changes.
pub fn apply_presentation_locator(job: &mut Job, output_dir: String)
    ensures
        *final(job) == (Job { final_output_dir: Some(output_dir), ..*old(job) }),
{
    job.final_output_dir = Some(output_dir);
}

/// Records where the documents of a job are, where it is still in the queue.
pub fn locate_documents(jobs: &mut Vec<Job>, job_id: u128, output_dir: String) -> (r: Option<usize>)
    ensures
        match place_of(old(jobs)@, job_id) {
            Some(i) => r == Some(i as usize) && final(jobs)@ == old(jobs)@.update(
                i,
                Job { final_output_dir: Some(output_dir), ..old(jobs)@[i] },
            ),
            None => r is None && final(jobs)@ == old(jobs)@,
        },
{
    match find_job(jobs, job_id) {
        Some(i) => {
            let ghost before = jobs@;
            apply_presentation_locator(&mut jobs[i], output_dir);
            assert(jobs@ =~= before.update(i as int, Job { final_output_dir: Some(output_dir), ..before[i as int] }));
            Some(i)
        },
        None => None,
    }
}

/// What is said after an operation whose texts are stored, given what came of finding the
/// output directory and of writing the documents into it.
pub fn presentation_operation(success: Feedback, dir: Result<String, String>, written: Result<(), String>) -> (r: (
    Feedback,
    Option<String>,
))
    ensures
        match dir {
            Err(e) => r.0@ == ("内容已提交，但文档写入失败："@ + e@, true) && r.1 is None,
            Ok(d) => r.1 == Some(d) && r.0@ == (match written {
                Ok(_) => success@,
                Err(e) => (success@.0 + "；文档写入失败，可重新打开重试："@ + e@, true),
            }),
        },
{
    match dir {
        Err(e) => (say2("内容已提交，但文档写入失败：", e.as_str(), true), None),
        Ok(d) => match written {
            Ok(_) => (success, Some(d)),
            Err(e) => (
                Feedback {
                    text: cat3(success.text.as_str(), "；文档写入失败，可重新打开重试：", e.as_str()),
                    error: true,
                },
                Some(d),
            ),
        },
    }
}

// ---- Making a text again ----

/// What is said of a slot whose text was to be made again. A failure is never reported as a
/// success, though it is stored.
pub open spec fn slot_words(slot: ArtifactSlotV1) -> (Seq<char>, bool) {
    match (slot.current, slot.last_failure) {
        (Some(_), None) => ("文字结果已更新"@, false),
        (Some(_), Some(f)) => ("重生成失败："@ + f.message@ + "；已保留上一版结果"@, true),
        (None, Some(f)) => ("重生成失败："@ + f.message@ + "；当前没有可用结果"@, true),
        (None, None) => ("重生成结果状态无效，请重试"@, true),
    }
}

/// What is said of a slot whose text was to be made again.
pub fn regeneration_feedback(slot: &ArtifactSlotV1) -> (r: (String, bool))
    ensures
        (r.0@, r.1) == slot_words(*slot),
{
    match (&slot.current, &slot.last_failure) {
        (Some(_), None) => (text("文字结果已更新"), false),
        (Some(_), Some(f)) => (cat3("重生成失败：", f.message.as_str(), "；已保留上一版结果"), true),
        (None, Some(f)) => (cat3("重生成失败：", f.message.as_str(), "；当前没有可用结果"), true),
        (None, None) => (text("重生成结果状态无效，请重试"), true),
    }
}

/// What is said after a text was made again: as a success where the result is stored and the
/// documents are written next, and as an end where it is not.
pub fn regenerate_outcome(result: &Result<ContentSnapshotV1, ContentError>, kind: RegenerableKind) -> (r: Result<
    Feedback,
    Feedback,
>)
    ensures
        match *result {
            Ok(s) => r matches Ok(f) && f@ == slot_words(s.current.slots.slot(kind.kind())),
            Err(e) => r matches Err(f) && f@ == (if e is Cancelled {
                ("已取消文字结果重生成"@, true)
            } else {
                ("重生成失败："@ + content_problem_text(e@), true)
            }),
        },
{
    match result {
        Ok(s) => {
            let (words, error) = regeneration_feedback(s.current.slots.get(kind.artifact_kind()));
            Ok(Feedback { text: words, error })
        },
        Err(ContentError::Cancelled) => Err(say("已取消文字结果重生成", true)),
        Err(e) => {
            let why = e.describe();
            Err(say2("重生成失败：", why.as_str(), true))
        },
    }
}

/// What is said after the texts of a job were repaired.
pub fn repair_outcome(result: &Result<ContentSnapshotV1, ContentError>) -> (r: Result<Feedback, Feedback>)
    ensures
        match *result {
            Ok(_) => r matches Ok(f) && f@ == ("文字结果已修复"@, false),
            Err(e) => r matches Err(f) && f@ == (if e is Cancelled {
                ("已取消文字结果修复"@, true)
            } else {
                ("修复失败："@ + content_problem_text(e@), true)
            }),
        },
{
    match result {
        Ok(_) => Ok(say("文字结果已修复", false)),
        Err(ContentError::Cancelled) => Err(say("已取消文字结果修复", true)),
        Err(e) => {
            let why = e.describe();
            Err(say2("修复失败：", why.as_str(), true))
        },
    }
}

/// A job that is done and has structured content.
pub open spec fn reworkable(job: Job) -> bool {
    job.content_setup is Some && job.status.terminal()
}

/// Whether a job is done and has structured content.
pub fn is_reworkable(job: &Job) -> (b: bool)
    ensures
        b == reworkable(*job),
{
    job.content_setup.is_some() && job.status.is_terminal()
}

/// The flag and the place of the job that the worker makes a text of again. A message whose reservation
/// is not held is refused; one whose job does not fit gives the reservation back.
pub fn accept_regenerate(busy: &mut ContentBusy, jobs: &Vec<Job>, job_id: u128) -> (r: Result<
    (CancellationToken, usize),
    Feedback,
>)
    ensures
        if holder(old(busy)@) != Some(job_id) {
            final(busy)@ == old(busy)@ && (r matches Err(f) && f@ == ("文字结果正在处理中，请稍候"@, true))
        } else {
            match place_of(jobs@, job_id) {
                None => final(busy)@ is None && (r matches Err(f) && f@ == ("重生成失败：任务不存在"@, true)),
                Some(i) => if reworkable(jobs@[i]) {
                    final(busy)@ == old(busy)@ && (r matches Ok((token, k)) && old(busy)@ == Some((job_id, token))
                        && k == i)
                } else {
                    final(busy)@ is None && (r matches Err(f) && f@ == ("重生成失败：只允许终态 v0.5 任务"@, true))
                },
            }
        },
{
    let token = match busy.start_content_operation(job_id) {
        Some(t) => t,
        None => {
            return Err(say("文字结果正在处理中，请稍候", true));
        },
    };
    match find_job(jobs, job_id) {
        None => {
            busy.clear_content_operation(job_id);
            Err(say("重生成失败：任务不存在", true))
        },
        Some(i) => {
            if is_reworkable(&jobs[i]) {
                Ok((token, i))
            } else {
                busy.clear_content_operation(job_id);
                Err(say("重生成失败：只允许终态 v0.5 任务", true))
            }
        },
    }
}

/// Only the raw transcript of a job can be shown.
pub open spec fn raw_only(view: Result<ContentViewV1, ContentError>) -> bool {
    view is Ok && view->Ok_0 is RawOnly
}

/// Whether only the raw transcript of a job can be shown.
pub fn is_raw_only(view: &Result<ContentViewV1, ContentError>) -> (b: bool)
    ensures
        b == raw_only(*view),
{
    match view {
        Ok(ContentViewV1::RawOnly { .. }) => true,
        _ => false,
    }
}

/// The texts of a job can be shown.
pub open spec fn shown(view: Result<ContentViewV1, ContentError>) -> bool {
    view is Ok && view->Ok_0 is Current
}

/// Whether the texts of a job can be shown.
pub fn is_shown(view: &Result<ContentViewV1, ContentError>) -> (b: bool)
    ensures
        b == shown(*view),
{
    match view {
        Ok(ContentViewV1::Current(_)) => true,
        _ => false,
    }
}

/// The flag and the place of the job whose texts the worker repairs, given what can be shown of
/// it.
pub fn accept_repair(
    busy: &mut ContentBusy,
    jobs: &Vec<Job>,
    job_id: u128,
    view: &Result<ContentViewV1, ContentError>,
) -> (r: Result<(CancellationToken, usize), Feedback>)
    ensures
        if holder(old(busy)@) != Some(job_id) {
            final(busy)@ == old(busy)@ && (r matches Err(f) && f@ == ("文字结果正在处理中，请稍候"@, true))
        } else {
            match place_of(jobs@, job_id) {
                None => final(busy)@ is None && (r matches Err(f) && f@ == ("修复失败：任务不存在"@, true)),
                Some(i) => if reworkable(jobs@[i]) && raw_only(*view) {
                    final(busy)@ == old(busy)@ && (r matches Ok((token, k)) && old(busy)@ == Some((job_id, token))
                        && k == i)
                } else {
                    final(busy)@ is None && (r matches Err(f) && f@ == (
                        "修复失败：当前任务没有可修复的原始 Evidence"@,
                        true,
                    ))
                },
            }
        },
{
    let token = match busy.start_content_operation(job_id) {
        Some(t) => t,
        None => {
            return Err(say("文字结果正在处理中，请稍候", true));
        },
    };
    match find_job(jobs, job_id) {
        None => {
            busy.clear_content_operation(job_id);
            Err(say("修复失败：任务不存在", true))
        },
        Some(i) => {
            if is_reworkable(&jobs[i]) && is_raw_only(view) {
                Ok((token, i))
            } else {
                busy.clear_content_operation(job_id);
                Err(say("修复失败：当前任务没有可修复的原始 Evidence", true))
            }
        },
    }
}

// ---- A new name for a speaker ----

/// What is said of the documents after a speaker got a new name: the name is kept in any case.
pub fn speaker_rebuild_feedback(result: &Result<(), String>) -> (r: (String, bool))
    ensures
        (r.0@, r.1) == (match *result {
            Ok(_) => ("已保存，文档已更新"@, false),
            Err(e) => ("说话人名称已保存，但文档更新失败："@ + e@ + "；再次打开 Markdown 时会重试"@, true),
        }),
{
    match result {
        Ok(_) => (text("已保存，文档已更新"), false),
        Err(e) => (
            cat3("说话人名称已保存，但文档更新失败：", e.as_str(), "；再次打开 Markdown 时会重试"),
            true,
        ),
    }
}

/// How the documents of a job are written anew.
#[derive(Debug, Clone, Copy, PartialEq, Eq, Structural)]
pub enum SpeakerRebuild {
    /// From the stored texts.
    Present,
    /// From the transcript and the readable text that are there.
    Legacy,
}

/// How the documents of a job are written anew, or why they cannot be: never with a new
/// transcription, and never with a model.
pub fn plan_speaker_rebuild(job: &Job, view: &Result<ContentViewV1, ContentError>, raw_exists: bool) -> (r: Result<
    SpeakerRebuild,
    String,
>)
    ensures
        if job.work_dir is None {
            r matches Err(e) && e@ == "任务没有工作目录"@
        } else if job.content_setup is None {
            if raw_exists {
                r == Ok::<SpeakerRebuild, String>(SpeakerRebuild::Legacy)
            } else {
                r matches Err(e) && e@ == "原始转写尚未生成"@
            }
        } else if !job.status.terminal() {
            r matches Err(e) && e@ == "v0.5 任务尚未进入终态"@
        } else {
            match *view {
                Ok(ContentViewV1::Current(_)) => r == Ok::<SpeakerRebuild, String>(SpeakerRebuild::Present),
                Ok(ContentViewV1::RawOnly { .. }) => r matches Err(e) && e@ == "当前没有可重建的可信文字结果"@,
                Ok(ContentViewV1::Legacy) => r matches Err(e) && e@ == "v0.5 Job unexpectedly resolved as legacy"@,
                Err(p) => r matches Err(e) && e@ == content_problem_text(p@),
            }
        },
{
    if job.work_dir.is_none() {
        return Err(text("任务没有工作目录"));
    }
    if job.content_setup.is_none() {
        if raw_exists {
            return Ok(SpeakerRebuild::Legacy);
        }
        return Err(text("原始转写尚未生成"));
    }
    if !job.status.is_terminal() {
        return Err(text("v0.5 任务尚未进入终态"));
    }
    match view {
        Ok(ContentViewV1::Current(_)) => Ok(SpeakerRebuild::Present),
        Ok(ContentViewV1::RawOnly { .. }) => Err(text("当前没有可重建的可信文字结果")),
        Ok(ContentViewV1::Legacy) => Err(text("v0.5 Job unexpectedly resolved as legacy")),
        Err(p) => Err(p.describe()),
    }
}

/// The documents of a job that is older than structured content.
#[derive(Debug)]
pub struct LegacyDocuments {
    pub raw_path: String,
    pub raw: String,
    pub full_path: String,
    pub full: String,
    /// The second place of the whole document.
    pub output_path: Option<String>,
}

/// Writes the documents of such a job from its transcript and its readable text.
pub fn legacy_documents(
    job: &Job,
    utterances: &Vec<Utterance>,
    readable: Option<&str>,
    output_exists: bool,
) -> (r: LegacyDocuments)
    requires
        job.work_dir is Some,
    ensures
        ({
            let dir = (job.work_dir->0)@;
            &&& r.raw_path@ == below(dir, "transcript.raw.md"@)
            &&& r.raw@ == raw_document(*job, utterances@)
            &&& r.full_path@ == below(dir, "full.md"@)
            &&& exists|m: DocMeta| #[trigger]
                meta_of(m, *job) && r.full@ == full_document(
                    *job,
                    m,
                    utterances@,
                    str_value(readable),
                    below(dir, "transcript.raw.md"@),
                )
            &&& opt_view(r.output_path) == (match job.final_output_dir {
                Some(d) if output_exists => Some(below(d@, "full.md"@)),
                _ => None,
            })
        }),
{
    let dir = job.work_dir.as_ref().unwrap();
    let raw_path = join_path(dir.as_str(), "transcript.raw.md");
    let full_path = join_path(dir.as_str(), "full.md");
    let raw = render_raw_markdown(job, utterances);
    let meta = doc_meta(job);
    let full = render_full_markdown(job, &meta, utterances, readable, raw_path.as_str());
    assert(meta_of(meta, *job));
    let output_path = match &job.final_output_dir {
        Some(d) => {
            if output_exists {
                Some(join_path(d.as_str(), "full.md"))
            } else {
                None
            }
        },
        None => None,
    };
    LegacyDocuments { raw_path, raw, full_path, full, output_path }
}

/// Takes the reservation for writing the documents of a job anew, where the job has structured content.
/// Says whether it has; a reservation that is held for something else refuses.
pub fn start_speaker_rebuild(busy: &mut ContentBusy, jobs: &Vec<Job>, job_id: u128) -> (r: Result<bool, Feedback>)
    ensures
        ({
            let structured = match place_of(jobs@, job_id) {
                Some(i) => jobs@[i].content_setup is Some,
                None => false,
            };
            if !structured {
                r == Ok::<bool, Feedback>(false) && final(busy)@ == old(busy)@
            } else if old(busy)@ is None {
                r == Ok::<bool, Feedback>(true) && holder(final(busy)@) == Some(job_id)
            } else {
                final(busy)@ == old(busy)@ && (r matches Err(f) && f@ == (
                    "说话人名称已保存；文字结果正在处理，再次打开 Markdown 时会更新文档"@,
                    true,
                ))
            }
        }),
{
    let structured = match find_job(jobs, job_id) {
        Some(i) => jobs[i].content_setup.is_some(),
        None => false,
    };
    if !structured {
        return Ok(false);
    }
    if busy.reserve_content_operation(job_id) {
        Ok(true)
    } else {
        Err(say("说话人名称已保存；文字结果正在处理，再次打开 Markdown 时会更新文档", true))
    }
}

} // verus!
