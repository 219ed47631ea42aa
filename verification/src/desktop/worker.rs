//! What the worker does with each message: it runs jobs, and it changes or removes those that
//! are done.

use vstd::prelude::*;
use crate::content_results::kinds::RegenerableKind;
use crate::content_results::target::ReadyGenerationTargetV1;
use crate::jobs::{Job, JobStatus, Stage, StageState, pipeline, pipeline_stages, state_in};
use crate::text::{cat2, cat3, cat5, dec, decimal, join, joined, text, views, views_push};

verus! {

// ---- Feedback ----

/// A sentence for the user, and whether it reports an error.
#[derive(Debug, PartialEq, Eq)]
pub struct Feedback {
    pub text: String,
    pub error: bool,
}

impl View for Feedback {
    type V = (Seq<char>, bool);

    open spec fn view(&self) -> (Seq<char>, bool) {
        (self.text@, self.error)
    }
}

/// A sentence for the user.
pub fn say(s: &str, error: bool) -> (r: Feedback)
    ensures
        r@ == (s@, error),
{
    Feedback { text: text(s), error }
}

/// A sentence for the user, made of two parts.
pub fn say2(a: &str, b: &str, error: bool) -> (r: Feedback)
    ensures
        r@ == (a@ + b@, error),
{
    Feedback { text: cat2(a, b), error }
}

/// The sentence of a failed step.
pub open spec fn error_text(r: Result<(), String>) -> Option<Seq<char>> {
    match r {
        Ok(_) => None,
        Err(e) => Some(e@),
    }
}

// ---- The queue ----

/// The place of a job in the queue.
pub open spec fn place_from(jobs: Seq<Job>, id: u128, i: int) -> Option<int>
    decreases jobs.len() - i,
{
    if i < 0 || i >= jobs.len() {
        None
    } else if jobs[i].id == id {
        Some(i)
    } else {
        place_from(jobs, id, i + 1)
    }
}

/// The place of a job in the queue.
pub open spec fn place_of(jobs: Seq<Job>, id: u128) -> Option<int> {
    place_from(jobs, id, 0)
}

/// The place of a job in the queue.
pub fn find_job(jobs: &Vec<Job>, id: u128) -> (r: Option<usize>)
    ensures
        match r {
            Some(i) => i < jobs@.len() && place_of(jobs@, id) == Some(i as int) && jobs@[i as int].id == id,
            None => place_of(jobs@, id) is None,
        },
{
    let mut i: usize = 0;
    while i < jobs.len()
        invariant
            i <= jobs@.len(),
            place_of(jobs@, id) == place_from(jobs@, id, i as int),
        decreases jobs@.len() - i,
    {
        if jobs[i].id == id {
            return Some(i);
        }
        i += 1;
    }
    None
}

/// The jobs among the first `n` that a mark stands at.
pub open spec fn marked(jobs: Seq<Job>, marks: Seq<bool>, n: int) -> Seq<Job>
    decreases n,
{
    if n <= 0 {
        Seq::empty()
    } else if marks[n - 1] {
        marked(jobs, marks, n - 1).push(jobs[n - 1])
    } else {
        marked(jobs, marks, n - 1)
    }
}

fn retain_marked(jobs: &mut Vec<Job>, marks: &Vec<bool>)
    requires
        marks@.len() == old(jobs)@.len(),
    ensures
        final(jobs)@ == marked(old(jobs)@, marks@, marks@.len() as int),
{
    let ghost whole = jobs@;
    let mut i: usize = 0;
    let mut seen: usize = 0;
    assert(whole.skip(0) =~= whole);
    assert(Seq::<Job>::empty() + whole =~= whole);
    while seen < marks.len()
        invariant
            seen <= marks@.len(),
            marks@.len() == whole.len(),
            i <= seen,
            i == marked(whole, marks@, seen as int).len(),
            jobs@ == marked(whole, marks@, seen as int) + whole.skip(seen as int),
        decreases marks@.len() - seen,
    {
        let ghost done = marked(whole, marks@, seen as int);
        let ghost rest = whole.skip(seen as int);
        assert(rest[0] == whole[seen as int]);
        assert(rest.skip(1) =~= whole.skip(seen + 1));
        if marks[seen] {
            assert(done + rest =~= done.push(rest[0]) + rest.skip(1));
            i += 1;
        } else {
            assert((done + rest).remove(i as int) =~= done + rest.skip(1));
            jobs.remove(i);
        }
        seen += 1;
    }
    assert(whole.skip(whole.len() as int) =~= Seq::<Job>::empty());
    assert(jobs@ =~= marked(whole, marks@, marks@.len() as int));
}

/// Some job of the queue is done.
pub open spec fn has_history(jobs: Seq<Job>) -> bool {
    exists|i: int| 0 <= i < jobs.len() && (#[trigger] jobs[i]).status.terminal()
}

/// Whether there is a job that the history could be cleared of.
pub fn can_clear_history(jobs: &Vec<Job>) -> (b: bool)
    ensures
        b == has_history(jobs@),
{
    count_terminal(jobs) > 0
}

/// How many of the first `n` jobs are done.
pub open spec fn terminal_count(jobs: Seq<Job>, n: int) -> nat
    decreases n,
{
    if n <= 0 {
        0
    } else {
        terminal_count(jobs, n - 1) + (if jobs[n - 1].status.terminal() {
            1nat
        } else {
            0nat
        })
    }
}

/// How many jobs are done.
pub fn count_terminal(jobs: &Vec<Job>) -> (r: usize)
    ensures
        r == terminal_count(jobs@, jobs@.len() as int),
        (r > 0) == has_history(jobs@),
{
    let mut n: usize = 0;
    let mut i: usize = 0;
    while i < jobs.len()
        invariant
            i <= jobs@.len(),
            n <= i,
            n == terminal_count(jobs@, i as int),
            (n > 0) == exists|j: int| 0 <= j < i && (#[trigger] jobs@[j]).status.terminal(),
        decreases jobs@.len() - i,
    {
        if jobs[i].status.is_terminal() {
            assert(jobs@[i as int].status.terminal());
            n += 1;
        }
        i += 1;
    }
    n
}

// ---- Selection ----

/// The row that is selected after the queue has changed: the one of the same job where it is
/// still there, and else the one at the same place, or the last.
pub open spec fn selection_after(jobs: Seq<Job>, previous: Option<u128>, fallback: int) -> Option<int> {
    let kept = match previous {
        Some(id) => place_of(jobs, id),
        None => None,
    };
    if kept is Some {
        kept
    } else if jobs.len() == 0 {
        None
    } else if fallback < jobs.len() {
        Some(fallback)
    } else {
        Some(jobs.len() - 1)
    }
}

/// The row that is selected after the queue has changed.
pub fn repair_selection(jobs: &Vec<Job>, previous: Option<u128>, fallback: usize) -> (r: Option<usize>)
    ensures
        match r {
            Some(i) => i < jobs@.len() && selection_after(jobs@, previous, fallback as int) == Some(i as int),
            None => selection_after(jobs@, previous, fallback as int) is None,
        },
{
    if let Some(id) = previous {
        if let Some(i) = find_job(jobs, id) {
            return Some(i);
        }
    }
    if jobs.len() == 0 {
        None
    } else if fallback < jobs.len() {
        Some(fallback)
    } else {
        Some(jobs.len() - 1)
    }
}

/// A job that is still in the queue stays selected; and whenever there is a job, one is
/// selected.
pub proof fn selection_is_kept(jobs: Seq<Job>, previous: Option<u128>, fallback: int)
    requires
        0 <= fallback,
    ensures
        (selection_after(jobs, previous, fallback) is None) == (jobs.len() == 0),
        selection_after(jobs, previous, fallback) matches Some(i) ==> 0 <= i < jobs.len() && (previous is Some
            && place_of(jobs, previous->0) is Some ==> jobs[i].id == previous->0),
{
    if let Some(id) = previous {
        place_is_first(jobs, id, 0);
    }
}

/// A place that was found holds the job; where none was found, there is no such job.
pub proof fn place_is_first(jobs: Seq<Job>, id: u128, i: int)
    requires
        0 <= i,
    ensures
        match place_from(jobs, id, i) {
            Some(k) => i <= k < jobs.len() && jobs[k].id == id && forall|j: int|
                i <= j < k ==> (#[trigger] jobs[j]).id != id,
            None => forall|j: int| i <= j < jobs.len() ==> (#[trigger] jobs[j]).id != id,
        },
    decreases jobs.len() - i,
{
    if i < jobs.len() && jobs[i].id != id {
        place_is_first(jobs, id, i + 1);
    }
}

// ---- Messages ----

/// A message to the worker.
#[derive(Debug)]
pub enum WorkMsg {
    /// Run every job that can run.
    Run,
    /// Run a failed job again, from the step that failed.
    Retry(u128),
    /// Make one text of a finished job again, with the target as it was when the user asked.
    Regenerate { job_id: u128, kind: RegenerableKind, target: ReadyGenerationTargetV1 },
    /// Make the missing or broken texts of a finished job from its transcript.
    RepairContent(u128),
    /// Remove one finished job.
    DeleteJob(u128),
    /// Remove every finished job.
    ClearHistory,
    /// A speaker has a new name: write the documents again.
    SpeakerChanged(u128),
    /// Stop.
    Shutdown,
}

impl WorkMsg {
    /// Whether the worker goes on after the message.
    pub fn goes_on(&self) -> (b: bool)
        ensures
            b == !(self is Shutdown),
    {
        match self {
            WorkMsg::Shutdown => false,
            _ => true,
        }
    }
}

/// What came of the attempt to run the next job.
#[derive(Debug, Clone, Copy, PartialEq, Eq, Structural)]
pub enum DrainOutcome {
    /// No job can run.
    Idle,
    /// A job waits for something outside.
    Waiting,
    /// A job ran to its end.
    Ran { job_id: u128 },
}

/// Whether the worker looks for another job: as long as one ran. The job that ran is shown anew.
pub fn drain_again(outcome: DrainOutcome) -> (r: Option<u128>)
    ensures
        r == (match outcome {
            DrainOutcome::Ran { job_id } => Some(job_id),
            _ => None,
        }),
{
    match outcome {
        DrainOutcome::Ran { job_id } => Some(job_id),
        _ => None,
    }
}

// ---- Running a job again ----

/// The first step from `i` on that has failed.
pub open spec fn failed_from(stages: Seq<(Stage, StageState)>, i: int) -> Option<Stage>
    decreases 6 - i,
{
    if i < 0 || i >= 6 {
        None
    } else if state_in(stages, pipeline()[i]) is Failed {
        Some(pipeline()[i])
    } else {
        failed_from(stages, i + 1)
    }
}

/// The step of a job that has failed.
pub fn failed_stage(job: &Job) -> (r: Option<Stage>)
    ensures
        r == failed_from(job.stages@, 0),
{
    let stages = pipeline_stages();
    let mut i: usize = 0;
    while i < 6
        invariant
            i <= 6,
            stages@ == pipeline(),
            failed_from(job.stages@, 0) == failed_from(job.stages@, i as int),
        decreases 6 - i,
    {
        if job.stage_state(stages[i]) == StageState::Failed {
            return Some(stages[i]);
        }
        i += 1;
    }
    None
}

/// A job that is queued again, from the step that failed; the steps before it stay done.
pub open spec fn requeued(before: Job, after: Job) -> bool {
    &&& after == (Job {
        status: JobStatus::Queued,
        error: None,
        stage: match failed_from(before.stages@, 0) {
            Some(s) => s,
            None => before.stage,
        },
        stages: after.stages,
        ..before
    })
    &&& forall|s: Stage| #[trigger]
        state_in(after.stages@, s) == (if failed_from(before.stages@, 0) == Some(s) {
            StageState::Pending
        } else {
            state_in(before.stages@, s)
        })
}

fn requeue(job: &mut Job)
    ensures
        requeued(*old(job), *final(job)),
{
    job.status = JobStatus::Queued;
    job.error = None;
    if let Some(failed) = failed_stage(job) {
        job.set_stage_state(failed, StageState::Pending);
        job.stage = failed;
    }
}

/// Queues a job again, where its state allows that. The two results of saving are still to come.
pub fn retry_job(jobs: &mut Vec<Job>, job_id: u128, can_retry: bool) -> (r: Result<usize, Feedback>)
    ensures
        match r {
            Ok(i) => can_retry && place_of(old(jobs)@, job_id) == Some(i as int) && final(jobs)@.len()
                == old(jobs)@.len() && requeued(old(jobs)@[i as int], final(jobs)@[i as int]) && (forall|j: int|
                0 <= j < old(jobs)@.len() && j != i ==> final(jobs)@[j] == #[trigger] old(jobs)@[j]),
            Err(f) => final(jobs)@ == old(jobs)@ && (!can_retry || place_of(old(jobs)@, job_id) is None) && f@ == (
                "重试不可用：请使用修复文字结果"@,
                true,
            ),
        },
{
    if !can_retry {
        return Err(say("重试不可用：请使用修复文字结果", true));
    }
    match find_job(jobs, job_id) {
        Some(i) => {
            let ghost before = jobs@;
            requeue(&mut jobs[i]);
            assert(jobs@ =~= before.update(i as int, jobs@[i as int]));
            Ok(i)
        },
        None => Err(say("重试不可用：请使用修复文字结果", true)),
    }
}

/// What is said where the queued job could not be saved: the queue's error, or else the job's.
pub fn retry_saved(saved_job: Result<(), String>, saved_queue: Result<(), String>) -> (r: Option<Feedback>)
    ensures
        match (error_text(saved_job), error_text(saved_queue)) {
            (_, Some(e)) => r matches Some(f) && f@ == ("重试状态保存失败，请重试："@ + e, true),
            (Some(e), None) => r matches Some(f) && f@ == ("重试状态保存失败，请重试："@ + e, true),
            (None, None) => r is None,
        },
{
    match (saved_job, saved_queue) {
        (_, Err(e)) => Some(say2("重试状态保存失败，请重试：", e.as_str(), true)),
        (Err(e), Ok(_)) => Some(say2("重试状态保存失败，请重试：", e.as_str(), true)),
        (Ok(_), Ok(_)) => None,
    }
}

/// What is said after a job was queued again and the next one was tried.
pub fn retry_feedback(outcome: DrainOutcome) -> (r: Feedback)
    ensures
        r@ == (match outcome {
            DrainOutcome::Ran { .. } => ("重试已完成"@, false),
            DrainOutcome::Waiting => ("已重新排队，等待运行条件"@, false),
            DrainOutcome::Idle => ("已重新排队"@, false),
        }),
{
    match outcome {
        DrainOutcome::Ran { .. } => say("重试已完成", false),
        DrainOutcome::Waiting => say("已重新排队，等待运行条件", false),
        DrainOutcome::Idle => say("已重新排队", false),
    }
}

// ---- Removing a job ----

/// The job whose files may be removed, or why they may not.
pub fn plan_delete(jobs: &Vec<Job>, job_id: u128) -> (r: Result<usize, Feedback>)
    ensures
        match place_of(jobs@, job_id) {
            None => r matches Err(f) && f@ == ("删除失败：任务不存在"@, true),
            Some(i) => if jobs@[i].status.terminal() {
                r matches Ok(k) && k == i
            } else {
                r matches Err(f) && f@ == ("删除失败：任务尚未结束，请先取消再删除"@, true)
            },
        },
{
    match find_job(jobs, job_id) {
        None => Err(say("删除失败：任务不存在", true)),
        Some(i) => {
            if jobs[i].status.is_terminal() {
                Ok(i)
            } else {
                Err(say("删除失败：任务尚未结束，请先取消再删除", true))
            }
        },
    }
}

/// The marks of the jobs that do not have an identifier.
pub open spec fn others(jobs: Seq<Job>, id: u128) -> Seq<bool> {
    Seq::new(jobs.len(), |i: int| jobs[i].id != id)
}

/// Removes a job from the queue once its files are gone; while they are not, the queue keeps the
/// job, so that it never loses track of files that are there.
pub fn finish_delete(jobs: &mut Vec<Job>, job_id: u128, removed: Result<(), String>) -> (r: Option<Feedback>)
    ensures
        match removed {
            Ok(_) => r is None && final(jobs)@ == marked(
                old(jobs)@,
                others(old(jobs)@, job_id),
                old(jobs)@.len() as int,
            ),
            Err(e) => final(jobs)@ == old(jobs)@ && (r matches Some(f) && f@ == ("删除失败："@ + e@, true)),
        },
{
    match removed {
        Err(e) => Some(say2("删除失败：", e.as_str(), true)),
        Ok(_) => {
            let mut marks: Vec<bool> = Vec::new();
            let mut i: usize = 0;
            while i < jobs.len()
                invariant
                    i <= jobs@.len(),
                    jobs@ == old(jobs)@,
                    marks@ =~= others(jobs@, job_id).take(i as int),
                decreases jobs@.len() - i,
            {
                marks.push(jobs[i].id != job_id);
                i += 1;
            }
            assert(marks@ =~= others(jobs@, job_id));
            retain_marked(jobs, &marks);
            None
        },
    }
}

/// What is said after a job was removed and the queue saved.
pub fn delete_feedback(saved: Result<(), String>) -> (r: Feedback)
    ensures
        r@ == (match saved {
            Ok(_) => ("已删除任务及其产物"@, false),
            Err(e) => ("任务产物已删除，但队列保存失败："@ + e@, true),
        }),
{
    match saved {
        Ok(_) => say("已删除任务及其产物", false),
        Err(e) => say2("任务产物已删除，但队列保存失败：", e.as_str(), true),
    }
}

/// Removing a job removes that job alone.
pub proof fn a_removed_job_is_gone(jobs: Seq<Job>, id: u128, n: int)
    requires
        0 <= n <= jobs.len(),
    ensures
        ({
            let rest = marked(jobs, others(jobs, id), n);
            &&& forall|k: int| 0 <= k < rest.len() ==> (#[trigger] rest[k]).id != id
            &&& forall|i: int| 0 <= i < n && (#[trigger] jobs[i]).id != id ==> rest.contains(jobs[i])
            &&& forall|k: int| 0 <= k < rest.len() ==> jobs.contains(#[trigger] rest[k])
        }),
    decreases n,
{
    if n > 0 {
        a_removed_job_is_gone(jobs, id, n - 1);
        let before = marked(jobs, others(jobs, id), n - 1);
        let rest = marked(jobs, others(jobs, id), n);
        assert(jobs.contains(jobs[n - 1]));
        assert forall|i: int| 0 <= i < n && (#[trigger] jobs[i]).id != id implies rest.contains(jobs[i]) by {
            if i < n - 1 {
                assert(before.contains(jobs[i]));
                let k = choose|k: int| 0 <= k < before.len() && before[k] == jobs[i];
                assert(rest[k] == jobs[i]);
            } else {
                assert(rest.last() == jobs[i]);
            }
        }
        assert forall|k: int| 0 <= k < rest.len() implies jobs.contains(#[trigger] rest[k]) by {
            if k < before.len() {
                assert(jobs.contains(before[k]));
                assert(rest[k] == before[k]);
            }
        }
    }
}

// ---- Clearing the history ----

/// The places of the first `n` jobs that are done, in their order.
pub open spec fn terminal_places(jobs: Seq<Job>, n: int) -> Seq<int>
    decreases n,
{
    if n <= 0 {
        Seq::empty()
    } else if jobs[n - 1].status.terminal() {
        terminal_places(jobs, n - 1).push(n - 1)
    } else {
        terminal_places(jobs, n - 1)
    }
}

/// The jobs whose files are to be removed.
pub fn plan_clear(jobs: &Vec<Job>) -> (r: Vec<usize>)
    ensures
        r@.len() == terminal_places(jobs@, jobs@.len() as int).len(),
        forall|k: int|
            0 <= k < r@.len() ==> (#[trigger] r@[k]) as int == terminal_places(jobs@, jobs@.len() as int)[k],
{
    let mut out: Vec<usize> = Vec::new();
    let mut i: usize = 0;
    while i < jobs.len()
        invariant
            i <= jobs@.len(),
            out@.len() == terminal_places(jobs@, i as int).len(),
            forall|k: int|
                0 <= k < out@.len() ==> (#[trigger] out@[k]) as int == terminal_places(jobs@, i as int)[k],
        decreases jobs@.len() - i,
    {
        if jobs[i].status.is_terminal() {
            out.push(i);
        }
        i += 1;
    }
    out
}

/// The errors among the first `n` outcomes, in their order.
pub open spec fn errors_in(outcomes: Seq<Result<(), String>>, n: int) -> Seq<Seq<char>>
    decreases n,
{
    if n <= 0 {
        Seq::empty()
    } else {
        match outcomes[n - 1] {
            Ok(_) => errors_in(outcomes, n - 1),
            Err(e) => errors_in(outcomes, n - 1).push(e@),
        }
    }
}

/// The identifiers of the finished jobs, among the first `n`, whose files are still there.
pub open spec fn stuck_ids(jobs: Seq<Job>, places: Seq<int>, outcomes: Seq<Result<(), String>>, n: int) -> Seq<u128>
    decreases n,
{
    if n <= 0 {
        Seq::empty()
    } else if outcomes[n - 1] is Err {
        stuck_ids(jobs, places, outcomes, n - 1).push(jobs[places[n - 1]].id)
    } else {
        stuck_ids(jobs, places, outcomes, n - 1)
    }
}

/// The marks of the jobs that stay: those that are not done, and those whose files could not be
/// removed.
pub open spec fn staying(jobs: Seq<Job>, stuck: Seq<u128>) -> Seq<bool> {
    Seq::new(jobs.len(), |i: int| !jobs[i].status.terminal() || stuck.contains(jobs[i].id))
}

/// The queue after the history was cleared, given what came of removing the files of each
/// finished job. Where nothing could be removed, nothing changes.
pub open spec fn cleared(jobs: Seq<Job>, outcomes: Seq<Result<(), String>>) -> Seq<Job> {
    let places = terminal_places(jobs, jobs.len() as int);
    let n = outcomes.len() as int;
    if errors_in(outcomes, n).len() < outcomes.len() {
        marked(jobs, staying(jobs, stuck_ids(jobs, places, outcomes, n)), jobs.len() as int)
    } else {
        jobs
    }
}

/// What is said after the history was cleared.
pub open spec fn clear_words(outcomes: Seq<Result<(), String>>) -> (Seq<char>, bool) {
    let errors = errors_in(outcomes, outcomes.len() as int);
    let deleted = (outcomes.len() - errors.len()) as nat;
    if deleted > 0 && errors.len() == 0 {
        ("已清空 "@ + dec(deleted) + " 个已结束任务"@, false)
    } else if deleted > 0 {
        (
            "已清空 "@ + dec(deleted) + " 个已结束任务；"@ + dec(errors.len()) + " 个删除失败："@ + joined(errors, "；"@),
            true,
        )
    } else if errors.len() > 0 {
        ("清空失败："@ + joined(errors, "；"@), true)
    } else {
        ("没有可清空的历史任务"@, false)
    }
}

fn has_id(ids: &Vec<u128>, id: u128) -> (b: bool)
    ensures
        b == ids@.contains(id),
{
    let mut i: usize = 0;
    while i < ids.len()
        invariant
            i <= ids@.len(),
            forall|j: int| 0 <= j < i ==> ids@[j] != id,
        decreases ids@.len() - i,
    {
        if ids[i] == id {
            return true;
        }
        i += 1;
    }
    false
}

/// Removes the finished jobs whose files are gone, and says what came of it.
pub fn clear_history(jobs: &mut Vec<Job>, outcomes: &Vec<Result<(), String>>) -> (r: Feedback)
    requires
        outcomes@.len() == terminal_places(old(jobs)@, old(jobs)@.len() as int).len(),
    ensures
        final(jobs)@ == cleared(old(jobs)@, outcomes@),
        r@ == clear_words(outcomes@),
{
    let places = plan_clear(jobs);
    let ghost ps = terminal_places(jobs@, jobs@.len() as int);
    let mut errors: Vec<String> = Vec::new();
    let mut stuck: Vec<u128> = Vec::new();
    let mut i: usize = 0;
    assert(views(errors@) =~= Seq::<Seq<char>>::empty());
    proof {
        places_are_places(jobs@, jobs@.len() as int);
    }
    while i < outcomes.len()
        invariant
            i <= outcomes@.len() == ps.len(),
            jobs@ == old(jobs)@,
            ps == terminal_places(jobs@, jobs@.len() as int),
            places@.len() == ps.len(),
            forall|k: int| 0 <= k < places@.len() ==> (#[trigger] places@[k]) as int == ps[k],
            forall|k: int| 0 <= k < ps.len() ==> 0 <= #[trigger] ps[k] < jobs@.len(),
            views(errors@) == errors_in(outcomes@, i as int),
            errors@.len() <= i,
            stuck@ == stuck_ids(jobs@, ps, outcomes@, i as int),
        decreases outcomes@.len() - i,
    {
        if let Err(e) = &outcomes[i] {
            let e = e.clone();
            proof {
                views_push(errors@, e);
            }
            errors.push(e);
            let p: usize = places[i];
            assert(p as int == ps[i as int]);
            stuck.push(jobs[p].id);
        }
        i += 1;
    }
    let failed: usize = errors.len();
    let deleted: usize = outcomes.len() - failed;
    if deleted > 0 {
        let mut marks: Vec<bool> = Vec::new();
        let mut k: usize = 0;
        while k < jobs.len()
            invariant
                k <= jobs@.len(),
                jobs@ == old(jobs)@,
                marks@ =~= staying(jobs@, stuck@).take(k as int),
            decreases jobs@.len() - k,
        {
            marks.push(!jobs[k].status.is_terminal() || has_id(&stuck, jobs[k].id));
            k += 1;
        }
        assert(marks@ =~= staying(jobs@, stuck@));
        retain_marked(jobs, &marks);
    }
    let list = join(&errors, "；");
    let n = decimal(deleted as u64);
    if deleted > 0 && failed == 0 {
        Feedback { text: cat3("已清空 ", n.as_str(), " 个已结束任务"), error: false }
    } else if deleted > 0 {
        let m = decimal(failed as u64);
        let mut words = cat5("已清空 ", n.as_str(), " 个已结束任务；", m.as_str(), " 个删除失败：");
        words.append(list.as_str());
        Feedback { text: words, error: true }
    } else if failed > 0 {
        say2("清空失败：", list.as_str(), true)
    } else {
        say("没有可清空的历史任务", false)
    }
}

proof fn places_are_places(jobs: Seq<Job>, n: int)
    requires
        0 <= n <= jobs.len(),
    ensures
        forall|k: int|
            0 <= k < terminal_places(jobs, n).len() ==> 0 <= #[trigger] terminal_places(jobs, n)[k] < n
                && jobs[terminal_places(jobs, n)[k]].status.terminal(),
    decreases n,
{
    if n > 0 {
        places_are_places(jobs, n - 1);
    }
}

/// What is said after the cleared queue was saved.
pub fn clear_saved(said: Feedback, saved: Result<(), String>) -> (r: Feedback)
    ensures
        r@ == (match saved {
            Ok(_) => said@,
            Err(e) => ("已删除任务，但队列保存失败："@ + e@, true),
        }),
{
    match saved {
        Ok(_) => said,
        Err(e) => say2("已删除任务，但队列保存失败：", e.as_str(), true),
    }
}

proof fn marked_holds(jobs: Seq<Job>, marks: Seq<bool>, n: int, i: int)
    requires
        0 <= i < n <= jobs.len(),
        marks.len() == jobs.len(),
        marks[i],
    ensures
        marked(jobs, marks, n).contains(jobs[i]),
    decreases n,
{
    if i == n - 1 {
        assert(marked(jobs, marks, n).last() == jobs[i]);
    } else {
        marked_holds(jobs, marks, n - 1, i);
        let before = marked(jobs, marks, n - 1);
        let k = choose|k: int| 0 <= k < before.len() && before[k] == jobs[i];
        assert(marked(jobs, marks, n)[k] == jobs[i]);
    }
}

/// Clearing the history never touches a job that waits or runs.
pub proof fn live_jobs_are_never_cleared(jobs: Seq<Job>, outcomes: Seq<Result<(), String>>, i: int)
    requires
        0 <= i < jobs.len(),
        !jobs[i].status.terminal(),
    ensures
        cleared(jobs, outcomes).contains(jobs[i]),
{
    let places = terminal_places(jobs, jobs.len() as int);
    let n = outcomes.len() as int;
    if errors_in(outcomes, n).len() < outcomes.len() {
        marked_holds(jobs, staying(jobs, stuck_ids(jobs, places, outcomes, n)), jobs.len() as int, i);
    }
}

proof fn stuck_holds(jobs: Seq<Job>, places: Seq<int>, outcomes: Seq<Result<(), String>>, n: int, k: int)
    requires
        0 <= k < n <= outcomes.len(),
        outcomes[k] is Err,
    ensures
        stuck_ids(jobs, places, outcomes, n).contains(jobs[places[k]].id),
    decreases n,
{
    let now = stuck_ids(jobs, places, outcomes, n);
    if k == n - 1 {
        assert(now.last() == jobs[places[k]].id);
    } else {
        stuck_holds(jobs, places, outcomes, n - 1, k);
        let before = stuck_ids(jobs, places, outcomes, n - 1);
        let j = choose|j: int| 0 <= j < before.len() && before[j] == jobs[places[k]].id;
        assert(now[j] == jobs[places[k]].id);
    }
}

/// A job whose files could not be removed stays in the queue.
pub proof fn a_job_with_files_stays(jobs: Seq<Job>, outcomes: Seq<Result<(), String>>, k: int)
    requires
        0 <= k < outcomes.len(),
        outcomes.len() == terminal_places(jobs, jobs.len() as int).len(),
        outcomes[k] is Err,
    ensures
        cleared(jobs, outcomes).contains(jobs[terminal_places(jobs, jobs.len() as int)[k]]),
{
    let places = terminal_places(jobs, jobs.len() as int);
    let n = outcomes.len() as int;
    places_are_places(jobs, jobs.len() as int);
    let p = places[k];
    assert(0 <= p < jobs.len());
    if errors_in(outcomes, n).len() < outcomes.len() {
        stuck_holds(jobs, places, outcomes, n, k);
        marked_holds(jobs, staying(jobs, stuck_ids(jobs, places, outcomes, n)), jobs.len() as int, p);
    }
}

proof fn marked_is_filtered(jobs: Seq<Job>, marks: Seq<bool>, keep: spec_fn(Job) -> bool, n: int)
    requires
        0 <= n <= jobs.len(),
        forall|i: int| 0 <= i < jobs.len() ==> #[trigger] marks[i] == keep(jobs[i]),
    ensures
        marked(jobs, marks, n) == jobs.take(n).filter(keep),
    decreases n,
{
    reveal(Seq::filter);
    if n > 0 {
        marked_is_filtered(jobs, marks, keep, n - 1);
        assert(jobs.take(n).drop_last() =~= jobs.take(n - 1));
        assert(jobs.take(n).last() == jobs[n - 1]);
        assert(marks[n - 1] == keep(jobs[n - 1]));
    } else {
        assert(jobs.take(n).filter(keep) =~= Seq::<Job>::empty());
    }
}

/// Without the job that was removed, the queue has all the others, in their order.
pub proof fn a_removal_keeps_the_others_in_order(jobs: Seq<Job>, id: u128)
    ensures
        marked(jobs, others(jobs, id), jobs.len() as int) == jobs.filter(|j: Job| j.id != id),
{
    marked_is_filtered(jobs, others(jobs, id), |j: Job| j.id != id, jobs.len() as int);
    assert(jobs.take(jobs.len() as int) =~= jobs);
}

proof fn no_failure_leaves_nothing_stuck(
    jobs: Seq<Job>,
    places: Seq<int>,
    outcomes: Seq<Result<(), String>>,
    n: int,
)
    requires
        0 <= n <= outcomes.len(),
        forall|k: int| 0 <= k < outcomes.len() ==> (#[trigger] outcomes[k]) is Ok,
    ensures
        errors_in(outcomes, n).len() == 0,
        stuck_ids(jobs, places, outcomes, n).len() == 0,
    decreases n,
{
    if n > 0 {
        assert(outcomes[n - 1] is Ok);
        no_failure_leaves_nothing_stuck(jobs, places, outcomes, n - 1);
    }
}

/// Where every file could be removed, clearing the history leaves the jobs that are not finished,
/// all of them and in their order.
pub proof fn a_cleared_history_leaves_the_live_jobs(jobs: Seq<Job>, outcomes: Seq<Result<(), String>>)
    requires
        outcomes.len() == terminal_places(jobs, jobs.len() as int).len(),
        forall|k: int| 0 <= k < outcomes.len() ==> (#[trigger] outcomes[k]) is Ok,
    ensures
        cleared(jobs, outcomes) == jobs.filter(
            |j: Job| !(j.status is Completed || j.status is Failed || j.status is Cancelled),
        ),
{
    let live = |j: Job| !(j.status is Completed || j.status is Failed || j.status is Cancelled);
    let places = terminal_places(jobs, jobs.len() as int);
    let n = outcomes.len() as int;
    no_failure_leaves_nothing_stuck(jobs, places, outcomes, n);
    let stuck = stuck_ids(jobs, places, outcomes, n);
    let marks = staying(jobs, stuck);
    marked_is_filtered(jobs, marks, live, jobs.len() as int);
    assert(jobs.take(jobs.len() as int) =~= jobs);
    if n == 0 {
        finished_have_places(jobs, jobs.len() as int);
        nothing_to_leave_out(jobs, live);
    }
}

proof fn finished_have_places(jobs: Seq<Job>, n: int)
    requires
        0 <= n <= jobs.len(),
    ensures
        terminal_places(jobs, n).len() == jobs.take(n).filter(|j: Job| j.status.terminal()).len(),
        forall|k: int| 0 <= k < n && (#[trigger] jobs[k]).status.terminal() ==> terminal_places(jobs, n).contains(k),
    decreases n,
{
    reveal(Seq::filter);
    let p = |j: Job| j.status.terminal();
    if n > 0 {
        finished_have_places(jobs, n - 1);
        assert(jobs.take(n).drop_last() =~= jobs.take(n - 1));
        assert(jobs.take(n).last() == jobs[n - 1]);
        let before = terminal_places(jobs, n - 1);
        let now = terminal_places(jobs, n);
        assert forall|k: int| 0 <= k < n && (#[trigger] jobs[k]).status.terminal() implies now.contains(k) by {
            if k < n - 1 {
                assert(before.contains(k));
                let i = choose|i: int| 0 <= i < before.len() && before[i] == k;
                assert(now[i] == k);
            } else {
                assert(now.last() == k);
            }
        }
    } else {
        assert(jobs.take(n).filter(p) =~= Seq::<Job>::empty());
    }
}

proof fn nothing_to_leave_out(jobs: Seq<Job>, keep: spec_fn(Job) -> bool)
    requires
        forall|i: int| 0 <= i < jobs.len() ==> keep(#[trigger] jobs[i]),
    ensures
        jobs.filter(keep) == jobs,
    decreases jobs.len(),
{
    reveal(Seq::filter);
    if jobs.len() > 0 {
        let r = jobs.drop_last();
        assert forall|i: int| 0 <= i < r.len() implies keep(#[trigger] r[i]) by {
            assert(r[i] == jobs[i]);
        }
        nothing_to_leave_out(r, keep);
        assert(keep(jobs[jobs.len() - 1]));
        assert(jobs =~= r.push(jobs.last()));
    } else {
        assert(jobs.filter(keep) =~= jobs);
    }
}

/// The history is every finished job: each has its place in the list of those to clear, once and
/// in order, and no other job has.
pub proof fn the_history_is_every_finished_job(jobs: Seq<Job>)
    ensures
        ({
            let places = terminal_places(jobs, jobs.len() as int);
            &&& places.len() == jobs.filter(
                |j: Job| j.status is Completed || j.status is Failed || j.status is Cancelled,
            ).len()
            &&& forall|k: int|
                0 <= k < jobs.len() && ((#[trigger] jobs[k]).status is Completed || jobs[k].status is Failed
                    || jobs[k].status is Cancelled) ==> places.contains(k)
            &&& forall|i: int|
                0 <= i < places.len() ==> 0 <= #[trigger] places[i] < jobs.len() && jobs[places[i]].status.terminal()
        }),
        has_history(jobs) <==> terminal_places(jobs, jobs.len() as int).len() > 0,
        terminal_count(jobs, jobs.len() as int) == terminal_places(jobs, jobs.len() as int).len(),
{
    let n = jobs.len() as int;
    finished_have_places(jobs, n);
    places_are_places(jobs, n);
    counts_agree(jobs, n);
    assert(jobs.take(n) =~= jobs);
    let p = |j: Job| j.status.terminal();
    let q = |j: Job| j.status is Completed || j.status is Failed || j.status is Cancelled;
    assert(p =~= q);
    let places = terminal_places(jobs, n);
    if places.len() > 0 {
        assert(jobs[places[0]].status.terminal());
    }
}

proof fn counts_agree(jobs: Seq<Job>, n: int)
    requires
        0 <= n <= jobs.len(),
    ensures
        terminal_count(jobs, n) == terminal_places(jobs, n).len(),
    decreases n,
{
    if n > 0 {
        counts_agree(jobs, n - 1);
    }
}

/// Every failure is told, in order, and nothing else is.
pub proof fn every_failure_is_told(outcomes: Seq<Result<(), String>>, n: int)
    requires
        0 <= n <= outcomes.len(),
    ensures
        errors_in(outcomes, n) == outcomes.take(n).filter(|o: Result<(), String>| o is Err).map_values(
            |o: Result<(), String>| o->Err_0@,
        ),
    decreases n,
{
    reveal(Seq::filter);
    let p = |o: Result<(), String>| o is Err;
    let f = |o: Result<(), String>| o->Err_0@;
    if n > 0 {
        every_failure_is_told(outcomes, n - 1);
        assert(outcomes.take(n).drop_last() =~= outcomes.take(n - 1));
        assert(outcomes.take(n).last() == outcomes[n - 1]);
        let kept = outcomes.take(n - 1).filter(p);
        if p(outcomes[n - 1]) {
            assert(kept.push(outcomes[n - 1]).map_values(f) =~= kept.map_values(f).push(f(outcomes[n - 1])));
        }
    } else {
        assert(outcomes.take(n).filter(p).map_values(f) =~= Seq::<Seq<char>>::empty());
    }
}

/// A job goes on from the first stage that failed, in the order of the pipeline; that stage
/// begins anew, and what was done stays done.
pub proof fn a_retry_begins_at_the_first_failure(before: Job, after: Job)
    requires
        requeued(before, after),
    ensures
        after.status is Queued,
        after.error is None,
        after.id == before.id && after.bvid == before.bvid && after.page == before.page,
        after.work_dir == before.work_dir && after.content_setup == before.content_setup,
        match failed_from(before.stages@, 0) {
            Some(s) => {
                &&& after.stage == s
                &&& state_in(before.stages@, s) is Failed
                &&& state_in(after.stages@, s) is Pending
                &&& exists|k: int|
                    0 <= k < 6 && #[trigger] pipeline()[k] == s && forall|j: int|
                        0 <= j < k ==> !(state_in(before.stages@, #[trigger] pipeline()[j]) is Failed)
            },
            None => after.stage == before.stage && forall|j: int|
                0 <= j < 6 ==> !(state_in(before.stages@, #[trigger] pipeline()[j]) is Failed),
        },
        forall|s: Stage|
            state_in(before.stages@, s) is Completed ==> #[trigger] state_in(after.stages@, s) is Completed,
{
    failure_is_first(before.stages@, 0);
}

proof fn first_failure(stages: Seq<(Stage, StageState)>, p: Seq<Stage>, i: int) -> (k: int)
    requires
        0 <= i <= 6,
        p == pipeline(),
    ensures
        i <= k <= 6,
        forall|j: int| i <= j < k ==> !(state_in(stages, #[trigger] p[j]) is Failed),
        k < 6 ==> failed_from(stages, i) == Some(p[k]) && state_in(stages, p[k]) is Failed,
        k == 6 ==> failed_from(stages, i) is None,
    decreases 6 - i,
{
    if i >= 6 || state_in(stages, p[i]) is Failed {
        i
    } else {
        let k = first_failure(stages, p, i + 1);
        assert forall|j: int| i <= j < k implies !(state_in(stages, #[trigger] p[j]) is Failed) by {
            assert(j == i || i + 1 <= j);
        }
        k
    }
}

proof fn failure_is_first(stages: Seq<(Stage, StageState)>, i: int)
    requires
        0 <= i <= 6,
    ensures
        match failed_from(stages, i) {
            Some(s) => state_in(stages, s) is Failed && exists|k: int|
                i <= k < 6 && #[trigger] pipeline()[k] == s && forall|j: int|
                    i <= j < k ==> !(state_in(stages, #[trigger] pipeline()[j]) is Failed),
            None => forall|j: int| i <= j < 6 ==> !(state_in(stages, #[trigger] pipeline()[j]) is Failed),
        },
{
    let p = pipeline();
    let k = first_failure(stages, p, i);
    if k < 6 {
        assert(pipeline()[k] == p[k]);
    }
}

/// Clearing the history ends in an error if and only if something could not be removed.
pub proof fn a_clearing_says_what_failed(outcomes: Seq<Result<(), String>>)
    ensures
        clear_words(outcomes).1 <==> exists|i: int| 0 <= i < outcomes.len() && (#[trigger] outcomes[i]) is Err,
{
    errors_are_those_that_failed(outcomes, outcomes.len() as int);
}

proof fn errors_are_those_that_failed(outcomes: Seq<Result<(), String>>, n: int)
    requires
        0 <= n <= outcomes.len(),
    ensures
        errors_in(outcomes, n).len() <= n,
        errors_in(outcomes, n).len() > 0 <==> exists|i: int| 0 <= i < n && (#[trigger] outcomes[i]) is Err,
    decreases n,
{
    if n > 0 {
        errors_are_those_that_failed(outcomes, n - 1);
    }
}

} // verus!
