//! Buttons that change a job, and the messages that they send to the worker.

use vstd::prelude::*;
use super::controller::{ActionBar, BarView, begun, chosen, ended, find_chosen, told};
use super::busy::{ContentBusy, holder};
use super::detail::{
    JobDetailData, JobRow, JobViewSnapshot, MachineFacts, SpeakerEntry, empty_detail, job_to_row, refresh_detail,
    refreshed, row_shows, shows_nothing,
};
use super::operations::{is_raw_only, is_reworkable, is_shown, raw_only, reworkable, shown};
use super::rows::{ContentResultsData, content_results_for_job, empty_content_results, no_results, results_of};
use super::worker::{
    WorkMsg, count_terminal, find_job, place_of, repair_selection, say, selection_after, terminal_count,
};
use crate::bilibili::{video_address, video_url};
use crate::content_results::current::ContentViewV1;
use crate::content_results::error::ContentError;
use crate::content_results::kinds::{ArtifactKindV1, RegenerableKind};
use crate::content_results::record::UtcTime;
use crate::content_results::target::{ReadyGenerationTargetV1, TargetUnavailableV1};
use crate::ids::{hyphenated, id_text};
use crate::jobs::Job;
use crate::text::{cat2, cat3, dec, decimal, same, text};

verus! {

broadcast use vstd::std_specs::hash::group_hash_axioms;

// ---- The names of speakers ----

/// What is said below the names of the speakers.
#[derive(Debug)]
pub struct SpeakerBar {
    pub feedback: String,
    pub error: bool,
}

impl View for SpeakerBar {
    type V = (Seq<char>, bool);

    open spec fn view(&self) -> (Seq<char>, bool) {
        (self.feedback@, self.error)
    }
}

impl SpeakerBar {
    /// Says something.
    pub fn tell(&mut self, words: &str, error: bool)
        ensures
            final(self)@ == (words@, error),
    {
        self.feedback = text(words);
        self.error = error;
    }
}

/// Why the texts of the selected job keep its speakers from getting a new name.
pub open spec fn edit_refusal(
    busy: Option<u128>,
    jobs: Seq<Job>,
    selected: Option<u128>,
    view: Result<ContentViewV1, ContentError>,
) -> Option<Seq<char>> {
    match chosen(jobs, selected) {
        Some(i) if jobs[i].content_setup is Some => if !shown(view) {
            Some("请先修复文字结果，再编辑说话人"@)
        } else if busy == selected {
            Some("文字结果正在处理中，请稍候"@)
        } else {
            None
        },
        _ => None,
    }
}

/// Why a speaker of the selected job cannot get a new name.
pub open spec fn name_refusal(
    busy: Option<u128>,
    jobs: Seq<Job>,
    selected: Option<u128>,
    view: Result<ContentViewV1, ContentError>,
) -> Option<Seq<char>> {
    if selected is None {
        Some("保存失败：未选择任务"@)
    } else if chosen(jobs, selected) is None {
        Some("保存失败：任务不存在"@)
    } else {
        edit_refusal(busy, jobs, selected, view)
    }
}

/// The first row of a speaker.
pub open spec fn first_row(rows: Seq<SpeakerEntry>, speaker: u32, i: int) -> bool {
    &&& 0 <= i < rows.len()
    &&& rows[i].speaker_id == speaker
    &&& forall|j: int| 0 <= j < i ==> (#[trigger] rows[j]).speaker_id != speaker
}

/// The rows after the first one of a speaker got a new name; nothing else changed.
pub open spec fn row_renamed(
    before: Seq<SpeakerEntry>,
    after: Seq<SpeakerEntry>,
    speaker: u32,
    name: Seq<char>,
) -> bool {
    &&& after.len() == before.len()
    &&& forall|i: int|
        0 <= i < before.len() ==> (if first_row(before, speaker, i) {
            after[i].name@ == name && after[i] == (SpeakerEntry {
                name: after[i].name,
                ..(#[trigger] before[i])
            })
        } else {
            after[i] == before[i]
        })
}

fn rename_row(row: &mut SpeakerEntry, name: String)
    ensures
        *final(row) == (SpeakerEntry { name, ..*old(row) }),
{
    row.name = name;
}

/// Gives the first row of a speaker a new name.
pub fn rename_speaker_row(rows: &mut Vec<SpeakerEntry>, speaker: u32, name: &str)
    ensures
        row_renamed(old(rows)@, final(rows)@, speaker, name@),
{
    let ghost before = rows@;
    let mut i: usize = 0;
    while i < rows.len()
        invariant
            i <= rows@.len(),
            before == old(rows)@,
            rows@ == before,
            forall|j: int| 0 <= j < i ==> (#[trigger] before[j]).speaker_id != speaker,
        decreases rows@.len() - i,
    {
        if rows[i].speaker_id == speaker {
            let new_name = text(name);
            rename_row(&mut rows[i], new_name);
            assert(rows@ =~= before.update(i as int, SpeakerEntry { name: new_name, ..before[i as int] }));
            proof {
                let place = i as int;
                assert(before[place].speaker_id == speaker);
                assert forall|j: int| 0 <= j < before.len() && j != place implies !first_row(before, speaker, j) by {
                    assert(before[j].speaker_id != speaker || j > place);
                }
                assert(first_row(before, speaker, place));
            }
            return;
        }
        i += 1;
    }
}

/// Gives a speaker of the selected job a new name, in the list of the pane and in the job. What
/// is said next depends on saving.
pub fn set_speaker_name(
    bar: &mut SpeakerBar,
    rows: &mut Vec<SpeakerEntry>,
    busy: &ContentBusy,
    jobs: &mut Vec<Job>,
    selected: Option<u128>,
    view: &Result<ContentViewV1, ContentError>,
    speaker: u32,
    name: String,
) -> (r: Option<usize>)
    ensures
        match edit_refusal(holder(busy@), old(jobs)@, selected, *view) {
            Some(_) => final(rows)@ == old(rows)@,
            None => row_renamed(old(rows)@, final(rows)@, speaker, name@),
        },
        match name_refusal(holder(busy@), old(jobs)@, selected, *view) {
            Some(words) => r is None && final(jobs)@ == old(jobs)@ && final(bar)@ == (words, true),
            None => ({
                let i = chosen(old(jobs)@, selected)->0;
                &&& r == Some(i as usize)
                &&& final(bar)@ == ("保存中…"@, false)
                &&& final(jobs)@.len() == old(jobs)@.len()
                &&& final(jobs)@[i].speaker_map@ == old(jobs)@[i].speaker_map@.insert(speaker, name)
                &&& final(jobs)@[i] == (Job { speaker_map: final(jobs)@[i].speaker_map, ..old(jobs)@[i] })
                &&& forall|j: int|
                    0 <= j < old(jobs)@.len() && j != i ==> final(jobs)@[j] == #[trigger] old(jobs)@[j]
            }),
        },
{
    bar.tell("保存中…", false);
    let place = find_chosen(jobs, selected);
    if let Some(i) = place {
        if jobs[i].content_setup.is_some() {
            if !is_shown(view) {
                bar.tell("请先修复文字结果，再编辑说话人", true);
                return None;
            }
            if busy.holder() == selected {
                bar.tell("文字结果正在处理中，请稍候", true);
                return None;
            }
        }
    }
    rename_speaker_row(rows, speaker, name.as_str());
    if selected.is_none() {
        bar.tell("保存失败：未选择任务", true);
        return None;
    }
    let i: usize = match place {
        Some(i) => i,
        None => {
            bar.tell("保存失败：任务不存在", true);
            return None;
        },
    };
    let ghost before = jobs@;
    rename(&mut jobs[i], speaker, name);
    assert(jobs@ =~= before.update(i as int, jobs@[i as int]));
    Some(i)
}

fn rename(job: &mut Job, speaker: u32, name: String)
    ensures
        final(job).speaker_map@ == old(job).speaker_map@.insert(speaker, name),
        *final(job) == (Job { speaker_map: final(job).speaker_map, ..*old(job) }),
{
    job.speaker_map.insert(speaker, name);
}

/// Says what came of saving the new name, and whether the documents are to be written anew.
pub fn speaker_name_saved(bar: &mut SpeakerBar, saved_job: Result<(), String>, saved_queue: Result<(), String>) -> (r:
    bool)
    ensures
        match (saved_job, saved_queue) {
            (Err(e), _) => !r && final(bar)@ == ("保存失败："@ + ("保存说话人失败："@ + e@), true),
            (Ok(_), Err(e)) => !r && final(bar)@ == ("保存失败："@ + ("保存队列失败："@ + e@), true),
            (Ok(_), Ok(_)) => r && final(bar)@ == ("已保存"@, false),
        },
{
    match (saved_job, saved_queue) {
        (Err(e), _) => {
            let why = cat2("保存说话人失败：", e.as_str());
            let words = cat2("保存失败：", why.as_str());
            bar.tell(words.as_str(), true);
            false
        },
        (Ok(_), Err(e)) => {
            let why = cat2("保存队列失败：", e.as_str());
            let words = cat2("保存失败：", why.as_str());
            bar.tell(words.as_str(), true);
            false
        },
        (Ok(_), Ok(_)) => {
            bar.tell("已保存", false);
            true
        },
    }
}

// ---- Cancelling ----

/// What the cancel button does.
#[derive(Debug, Clone, Copy, PartialEq, Eq, Structural)]
pub enum CancelPlan {
    Nothing,
    /// The job is asked to stop.
    Job(u128),
}

/// What the cancel button does: while something is being done, it cancels the operation that
/// holds the reservation, and else the selected job, with any operation on it.
pub fn cancel_selected(bar: &mut ActionBar, busy: &ContentBusy, selected: Option<u128>) -> (r: CancelPlan)
    ensures
        match selected {
            None => r is Nothing && final(bar)@ == old(bar)@,
            Some(id) => if old(bar).pending {
                r is Nothing && final(bar)@ == (if busy@ is Some {
                    told(old(bar)@, "正在取消文字结果操作…"@, false)
                } else {
                    old(bar)@
                })
            } else {
                r == CancelPlan::Job(id) && final(bar)@ == begun(""@, "正在取消任务…"@)
            },
        },
{
    let id: u128 = match selected {
        Some(id) => id,
        None => {
            return CancelPlan::Nothing;
        },
    };
    if bar.pending {
        if let Some(active) = busy.holder() {
            if busy.cancel_content_operation(active) {
                bar.tell("正在取消文字结果操作…", false);
            }
        }
        return CancelPlan::Nothing;
    }
    bar.begin("", "正在取消任务…");
    let _cancelled = busy.cancel_content_operation(id);
    CancelPlan::Job(id)
}

// ---- Rebuilding and retrying ----

/// The address that a job is created anew from: what the user entered, or else the address of
/// the video.
pub open spec fn origin_of(job: Job) -> Seq<char> {
    match job.source_url {
        Some(u) => u@,
        None => video_address(job.bvid@, job.page, None),
    }
}

/// The address that the selected job is created anew from, where its state allows that.
pub fn rebuild_selected(bar: &mut ActionBar, jobs: &Vec<Job>, selected: Option<u128>, can_rebuild: bool) -> (r: Option<
    String,
>)
    ensures
        match chosen(jobs@, selected) {
            None => r is None && final(bar)@ == old(bar)@,
            Some(i) => if can_rebuild {
                (r matches Some(u) && u@ == origin_of(jobs@[i])) && final(bar)@ == told(
                    old(bar)@,
                    "请确认新 Runtime 与语言设置；原任务保持不变"@,
                    false,
                )
            } else {
                r is None && final(bar)@ == told(old(bar)@, "当前任务不需要重建"@, true)
            },
        },
{
    let i: usize = match find_chosen(jobs, selected) {
        Some(i) => i,
        None => {
            return None;
        },
    };
    if !can_rebuild {
        bar.tell("当前任务不需要重建", true);
        return None;
    }
    bar.tell("请确认新 Runtime 与语言设置；原任务保持不变", false);
    let job = &jobs[i];
    match &job.source_url {
        Some(u) => Some(u.clone()),
        None => Some(video_url(job.bvid.as_str(), job.page, None)),
    }
}

/// The message that the retry button sends.
pub fn retry_selected(bar: &mut ActionBar, jobs: &Vec<Job>, selected: Option<u128>, can_retry: bool) -> (r: Option<
    WorkMsg,
>)
    ensures
        match selected {
            None => r is None && final(bar)@ == old(bar)@,
            Some(id) => if !can_retry || place_of(jobs@, id) is None {
                r is None && final(bar)@ == told(old(bar)@, "当前任务不可重试；RawOnly 请使用修复文字结果"@, true)
            } else if old(bar).pending {
                r is None && final(bar)@ == old(bar)@
            } else {
                r == Some(WorkMsg::Retry(id)) && final(bar)@ == begun(""@, "正在重新排队…"@)
            },
        },
{
    let id: u128 = match selected {
        Some(id) => id,
        None => {
            return None;
        },
    };
    if !can_retry || find_job(jobs, id).is_none() {
        bar.tell("当前任务不可重试；RawOnly 请使用修复文字结果", true);
        return None;
    }
    if bar.pending {
        return None;
    }
    bar.begin("", "正在重新排队…");
    Some(WorkMsg::Retry(id))
}

/// Shows that the worker is gone, where a retry could not be sent, or could not be followed by
/// the call to run.
pub fn retry_sent(bar: &mut ActionBar, sent: bool, woken: bool)
    ensures
        final(bar)@ == (if !sent {
            ended(old(bar)@, "重试失败：后台任务已退出"@, true)
        } else if !woken {
            ended(old(bar)@, "重试失败：无法唤醒后台任务"@, true)
        } else {
            old(bar)@
        }),
{
    if !sent {
        bar.end(say("重试失败：后台任务已退出", true));
    } else if !woken {
        bar.end(say("重试失败：无法唤醒后台任务", true));
    }
}

// ---- Making texts again ----

/// The name of the button that makes a text again.
pub open spec fn button_of(kind: RegenerableKind) -> Seq<char> {
    match kind {
        RegenerableKind::DefaultSummary => "summary"@,
        RegenerableKind::Highlights => "highlights"@,
        RegenerableKind::Chapters => "chapters"@,
        RegenerableKind::ShortSummary => "summary-short"@,
        RegenerableKind::LongSummary => "summary-long"@,
    }
}

fn button_name(kind: RegenerableKind) -> (r: &'static str)
    ensures
        r@ == button_of(kind),
{
    match kind {
        RegenerableKind::DefaultSummary => "summary",
        RegenerableKind::Highlights => "highlights",
        RegenerableKind::Chapters => "chapters",
        RegenerableKind::ShortSummary => "summary-short",
        RegenerableKind::LongSummary => "summary-long",
    }
}

/// A button asks for the text that it is shown at.
pub proof fn buttons_read_back(kind: RegenerableKind)
    ensures
        RegenerableKind::of_action(button_of(kind)) == Some(kind),
{
    reveal_strlit("summary");
    reveal_strlit("summary-short");
    reveal_strlit("summary-long");
    reveal_strlit("highlights");
    reveal_strlit("chapters");
    assert("summary"@.len() == 7 && "summary-short"@.len() == 13 && "summary-long"@.len() == 12
        && "highlights"@.len() == 10 && "chapters"@.len() == 8);
}

/// The text that a button of the result asks for. The window has buttons for three of them.
pub open spec fn kind_of_action(action: Seq<char>) -> Option<RegenerableKind> {
    if action == "summary"@ {
        Some(RegenerableKind::DefaultSummary)
    } else if action == "highlights"@ {
        Some(RegenerableKind::Highlights)
    } else if action == "chapters"@ {
        Some(RegenerableKind::Chapters)
    } else {
        None
    }
}

/// The text that a button of the result asks for.
pub fn regenerable_kind_from_action(action: &str) -> (r: Option<RegenerableKind>)
    ensures
        r == kind_of_action(action@),
{
    if same(action, "summary") {
        Some(RegenerableKind::DefaultSummary)
    } else if same(action, "highlights") {
        Some(RegenerableKind::Highlights)
    } else if same(action, "chapters") {
        Some(RegenerableKind::Chapters)
    } else {
        None
    }
}

/// Why a text of the selected job is not made again, where the reservation is not held for it.
pub open spec fn regenerate_words(
    busy: Option<u128>,
    job: Job,
    view: Result<ContentViewV1, ContentError>,
    target: Result<ReadyGenerationTargetV1, TargetUnavailableV1>,
) -> Option<Seq<char>> {
    if !reworkable(job) {
        Some("当前任务尚未进入可重生成的终态"@)
    } else if !shown(view) {
        Some("当前没有可信文字结果，请先修复文字结果"@)
    } else {
        match target {
            Err(reason) => Some("检查 AI 设置："@ + reason.message@),
            Ok(_) => if busy is Some {
                Some("文字结果正在处理中，请稍候"@)
            } else {
                None
            },
        }
    }
}

/// The message that makes a text of the selected job again, with the target of this moment. The
/// reservation is taken before the message is sent, so that a second click sends none.
pub fn regenerate_selected(
    bar: &mut ActionBar,
    busy: &mut ContentBusy,
    jobs: &Vec<Job>,
    selected: Option<u128>,
    view: &Result<ContentViewV1, ContentError>,
    target: Result<ReadyGenerationTargetV1, TargetUnavailableV1>,
    kind: RegenerableKind,
) -> (r: Option<WorkMsg>)
    ensures
        if old(bar).pending || selected is None {
            r is None && final(busy)@ == old(busy)@ && final(bar)@ == old(bar)@
        } else if holder(old(busy)@) == selected {
            r is None && final(busy)@ == old(busy)@ && final(bar)@ == told(
                old(bar)@,
                "文字结果正在处理中，请稍候"@,
                true,
            )
        } else if chosen(jobs@, selected) is None {
            r is None && final(busy)@ == old(busy)@ && final(bar)@ == old(bar)@
        } else {
            let job = jobs@[chosen(jobs@, selected)->0];
            match regenerate_words(holder(old(busy)@), job, *view, target) {
                Some(words) => r is None && final(busy)@ == old(busy)@ && final(bar)@ == told(old(bar)@, words, true),
                None => {
                    &&& r == Some(WorkMsg::Regenerate { job_id: job.id, kind, target: target->Ok_0 })
                    &&& holder(final(busy)@) == Some(job.id)
                    &&& final(bar)@ == begun(button_of(kind), "正在重新生成文字结果…"@)
                },
            }
        },
{
    if bar.pending {
        return None;
    }
    let id: u128 = match selected {
        Some(id) => id,
        None => {
            return None;
        },
    };
    if busy.holder() == Some(id) {
        bar.tell("文字结果正在处理中，请稍候", true);
        return None;
    }
    let i: usize = match find_job(jobs, id) {
        Some(i) => i,
        None => {
            return None;
        },
    };
    if !is_reworkable(&jobs[i]) {
        bar.tell("当前任务尚未进入可重生成的终态", true);
        return None;
    }
    if !is_shown(view) {
        bar.tell("当前没有可信文字结果，请先修复文字结果", true);
        return None;
    }
    match target {
        Err(reason) => {
            bar.tell2("检查 AI 设置：", reason.message.as_str(), true);
            None
        },
        Ok(target) => {
            if !busy.reserve_content_operation(id) {
                bar.tell("文字结果正在处理中，请稍候", true);
                return None;
            }
            bar.begin(button_name(kind), "正在重新生成文字结果…");
            Some(WorkMsg::Regenerate { job_id: id, kind, target })
        },
    }
}

/// Why the texts of the selected job are not repaired, where the reservation is not held for it.
pub open spec fn repair_words(busy: Option<u128>, job: Job, view: Result<ContentViewV1, ContentError>) -> Option<
    Seq<char>,
> {
    if !reworkable(job) {
        Some("当前任务没有可修复的 v0.5 文字结果"@)
    } else if !raw_only(view) {
        Some("当前文字结果不需要修复"@)
    } else if busy is Some {
        Some("文字结果正在处理中，请稍候"@)
    } else {
        None
    }
}

/// The message that repairs the texts of the selected job.
pub fn repair_selected_content(
    bar: &mut ActionBar,
    busy: &mut ContentBusy,
    jobs: &Vec<Job>,
    selected: Option<u128>,
    view: &Result<ContentViewV1, ContentError>,
) -> (r: Option<WorkMsg>)
    ensures
        if old(bar).pending || selected is None {
            r is None && final(busy)@ == old(busy)@ && final(bar)@ == old(bar)@
        } else if holder(old(busy)@) == selected {
            r is None && final(busy)@ == old(busy)@ && final(bar)@ == told(
                old(bar)@,
                "文字结果正在处理中，请稍候"@,
                true,
            )
        } else if chosen(jobs@, selected) is None {
            r is None && final(busy)@ == old(busy)@ && final(bar)@ == old(bar)@
        } else {
            let job = jobs@[chosen(jobs@, selected)->0];
            match repair_words(holder(old(busy)@), job, *view) {
                Some(words) => r is None && final(busy)@ == old(busy)@ && final(bar)@ == told(old(bar)@, words, true),
                None => {
                    &&& r == Some(WorkMsg::RepairContent(job.id))
                    &&& holder(final(busy)@) == Some(job.id)
                    &&& final(bar)@ == begun(""@, "正在修复文字结果…"@)
                },
            }
        },
{
    if bar.pending {
        return None;
    }
    let id: u128 = match selected {
        Some(id) => id,
        None => {
            return None;
        },
    };
    if busy.holder() == Some(id) {
        bar.tell("文字结果正在处理中，请稍候", true);
        return None;
    }
    let i: usize = match find_job(jobs, id) {
        Some(i) => i,
        None => {
            return None;
        },
    };
    if !is_reworkable(&jobs[i]) {
        bar.tell("当前任务没有可修复的 v0.5 文字结果", true);
        return None;
    }
    if !is_raw_only(view) {
        bar.tell("当前文字结果不需要修复", true);
        return None;
    }
    if !busy.reserve_content_operation(id) {
        bar.tell("文字结果正在处理中，请稍候", true);
        return None;
    }
    bar.begin("", "正在修复文字结果…");
    Some(WorkMsg::RepairContent(id))
}

/// Gives the reservation back where the worker is gone.
pub fn content_message_lost(bar: &mut ActionBar, busy: &mut ContentBusy, job_id: u128, repair: bool)
    ensures
        final(busy)@ == (if holder(old(busy)@) == Some(job_id) {
            None
        } else {
            old(busy)@
        }),
        final(bar)@ == ended(
            old(bar)@,
            if repair {
                "修复失败：后台任务已退出"@
            } else {
                "重生成失败：后台任务已退出"@
            },
            true,
        ),
{
    busy.clear_content_operation(job_id);
    if repair {
        bar.end(say("修复失败：后台任务已退出", true));
    } else {
        bar.end(say("重生成失败：后台任务已退出", true));
    }
}

// ---- Removing jobs ----

/// What the dialog asks about.
#[derive(Debug, Clone, Copy, PartialEq, Eq, Structural)]
pub enum HistoryConfirmation {
    DeleteJob(u128),
    ClearHistory,
}

/// The dialog that asks before jobs are removed.
#[derive(Debug)]
pub struct HistoryDialog {
    pub asked: Option<HistoryConfirmation>,
    pub title: String,
    pub message: String,
    pub confirm_label: String,
    pub visible: bool,
}

/// The dialog that asks before jobs are removed.
#[verifier::ext_equal]
pub struct DialogView {
    pub asked: Option<HistoryConfirmation>,
    pub title: Seq<char>,
    pub message: Seq<char>,
    pub confirm_label: Seq<char>,
    pub visible: bool,
}

impl View for HistoryDialog {
    type V = DialogView;

    open spec fn view(&self) -> DialogView {
        DialogView {
            asked: self.asked,
            title: self.title@,
            message: self.message@,
            confirm_label: self.confirm_label@,
            visible: self.visible,
        }
    }
}

/// The dialog about one job.
pub open spec fn delete_dialog(asked: Option<HistoryConfirmation>, title: Seq<char>) -> DialogView {
    DialogView {
        asked,
        title: "删除任务"@,
        message: "将删除“"@ + title + "”的任务记录与全部产物文件（含输出目录中的 full.md）。此操作不可撤销。"@,
        confirm_label: "删除"@,
        visible: true,
    }
}

/// The dialog about the history.
pub open spec fn clear_dialog(asked: Option<HistoryConfirmation>, count: nat) -> DialogView {
    DialogView {
        asked,
        title: "清空任务历史"@,
        message: "将删除 "@ + dec(count) + " 个已结束任务的记录与产物文件；排队与运行中的任务不受影响。此操作不可撤销。"@,
        confirm_label: "清空历史"@,
        visible: true,
    }
}

impl HistoryDialog {
    /// The dialog before it was asked for.
    pub fn new() -> (r: HistoryDialog)
        ensures
            r@ == (DialogView { asked: None, title: ""@, message: ""@, confirm_label: ""@, visible: false }),
    {
        HistoryDialog { asked: None, title: text(""), message: text(""), confirm_label: text(""), visible: false }
    }

    /// Asks about one job.
    pub fn ask_delete(&mut self, asked: Option<HistoryConfirmation>, title: &str)
        ensures
            final(self)@ == delete_dialog(asked, title@),
    {
        self.asked = asked;
        self.title = text("删除任务");
        self.message = cat3(
            "将删除“",
            title,
            "”的任务记录与全部产物文件（含输出目录中的 full.md）。此操作不可撤销。",
        );
        self.confirm_label = text("删除");
        self.visible = true;
    }

    /// Asks about the history.
    pub fn ask_clear(&mut self, asked: Option<HistoryConfirmation>, count: u64)
        ensures
            final(self)@ == clear_dialog(asked, count as nat),
    {
        let n = decimal(count);
        self.asked = asked;
        self.title = text("清空任务历史");
        self.message = cat3(
            "将删除 ",
            n.as_str(),
            " 个已结束任务的记录与产物文件；排队与运行中的任务不受影响。此操作不可撤销。",
        );
        self.confirm_label = text("清空历史");
        self.visible = true;
    }
}

/// Asks before the selected job is removed.
pub fn request_delete_selected(
    bar: &mut ActionBar,
    dialog: &mut HistoryDialog,
    jobs: &Vec<Job>,
    selected: Option<u128>,
)
    ensures
        if old(bar).pending || chosen(jobs@, selected) is None {
            final(bar)@ == old(bar)@ && final(dialog)@ == old(dialog)@
        } else {
            let job = jobs@[chosen(jobs@, selected)->0];
            if job.status.terminal() {
                final(bar)@ == old(bar)@ && final(dialog)@ == delete_dialog(
                    Some(HistoryConfirmation::DeleteJob(job.id)),
                    job.title@,
                )
            } else {
                final(dialog)@ == old(dialog)@ && final(bar)@ == told(
                    old(bar)@,
                    "删除失败：任务尚未结束，请先取消再删除"@,
                    true,
                )
            }
        },
{
    if bar.pending {
        return;
    }
    let i: usize = match find_chosen(jobs, selected) {
        Some(i) => i,
        None => {
            return;
        },
    };
    let job = &jobs[i];
    if !job.status.is_terminal() {
        bar.tell("删除失败：任务尚未结束，请先取消再删除", true);
        return;
    }
    dialog.ask_delete(Some(HistoryConfirmation::DeleteJob(job.id)), job.title.as_str());
}

/// Asks before the history is cleared.
pub fn request_clear_history(bar: &mut ActionBar, dialog: &mut HistoryDialog, jobs: &Vec<Job>)
    ensures
        ({
            let count = terminal_count(jobs@, jobs@.len() as int);
            if old(bar).pending {
                final(bar)@ == old(bar)@ && final(dialog)@ == old(dialog)@
            } else if count == 0 {
                final(dialog)@ == old(dialog)@ && final(bar)@ == told(old(bar)@, "没有可清空的历史任务"@, false)
            } else {
                final(bar)@ == old(bar)@ && final(dialog)@ == clear_dialog(
                    Some(HistoryConfirmation::ClearHistory),
                    count,
                )
            }
        }),
{
    if bar.pending {
        return;
    }
    let count: usize = count_terminal(jobs);
    if count == 0 {
        bar.tell("没有可清空的历史任务", false);
        return;
    }
    dialog.ask_clear(Some(HistoryConfirmation::ClearHistory), count as u64);
}

/// The message that the confirmed dialog sends; it is asked once only.
pub fn confirm_history_action(bar: &mut ActionBar, dialog: &mut HistoryDialog) -> (r: Option<WorkMsg>)
    ensures
        final(dialog)@ == (DialogView { asked: None, visible: false, ..old(dialog)@ }),
        match old(dialog).asked {
            Some(c) if !old(bar).pending => match c {
                HistoryConfirmation::DeleteJob(id) => r == Some(WorkMsg::DeleteJob(id)) && final(bar)@ == begun(
                    ""@,
                    "正在删除任务…"@,
                ),
                HistoryConfirmation::ClearHistory => r == Some(WorkMsg::ClearHistory) && final(bar)@ == begun(
                    ""@,
                    "正在清空历史…"@,
                ),
            },
            _ => r is None && final(bar)@ == old(bar)@,
        },
{
    let asked = dialog.asked;
    dialog.asked = None;
    dialog.visible = false;
    if bar.pending {
        return None;
    }
    match asked {
        None => None,
        Some(HistoryConfirmation::DeleteJob(id)) => {
            bar.begin("", "正在删除任务…");
            Some(WorkMsg::DeleteJob(id))
        },
        Some(HistoryConfirmation::ClearHistory) => {
            bar.begin("", "正在清空历史…");
            Some(WorkMsg::ClearHistory)
        },
    }
}

/// Shows that the worker is gone, where the message could not be sent.
pub fn history_message_sent(bar: &mut ActionBar, sent: bool)
    ensures
        final(bar)@ == (if sent {
            old(bar)@
        } else {
            ended(old(bar)@, "操作失败：后台任务已退出"@, true)
        }),
{
    if !sent {
        bar.end(say("操作失败：后台任务已退出", true));
    }
}

/// Closes the dialog; nothing is removed.
pub fn cancel_history_action(dialog: &mut HistoryDialog)
    ensures
        final(dialog)@ == (DialogView { asked: None, visible: false, ..old(dialog)@ }),
{
    dialog.asked = None;
    dialog.visible = false;
}

// ---- The selection ----

/// The row that is selected.
pub fn selected_index(rows: &Vec<JobRow>) -> (r: Option<usize>)
    ensures
        match r {
            Some(i) => i < rows@.len() && rows@[i as int].selected && forall|j: int|
                0 <= j < i ==> !(#[trigger] rows@[j]).selected,
            None => forall|j: int| 0 <= j < rows@.len() ==> !(#[trigger] rows@[j]).selected,
        },
{
    let mut i: usize = 0;
    while i < rows.len()
        invariant
            i <= rows@.len(),
            forall|j: int| 0 <= j < i ==> !(#[trigger] rows@[j]).selected,
        decreases rows@.len() - i,
    {
        if rows[i].selected {
            return Some(i);
        }
        i += 1;
    }
    None
}

/// The row `i` is the first that is selected.
pub open spec fn first_selected(rows: Seq<JobRow>, i: int) -> bool {
    &&& 0 <= i < rows.len()
    &&& rows[i].selected
    &&& forall|j: int| 0 <= j < i ==> !(#[trigger] rows[j]).selected
}

/// The selected row is the one of a job.
pub open spec fn shown_job(rows: Seq<JobRow>, job_id: u128) -> bool {
    exists|i: int| #[trigger] first_selected(rows, i) && rows[i].id@ == hyphenated(job_id)
}

/// Whether the selected row is the one of a job.
pub fn is_shown_job(rows: &Vec<JobRow>, job_id: u128) -> (b: bool)
    ensures
        b == shown_job(rows@, job_id),
{
    match selected_index(rows) {
        Some(i) => {
            let wanted = id_text(job_id);
            let b = same(rows[i].id.as_str(), wanted.as_str());
            assert(first_selected(rows@, i as int));
            assert forall|j: int| #[trigger] first_selected(rows@, j) implies j == i by {
                if j < i {
                    assert(!rows@[j].selected);
                } else if i < j {
                    assert(!rows@[i as int].selected);
                }
            }
            b
        },
        None => false,
    }
}

/// The text that is being made again, by the kind of the action that is pending.
pub open spec fn pending_of(bar: BarView) -> Option<ArtifactKindV1> {
    match kind_of_action(bar.kind) {
        Some(kind) => Some(kind.kind()),
        None => None,
    }
}

/// The result that is shown anew after something changed in a job: none where another job is
/// selected, or where the job is gone.
pub fn refresh_selected_result(
    rows: &Vec<JobRow>,
    bar: &ActionBar,
    job_id: u128,
    job: Option<&Job>,
    status_label: &str,
    view: &Result<ContentViewV1, ContentError>,
) -> (r: Option<ContentResultsData>)
    ensures
        match r {
            Some(data) => shown_job(rows@, job_id) && job is Some && data@ == results_of(
                *job->0,
                status_label@,
                *view,
                pending_of(bar@),
            ),
            None => !shown_job(rows@, job_id) || job is None,
        },
{
    if !is_shown_job(rows, job_id) {
        return None;
    }
    match job {
        None => None,
        Some(job) => {
            let pending = match regenerable_kind_from_action(bar.kind.as_str()) {
                Some(kind) => Some(kind.artifact_kind()),
                None => None,
            };
            Some(content_results_for_job(job, status_label, view, pending))
        },
    }
}

/// The pane that is shown anew after a job has run, where it is the selected one. Says whether
/// its documents are to be counted.
pub fn refresh_selected_detail(
    rows: &Vec<JobRow>,
    detail: &mut JobDetailData,
    job: &Job,
    facts: &MachineFacts,
    now: UtcTime,
) -> (count: bool)
    ensures
        if shown_job(rows@, job.id) {
            refreshed(*old(detail), *final(detail), *job, *facts, now) && count == (facts.documents@[0]
                || facts.documents@[1] || facts.documents@[2])
        } else {
            !count && *final(detail) == *old(detail)
        },
{
    if !is_shown_job(rows, job.id) {
        return false;
    }
    refresh_detail(detail, job, facts, now);
    facts.documents[0] || facts.documents[1] || facts.documents[2]
}

/// Shows how long the documents of a job are, once they are counted, where it is still selected.
pub fn document_words_counted(rows: &Vec<JobRow>, detail: &mut JobDetailData, job_id: u128, label: String)
    ensures
        *final(detail) == (if shown_job(rows@, job_id) {
            JobDetailData { document_words: label, ..*old(detail) }
        } else {
            *old(detail)
        }),
{
    if is_shown_job(rows, job_id) {
        detail.document_words = label;
    }
}

/// The list of jobs after the queue has changed.
#[derive(Debug)]
pub struct QueueRows {
    pub rows: Vec<JobRow>,
    pub selected: Option<usize>,
    pub can_move_up: bool,
    pub can_move_down: bool,
}

/// The list of jobs after the queue has changed. The job that was selected stays selected where
/// it is still there; no other row is.
pub fn apply_queue_rows(
    jobs: &Vec<Job>,
    snaps: &Vec<JobViewSnapshot>,
    now: UtcTime,
    previous: Option<u128>,
    fallback: usize,
) -> (r: QueueRows)
    requires
        snaps@.len() == jobs@.len(),
    ensures
        r.rows@.len() == jobs@.len(),
        match selection_after(jobs@, previous, fallback as int) {
            Some(i) => r.selected == Some(i as usize) && 0 <= i < jobs@.len(),
            None => r.selected is None,
        },
        forall|i: int|
            0 <= i < jobs@.len() ==> row_shows(
                #[trigger] r.rows@[i],
                jobs@[i],
                snaps@[i],
                now,
                selection_after(jobs@, previous, fallback as int) == Some(i),
            ),
        (r.can_move_up, r.can_move_down) == (match r.selected {
            Some(i) => (0 < i < jobs@.len(), i + 1 < jobs@.len()),
            None => (false, false),
        }),
{
    let selected = repair_selection(jobs, previous, fallback);
    let ghost wanted = selection_after(jobs@, previous, fallback as int);
    let mut rows: Vec<JobRow> = Vec::new();
    let mut i: usize = 0;
    while i < jobs.len()
        invariant
            i <= jobs@.len(),
            snaps@.len() == jobs@.len(),
            rows@.len() == i,
            match selected {
                Some(k) => wanted == Some(k as int),
                None => wanted is None,
            },
            forall|j: int|
                0 <= j < i ==> row_shows(#[trigger] rows@[j], jobs@[j], snaps@[j], now, wanted == Some(j)),
        decreases jobs@.len() - i,
    {
        let here = match selected {
            Some(k) => k == i,
            None => false,
        };
        rows.push(job_to_row(&jobs[i], &snaps[i], now, here));
        i += 1;
    }
    let (can_move_up, can_move_down) = reorder_capabilities(selected, jobs.len());
    QueueRows { rows, selected, can_move_up, can_move_down }
}

fn mark_row(row: &mut JobRow, selected: bool)
    ensures
        *final(row) == (JobRow { selected, ..*old(row) }),
{
    row.selected = selected;
}

/// The user opens the result of the selected job: what was said before is gone.
pub fn view_result(bar: &mut ActionBar, result_open: &mut bool)
    ensures
        *final(result_open),
        final(bar)@ == told(old(bar)@, ""@, false),
{
    bar.tell("", false);
    *result_open = true;
}

/// The user goes back from a result to the details of its job.
pub fn leave_result(result_open: &mut bool)
    ensures
        !*final(result_open),
{
    *result_open = false;
}

/// Shows that no job is selected: the pane, the names of the speakers and the result are empty,
/// and the result is closed.
pub fn clear_job_detail(
    detail: &mut JobDetailData,
    speakers: &mut Vec<SpeakerEntry>,
    result: &mut ContentResultsData,
    bar: &mut ActionBar,
    result_open: &mut bool,
)
    ensures
        shows_nothing(*final(detail)),
        final(speakers)@.len() == 0,
        final(result)@ == no_results(),
        final(bar)@ == (BarView { kind: ""@, ..old(bar)@ }),
        !*final(result_open),
{
    *detail = empty_detail();
    *speakers = Vec::new();
    *result = empty_content_results();
    bar.kind = text("");
    *result_open = false;
}

/// Selects one row alone, forgets what was said of the job before, and closes its result. A place
/// before the list changes nothing; one behind it leaves no row selected.
pub fn select_job(
    rows: &mut Vec<JobRow>,
    bar: &mut ActionBar,
    speakers: &mut SpeakerBar,
    result_open: &mut bool,
    index: i32,
) -> (r: Option<usize>)
    ensures
        if index < 0 {
            r is None && final(rows)@ == old(rows)@ && final(bar)@ == old(bar)@ && final(speakers)@ == old(speakers)@
                && *final(result_open) == *old(result_open)
        } else {
            &&& final(rows)@.len() == old(rows)@.len()
            &&& forall|i: int|
                0 <= i < old(rows)@.len() ==> final(rows)@[i] == (JobRow {
                    selected: i == index,
                    ..(#[trigger] old(rows)@[i])
                })
            &&& final(bar)@ == (BarView { pending: false, kind: ""@, feedback: ""@, error: false })
            &&& final(speakers)@ == (""@, false)
            &&& !*final(result_open)
            &&& r == (if index < old(rows)@.len() {
                Some(index as usize)
            } else {
                None
            })
        },
{
    if index < 0 {
        return None;
    }
    let at: usize = index as usize;
    bar.pending = false;
    bar.kind = text("");
    bar.tell("", false);
    speakers.tell("", false);
    *result_open = false;
    let ghost before = rows@;
    let mut i: usize = 0;
    while i < rows.len()
        invariant
            i <= rows@.len(),
            rows@.len() == before.len(),
            forall|j: int|
                0 <= j < i ==> rows@[j] == (JobRow { selected: j == at, ..(#[trigger] before[j]) }),
            forall|j: int| i <= j < rows@.len() ==> rows@[j] == #[trigger] before[j],
        decreases rows@.len() - i,
    {
        let ghost now = rows@;
        assert(now[i as int] == before[i as int]);
        mark_row(&mut rows[i], i == at);
        assert(rows@ =~= now.update(i as int, rows@[i as int]));
        i += 1;
    }
    if at < rows.len() {
        Some(at)
    } else {
        None
    }
}

// ---- The order of the queue ----

/// Whether the selected row can move up, and whether it can move down.
pub fn reorder_capabilities(selected: Option<usize>, len: usize) -> (r: (bool, bool))
    ensures
        r == (match selected {
            Some(i) => (0 < i < len, i + 1 < len),
            None => (false, false),
        }),
{
    match selected {
        Some(i) => (i > 0 && i < len, i < len && i < len - 1),
        None => (false, false),
    }
}

/// The row that is selected a number of rows further on, within the list.
pub open spec fn row_beyond(index: int, delta: int, len: int) -> int {
    if index + delta < 0 {
        0
    } else if index + delta >= len {
        len - 1
    } else {
        index + delta
    }
}

/// The row that is selected a number of rows further on.
pub fn select_relative(index: i32, delta: i32, len: usize) -> (r: Option<usize>)
    ensures
        match r {
            Some(i) => len > 0 && i == row_beyond(index as int, delta as int, len as int),
            None => len == 0,
        },
{
    if len == 0 {
        return None;
    }
    let at: i64 = index as i64 + delta as i64;
    if at < 0 {
        Some(0)
    } else if at as u64 >= len as u64 {
        Some(len - 1)
    } else {
        Some(at as usize)
    }
}

/// The row that the selected one changes places with.
pub open spec fn neighbour(i: int, up: bool, len: int) -> Option<int> {
    if up && 0 < i {
        Some(i - 1)
    } else if !up && i + 1 < len {
        Some(i + 1)
    } else {
        None
    }
}

/// Moves the selected job one place up or down; the others keep their order.
pub fn move_selected(jobs: &mut Vec<Job>, selected: Option<usize>, up: bool) -> (r: Option<usize>)
    requires
        selected matches Some(i) ==> i < old(jobs)@.len(),
    ensures
        match selected {
            Some(i) => match neighbour(i as int, up, old(jobs)@.len() as int) {
                Some(k) => r == Some(k as usize) && final(jobs)@ == old(jobs)@.update(k, old(jobs)@[i as int]).update(
                    i as int,
                    old(jobs)@[k],
                ),
                None => r is None && final(jobs)@ == old(jobs)@,
            },
            None => r is None && final(jobs)@ == old(jobs)@,
        },
{
    let i: usize = match selected {
        Some(i) => i,
        None => {
            return None;
        },
    };
    let k: usize = if up {
        if i == 0 {
            return None;
        }
        i - 1
    } else {
        if i == jobs.len() - 1 {
            return None;
        }
        i + 1
    };
    swap_neighbours(jobs, i, k);
    Some(k)
}

fn swap_neighbours(jobs: &mut Vec<Job>, i: usize, k: usize)
    requires
        i < old(jobs)@.len(),
        k < old(jobs)@.len(),
        k == i + 1 || i == k + 1,
    ensures
        final(jobs)@ == old(jobs)@.update(k as int, old(jobs)@[i as int]).update(i as int, old(jobs)@[k as int]),
{
    let low: usize = if i < k {
        i
    } else {
        k
    };
    let job = jobs.remove(low);
    jobs.insert(low + 1, job);
    assert(jobs@ =~= old(jobs)@.update(k as int, old(jobs)@[i as int]).update(i as int, old(jobs)@[k as int]));
}

/// A move up and the move back down leave the queue as it was; and the buttons offer exactly the
/// moves that do something.
pub proof fn a_move_is_taken_back(jobs: Seq<Job>, i: int, up: bool)
    requires
        0 <= i < jobs.len(),
    ensures
        neighbour(i, up, jobs.len() as int) matches Some(k) ==> {
            let moved = jobs.update(k, jobs[i]).update(i, jobs[k]);
            &&& neighbour(k, !up, jobs.len() as int) == Some(i)
            &&& moved.update(i, moved[k]).update(k, moved[i]) == jobs
        },
        (neighbour(i, true, jobs.len() as int) is Some) == (0 < i),
        (neighbour(i, false, jobs.len() as int) is Some) == (i + 1 < jobs.len()),
{
    if let Some(k) = neighbour(i, up, jobs.len() as int) {
        let moved = jobs.update(k, jobs[i]).update(i, jobs[k]);
        assert(moved.update(i, moved[k]).update(k, moved[i]) =~= jobs);
    }
}

/// A step in the list goes as far as asked, but never beyond the first or the last row.
pub proof fn a_step_stays_in_the_list(index: int, delta: int, len: int)
    requires
        0 < len,
    ensures
        0 <= row_beyond(index, delta, len) < len,
        0 <= index + delta < len ==> row_beyond(index, delta, len) == index + delta,
        index + delta < 0 ==> row_beyond(index, delta, len) == 0,
        index + delta >= len ==> row_beyond(index, delta, len) == len - 1,
{
}

/// Moving a job trades places with the next one above or below; the same jobs are in the queue as
/// before, and moving back undoes it.
pub proof fn a_move_trades_places(jobs: Seq<Job>, i: int, up: bool)
    requires
        0 <= i < jobs.len(),
    ensures
        neighbour(i, up, jobs.len() as int) matches Some(k) ==> {
            let moved = jobs.update(k, jobs[i]).update(i, jobs[k]);
            &&& 0 <= k < jobs.len()
            &&& k == (if up {
                i - 1
            } else {
                i + 1
            })
            &&& moved[k] == jobs[i] && moved[i] == jobs[k]
            &&& moved.update(i, moved[k]).update(k, moved[i]) == jobs
            &&& neighbour(k, !up, jobs.len() as int) == Some(i)
        },
        neighbour(i, up, jobs.len() as int) is None <==> (up && i == 0) || (!up && i == jobs.len() - 1),
{
    if let Some(k) = neighbour(i, up, jobs.len() as int) {
        let moved = jobs.update(k, jobs[i]).update(i, jobs[k]);
        assert(moved.update(i, moved[k]).update(k, moved[i]) =~= jobs);
    }
}

/// A text can be made anew exactly where the job is finished and has a result, there is a model
/// to ask, and nothing else is being made; a result can be repaired exactly where only the
/// transcript is left of it.
pub proof fn what_can_be_made_anew(
    busy: Option<u128>,
    job: Job,
    view: Result<ContentViewV1, ContentError>,
    target: Result<ReadyGenerationTargetV1, TargetUnavailableV1>,
)
    ensures
        regenerate_words(busy, job, view, target) is None <==> {
            &&& job.content_setup is Some
            &&& job.status is Completed || job.status is Failed || job.status is Cancelled
            &&& view is Ok && view->Ok_0 is Current
            &&& target is Ok
            &&& busy is None
        },
        repair_words(busy, job, view) is None <==> {
            &&& job.content_setup is Some
            &&& job.status is Completed || job.status is Failed || job.status is Cancelled
            &&& view is Ok && view->Ok_0 is RawOnly
            &&& busy is None
        },
{
}

/// Names can be changed while nothing is being made of the job's texts, and, where it has a
/// result of its own, only while that is shown.
pub proof fn when_names_can_be_changed(
    busy: Option<u128>,
    jobs: Seq<Job>,
    id: u128,
    view: Result<ContentViewV1, ContentError>,
)
    ensures
        name_refusal(busy, jobs, None, view) is Some,
        name_refusal(busy, jobs, Some(id), view) is None ==> exists|i: int|
            0 <= i < jobs.len() && (#[trigger] jobs[i]).id == id && (jobs[i].content_setup is None || (view is Ok
                && view->Ok_0 is Current && busy != Some(id))),
        (forall|i: int| 0 <= i < jobs.len() ==> (#[trigger] jobs[i]).id != id) ==> name_refusal(
            busy,
            jobs,
            Some(id),
            view,
        ) is Some,
{
    super::worker::place_is_first(jobs, id, 0);
    if let Some(i) = place_of(jobs, id) {
        assert(jobs[i].id == id);
    }
}

/// A button asks for the text that it is named after: no two texts have the same button, and the
/// buttons that ask directly lead back to their text.
pub proof fn a_button_asks_for_its_text(a: RegenerableKind, b: RegenerableKind, action: Seq<char>)
    ensures
        button_of(a) == button_of(b) ==> a == b,
        kind_of_action(action) matches Some(k) ==> button_of(k) == action,
        a is DefaultSummary || a is Highlights || a is Chapters ==> kind_of_action(button_of(a)) == Some(a),
        a is ShortSummary || a is LongSummary ==> kind_of_action(button_of(a)) is None,
{
    reveal_strlit("summary");
    reveal_strlit("highlights");
    reveal_strlit("chapters");
    reveal_strlit("summary-short");
    reveal_strlit("summary-long");
    assert("summary"@.len() == 7);
    assert("highlights"@.len() == 10);
    assert("chapters"@.len() == 8);
    assert("summary-short"@.len() == 13);
    assert("summary-long"@.len() == 12);
}

} // verus!
