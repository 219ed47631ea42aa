//! What the window does when the user acts on a job.

use vstd::prelude::*;
use super::busy::{ContentBusy, holder};
use super::operations::locate_documents;
use super::worker::{Feedback, find_job, place_of, say, say2};
use crate::content_results::current::ContentViewV1;
use crate::content_results::error::{ContentError, content_problem_text};
use crate::document::{raw_document, render_raw_markdown};
use crate::jobs::Job;
use crate::paths::{below, join_path};
use crate::text::{cat2, starts, starts_with, text, views, views_push};

verus! {

broadcast use vstd::std_specs::hash::group_hash_axioms;

// ---- The action bar ----

/// The bar that shows what is being done, and what came of it.
#[derive(Debug)]
pub struct ActionBar {
    pub pending: bool,
    /// The text that is being made again, by the name of its button.
    pub kind: String,
    pub feedback: String,
    pub error: bool,
}

/// The bar that shows what is being done, and what came of it.
#[verifier::ext_equal]
pub struct BarView {
    pub pending: bool,
    pub kind: Seq<char>,
    pub feedback: Seq<char>,
    pub error: bool,
}

impl View for ActionBar {
    type V = BarView;

    open spec fn view(&self) -> BarView {
        BarView { pending: self.pending, kind: self.kind@, feedback: self.feedback@, error: self.error }
    }
}

/// The bar with something said; what is being done goes on.
pub open spec fn told(bar: BarView, words: Seq<char>, error: bool) -> BarView {
    BarView { feedback: words, error, ..bar }
}

/// The bar while something is being done.
pub open spec fn begun(kind: Seq<char>, words: Seq<char>) -> BarView {
    BarView { pending: true, kind, feedback: words, error: false }
}

/// The bar after something was done.
pub open spec fn ended(bar: BarView, words: Seq<char>, error: bool) -> BarView {
    BarView { pending: false, feedback: words, error, ..bar }
}

impl ActionBar {
    /// The bar before anything was done.
    pub fn new() -> (r: ActionBar)
        ensures
            r@ == (BarView { pending: false, kind: ""@, feedback: ""@, error: false }),
    {
        ActionBar { pending: false, kind: text(""), feedback: text(""), error: false }
    }

    /// Says something.
    pub fn tell(&mut self, words: &str, error: bool)
        ensures
            final(self)@ == told(old(self)@, words@, error),
    {
        self.feedback = text(words);
        self.error = error;
    }

    /// Says something that has two parts.
    pub fn tell2(&mut self, a: &str, b: &str, error: bool)
        ensures
            final(self)@ == told(old(self)@, a@ + b@, error),
    {
        self.feedback = cat2(a, b);
        self.error = error;
    }

    /// Shows that something is being done.
    pub fn begin(&mut self, kind: &str, words: &str)
        ensures
            final(self)@ == begun(kind@, words@),
    {
        self.pending = true;
        self.kind = text(kind);
        self.feedback = text(words);
        self.error = false;
    }

    /// Shows what came of it.
    pub fn end(&mut self, said: Feedback)
        ensures
            final(self)@ == ended(old(self)@, said@.0, said@.1),
    {
        self.pending = false;
        self.feedback = said.text;
        self.error = said.error;
    }

    /// Shows what came of making a text again or repairing it.
    pub fn content_feedback(&mut self, said: Feedback)
        ensures
            final(self)@ == (BarView { pending: false, kind: ""@, feedback: said@.0, error: said@.1 }),
    {
        self.kind = text("");
        self.end(said);
    }
}

/// The job that is selected and in the queue.
pub open spec fn chosen(jobs: Seq<Job>, selected: Option<u128>) -> Option<int> {
    match selected {
        Some(id) => place_of(jobs, id),
        None => None,
    }
}

pub(crate) fn find_chosen(jobs: &Vec<Job>, selected: Option<u128>) -> (r: Option<usize>)
    ensures
        match r {
            Some(i) => i < jobs@.len() && chosen(jobs@, selected) == Some(i as int) && selected == Some(
                jobs@[i as int].id,
            ),
            None => chosen(jobs@, selected) is None,
        },
{
    match selected {
        Some(id) => find_job(jobs, id),
        None => None,
    }
}

// ---- Opening the document ----

/// How the document of a job is opened.
#[derive(Debug)]
pub enum OpenStep {
    /// It is not.
    Nothing,
    /// It is written from the stored texts first; the reservation is held for that.
    Present { place: usize },
    /// It is looked for, in this order.
    Look { paths: Vec<String> },
}

/// Why the stored texts of a job cannot be opened.
pub open spec fn open_refusal(view: Result<ContentViewV1, ContentError>) -> Option<Seq<char>> {
    match view {
        Ok(ContentViewV1::Current(_)) => None,
        Ok(ContentViewV1::RawOnly { .. }) => Some("打开失败：可信文字结果尚未生成，请先修复"@),
        Ok(ContentViewV1::Legacy) => Some("打开失败：任务内容标记无效"@),
        Err(e) => Some("打开失败："@ + content_problem_text(e@)),
    }
}

/// Where the document of a job that is older than structured content may be.
pub open spec fn document_places(job: Job) -> Seq<Seq<char>> {
    (match job.final_output_dir {
        Some(d) => seq![below(d@, "full.md"@)],
        None => Seq::empty(),
    }) + (match job.work_dir {
        Some(d) => seq![below(d@, "full.md"@)],
        None => Seq::empty(),
    })
}

fn list_document_places(job: &Job) -> (r: Vec<String>)
    ensures
        views(r@) == document_places(*job),
{
    let mut out: Vec<String> = Vec::new();
    assert(views(out@) =~= Seq::<Seq<char>>::empty());
    if let Some(d) = &job.final_output_dir {
        let p = join_path(d.as_str(), "full.md");
        proof {
            views_push(out@, p);
        }
        out.push(p);
    }
    let ghost first = views(out@);
    assert(first =~= (match job.final_output_dir {
        Some(d) => seq![below(d@, "full.md"@)],
        None => Seq::empty(),
    }));
    if let Some(d) = &job.work_dir {
        let p = join_path(d.as_str(), "full.md");
        proof {
            views_push(out@, p);
        }
        out.push(p);
    }
    assert(views(out@) =~= document_places(*job));
    out
}

/// Begins to open the document of the selected job. Whatever refuses leaves the reservation as it was.
pub fn open_selected_md(
    bar: &mut ActionBar,
    busy: &mut ContentBusy,
    jobs: &Vec<Job>,
    selected: Option<u128>,
    view: &Result<ContentViewV1, ContentError>,
) -> (r: OpenStep)
    ensures
        if old(bar).pending || chosen(jobs@, selected) is None {
            r is Nothing && final(bar)@ == old(bar)@ && final(busy)@ == old(busy)@
        } else {
            let i = chosen(jobs@, selected)->0;
            let job = jobs@[i];
            if job.content_setup is None {
                &&& r matches OpenStep::Look { paths }
                &&& views(paths@) == document_places(job)
                &&& final(bar)@ == old(bar)@ && final(busy)@ == old(busy)@
            } else if old(busy)@ is Some {
                r is Nothing && final(busy)@ == old(busy)@ && final(bar)@ == told(
                    old(bar)@,
                    "文字结果正在处理中，请稍候"@,
                    true,
                )
            } else if !job.status.terminal() {
                r is Nothing && final(busy)@ is None && final(bar)@ == told(
                    old(bar)@,
                    "打开失败：任务尚未进入终态"@,
                    true,
                )
            } else {
                match open_refusal(*view) {
                    Some(words) => r is Nothing && final(busy)@ is None && final(bar)@ == told(
                        old(bar)@,
                        words,
                        true,
                    ),
                    None => (r matches OpenStep::Present { place } && place == i) && final(bar)@ == old(bar)@
                        && holder(final(busy)@) == Some(job.id),
                }
            }
        },
{
    if bar.pending {
        return OpenStep::Nothing;
    }
    let i: usize = match find_chosen(jobs, selected) {
        Some(i) => i,
        None => {
            return OpenStep::Nothing;
        },
    };
    let job = &jobs[i];
    if job.content_setup.is_none() {
        return OpenStep::Look { paths: list_document_places(job) };
    }
    if !busy.reserve_content_operation(job.id) {
        bar.tell("文字结果正在处理中，请稍候", true);
        return OpenStep::Nothing;
    }
    if !job.status.is_terminal() {
        bar.tell("打开失败：任务尚未进入终态", true);
        busy.clear_content_operation(job.id);
        return OpenStep::Nothing;
    }
    match view {
        Ok(ContentViewV1::Current(_)) => {
            return OpenStep::Present { place: i };
        },
        Ok(ContentViewV1::RawOnly { .. }) => {
            bar.tell("打开失败：可信文字结果尚未生成，请先修复", true);
        },
        Ok(ContentViewV1::Legacy) => {
            bar.tell("打开失败：任务内容标记无效", true);
        },
        Err(e) => {
            let why = e.describe();
            bar.tell2("打开失败：", why.as_str(), true);
        },
    }
    busy.clear_content_operation(job.id);
    OpenStep::Nothing
}

/// Goes on after the documents were written, or not. Where they were, the queue records where
/// they are; nothing else of the job changes.
pub fn documents_presented(
    bar: &mut ActionBar,
    busy: &mut ContentBusy,
    jobs: &mut Vec<Job>,
    job_id: u128,
    dir: Result<String, String>,
    written: Result<(), String>,
) -> (r: Option<String>)
    requires
        holder(old(busy)@) == Some(job_id),
    ensures
        match (dir, written) {
            (Ok(d), Ok(_)) => ({
                &&& r matches Some(p) && p@ == below(d@, "full.md"@)
                &&& final(bar)@ == old(bar)@ && final(busy)@ == old(busy)@
                &&& final(jobs)@ == (match place_of(old(jobs)@, job_id) {
                    Some(i) => old(jobs)@.update(i, Job { final_output_dir: Some(d), ..old(jobs)@[i] }),
                    None => old(jobs)@,
                })
            }),
            (Ok(_), Err(e)) => r is None && final(jobs)@ == old(jobs)@ && final(busy)@ is None && final(bar)@ == told(
                old(bar)@,
                "打开失败："@ + e@,
                true,
            ),
            (Err(e), _) => r is None && final(jobs)@ == old(jobs)@ && final(busy)@ is None && final(bar)@ == told(
                old(bar)@,
                "打开失败："@ + e@,
                true,
            ),
        },
{
    match (dir, written) {
        (Ok(d), Ok(_)) => {
            let path = join_path(d.as_str(), "full.md");
            let _place = locate_documents(jobs, job_id, d);
            Some(path)
        },
        (Ok(_), Err(e)) => {
            bar.tell2("打开失败：", e.as_str(), true);
            busy.clear_content_operation(job_id);
            None
        },
        (Err(e), _) => {
            bar.tell2("打开失败：", e.as_str(), true);
            busy.clear_content_operation(job_id);
            None
        },
    }
}

/// Says so where no document was found.
pub fn document_found(bar: &mut ActionBar, found: bool)
    ensures
        final(bar)@ == (if found {
            old(bar)@
        } else {
            told(old(bar)@, "打开失败：Markdown 尚未生成"@, true)
        }),
{
    if !found {
        bar.tell("打开失败：Markdown 尚未生成", true);
    }
}

/// What is opened outside of the window.
#[derive(Debug, Clone, Copy, PartialEq, Eq, Structural)]
pub enum Opened {
    Markdown,
    Raw,
    Folder,
}

impl Opened {
    /// What is said before.
    pub open spec fn before(self) -> Seq<char> {
        match self {
            Opened::Markdown => "正在打开 Markdown…"@,
            Opened::Raw => "正在打开原始稿…"@,
            Opened::Folder => "正在定位任务目录…"@,
        }
    }

    /// What is said after.
    pub open spec fn after(self) -> Seq<char> {
        match self {
            Opened::Markdown => "已请求打开 Markdown"@,
            Opened::Raw => "已请求打开原始稿"@,
            Opened::Folder => "已请求在访达中显示"@,
        }
    }

    /// What is said where it failed.
    pub open spec fn failed(self) -> Seq<char> {
        match self {
            Opened::Folder => "显示失败："@,
            _ => "打开失败："@,
        }
    }
}

/// Shows that something is being opened.
pub fn begin_opening(bar: &mut ActionBar, what: Opened)
    ensures
        final(bar)@ == begun(""@, what.before()),
{
    match what {
        Opened::Markdown => bar.begin("", "正在打开 Markdown…"),
        Opened::Raw => bar.begin("", "正在打开原始稿…"),
        Opened::Folder => bar.begin("", "正在定位任务目录…"),
    }
}

/// Shows what came of it, and gives the reservation back where it was held for it.
pub fn end_opening(
    bar: &mut ActionBar,
    busy: &mut ContentBusy,
    job_id: u128,
    what: Opened,
    started: Result<(), String>,
)
    ensures
        final(busy)@ == (if holder(old(busy)@) == Some(job_id) {
            None
        } else {
            old(busy)@
        }),
        final(bar)@ == (match started {
            Ok(_) => ended(old(bar)@, what.after(), old(bar)@.error),
            Err(e) => ended(old(bar)@, what.failed() + e@, true),
        }),
{
    busy.clear_content_operation(job_id);
    match started {
        Ok(_) => {
            let words = match what {
                Opened::Markdown => "已请求打开 Markdown",
                Opened::Raw => "已请求打开原始稿",
                Opened::Folder => "已请求在访达中显示",
            };
            let error = bar.error;
            bar.end(say(words, error));
        },
        Err(e) => {
            let words = match what {
                Opened::Folder => "显示失败：",
                _ => "打开失败：",
            };
            bar.end(say2(words, e.as_str(), true));
        },
    }
}

// ---- Opening the raw transcript ----

/// How the raw transcript of a job is opened.
#[derive(Debug)]
pub enum RawStep {
    /// It is not.
    Nothing,
    /// It is written first; the reservation is held for that.
    Write { path: String, what: String },
    /// It is opened where it is, if it is there.
    Look { path: String },
}

/// The utterances that the raw transcript of a job is written from, or why it cannot be.
pub open spec fn raw_refusal(view: Result<ContentViewV1, ContentError>) -> Option<Seq<char>> {
    match view {
        Ok(ContentViewV1::Legacy) => Some("打开失败：任务内容标记无效"@),
        Ok(_) => None,
        Err(e) => Some("打开失败："@ + content_problem_text(e@)),
    }
}

/// The raw transcript of a job, as far as it can be shown.
pub open spec fn raw_text(job: Job, view: Result<ContentViewV1, ContentError>) -> Seq<char> {
    match view {
        Ok(ContentViewV1::Current(s)) => raw_document(job, s.evidence.utterances@),
        Ok(ContentViewV1::RawOnly { evidence, .. }) => raw_document(job, evidence.utterances@),
        _ => ""@,
    }
}

/// Begins to open the raw transcript of the selected job.
pub fn open_selected_raw(
    bar: &mut ActionBar,
    busy: &mut ContentBusy,
    jobs: &Vec<Job>,
    selected: Option<u128>,
    view: &Result<ContentViewV1, ContentError>,
) -> (r: RawStep)
    ensures
        if old(bar).pending || chosen(jobs@, selected) is None {
            r is Nothing && final(bar)@ == old(bar)@ && final(busy)@ == old(busy)@
        } else {
            let job = jobs@[chosen(jobs@, selected)->0];
            if job.content_setup is None {
                &&& final(busy)@ == old(busy)@
                &&& match job.work_dir {
                    Some(d) => (r matches RawStep::Look { path } && path@ == below(d@, "transcript.raw.md"@))
                        && final(bar)@ == old(bar)@,
                    None => r is Nothing && final(bar)@ == told(old(bar)@, "打开失败：原始稿尚未生成"@, true),
                }
            } else if old(busy)@ is Some {
                r is Nothing && final(busy)@ == old(busy)@ && final(bar)@ == told(
                    old(bar)@,
                    "文字结果正在处理中，请稍候"@,
                    true,
                )
            } else {
                match (job.work_dir, raw_refusal(*view)) {
                    (None, _) => r is Nothing && final(busy)@ is None && final(bar)@ == told(
                        old(bar)@,
                        "打开失败：任务目录尚未生成"@,
                        true,
                    ),
                    (Some(_), Some(words)) => r is Nothing && final(busy)@ is None && final(bar)@ == told(
                        old(bar)@,
                        words,
                        true,
                    ),
                    (Some(d), None) => (r matches RawStep::Write { path, what } && path@ == below(
                        d@,
                        "transcript.raw.md"@,
                    ) && what@ == raw_text(job, *view)) && final(bar)@ == old(bar)@ && holder(final(busy)@) == Some(
                        job.id,
                    ),
                }
            }
        },
{
    if bar.pending {
        return RawStep::Nothing;
    }
    let i: usize = match find_chosen(jobs, selected) {
        Some(i) => i,
        None => {
            return RawStep::Nothing;
        },
    };
    let job = &jobs[i];
    if job.content_setup.is_none() {
        return match &job.work_dir {
            Some(d) => RawStep::Look { path: join_path(d.as_str(), "transcript.raw.md") },
            None => {
                bar.tell("打开失败：原始稿尚未生成", true);
                RawStep::Nothing
            },
        };
    }
    if !busy.reserve_content_operation(job.id) {
        bar.tell("文字结果正在处理中，请稍候", true);
        return RawStep::Nothing;
    }
    let dir = match &job.work_dir {
        Some(d) => d,
        None => {
            bar.tell("打开失败：任务目录尚未生成", true);
            busy.clear_content_operation(job.id);
            return RawStep::Nothing;
        },
    };
    match view {
        Ok(ContentViewV1::Current(s)) => RawStep::Write {
            path: join_path(dir.as_str(), "transcript.raw.md"),
            what: render_raw_markdown(job, &s.evidence.utterances),
        },
        Ok(ContentViewV1::RawOnly { evidence, .. }) => RawStep::Write {
            path: join_path(dir.as_str(), "transcript.raw.md"),
            what: render_raw_markdown(job, &evidence.utterances),
        },
        Ok(ContentViewV1::Legacy) => {
            bar.tell("打开失败：任务内容标记无效", true);
            busy.clear_content_operation(job.id);
            RawStep::Nothing
        },
        Err(e) => {
            let why = e.describe();
            bar.tell2("打开失败：", why.as_str(), true);
            busy.clear_content_operation(job.id);
            RawStep::Nothing
        },
    }
}

/// Goes on after the raw transcript was written, or was looked for.
pub fn raw_ready(bar: &mut ActionBar, busy: &mut ContentBusy, job_id: u128, ready: Result<bool, String>) -> (go: bool)
    ensures
        go == (ready == Ok::<bool, String>(true)),
        match ready {
            Ok(true) => final(bar)@ == old(bar)@ && final(busy)@ == old(busy)@,
            Ok(false) => final(bar)@ == told(old(bar)@, "打开失败：原始稿尚未生成"@, true) && final(busy)@ == old(
                busy,
            )@,
            Err(e) => final(bar)@ == told(old(bar)@, "打开失败："@ + e@, true) && final(busy)@ == (if holder(
                old(busy)@,
            ) == Some(job_id) {
                None
            } else {
                old(busy)@
            }),
        },
{
    match ready {
        Ok(true) => true,
        Ok(false) => {
            bar.tell("打开失败：原始稿尚未生成", true);
            false
        },
        Err(e) => {
            bar.tell2("打开失败：", e.as_str(), true);
            busy.clear_content_operation(job_id);
            false
        },
    }
}

// ---- Other places ----

/// An address that a source may lead to.
pub open spec fn source_address(url: Seq<char>) -> bool {
    starts(url, "https://www.bilibili.com/video/"@)
}

/// Whether an address may be opened as a source.
pub fn valid_result_source_url(url: &str) -> (b: bool)
    ensures
        b == source_address(url@),
{
    starts_with(url, "https://www.bilibili.com/video/")
}

/// Decides whether an address is opened in the browser.
pub fn open_external_url(bar: &mut ActionBar, url: &str) -> (go: bool)
    ensures
        go == source_address(url@),
        final(bar)@ == (if go {
            old(bar)@
        } else {
            told(old(bar)@, "打开失败：来源链接无效"@, true)
        }),
{
    if valid_result_source_url(url) {
        true
    } else {
        bar.tell("打开失败：来源链接无效", true);
        false
    }
}

/// Shows what came of opening an address.
pub fn external_url_opened(bar: &mut ActionBar, started: Result<(), String>)
    ensures
        final(bar)@ == (match started {
            Ok(_) => told(old(bar)@, "已在浏览器中打开来源"@, false),
            Err(e) => told(old(bar)@, "打开来源失败："@ + e@, true),
        }),
{
    match started {
        Ok(_) => bar.tell("已在浏览器中打开来源", false),
        Err(e) => bar.tell2("打开来源失败：", e.as_str(), true),
    }
}

/// The address of a video leads to a source: whatever a row offers as a jump may be opened.
pub proof fn video_addresses_may_be_opened(bvid: Seq<char>, page: u32, at_ms: Option<u64>)
    ensures
        source_address(crate::bilibili::video_address(bvid, page, at_ms)),
{
    let head = "https://www.bilibili.com/video/"@;
    let url = crate::bilibili::video_address(bvid, page, at_ms);
    assert(url.subrange(0, head.len() as int) =~= head);
}

/// The directory of the selected job that is to be shown, given whether it exists.
pub fn reveal_selected(bar: &mut ActionBar, jobs: &Vec<Job>, selected: Option<u128>, exists_dir: bool) -> (r: Option<
    usize,
>)
    ensures
        if old(bar).pending || chosen(jobs@, selected) is None {
            r is None && final(bar)@ == old(bar)@
        } else {
            let i = chosen(jobs@, selected)->0;
            if jobs@[i].work_dir is None {
                r is None && final(bar)@ == told(old(bar)@, "显示失败：任务目录尚未生成"@, true)
            } else if !exists_dir {
                r is None && final(bar)@ == told(old(bar)@, "显示失败：任务目录不存在"@, true)
            } else {
                r == Some(i as usize) && final(bar)@ == begun(""@, Opened::Folder.before())
            }
        },
{
    if bar.pending {
        return None;
    }
    let i: usize = match find_chosen(jobs, selected) {
        Some(i) => i,
        None => {
            return None;
        },
    };
    if jobs[i].work_dir.is_none() {
        bar.tell("显示失败：任务目录尚未生成", true);
        return None;
    }
    if !exists_dir {
        bar.tell("显示失败：任务目录不存在", true);
        return None;
    }
    begin_opening(bar, Opened::Folder);
    Some(i)
}

} // verus!
