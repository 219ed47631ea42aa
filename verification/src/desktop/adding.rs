//! Adding a job: from what the user entered, over the question which runtime and language to use,
//! to the queued job.

use vstd::prelude::*;
use super::settings::{PanelView, SettingsPanel};
use crate::bilibili::{an_address_reads_back, page_from, parse_url, video_address, video_in};
use crate::config::{Config, RuntimeDescription, runtime_in_use, selection_of, str_view};
use crate::content_results::target::ContentSetupV1;
use crate::funasr::SUPPORTED_CONTRACT_VERSION;
use crate::jobs::{CreatedFrom, Job, RetentionPolicy, RuntimeSource, SourceLanguage, TranscriptionSelection};
use crate::text::{
    a_joined_part_is_held, ascii_alnum, blank, cat2, cat3, cat5, copy_opt, dec, decimal,
    decimal_reads_back, has, is_blank, join, joined, opt_view, text, trimmed, trimming_keeps_the_rest,
    views, white, white_takes_no_ink,
};

verus! {

// ---- The line for the address ----

/// The line that an address is entered in.
#[derive(Debug)]
pub struct AddPanel {
    pub url: String,
    pub busy: bool,
    pub state: String,
    pub feedback: String,
    pub hint: String,
}

/// The line that an address is entered in.
#[verifier::ext_equal]
pub struct AddView {
    pub url: Seq<char>,
    pub busy: bool,
    pub state: Seq<char>,
    pub feedback: Seq<char>,
    pub hint: Seq<char>,
}

impl View for AddPanel {
    type V = AddView;

    open spec fn view(&self) -> AddView {
        AddView {
            url: self.url@,
            busy: self.busy,
            state: self.state@,
            feedback: self.feedback@,
            hint: self.hint@,
        }
    }
}

/// The user changes the address: what was said of the old one is gone.
pub fn url_edited(add: &mut AddPanel, url: String)
    ensures
        final(add)@ == (AddView { url: url@, state: "idle"@, feedback: ""@, hint: ""@, ..old(add)@ }),
{
    add.url = url;
    add.state = text("idle");
    add.feedback = text("");
    add.hint = text("");
}

// ---- The question ----

/// The question which runtime and which language a new job uses.
#[derive(Debug)]
pub struct ConfirmPanel {
    pub video: String,
    pub runtime_name: String,
    pub runtime_source: String,
    pub runtime_backend: String,
    pub model: String,
    pub recommended: String,
    pub limitations: String,
    pub error: String,
    pub ready: bool,
    pub auto_available: bool,
    pub language: String,
    pub can_create: bool,
    pub visible: bool,
}

/// The question which runtime and which language a new job uses.
#[verifier::ext_equal]
pub struct ConfirmView {
    pub video: Seq<char>,
    pub runtime_name: Seq<char>,
    pub runtime_source: Seq<char>,
    pub runtime_backend: Seq<char>,
    pub model: Seq<char>,
    pub recommended: Seq<char>,
    pub limitations: Seq<char>,
    pub error: Seq<char>,
    pub ready: bool,
    pub auto_available: bool,
    pub language: Seq<char>,
    pub can_create: bool,
    pub visible: bool,
}

impl View for ConfirmPanel {
    type V = ConfirmView;

    open spec fn view(&self) -> ConfirmView {
        ConfirmView {
            video: self.video@,
            runtime_name: self.runtime_name@,
            runtime_source: self.runtime_source@,
            runtime_backend: self.runtime_backend@,
            model: self.model@,
            recommended: self.recommended@,
            limitations: self.limitations@,
            error: self.error@,
            ready: self.ready,
            auto_available: self.auto_available,
            language: self.language@,
            can_create: self.can_create,
            visible: self.visible,
        }
    }
}

/// A job that waits for the answer.
#[derive(Debug)]
pub struct PendingTranscription {
    pub source_url: String,
    pub bvid: String,
    pub page: u32,
    pub runtime: RuntimeDescription,
    pub requested_language: SourceLanguage,
}

/// A video with its part.
pub open spec fn video_words(bvid: Seq<char>, page: u32) -> Seq<char> {
    bvid + " · P"@ + dec(page as nat)
}

fn write_video(bvid: &str, page: u32) -> (r: String)
    ensures
        r@ == video_words(bvid@, page),
{
    let n = decimal(page as u64);
    cat3(bvid, " · P", n.as_str())
}

/// The question where no runtime can be used: it can only be closed.
pub open spec fn unavailable(bvid: Seq<char>, page: u32, error: Seq<char>) -> ConfirmView {
    ConfirmView {
        video: video_words(bvid, page),
        runtime_name: "未提供"@,
        runtime_source: "未提供"@,
        runtime_backend: "未提供"@,
        model: "未提供"@,
        recommended: "未提供"@,
        limitations: "未提供"@,
        error,
        ready: false,
        auto_available: false,
        language: SourceLanguage::Zh.code(),
        can_create: false,
        visible: true,
    }
}

/// Shows the question where no runtime can be used.
pub fn show_unavailable_confirmation(
    confirm: &mut ConfirmPanel,
    pending: &mut Option<PendingTranscription>,
    bvid: &str,
    page: u32,
    error: &str,
)
    ensures
        final(confirm)@ == unavailable(bvid@, page, error@),
        *final(pending) is None,
{
    *pending = None;
    confirm.video = write_video(bvid, page);
    confirm.runtime_name = text("未提供");
    confirm.runtime_source = text("未提供");
    confirm.runtime_backend = text("未提供");
    confirm.model = text("未提供");
    confirm.recommended = text("未提供");
    confirm.limitations = text("未提供");
    confirm.error = text(error);
    confirm.ready = false;
    confirm.auto_available = false;
    confirm.language = text(SourceLanguage::Zh.as_str());
    confirm.can_create = false;
    confirm.visible = true;
}

/// A runtime that a new job can use: it is ready, and speaks the contract in use.
pub open spec fn usable(d: RuntimeDescription) -> bool {
    d.ready && d.contract_version == SUPPORTED_CONTRACT_VERSION
}

fn is_usable(d: &RuntimeDescription) -> (b: bool)
    ensures
        b == usable(*d),
{
    d.ready && d.contract_version == SUPPORTED_CONTRACT_VERSION
}

/// Why a runtime cannot be used, or nothing.
pub open spec fn runtime_words(d: RuntimeDescription) -> Seq<char> {
    if d.contract_version != SUPPORTED_CONTRACT_VERSION {
        "当前 Runtime contract v"@ + dec(d.contract_version as nat) + " 需要升级到 v"@ + dec(
            SUPPORTED_CONTRACT_VERSION as nat,
        ) + "，暂不能创建新任务。"@
    } else if !d.ready {
        "Runtime 未就绪，请打开设置完成安装或验证。"@
    } else {
        ""@
    }
}

fn write_runtime_words(d: &RuntimeDescription) -> (r: String)
    ensures
        r@ == runtime_words(*d),
{
    if d.contract_version != SUPPORTED_CONTRACT_VERSION {
        let a = decimal(d.contract_version as u64);
        let b = decimal(SUPPORTED_CONTRACT_VERSION as u64);
        cat5("当前 Runtime contract v", a.as_str(), " 需要升级到 v", b.as_str(), "，暂不能创建新任务。")
    } else if !d.ready {
        text("Runtime 未就绪，请打开设置完成安装或验证。")
    } else {
        text("")
    }
}

/// The names of languages.
pub open spec fn language_words(languages: Seq<SourceLanguage>) -> Seq<Seq<char>> {
    languages.map_values(|l: SourceLanguage| l.label_text())
}

fn write_languages(languages: &Vec<SourceLanguage>) -> (r: String)
    ensures
        r@ == joined(language_words(languages@), "、"@),
{
    let mut names: Vec<String> = Vec::new();
    let mut i: usize = 0;
    while i < languages.len()
        invariant
            i <= languages@.len(),
            names@.len() == i,
            forall|j: int| 0 <= j < i ==> (#[trigger] names@[j])@ == languages@[j].label_text(),
        decreases languages@.len() - i,
    {
        names.push(text(languages[i].label()));
        i += 1;
    }
    assert(views(names@) =~= language_words(languages@));
    join(&names, "、")
}

/// The question about a job that waits for the answer.
pub open spec fn question(p: PendingTranscription) -> ConfirmView {
    let d = p.runtime;
    ConfirmView {
        video: video_words(p.bvid@, p.page),
        runtime_name: match d.display_name {
            Some(n) => n@,
            None => d.source.label_text(),
        },
        runtime_source: d.source.wire_text(),
        runtime_backend: d.backend.wire_text(),
        model: match d.model_description {
            Some(m) => m@,
            None => "未提供"@,
        },
        recommended: if d.recommended_languages@.len() == 0 {
            "未提供"@
        } else {
            joined(language_words(d.recommended_languages@), "、"@)
        },
        limitations: if d.known_limitations@.len() == 0 {
            "未提供"@
        } else {
            joined(views(d.known_limitations@), "；"@)
        },
        error: runtime_words(d),
        ready: usable(d),
        auto_available: d.auto_detection == Some(true),
        language: p.requested_language.code(),
        can_create: usable(d),
        visible: true,
    }
}

fn or_unnamed(o: &Option<String>, other: &str) -> (r: String)
    ensures
        r@ == (match *o {
            Some(s) => s@,
            None => other@,
        }),
{
    match o {
        Some(s) => s.clone(),
        None => text(other),
    }
}

fn can_detect(d: &RuntimeDescription) -> (b: bool)
    ensures
        b == (d.auto_detection == Some(true)),
{
    match d.auto_detection {
        Some(b) => b,
        None => false,
    }
}

/// Shows the question about the job that waits for the answer.
pub fn refresh_pending_runtime(confirm: &mut ConfirmPanel, pending: &Option<PendingTranscription>)
    ensures
        final(confirm)@ == (match *pending {
            Some(p) => question(p),
            None => old(confirm)@,
        }),
{
    if let Some(p) = pending {
        let d = &p.runtime;
        confirm.video = write_video(p.bvid.as_str(), p.page);
        confirm.runtime_name = or_unnamed(&d.display_name, d.source.label());
        confirm.runtime_source = text(d.source.as_str());
        confirm.runtime_backend = text(d.backend.as_str());
        confirm.model = or_unnamed(&d.model_description, "未提供");
        confirm.recommended = if d.recommended_languages.len() == 0 {
            text("未提供")
        } else {
            write_languages(&d.recommended_languages)
        };
        confirm.limitations = if d.known_limitations.len() == 0 {
            text("未提供")
        } else {
            join(&d.known_limitations, "；")
        };
        confirm.error = write_runtime_words(d);
        confirm.ready = is_usable(d);
        confirm.auto_available = can_detect(d);
        confirm.language = text(p.requested_language.as_str());
        confirm.can_create = is_usable(d);
        confirm.visible = true;
    }
}

/// A language that a runtime can be asked for: finding it out is left to a runtime that says that
/// it can.
pub open spec fn allowed_language(language: SourceLanguage, d: RuntimeDescription) -> SourceLanguage {
    if language is Auto && d.auto_detection != Some(true) {
        SourceLanguage::Zh
    } else {
        language
    }
}

fn allow_language(language: SourceLanguage, d: &RuntimeDescription) -> (r: SourceLanguage)
    ensures
        r == allowed_language(language, *d),
{
    if language == SourceLanguage::Auto && !can_detect(d) {
        SourceLanguage::Zh
    } else {
        language
    }
}

/// What adding a job does next.
#[derive(Debug)]
pub enum AddStep {
    Nothing,
    /// The runtime is asked to describe itself.
    Describe { bvid: String, page: u32, project: String, source: RuntimeSource },
}

/// The part that an address names, or the first.
pub open spec fn page_in(url: Seq<char>) -> int {
    match page_from(trimmed(url), 0) {
        Some(p) => p,
        None => 1,
    }
}

/// Begins to add the video that was entered.
pub fn prepare_add_job(
    add: &mut AddPanel,
    confirm: &mut ConfirmPanel,
    pending: &mut Option<PendingTranscription>,
    config: &Config,
    bundled: Option<&str>,
) -> (r: AddStep)
    ensures
        ({
            let url = old(add)@.url;
            if old(add).busy || old(confirm).visible || blank(url) {
                r is Nothing && final(add)@ == old(add)@ && final(confirm)@ == old(confirm)@ && *final(pending) == *old(
                    pending,
                )
            } else {
                match video_in(url) {
                    None => {
                        &&& r is Nothing
                        &&& final(confirm)@ == old(confirm)@ && *final(pending) == *old(pending)
                        &&& final(add)@ == (AddView {
                            state: "error"@,
                            feedback: "无法添加："@ + ("not a recognizable Bilibili URL or BV id: "@ + trimmed(url)),
                            ..old(add)@
                        })
                    },
                    Some(bvid) => final(add)@ == old(add)@ && (match runtime_in_use(
                        config.runtime_project,
                        str_view(bundled),
                    ) {
                        None => r is Nothing && *final(pending) is None && final(confirm)@ == unavailable(
                            bvid,
                            page_in(url) as u32,
                            "未配置 Runtime，请打开设置选择并验证 Runtime。"@,
                        ),
                        Some(project) => {
                            &&& final(confirm)@ == old(confirm)@ && *final(pending) == *old(pending)
                            &&& r matches AddStep::Describe { bvid: b, page: p, project: q, source: s }
                            &&& b@ == bvid && p == page_in(url) && q@ == project && s == (
                            if config.runtime_project is Some {
                                RuntimeSource::External
                            } else {
                                RuntimeSource::Bundled
                            })
                        },
                    }),
                }
            }
        }),
{
    if add.busy || confirm.visible || is_blank(add.url.as_str()) {
        return AddStep::Nothing;
    }
    let parsed = match parse_url(add.url.as_str()) {
        Ok(p) => p,
        Err(e) => {
            let why = e.describe();
            add.state = text("error");
            add.feedback = cat2("无法添加：", why.as_str());
            return AddStep::Nothing;
        },
    };
    let page: u32 = match parsed.page {
        Some(p) => p,
        None => 1,
    };
    match config.effective_runtime_project(bundled) {
        None => {
            show_unavailable_confirmation(
                confirm,
                pending,
                parsed.bvid.as_str(),
                page,
                "未配置 Runtime，请打开设置选择并验证 Runtime。",
            );
            AddStep::Nothing
        },
        Some(project) => AddStep::Describe { bvid: parsed.bvid, page, project, source: config.runtime_source() },
    }
}

/// The job that waits for the answer, once its runtime has described itself.
pub open spec fn waits(
    p: PendingTranscription,
    url: Seq<char>,
    bvid: Seq<char>,
    page: u32,
    d: RuntimeDescription,
    config: Config,
) -> bool {
    let latest = match config.last_transcription_selection {
        Some(s) if s.runtime_identity@ == d.identity@ => s.requested_language,
        _ => SourceLanguage::Zh,
    };
    p.source_url@ == url && p.bvid@ == bvid && p.page == page && p.runtime == d && p.requested_language
        == allowed_language(latest, d)
}

/// Goes on after the runtime has described itself, or could not. A job starts with the language
/// of the latest one with the same runtime.
pub fn runtime_described(
    confirm: &mut ConfirmPanel,
    pending: &mut Option<PendingTranscription>,
    config: &Config,
    url: &str,
    bvid: &str,
    page: u32,
    described: Result<RuntimeDescription, String>,
)
    ensures
        match described {
            Err(e) => *final(pending) is None && final(confirm)@ == unavailable(
                bvid@,
                page,
                "无法读取 Runtime："@ + e@,
            ),
            Ok(d) => (*final(pending) matches Some(p) && waits(p, url@, bvid@, page, d, *config) && final(confirm)@
                == question(p)),
        },
{
    match described {
        Err(e) => {
            let why = cat2("无法读取 Runtime：", e.as_str());
            show_unavailable_confirmation(confirm, pending, bvid, page, why.as_str());
        },
        Ok(d) => {
            let latest = config.app_default_language(d.identity.as_str());
            let requested_language = allow_language(latest, &d);
            *pending = Some(
                PendingTranscription {
                    source_url: text(url),
                    bvid: text(bvid),
                    page,
                    runtime: d,
                    requested_language,
                },
            );
            refresh_pending_runtime(confirm, pending);
        },
    }
}

/// The user chooses a language; an unknown word changes nothing.
pub fn update_pending_language(confirm: &mut ConfirmPanel, pending: &mut Option<PendingTranscription>, value: &str)
    ensures
        match SourceLanguage::of_code(value@) {
            None => final(confirm)@ == old(confirm)@ && *final(pending) == *old(pending),
            Some(l) => match *old(pending) {
                None => *final(pending) is None && final(confirm)@ == old(confirm)@,
                Some(p) => ({
                    let q = PendingTranscription { requested_language: allowed_language(l, p.runtime), ..p };
                    *final(pending) == Some(q) && final(confirm)@ == question(q)
                }),
            },
        },
{
    let language = match SourceLanguage::parse(value) {
        Some(l) => l,
        None => {
            return;
        },
    };
    let taken = pending.take();
    if let Some(p) = taken {
        let requested_language = allow_language(language, &p.runtime);
        *pending = Some(
            PendingTranscription {
                source_url: p.source_url,
                bvid: p.bvid,
                page: p.page,
                runtime: p.runtime,
                requested_language,
            },
        );
        refresh_pending_runtime(confirm, pending);
    }
}

/// The user closes the question: nothing is added.
pub fn cancel_pending_job(confirm: &mut ConfirmPanel, pending: &mut Option<PendingTranscription>)
    ensures
        *final(pending) is None,
        final(confirm)@ == (ConfirmView { visible: false, error: ""@, ..old(confirm)@ }),
{
    *pending = None;
    confirm.visible = false;
    confirm.error = text("");
}

/// The user goes from the question to the settings: nothing is added.
pub fn open_settings_from_confirmation(
    confirm: &mut ConfirmPanel,
    pending: &mut Option<PendingTranscription>,
    settings: &mut SettingsPanel,
)
    ensures
        *final(pending) is None,
        final(confirm)@ == (ConfirmView { visible: false, ..old(confirm)@ }),
        final(settings)@ == (PanelView {
            saving: false,
            feedback: ""@,
            error_field: ""@,
            error_message: ""@,
            visible: true,
        }),
{
    *pending = None;
    confirm.visible = false;
    settings.open();
}

// ---- The answer ----

/// A new job: queued, and frozen with its selection, its retention and its setup.
pub open spec fn created(
    j: Job,
    id: u128,
    p: PendingTranscription,
    selection: TranscriptionSelection,
    retention: RetentionPolicy,
    setup: ContentSetupV1,
) -> bool {
    &&& j.id == id && j.bvid@ == p.bvid@ && j.title@ == p.bvid@ && j.page == p.page
    &&& opt_view(j.source_url) == Some(p.source_url@)
    &&& j.untouched()
    &&& j.transcription_selection == Some(selection) && selection_of(
        selection,
        p.runtime,
        p.requested_language,
        CreatedFrom::App,
    )
    &&& j.retention == retention
    &&& j.content_setup == Some(setup)
}

fn make_job(
    id: u128,
    p: &PendingTranscription,
    selection: TranscriptionSelection,
    retention: RetentionPolicy,
    setup: ContentSetupV1,
) -> (j: Job)
    requires
        selection_of(selection, p.runtime, p.requested_language, CreatedFrom::App),
    ensures
        created(j, id, *p, selection, retention, setup),
{
    let mut job = Job::new(id, p.bvid.clone(), p.page);
    job.source_url = Some(p.source_url.clone());
    job.transcription_selection = Some(selection);
    job.retention = retention;
    job.content_setup = Some(setup);
    job
}

/// The user confirms: the new job is at the end of the queue, and the queue is to be saved. A
/// runtime that cannot be used only shows the question again. `checked` is what the check of the
/// selection says.
pub fn confirm_pending_job(
    confirm: &mut ConfirmPanel,
    pending: &Option<PendingTranscription>,
    jobs: &mut Vec<Job>,
    config: &Config,
    id: u128,
    checked: Result<(), String>,
) -> (r: Option<TranscriptionSelection>)
    ensures
        match *pending {
            None => r is None && final(confirm)@ == old(confirm)@ && final(jobs)@ == old(jobs)@,
            Some(p) => if !usable(p.runtime) {
                r is None && final(confirm)@ == question(p) && final(jobs)@ == old(jobs)@
            } else if checked is Err {
                r is None && final(jobs)@ == old(jobs)@ && final(confirm)@ == (ConfirmView {
                    error: "无法创建任务："@ + (checked->Err_0)@,
                    ..old(confirm)@
                })
            } else {
                &&& final(confirm)@ == old(confirm)@
                &&& final(jobs)@.len() == old(jobs)@.len() + 1
                &&& final(jobs)@.drop_last() == old(jobs)@
                &&& exists|setup: ContentSetupV1| #[trigger]
                    crate::config::resolves(*config, setup) && created(
                        final(jobs)@.last(),
                        id,
                        p,
                        final(jobs)@.last().transcription_selection->0,
                        config.default_retention,
                        setup,
                    )
                &&& r == final(jobs)@.last().transcription_selection
            },
        },
{
    let p = match pending {
        Some(p) => p,
        None => {
            return None;
        },
    };
    if !is_usable(&p.runtime) {
        refresh_pending_runtime(confirm, pending);
        return None;
    }
    if let Err(e) = checked {
        confirm.error = cat2("无法创建任务：", e.as_str());
        return None;
    }
    let d = &p.runtime;
    let selection = TranscriptionSelection {
        runtime_source: d.source,
        runtime_project: d.project.clone(),
        runtime_data_dir: d.data_dir.clone(),
        runtime_identity: d.identity.clone(),
        runtime_backend: d.backend,
        model_description: copy_opt(&d.model_description),
        requested_language: p.requested_language,
        created_from: CreatedFrom::App,
    };
    let kept = selection.clone();
    let setup = config.content_setup();
    let ghost before = jobs@;
    let job = make_job(id, p, selection, config.default_retention, setup);
    jobs.push(job);
    assert(jobs@.drop_last() =~= before);
    Some(kept)
}

/// Goes on after the queue was saved. Where that failed, the new job is taken out again, and the
/// question stays.
pub fn new_job_saved(
    confirm: &mut ConfirmPanel,
    pending: &mut Option<PendingTranscription>,
    add: &mut AddPanel,
    jobs: &mut Vec<Job>,
    saved: Result<(), String>,
) -> (go: bool)
    requires
        old(jobs)@.len() > 0,
    ensures
        match saved {
            Err(e) => {
                &&& !go
                &&& final(jobs)@ == old(jobs)@.drop_last()
                &&& *final(pending) == *old(pending) && final(add)@ == old(add)@
                &&& final(confirm)@ == (ConfirmView { error: "无法保存任务："@ + e@, ..old(confirm)@ })
            },
            Ok(_) => {
                &&& go
                &&& final(jobs)@ == old(jobs)@
                &&& *final(pending) is None
                &&& final(confirm)@ == (ConfirmView { visible: false, ..old(confirm)@ })
                &&& final(add)@ == (AddView {
                    url: ""@,
                    busy: false,
                    state: "success"@,
                    feedback: "已创建任务"@,
                    ..old(add)@
                })
            },
        },
{
    match saved {
        Err(e) => {
            let _taken_out = jobs.pop();
            confirm.error = cat2("无法保存任务：", e.as_str());
            false
        },
        Ok(_) => {
            *pending = None;
            confirm.visible = false;
            add.url = text("");
            add.busy = false;
            add.state = text("success");
            add.feedback = text("已创建任务");
            true
        },
    }
}

/// Makes the selection of a job that was created the latest one in the settings; the next job with
/// the same runtime starts with its language.
pub fn remember_selection(config: &mut Config, selection: TranscriptionSelection)
    ensures
        *final(config) == (Config { last_transcription_selection: Some(selection), ..*old(config) }),
{
    config.last_transcription_selection = Some(selection);
}

/// A video is added with the part that its address names: the address of a part leads to that
/// part, and one that names none to the first.
pub proof fn an_address_leads_to_its_part(code: Seq<char>, page: u32, at_ms: Option<u64>)
    requires
        code.len() == 9,
        forall|k: int| 0 <= k < 9 ==> ascii_alnum(#[trigger] code[k]),
        page >= 1,
    ensures
        video_in(video_address("BV1"@ + code, page, at_ms)) == Some("BV1"@ + code),
        page_in(video_address("BV1"@ + code, page, at_ms)) == page,
{
    an_address_reads_back(code, page, at_ms);
    let u = video_address("BV1"@ + code, page, at_ms);
    an_address_has_no_white_ends(code, page, at_ms);
    trimming_keeps_the_rest(u);
}

proof fn an_address_has_no_white_ends(code: Seq<char>, page: u32, at_ms: Option<u64>)
    requires
        code.len() == 9,
        forall|k: int| 0 <= k < 9 ==> ascii_alnum(#[trigger] code[k]),
    ensures
        ({
            let u = video_address("BV1"@ + code, page, at_ms);
            u.len() > 0 && !white(u[0]) && !white(u.last())
        }),
{
    reveal_strlit("https://www.bilibili.com/video/");
    reveal_strlit("BV1");
    let home = "https://www.bilibili.com/video/"@;
    let u = video_address("BV1"@ + code, page, at_ms);
    assert(u[0] == home[0]);
    assert(ascii_alnum(code[8]));
    let last = match at_ms {
        Some(ms) => dec((ms / 1000) as nat),
        None => if page > 1 {
            dec(page as nat)
        } else {
            code
        },
    };
    decimal_reads_back(page as nat);
    if at_ms is Some {
        decimal_reads_back((at_ms->0 / 1000) as nat);
    }
    assert(u.last() == last.last());
    assert(ascii_alnum(last.last()));
    white_takes_no_ink(u[0]);
    white_takes_no_ink(u.last());
}

/// A language is detected only by a runtime that can; a language that was named is used as it was
/// named. Allowing it once more changes nothing.
pub proof fn only_a_runtime_that_can_detects(language: SourceLanguage, d: RuntimeDescription)
    ensures
        allowed_language(language, d) is Auto ==> d.auto_detection == Some(true),
        d.auto_detection == Some(true) ==> allowed_language(language, d) == language,
        !(language is Auto) ==> allowed_language(language, d) == language,
        allowed_language(allowed_language(language, d), d) == allowed_language(language, d),
{
}

/// A job can be created where nothing is said against the runtime, and only there: the runtime is
/// ready and speaks the contract's second version.
pub proof fn nothing_is_said_of_a_usable_runtime(p: PendingTranscription)
    ensures
        question(p).can_create <==> p.runtime.ready && p.runtime.contract_version == 2,
        question(p).can_create <==> question(p).error.len() == 0,
        question(p).visible,
        question(p).language == p.requested_language.code(),
{
    reveal_strlit("");
    reveal_strlit("当前 Runtime contract v");
    reveal_strlit("Runtime 未就绪，请打开设置完成安装或验证。");
}

/// The languages that a runtime is good for are all shown, one after another.
pub proof fn every_language_is_shown(languages: Seq<SourceLanguage>, i: int)
    requires
        0 <= i < languages.len(),
    ensures
        has(joined(language_words(languages), "、"@), languages[i].label_text()),
{
    let w = language_words(languages);
    assert(w[i] == languages[i].label_text());
    a_joined_part_is_held(w, "、"@, i);
}

} // verus!
