use bi2read::config::{absolute_existing_directory, Config, RuntimeDescription};
use bi2read::content_results::current::{current, ContentViewV1, StoredCurrent};
use bi2read::content_results::error::ContentError;
use bi2read::content_results::evidence::{expected_context, validate_evidence};
use bi2read::content_results::execute::{start_initial, InitialStep};
use bi2read::content_results::kinds::{ArtifactKindV1, RegenerableKind};
use bi2read::content_results::record::UtcTime;
use bi2read::content_results::target::{
    ContentSetupV1, GenerationApiFormatV1, GenerationParametersV1, GenerationProviderV1, ReadyGenerationTargetV1,
    TargetUnavailableCodeV1, TargetUnavailableV1,
};
use bi2read::desktop::actions::{
    cancel_history_action, cancel_selected, clear_job_detail, content_message_lost, history_message_sent,
    leave_result, rebuild_selected,
    refresh_selected_detail, regenerate_selected, repair_selected_content, retry_selected, retry_sent, select_job,
    set_speaker_name, speaker_name_saved, view_result, CancelPlan, HistoryConfirmation, HistoryDialog, SpeakerBar,
};
use bi2read::desktop::adding::{
    cancel_pending_job, confirm_pending_job, new_job_saved, open_settings_from_confirmation, prepare_add_job,
    remember_selection, runtime_described,
    update_pending_language, url_edited, AddPanel, AddStep, ConfirmPanel, PendingTranscription,
};
use bi2read::desktop::busy::ContentBusy;
use bi2read::desktop::controller::{
    document_found, documents_presented, end_opening, external_url_opened, open_external_url, open_selected_md,
    open_selected_raw, raw_ready, reveal_selected, ActionBar, OpenStep, Opened, RawStep,
};
use bi2read::desktop::detail::{
    job_to_row, show_job_detail, speaker_entries, JobCapabilities, JobRow, JobViewSnapshot, MachineFacts,
};
use bi2read::desktop::operations::{
    accept_regenerate, accept_repair, cancel_job, cancellation_feedback, legacy_documents, plan_speaker_rebuild,
    start_speaker_rebuild, CancellationTransition, SpeakerRebuild,
};
use bi2read::desktop::settings::SettingsPanel;
use bi2read::desktop::startup::{default_directory, fixture_screen};
use bi2read::desktop::worker::{
    clear_saved, delete_feedback, retry_feedback, retry_saved, DrainOutcome, Feedback, WorkMsg,
};
use bi2read::document::render_raw_markdown;
use bi2read::funasr::{RuntimeBackend, Utterance, SUPPORTED_CONTRACT_VERSION};
use bi2read::jobs::{Job, JobStatus, RetentionPolicy, RuntimeSource, SourceLanguage};
use bi2read::paths::AppPaths;

const NOW: UtcTime = UtcTime { seconds: 1_700_000_000, nanoseconds: 0 };

type View = Result<ContentViewV1, ContentError>;

fn new_id() -> u128 {
    uuid::Uuid::new_v4().as_u128()
}

fn utterances() -> Vec<Utterance> {
    vec![
        Utterance { id: "u0001".into(), text: "第一句话。".into(), start_ms: 0, end_ms: 1500, speaker_id: 1 },
        Utterance { id: "u0002".into(), text: "第二句话。".into(), start_ms: 1500, end_ms: 3000, speaker_id: 2 },
    ]
}

/// A finished job with its transcript, and the view of it without a result.
fn finished() -> Job {
    let mut job = Job::new(new_id(), "BV1abcdefgh".into(), 1);
    job.status = JobStatus::Completed;
    job.content_setup = Some(ContentSetupV1::disabled());
    job.work_dir = Some("/jobs/one".into());
    job.up_name = Some("up".into());
    job.cid = Some(1);
    job.duration_ms = Some(3000);
    job
}

fn raw_only(job: &Job) -> View {
    let evidence = validate_evidence(job, b"transcript", utterances());
    current(job, evidence, &expected_context(job), StoredCurrent::Missing)
}

fn complete(job: &Job) -> View {
    let evidence = validate_evidence(job, b"transcript", utterances()).unwrap();
    let context = expected_context(job);
    let setup = ContentSetupV1::disabled();
    let (run, step) = start_initial(None, job.id, &setup, &evidence, &context, false, NOW).unwrap();
    assert!(!matches!(step, InitialStep::Ask(_)));
    current(job, Ok(evidence), &context, StoredCurrent::Parsed(run.current))
}

fn broken() -> View {
    Err(ContentError::Io("gone".into()))
}

fn target() -> ReadyGenerationTargetV1 {
    ReadyGenerationTargetV1 {
        provider: GenerationProviderV1::OpenAiCompatible,
        api_format: GenerationApiFormatV1::OpenAiChatCompletions,
        endpoint: "http://127.0.0.1:1234".into(),
        model: "model".into(),
        parameters: GenerationParametersV1::openai_default(),
    }
}

fn said(bar: &ActionBar) -> (&str, bool, bool) {
    (bar.feedback.as_str(), bar.error, bar.pending)
}

// ---- Opening ----

#[test]
fn a_document_is_written_before_it_is_opened() {
    let job = finished();
    let id = job.id;
    let view = complete(&job);
    assert!(matches!(view, Ok(ContentViewV1::Current(_))));
    let mut jobs = vec![job];
    let mut bar = ActionBar::new();
    let mut busy = ContentBusy::new();
    let step = open_selected_md(&mut bar, &mut busy, &jobs, Some(id), &view);
    assert!(matches!(step, OpenStep::Present { place: 0 }));
    assert_eq!(busy.holder(), Some(id));
    let path = documents_presented(&mut bar, &mut busy, &mut jobs, id, Ok("/out/one".into()), Ok(()));
    assert_eq!(path.as_deref(), Some("/out/one/full.md"));
    assert_eq!(jobs[0].final_output_dir.as_deref(), Some("/out/one"));
    bar.begin("", "正在打开 Markdown…");
    end_opening(&mut bar, &mut busy, id, Opened::Markdown, Ok(()));
    assert_eq!(said(&bar), ("已请求打开 Markdown", false, false));
    assert_eq!(busy.holder(), None);
}

#[test]
fn a_document_that_cannot_be_opened_leaves_the_reservation() {
    let job = finished();
    let id = job.id;
    let raw = raw_only(&job);
    let jobs = vec![job];
    let mut bar = ActionBar::new();
    let mut busy = ContentBusy::new();
    for (view, words) in [
        (raw, "打开失败：可信文字结果尚未生成，请先修复".to_string()),
        (Ok(ContentViewV1::Legacy), "打开失败：任务内容标记无效".to_string()),
    ] {
        let step = open_selected_md(&mut bar, &mut busy, &jobs, Some(id), &view);
        assert!(matches!(step, OpenStep::Nothing));
        assert_eq!(said(&bar), (words.as_str(), true, false));
        assert_eq!(busy.holder(), None);
    }
    open_selected_md(&mut bar, &mut busy, &jobs, Some(id), &broken());
    assert!(bar.feedback.starts_with("打开失败：") && bar.feedback.contains("gone"));

    busy.reserve_content_operation(7);
    open_selected_md(&mut bar, &mut busy, &jobs, Some(id), &broken());
    assert_eq!(said(&bar), ("文字结果正在处理中，请稍候", true, false));
    assert_eq!(busy.holder(), Some(7));
    busy.clear_content_operation(7);

    let mut running = jobs;
    running[0].status = JobStatus::Running;
    open_selected_md(&mut bar, &mut busy, &running, Some(id), &broken());
    assert_eq!(said(&bar), ("打开失败：任务尚未进入终态", true, false));

    busy.reserve_content_operation(id);
    let none = documents_presented(&mut bar, &mut busy, &mut running, id, Err("full".into()), Ok(()));
    assert_eq!(none, None);
    assert_eq!(said(&bar), ("打开失败：full", true, false));
    assert_eq!(busy.holder(), None);
}

#[test]
fn an_old_document_is_looked_for_in_both_places() {
    let mut job = finished();
    job.content_setup = None;
    job.final_output_dir = Some("/out/one".into());
    let id = job.id;
    let jobs = vec![job];
    let mut bar = ActionBar::new();
    let mut busy = ContentBusy::new();
    match open_selected_md(&mut bar, &mut busy, &jobs, Some(id), &broken()) {
        OpenStep::Look { paths } => assert_eq!(paths, ["/out/one/full.md", "/jobs/one/full.md"]),
        other => panic!("{other:?}"),
    }
    document_found(&mut bar, true);
    assert_eq!(said(&bar), ("", false, false));
    document_found(&mut bar, false);
    assert_eq!(said(&bar), ("打开失败：Markdown 尚未生成", true, false));
}

#[test]
fn the_raw_transcript_is_written_from_the_evidence() {
    let job = finished();
    let id = job.id;
    let view = raw_only(&job);
    let expected = render_raw_markdown(&job, &utterances());
    let mut jobs = vec![job];
    let mut bar = ActionBar::new();
    let mut busy = ContentBusy::new();
    match open_selected_raw(&mut bar, &mut busy, &jobs, Some(id), &view) {
        RawStep::Write { path, what } => {
            assert_eq!(path, "/jobs/one/transcript.raw.md");
            assert_eq!(what, expected);
        }
        other => panic!("{other:?}"),
    }
    assert_eq!(busy.holder(), Some(id));
    assert!(raw_ready(&mut bar, &mut busy, id, Ok(true)));
    assert!(!raw_ready(&mut bar, &mut busy, id, Err("full".into())));
    assert_eq!(said(&bar), ("打开失败：full", true, false));
    assert_eq!(busy.holder(), None);

    jobs[0].work_dir = None;
    assert!(matches!(open_selected_raw(&mut bar, &mut busy, &jobs, Some(id), &view), RawStep::Nothing));
    assert_eq!(said(&bar), ("打开失败：任务目录尚未生成", true, false));
    jobs[0].content_setup = None;
    open_selected_raw(&mut bar, &mut busy, &jobs, Some(id), &view);
    assert_eq!(said(&bar), ("打开失败：原始稿尚未生成", true, false));
}

#[test]
fn only_video_addresses_are_opened() {
    let mut bar = ActionBar::new();
    assert!(open_external_url(&mut bar, "https://www.bilibili.com/video/BV1abcdefgh?t=3"));
    external_url_opened(&mut bar, Ok(()));
    assert_eq!(said(&bar), ("已在浏览器中打开来源", false, false));
    assert!(!open_external_url(&mut bar, "https://example.com/video/"));
    assert_eq!(said(&bar), ("打开失败：来源链接无效", true, false));
    external_url_opened(&mut bar, Err("no browser".into()));
    assert_eq!(said(&bar), ("打开来源失败：no browser", true, false));
}

#[test]
fn the_directory_of_a_job_is_shown() {
    let mut jobs = vec![finished()];
    let id = jobs[0].id;
    let mut bar = ActionBar::new();
    assert_eq!(reveal_selected(&mut bar, &jobs, Some(id), false), None);
    assert_eq!(said(&bar), ("显示失败：任务目录不存在", true, false));
    assert_eq!(reveal_selected(&mut bar, &jobs, Some(id), true), Some(0));
    assert_eq!(said(&bar), ("正在定位任务目录…", false, true));
    assert_eq!(reveal_selected(&mut bar, &jobs, Some(id), true), None);
    bar.content_feedback(Feedback { text: "x".into(), error: false });
    jobs[0].work_dir = None;
    assert_eq!(reveal_selected(&mut bar, &jobs, Some(id), true), None);
    assert_eq!(said(&bar), ("显示失败：任务目录尚未生成", true, false));
}

#[test]
fn a_new_record_has_passed_its_checks_without_a_word() {
    let job = finished();
    let Ok(ContentViewV1::Current(snapshot)) = complete(&job) else { panic!("no result") };
    let record = snapshot.current.slots.faithful_text.current.unwrap();
    let checks: Vec<&str> = record.validation.checks.iter().map(|check| check.name.as_str()).collect();
    assert_eq!(checks, ["schema", "processing_coverage", "source_refs", "faithful_alignment"]);
    assert!(record.validation.checks.iter().all(|check| check.passed && check.message.is_none()));
}

// ---- Names ----

#[test]
fn a_speaker_gets_a_name_that_is_saved() {
    let job = finished();
    let id = job.id;
    let (view, raw) = (complete(&job), raw_only(&job));
    let mut jobs = vec![job];
    let mut bar = SpeakerBar { feedback: String::new(), error: false };
    let mut rows = speaker_entries(&jobs[0], Some(&utterances()));
    let mut busy = ContentBusy::new();
    assert_eq!(set_speaker_name(&mut bar, &mut rows, &busy, &mut jobs, None, &view, 1, "甲".into()), None);
    assert_eq!((bar.feedback.as_str(), bar.error), ("保存失败：未选择任务", true));
    assert_eq!(set_speaker_name(&mut bar, &mut rows, &busy, &mut jobs, Some(9), &view, 1, "甲".into()), None);
    assert_eq!(bar.feedback, "保存失败：任务不存在");
    assert_eq!(set_speaker_name(&mut bar, &mut rows, &busy, &mut jobs, Some(id), &raw, 1, "甲".into()), None);
    assert_eq!(bar.feedback, "请先修复文字结果，再编辑说话人");
    busy.reserve_content_operation(id);
    assert_eq!(set_speaker_name(&mut bar, &mut rows, &busy, &mut jobs, Some(id), &view, 1, "甲".into()), None);
    assert_eq!(bar.feedback, "文字结果正在处理中，请稍候");
    busy.clear_content_operation(id);
    assert_eq!(jobs[0].speaker_name(1), "Speaker 1");
    assert_eq!(set_speaker_name(&mut bar, &mut rows, &busy, &mut jobs, Some(id), &view, 1, "甲".into()), Some(0));
    assert_eq!((bar.feedback.as_str(), bar.error), ("保存中…", false));
    assert_eq!(jobs[0].speaker_name(1), "甲");
    assert_eq!(jobs[0].speaker_name(2), "Speaker 2");
    assert_eq!(rows.iter().map(|row| (row.speaker_id, row.name.as_str())).collect::<Vec<_>>(), [(1, "甲"), (2, "")]);
    assert!(!speaker_name_saved(&mut bar, Err("disk".into()), Ok(())));
    assert_eq!(bar.feedback, "保存失败：保存说话人失败：disk");
    assert!(!speaker_name_saved(&mut bar, Ok(()), Err("disk".into())));
    assert_eq!(bar.feedback, "保存失败：保存队列失败：disk");
    assert!(speaker_name_saved(&mut bar, Ok(()), Ok(())));
    assert_eq!((bar.feedback.as_str(), bar.error), ("已保存", false));
}

#[test]
fn documents_are_written_anew_without_a_transcription() {
    let mut job = finished();
    let (view, raw) = (complete(&job), raw_only(&job));
    let id = job.id;
    assert_eq!(plan_speaker_rebuild(&job, &view, false), Ok(SpeakerRebuild::Present));
    assert_eq!(plan_speaker_rebuild(&job, &raw, false), Err("当前没有可重建的可信文字结果".into()));
    let mut busy = ContentBusy::new();
    assert_eq!(start_speaker_rebuild(&mut busy, &vec![job.clone()], id), Ok(true));
    assert_eq!(busy.holder(), Some(id));
    assert!(start_speaker_rebuild(&mut busy, &vec![job.clone()], id).is_err());
    job.status = JobStatus::Running;
    assert_eq!(plan_speaker_rebuild(&job, &view, false), Err("v0.5 任务尚未进入终态".into()));
    job.content_setup = None;
    assert_eq!(start_speaker_rebuild(&mut busy, &vec![job.clone()], id), Ok(false));
    assert_eq!(plan_speaker_rebuild(&job, &view, false), Err("原始转写尚未生成".into()));
    assert_eq!(plan_speaker_rebuild(&job, &view, true), Ok(SpeakerRebuild::Legacy));
    job.final_output_dir = Some("/out/one".into());
    job.speaker_map.insert(1, "甲".into());
    let written = legacy_documents(&job, &utterances(), Some("正文"), true);
    assert_eq!(written.raw_path, "/jobs/one/transcript.raw.md");
    assert!(written.raw.contains("[甲]") && written.raw.contains("[Speaker 2]"));
    assert_eq!(written.full_path, "/jobs/one/full.md");
    assert!(written.full.contains("正文") && written.full.contains("原始稿本地路径: /jobs/one/transcript.raw.md"));
    assert_eq!(written.output_path.as_deref(), Some("/out/one/full.md"));
    assert_eq!(legacy_documents(&job, &utterances(), None, false).output_path, None);
    job.work_dir = None;
    assert_eq!(plan_speaker_rebuild(&job, &view, true), Err("任务没有工作目录".into()));
}

// ---- Cancelling and retrying ----

#[test]
fn cancelling_reaches_the_job_or_the_operation() {
    let mut bar = ActionBar::new();
    let mut busy = ContentBusy::new();
    assert_eq!(cancel_selected(&mut bar, &busy, None), CancelPlan::Nothing);
    busy.reserve_content_operation(4);
    let token = busy.start_content_operation(4).unwrap();
    assert_eq!(cancel_selected(&mut bar, &busy, Some(3)), CancelPlan::Job(3));
    assert!(!token.is_cancelled());
    assert_eq!(said(&bar), ("正在取消任务…", false, true));
    assert_eq!(cancel_selected(&mut bar, &busy, Some(3)), CancelPlan::Nothing);
    assert!(token.is_cancelled());
    assert_eq!(said(&bar), ("正在取消文字结果操作…", false, true));
    for (result, words, error) in [
        (Ok(CancellationTransition::Cooperative), "已发出取消请求", false),
        (Ok(CancellationTransition::Immediate), "已取消", false),
        (Ok(CancellationTransition::AlreadyCancelling), "正在取消", false),
        (Ok(CancellationTransition::Unavailable), "当前任务不可取消", true),
        (Err("disk".to_string()), "取消状态保存失败，请重试：disk", true),
    ] {
        assert_eq!(cancellation_feedback(&result), Feedback { text: words.into(), error });
    }
}

#[test]
fn a_cancellation_is_in_the_queue_only_where_it_was_saved() {
    let job = finished();
    let id = job.id;
    let mut cancelled = job.clone();
    cancelled.status = JobStatus::Cancelled;
    let failed = || Err::<(), String>("disk".to_string());
    let immediate = CancellationTransition::Immediate;
    let mut jobs = vec![job];
    let r = cancel_job(&mut jobs, id, immediate, cancelled.clone(), failed(), Ok(()), Ok(()));
    assert_eq!((r, jobs[0].status), (Err("disk".to_string()), JobStatus::Completed));
    let r = cancel_job(&mut jobs, id, immediate, cancelled.clone(), Ok(()), failed(), failed());
    assert_eq!((r, jobs[0].status), (Err("disk；回滚任务状态失败：disk".to_string()), JobStatus::Completed));
    let r = cancel_job(&mut jobs, 9, immediate, cancelled.clone(), Ok(()), Ok(()), Ok(()));
    assert_eq!(r, Err("任务不存在".to_string()));
    let none = CancellationTransition::Unavailable;
    let r = cancel_job(&mut jobs, id, none, cancelled.clone(), Ok(()), Ok(()), Ok(()));
    assert_eq!((r, jobs[0].status), (Ok(none), JobStatus::Completed));
    let r = cancel_job(&mut jobs, id, immediate, cancelled, Ok(()), Ok(()), Ok(()));
    assert_eq!((r, jobs[0].status), (Ok(immediate), JobStatus::Cancelled));
}

#[test]
fn a_failed_job_is_run_again() {
    let jobs = vec![finished()];
    let id = jobs[0].id;
    let mut bar = ActionBar::new();
    assert!(retry_selected(&mut bar, &jobs, Some(id), false).is_none());
    assert_eq!(said(&bar), ("当前任务不可重试；RawOnly 请使用修复文字结果", true, false));
    assert!(matches!(retry_selected(&mut bar, &jobs, Some(id), true), Some(WorkMsg::Retry(i)) if i == id));
    assert_eq!(said(&bar), ("正在重新排队…", false, true));
    assert!(retry_selected(&mut bar, &jobs, Some(id), true).is_none());
    retry_sent(&mut bar, true, true);
    assert!(bar.pending);
    retry_sent(&mut bar, true, false);
    assert_eq!(said(&bar), ("重试失败：无法唤醒后台任务", true, false));
    retry_sent(&mut bar, false, true);
    assert_eq!(said(&bar), ("重试失败：后台任务已退出", true, false));
    assert_eq!(retry_saved(Ok(()), Ok(())), None);
    assert_eq!(retry_saved(Err("a".into()), Err("b".into())).unwrap().text, "重试状态保存失败，请重试：b");
    assert_eq!(retry_saved(Err("a".into()), Ok(())).unwrap().text, "重试状态保存失败，请重试：a");
    assert_eq!(retry_feedback(DrainOutcome::Ran { job_id: id }).text, "重试已完成");
    assert_eq!(retry_feedback(DrainOutcome::Waiting).text, "已重新排队，等待运行条件");
    assert_eq!(retry_feedback(DrainOutcome::Idle).text, "已重新排队");
}

#[test]
fn a_job_is_created_anew_from_what_was_entered() {
    let mut jobs = vec![finished()];
    let id = jobs[0].id;
    let mut bar = ActionBar::new();
    assert_eq!(rebuild_selected(&mut bar, &jobs, Some(id), false), None);
    assert_eq!(said(&bar), ("当前任务不需要重建", true, false));
    assert_eq!(
        rebuild_selected(&mut bar, &jobs, Some(id), true).as_deref(),
        Some("https://www.bilibili.com/video/BV1abcdefgh")
    );
    jobs[0].source_url = Some("https://b23.tv/x".into());
    assert_eq!(rebuild_selected(&mut bar, &jobs, Some(id), true).as_deref(), Some("https://b23.tv/x"));
    assert_eq!(said(&bar), ("请确认新 Runtime 与语言设置；原任务保持不变", false, false));
}

// ---- Making texts again ----

#[test]
fn a_text_is_made_again_once_at_a_time() {
    let job = finished();
    let id = job.id;
    let (view, raw) = (complete(&job), raw_only(&job));
    let mut jobs = vec![job];
    let mut bar = ActionBar::new();
    let mut busy = ContentBusy::new();
    let kind = RegenerableKind::Chapters;
    assert!(regenerate_selected(&mut bar, &mut busy, &jobs, Some(id), &raw, Ok(target()), kind).is_none());
    assert_eq!(said(&bar), ("当前没有可信文字结果，请先修复文字结果", true, false));
    let missing = TargetUnavailableV1 {
        code: TargetUnavailableCodeV1::ConnectionMissing,
        message: "没有连接".into(),
        invalid_field: None,
    };
    assert!(regenerate_selected(&mut bar, &mut busy, &jobs, Some(id), &view, Err(missing), kind).is_none());
    assert_eq!(said(&bar), ("检查 AI 设置：没有连接", true, false));
    let sent = regenerate_selected(&mut bar, &mut busy, &jobs, Some(id), &view, Ok(target()), kind);
    assert!(matches!(sent, Some(WorkMsg::Regenerate { job_id, kind: RegenerableKind::Chapters, .. }) if job_id == id));
    assert_eq!(bar.kind, "chapters");
    assert_eq!(said(&bar), ("正在重新生成文字结果…", false, true));
    assert!(regenerate_selected(&mut bar, &mut busy, &jobs, Some(id), &view, Ok(target()), kind).is_none());
    let (token, place) = accept_regenerate(&mut busy, &jobs, id).unwrap();
    assert_eq!(place, 0);
    assert!(!token.is_cancelled());
    assert_eq!(accept_regenerate(&mut busy, &jobs, 5).unwrap_err().text, "文字结果正在处理中，请稍候");
    content_message_lost(&mut bar, &mut busy, id, false);
    assert_eq!(said(&bar), ("重生成失败：后台任务已退出", true, false));
    assert_eq!(busy.holder(), None);
    busy.reserve_content_operation(5);
    assert_eq!(accept_regenerate(&mut busy, &jobs, 5).unwrap_err().text, "重生成失败：任务不存在");
    jobs[0].status = JobStatus::Running;
    assert!(regenerate_selected(&mut bar, &mut busy, &jobs, Some(id), &view, Ok(target()), kind).is_none());
    assert_eq!(bar.feedback, "当前任务尚未进入可重生成的终态");
    busy.reserve_content_operation(id);
    assert_eq!(accept_regenerate(&mut busy, &jobs, id).unwrap_err().text, "重生成失败：只允许终态 v0.5 任务");
    assert_eq!(busy.holder(), None);
}

#[test]
fn only_a_result_without_texts_is_repaired() {
    let job = finished();
    let id = job.id;
    let (view, raw) = (complete(&job), raw_only(&job));
    let jobs = vec![job];
    let mut bar = ActionBar::new();
    let mut busy = ContentBusy::new();
    assert!(repair_selected_content(&mut bar, &mut busy, &jobs, Some(id), &view).is_none());
    assert_eq!(said(&bar), ("当前文字结果不需要修复", true, false));
    let sent = repair_selected_content(&mut bar, &mut busy, &jobs, Some(id), &raw);
    assert!(matches!(sent, Some(WorkMsg::RepairContent(i)) if i == id));
    assert_eq!(said(&bar), ("正在修复文字结果…", false, true));
    assert_eq!(accept_repair(&mut busy, &jobs, id, &raw).unwrap().1, 0);
    assert_eq!(
        accept_repair(&mut busy, &jobs, id, &view).unwrap_err().text,
        "修复失败：当前任务没有可修复的原始 Evidence"
    );
    assert_eq!(busy.holder(), None);
    content_message_lost(&mut bar, &mut busy, id, true);
    assert_eq!(said(&bar), ("修复失败：后台任务已退出", true, false));
    assert_eq!(RegenerableKind::from_action("summary-short"), Some(RegenerableKind::ShortSummary));
    assert!(ArtifactKindV1::ShortSummary.is_summary_tier() && !ArtifactKindV1::Chapters.is_summary_tier());
    assert_eq!(RegenerableKind::from_action("faithful"), None);
}

// ---- Adding ----

fn panels() -> (AddPanel, ConfirmPanel) {
    let add = AddPanel { url: String::new(), busy: false, state: "idle".into(), feedback: String::new(), hint: "h".into() };
    let confirm = ConfirmPanel {
        video: String::new(),
        runtime_name: String::new(),
        runtime_source: String::new(),
        runtime_backend: String::new(),
        model: String::new(),
        recommended: String::new(),
        limitations: String::new(),
        error: String::new(),
        ready: false,
        auto_available: false,
        language: String::new(),
        can_create: false,
        visible: false,
    };
    (add, confirm)
}

fn runtime() -> RuntimeDescription {
    RuntimeDescription {
        source: RuntimeSource::External,
        project: "/runtime".into(),
        data_dir: "/data".into(),
        identity: "identity".into(),
        backend: RuntimeBackend::NativeUv,
        model_description: None,
        contract_version: SUPPORTED_CONTRACT_VERSION,
        ready: true,
        display_name: None,
        recommended_languages: vec![SourceLanguage::Zh, SourceLanguage::En],
        known_limitations: vec!["a".into(), "b".into()],
        auto_detection: None,
    }
}

fn config() -> Config {
    Config::for_paths(&AppPaths::for_home("/home/me"), "nonce".into())
}

#[test]
fn an_address_leads_to_a_question_and_to_a_job() {
    let (mut add, mut confirm) = panels();
    let mut pending: Option<PendingTranscription> = None;
    let mut settings = config();
    let mut jobs = Vec::new();
    url_edited(&mut add, "nothing".into());
    assert!(matches!(prepare_add_job(&mut add, &mut confirm, &mut pending, &settings, None), AddStep::Nothing));
    assert_eq!(add.state, "error");
    assert!(add.feedback.starts_with("无法添加：") && add.feedback.ends_with("nothing"));

    url_edited(&mut add, "https://www.bilibili.com/video/BV1UIFIXabcd?p=2".into());
    assert_eq!((add.state.as_str(), add.feedback.as_str(), add.hint.as_str()), ("idle", "", ""));
    assert!(matches!(prepare_add_job(&mut add, &mut confirm, &mut pending, &settings, None), AddStep::Nothing));
    assert!(confirm.visible && !confirm.can_create);
    assert_eq!(confirm.video, "BV1UIFIXabcd · P2");
    assert_eq!(confirm.error, "未配置 Runtime，请打开设置选择并验证 Runtime。");
    cancel_pending_job(&mut confirm, &mut pending);
    assert!(!confirm.visible && confirm.error.is_empty());

    settings.runtime_project = Some("/runtime".into());
    let step = prepare_add_job(&mut add, &mut confirm, &mut pending, &settings, None);
    let AddStep::Describe { bvid, page, project, source } = step else { panic!("{step:?}") };
    assert_eq!((bvid.as_str(), page, project.as_str()), ("BV1UIFIXabcd", 2, "/runtime"));
    assert_eq!(source, RuntimeSource::External);

    let url = add.url.clone();
    runtime_described(&mut confirm, &mut pending, &settings, &url, &bvid, page, Err("no".into()));
    assert_eq!(confirm.error, "无法读取 Runtime：no");
    assert!(pending.is_none());

    let mut old = runtime();
    old.contract_version = 1;
    runtime_described(&mut confirm, &mut pending, &settings, &url, &bvid, page, Ok(old));
    assert_eq!(confirm.error, "当前 Runtime contract v1 需要升级到 v2，暂不能创建新任务。");
    assert_eq!(confirm_pending_job(&mut confirm, &pending, &mut jobs, &settings, 7, Ok(())), None);
    assert!(jobs.is_empty());

    runtime_described(&mut confirm, &mut pending, &settings, &url, &bvid, page, Ok(runtime()));
    assert!(confirm.can_create && confirm.ready && !confirm.auto_available);
    assert_eq!(confirm.language, "zh");
    assert_eq!(confirm.recommended, "中文、英文");
    assert_eq!(confirm.limitations, "a；b");
    update_pending_language(&mut confirm, &mut pending, "fr");
    assert_eq!(confirm.language, "zh");
    update_pending_language(&mut confirm, &mut pending, "auto");
    assert_eq!(confirm.language, "zh");
    update_pending_language(&mut confirm, &mut pending, "en");
    assert_eq!(confirm.language, "en");

    let refused = Err("empty".to_string());
    assert_eq!(confirm_pending_job(&mut confirm, &pending, &mut jobs, &settings, 7, refused), None);
    assert_eq!(confirm.error, "无法创建任务：empty");
    assert!(jobs.is_empty() && confirm.visible);
    let selection = confirm_pending_job(&mut confirm, &pending, &mut jobs, &settings, 7, Ok(())).unwrap();
    assert_eq!(selection.requested_language, SourceLanguage::En);
    assert_eq!(selection.runtime_identity, "identity");
    assert_eq!(jobs.len(), 1);
    assert_eq!((jobs[0].id, jobs[0].bvid.as_str(), jobs[0].page), (7, "BV1UIFIXabcd", 2));
    assert_eq!(jobs[0].source_url.as_deref(), Some(url.as_str()));
    assert_eq!(jobs[0].status, JobStatus::Queued);
    assert_eq!(jobs[0].retention, RetentionPolicy::Recommended);
    assert!(jobs[0].content_setup.is_some());

    assert!(!new_job_saved(&mut confirm, &mut pending, &mut add, &mut jobs, Err("disk".into())));
    assert!(jobs.is_empty() && pending.is_some() && confirm.visible);
    assert_eq!(confirm.error, "无法保存任务：disk");
    confirm_pending_job(&mut confirm, &pending, &mut jobs, &settings, 8, Ok(()));
    assert!(new_job_saved(&mut confirm, &mut pending, &mut add, &mut jobs, Ok(())));
    assert!(pending.is_none() && !confirm.visible && jobs.len() == 1);
    assert_eq!((add.url.as_str(), add.state.as_str(), add.feedback.as_str()), ("", "success", "已创建任务"));

    assert_eq!(settings.app_default_language("identity"), SourceLanguage::Zh);
    let before = settings.clone();
    remember_selection(&mut settings, selection.clone());
    assert_eq!(settings, Config { last_transcription_selection: Some(selection), ..before });
    assert_eq!(settings.app_default_language("identity"), SourceLanguage::En);
    assert_eq!(settings.app_default_language("another"), SourceLanguage::Zh);
}

#[test]
fn the_question_leads_to_the_settings() {
    let (_, mut confirm) = panels();
    let mut pending: Option<PendingTranscription> = None;
    let settings = config();
    runtime_described(&mut confirm, &mut pending, &settings, "u", "BV1UIFIXabcd", 1, Err("no".into()));
    let mut panel = SettingsPanel::new();
    panel.saving = true;
    panel.feedback = "x".into();
    open_settings_from_confirmation(&mut confirm, &mut pending, &mut panel);
    assert!(pending.is_none() && !confirm.visible && panel.visible && !panel.saving);
    assert_eq!(confirm.error, "无法读取 Runtime：no");
    assert_eq!(panel.feedback, "");
}

// ---- The pane and the list ----

fn snapshot() -> JobViewSnapshot {
    JobViewSnapshot {
        status_label: "已完成".into(),
        status_name: "completed".into(),
        stage_label: "完成".into(),
        stage_name: "done".into(),
        total_progress: 100,
        warning: None,
        retention_label: "推荐".into(),
        transcription_runtime: "r".into(),
        transcription_source: "s".into(),
        transcription_backend: "b".into(),
        transcription_model: "m".into(),
        requested_language: "zh".into(),
        reported_language: "zh".into(),
        reported_model: "m".into(),
        capabilities: JobCapabilities {
            can_cancel: false,
            can_retry: false,
            can_rebuild: false,
            can_open_document: true,
            can_reveal: true,
            can_delete: true,
            can_edit_speakers: true,
        },
    }
}

fn facts() -> MachineFacts {
    MachineFacts {
        created_at: "c".into(),
        started_at: "s".into(),
        finished_at: "f".into(),
        video_bytes: 0,
        audio_bytes: 0,
        media_size: "".into(),
        documents: [false, true, false],
    }
}

#[test]
fn the_pane_shows_the_selected_job() {
    let job = finished();
    let (mut detail, results) = show_job_detail(&job, &snapshot(), &complete(&job), &facts(), NOW);
    assert!(detail.has_job && detail.can_view_result && results.entry_visible);
    assert_eq!(detail.bvid, "BV1abcdefgh");
    assert_eq!(detail.status_label, "已完成");
    let (hidden, none) = show_job_detail(&job, &snapshot(), &broken(), &facts(), NOW);
    assert!(!hidden.can_view_result && !none.entry_visible);

    let other = finished();
    let mut rows: Vec<JobRow> =
        vec![job_to_row(&job, &snapshot(), NOW, true), job_to_row(&other, &snapshot(), NOW, false)];
    assert!(!refresh_selected_detail(&rows, &mut detail, &other, &facts(), NOW));
    assert!(refresh_selected_detail(&rows, &mut detail, &job, &facts(), NOW));
    assert_eq!(detail.created_at, "c");

    let mut bar = ActionBar::new();
    let mut open = false;
    bar.tell("x", true);
    view_result(&mut bar, &mut open);
    assert!(open && bar.feedback.is_empty() && !bar.error);
    leave_result(&mut open);
    assert!(!open);
    view_result(&mut bar, &mut open);
    bar.tell("x", true);
    let mut speakers = SpeakerBar { feedback: "y".into(), error: true };
    assert_eq!(select_job(&mut rows, &mut bar, &mut speakers, &mut open, -1), None);
    assert!(open);
    assert_eq!(said(&bar), ("x", true, false));
    assert_eq!(select_job(&mut rows, &mut bar, &mut speakers, &mut open, 1), Some(1));
    assert!(!open);
    assert!(!rows[0].selected && rows[1].selected);
    assert_eq!(said(&bar), ("", false, false));
    assert_eq!((speakers.feedback.as_str(), speakers.error), ("", false));

    let mut results = show_job_detail(&job, &snapshot(), &complete(&job), &facts(), NOW).1;
    let mut names = speaker_entries(&job, Some(&utterances()));
    view_result(&mut bar, &mut open);
    clear_job_detail(&mut detail, &mut names, &mut results, &mut bar, &mut open);
    assert!(!detail.has_job && names.is_empty() && !results.entry_visible && !open);
}

#[test]
fn removing_jobs_is_asked_and_reported() {
    let mut dialog = HistoryDialog::new();
    dialog.ask_delete(Some(HistoryConfirmation::DeleteJob(3)), "标题");
    assert!(dialog.visible && dialog.message.contains("“标题”"));
    cancel_history_action(&mut dialog);
    assert!(!dialog.visible && dialog.asked.is_none());
    let mut bar = ActionBar::new();
    bar.begin("", "…");
    history_message_sent(&mut bar, true);
    assert!(bar.pending);
    history_message_sent(&mut bar, false);
    assert_eq!(said(&bar), ("操作失败：后台任务已退出", true, false));
    assert_eq!(delete_feedback(Ok(())).text, "已删除任务及其产物");
    assert_eq!(delete_feedback(Err("disk".into())).text, "任务产物已删除，但队列保存失败：disk");
    let cleared = Feedback { text: "cleared".into(), error: false };
    assert_eq!(clear_saved(cleared, Ok(())).text, "cleared");
    let cleared = Feedback { text: "cleared".into(), error: false };
    assert_eq!(clear_saved(cleared, Err("disk".into())).text, "已删除任务，但队列保存失败：disk");
}

#[test]
fn settings_fields_and_states_of_the_window() {
    let mut panel = SettingsPanel {
        saving: false,
        feedback: String::new(),
        error_field: String::new(),
        error_message: String::new(),
        visible: true,
    };
    assert!(!panel.begin_install(Err("bad".into()), Ok(()), true));
    assert_eq!(panel.feedback, "无法安装：bad");
    assert!(!panel.begin_install(Ok(()), Err("disk".into()), true));
    assert_eq!(panel.feedback, "配置保存失败：disk");
    assert!(!panel.begin_install(Ok(()), Ok(()), false));
    assert_eq!(panel.feedback, "请先选择 Runtime 项目目录");
    assert!(panel.begin_install(Ok(()), Ok(()), true));
    assert!(panel.saving);
    assert!(!panel.begin_install(Ok(()), Ok(()), true));

    let paths = AppPaths::for_home("/home/me");
    assert_eq!(default_directory("working", &paths), paths.jobs_dir);
    assert_eq!(default_directory("output", &paths), paths.markdown_output_dir);
    assert_eq!(default_directory("runtime-data", &paths), paths.funasr_runtime_data_dir);
    assert_eq!(default_directory("else", &paths), "");

    let question = fixture_screen("confirmation");
    assert_eq!(question.confirm.unwrap().video, "BV1UIFIX · P2");
    assert_eq!(question.shown, "");
    let delete = fixture_screen("delete-confirm");
    assert!(delete.dialog.visible && delete.dialog.title == "删除任务" && delete.shown == "completed");
    assert_eq!(fixture_screen("result-regenerating").bar.kind, "chapters");
    assert!(fixture_screen("settings").settings_open);
    assert!(fixture_screen("empty").empty);

    let mut settings = config();
    settings.output_dir = String::new();
    settings.runtime_project = Some(String::new());
    settings.runtime_data_dir = String::new();
    settings.working_dir = "/Volumes/Data/Jobs".into();
    settings.normalize_legacy_defaults(&paths);
    assert_eq!(settings.working_dir, "/Volumes/Data/Jobs");
    assert_eq!(settings.output_dir, paths.markdown_output_dir);
    assert_eq!(settings.runtime_project, None);
    assert_eq!(settings.runtime_data_dir, paths.funasr_runtime_data_dir);

    assert_eq!(absolute_existing_directory("a", "目录", true, Ok("/a".into())), Err("目录必须是绝对路径".into()));
    assert_eq!(absolute_existing_directory("/a", "目录", false, Ok("/a".into())), Err("目录不是有效目录：/a".into()));
    assert_eq!(absolute_existing_directory("/a", "目录", true, Err("x".into())), Err("无法解析目录：x".into()));
    assert_eq!(absolute_existing_directory("/a", "目录", true, Ok("/b".into())), Ok("/b".into()));
}
