use bi2read::cancel::CancellationToken;
use bi2read::paths::AppPaths;
use bi2read::config::Config;
use bi2read::content_results::assembly::{GeneratedBlock, GeneratedChunk, GenerationPortError};
use bi2read::content_results::connection::read_response;
use bi2read::content_results::current::{
    current, load_matching_current, ArtifactSlotV1, ContentCurrentV1, ContentSnapshotV1, StoredCurrent,
};
use bi2read::content_results::error::ContentError;
use bi2read::content_results::evidence::{expected_context, validate_evidence, ValidatedEvidenceViewV1};
use bi2read::content_results::execute::{
    resume_initial, resume_regenerate, start_initial, start_regenerate, InitialStep, RegenerateStep,
};
use bi2read::content_results::generation::GenerationRequest;
use bi2read::content_results::kinds::{ArtifactKindV1, FailureCodeV1, RegenerableKind, SourceStatusV1};
use bi2read::content_results::record::{DerivationFailureV1, SourceRefV1, UtcTime};
use bi2read::content_results::target::{
    ContentSetupV1, GenerationApiFormatV1, GenerationParametersV1, GenerationProviderV1, ReadyGenerationTargetV1,
    TargetUnavailableCodeV1, TargetUnavailableV1,
};
use bi2read::desktop::actions::{
    apply_queue_rows, confirm_history_action, document_words_counted, is_shown_job, move_selected,
    refresh_selected_result, regenerable_kind_from_action, reorder_capabilities, request_clear_history, request_delete_selected, select_relative, selected_index, HistoryDialog,
};
use bi2read::desktop::busy::ContentBusy;
use bi2read::desktop::controller::{valid_result_source_url, ActionBar};
use bi2read::desktop::detail::{
    count_non_whitespace_chars, document_words_placeholder, empty_detail, fmt_document_words, fmt_job_elapsed,
    job_to_row, media_total, speaker_entries, JobCapabilities, JobRow, JobViewSnapshot,
};
use bi2read::desktop::fixture::{
    fixture_transcript, is_result_fixture, parse_ui_fixture, parse_ui_fixture_position, parse_ui_fixture_size,
    queue_scroll_fixture_jobs, result_fixture_job,
};
use bi2read::desktop::fixture_server::{
    body_prompt, body_range, content_length, expected_requests, fixture_answer, head_end, http_answer, request_input,
    request_prompt,
};
use bi2read::desktop::operations::{
    apply_presentation_locator, cancellation_undone, cancelled_job_saved, cancelled_queue_saved,
    presentation_operation, regenerate_outcome, regeneration_feedback, repair_outcome, speaker_rebuild_feedback,
    start_cancellation, CancelStart, CancellationTransition,
};
use bi2read::desktop::rows::{
    block_source_details, content_results_for_job, fmt_elapsed, result_timestamp, video_length, ContentResultsData,
    ContentRow,
};
use bi2read::desktop::settings::{settings_error_field, SettingsPanel};
use bi2read::desktop::startup::{isolate_settings, plan_startup};
use bi2read::desktop::worker::{
    can_clear_history, clear_history, count_terminal, drain_again, failed_stage, finish_delete, plan_clear,
    plan_delete, repair_selection, retry_job, DrainOutcome, Feedback, WorkMsg,
};
use bi2read::funasr::Utterance;
use bi2read::jobs::{Job, JobStatus, Stage, StageState};
use bi2read::presentation::{rewrite_reading_time_metadata, SummaryTier};

const NOW: UtcTime = UtcTime { seconds: 1_700_000_000, nanoseconds: 0 };

fn new_id() -> u128 {
    uuid::Uuid::new_v4().as_u128()
}

fn new_job(bvid: &str, status: JobStatus) -> Job {
    let mut job = Job::new(new_id(), bvid.to_string(), 1);
    job.status = status;
    job
}

// ---- A finished job, answered by the fixture's server ----

fn fixture_target() -> ReadyGenerationTargetV1 {
    ReadyGenerationTargetV1 {
        provider: GenerationProviderV1::OpenAiCompatible,
        api_format: GenerationApiFormatV1::OpenAiChatCompletions,
        endpoint: "http://127.0.0.1:1234".into(),
        model: "fixture-model".into(),
        parameters: GenerationParametersV1::openai_default(),
    }
}

fn texts(value: &serde_json::Value) -> Vec<String> {
    value.as_array().unwrap().iter().map(|v| v.as_str().unwrap().to_string()).collect()
}

fn answer(selector: &str, request: &GenerationRequest) -> Result<GeneratedChunk, GenerationPortError> {
    let input = request_input(&request.prompt);
    let body = fixture_answer(selector, input.as_ref());
    let text = read_response(GenerationApiFormatV1::OpenAiChatCompletions, &body)?;
    let value: serde_json::Value = serde_json::from_str(&text).unwrap();
    let blocks = value["blocks"].as_array().unwrap();
    Ok(GeneratedChunk {
        processed_utterance_ids: texts(&value["processed_utterance_ids"]),
        blocks: blocks
            .iter()
            .map(|block| GeneratedBlock {
                id: block["id"].as_str().unwrap().to_string(),
                title: block["title"].as_str().map(str::to_string),
                text: block["text"].as_str().unwrap().to_string(),
                declared_role: None,
                source_refs: block["source_refs"]
                    .as_array()
                    .unwrap()
                    .iter()
                    .map(|r| SourceRefV1 {
                        utterance_ids: texts(&r["utterance_ids"]),
                        start_ms: r["start_ms"].as_u64().unwrap(),
                        end_ms: r["end_ms"].as_u64().unwrap(),
                    })
                    .collect(),
                declared_status: match block["source_status"].as_str() {
                    Some("mapped") => Some(SourceStatusV1::Mapped),
                    Some("limited") => Some(SourceStatusV1::Limited),
                    _ => None,
                },
            })
            .collect(),
    })
}

fn evidence_of(job: &Job, utterances: &[Utterance]) -> ValidatedEvidenceViewV1 {
    validate_evidence(job, format!("{utterances:?}").as_bytes(), utterances.to_vec()).unwrap()
}

fn result_fixture(selector: &str) -> (Job, ContentSnapshotV1, usize) {
    let mut job = result_fixture_job(new_id(), "/tmp/fixture");
    let setup = ContentSetupV1::ready(fixture_target());
    job.content_setup = Some(setup.clone());
    let evidence = evidence_of(&job, &fixture_transcript());
    let context = expected_context(&job);
    let mut asked = 0;
    let (mut run, mut step) = start_initial(None, job.id, &setup, &evidence, &context, false, NOW).unwrap();
    while let InitialStep::Ask(request) = &step {
        asked += 1;
        let reply = answer(selector, request);
        (run, step) =
            resume_initial(run, &fixture_target(), &setup, &evidence, &context, reply, false, NOW).unwrap();
    }
    (job, ContentSnapshotV1 { current: run.current, evidence }, asked)
}

fn shown(job: &Job, snapshot: &ContentSnapshotV1, pending: Option<ArtifactKindV1>) -> ContentResultsData {
    let view = current(
        job,
        Ok(snapshot.evidence.clone()),
        &expected_context(job),
        StoredCurrent::Parsed(snapshot.current.clone()),
    );
    content_results_for_job(job, "已完成", &view, pending)
}

fn fixture_content_results(selector: &str) -> ContentResultsData {
    let (job, snapshot, _) = result_fixture(selector);
    let pending = if selector == "result-regenerating" { Some(ArtifactKindV1::Chapters) } else { None };
    shown(&job, &snapshot, pending)
}

fn default_config() -> Config {
    Config::default(Some(&AppPaths::for_home("/home/me")), "nonce".to_string())
}

#[test]
fn cancellation_persistence_failures_restore_retryable_state() {
    for queue_save_fails in [false, true] {
        let mut job = Job::new(new_id(), "BV1persist-cancel".into(), 1);
        let id = job.id;
        job.status = JobStatus::NeedsUserAction;
        job.stage = Stage::NeedsUserAction;
        let mut cancelled = job.clone();
        cancelled.status = JobStatus::Cancelled;
        let mut queue = vec![job];
        let mut job_save_calls = 0;
        let run = match start_cancellation(&mut queue, id, CancellationTransition::Immediate, cancelled.clone()) {
            CancelStart::Save(run) => run,
            other => panic!("{other:?}"),
        };
        assert_eq!(queue[0].status, JobStatus::Cancelled);
        job_save_calls += 1;
        let saved = if queue_save_fails { Ok(()) } else { Err("state write failed".to_string()) };
        let error = match cancelled_job_saved(run, &mut queue, saved) {
            Err(error) => error,
            Ok(run) => {
                let error =
                    cancelled_queue_saved(run, &mut queue, Err("queue write failed".to_string())).unwrap_err();
                job_save_calls += 1;
                cancellation_undone(error, Ok(()))
            }
        };
        assert!(!error.is_empty());
        assert_eq!(queue[0].status, JobStatus::NeedsUserAction);
        assert_eq!(queue[0].stage, Stage::NeedsUserAction);
        assert_eq!(job_save_calls, if queue_save_fails { 2 } else { 1 });
        let again = start_cancellation(&mut queue, id, CancellationTransition::Immediate, cancelled);
        assert!(matches!(again, CancelStart::Save(_)));
    }
}

#[test]
fn ui_fixture_parser_supports_visual_states_and_legacy_switches() {
    assert_eq!(parse_ui_fixture("empty"), Some("empty"));
    assert_eq!(parse_ui_fixture("settings"), Some("settings"));
    assert_eq!(parse_ui_fixture("running"), Some("running"));
    assert_eq!(parse_ui_fixture("queue-scroll"), Some("queue-scroll"));
    assert_eq!(parse_ui_fixture("confirmation"), Some("confirmation"));
    assert_eq!(parse_ui_fixture("delete-confirm"), Some("delete-confirm"));
    assert_eq!(parse_ui_fixture("clear-confirm"), Some("clear-confirm"));
    assert_eq!(parse_ui_fixture("FAILED"), Some("failed"));
    assert_eq!(parse_ui_fixture(" completed "), Some("completed"));
    assert_eq!(parse_ui_fixture("1"), Some("completed"));
    assert_eq!(parse_ui_fixture(""), Some("completed"));
    assert_eq!(parse_ui_fixture("result-success"), Some("result-success"));
    assert_eq!(parse_ui_fixture("result-limited"), Some("result-limited"));
    assert_eq!(parse_ui_fixture("result-enhancement-failed"), Some("result-enhancement-failed"));
    assert_eq!(parse_ui_fixture("result-regenerating"), Some("result-regenerating"));
    assert_eq!(parse_ui_fixture("unknown"), None);
}

#[test]
fn queue_scroll_fixture_has_enough_rows_and_visible_error_borders() {
    let ids: [u128; 12] = std::array::from_fn(|_| new_id());
    let jobs = queue_scroll_fixture_jobs(ids);
    assert_eq!(jobs.len(), 12);
    assert!(jobs.iter().any(|job| job.status == JobStatus::Failed));
    assert!(jobs.iter().any(|job| job.status == JobStatus::Completed));
    assert!(jobs.iter().filter(|job| job.error.is_some()).count() >= 3);
}

#[test]
fn result_fixtures_use_the_flat_rows_and_expose_limited_without_jump() {
    let success = fixture_content_results("result-success");
    assert!(success.entry_visible);
    assert!(success.show_summary && success.show_chapters && success.show_faithful);
    assert_eq!(success.bvid, "BV1UIFIX");
    assert_eq!(success.page, 2);
    assert_eq!(success.video_duration, "01:04");
    assert!(success.raw_rows.len() > 50);
    assert!(success.faithful_rows.iter().any(|row| row.kind == "section"));
    let mapped_result_rows: Vec<&ContentRow> = success
        .summary_rows
        .iter()
        .chain(success.chapters_rows.iter())
        .chain(success.faithful_rows.iter())
        .filter(|row| row.kind == "block" && row.status_kind == "mapped")
        .collect();
    assert!(!mapped_result_rows.is_empty());
    assert!(mapped_result_rows
        .iter()
        .all(|row| row.text.chars().count() <= 80 && row.can_source && row.can_jump));

    let limited = fixture_content_results("result-limited");
    let limited_rows: Vec<&ContentRow> = limited
        .summary_rows
        .iter()
        .chain(limited.faithful_rows.iter())
        .filter(|row| row.status_kind == "limited")
        .collect();
    assert!(!limited_rows.is_empty());
    assert!(limited_rows.iter().all(|row| !row.can_jump && !row.can_source));
    let chapter_statuses: Vec<String> = limited
        .chapters_rows
        .iter()
        .filter(|row| row.kind == "block")
        .map(|row| row.status_kind.to_string())
        .collect();
    assert!(chapter_statuses.iter().any(|status| status == "mapped"));
    assert!(chapter_statuses.iter().any(|status| status == "limited"));
    let mapped_chapter = limited
        .chapters_rows
        .iter()
        .find(|row| row.kind == "block" && row.status_kind == "mapped")
        .expect("limited chapters keep a mapped source affordance");
    assert!(mapped_chapter.can_source && mapped_chapter.can_jump);

    let failed = fixture_content_results("result-enhancement-failed");
    assert_eq!(failed.default_tab, 0);
    assert!(failed.summary_rows.iter().any(|row| row.status_kind == "failure"));

    let regenerating = fixture_content_results("result-regenerating");
    assert!(regenerating
        .chapters_rows
        .iter()
        .filter(|row| row.kind == "section")
        .any(|row| row.action_pending));
    assert!(regenerating.summary_rows.iter().all(|row| !row.action_pending));
}

#[test]
fn result_fixture_uses_a_selected_terminal_job_and_closed_callback_inputs() {
    let (job, snapshot, asked) = result_fixture("result-success");
    assert!(job.status.is_terminal());
    assert!(job_to_row(&job, &snapshot_words(), NOW, true).selected);
    assert!(shown(&job, &snapshot, None).entry_visible);
    assert_eq!(asked, expected_requests("result-success") as usize);

    assert_eq!(regenerable_kind_from_action("summary"), Some(RegenerableKind::DefaultSummary));
    assert_eq!(regenerable_kind_from_action("highlights"), Some(RegenerableKind::Highlights));
    assert_eq!(regenerable_kind_from_action("chapters"), Some(RegenerableKind::Chapters));
    assert_eq!(regenerable_kind_from_action("faithful"), None);
    assert!(valid_result_source_url("https://www.bilibili.com/video/BV1UIFIX?p=2&t=3"));
    assert!(!valid_result_source_url("https://example.com/BV1UIFIX"));
}

#[test]
fn result_projection_identity_is_stable_for_refresh_and_changes_for_job_switch() {
    let (job, snapshot, _) = result_fixture("result-success");
    let first = shown(&job, &snapshot, None);
    let refreshed = shown(&job, &snapshot, Some(ArtifactKindV1::Chapters));
    assert!(!first.job_id.is_empty());
    assert_eq!(first.job_id, refreshed.job_id);
    assert_eq!(first.job_id, uuid::Uuid::from_u128(job.id).to_string());

    let (other, other_snapshot, _) = result_fixture("result-success");
    let switched = shown(&other, &other_snapshot, None);
    assert_ne!(first.job_id, switched.job_id);
}

#[test]
fn ui_fixture_window_position_is_fixed_and_optionally_overridable() {
    assert_eq!(parse_ui_fixture_position(None), (40, 40));
    assert_eq!(parse_ui_fixture_position(Some(" 120, 80 ")), (120, 80));
    assert_eq!(parse_ui_fixture_position(Some("invalid")), (40, 40));
}

#[test]
fn ui_fixture_size_accepts_both_supported_dimensions() {
    assert_eq!(parse_ui_fixture_size(Some("920x600")), (920, 600));
    assert_eq!(parse_ui_fixture_size(Some("1180x760")), (1180, 760));
    assert_eq!(parse_ui_fixture_size(Some("800x500")), (1180, 760));
    assert_eq!(parse_ui_fixture_size(Some("invalid")), (1180, 760));
}

#[test]
fn content_busy_gate_rejects_same_job_and_preserves_pre_start_cancel() {
    let mut busy = ContentBusy::new();
    let job_id = new_id();
    assert!(busy.start_content_operation(job_id).is_none());
    assert!(busy.reserve_content_operation(job_id));
    assert!(!busy.reserve_content_operation(job_id));
    assert!(!busy.reserve_content_operation(new_id()));
    assert!(!busy.cancel_content_operation(new_id()));
    assert!(busy.cancel_content_operation(job_id));
    assert!(busy.start_content_operation(job_id).unwrap().is_cancelled());
    busy.clear_content_operation(job_id);
    assert!(busy.start_content_operation(job_id).is_none());
    assert!(busy.reserve_content_operation(new_id()));
}

#[test]
fn speaker_rebuild_feedback_keeps_saved_name_and_reports_document_failure() {
    assert_eq!(speaker_rebuild_feedback(&Ok(())), ("已保存，文档已更新".into(), false));
    assert_eq!(
        speaker_rebuild_feedback(&Err("磁盘已满".into())),
        ("说话人名称已保存，但文档更新失败：磁盘已满；再次打开 Markdown 时会重试".into(), true)
    );
}

#[test]
fn regeneration_feedback_does_not_report_committed_failure_as_success() {
    assert_eq!(
        regeneration_feedback(&ArtifactSlotV1::empty()),
        ("重生成结果状态无效，请重试".into(), true)
    );
    let failed = ArtifactSlotV1 {
        current: None,
        last_failure: Some(DerivationFailureV1 {
            code: FailureCodeV1::GenerationFailed,
            message: "本地 AI 暂时不可用".into(),
            retryable: true,
            occurred_at: NOW,
        }),
    };
    assert_eq!(
        regeneration_feedback(&failed),
        ("重生成失败：本地 AI 暂时不可用；当前没有可用结果".into(), true)
    );
}

#[test]
fn production_content_operations_preserve_terminal_job_and_never_run_upstream() {
    let mut job = Job::new(new_id(), "BV1worker".into(), 1);
    job.title = "worker 生产路径".into();
    let setup = ContentSetupV1::unavailable(TargetUnavailableV1 {
        code: TargetUnavailableCodeV1::ConnectionMissing,
        message: "未配置本地 AI".into(),
        invalid_field: Some("llm_connection".into()),
    });
    job.content_setup = Some(setup.clone());
    job.work_dir = Some("/work".into());
    job.cid = Some(7);
    job.duration_ms = Some(1000);
    job.status = JobStatus::Completed;
    job.stage = Stage::Completed;
    job.stage_progress = 100;
    job.finished_at = Some(NOW);
    job.error = Some("保留终态字段".into());
    job.set_stage_state(Stage::Completed, StageState::Completed);
    let terminal_before = job.clone();
    let utterances = vec![Utterance {
        id: "u1".into(),
        text: "原始证据 42".into(),
        start_ms: 0,
        end_ms: 1000,
        speaker_id: 0,
    }];
    let evidence = evidence_of(&job, &utterances);
    let context = expected_context(&job);

    let cancelled = start_initial(None, job.id, &setup, &evidence, &context, true, NOW)
        .map(|(run, _)| ContentSnapshotV1 { current: run.current, evidence: evidence.clone() });
    let said = repair_outcome(&cancelled).unwrap_err();
    assert_eq!((said.text.as_str(), said.error), ("已取消文字结果修复", true));

    let repaired = start_initial(None, job.id, &setup, &evidence, &context, false, NOW).map(|(run, step)| {
        assert!(matches!(step, InitialStep::Publish));
        ContentSnapshotV1 { current: run.current, evidence: evidence.clone() }
    });
    let said = repair_outcome(&repaired).unwrap();
    assert_eq!((said.text.as_str(), said.error), ("文字结果已修复", false));
    let (said, locator) = presentation_operation(said, Ok("/output".into()), Ok(()));
    assert!(!said.error);
    assert_eq!(locator.as_deref(), Some("/output"));
    let stored: ContentCurrentV1 = repaired.unwrap().current;

    let existing =
        load_matching_current(StoredCurrent::Parsed(stored), job.id, &evidence, &context, &setup).unwrap();
    assert!(existing.is_some());
    let (run, _) = start_regenerate(
        &setup,
        job.status,
        RegenerableKind::DefaultSummary,
        &fixture_target(),
        existing,
        &evidence,
        &context,
        false,
    )
    .unwrap();
    let step = resume_regenerate(
        run,
        &fixture_target(),
        &evidence,
        &context,
        Err(GenerationPortError::Transport),
        false,
        NOW,
    );
    let result = match step.unwrap() {
        RegenerateStep::Publish(current) => current,
        other => panic!("{other:?}"),
    };
    assert_eq!(
        result.slots.default_summary.last_failure.as_ref().unwrap().code,
        FailureCodeV1::GenerationFailed
    );
    let outcome = Ok(ContentSnapshotV1 { current: result, evidence });
    let said = regenerate_outcome(&outcome, RegenerableKind::DefaultSummary).unwrap();
    assert!(said.text.contains("重生成失败") && said.error);
    let (_, locator) = presentation_operation(said, Ok("/output".into()), Ok(()));
    assert!(locator.is_some());
    assert_eq!(job, terminal_before);
}

#[test]
fn presentation_locator_merge_preserves_terminal_job_and_raw_evidence() {
    for status in [JobStatus::Completed, JobStatus::Failed, JobStatus::Cancelled] {
        let mut job = new_job("BV1locator", status);
        job.work_dir = Some("/work".into());
        job.stage = Stage::FinalDocument;
        job.finished_at = Some(NOW);
        job.error = Some("preserve me".into());
        job.set_stage_state(Stage::FinalDocument, StageState::Failed);
        let before = job.clone();
        apply_presentation_locator(&mut job, "/work/final".into());
        assert_eq!(job.status, before.status);
        assert_eq!(job.stage, before.stage);
        assert_eq!(job.finished_at, before.finished_at);
        assert_eq!(job.error, before.error);
        assert_eq!(job.stages, before.stages);
        assert_eq!(job.final_output_dir.as_deref(), Some("/work/final"));
    }
}

#[test]
fn reorder_capabilities_follow_queue_boundaries() {
    assert_eq!(reorder_capabilities(None, 0), (false, false));
    assert_eq!(reorder_capabilities(None, 3), (false, false));
    assert_eq!(reorder_capabilities(Some(0), 1), (false, false));
    assert_eq!(reorder_capabilities(Some(0), 3), (false, true));
    assert_eq!(reorder_capabilities(Some(1), 3), (true, true));
    assert_eq!(reorder_capabilities(Some(2), 3), (true, false));
    assert_eq!(reorder_capabilities(Some(3), 3), (false, false));
}

fn snapshot_words() -> JobViewSnapshot {
    JobViewSnapshot {
        status_label: "等待中".into(),
        status_name: "waiting".into(),
        stage_label: "等待".into(),
        stage_name: "waiting".into(),
        total_progress: 0,
        warning: None,
        retention_label: String::new(),
        transcription_runtime: String::new(),
        transcription_source: String::new(),
        transcription_backend: String::new(),
        transcription_model: String::new(),
        requested_language: String::new(),
        reported_language: String::new(),
        reported_model: String::new(),
        capabilities: JobCapabilities {
            can_cancel: true,
            can_retry: false,
            can_rebuild: false,
            can_open_document: false,
            can_reveal: false,
            can_delete: false,
            can_edit_speakers: false,
        },
    }
}

#[test]
fn queue_model_handles_500_simulated_tasks_without_blocking_updates() {
    let mut model: Vec<JobRow> = Vec::new();
    let started = std::time::Instant::now();
    for index in 0..500 {
        let mut job = Job::new(new_id(), format!("BV{index:06}"), 1);
        job.title = format!("模拟任务 {index}");
        model.push(job_to_row(&job, &snapshot_words(), NOW, index == 0));
    }
    for index in 0..500 {
        let row = model.get_mut(index).expect("every simulated task should be readable");
        row.selected = index == 250;
    }
    assert_eq!(model.len(), 500);
    assert_eq!(selected_index(&model), Some(250));
    assert!(started.elapsed() < std::time::Duration::from_secs(2));
}

#[test]
fn large_markdown_statistics_benchmark() {
    const SIZE: usize = 20 * 1024 * 1024;
    let content = "a".repeat(SIZE);
    assert_eq!(count_non_whitespace_chars(&content), SIZE);
}

#[test]
fn missing_job_start_is_rendered_as_an_em_dash() {
    let job = Job::new(new_id(), "BVTEST".to_string(), 1);
    let (_, elapsed) = fmt_job_elapsed(&job, NOW);
    assert_eq!(elapsed, "—");
    assert_eq!(empty_detail().elapsed.to_string(), "—");
}

#[test]
fn rewrite_reading_time_metadata_omits_profile_when_language_is_auto_or_missing() {
    let (mut job, snapshot, _) = result_fixture("result-success");
    job.transcription_result = None;
    let rewritten = rewrite_reading_time_metadata(
        "- 字符数: 100\n- 阅读时间: 1分钟\n## 全文\n",
        &job,
        &snapshot,
        SummaryTier::Standard,
    );
    assert!(rewritten.contains("- 正文规模: 约"));
    assert!(rewritten.contains("- 视频时长: 1分04秒"));
    assert!(!rewritten.contains("估算口径"));
    assert!(!rewritten.contains("预计阅读"));
    assert!(!rewritten.contains("预计节省"));
}

// ---- Times and counts ----

#[test]
fn times_of_the_window_are_written_exactly() {
    assert_eq!(result_timestamp(3_661_999), "1:01:01");
    assert_eq!(result_timestamp(59_999), "00:59");
    assert_eq!(video_length(Some(64_000)), "01:04");
    assert_eq!(video_length(None), "—");
    assert!(fmt_elapsed(65).contains("05"));
    let mut job = Job::new(new_id(), "BV1".into(), 1);
    job.started_at = Some(UtcTime { seconds: 10, nanoseconds: 0 });
    job.finished_at = Some(UtcTime { seconds: 75, nanoseconds: 0 });
    assert_eq!(fmt_job_elapsed(&job, NOW), (65, fmt_elapsed(65)));
}

#[test]
fn documents_are_counted_in_characters() {
    assert_eq!(count_non_whitespace_chars(" 你 好\n a\u{3000}"), 3);
    assert_eq!(document_words_placeholder([false, true, false]), "统计中…");
    assert_eq!(document_words_placeholder([false; 3]), "尚未生成");
    assert_eq!(fmt_document_words([None, Some(12), Some(3)]), "12 字");
    assert_eq!(media_total(u64::MAX, 1), u64::MAX);
    assert_eq!(media_total(2, 3), 5);
}

#[test]
fn speakers_are_listed_with_their_segments() {
    let mut job = Job::new(new_id(), "BV1".into(), 1);
    job.speaker_map.insert(1, "主持人".into());
    let entries = speaker_entries(&job, Some(&fixture_transcript()));
    assert_eq!(entries.len(), 2);
    assert_eq!(entries[1].name, "主持人");
    assert_eq!(entries.iter().map(|e| e.segment_count).collect::<Vec<_>>(), vec![32, 32]);
}

#[test]
fn the_source_of_a_block_is_the_stretch_of_its_utterances() {
    let (job, snapshot, _) = result_fixture("result-success");
    let record = snapshot.current.slots.faithful_text.current.as_ref().unwrap();
    let details = block_source_details(&job, &snapshot, &record.blocks[0]).unwrap();
    assert!(details.url.starts_with("https://www.bilibili.com/video/BV1UIFIX?p=2&t="));
    assert!(valid_result_source_url(&details.url));
}

// ---- The worker ----

#[test]
fn a_failed_job_is_tried_again_from_where_it_failed() {
    let mut job = new_job("BV1retry", JobStatus::Failed);
    job.set_stage_state(Stage::Metadata, StageState::Completed);
    job.set_stage_state(Stage::Download, StageState::Failed);
    assert_eq!(failed_stage(&job), Some(Stage::Download));
    let id = job.id;
    let mut jobs = vec![new_job("BV1other", JobStatus::Completed), job];
    assert!(retry_job(&mut jobs, id, false).is_err());
    assert_eq!(jobs[1].status, JobStatus::Failed);
    assert_eq!(retry_job(&mut jobs, id, true).unwrap(), 1);
    assert_eq!(jobs[1].stage_state(Stage::Download), StageState::Pending);
    assert_eq!(jobs[1].stage_state(Stage::Metadata), StageState::Completed);
    assert_eq!(jobs[0].bvid, "BV1other");
    assert_eq!(drain_again(DrainOutcome::Ran { job_id: id }), Some(id));
    assert_eq!(drain_again(DrainOutcome::Idle), None);
    assert!(!WorkMsg::Shutdown.goes_on() && WorkMsg::Run.goes_on());
}

#[test]
fn only_finished_jobs_are_deleted() {
    let done = new_job("BV1done", JobStatus::Completed);
    let live = new_job("BV1live", JobStatus::Running);
    let (done_id, live_id) = (done.id, live.id);
    let mut jobs = vec![done, live];
    assert!(plan_delete(&jobs, live_id).is_err());
    assert!(plan_delete(&jobs, new_id()).is_err());
    assert_eq!(plan_delete(&jobs, done_id).unwrap(), 0);
    assert!(finish_delete(&mut jobs, done_id, Err("磁盘".into())).unwrap().error);
    assert_eq!(jobs.len(), 2);
    assert!(finish_delete(&mut jobs, done_id, Ok(())).is_none());
    assert_eq!(jobs.len(), 1);
    assert_eq!(jobs[0].id, live_id);
}

#[test]
fn history_is_cleared_but_for_what_cannot_be_removed() {
    let mut jobs: Vec<Job> = [JobStatus::Completed, JobStatus::Running, JobStatus::Failed, JobStatus::Cancelled]
        .into_iter()
        .map(|status| new_job("BV1", status))
        .collect();
    let kept = [jobs[1].id, jobs[2].id];
    assert!(can_clear_history(&jobs));
    assert_eq!(count_terminal(&jobs), 3);
    assert_eq!(plan_clear(&jobs), vec![0, 2, 3]);
    let said: Feedback = clear_history(&mut jobs, &vec![Ok(()), Err("忙".into()), Ok(())]);
    assert!(said.error);
    assert_eq!(jobs.iter().map(|job| job.id).collect::<Vec<_>>(), kept);
    assert_eq!(repair_selection(&jobs, Some(kept[1]), 0), Some(1));
    assert_eq!(repair_selection(&jobs, Some(new_id()), 7), Some(1));
    assert_eq!(repair_selection(&Vec::new(), Some(kept[1]), 0), None);
}

#[test]
fn the_list_keeps_the_selected_job() {
    let jobs: Vec<Job> = (0..3).map(|i| new_job(&format!("BV{i}"), JobStatus::Completed)).collect();
    let snaps: Vec<JobViewSnapshot> = (0..3).map(|_| snapshot_words()).collect();
    let list = apply_queue_rows(&jobs, &snaps, NOW, Some(jobs[2].id), 0);
    assert_eq!(list.selected, Some(2));
    assert_eq!((list.can_move_up, list.can_move_down), (true, false));
    assert_eq!(list.rows.iter().filter(|row| row.selected).count(), 1);
    assert!(is_shown_job(&list.rows, jobs[2].id) && !is_shown_job(&list.rows, jobs[0].id));
    let gone = apply_queue_rows(&jobs, &snaps, NOW, Some(new_id()), 1);
    assert_eq!(gone.selected, Some(1));
    let mut detail = empty_detail();
    document_words_counted(&list.rows, &mut detail, jobs[0].id, "7 字".into());
    assert_eq!(detail.document_words, "尚未生成");
    document_words_counted(&list.rows, &mut detail, jobs[2].id, "7 字".into());
    assert_eq!(detail.document_words, "7 字");
    let bar = ActionBar::new();
    let view = Err(ContentError::Legacy);
    assert!(refresh_selected_result(&list.rows, &bar, jobs[0].id, Some(&jobs[0]), "x", &view).is_none());
    assert!(refresh_selected_result(&list.rows, &bar, jobs[2].id, None, "x", &view).is_none());
    let shown = refresh_selected_result(&list.rows, &bar, jobs[2].id, Some(&jobs[2]), "x", &view);
    assert!(!shown.unwrap().entry_visible);
}

// ---- What the user does ----

#[test]
fn moving_a_job_there_and_back_changes_nothing() {
    let mut jobs: Vec<Job> = (0..3).map(|i| new_job(&format!("BV{i}"), JobStatus::Completed)).collect();
    let before = jobs.clone();
    assert_eq!(move_selected(&mut jobs, Some(0), true), None);
    assert_eq!(move_selected(&mut jobs, Some(0), false), Some(1));
    assert_eq!(jobs[0].bvid, "BV1");
    assert_eq!(move_selected(&mut jobs, Some(1), true), Some(0));
    assert_eq!(jobs, before);
    assert_eq!(select_relative(0, -1, 3), Some(0));
    assert_eq!(select_relative(1, 1, 3), Some(2));
    assert_eq!(select_relative(0, 1, 0), None);
}

#[test]
fn history_actions_are_confirmed_first() {
    let mut bar = ActionBar::new();
    let mut dialog = HistoryDialog::new();
    let job = new_job("BV1", JobStatus::Completed);
    let id = job.id;
    let jobs = vec![job];
    request_delete_selected(&mut bar, &mut dialog, &jobs, Some(id));
    assert!(matches!(confirm_history_action(&mut bar, &mut dialog), Some(WorkMsg::DeleteJob(asked)) if asked == id));
    assert!(confirm_history_action(&mut bar, &mut dialog).is_none());
    request_clear_history(&mut bar, &mut dialog, &jobs);
    assert!(confirm_history_action(&mut bar, &mut dialog).is_none());
    let mut bar = ActionBar::new();
    request_clear_history(&mut bar, &mut dialog, &jobs);
    assert!(matches!(confirm_history_action(&mut bar, &mut dialog), Some(WorkMsg::ClearHistory)));
}

#[test]
fn settings_errors_point_to_their_field() {
    assert_eq!(settings_error_field("工作目录必须是绝对路径"), "working");
    let mut panel = SettingsPanel::new();
    panel.open();
    assert!(panel.begin_save());
    panel.refused("工作目录必须是绝对路径");
    assert!(panel.begin_save());
}

#[test]
fn a_fixture_keeps_away_from_the_user() {
    assert!(is_result_fixture("result-success") && !is_result_fixture("completed"));
    let ordinary = plan_startup(None);
    let fixture = plan_startup(Some("result-success"));
    assert_ne!(format!("{:?}", ordinary.queue), format!("{:?}", fixture.queue));
    let mut config = default_config();
    isolate_settings(&mut config, "/tmp/root", "http://127.0.0.1:9");
    assert!(config.working_dir.starts_with("/tmp/root") && config.output_dir.starts_with("/tmp/root"));
}

// ---- The server of the fixture ----

#[test]
fn requests_are_read_off_the_wire() {
    let head = "POST /v1/chat/completions HTTP/1.1\r\nContent-Length: 12\r\nHost: x\r\n\r\n";
    let bytes = format!("{head}{{\"a\":\"中\"}}").into_bytes();
    let end = head_end(&bytes).unwrap();
    assert_eq!(end, head.len() - 4);
    assert_eq!(content_length(&head[..end]), 12);
    assert_eq!(head_end(&b"POST / HTTP/1.1\r\n".to_vec()), None);
    assert_eq!(body_range(10, end, 12), None);
    let answer = http_answer("中");
    assert!(answer.contains("Content-Length: 3\r\n") && answer.ends_with("\r\n\r\n中"));
    let body: serde_json::Value =
        serde_json::from_str("{\"messages\":[{\"content\":\"问题 {\\\"kind\\\":\\\"highlights\\\"}\"}]}").unwrap();
    assert!(request_prompt(Some(&body)).starts_with("问题"));
    assert_eq!(request_prompt(None), "");
    assert_eq!(body_prompt("{\"messages\":[{\"content\":\"问题\"}]}".as_bytes()), "问题");
    assert_eq!(body_prompt(b"{\"messages\":[]}"), "");
    assert_eq!(body_prompt(b"no JSON"), "");
    assert_eq!(body_prompt(&[0xff, 0xfe]), "");
}

#[test]
fn errors_of_the_content_are_told() {
    let failed: Result<ContentSnapshotV1, ContentError> = Err(ContentError::Io("磁盘".into()));
    assert!(repair_outcome(&failed).unwrap_err().text.starts_with("修复失败："));
    let token = CancellationToken::new();
    assert!(!token.is_cancelled());
}
