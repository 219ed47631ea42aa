use bi2read::document::{
    fmt_duration, fmt_ts, render_faithful_body, render_full_markdown, render_raw_markdown, render_readable_body,
    DocMeta,
};
use bi2read::content_results::kinds::{ContentBlockRoleV1, SourceStatusV1};
use bi2read::content_results::record::{ContentBlockV1, SourceRefV1};
use bi2read::funasr::{RuntimeBackend, Utterance};
use bi2read::ids::id_text;
use bi2read::jobs::{
    CreatedFrom, Job, RuntimeSource, SourceLanguage, StageState, TranscriptionResult, TranscriptionSelection,
};

fn new_id() -> u128 {
    uuid::Uuid::new_v4().as_u128()
}

fn utterance(id: &str, text: &str, start_ms: u64, end_ms: u64, speaker_id: u32) -> Utterance {
    Utterance { id: id.to_string(), text: text.to_string(), start_ms, end_ms, speaker_id }
}

fn sample_job() -> Job {
    let mut j = Job::new(new_id(), "BV1test".to_string(), 1);
    j.speaker_map.insert(0, "Alice".to_string());
    j.speaker_map.insert(1, "Bob".to_string());
    j
}

fn sample_utts() -> Vec<Utterance> {
    vec![
        utterance("u001", "你好世界", 0, 1500, 0),
        utterance("u002", "第二句话。", 1500, 3000, 1),
    ]
}

fn meta(bvid: &str, page: u32, source_url: Option<&str>) -> DocMeta {
    DocMeta {
        title: "t".to_string(),
        up_name: "u".to_string(),
        duration_ms: 1000,
        bvid: bvid.to_string(),
        page,
        source_url: source_url.map(str::to_string),
    }
}

#[test]
fn raw_markdown_uses_speaker_map_and_embeds_job_id() {
    let job = sample_job();
    let md = render_raw_markdown(&job, &sample_utts());
    let id = uuid::Uuid::from_u128(job.id);
    assert!(md.contains(&format!("<!-- job-id: {} -->", id)));
    assert!(md.contains("[Alice]"));
    assert!(md.contains("[Bob]"));
    assert!(md.contains("你好世界"));
    assert!(md.contains("[00:00:00](https://www.bilibili.com/video/BV1test?p=1&t=0)"));
}

#[test]
fn ids_are_spelled_as_uuids() {
    for _ in 0..20 {
        let id = uuid::Uuid::new_v4();
        assert_eq!(id_text(id.as_u128()), id.to_string());
    }
    assert_eq!(id_text(0), "00000000-0000-0000-0000-000000000000");
}

#[test]
fn full_markdown_has_header_and_link() {
    let job = sample_job();
    let mut meta = meta("BV1test", 1, None);
    meta.title = "测试视频".to_string();
    meta.up_name = "测试UP".to_string();
    meta.duration_ms = 47 * 60 * 1000;
    let md = render_full_markdown(&job, &meta, &sample_utts(), None, "/tmp/transcript.raw.md");
    assert!(md.contains("# 测试视频"));
    assert!(md.contains("UP主: 测试UP"));
    assert!(md.contains(
        "原视频链接: [https://www.bilibili.com/video/BV1test](https://www.bilibili.com/video/BV1test)"
    ));
    assert!(md.contains("阅读时间"));
    assert!(md.contains("原始稿本地路径: /tmp/transcript.raw.md"));
    assert!(md.contains(&format!("<!-- job-id: {} -->", uuid::Uuid::from_u128(job.id))));
}

#[test]
fn full_markdown_page_gt_1_includes_p() {
    let job = Job::new(new_id(), "BV1test".to_string(), 2);
    let md = render_full_markdown(&job, &meta("BV1test", 2, None), &Vec::new(), None, "/x.md");
    assert!(md.contains("?p=2"));
}

#[test]
fn full_markdown_records_requested_and_reported_runtime_identity() {
    let mut job = sample_job();
    job.transcription_selection = Some(TranscriptionSelection {
        runtime_source: RuntimeSource::External,
        runtime_project: "/runtime/project".to_string(),
        runtime_data_dir: "/runtime/data".to_string(),
        runtime_identity: "runtime-v2-fingerprint".to_string(),
        runtime_backend: RuntimeBackend::DockerCompose,
        model_description: Some("English model".to_string()),
        requested_language: SourceLanguage::En,
        created_from: CreatedFrom::Cli,
    });
    job.transcription_result = Some(TranscriptionResult {
        reported_language: Some(SourceLanguage::En),
        reported_model: Some("reported-model".to_string()),
        reported_runtime_identity: Some("runtime-v2-fingerprint".to_string()),
    });
    let md = render_full_markdown(&job, &meta("BV1test", 1, None), &sample_utts(), None, "/raw.md");
    assert!(md.contains("Runtime source: external"));
    assert!(md.contains("Runtime backend: docker-compose"));
    assert!(md.contains("Runtime identity: runtime-v2-fingerprint"));
    assert!(md.contains("请求语言: 英文"));
    assert!(md.contains("实际语言: 英文"));
    assert!(md.contains("实际模型: reported-model"));
}

#[test]
fn readable_body_falls_back_when_empty() {
    let job = sample_job();
    let refined = vec!["   ".to_string(), String::new()];
    let body = render_readable_body(&job, &sample_utts(), Some(&refined));
    assert!(body.contains("你好世界"));
    assert!(body.contains("[00:00:01](https://www.bilibili.com/video/BV1test?p=1&t=1)"));
}

#[test]
fn readable_body_uses_refined_text_without_losing_links() {
    let job = sample_job();
    let refined = vec!["整理后的第一句。".to_string(), "整理后的第二句。".to_string()];
    let body = render_readable_body(&job, &sample_utts(), Some(&refined));
    assert!(body.contains("整理后的第一句。"));
    assert!(body.contains("整理后的第二句。"));
    assert!(body.contains("[00:00:00](https://www.bilibili.com/video/BV1test?p=1&t=0)"));
    assert!(body.contains("[00:00:01](https://www.bilibili.com/video/BV1test?p=1&t=1)"));
}

#[test]
fn readable_body_groups_only_adjacent_segments_from_the_same_speaker() {
    let job = sample_job();
    let utterances = vec![
        utterance("u001", "第一段，", 1_000, 2_000, 0),
        utterance("u002", "紧接第二段。", 2_000, 3_000, 0),
        utterance("u003", "Bob 发言。", 3_000, 4_000, 1),
        utterance("u004", "Alice 再次发言。", 4_000, 5_000, 0),
    ];
    let body = render_readable_body(&job, &utterances, None);
    assert!(body.contains("第一段，紧接第二段。"));
    assert!(!body.contains("[00:00:02]"));
    assert_eq!(body.matches("**[Alice]**").count(), 2);
    assert_eq!(body.matches("**[Bob]**").count(), 1);
    assert!(body.contains("[00:00:01]"));
    assert!(body.contains("[00:00:03]"));
    assert!(body.contains("[00:00:04]"));

    let raw = render_raw_markdown(&job, &utterances);
    assert_eq!(raw.matches("**[Alice]**").count(), 3);
    assert!(raw.contains("[00:00:02]"));
}

#[test]
fn doc_meta_video_url_canonicalizes_bare_bvid_input() {
    let meta = meta("BV1GJ411x7h7", 1, Some("BV1GJ411x7h7"));
    assert_eq!(meta.video_url(), "https://www.bilibili.com/video/BV1GJ411x7h7");
}

#[test]
fn doc_meta_video_url_canonicalizes_full_url_and_preserves_page() {
    let meta = meta(
        "BV1GJ411x7h7",
        3,
        Some("https://www.bilibili.com/video/BV1GJ411x7h7?p=3&spm_id_from=333.1"),
    );
    assert_eq!(meta.video_url(), "https://www.bilibili.com/video/BV1GJ411x7h7?p=3");
}

#[test]
fn doc_meta_video_url_supports_legacy_av_id() {
    let meta = meta("av170001", 1, Some("av170001"));
    assert_eq!(meta.video_url(), "https://www.bilibili.com/video/av170001");
}

#[test]
fn doc_meta_video_url_uses_resolved_job_bvid_for_short_link() {
    let meta = meta("BV1GJ411x7h7", 2, Some("https://b23.tv/abc123"));
    assert_eq!(meta.video_url(), "https://www.bilibili.com/video/BV1GJ411x7h7?p=2");
}

#[test]
fn utterance_timestamp_links_floor_milliseconds_and_keep_display_time() {
    let job = Job::new(new_id(), "BV1GJ411x7h7".to_string(), 2);
    let utterances = vec![
        utterance("zero", "zero", 0, 1, 0),
        utterance("subsecond", "subsecond", 999, 1000, 0),
        utterance("hour", "hour", 3_661_999, 3_662_000, 0),
    ];
    let raw = render_raw_markdown(&job, &utterances);
    assert!(raw.contains("[00:00:00](https://www.bilibili.com/video/BV1GJ411x7h7?p=2&t=0)"));
    assert!(raw.contains("[01:01:01](https://www.bilibili.com/video/BV1GJ411x7h7?p=2&t=3661)"));

    let readable = render_readable_body(&job, &utterances, None);
    assert!(readable.contains("[00:00:00](https://www.bilibili.com/video/BV1GJ411x7h7?p=2&t=0)"));
    assert!(!readable.contains("[01:01:01]"));
}

#[test]
fn _stage_state_import_kept() {
    let _ = StageState::Pending;
}

#[test]
fn times_are_written_exactly() {
    assert_eq!(fmt_ts(3_661_999), "01:01:01");
    assert_eq!(fmt_ts(360_000_000), "100:00:00");
    assert_eq!(fmt_duration(2_833_000), "47分13秒");
    assert_eq!(fmt_duration(3_723_000), "1时02分03秒");
}

#[test]
fn a_faithful_block_without_a_source_shows_no_time() {
    let job = sample_job();
    let block = |refs: Vec<SourceRefV1>, status: SourceStatusV1| ContentBlockV1 {
        id: "b".to_string(),
        role: ContentBlockRoleV1::Paragraph,
        title: None,
        text: "正文".to_string(),
        source_refs: refs,
        source_status: status,
    };
    let source = SourceRefV1 { utterance_ids: vec!["u002".to_string()], start_ms: 1500, end_ms: 3000 };
    let mapped = render_faithful_body(&job, &vec![block(vec![source], SourceStatusV1::Mapped)], &sample_utts());
    assert!(mapped.contains("[Bob]"));
    assert!(mapped.contains("&t=1)"));
    let limited = render_faithful_body(&job, &vec![block(Vec::new(), SourceStatusV1::Limited)], &sample_utts());
    assert_eq!(limited, "> 来源受限\n正文\n\n");
}

#[test]
fn speakers_are_named_in_the_order_of_their_numbers() {
    let job = sample_job();
    let us = vec![utterance("a", "x", 0, 1, 7), utterance("b", "y", 1, 2, 1), utterance("c", "z", 2, 3, 7)];
    let md = render_full_markdown(&job, &meta("BV1test", 1, None), &us, None, "/raw.md");
    assert!(md.contains("- Speaker 名称说明: Bob / Speaker 7\n"));
}

#[test]
fn a_new_name_changes_its_own_lines() {
    let job = sample_job();
    let mut renamed = job.clone();
    renamed.speaker_map.insert(1, "Carol".to_string());
    let before = render_readable_body(&job, &sample_utts(), None);
    let after = render_readable_body(&renamed, &sample_utts(), None);
    assert_eq!(after, before.replace("[Bob]", "[Carol]"));
    assert_ne!(after, before);
    let alone = vec![utterance("u001", "你好世界", 0, 1500, 0)];
    assert_eq!(render_readable_body(&renamed, &alone, None), render_readable_body(&job, &alone, None));
}
