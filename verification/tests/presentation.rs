use bi2read::content_results::current::{
    primary_consumption_record, ArtifactSlotV1, ContentCurrentV1, ContentSlotsV1, ContentSnapshotV1,
};
use bi2read::content_results::evidence::{EvidenceDescriptorV1, SourceContextSnapshotV1, ValidatedEvidenceViewV1};
use bi2read::content_results::kinds::{
    ArtifactKindV1, ContentBlockRoleV1, EffectivePathV1, FallbackReasonCodeV1, SourceStatusV1,
};
use bi2read::content_results::provenance::{DerivationProvenanceV1, FallbackReasonV1};
use bi2read::content_results::record::{
    ContentBlockV1, DerivationRecordV1, SourceRefV1, UtcTime, ValidationCheckV1, ValidationReportV1,
};
use bi2read::content_results::search::{search, SearchLayer, SearchQuery};
use bi2read::content_results::target::{
    ContentSetupV1, GenerationApiFormatV1, GenerationParametersV1, GenerationProviderV1,
};
use bi2read::funasr::Utterance;
use bi2read::jobs::Job;
use bi2read::presentation::{
    format_provenance, full_document_path, parameters_label, present, render_block_sources, write_reading_lines,
    DocumentError, SummaryTier,
};
use bi2read::reading_time::estimate;
use bi2read::jobs::SourceLanguage;
use std::collections::BTreeMap;

/// 2023-11-14 22:13:20 UTC.
const NOW: UtcTime = UtcTime { seconds: 1_700_000_000, nanoseconds: 0 };

fn sample_job() -> Job {
    let mut job = Job::new(uuid::Uuid::new_v4().as_u128(), "BV1test".into(), 1);
    job.speaker_map.insert(0, "Alice".into());
    job.speaker_map.insert(1, "Bob".into());
    job.title = "快照渲染测试".into();
    job.cid = Some(7);
    job.duration_ms = Some(1000);
    job.work_dir = Some("/work".into());
    job.final_output_dir = Some("/output".into());
    job.content_setup = Some(ContentSetupV1::disabled());
    job
}

fn sample_utts() -> Vec<Utterance> {
    vec![
        Utterance { id: "u001".into(), text: "你好世界".into(), start_ms: 0, end_ms: 1500, speaker_id: 0 },
        Utterance { id: "u002".into(), text: "第二句话。".into(), start_ms: 1500, end_ms: 3000, speaker_id: 1 },
    ]
}

fn rules_provenance(fallback_reason: Option<FallbackReasonV1>) -> DerivationProvenanceV1 {
    DerivationProvenanceV1 {
        recipe_id: "faithful-text".into(),
        recipe_version: 1,
        prompt_id: None,
        prompt_version: None,
        rules_id: "faithful-text".into(),
        rules_version: 1,
        provider: None,
        api_format: None,
        endpoint: None,
        model: None,
        parameters: None,
        effective_path: if fallback_reason.is_some() {
            EffectivePathV1::RulesFallback
        } else {
            EffectivePathV1::Rules
        },
        fallback_reason,
    }
}

fn sample_snapshot(job: &Job) -> ContentSnapshotV1 {
    let utterances = sample_utts();
    let mut descriptor = EvidenceDescriptorV1 {
        identity: "a".repeat(64),
        job_id: job.id,
        platform: "bilibili".into(),
        bvid: job.bvid.clone(),
        page: job.page,
        cid: 7,
        duration_ms: 3000,
        raw_sha256: "b".repeat(64),
        utterance_count: utterances.len(),
    };
    descriptor.identity = descriptor.recompute_identity().unwrap();
    let context = SourceContextSnapshotV1 {
        main_title: job.title.clone(),
        part_title: Some("分P测试".into()),
        terms: Vec::new(),
    };
    let record = DerivationRecordV1 {
        schema_version: 1,
        revision: 1,
        kind: ArtifactKindV1::FaithfulText,
        evidence_identity: descriptor.identity.clone(),
        source_context: context.clone(),
        provenance: rules_provenance(None),
        blocks: vec![ContentBlockV1 {
            id: "block-1".into(),
            role: ContentBlockRoleV1::Paragraph,
            title: None,
            text: "你好世界".into(),
            source_refs: vec![SourceRefV1 { utterance_ids: vec!["u001".into()], start_ms: 0, end_ms: 1500 }],
            source_status: SourceStatusV1::Mapped,
        }],
        validation: ValidationReportV1 {
            processed_utterance_count: utterances.len(),
            total_utterance_count: utterances.len(),
            processing_coverage_complete: true,
            processing_chunks: Vec::new(),
            record_source_status: SourceStatusV1::Mapped,
            checks: vec![ValidationCheckV1 { name: "renderer-test".into(), passed: true, message: None }],
        },
        created_at: NOW,
    };
    let slots = ContentSlotsV1 {
        faithful_text: ArtifactSlotV1 { current: Some(record), last_failure: None },
        ..ContentSlotsV1::empty()
    };
    ContentSnapshotV1 {
        current: ContentCurrentV1 {
            schema_version: 1,
            job_id: job.id,
            evidence: descriptor.clone(),
            source_context: context,
            setup: ContentSetupV1::disabled(),
            slots,
        },
        evidence: ValidatedEvidenceViewV1 { descriptor, utterances },
    }
}

#[test]
fn snapshot_renderer_exports_source_and_provenance_without_reading_raw() {
    let job = sample_job();
    let documents = present(&job, &sample_snapshot(&job), SummaryTier::Standard).unwrap();
    assert_eq!(full_document_path(&documents).unwrap(), "/output/full.md");
    assert_eq!(documents.raw_path, "/work/transcript.raw.md");
    assert_eq!(documents.readable_path, "/work/transcript.readable.md");
    let full = documents.full;
    assert!(full.contains("## 内容来源说明"));
    assert!(full.contains("## 忠实整理"));
    assert!(full.contains("recipe faithful-text v1"));
    assert!(full.contains("Evidence identity"));
    assert!(full.contains("## 全文"));
}

#[test]
fn documents_that_do_not_fit_their_job_are_not_written() {
    let job = sample_job();
    let snapshot = sample_snapshot(&job);
    let other = sample_job();
    assert_eq!(
        present(&other, &snapshot, SummaryTier::Standard).unwrap_err(),
        DocumentError::Snapshot("snapshot 与任务 ID 不匹配".into())
    );
    let mut homeless = sample_job();
    homeless.id = job.id;
    homeless.work_dir = None;
    assert_eq!(
        present(&homeless, &snapshot, SummaryTier::Standard).unwrap_err().describe(),
        "document snapshot: 任务没有工作目录"
    );
    let mut unplaced = job.clone();
    unplaced.final_output_dir = None;
    let documents = present(&unplaced, &snapshot, SummaryTier::Standard).unwrap();
    assert!(full_document_path(&documents).is_err());
}

#[test]
fn provenance_renderer_includes_frozen_prompt_and_target() {
    let record = DerivationRecordV1 {
        schema_version: 1,
        revision: 2,
        kind: ArtifactKindV1::DefaultSummary,
        evidence_identity: "a".repeat(64),
        source_context: SourceContextSnapshotV1 { main_title: "测试".into(), part_title: None, terms: Vec::new() },
        provenance: DerivationProvenanceV1 {
            recipe_id: "default-summary".into(),
            recipe_version: 1,
            prompt_id: Some("default-summary".into()),
            prompt_version: Some(1),
            rules_id: "default-summary".into(),
            rules_version: 1,
            provider: Some(GenerationProviderV1::OpenAiCompatible),
            api_format: Some(GenerationApiFormatV1::OpenAiChatCompletions),
            endpoint: Some("http://localhost:8000".into()),
            model: Some("local-model".into()),
            parameters: Some(GenerationParametersV1::openai_default()),
            effective_path: EffectivePathV1::Llm,
            fallback_reason: None,
        },
        blocks: vec![ContentBlockV1 {
            id: "summary-1".into(),
            role: ContentBlockRoleV1::Summary,
            title: None,
            text: "摘要".into(),
            source_refs: Vec::new(),
            source_status: SourceStatusV1::Limited,
        }],
        validation: ValidationReportV1 {
            processed_utterance_count: 1,
            total_utterance_count: 1,
            processing_coverage_complete: true,
            processing_chunks: Vec::new(),
            record_source_status: SourceStatusV1::Limited,
            checks: Vec::new(),
        },
        created_at: NOW,
    };

    let rendered = format_provenance(&record);
    assert!(rendered.contains("prompt default-summary v1"));
    assert!(rendered.contains("OpenAI-compatible / chat-completions"));
    assert!(rendered.contains("http://localhost:8000"));
    assert!(rendered.contains("local-model"));
    assert!(rendered.contains("temperature=0.2"));
    assert!(rendered.contains("2023-11-14T22:13:20"));

    let mut fallback = record;
    fallback.kind = ArtifactKindV1::FaithfulText;
    fallback.provenance = rules_provenance(Some(FallbackReasonV1 {
        code: FallbackReasonCodeV1::TargetUnavailable,
        message: "本地 AI 配置不可用".into(),
    }));
    let rendered = format_provenance(&fallback);
    assert!(rendered.contains("target_unavailable / AI 配置不可用"));
    assert!(rendered.contains("本地 AI 配置不可用"));
}

#[test]
fn times_are_written_as_chrono_writes_them() {
    let job = sample_job();
    let mut record = sample_snapshot(&job).current.slots.faithful_text.current.unwrap();
    for (seconds, nanoseconds) in [(0i64, 0u32), (1_700_000_000, 5), (-1, 999_999_999), (253_402_300_799, 120_000)] {
        record.created_at = UtcTime { seconds, nanoseconds };
        let wanted = chrono::DateTime::from_timestamp(seconds, nanoseconds).unwrap().to_rfc3339();
        assert!(format_provenance(&record).contains(&wanted), "{wanted}");
    }
}

#[test]
fn the_sources_of_a_block_are_linked() {
    let job = sample_job();
    let snapshot = sample_snapshot(&job);
    let record = snapshot.current.slots.faithful_text.current.as_ref().unwrap();
    let line = render_block_sources(&job, &record.blocks[0], &snapshot.evidence.utterances);
    assert!(line.contains("https://www.bilibili.com/video/BV1test?p=1&t=0"), "{line}");
    assert_eq!(parameters_label(Some(GenerationParametersV1::anthropic_default())), "max_tokens=4096");
}

#[test]
fn the_chosen_tier_is_read_first_and_else_the_faithful_text() {
    let job = sample_job();
    let mut snapshot = sample_snapshot(&job);
    let kind = |s: &ContentSnapshotV1, tier| primary_consumption_record(s, tier).map(|r| r.kind);
    assert_eq!(kind(&snapshot, None), Some(ArtifactKindV1::FaithfulText));
    assert_eq!(kind(&snapshot, Some(ArtifactKindV1::LongSummary)), Some(ArtifactKindV1::FaithfulText));
    assert_eq!(SummaryTier::Long.resolve(&snapshot), None);
    let mut summary = snapshot.current.slots.faithful_text.current.clone().unwrap();
    summary.kind = ArtifactKindV1::LongSummary;
    snapshot.current.slots.long_summary.current = Some(summary);
    assert_eq!(kind(&snapshot, Some(ArtifactKindV1::LongSummary)), Some(ArtifactKindV1::LongSummary));
    assert_eq!(SummaryTier::Long.resolve(&snapshot), Some(ArtifactKindV1::LongSummary));
}

#[test]
fn reading_takes_as_long_as_the_words_say() {
    let e = estimate(&"字".repeat(600), Some(600_000), Some(SourceLanguage::Zh));
    let lines = write_reading_lines(e);
    assert!(lines.contains("- 正文规模: 约 600 字"), "{lines}");
    assert!(lines.contains("预计阅读"), "{lines}");
}

#[test]
fn results_are_searched_by_text_time_and_speaker() {
    let job = sample_job();
    let snapshot = sample_snapshot(&job);
    let mut speakers = BTreeMap::new();
    speakers.insert(0u32, "Alice".to_string());
    speakers.insert(1u32, "Bob".to_string());
    let hits = search(&snapshot, &speakers, &SearchQuery::Text("第二句".into()));
    assert!(hits.iter().any(|h| h.layer == SearchLayer::RawTranscript && h.snippet.contains("【第二句】")));
    assert!(!hits.iter().any(|h| h.layer == SearchLayer::FaithfulText));
    let hits = search(&snapshot, &speakers, &SearchQuery::Text("你好".into()));
    assert!(hits.iter().any(|h| h.layer == SearchLayer::FaithfulText));
    let hits = search(&snapshot, &speakers, &SearchQuery::TimeRange(2_000, 2_500));
    assert!(!hits.is_empty() && hits.iter().all(|h| h.snippet.contains("第二句话")));
    let hits = search(&snapshot, &speakers, &SearchQuery::Speaker("bob".into()));
    assert!(!hits.is_empty() && hits.iter().all(|h| h.snippet.contains("第二句话")));
    assert!(search(&snapshot, &speakers, &SearchQuery::Text("没有".into())).is_empty());
}
