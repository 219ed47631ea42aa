use bi2read::content_results::assembly::{
    build_record, convert_generated_blocks, merge_chunk_results, validate_chunk_result,
    validate_record_against_evidence, validate_summary_tier_length, GeneratedBlock, GeneratedChunk,
    GenerationPortError,
};
use bi2read::content_results::chunks::{chunk_utterances, CHUNK_MAX_CHARS};
use bi2read::content_results::current::{
    current, load_current, load_matching_current, ContentCurrentV1, ContentSlotsV1, ContentSnapshotV1, ContentViewV1,
    CurrentIssueV1, StoredCurrent,
};
use bi2read::content_results::connection::read_reply;
use bi2read::content_results::endpoint::{canonical_local_endpoint, require_canonical_local_endpoint};
use bi2read::content_results::error::{ContentError, ContentSchemaError};
use bi2read::content_results::evidence::{
    expected_context, read_evidence, EvidenceDescriptorV1, RawTranscript, SourceContextSnapshotV1,
    ValidatedEvidenceViewV1,
};
use bi2read::content_results::execute::{
    authorize, resume_initial, resume_regenerate, settle_regenerate, start_initial, start_regenerate,
    validate_current_snapshot, InitialStep, Intent, RegenerateStep,
};
use bi2read::content_results::generation::{make_prompt, GenerationRequest};
use bi2read::content_results::kinds::{
    recipe_id, ArtifactKindV1, ContentBlockRoleV1, EffectivePathV1, FailureCodeV1, FallbackReasonCodeV1,
    RegenerableKind, SourceStatusV1,
};
use bi2read::content_results::lexical::validate_faithful_text_pair;
use bi2read::content_results::provenance::{
    build_provenance, validate_record_provenance_for_setup, DerivationProvenanceV1, FallbackReasonV1,
};
use bi2read::content_results::record::{
    required_validation_checks, validate_record_shape, ContentBlockV1, DerivationRecordV1, ProcessingChunkV1,
    SourceRefV1, UtcTime, ValidationCheckV1, ValidationReportV1,
};
use bi2read::content_results::saving::{begin_save, save_step, SaveEvent, SaveStep};
use bi2read::content_results::sources::{validate_chapter_partitions, validate_supporting_block};
use bi2read::content_results::target::{
    resolve_content_setup, ApiFormat, ContentSetupV1, GenerationApiFormatV1, GenerationParametersV1,
    GenerationProviderV1, InitialTargetV1, LlmConnection, ReadyGenerationTargetV1, TargetUnavailableCodeV1,
    TargetUnavailableV1, CONTENT_SCHEMA_VERSION, MAX_UNAVAILABLE_FIELD_CHARS, MAX_UNAVAILABLE_MESSAGE_CHARS,
};
use bi2read::funasr::Utterance;
use bi2read::jobs::{Job, JobStatus};

const INITIAL_ALL: [ArtifactKindV1; 4] = [
    ArtifactKindV1::FaithfulText,
    ArtifactKindV1::DefaultSummary,
    ArtifactKindV1::Highlights,
    ArtifactKindV1::Chapters,
];

const NOW: UtcTime = UtcTime { seconds: 1_700_000_000, nanoseconds: 0 };

fn new_id() -> u128 {
    uuid::Uuid::new_v4().as_u128()
}

fn openai(temperature: f64) -> GenerationParametersV1 {
    GenerationParametersV1::OpenAiChatCompletions { temperature_bits: temperature.to_bits() }
}

fn evidence(job_id: u128) -> EvidenceDescriptorV1 {
    let mut descriptor = EvidenceDescriptorV1 {
        identity: String::new(),
        job_id,
        platform: "bilibili".into(),
        bvid: "BV1fixture".into(),
        page: 1,
        cid: 7,
        duration_ms: 1000,
        raw_sha256: "b".repeat(64),
        utterance_count: 1,
    };
    descriptor.identity = descriptor.recompute_identity().unwrap();
    descriptor
}

fn fixture_context() -> SourceContextSnapshotV1 {
    SourceContextSnapshotV1 {
        main_title: "主标题".into(),
        part_title: Some("分P标题".into()),
        terms: vec!["术语".into()],
    }
}

fn passed(kind: ArtifactKindV1) -> Vec<ValidationCheckV1> {
    required_validation_checks(kind)
        .into_iter()
        .map(|name| ValidationCheckV1 { name: name.into(), passed: true, message: None })
        .collect()
}

fn record(job_id: u128, kind: ArtifactKindV1) -> DerivationRecordV1 {
    DerivationRecordV1 {
        schema_version: CONTENT_SCHEMA_VERSION,
        revision: 1,
        kind,
        evidence_identity: evidence(job_id).identity,
        source_context: fixture_context(),
        provenance: DerivationProvenanceV1 {
            recipe_id: "faithful-text".into(),
            recipe_version: 1,
            prompt_id: None,
            prompt_version: None,
            rules_id: "faithful-text".into(),
            rules_version: 1,
            provider: None,
            api_format: None,
            endpoint: None,
            model: None,
            parameters: None,
            effective_path: EffectivePathV1::Rules,
            fallback_reason: None,
        },
        blocks: vec![ContentBlockV1 {
            id: "b1".into(),
            role: ContentBlockRoleV1::Paragraph,
            title: None,
            text: "内容".into(),
            source_refs: vec![SourceRefV1 { utterance_ids: vec!["u1".into()], start_ms: 0, end_ms: 1000 }],
            source_status: SourceStatusV1::Mapped,
        }],
        validation: ValidationReportV1 {
            processed_utterance_count: 1,
            total_utterance_count: 1,
            processing_coverage_complete: true,
            processing_chunks: vec![ProcessingChunkV1 {
                chunk_index: 0,
                input_utterance_ids: vec!["u1".into()],
                output_block_ids: vec!["b1".into()],
            }],
            record_source_status: SourceStatusV1::Mapped,
            checks: passed(kind),
        },
        created_at: NOW,
    }
}

fn fixture_current(job_id: u128) -> ContentCurrentV1 {
    let mut slots = ContentSlotsV1::empty();
    slots.faithful_text.current = Some(record(job_id, ArtifactKindV1::FaithfulText));
    ContentCurrentV1 {
        schema_version: CONTENT_SCHEMA_VERSION,
        job_id,
        evidence: evidence(job_id),
        source_context: fixture_context(),
        setup: ContentSetupV1::disabled(),
        slots,
    }
}

fn local_target() -> ReadyGenerationTargetV1 {
    ReadyGenerationTargetV1 {
        provider: GenerationProviderV1::OpenAiCompatible,
        api_format: GenerationApiFormatV1::OpenAiChatCompletions,
        endpoint: "http://127.0.0.1:1234".into(),
        model: "local-model".into(),
        parameters: GenerationParametersV1::openai_default(),
    }
}

#[test]
fn setup_roundtrip_preserves_disabled_ready_and_unavailable() {
    let values = [
        ContentSetupV1::disabled(),
        ContentSetupV1::ready(local_target()),
        ContentSetupV1::unavailable(TargetUnavailableV1 {
            code: TargetUnavailableCodeV1::ConnectionMissing,
            message: "本地 AI 不可用".into(),
            invalid_field: None,
        }),
    ];
    for value in values {
        value.validate().unwrap();
        assert_eq!(value.clone(), value);
    }

    let mut wrong_openai =
        ContentSetupV1::ready(ReadyGenerationTargetV1 { parameters: openai(0.3), ..local_target() });
    assert!(wrong_openai.validate().is_err());
    wrong_openai.initial_target = InitialTargetV1::Ready(ReadyGenerationTargetV1 {
        provider: GenerationProviderV1::AnthropicCompatible,
        api_format: GenerationApiFormatV1::AnthropicMessages,
        endpoint: "http://127.0.0.1:1234".into(),
        model: "local-model".into(),
        parameters: GenerationParametersV1::AnthropicMessages { max_tokens: 2048 },
    });
    assert!(wrong_openai.validate().is_err());
}

#[test]
fn creation_helper_derives_the_three_closed_setup_states() {
    let unavailable = TargetUnavailableV1 {
        code: TargetUnavailableCodeV1::EndpointInvalid,
        message: "本地 AI 地址不可用".into(),
        invalid_field: Some("endpoint".into()),
    };
    let states = [
        InitialTargetV1::Disabled,
        InitialTargetV1::Ready(local_target()),
        InitialTargetV1::Unavailable(unavailable),
    ];
    let requested = [false, true, true];
    for (state, requested) in states.into_iter().zip(requested) {
        let setup = ContentSetupV1::from_initial_target(state);
        assert_eq!(setup.enhancements_requested, requested);
        setup.validate().unwrap();
    }
}

#[test]
fn generation_wire_names_and_fixed_typed_parameters_are_stable() {
    assert_eq!(GenerationParametersV1::openai_default(), openai(0.2));
    assert_eq!(
        GenerationParametersV1::anthropic_default(),
        GenerationParametersV1::AnthropicMessages { max_tokens: 4096 }
    );
    assert!(GenerationParametersV1::openai_default().validate().is_ok());
    assert!(GenerationParametersV1::anthropic_default().validate().is_ok());
    assert!(openai(0.3).validate().is_err());
    assert!(GenerationParametersV1::AnthropicMessages { max_tokens: 4095 }.validate().is_err());
    assert!(openai(f64::NAN).validate().is_err());
}

#[test]
fn a_canonical_endpoint_is_its_own_spelling() {
    for (given, canonical) in [
        ("http://localhost:8080/base//v1", "http://localhost:8080/base"),
        ("http://localhost/v1/v1", "http://localhost"),
        ("http://127.0.0.1//v1//chat///", "http://127.0.0.1//v1//chat"),
        (" HTTPS://[::1]:443/a%20b/../\u{e9}/v1/messages ", "https://[::1]/%C3%A9"),
        ("http://localhost/a\u{3000}b", "http://localhost/a%E3%80%80b"),
        ("http://localhost/a/%2e%2E/b/.//c\\d/v1", "http://localhost/b//c/d"),
        ("http://localhost/C|/[x]^`{}\"<>~;=@:!$&'()*+,%2f%zz//v1", "http://localhost/C|/[x]^%60%7B%7D%22%3C%3E~;=@:!$&'()*+,%2f%zz"),
        ("http:\\\\0x7f.1:00080/..//v1", "http://127.0.0.1"),
        ("http://localhost:1/x/v1/", "http://localhost:1/x"),
    ] {
        let c = canonical_local_endpoint(given).unwrap();
        assert_eq!(c, canonical, "{given}");
        assert_eq!(canonical_local_endpoint(&c).unwrap(), c);
        assert!(require_canonical_local_endpoint(&c).is_ok());
    }
    assert!(require_canonical_local_endpoint("http://localhost/").is_err());
}

#[test]
fn an_answer_may_have_words_around_its_object() {
    let answer = |content: &str| {
        let mut message = serde_json::Map::new();
        message.insert("content".into(), serde_json::Value::String(content.into()));
        let mut choice = serde_json::Map::new();
        choice.insert("message".into(), serde_json::Value::Object(message));
        let mut body = serde_json::Map::new();
        body.insert("choices".into(), serde_json::Value::Array(vec![serde_json::Value::Object(choice)]));
        serde_json::Value::Object(body).to_string()
    };
    let format = GenerationApiFormatV1::OpenAiChatCompletions;
    let object = "{\"a\":\"}\",\"b\":{}}";
    assert_eq!(read_reply(format, &answer(&format!("Here: {object} Done."))).unwrap(), object);
    assert!(read_reply(format, &answer("no object {")).is_err());
    assert!(read_reply(format, "{\"choices\":[]}").is_err());
    assert!(read_reply(format, "no JSON").is_err());
}

#[test]
fn local_endpoint_normalization_is_shared_by_ready_and_provenance_validation() {
    assert_eq!(
        canonical_local_endpoint("http://LOCALHOST:80/v1/chat/completions").unwrap(),
        "http://localhost"
    );
    assert_eq!(
        canonical_local_endpoint("https://[::1]:9443/base/v1/messages/").unwrap(),
        "https://[::1]:9443/base"
    );

    let invalid = [
        "https://remote.example",
        "http://user@localhost",
        "http://localhost/?token=secret",
        "http://localhost/#fragment",
    ];
    for endpoint in invalid {
        assert!(canonical_local_endpoint(endpoint).is_err(), "{endpoint}");
    }

    let mut ready = ReadyGenerationTargetV1 { endpoint: "http://localhost/v1".into(), ..local_target() };
    assert!(ready.validate().is_err());
    ready.endpoint = canonical_local_endpoint(&ready.endpoint).unwrap();
    ready.validate().unwrap();

    let mut provenance = DerivationProvenanceV1 {
        recipe_id: "faithful-text".into(),
        recipe_version: 1,
        prompt_id: Some("faithful-text".into()),
        prompt_version: Some(1),
        rules_id: "faithful-text".into(),
        rules_version: 1,
        provider: Some(GenerationProviderV1::OpenAiCompatible),
        api_format: Some(GenerationApiFormatV1::OpenAiChatCompletions),
        endpoint: Some("http://localhost/".into()),
        model: Some("local-model".into()),
        parameters: Some(GenerationParametersV1::openai_default()),
        effective_path: EffectivePathV1::Llm,
        fallback_reason: None,
    };
    assert!(provenance.validate(ArtifactKindV1::FaithfulText).is_err());
    provenance.endpoint = Some("http://localhost".into());
    provenance.validate(ArtifactKindV1::FaithfulText).unwrap();
}

#[test]
fn unavailable_reason_is_bounded_and_cannot_persist_sensitive_detail() {
    let valid = TargetUnavailableV1 {
        code: TargetUnavailableCodeV1::ConnectionMissing,
        message: "x".repeat(MAX_UNAVAILABLE_MESSAGE_CHARS),
        invalid_field: Some("endpoint".into()),
    };
    valid.validate().unwrap();

    let mut too_long = valid.clone();
    too_long.message.push('x');
    assert!(too_long.validate().is_err());

    for message in
        ["http://127.0.0.1:1234/v1", "request failed: api_key=secret", "request failed?token=secret"]
    {
        let mut leaked = valid.clone();
        leaked.message = message.into();
        assert!(leaked.validate().is_err(), "message should be rejected: {message}");
    }
    let mut long_field = valid;
    long_field.invalid_field = Some("x".repeat(MAX_UNAVAILABLE_FIELD_CHARS + 1));
    assert!(long_field.validate().is_err());
}

#[test]
fn evidence_identity_is_fixed_material_and_lowercase_only() {
    let descriptor = evidence(new_id());
    descriptor.validate().unwrap();
    assert_eq!(descriptor.recompute_identity().unwrap(), descriptor.identity);

    let mut mismatched = descriptor.clone();
    mismatched.duration_ms += 1;
    assert!(mismatched.validate().is_err());

    let mut uppercase = descriptor;
    uppercase.raw_sha256 = "A".repeat(64);
    assert!(uppercase.recompute_identity().is_err());
    assert!(uppercase.validate().is_err());
}

#[test]
fn source_context_fixture_keeps_part_title_and_terms() {
    let value = fixture_current(new_id());
    assert_eq!(value.source_context.main_title, "主标题");
    assert_eq!(value.source_context.part_title.as_deref(), Some("分P标题"));
    assert_eq!(value.source_context.terms, vec!["术语"]);
    value.validate().unwrap();
}

#[test]
fn persisted_provenance_rejects_a_non_fixed_typed_parameter() {
    let mut value = fixture_current(new_id());
    let provenance = &mut value.slots.faithful_text.current.as_mut().unwrap().provenance;
    provenance.provider = Some(GenerationProviderV1::OpenAiCompatible);
    provenance.api_format = Some(GenerationApiFormatV1::OpenAiChatCompletions);
    provenance.endpoint = Some("http://127.0.0.1:1234".into());
    provenance.model = Some("local-model".into());
    provenance.parameters = Some(openai(0.3));
    provenance.effective_path = EffectivePathV1::Llm;
    assert!(value.validate().is_err());
}

#[test]
fn current_rejects_zero_revision_and_mismatched_source_context() {
    let job_id = new_id();
    let mut zero_revision = fixture_current(job_id);
    zero_revision.slots.faithful_text.current.as_mut().unwrap().revision = 0;
    assert!(zero_revision.validate().is_err());

    let mut mismatched_context = fixture_current(job_id);
    mismatched_context.slots.faithful_text.current.as_mut().unwrap().source_context.terms =
        vec!["另一个术语".into()];
    assert!(mismatched_context.validate().is_err());
}

#[test]
fn damaged_current_is_rejected_and_unknown_kind_is_rejected() {
    assert!(matches!(
        load_current(StoredCurrent::NotJson("expected ident".into())),
        Err(ContentError::Schema(ContentSchemaError::Json(_)))
    ));
    assert!(matches!(load_current(StoredCurrent::Unreadable("denied".into())), Err(ContentError::Io(_))));
    assert!(load_current(StoredCurrent::Missing).unwrap().is_none());
    let value = fixture_current(new_id());
    assert_eq!(load_current(StoredCurrent::Parsed(value.clone())).unwrap(), Some(value));
}

// ---- Runs against a model that always answers ----

struct FakeGenerationPort {
    fail_kind: Option<ArtifactKindV1>,
    limited_kind: Option<ArtifactKindV1>,
    title_kind: Option<ArtifactKindV1>,
    calls: Vec<(ArtifactKindV1, usize, usize)>,
}

impl FakeGenerationPort {
    fn new() -> Self {
        Self { fail_kind: None, limited_kind: None, title_kind: None, calls: Vec::new() }
    }

    fn with_failure(kind: ArtifactKindV1) -> Self {
        Self { fail_kind: Some(kind), ..Self::new() }
    }

    fn call_count(&self) -> usize {
        self.calls.len()
    }

    fn generate(&mut self, request: &GenerationRequest) -> Result<GeneratedChunk, GenerationPortError> {
        self.calls.push((request.kind, request.chunk_index, request.chunk_count));
        if self.fail_kind == Some(request.kind) {
            return Err(GenerationPortError::Transport);
        }
        let (target_utterances, text) = match request.kind {
            ArtifactKindV1::DefaultSummary => {
                let utts: Vec<&Utterance> = request.utterances.iter().take(2).collect();
                let text = utts.iter().map(|u| u.text.as_str()).collect::<String>();
                (utts, text)
            }
            ArtifactKindV1::FaithfulText => {
                let utts: Vec<&Utterance> = request.utterances.iter().collect();
                let text = utts.iter().map(|u| u.text.as_str()).collect::<String>();
                (utts, text)
            }
            ArtifactKindV1::Highlights => {
                let utts: Vec<&Utterance> = request.utterances.iter().take(1).collect();
                (utts, "原始文本 123。".into())
            }
            ArtifactKindV1::Chapters => {
                let utts: Vec<&Utterance> = request.utterances.iter().collect();
                (utts, "章节：完整覆盖本段内容。".into())
            }
            ArtifactKindV1::ShortSummary => {
                let utts: Vec<&Utterance> = request.utterances.iter().take(1).collect();
                (utts, "短摘要结论。".into())
            }
            ArtifactKindV1::LongSummary => {
                let utts: Vec<&Utterance> = request.utterances.iter().collect();
                let text = format!(
                    "{}{}",
                    "长摘要概述。".repeat(90),
                    "本段内容已按章节展开并保留来源映射，覆盖全部输入片段。"
                );
                (utts, text)
            }
        };
        let source_refs = if self.limited_kind == Some(request.kind) {
            Vec::new()
        } else {
            vec![SourceRefV1 {
                utterance_ids: target_utterances.iter().map(|u| u.id.clone()).collect(),
                start_ms: target_utterances.first().unwrap().start_ms,
                end_ms: target_utterances.last().unwrap().end_ms,
            }]
        };
        Ok(GeneratedChunk {
            processed_utterance_ids: request.utterances.iter().map(|u| u.id.clone()).collect(),
            blocks: vec![GeneratedBlock {
                id: format!("fake-{}", request.chunk_index),
                title: if self.title_kind == Some(request.kind) {
                    Some("模型标题".into())
                } else if request.kind == ArtifactKindV1::Chapters {
                    Some(format!("第{}块", request.chunk_index + 1))
                } else {
                    None
                },
                text,
                declared_role: None,
                source_refs,
                declared_status: None,
            }],
        })
    }
}

fn test_target() -> ReadyGenerationTargetV1 {
    ReadyGenerationTargetV1 { model: "fixture-model".into(), ..local_target() }
}

fn ready_setup() -> ContentSetupV1 {
    ContentSetupV1::ready(test_target())
}

/// A finished job with its transcript, and what is stored of its result.
struct Place {
    job: Job,
    utterances: Vec<Utterance>,
    stored: Option<ContentCurrentV1>,
}

impl Place {
    fn new(setup: ContentSetupV1, count: usize) -> Self {
        let utterances: Vec<Utterance> = (0..count)
            .map(|index| Utterance {
                id: format!("u{index:04}"),
                text: format!(
                    "第 {index} 段原始文本，这是用于测试可信文字结果生成的完整段落描述信息，核对来源映射与正文字数规模，保证摘要档位长度契约能够正确校验通过并且保留所有可追溯引用关系与对应内容。数字 123，链接 https://example.com/{index}"
                ),
                start_ms: index as u64 * 1_000,
                end_ms: index as u64 * 1_000 + 900,
                speaker_id: (index % 2) as u32,
            })
            .collect();
        let mut job = Job::new(new_id(), "BV1fixture".into(), 1);
        job.title = "主标题".into();
        job.part_title = Some("分P标题".into());
        job.work_dir = Some("/work".into());
        job.cid = Some(7);
        job.duration_ms = Some(count as u64 * 1_000);
        job.status = JobStatus::Completed;
        job.content_setup = Some(setup);
        Self { job, utterances, stored: None }
    }

    fn read_evidence(&self) -> Result<ValidatedEvidenceViewV1, ContentError> {
        let bytes = format!("{:?}", self.utterances).into_bytes();
        read_evidence(&self.job, RawTranscript::Parsed(bytes, self.utterances.clone()))
    }

    fn file(&self) -> StoredCurrent {
        match &self.stored {
            None => StoredCurrent::Missing,
            Some(c) => StoredCurrent::Parsed(c.clone()),
        }
    }

    fn current(&self) -> Result<ContentViewV1, ContentError> {
        current(&self.job, self.read_evidence(), &expected_context(&self.job), self.file())
    }

    fn execute(
        &mut self,
        intent: Intent,
        cancelled: bool,
        port: &mut FakeGenerationPort,
    ) -> Result<ContentSnapshotV1, ContentError> {
        authorize(&self.job, &intent)?;
        if cancelled {
            return Err(ContentError::Cancelled);
        }
        let setup = self.job.content_setup.clone().unwrap();
        let evidence = self.read_evidence()?;
        let context = expected_context(&self.job);
        let existing = load_matching_current(self.file(), self.job.id, &evidence, &context, &setup)?;
        let result = match intent {
            Intent::Initial => {
                let kept = existing.clone();
                let (mut run, mut step) =
                    start_initial(existing, self.job.id, &setup, &evidence, &context, cancelled, NOW)?;
                while let InitialStep::Ask(request) = &step {
                    let target = match &setup.initial_target {
                        InitialTargetV1::Ready(target) => target.clone(),
                        other => panic!("asked without a target: {other:?}"),
                    };
                    let reply = port.generate(request);
                    (run, step) =
                        resume_initial(run, &target, &setup, &evidence, &context, reply, cancelled, NOW)?;
                }
                if matches!(step, InitialStep::Unchanged) {
                    return Ok(ContentSnapshotV1 { current: kept.unwrap(), evidence });
                }
                run.current
            }
            Intent::Regenerate { kind, target } => {
                let (mut run, mut request) = start_regenerate(
                    &setup,
                    self.job.status,
                    kind,
                    &target,
                    existing,
                    &evidence,
                    &context,
                    cancelled,
                )?;
                loop {
                    let reply = port.generate(&request);
                    match resume_regenerate(run, &target, &evidence, &context, reply, cancelled, NOW)? {
                        RegenerateStep::Ask(next, asked) => {
                            run = next;
                            request = asked;
                        }
                        RegenerateStep::Publish(result) => break result,
                    }
                }
            }
        };
        validate_current_snapshot(&result, self.job.id, &evidence, &context, &setup)?;
        self.stored = Some(result.clone());
        Ok(ContentSnapshotV1 { current: result, evidence })
    }

    fn initial(&mut self) -> ContentSnapshotV1 {
        self.execute(Intent::Initial, false, &mut FakeGenerationPort::new()).unwrap()
    }

    fn regenerate(&mut self, kind: RegenerableKind) -> ContentSnapshotV1 {
        self.execute(Intent::Regenerate { kind, target: test_target() }, false, &mut FakeGenerationPort::new())
            .unwrap()
    }

    fn shows_corrupt(&self) -> bool {
        matches!(
            self.current(),
            Ok(ContentViewV1::RawOnly { current_issue: CurrentIssueV1::Corrupt, .. })
        )
    }
}

#[test]
fn shared_config_resolver_freezes_disabled_ready_and_unavailable() {
    assert!(matches!(resolve_content_setup(false, None).initial_target, InitialTargetV1::Disabled));
    assert!(matches!(
        resolve_content_setup(true, None).initial_target,
        InitialTargetV1::Unavailable(TargetUnavailableV1 {
            code: TargetUnavailableCodeV1::ConnectionMissing,
            ..
        })
    ));
    let ready = LlmConnection {
        id: "default".into(),
        name: "fixture".into(),
        api_format: ApiFormat::OpenAiChatCompletions,
        base_url: "http://LOCALHOST:80/v1/chat/completions/".into(),
        model: "  fixture-model  ".into(),
    };
    let setup = resolve_content_setup(true, Some(&ready));
    match setup.initial_target {
        InitialTargetV1::Ready(target) => {
            assert_eq!(target.endpoint, "http://localhost");
            assert_eq!(target.model, "fixture-model");
        }
        other => panic!("expected ready target, got {other:?}"),
    }
    for base_url in ["https://remote.example", "http://user@localhost", "http://localhost/?token=secret"] {
        let invalid = LlmConnection { base_url: base_url.into(), ..ready.clone() };
        assert!(matches!(
            resolve_content_setup(true, Some(&invalid)).initial_target,
            InitialTargetV1::Unavailable(TargetUnavailableV1 {
                code: TargetUnavailableCodeV1::EndpointInvalid,
                ..
            })
        ));
    }
}

#[test]
fn disabled_initial_publishes_rules_faithful_and_current_is_read_only() {
    let mut place = Place::new(ContentSetupV1::disabled(), 2);
    assert!(matches!(
        place.current().unwrap(),
        ContentViewV1::RawOnly { current_issue: CurrentIssueV1::NotGenerated, .. }
    ));
    let mut fake = FakeGenerationPort::new();
    let snapshot = place.execute(Intent::Initial, false, &mut fake).unwrap();
    assert_eq!(fake.call_count(), 0);
    assert_eq!(
        snapshot.current.slots.faithful_text.current.as_ref().unwrap().provenance.effective_path,
        EffectivePathV1::Rules
    );
    assert!(snapshot.current.slots.default_summary.current.is_none());
    assert!(snapshot.current.slots.chapters.current.is_none());
    let stored = place.stored.clone();
    assert!(matches!(place.current().unwrap(), ContentViewV1::Current(_)));
    assert_eq!(stored, place.stored);
    let again = place.execute(Intent::Initial, false, &mut fake).unwrap();
    assert_eq!(Some(again.current), stored);
}

#[test]
fn unavailable_setup_has_zero_calls_and_independent_failures() {
    let setup = ContentSetupV1::unavailable(TargetUnavailableV1 {
        code: TargetUnavailableCodeV1::EndpointInvalid,
        message: "本地 AI 地址不可用".into(),
        invalid_field: Some("llm_connection.base_url".into()),
    });
    let mut place = Place::new(setup, 2);
    let mut fake = FakeGenerationPort::new();
    let snapshot = place.execute(Intent::Initial, false, &mut fake).unwrap();
    assert_eq!(fake.call_count(), 0);
    assert_eq!(
        snapshot
            .current
            .slots
            .faithful_text
            .current
            .as_ref()
            .unwrap()
            .provenance
            .fallback_reason
            .as_ref()
            .unwrap()
            .code,
        FallbackReasonCodeV1::TargetUnavailable
    );
    for kind in [ArtifactKindV1::DefaultSummary, ArtifactKindV1::Highlights, ArtifactKindV1::Chapters] {
        assert_eq!(
            snapshot.current.slots.get(kind).last_failure.as_ref().unwrap().code,
            FailureCodeV1::TargetUnavailable
        );
    }
}

#[test]
fn ready_initial_uses_all_four_independent_recipes_and_long_coverage() {
    let mut place = Place::new(ready_setup(), 45);
    let mut fake = FakeGenerationPort::new();
    let snapshot = place.execute(Intent::Initial, false, &mut fake).unwrap();
    assert!(fake.call_count() >= 12, "four recipes must process all chunks");
    for kind in INITIAL_ALL {
        let record = snapshot.current.slots.get(kind).current.as_ref().unwrap();
        assert_eq!(record.provenance.effective_path, EffectivePathV1::Llm);
        assert_eq!(record.validation.processed_utterance_count, 45);
        assert!(record.validation.processing_coverage_complete);
    }
    let previous = snapshot.current.clone();
    let before_summary_revision = previous.slots.default_summary.current.as_ref().unwrap().revision;
    let regenerated = place.regenerate(RegenerableKind::DefaultSummary);
    assert_eq!(
        regenerated.current.slots.default_summary.current.as_ref().unwrap().revision,
        before_summary_revision + 1
    );
    assert_eq!(regenerated.current.slots.faithful_text.current, previous.slots.faithful_text.current);
}

#[test]
fn enhancement_failure_does_not_hide_other_results() {
    let mut place = Place::new(ready_setup(), 2);
    let mut fake = FakeGenerationPort::with_failure(ArtifactKindV1::Highlights);
    let snapshot = place.execute(Intent::Initial, false, &mut fake).unwrap();
    assert!(snapshot.current.slots.faithful_text.current.is_some());
    assert!(snapshot.current.slots.default_summary.current.is_some());
    assert!(snapshot.current.slots.chapters.current.is_some());
    assert_eq!(
        snapshot.current.slots.highlights.last_failure.as_ref().unwrap().code,
        FailureCodeV1::GenerationFailed
    );
}

#[test]
fn faithful_generation_failure_publishes_rules_fallback() {
    let mut place = Place::new(ready_setup(), 2);
    let mut fake = FakeGenerationPort::with_failure(ArtifactKindV1::FaithfulText);
    let snapshot = place.execute(Intent::Initial, false, &mut fake).unwrap();
    let faithful = snapshot.current.slots.faithful_text.current.as_ref().unwrap();
    assert_eq!(faithful.provenance.effective_path, EffectivePathV1::RulesFallback);
    assert_eq!(
        faithful.provenance.fallback_reason.as_ref().unwrap().code,
        FallbackReasonCodeV1::GenerationFailed
    );
    assert!(snapshot.current.slots.default_summary.current.is_some());
}

#[test]
fn faithful_model_title_is_response_invalid_and_falls_back_to_rules() {
    let mut place = Place::new(ready_setup(), 2);
    let mut fake =
        FakeGenerationPort { title_kind: Some(ArtifactKindV1::FaithfulText), ..FakeGenerationPort::new() };
    let snapshot = place.execute(Intent::Initial, false, &mut fake).unwrap();
    let faithful = snapshot.current.slots.faithful_text.current.as_ref().unwrap();
    assert_eq!(faithful.provenance.effective_path, EffectivePathV1::RulesFallback);
    assert_eq!(
        faithful.provenance.fallback_reason.as_ref().unwrap().code,
        FallbackReasonCodeV1::ResponseInvalid
    );
}

#[test]
fn limited_block_is_allowed_only_with_empty_refs_and_is_reported() {
    let mut place = Place::new(ready_setup(), 2);
    let mut fake =
        FakeGenerationPort { limited_kind: Some(ArtifactKindV1::DefaultSummary), ..FakeGenerationPort::new() };
    let snapshot = place.execute(Intent::Initial, false, &mut fake).unwrap();
    let summary = snapshot.current.slots.default_summary.current.as_ref().unwrap();
    assert_eq!(summary.validation.record_source_status, SourceStatusV1::Limited);
    assert!(summary
        .blocks
        .iter()
        .all(|block| block.source_status == SourceStatusV1::Limited && block.source_refs.is_empty()));
}

#[test]
fn current_tamper_is_raw_only_and_raw_tamper_is_error() {
    let mut place = Place::new(ContentSetupV1::disabled(), 2);
    place.initial();
    place.stored.as_mut().unwrap().job_id = new_id();
    assert!(place.shows_corrupt());
    let not_json = RawTranscript::NotJson("expected ident".into());
    let unreadable = read_evidence(&place.job, not_json);
    assert!(matches!(
        current(&place.job, unreadable, &expected_context(&place.job), place.file()),
        Err(ContentError::Evidence(_))
    ));
    place.utterances.clear();
    assert!(matches!(place.current(), Err(ContentError::Evidence(_))));
}

#[test]
fn a_transcript_that_cannot_be_read_says_why() {
    let place = Place::new(ContentSetupV1::disabled(), 1);
    let said = |raw| read_evidence(&place.job, raw).unwrap_err().describe();
    assert!(said(RawTranscript::NoDirectory).ends_with("任务没有工作目录"));
    assert!(said(RawTranscript::Unreadable("gone".into())).ends_with("无法读取原始 Evidence：gone"));
    assert!(said(RawTranscript::NotJson("eof".into())).ends_with("原始 Evidence JSON 无效：eof"));
}

#[test]
fn a_result_is_stored_only_after_it_was_read_back() {
    let value = fixture_current(new_id());
    let mut step = begin_save(&value).unwrap();
    for _ in 0..3 {
        step = save_step(step, SaveEvent::Done);
    }
    assert!(matches!(step, SaveStep::Reread));
    let mut broken = value.clone();
    broken.schema_version = 9;
    assert!(matches!(
        save_step(SaveStep::Reread, SaveEvent::Decoded(broken.clone())),
        SaveStep::Discard(ContentError::Schema(ContentSchemaError::SchemaVersion { .. }))
    ));
    assert!(matches!(
        save_step(SaveStep::Reread, SaveEvent::NotJson("eof".into())),
        SaveStep::Discard(ContentError::Schema(ContentSchemaError::Json(_)))
    ));
    step = save_step(step, SaveEvent::Decoded(value.clone()));
    assert!(matches!(step, SaveStep::Commit));
    assert!(matches!(
        save_step(SaveStep::Commit, SaveEvent::Failed("full".into())),
        SaveStep::Discard(ContentError::Io(_))
    ));
    step = save_step(step, SaveEvent::Done);
    assert!(matches!(save_step(step, SaveEvent::Failed("no sync".into())), SaveStep::Finished));
    assert!(begin_save(&broken).is_err());
    assert_eq!(load_current(StoredCurrent::Parsed(value.clone())).unwrap(), Some(value));
    assert!(load_current(StoredCurrent::Parsed(broken)).is_err());
    assert!(load_current(StoredCurrent::Missing).unwrap().is_none());
}

#[test]
fn persisted_faithful_title_tamper_is_raw_only() {
    let mut place = Place::new(ContentSetupV1::disabled(), 2);
    place.initial();
    let stored = place.stored.as_mut().unwrap();
    stored.slots.faithful_text.current.as_mut().unwrap().blocks[0].title = Some(String::new());
    assert!(place.shows_corrupt());
}

#[test]
fn cancellation_before_execute_does_not_create_current() {
    let mut place = Place::new(ContentSetupV1::disabled(), 2);
    assert!(matches!(
        place.execute(Intent::Initial, true, &mut FakeGenerationPort::new()),
        Err(ContentError::Cancelled)
    ));
    assert!(place.stored.is_none());
}

#[test]
fn faithful_alignment_rejects_reordering_hallucination_and_number_loss() {
    assert!(validate_faithful_text_pair("甲乙", "乙甲").is_err());
    assert!(validate_faithful_text_pair("甲乙", "甲丙").is_err());
    assert!(validate_faithful_text_pair("数量 12 和 12", "数量 12 和 13").is_err());
    assert!(validate_faithful_text_pair("甲乙 12 https://a.test", "甲乙 12 https://a.test").is_ok());
    let long_source: String = (0..100).map(|index| format!("词{index} ")).collect();
    let long_replaced = long_source.replacen("词5", "幻觉5", 1);
    assert!(validate_faithful_text_pair(&long_source, &long_replaced).is_err());
    assert!(validate_faithful_text_pair(
        "金额 $12.50，网址 HTTP://example.test/a",
        "金额 $12.50，网址 http://example.test/a"
    )
    .is_ok());
}

#[test]
fn supporting_claims_require_refs_to_support_text_and_protected_values() {
    let place = Place::new(ContentSetupV1::disabled(), 1);
    let evidence = place.read_evidence().unwrap();
    let block = ContentBlockV1 {
        id: "unsupported".into(),
        role: ContentBlockRoleV1::Summary,
        title: None,
        text: "火星生活 999".into(),
        source_refs: vec![SourceRefV1 {
            utterance_ids: vec![evidence.utterances[0].id.clone()],
            start_ms: evidence.utterances[0].start_ms,
            end_ms: evidence.utterances[0].end_ms,
        }],
        source_status: SourceStatusV1::Mapped,
    };
    assert!(validate_supporting_block(ArtifactKindV1::DefaultSummary, &block, &evidence.utterances).is_err());
    let partial = ContentBlockV1 {
        id: "partial".into(),
        role: ContentBlockRoleV1::Summary,
        title: Some("摘要".into()),
        text: "原始文本 火星火星火星".into(),
        source_refs: block.source_refs.clone(),
        source_status: SourceStatusV1::Mapped,
    };
    let chunk =
        validate_chunk_result(ArtifactKindV1::DefaultSummary, 0, &evidence.utterances, vec![partial]).unwrap();
    assert_eq!(chunk.blocks[0].source_status, SourceStatusV1::Limited);
    assert!(chunk.blocks[0].source_refs.is_empty());
}

#[test]
fn chapters_require_titles_and_allow_mapped_limited_mix() {
    let place = Place::new(ContentSetupV1::disabled(), 3);
    let evidence = place.read_evidence().unwrap();
    let context = expected_context(&place.job);
    let ref_for = |index: usize| SourceRefV1 {
        utterance_ids: vec![evidence.utterances[index].id.clone()],
        start_ms: evidence.utterances[index].start_ms,
        end_ms: evidence.utterances[index].end_ms,
    };
    let chapter = |id: &str, title: Option<&str>, text: &str, source_refs: Vec<SourceRefV1>| ContentBlockV1 {
        id: id.into(),
        role: ContentBlockRoleV1::Chapter,
        title: title.map(str::to_string),
        text: text.into(),
        source_status: if source_refs.is_empty() { SourceStatusV1::Limited } else { SourceStatusV1::Mapped },
        source_refs,
    };
    let ledger = |blocks: &[&str]| {
        vec![ProcessingChunkV1 {
            chunk_index: 0,
            input_utterance_ids: evidence.utterances.iter().map(|u| u.id.clone()).collect(),
            output_block_ids: blocks.iter().map(|b| b.to_string()).collect(),
        }]
    };
    let gap_blocks = vec![
        chapter("c0", Some("第一章"), "第一段", vec![ref_for(0)]),
        chapter("c1", Some("第三章"), "第三段", vec![ref_for(2)]),
    ];
    assert!(validate_chapter_partitions(&gap_blocks, &evidence.utterances, &vec![0, 2]).is_err());
    let no_title = DerivationRecordV1 {
        schema_version: CONTENT_SCHEMA_VERSION,
        revision: 1,
        kind: ArtifactKindV1::Chapters,
        evidence_identity: evidence.descriptor.identity.clone(),
        source_context: context.clone(),
        provenance: build_provenance(ArtifactKindV1::Chapters, None, EffectivePathV1::Rules, None),
        blocks: vec![chapter("no-title", None, "章节", vec![ref_for(0)])],
        validation: ValidationReportV1 {
            processed_utterance_count: 3,
            total_utterance_count: 3,
            processing_coverage_complete: true,
            processing_chunks: ledger(&["no-title"]),
            record_source_status: SourceStatusV1::Mapped,
            checks: passed(ArtifactKindV1::Chapters),
        },
        created_at: NOW,
    };
    assert!(validate_record_shape(&no_title).is_err());
    let limited = build_record(
        ArtifactKindV1::Chapters,
        &evidence.descriptor,
        &context,
        vec![chapter("limited", Some("章节"), "无法精确关联的章节", Vec::new())],
        ledger(&["limited"]),
        None,
        EffectivePathV1::Rules,
        None,
        NOW,
    );
    assert!(validate_record_against_evidence(&limited, &evidence.utterances).is_ok());

    let mixed = build_record(
        ArtifactKindV1::Chapters,
        &evidence.descriptor,
        &context,
        vec![
            chapter("mapped-first", Some("第一章"), &evidence.utterances[0].text, vec![ref_for(0)]),
            chapter("limited-middle", Some("第二章"), "无法精确关联的章节", Vec::new()),
            chapter("mapped-last", Some("第三章"), &evidence.utterances[2].text, vec![ref_for(2)]),
        ],
        ledger(&["mapped-first", "limited-middle", "mapped-last"]),
        None,
        EffectivePathV1::Rules,
        None,
        NOW,
    );
    assert_eq!(mixed.validation.record_source_status, SourceStatusV1::Limited);
    assert!(validate_record_against_evidence(&mixed, &evidence.utterances).is_ok());
}

#[test]
fn chunk_ledger_rejects_missing_chunks_and_cross_chunk_refs() {
    let place = Place::new(ready_setup(), 25);
    let evidence = place.read_evidence().unwrap();
    let context = expected_context(&place.job);
    let chunks = chunk_utterances(&evidence.utterances);
    let kind = ArtifactKindV1::DefaultSummary;
    let mut fake = FakeGenerationPort::new();
    let mut results = Vec::new();
    for (chunk_index, chunk) in chunks.iter().enumerate() {
        let request = GenerationRequest {
            kind,
            chunk_index,
            chunk_count: chunks.len(),
            utterances: chunk.clone(),
            prompt: make_prompt(kind, &context, chunk, chunk_index, chunks.len()),
        };
        let generated = fake.generate(&request).unwrap();
        let blocks = convert_generated_blocks(kind, chunk_index, generated).unwrap();
        results.push(validate_chunk_result(kind, chunk_index, chunk, blocks).unwrap());
    }
    let mut missing = results.clone();
    missing.pop();
    assert!(merge_chunk_results(
        kind,
        &evidence,
        &context,
        Some(&test_target()),
        EffectivePathV1::Llm,
        None,
        missing,
        NOW
    )
    .is_err());
    let mut cross = results[0].clone();
    cross.blocks[0].source_refs[0].utterance_ids = vec![chunks[1][0].id.clone()];
    assert!(validate_chunk_result(kind, 0, &chunks[0], cross.blocks).is_err());
}

#[test]
fn deep_load_rejects_tampered_coverage_and_provenance_checks() {
    let damages: [fn(&mut DerivationRecordV1); 3] = [
        |r| r.validation.total_utterance_count = 1,
        |r| r.provenance.recipe_id = "wrong-recipe".into(),
        |r| r.validation.checks[0].name = "wrong-check".into(),
    ];
    for damage in damages {
        let mut place = Place::new(ContentSetupV1::disabled(), 2);
        place.initial();
        damage(place.stored.as_mut().unwrap().slots.faithful_text.current.as_mut().unwrap());
        assert!(place.shows_corrupt());
    }
}

#[test]
fn deep_load_rejects_deleted_tail_block_with_forged_full_counts() {
    let mut place = Place::new(ContentSetupV1::disabled(), 45);
    place.initial();
    let record = place.stored.as_mut().unwrap().slots.faithful_text.current.as_mut().unwrap();
    record.validation.processing_chunks.last_mut().unwrap().output_block_ids.clear();
    assert!(place.shows_corrupt());
}

#[test]
fn content_setup_cross_checks_faithful_and_enhancement_provenance() {
    let target = test_target();
    let disabled = ContentSetupV1::disabled();
    let ready = ContentSetupV1::ready(target.clone());
    let unavailable = ContentSetupV1::unavailable(TargetUnavailableV1 {
        code: TargetUnavailableCodeV1::EndpointInvalid,
        message: "本地 AI 地址不可用".into(),
        invalid_field: Some("endpoint".into()),
    });
    let faithful = ArtifactKindV1::FaithfulText;
    let rules = build_provenance(faithful, None, EffectivePathV1::Rules, None);
    assert!(validate_record_provenance_for_setup(faithful, &rules, &disabled).is_ok());
    assert!(validate_record_provenance_for_setup(faithful, &rules, &ready).is_err());
    let ready_llm = build_provenance(faithful, Some(&target), EffectivePathV1::Llm, None);
    assert!(validate_record_provenance_for_setup(faithful, &ready_llm, &ready).is_ok());
    let unavailable_fallback = build_provenance(
        faithful,
        None,
        EffectivePathV1::RulesFallback,
        Some(FallbackReasonV1 { code: FallbackReasonCodeV1::TargetUnavailable, message: "错误配置".into() }),
    );
    assert!(validate_record_provenance_for_setup(faithful, &unavailable_fallback, &unavailable).is_err());
    let enhancement_rules =
        build_provenance(ArtifactKindV1::DefaultSummary, None, EffectivePathV1::Rules, None);
    assert!(
        validate_record_provenance_for_setup(ArtifactKindV1::DefaultSummary, &enhancement_rules, &ready).is_err()
    );
}

#[test]
fn evidence_rejects_overlong_single_utterance_but_accepts_chunk_budget_boundary() {
    let mut place = Place::new(ContentSetupV1::disabled(), 1);
    place.utterances[0].text = "中".repeat(CHUNK_MAX_CHARS);
    assert!(place.read_evidence().is_ok());
    place.utterances[0].text.push('中');
    assert!(matches!(place.read_evidence(), Err(ContentError::Evidence(_))));
}

#[test]
fn model_spelling_is_canonical_and_legacy_current_is_zero_read() {
    let mut target = test_target();
    target.model = " fixture-model".into();
    assert!(target.validate().is_err());
    target.model = "fixture-model ".into();
    assert!(target.validate().is_err());
    let legacy = Job::new(new_id(), "BVlegacy".into(), 1);
    let unread = Err(ContentError::Evidence("任务没有工作目录".into()));
    assert!(matches!(
        current(&legacy, unread, &expected_context(&legacy), StoredCurrent::Missing).unwrap(),
        ContentViewV1::Legacy
    ));
    assert!(matches!(authorize(&legacy, &Intent::Initial), Err(ContentError::Legacy)));
}

#[test]
fn raw_duplicate_and_time_tamper_are_rejected_before_content_generation() {
    for mutate in [0u8, 1, 2] {
        let mut place = Place::new(ContentSetupV1::disabled(), 2);
        let raw = &mut place.utterances;
        match mutate {
            0 => raw[1].id = raw[0].id.clone(),
            1 => {
                raw[0].start_ms = 1_000;
                raw[0].end_ms = 1_900;
                raw[1].start_ms = 0;
            }
            _ => raw[1].end_ms = place.job.duration_ms.unwrap() + 1,
        }
        assert!(matches!(place.current(), Err(ContentError::Evidence(_))));
    }
}

#[test]
fn each_regeneration_only_changes_target_and_failure_keeps_old_revision() {
    let mut place = Place::new(ready_setup(), 2);
    let mut current_snapshot = place.initial().current;
    for kind in [RegenerableKind::DefaultSummary, RegenerableKind::Highlights, RegenerableKind::Chapters] {
        let before = current_snapshot.clone();
        let regenerated = place.regenerate(kind);
        let artifact = kind.artifact_kind();
        assert_eq!(
            regenerated.current.slots.get(artifact).current.as_ref().unwrap().revision,
            before.slots.get(artifact).current.as_ref().unwrap().revision + 1
        );
        for other in INITIAL_ALL {
            if other != artifact {
                assert_eq!(regenerated.current.slots.get(other), before.slots.get(other));
            }
        }
        current_snapshot = regenerated.current;
    }
    let before_failure = match place.current().unwrap() {
        ContentViewV1::Current(snapshot) => snapshot.current,
        _ => panic!("expected current"),
    };
    let failed = place
        .execute(
            Intent::Regenerate { kind: RegenerableKind::Highlights, target: test_target() },
            false,
            &mut FakeGenerationPort::with_failure(ArtifactKindV1::Highlights),
        )
        .unwrap();
    assert_eq!(failed.current.slots.highlights.current, before_failure.slots.highlights.current);
    assert_eq!(
        failed.current.slots.highlights.last_failure.as_ref().unwrap().code,
        FailureCodeV1::GenerationFailed
    );
    let stored = place.stored.clone();
    assert!(matches!(
        place.execute(
            Intent::Regenerate { kind: RegenerableKind::Chapters, target: test_target() },
            true,
            &mut FakeGenerationPort::new(),
        ),
        Err(ContentError::Cancelled)
    ));
    assert_eq!(stored, place.stored);
}

#[test]
fn a_text_with_the_last_revision_is_not_made_again() {
    let mut place = Place::new(ready_setup(), 2);
    let made = place.initial().current;
    let record = made.slots.chapters.current.clone().unwrap();
    let kind = RegenerableKind::Chapters;
    let mut last = made.clone();
    last.slots.chapters.current.as_mut().unwrap().revision = u32::MAX;
    let now = record.created_at;
    match settle_regenerate(last.clone(), kind, Ok(record.clone()), now) {
        Err(ContentError::Generation(message)) => assert_eq!(message, "结果 revision 已达到上限"),
        other => panic!("{other:?}"),
    }
    let failed = settle_regenerate(last.clone(), kind, Err(GenerationPortError::Transport), now).unwrap();
    assert_eq!(failed.slots.chapters.current, last.slots.chapters.current);
    assert!(failed.slots.chapters.last_failure.is_some());
    let mut none = made;
    none.slots.chapters.current = None;
    let first = settle_regenerate(none, kind, Ok(record), now).unwrap();
    assert_eq!(first.slots.chapters.current.unwrap().revision, 1);
}

#[test]
fn v1_bytes_decode_as_v2_with_empty_tier_slots_and_identity_unchanged() {
    let mut value = fixture_current(new_id());
    value.schema_version = 1;
    let decoded = load_current(StoredCurrent::Parsed(value.clone())).unwrap().unwrap();
    assert_eq!(decoded.schema_version, 1);
    decoded.validate().unwrap();
    assert!(decoded.slots.short_summary.current.is_none());
    assert!(decoded.slots.long_summary.current.is_none());
    assert_eq!(decoded.evidence.identity, value.evidence.identity);
    assert_eq!(
        decoded.slots.faithful_text.current.as_ref().unwrap().revision,
        value.slots.faithful_text.current.as_ref().unwrap().revision
    );
}

#[test]
fn future_schema_version_is_rejected() {
    let mut value = fixture_current(new_id());
    value.schema_version = CONTENT_SCHEMA_VERSION + 1;
    assert!(matches!(value.validate(), Err(ContentSchemaError::SchemaVersion { .. })));
}

#[test]
fn initial_pipeline_never_calls_short_or_long_tiers() {
    let mut place = Place::new(ready_setup(), 2);
    let mut fake = FakeGenerationPort::new();
    let snapshot = place.execute(Intent::Initial, false, &mut fake).unwrap();
    assert_eq!(
        snapshot.current.slots.short_summary.current, None,
        "initial pipeline must not generate the short tier"
    );
    assert_eq!(snapshot.current.slots.long_summary.current, None);
    let called_kinds: Vec<ArtifactKindV1> = fake.calls.iter().map(|(kind, _, _)| *kind).collect();
    assert!(!called_kinds.contains(&ArtifactKindV1::ShortSummary));
    assert!(!called_kinds.contains(&ArtifactKindV1::LongSummary));
}

#[test]
fn first_generation_via_regenerate_writes_revision_one_and_keeps_other_slots() {
    let mut place = Place::new(ready_setup(), 2);
    let before = place.initial().current;
    let generated = place.regenerate(RegenerableKind::ShortSummary);
    let short =
        generated.current.slots.short_summary.current.as_ref().expect("first tier generation writes revision 1");
    assert_eq!(short.revision, 1);
    assert_eq!(short.provenance.recipe_id, recipe_id(ArtifactKindV1::ShortSummary));
    for kind in INITIAL_ALL {
        assert_eq!(generated.current.slots.get(kind), before.slots.get(kind));
    }
}

#[test]
fn tier_failure_only_updates_that_tier_and_keeps_old_current() {
    let mut place = Place::new(ready_setup(), 2);
    place.initial();
    let first_short = place.regenerate(RegenerableKind::ShortSummary).current.slots.short_summary;
    let failed = place
        .execute(
            Intent::Regenerate { kind: RegenerableKind::LongSummary, target: test_target() },
            false,
            &mut FakeGenerationPort::with_failure(ArtifactKindV1::LongSummary),
        )
        .unwrap();
    assert_eq!(failed.current.slots.short_summary, first_short);
    assert!(failed.current.slots.short_summary.last_failure.is_none());
    assert_eq!(
        failed.current.slots.long_summary.last_failure.as_ref().unwrap().code,
        FailureCodeV1::GenerationFailed
    );
    assert!(failed.current.slots.highlights.last_failure.is_none());
}

fn tier_blocks(text: &str) -> Vec<ContentBlockV1> {
    vec![ContentBlockV1 {
        id: "tier".into(),
        role: ContentBlockRoleV1::Summary,
        title: None,
        text: text.into(),
        source_refs: Vec::new(),
        source_status: SourceStatusV1::Limited,
    }]
}

#[test]
fn tier_length_contract_rejects_oversized_and_undersized_responses() {
    let fits = |kind: ArtifactKindV1, text: &str| validate_summary_tier_length(kind, &tier_blocks(text)).is_ok();
    // Short tier hard ceiling: 300 CJK chars (200 × 1.5).
    assert!(!fits(ArtifactKindV1::ShortSummary, &"短".repeat(301)));
    assert!(fits(ArtifactKindV1::ShortSummary, &"短".repeat(300)));
    // Long tier soft floor: 400 CJK chars (800 ÷ 2).
    assert!(!fits(ArtifactKindV1::LongSummary, &"长".repeat(399)));
    assert!(fits(ArtifactKindV1::LongSummary, &"长".repeat(400)));
    // Standard tier length contract (150–750 CJK chars).
    assert!(fits(ArtifactKindV1::DefaultSummary, &"标".repeat(350)));
    assert!(!fits(ArtifactKindV1::DefaultSummary, &"标".repeat(751)));
}

#[test]
fn english_summary_tier_contracts_follow_word_counts() {
    let fits = |kind: ArtifactKindV1, words: usize| {
        validate_summary_tier_length(kind, &tier_blocks(&vec!["word"; words].join(" "))).is_ok()
    };
    // Short tier English limit: 180 words.
    assert!(!fits(ArtifactKindV1::ShortSummary, 181));
    assert!(fits(ArtifactKindV1::ShortSummary, 120));
    // Long tier English minimum: 240 words.
    assert!(!fits(ArtifactKindV1::LongSummary, 239));
    assert!(fits(ArtifactKindV1::LongSummary, 300));
}

#[test]
fn tier_prompts_differ_from_the_standard_recipe_prompt() {
    let context = SourceContextSnapshotV1 { main_title: "标题".into(), part_title: None, terms: Vec::new() };
    let chunk = vec![Utterance {
        id: "u1".into(),
        text: "内容".into(),
        start_ms: 0,
        end_ms: 1000,
        speaker_id: 0,
    }];
    let standard = make_prompt(ArtifactKindV1::DefaultSummary, &context, &chunk, 0, 1);
    let short = make_prompt(ArtifactKindV1::ShortSummary, &context, &chunk, 0, 1);
    let long = make_prompt(ArtifactKindV1::LongSummary, &context, &chunk, 0, 1);
    assert!(short.contains("summary-short"));
    assert!(standard.contains("summary-standard"));
    assert!(long.contains("summary-long"));
    assert!(!standard.contains("summary-short") && !standard.contains("summary-long"));
    assert_ne!(short, standard);
    assert_ne!(long, standard);
}

#[test]
fn what_a_model_is_given_is_compact_json_in_the_order_of_its_keys() {
    let place = Place::new(ready_setup(), 3);
    let context = expected_context(&place.job);
    let prompt = make_prompt(ArtifactKindV1::LongSummary, &context, &place.utterances, 1, 4);
    let (_, input) = prompt.split_once("input=").unwrap();
    let value: serde_json::Value = serde_json::from_str(input).unwrap();
    assert_eq!(value.to_string(), input);
    assert_eq!(value["kind"], "long_summary");
    assert_eq!(value["utterances"][2]["text"], place.utterances[2].text.as_str());
    assert_eq!(value["context"]["part_title"], "分P标题");
    assert!(prompt.contains("第 2/4 块"));
}

#[test]
fn the_identity_of_evidence_is_the_digest_of_its_material() {
    let descriptor = evidence(7);
    let material = descriptor.identity_material();
    let value: serde_json::Value = serde_json::from_str(&material).unwrap();
    assert_eq!(value["job_id"], uuid::Uuid::from_u128(7).to_string());
    assert_eq!(value["duration_ms"], 1000);
    let digest = ring::digest::digest(&ring::digest::SHA256, material.as_bytes());
    let hex: String = digest.as_ref().iter().map(|byte| format!("{byte:02x}")).collect();
    assert_eq!(descriptor.identity, hex);
}
