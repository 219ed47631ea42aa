use bi2read::content_results::connection::{
    api_path, classify_probe, extract_json_object, finish_connection_test, is_model_missing_error, may_send,
    plan_connection_test, probe_outcome, probe_request_body, read_response, request_body, request_url,
    ConnectionTestFailure, ProbeOutcome, ProbeReply, HTTP_CONTENT_TYPE, HTTP_USER_AGENT,
};
use bi2read::content_results::assembly::GenerationPortError;
use bi2read::content_results::search::{highlight_snippet, parse_search_query, parse_search_query_with_speakers, SearchQuery};
use bi2read::content_results::target::{
    GenerationApiFormatV1, GenerationParametersV1, GenerationProviderV1, ReadyGenerationTargetV1,
};
use std::collections::BTreeMap;

const OPENAI: GenerationApiFormatV1 = GenerationApiFormatV1::OpenAiChatCompletions;
const ANTHROPIC: GenerationApiFormatV1 = GenerationApiFormatV1::AnthropicMessages;

fn test_target() -> ReadyGenerationTargetV1 {
    ReadyGenerationTargetV1 {
        provider: GenerationProviderV1::OpenAiCompatible,
        api_format: OPENAI,
        endpoint: "http://127.0.0.1:1234".into(),
        model: "fixture-model".into(),
        parameters: GenerationParametersV1::openai_default(),
    }
}

fn anthropic_target() -> ReadyGenerationTargetV1 {
    ReadyGenerationTargetV1 {
        provider: GenerationProviderV1::AnthropicCompatible,
        api_format: ANTHROPIC,
        parameters: GenerationParametersV1::anthropic_default(),
        ..test_target()
    }
}

fn parsed(body: &str) -> serde_json::Value {
    serde_json::from_str(body).unwrap()
}

#[test]
fn production_request_shapes_are_typed_and_have_no_auth_fields() {
    assert_eq!(api_path(OPENAI), "/v1/chat/completions");
    assert_eq!(api_path(ANTHROPIC), "/v1/messages");
    assert_eq!(request_url(&test_target(), OPENAI), "http://127.0.0.1:1234/v1/chat/completions");
    assert_eq!(HTTP_CONTENT_TYPE, "application/json");
    assert_eq!(HTTP_USER_AGENT, "bimyscribe/0.5");
    let openai = parsed(&request_body(&test_target(), "fixture prompt"));
    assert_eq!(openai["model"], "fixture-model");
    assert_eq!(openai["temperature"], 0.2);
    assert!(openai.get("max_tokens").is_none());
    assert!(openai.get("Authorization").is_none());
    assert_eq!(openai["messages"][0]["content"], "fixture prompt");
    let anthropic = parsed(&request_body(&anthropic_target(), "fixture prompt"));
    assert_eq!(anthropic["model"], "fixture-model");
    assert_eq!(anthropic["max_tokens"], 4096);
    assert!(anthropic.get("temperature").is_none());
    assert!(anthropic.get("Authorization").is_none());
}

#[test]
fn bodies_are_compact_json_in_the_order_of_their_keys() {
    for body in [
        request_body(&test_target(), "p"),
        request_body(&anthropic_target(), "p"),
        probe_request_body(&test_target()),
        probe_request_body(&anthropic_target()),
    ] {
        assert_eq!(parsed(&body).to_string(), body);
    }
}

#[test]
fn prompts_are_written_as_json_strings() {
    let body = parsed(&request_body(&test_target(), "a \"quoted\"\n行\u{1}"));
    assert_eq!(body["messages"][0]["content"], "a \"quoted\"\n行\u{1}");
}

#[test]
fn production_adapter_rejects_remote_and_authenticated_targets_before_http() {
    for endpoint in ["https://remote.example", "http://user@localhost", "http://localhost/?token=secret"] {
        let target = ReadyGenerationTargetV1 { endpoint: endpoint.into(), ..test_target() };
        assert_eq!(may_send(&target, target.api_format), Err(GenerationPortError::ResponseInvalid));
    }
    assert_eq!(may_send(&test_target(), OPENAI), Ok(()));
    assert_eq!(may_send(&test_target(), ANTHROPIC), Err(GenerationPortError::ResponseInvalid));
}

#[test]
fn parse_search_query_supports_plain_text_and_time_formats() {
    assert_eq!(parse_search_query(""), None);
    assert_eq!(parse_search_query("   "), None);
    assert_eq!(parse_search_query("普通文本"), Some(SearchQuery::Text("普通文本".into())));
    assert_eq!(parse_search_query("01:23"), Some(SearchQuery::TimeRange(53_000, 113_000)));
    assert_eq!(parse_search_query("01:00-02:30"), Some(SearchQuery::TimeRange(60_000, 150_000)));

    // Huge time inputs that would overflow checked arithmetic safely return None or Text.
    assert_eq!(
        parse_search_query("18446744073709551615:00"),
        Some(SearchQuery::Text("18446744073709551615:00".into()))
    );
    assert_eq!(
        parse_search_query("999999999999999999:59:59"),
        Some(SearchQuery::Text("999999999999999999:59:59".into()))
    );
    assert_eq!(
        parse_search_query("01:00-999999999999999999:00"),
        Some(SearchQuery::Text("01:00-999999999999999999:00".into()))
    );
}

#[test]
fn speakers_are_asked_for_by_name() {
    let mut speakers = BTreeMap::new();
    speakers.insert(0u32, "主持人".to_string());
    assert_eq!(
        parse_search_query_with_speakers("主持人", &speakers),
        Some(SearchQuery::Speaker("主持人".into()))
    );
    assert_eq!(
        parse_search_query_with_speakers("嘉宾", &speakers),
        Some(SearchQuery::Text("嘉宾".into()))
    );
}

#[test]
fn model_missing_404_error_matching_recognizes_model_not_found() {
    let body = parsed(
        "{\"error\":{\"message\":\"model 'llama3' not found, try pulling it first\",\"type\":\"invalid_request_error\"}}",
    );
    assert!(is_model_missing_error(404, Some(&body)));
    let unknown_body = parsed("{\"error\":{\"message\":\"route not found\"}}");
    assert!(!is_model_missing_error(404, Some(&unknown_body)));
    assert!(!is_model_missing_error(404, None));
    assert!(!is_model_missing_error(500, Some(&body)));
}

#[test]
fn highlight_snippet_case_insensitive_and_preserves_casing() {
    let text = "学习 Rust 语言非常有趣。Rust 是系统级编程语言。";
    let snippet = highlight_snippet(text, "rust");
    assert!(snippet.contains("【Rust】"));

    let en_text = "This is a fast python script.";
    let en_snippet = highlight_snippet(en_text, "Python");
    assert!(en_snippet.contains("【python】"));

    // Unicode character expansion test: "aİx" where 'İ' expands under lowercasing
    let turkish_text = "aİx";
    let turkish_snippet = highlight_snippet(turkish_text, "x");
    assert_eq!(turkish_snippet, "aİ【x】");

    // Unicode case-fold test: "Straße" matches "STRASSE"
    let german_text = "Die Straße ist lang.";
    let german_snippet = highlight_snippet(german_text, "STRASSE");
    assert!(german_snippet.contains("【Straße】"));
}

#[test]
fn classify_probe_and_test_connection_covers_all_failure_categories() {
    assert_eq!(classify_probe(ProbeOutcome::Success), Ok(()));
    assert_eq!(classify_probe(ProbeOutcome::Transport), Err(ConnectionTestFailure::Unreachable));
    assert_eq!(classify_probe(ProbeOutcome::Timeout), Err(ConnectionTestFailure::Timeout));
    assert_eq!(classify_probe(ProbeOutcome::MalformedBody), Err(ConnectionTestFailure::ProtocolMismatch));

    // Model not found (404 with structured error)
    let model_404 =
        "{\"error\":{\"code\":\"model_not_found\",\"message\":\"The model `qwen` does not exist\"}}".to_string();
    assert_eq!(
        classify_probe(ProbeOutcome::HttpError(404, model_404)),
        Err(ConnectionTestFailure::ModelUnavailable)
    );

    // Protocol mismatch (404 without model error)
    assert_eq!(
        classify_probe(ProbeOutcome::HttpError(404, "404 Not Found".into())),
        Err(ConnectionTestFailure::ProtocolMismatch)
    );

    // Address validation before network request
    let invalid_target =
        ReadyGenerationTargetV1 { endpoint: "https://api.openai.com/v1".into(), ..test_target() };
    assert_eq!(plan_connection_test(&invalid_target), Err(ConnectionTestFailure::InvalidAddress));
}

#[test]
fn a_connection_test_asks_for_one_word() {
    let (url, body) = plan_connection_test(&anthropic_target()).unwrap();
    assert_eq!(url, "http://127.0.0.1:1234/v1/messages");
    assert_eq!(body, probe_request_body(&anthropic_target()));
    assert_eq!(parsed(&body)["messages"][0]["content"], "Reply with exactly one word: ping");
    let answer = "{\"choices\":[{\"message\":{\"content\":\"ping\"}}]}".to_string();
    let done = finish_connection_test(&test_target(), ProbeReply::Body(answer)).unwrap();
    assert_eq!(done.model, "fixture-model");
    assert_eq!(
        finish_connection_test(&test_target(), ProbeReply::Body("{}".into())),
        Err(ConnectionTestFailure::ProtocolMismatch)
    );
    assert_eq!(
        probe_outcome(OPENAI, ProbeReply::NoAnswer { io: true, message: "Timed out".into() }),
        ProbeOutcome::Timeout
    );
    assert_eq!(
        probe_outcome(OPENAI, ProbeReply::NoAnswer { io: false, message: "timed out".into() }),
        ProbeOutcome::Transport
    );
    assert!(ConnectionTestFailure::ModelUnavailable.with_model("qwen").contains("qwen"));
}

#[test]
fn an_answer_is_cut_out_of_what_surrounds_it() {
    assert_eq!(extract_json_object("说明 {\"a\":\"}\"} 之后").as_deref(), Some("{\"a\":\"}\"}"));
    assert_eq!(extract_json_object("{\"a\":1"), None);
    let body = "{\"choices\":[{\"message\":{\"content\":\"{\\\"blocks\\\":[]}\"}}]}";
    assert_eq!(read_response(OPENAI, body), Ok("{\"blocks\":[]}".to_string()));
    assert!(read_response(OPENAI, "no json").is_err());
    assert!(read_response(ANTHROPIC, body).is_err());
}
