use bi2read::config::{
    choose_runtime, normalize_base_url, plan_writable_directory, runtime_request, Config, ConfigFile, DirectoryFacts,
    RuntimeAnswer, RuntimeDescription, RuntimeRequest,
};
use bi2read::content_results::target::{ApiFormat, InitialTargetV1, LlmConnection};
use bi2read::funasr::RuntimeBackend;
use bi2read::jobs::{CreatedFrom, RetentionPolicy, RuntimeSource, SourceLanguage, TranscriptionSelection};
use bi2read::paths::{is_absolute, is_leaving, join_path, AppPaths};

fn default_config() -> Config {
    Config::default(Some(&AppPaths::for_home("/home/me")), "nonce".to_string())
}

#[test]
fn retention_policy_roundtrip() {
    for p in [RetentionPolicy::Recommended, RetentionPolicy::KeepAll, RetentionPolicy::DocumentsOnly] {
        assert_eq!(RetentionPolicy::from_label(p.label()), p);
    }
    // Unknown label defaults to Recommended.
    assert_eq!(RetentionPolicy::from_label("garbage"), RetentionPolicy::Recommended);
}

#[test]
fn retention_policies_are_stored_by_name() {
    assert_eq!(RetentionPolicy::KeepAll.as_str(), "keep_all");
    assert_eq!(RetentionPolicy::DocumentsOnly.as_str(), "documents_only");
    assert_eq!(RetentionPolicy::Recommended.as_str(), "recommended");
}

#[test]
fn default_config_uses_recommended_retention() {
    let cfg = default_config();
    assert_eq!(cfg.default_retention, RetentionPolicy::Recommended);
}

#[test]
fn job_creation_defaults_only_read_current_config_for_new_jobs() {
    let config = Config {
        runtime_project: Some("/external/runtime".to_string()),
        runtime_data_dir: "/external/runtime-data".to_string(),
        default_retention: RetentionPolicy::KeepAll,
        ..default_config()
    };

    let defaults = config.job_creation_defaults(None);
    assert_eq!(defaults.runtime_project, config.runtime_project);
    assert_eq!(defaults.runtime_data_dir, config.runtime_data_dir);
    assert_eq!(defaults.requested_language, SourceLanguage::Auto);
    assert_eq!(defaults.retention, RetentionPolicy::KeepAll);
}

fn description(contract_version: u32, ready: bool) -> RuntimeDescription {
    RuntimeDescription {
        source: RuntimeSource::External,
        project: "/runtime".to_string(),
        data_dir: "/data".to_string(),
        identity: "identity".to_string(),
        backend: RuntimeBackend::NativeUv,
        model_description: Some("model".to_string()),
        contract_version,
        ready,
        display_name: None,
        recommended_languages: vec![SourceLanguage::Zh],
        known_limitations: Vec::new(),
        auto_detection: None,
    }
}

#[test]
fn v1_runtime_is_readable_but_new_job_creation_requires_upgrade() {
    let config = Config { runtime_project: Some("/runtime".to_string()), ..default_config() };
    let error = config
        .job_transcription_selection(None, Ok(description(1, true)), CreatedFrom::Cli, SourceLanguage::En, Ok(()))
        .unwrap_err();
    assert!(error.starts_with("runtime-contract-upgrade-required:"));
    assert!(config
        .job_transcription_selection(None, Ok(description(2, false)), CreatedFrom::Cli, SourceLanguage::En, Ok(()))
        .is_err());
    let selection = config
        .job_transcription_selection(None, Ok(description(2, true)), CreatedFrom::Cli, SourceLanguage::En, Ok(()))
        .unwrap();
    assert_eq!(selection.runtime_identity, "identity");
    assert_eq!(selection.requested_language, SourceLanguage::En);
    assert_eq!(selection.created_from, CreatedFrom::Cli);
}

fn empty_file() -> ConfigFile {
    ConfigFile {
        working_dir: None,
        output_dir: None,
        runtime_project: None,
        runtime_data_dir: None,
        llm_enabled: None,
        llm_connection: None,
        default_screenshots: None,
        default_retention: None,
        last_transcription_selection: None,
    }
}

#[test]
fn missing_fields_use_explicit_platform_defaults() {
    let paths = AppPaths::for_home("/home/me");
    let file = ConfigFile { llm_enabled: Some(true), ..empty_file() };
    let config = Config::load_from(Some(file), &paths, "nonce".to_string());
    assert_eq!(config.working_dir, paths.jobs_dir);
    assert!(config.llm_enabled);
    assert_eq!(config.runtime_project, None);
    assert_eq!(config.output_dir, paths.markdown_output_dir);
    assert_eq!(config.runtime_data_dir, paths.funasr_runtime_data_dir);
    assert_eq!(config.output_dir, "/home/me/Documents/BiMyScribe");
    assert_eq!(config.instance_nonce, "nonce");
}

#[test]
fn writable_directory_validation_rejects_relative_and_regular_file_paths() {
    let error = plan_writable_directory("relative", "测试目录", DirectoryFacts::NoParent).unwrap_err();
    assert!(error.contains("绝对路径"));
    assert_eq!(error, "测试目录必须是绝对路径");
    let error = plan_writable_directory("/a/ordinary-file", "测试目录", DirectoryFacts::File).unwrap_err();
    assert!(error.contains("普通文件"));
}

#[test]
fn base_urls_lose_their_trailing_slashes() {
    assert_eq!(normalize_base_url(" http://localhost:1234/v1// "), "http://localhost:1234/v1");
    assert_eq!(normalize_base_url("http://localhost:1234"), "http://localhost:1234");
}

#[test]
fn protocols_are_found_again_by_their_labels() {
    for format in [ApiFormat::OpenAiChatCompletions, ApiFormat::AnthropicMessages] {
        assert_eq!(ApiFormat::from_label(format.label()), format);
    }
}

#[test]
fn languages_are_found_again_by_their_codes() {
    for l in [SourceLanguage::Auto, SourceLanguage::Zh, SourceLanguage::En] {
        assert_eq!(SourceLanguage::parse(l.as_str()), Some(l));
    }
    assert_eq!(SourceLanguage::parse("fr"), None);
}

#[test]
fn a_new_job_starts_with_the_latest_language_of_its_runtime() {
    let mut config = default_config();
    assert_eq!(config.app_default_language("identity"), SourceLanguage::Zh);
    config.last_transcription_selection = Some(TranscriptionSelection {
        runtime_source: RuntimeSource::Bundled,
        runtime_project: "/p".to_string(),
        runtime_data_dir: "/d".to_string(),
        runtime_identity: "identity".to_string(),
        runtime_backend: RuntimeBackend::NativeUv,
        model_description: None,
        requested_language: SourceLanguage::En,
        created_from: CreatedFrom::App,
    });
    assert_eq!(config.app_default_language("identity"), SourceLanguage::En);
    assert_eq!(config.app_default_language("another"), SourceLanguage::Zh);
}

#[test]
fn settings_resolve_to_a_setup() {
    let mut config = default_config();
    assert!(matches!(config.content_setup().initial_target, InitialTargetV1::Disabled));
    assert!(config.content_target().is_err());
    config.llm_enabled = true;
    config.llm_connection = Some(LlmConnection {
        id: "default".to_string(),
        name: "n".to_string(),
        api_format: ApiFormat::OpenAiChatCompletions,
        base_url: "http://127.0.0.1:1234/v1".to_string(),
        model: "m".to_string(),
    });
    let target = config.content_target().unwrap();
    assert_eq!(target.endpoint, "http://127.0.0.1:1234");
    assert!(config.content_setup().validate().is_ok());
}

#[test]
fn the_runtime_field_of_the_settings_is_read() {
    let mut config = default_config();
    let mut view = config.to_view(None, None, true);
    view.runtime_bundled = true;
    assert!(matches!(runtime_request(&view), RuntimeRequest::Bundled));
    view.runtime_bundled = false;
    view.runtime_project = String::new();
    assert!(matches!(runtime_request(&view), RuntimeRequest::Unset));
    view.runtime_project = "/runtime".to_string();
    assert!(matches!(runtime_request(&view), RuntimeRequest::At(_)));
    assert_eq!(choose_runtime(RuntimeAnswer::Unset), Ok(None));
    let missing = RuntimeAnswer::Bundled { available: false, loaded: Ok(()) };
    assert_eq!(choose_runtime(missing), Err("内置 FunASR Runtime 不可用".to_string()));
    let applied = config.apply_view(
        &view,
        Ok("/w".to_string()),
        Ok("/o".to_string()),
        Ok("/d".to_string()),
        RuntimeAnswer::At { directory: Ok("/runtime".to_string()), loaded: Ok(()) },
    );
    assert!(applied.is_ok());
    assert_eq!(config.working_dir, "/w");
    assert_eq!(config.runtime_project.as_deref(), Some("/runtime"));
    let refused = config.apply_view(
        &view,
        Err("工作目录不可写".to_string()),
        Ok("/o2".to_string()),
        Ok("/d".to_string()),
        RuntimeAnswer::Unset,
    );
    assert_eq!(refused.unwrap_err(), "工作目录不可写");
    assert_eq!(config.output_dir, "/o");
    assert_eq!(config.runtime_project.as_deref(), Some("/runtime"));
}

#[test]
fn paths_are_joined_as_text() {
    assert_eq!(join_path("/a", "b"), "/a/b");
    assert_eq!(join_path("/a/", "b"), "/a/b");
    assert_eq!(join_path("/a", "/b"), "/b");
    assert!(is_absolute("/a") && !is_absolute("a") && !is_absolute(""));
    assert!(is_leaving("../a") && is_leaving("/a") && !is_leaving("a/..b"));
}

#[test]
fn a_selection_that_was_refused_makes_no_job() {
    let config = Config { runtime_project: Some("/runtime".to_string()), ..default_config() };
    let error = config
        .job_transcription_selection(
            None,
            Ok(description(2, true)),
            CreatedFrom::Cli,
            SourceLanguage::En,
            Err("empty".to_string()),
        )
        .unwrap_err();
    assert_eq!(error, "任务转写选择无效：empty");
}

#[test]
fn settings_without_a_home_use_places_of_their_own() {
    let lost = Config::default(None, "nonce".to_string());
    assert_eq!(lost.working_dir, "bi2read/Jobs");
    assert_eq!(lost.output_dir, "bi2read/Documents");
    assert_eq!(lost.runtime_data_dir, "bi2read/Runtime");
    assert_eq!(lost.instance_nonce, "nonce");
    let paths = AppPaths::for_home("/home/me");
    let known = Config::default(Some(&paths), "nonce".to_string());
    assert_eq!(known.working_dir, paths.jobs_dir);
    assert_eq!(known.runtime_data_dir, paths.funasr_runtime_data_dir);
}

#[test]
fn a_resolved_address_may_be_stored() {
    let mut config = default_config();
    config.llm_enabled = true;
    for base_url in ["http://localhost/v1/v1", "http://localhost:8080/base//v1", "http://127.0.0.1///"] {
        config.llm_connection = Some(LlmConnection {
            id: "default".to_string(),
            name: "n".to_string(),
            api_format: ApiFormat::OpenAiChatCompletions,
            base_url: base_url.to_string(),
            model: "m".to_string(),
        });
        assert!(config.content_setup().validate().is_ok(), "{base_url}");
    }
}
