use bi2read::bilibili::{parse_url, ParseError};
use bi2read::paths::AppPaths;
use bi2read::cli::{
    apply_no_llm, apply_path_overrides, apply_runtime_overrides, args_request_json, cli_error, cli_error_from_failure, cli_error_from_message,
    cli_error_from_pipeline, document_place, error_envelope, exit_code_for, final_document, lock_refusal, mark_finished,
    mark_running, new_cli_job, release_check, replace_queued_job, require_absolute, require_runtime_project, retention_for, runtime_status_exit,
    runtime_status_lines, success_envelope, transcription_output, CommandFailure, PathOverrides, PipelineFailure,
    RuntimePathArgs, EXIT_ARTIFACT, EXIT_INVALID_ARGUMENTS, EXIT_PIPELINE, EXIT_RUNTIME,
};
use bi2read::config::{Config, RuntimeDescription};
use bi2read::content_results::record::UtcTime;
use bi2read::funasr::{FunasrError, RuntimeBackend};
use bi2read::jobs::{
    CreatedFrom, Job, JobStatus, RetentionPolicy, RuntimeSource, SourceLanguage, TranscriptionSelection,
};

fn now(seconds: i64) -> UtcTime {
    UtcTime { seconds, nanoseconds: 0 }
}

fn strings(list: &[&str]) -> Vec<String> {
    list.iter().map(|s| s.to_string()).collect()
}

fn default_config() -> Config {
    Config::default(Some(&AppPaths::for_home("/home/me")), "nonce".to_string())
}

#[test]
fn parses_all_source_languages_and_rejects_unknown_values() {
    for (value, expected) in [
        ("auto", SourceLanguage::Auto),
        ("zh", SourceLanguage::Zh),
        ("en", SourceLanguage::En),
    ] {
        assert_eq!(SourceLanguage::parse(value), Some(expected));
    }
    assert_eq!(SourceLanguage::parse("fr"), None);
}

#[test]
fn envelope_has_one_versioned_success_or_failure_shape() {
    let success = success_envelope("en".to_string());
    assert_eq!(success.schema_version, 1);
    assert!(success.ok);
    assert_eq!(success.data.as_deref(), Some("en"));
    assert!(success.error.is_none());

    let failure = error_envelope(cli_error("runtime-not-ready", "not ready", Some("install")));
    assert_eq!(failure.schema_version, 1);
    assert!(!failure.ok);
    assert!(failure.data.is_none());
    assert_eq!(failure.error.unwrap().code, "runtime-not-ready");
}

#[test]
fn errors_map_to_stable_codes_and_exit_values() {
    let error = cli_error_from_message("runtime-contract-upgrade-required: v1");
    assert_eq!(error.code, "runtime-contract-upgrade-required");
    assert_eq!(exit_code_for(&error), EXIT_RUNTIME);
    let error = cli_error_from_message("final document is missing");
    assert_eq!(error.code, "artifact-failed");
    assert_eq!(exit_code_for(&error), EXIT_ARTIFACT);
    assert_eq!(EXIT_PIPELINE, 4);
}

#[test]
fn path_overrides_require_absolute_paths() {
    let error = require_absolute("relative/jobs", "--work-dir").unwrap_err();
    assert!(error.to_string().contains("requires an absolute path"));
}

#[test]
fn every_failure_has_an_exit_code() {
    let failures = [
        CommandFailure::Input(ParseError::Empty),
        CommandFailure::Runtime(FunasrError::NotReady),
        CommandFailure::Pipeline(PipelineFailure::Cancelled("x".to_string())),
        CommandFailure::Pipeline(PipelineFailure::DockerNotRunning("x".to_string())),
        CommandFailure::Message("boom".to_string()),
    ];
    for failure in &failures {
        assert_ne!(exit_code_for(&cli_error_from_failure(failure)), 0);
    }
    assert_eq!(
        exit_code_for(&cli_error_from_failure(&CommandFailure::Input(ParseError::Empty))),
        EXIT_INVALID_ARGUMENTS
    );
    assert_eq!(
        exit_code_for(&cli_error_from_pipeline(&PipelineFailure::DockerNotRunning("d".to_string()))),
        EXIT_RUNTIME
    );
}

#[test]
fn options_replace_what_the_settings_say() {
    let mut config = default_config();
    let overrides = PathOverrides {
        work_dir: Some("/Volumes/Data/Jobs".to_string()),
        output_dir: None,
        runtime: RuntimePathArgs { runtime_project: None, runtime_data_dir: Some("/data".to_string()) },
    };
    assert!(apply_path_overrides(&mut config, &overrides, false, true).is_ok());
    assert_eq!(config.working_dir, "/Volumes/Data/Jobs");
    assert_eq!(config.output_dir, default_config().output_dir);
    assert_eq!(config.runtime_data_dir, "/data");
    assert_eq!(retention_for(None, &config), RetentionPolicy::Recommended);
    assert_eq!(retention_for(Some(RetentionPolicy::KeepAll), &config), RetentionPolicy::KeepAll);
    assert!(require_runtime_project(&config, None).is_err());
    assert_eq!(require_runtime_project(&config, Some("/bundled")).unwrap(), "/bundled");
    assert!(args_request_json(&strings(&["transcribe", "--json"])));
    assert!(!args_request_json(&strings(&["transcribe", "BV1"])));
}

#[test]
fn a_refused_option_leaves_the_rest_of_the_settings() {
    let mut config = default_config();
    let overrides = PathOverrides {
        work_dir: Some("/w".to_string()),
        output_dir: Some("relative".to_string()),
        runtime: RuntimePathArgs { runtime_project: Some("/p".to_string()), runtime_data_dir: None },
    };
    assert!(apply_path_overrides(&mut config, &overrides, false, true).is_err());
    assert_eq!(config, Config { working_dir: "/w".to_string(), ..default_config() });
    let runtime =
        RuntimePathArgs { runtime_project: Some("/p".to_string()), runtime_data_dir: Some("relative".to_string()) };
    assert!(apply_runtime_overrides(&mut config, &runtime, false, true).is_err());
    assert_eq!(config.runtime_project.as_deref(), Some("/p"));
    assert_eq!(config.runtime_data_dir, default_config().runtime_data_dir);
}

#[test]
fn a_job_is_marked_when_it_runs_and_when_it_ends() {
    let mut job = Job::new(1, "BV1x".to_string(), 1);
    mark_running(&mut job, now(10));
    assert_eq!(job.status, JobStatus::Running);
    assert_eq!(job.started_at, Some(now(10)));
    mark_finished(&mut job, Some("broken".to_string()), now(20));
    assert_eq!(job.status, JobStatus::Failed);
    assert_eq!(job.error.as_deref(), Some("broken"));
    let mut queue = vec![Job::new(1, "BV1old".to_string(), 1), Job::new(2, "BV1other".to_string(), 1)];
    assert!(replace_queued_job(&mut queue, job).is_ok());
    assert_eq!(queue[0].status, JobStatus::Failed);
    assert_eq!(queue[1].bvid, "BV1other");
    assert_eq!(
        replace_queued_job(&mut queue, Job::new(3, "BV1".to_string(), 1)).unwrap_err(),
        "CLI job disappeared from the queue"
    );
}

#[test]
fn a_finished_job_is_printed() {
    let mut job = Job::new(5, "BV1x".to_string(), 2);
    assert!(document_place(&job).is_err());
    job.final_output_dir = Some("/out".to_string());
    assert_eq!(document_place(&job).unwrap(), "/out/full.md");
    assert_eq!(final_document(&job, true).unwrap(), "/out/full.md");
    assert!(final_document(&job, false).is_err());
    assert!(transcription_output(&job, "/out/full.md").is_err());
    job.transcription_selection = Some(TranscriptionSelection {
        runtime_source: RuntimeSource::Bundled,
        runtime_project: "/p".to_string(),
        runtime_data_dir: "/d".to_string(),
        runtime_identity: "identity".to_string(),
        runtime_backend: RuntimeBackend::NativeUv,
        model_description: None,
        requested_language: SourceLanguage::Zh,
        created_from: CreatedFrom::Cli,
    });
    let output = transcription_output(&job, "/out/full.md").unwrap();
    assert_eq!(output.document, "/out/full.md");
    assert_eq!(output.runtime_identity, "identity");
    assert_eq!(output.reported_language, None);
}

#[test]
fn the_state_of_a_runtime_is_printed() {
    let description = RuntimeDescription {
        source: RuntimeSource::Bundled,
        project: "/runtime".to_string(),
        data_dir: "/data".to_string(),
        identity: "identity".to_string(),
        backend: RuntimeBackend::NativeUv,
        model_description: None,
        contract_version: 2,
        ready: true,
        display_name: None,
        recommended_languages: Vec::new(),
        known_limitations: Vec::new(),
        auto_detection: None,
    };
    let lines = runtime_status_lines(&description);
    assert!(lines.iter().any(|l| l.contains("/runtime")));
    assert_eq!(runtime_status_exit(true), 0);
    assert_eq!(runtime_status_exit(false), EXIT_RUNTIME);
}

#[test]
fn a_command_freezes_its_job() {
    let mut config = default_config();
    config.llm_enabled = true;
    apply_no_llm(&mut config, true);
    assert!(!config.llm_enabled);
    let input = "https://www.bilibili.com/video/BV1HuMk61ECq?p=3";
    let selection = TranscriptionSelection {
        runtime_source: RuntimeSource::External,
        runtime_project: "/p".to_string(),
        runtime_data_dir: "/d".to_string(),
        runtime_identity: "identity".to_string(),
        runtime_backend: RuntimeBackend::NativeUv,
        model_description: None,
        requested_language: SourceLanguage::En,
        created_from: CreatedFrom::Cli,
    };
    let job = new_cli_job(9, parse_url(input).unwrap(), selection.clone(), None, &config, input);
    assert_eq!((job.id, job.bvid.as_str(), job.page), (9, "BV1HuMk61ECq", 3));
    assert_eq!(job.source_url.as_deref(), Some(input));
    assert_eq!(job.retention, RetentionPolicy::Recommended);
    assert_eq!(job.content_setup, Some(config.content_setup()));
    let asked = Some(RetentionPolicy::DocumentsOnly);
    let bare = new_cli_job(9, parse_url("BV1HuMk61ECq").unwrap(), selection, asked, &config, "x");
    assert_eq!((bare.page, bare.retention), (1, RetentionPolicy::DocumentsOnly));
}

#[test]
fn a_release_check_needs_its_token() {
    assert_eq!(release_check(None, Some("ab")), Ok(None));
    assert_eq!(
        release_check(Some("/root"), None).unwrap_err(),
        "--release-check-root requires --release-check-token"
    );
    assert_eq!(release_check(Some("/root"), Some("ab")), Ok(Some(("/root".to_string(), "ab".to_string()))));
    assert!(release_check(Some("root"), Some("ab")).unwrap_err().contains("requires an absolute path"));
    assert_eq!(lock_refusal(false, "denied"), "denied");
    assert!(lock_refusal(true, "held").contains("already running"));
}
