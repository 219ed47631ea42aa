use bi2read::funasr::{
    accept_device, check_manifest, check_probe_backend, check_run_exit, container_name, docker_run_args,
    files_to_look_for, fingerprint_files, install_step, is_left_behind, matching_ready_record, native_data_dirs,
    native_uv_environment, owns_container, probe_result, ready_record, require_ready, run_step, runtime_is_ready,
    runtime_status, parse_transcript, uv_sync_spec, validate, validate_runtime_relative_path, FunasrError, InstallStep,
    RunStep, RuntimeBackend, RuntimeManifest, Segment, SpeakerLabel, SubprocessSpec, Utterance,
};

fn native() -> RuntimeManifest {
    RuntimeManifest {
        contract_version: 1,
        backend: RuntimeBackend::NativeUv,
        entrypoint: Some("transcribe.py".to_string()),
        compose_file: None,
        transcribe_service: None,
        probe_service: None,
        output_schema_version: 1,
        output_schema_file: "schemas/normalized-v1.schema.json".to_string(),
    }
}

fn docker() -> RuntimeManifest {
    RuntimeManifest {
        contract_version: 1,
        backend: RuntimeBackend::DockerCompose,
        entrypoint: None,
        compose_file: Some("docker-compose.yml".to_string()),
        transcribe_service: Some("transcribe".to_string()),
        probe_service: Some("probe".to_string()),
        output_schema_version: 1,
        output_schema_file: "schemas/normalized-v1.schema.json".to_string(),
    }
}

fn names(list: &[&str]) -> Vec<String> {
    list.iter().map(|s| s.to_string()).collect()
}

#[test]
fn loads_native_uv_contract_without_running_uv() {
    let present = names(&[
        "transcribe.py",
        "pyproject.toml",
        ".python-version",
        "uv.lock",
        "schemas/normalized-v1.schema.json",
    ]);
    assert!(check_manifest(&native(), &present).is_ok());
    let mut missing = present;
    missing.retain(|f| f != "uv.lock");
    assert!(check_manifest(&native(), &missing).is_err());
}

#[test]
fn loads_docker_contract_without_requiring_native_files() {
    let present = names(&["docker-compose.yml", "schemas/normalized-v1.schema.json"]);
    assert!(check_manifest(&docker(), &present).is_ok());
    assert!(check_manifest(&docker(), &names(&["docker-compose.yml"])).is_err());
}

#[test]
fn contracts_of_other_versions_are_refused() {
    let present = files_to_look_for(&native());
    let mut m = native();
    m.contract_version = 2;
    assert!(check_manifest(&m, &present).is_ok());
    m.contract_version = 3;
    assert!(check_manifest(&m, &present).is_err());
    m.contract_version = 0;
    assert!(check_manifest(&m, &present).is_err());
}

#[test]
fn parses_normalized_schema_v1() {
    let segments = vec![
        Segment {
            text: "你好".to_string(),
            start_ms: 0,
            end_ms: 500,
            speaker: SpeakerLabel::Named("speaker-1".to_string()),
        },
        Segment { text: "世界".to_string(), start_ms: 600, end_ms: 900, speaker: SpeakerLabel::Unknown },
    ];
    let utterances = parse_transcript(1, &segments).unwrap();
    assert_eq!(utterances.len(), 2);
    assert_eq!(utterances[0].speaker_id, 1);
    assert_eq!(utterances[1].speaker_id, 0);
    assert!(validate(&utterances).is_ok());
}

#[test]
fn rejects_unknown_schema_version() {
    assert!(matches!(parse_transcript(2, &Vec::new()), Err(FunasrError::Validation(_))));
}

#[test]
fn native_uv_environment_redirects_all_large_or_temporary_data() {
    let spec = native_uv_environment(SubprocessSpec::new(names(&["uv", "--version"])), "/runtime-data");
    let value = |name: &str| spec.env.iter().find(|(n, _)| n == name).map(|(_, v)| v.clone());
    for (name, relative) in [
        ("UV_PROJECT_ENVIRONMENT", "python-environment"),
        ("UV_CACHE_DIR", "uv-cache"),
        ("UV_PYTHON_INSTALL_DIR", "python-installations"),
        ("MODELSCOPE_CACHE", "models"),
        ("HF_HOME", "huggingface"),
        ("TORCH_HOME", "torch"),
        ("TMPDIR", "tmp"),
        ("BIMYSCRIBE_FUNASR_CACHE_DIR", "cache"),
    ] {
        assert_eq!(value(name), Some(format!("/runtime-data/{relative}")));
    }
    assert_eq!(value("UV_NO_CONFIG"), Some("1".to_string()));
    assert_eq!(value("UV_PYTHON_PREFERENCE"), Some("only-managed".to_string()));
}

#[test]
fn container_name_contains_instance_and_job() {
    let id = uuid::Uuid::new_v4();
    let name = container_name(id.as_u128(), "0123456789abcdef");
    assert_eq!(name, format!("bimyscribe-0123456789ab-{id}"));
}

#[test]
fn paths_outside_of_a_runtime_are_refused() {
    assert!(validate_runtime_relative_path("schemas/a.json").is_ok());
    assert!(validate_runtime_relative_path("/etc/passwd").is_err());
    assert!(validate_runtime_relative_path("a/../../b").is_err());
}

#[test]
fn a_ready_record_holds_as_long_as_nothing_changes() {
    let m = native();
    let record = ready_record(&m, "/runtime".to_string(), 7, "cpu".to_string());
    assert!(require_ready(&Some(ready_record(&m, "/runtime".to_string(), 7, "cpu".to_string()))).is_ok());
    assert!(require_ready(&None).is_err());
    let kept = matching_ready_record(Some(record), &m, "/runtime", Some(7));
    assert!(kept.is_some());
    assert!(runtime_is_ready(&Ok(native()), &kept));
    assert!(runtime_status(&Ok(native()), &kept).contains("已就绪 · cpu"));
    let other = matching_ready_record(kept, &m, "/runtime", Some(8));
    assert!(other.is_none());
    assert!(runtime_status(&Ok(native()), &other).contains("未安装或需要重新验证"));
}

#[test]
fn fingerprints_cover_the_files_of_a_runtime() {
    assert_eq!(
        fingerprint_files(&native(), true, true),
        names(&[
            "bimyscribe-runtime.toml",
            "schemas/normalized-v1.schema.json",
            "transcribe.py",
            "transcribe.py",
            "uv.lock"
        ])
    );
    assert_eq!(
        fingerprint_files(&docker(), false, false),
        names(&["bimyscribe-runtime.toml", "schemas/normalized-v1.schema.json", "docker-compose.yml"])
    );
}

#[test]
fn installing_goes_step_by_step() {
    assert_eq!(install_step(InstallStep::Version, 0), Ok(InstallStep::Sync));
    assert_eq!(install_step(InstallStep::Sync, 0), Ok(InstallStep::SelfCheck));
    assert_eq!(install_step(InstallStep::SelfCheck, 0), Ok(InstallStep::Installed));
    assert_eq!(install_step(InstallStep::Sync, -7).unwrap_err().describe().contains("-7"), true);
    assert!(install_step(InstallStep::Version, 1).is_err());
    assert!(accept_device("mps".to_string()).is_ok());
    assert!(accept_device("cuda".to_string()).is_err());
    assert!(native_data_dirs().contains(&"models".to_string()));
    assert!(uv_sync_spec("/p", "/d", "/l").argv.contains(&"uv".to_string()));
}

#[test]
fn probes_are_for_containers_only() {
    assert!(check_probe_backend(&docker()).is_ok());
    assert!(check_probe_backend(&native()).is_err());
    assert!(probe_result(0, Some(0)).is_ok());
    assert!(probe_result(1, None).is_err());
    assert!(probe_result(0, Some(3)).is_err());
    assert!(check_run_exit(0).is_ok());
    assert!(check_run_exit(9).is_err());
}

#[test]
fn only_containers_of_earlier_runs_are_removed() {
    let id = uuid::Uuid::new_v4();
    let known = vec![id.as_u128()];
    assert!(is_left_behind(&format!("{id}|old\n"), &known, "new"));
    assert!(!is_left_behind(&format!("{id}|new\n"), &known, "new"));
    assert!(!is_left_behind(&format!("{id}|\n"), &known, "new"));
    assert!(!is_left_behind(&format!("{}|old\n", uuid::Uuid::new_v4()), &known, "new"));
    assert!(owns_container(&format!("true|{id}|nonce\n"), id.as_u128(), "nonce"));
    assert!(!owns_container(&format!("true|{id}|other"), id.as_u128(), "nonce"));
    let args = docker_run_args("name", id.as_u128(), "nonce", "transcribe");
    assert!(args.contains(&"name".to_string()) && args.contains(&"transcribe".to_string()));
}

#[test]
fn a_cancelled_run_is_stopped() {
    assert_eq!(run_step(true, true), RunStep::Stop);
    assert_ne!(run_step(false, true), RunStep::Stop);
    assert_ne!(run_step(false, false), run_step(false, true));
}

#[test]
fn a_transcript_out_of_order_is_refused() {
    let bad = vec![Utterance {
        id: "a".to_string(),
        text: "x".to_string(),
        start_ms: 5,
        end_ms: 4,
        speaker_id: 0,
    }];
    assert!(validate(&bad).is_err());
}
