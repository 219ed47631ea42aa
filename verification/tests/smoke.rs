use bi2read::config::Config;
use bi2read::paths::AppPaths;
use bi2read::content_results::record::UtcTime;
use bi2read::content_results::target::InitialTargetV1;
use bi2read::funasr::RuntimeBackend;
use bi2read::jobs::{CreatedFrom, Job, RuntimeSource, SourceLanguage, Stage, StageState, TranscriptionSelection};
use bi2read::smoke::{
    adopt_resume_dir, e2e_config, e2e_output_dir, finish_run, is_direct_job_dir, new_smoke_job, parse_smoke_args,
    prepare_run_state, report, report_files, resolve_resume_job_dir, E2ePaths, RunFiles, SmokeCommand, SmokeRefusal,
    E2E_OUTPUT_ROOT, E2E_WORKING_ROOT,
};

fn new_id() -> uuid::Uuid {
    uuid::Uuid::new_v4()
}

fn args(list: &[&str]) -> Vec<String> {
    list.iter().map(|s| s.to_string()).collect()
}

fn default_config() -> Config {
    Config::default(Some(&AppPaths::for_home("/home/me")), "nonce".to_string())
}

#[test]
fn resume_path_must_be_a_direct_child_of_e2e_root() {
    let root = E2E_WORKING_ROOT;
    let job_id = new_id().to_string();
    assert!(is_direct_job_dir(root, &format!("{root}/{job_id}")));
    assert!(!is_direct_job_dir(root, root));
    assert!(!is_direct_job_dir(root, &format!("{root}/{job_id}/nested")));
    assert!(!is_direct_job_dir(root, &format!("/tmp/bi2read/production-jobs/{job_id}")));
}

#[test]
fn headless_run_records_scheduler_timestamps() {
    let id = new_id();
    let mut job = Job::new(id.as_u128(), "BV1test".to_string(), 1);
    let work_dir = format!("{E2E_WORKING_ROOT}/{id}");
    let start = UtcTime { seconds: 100, nanoseconds: 5 };
    let end = UtcTime { seconds: 101, nanoseconds: 0 };

    prepare_run_state(&mut job, work_dir.clone(), start);
    let started_at = job.started_at;
    finish_run(&mut job, end);

    assert_eq!(job.work_dir, Some(work_dir));
    assert!(started_at.is_some());
    assert_eq!(job.finished_at, Some(end));
}

#[test]
fn every_invocation_gets_an_independent_output_root() {
    let paths = E2ePaths::default();
    let first = e2e_output_dir(new_id().as_u128(), &paths);
    let second = e2e_output_dir(new_id().as_u128(), &paths);

    assert_ne!(first, second);
    assert_eq!(first.rsplit_once('/').unwrap().0, E2E_OUTPUT_ROOT);
    assert_eq!(second.rsplit_once('/').unwrap().0, E2E_OUTPUT_ROOT);
}

#[test]
fn a_run_does_not_use_the_settings_of_the_user() {
    let paths = E2ePaths { working_root: "/w".to_string(), output_root: "/o".to_string() };
    let home = AppPaths::for_home("/home/me");
    let config = e2e_config(1, &paths, Some(&home), "nonce".to_string());
    assert_eq!(config.runtime_data_dir, home.funasr_runtime_data_dir);
    assert_eq!(config.instance_nonce, "nonce");
    assert_eq!(e2e_config(1, &paths, None, "n".to_string()).runtime_data_dir, "bi2read/Runtime");
    assert_eq!(config.working_dir, "/w");
    assert_eq!(config.output_dir, "/o/00000000-0000-0000-0000-000000000001");
    assert_eq!(
        Config { working_dir: "/w".to_string(), output_dir: config.output_dir.clone(), ..default_config() }
            .llm_enabled,
        config.llm_enabled
    );
}

#[test]
fn commands_are_read() {
    assert!(matches!(parse_smoke_args(&args(&[])), Err(SmokeRefusal::Usage)));
    assert!(matches!(parse_smoke_args(&args(&["--resume"])), Err(SmokeRefusal::NoDirectory)));
    match parse_smoke_args(&args(&["--resume", "/dir", "--keep"])) {
        Ok(SmokeCommand::Resume { job_dir, keep }) => {
            assert_eq!(job_dir, "/dir");
            assert!(keep);
        }
        other => panic!("{other:?}"),
    }
    match parse_smoke_args(&args(&["BV1xx411c7mD?p=2"])) {
        Ok(SmokeCommand::New { bvid, page, keep }) => {
            assert_eq!(bvid, "BV1xx411c7mD");
            assert_eq!(page, 2);
            assert!(!keep);
        }
        other => panic!("{other:?}"),
    }
    match parse_smoke_args(&args(&["nothing"])) {
        Err(SmokeRefusal::Unreadable(e)) => assert!(e.starts_with("URL parse failed: not a recognizable")),
        other => panic!("{other:?}"),
    }
}

#[test]
fn a_directory_elsewhere_is_not_resumed() {
    let ok = resolve_resume_job_dir("x", "r", Ok("/root".to_string()), Ok("/root/a".to_string()));
    assert_eq!(ok, Ok("/root/a".to_string()));
    let far = resolve_resume_job_dir("x", "r", Ok("/root".to_string()), Ok("/other/a".to_string()));
    assert_eq!(
        far,
        Err("/other/a is not a direct child of the dedicated E2E jobs root /root".to_string())
    );
    let gone = resolve_resume_job_dir("x", "r", Err("gone".to_string()), Ok("/root/a".to_string()));
    assert_eq!(gone, Err("cannot resolve E2E jobs root r: gone".to_string()));
    let id = new_id();
    let mut job = Job::new(id.as_u128(), "BV1".to_string(), 1);
    assert!(adopt_resume_dir(&mut job, "/root/else").is_err());
    assert_eq!(job.work_dir, None);
    assert!(adopt_resume_dir(&mut job, &format!("/root/{id}")).is_ok());
    assert_eq!(job.work_dir, Some(format!("/root/{id}")));
}

#[test]
fn a_new_run_has_no_model() {
    let selection = TranscriptionSelection {
        runtime_source: RuntimeSource::External,
        runtime_project: "/p".to_string(),
        runtime_data_dir: "/d".to_string(),
        runtime_identity: "contract-v2:x".to_string(),
        runtime_backend: RuntimeBackend::DockerCompose,
        model_description: None,
        requested_language: SourceLanguage::Auto,
        created_from: CreatedFrom::Cli,
    };
    let job = new_smoke_job(7, "BV1x".to_string(), 3, selection, "input");
    assert!(matches!(job.content_setup.as_ref().unwrap().initial_target, InitialTargetV1::Disabled));
    assert_eq!(job.source_url.as_deref(), Some("input"));
    assert_eq!(job.stage_state(Stage::Transcribe), StageState::Pending);
    assert_eq!(job.stages.len(), 6);
    assert_eq!((job.title.as_str(), job.stage, job.stage_progress), ("BV1x", Stage::Metadata, 0));
    assert!(job.error.is_none() && job.work_dir.is_none() && job.started_at.is_none());
}

#[test]
fn only_a_successful_run_is_cleaned_up() {
    let mut job = Job::new(1, "BV1x".to_string(), 1);
    job.work_dir = Some("/w/job \"1\"".to_string());
    let files = || RunFiles { listed: [Some(3), None, None, None, None], full: None, mirror: false };
    let done = report(None, &job, "/o", "1.5", false, &files());
    assert_eq!(done.code, 0);
    assert_eq!(done.remove, args(&["/w/job \"1\"", "/o"]));
    assert_eq!(done.lines[0], "pipeline completed in 1.5s");
    assert_eq!(done.lines[2], "  - metadata.json (3 bytes)");
    assert_eq!(done.lines[3], "  - transcript.raw.json MISSING");
    assert_eq!(done.lines[7], "output full.md: MISSING at /o/full.md");
    let kept = report(None, &job, "/o", "1.5", true, &files());
    assert!(kept.remove.is_empty());
    assert!(kept.lines.contains(&"--keep: retained job dir: Some(\"/w/job \\\"1\\\"\")".to_string()));
    let failed = report(Some("boom"), &job, "/o", "2.0", false, &files());
    assert_eq!(failed.code, 1);
    assert!(failed.remove.is_empty());
    assert_eq!(failed.lines[0], "pipeline FAILED after 2.0s: boom");
    assert_eq!(report_files()[4], "content-current.v1.json");
}
