//! A run of the whole pipeline from the command line, apart from the user's own jobs.

use vstd::prelude::*;
use crate::bilibili::{page_from, parse_url, video_in};
use crate::config::{Config, untouched};
use crate::content_results::record::UtcTime;
use crate::content_results::target::{ContentSetupV1, InitialTargetV1};
use crate::ids::{hyphenated, id_text, ids_are_told_apart};
use crate::jobs::{Job, RetentionPolicy, Stage, StageState, TranscriptionSelection, pipeline, pipeline_stages};
use crate::json::{debug_text, to_debug_text};
use crate::paths::{AppPaths, below, join_path};
use crate::text::{
    a_part_is_found, cat2, cat3, cat4, cat5, chars_of, contains_char, dec, decimal, has, lists, opt_view, same, split,
    split_text, starts, starts_with, text, text_of, trimmed, views, views_push,
};

verus! {

/// Where the jobs of such runs are.
pub const E2E_WORKING_ROOT: &'static str = "/tmp/bi2read/e2e-jobs";

/// Where the documents of such runs are.
pub const E2E_OUTPUT_ROOT: &'static str = "/tmp/bi2read/e2e-output";

/// The two roots of such runs.
#[derive(Debug)]
pub struct E2ePaths {
    pub working_root: String,
    pub output_root: String,
}

impl Default for E2ePaths {
    fn default() -> (r: Self)
        ensures
            r.working_root@ == E2E_WORKING_ROOT@,
            r.output_root@ == E2E_OUTPUT_ROOT@,
    {
        E2ePaths { working_root: text(E2E_WORKING_ROOT), output_root: text(E2E_OUTPUT_ROOT) }
    }
}

// ---- The command line ----

/// What a run is asked to do.
#[derive(Debug)]
pub enum SmokeCommand {
    /// Run a new job.
    New { bvid: String, page: u32, keep: bool },
    /// Go on with a job that crashed.
    Resume { job_dir: String, keep: bool },
}

/// Why a run is not begun. Each of them ends the program with the code 2.
#[derive(Debug)]
pub enum SmokeRefusal {
    /// Nothing was asked for.
    Usage,
    /// The input names no video.
    Unreadable(String),
    /// A directory to go on with is missing.
    NoDirectory,
}

/// Whether the files of a run are kept.
pub open spec fn keeps(args: Seq<Seq<char>>) -> bool {
    args.contains("--keep"@)
}

/// Reads what a run is asked to do.
pub fn parse_smoke_args(args: &Vec<String>) -> (r: Result<SmokeCommand, SmokeRefusal>)
    ensures
        ({
            let words = views(args@);
            if words.len() == 0 {
                r == Err::<SmokeCommand, SmokeRefusal>(SmokeRefusal::Usage)
            } else if words[0] == "--resume"@ {
                if words.len() > 1 {
                    r matches Ok(SmokeCommand::Resume { job_dir, keep }) && job_dir@ == words[1] && keep == keeps(words)
                } else {
                    r == Err::<SmokeCommand, SmokeRefusal>(SmokeRefusal::NoDirectory)
                }
            } else {
                match r {
                    Ok(SmokeCommand::New { bvid, page, keep }) => trimmed(words[0]).len() > 0 && video_in(words[0])
                        == Some(bvid@) && keep == keeps(words) && page == (match page_from(trimmed(words[0]), 0) {
                        Some(p) => p,
                        None => 1,
                    }),
                    Err(SmokeRefusal::Unreadable(e)) => (trimmed(words[0]).len() == 0 && e@
                        == "URL parse failed: empty input"@) || (trimmed(words[0]).len() > 0 && video_in(words[0]) is None
                        && e@ == "URL parse failed: "@ + ("not a recognizable Bilibili URL or BV id: "@ + trimmed(
                        words[0],
                    ))),
                    _ => false,
                }
            }
        }),
{
    if args.len() == 0 {
        return Err(SmokeRefusal::Usage);
    }
    assert(views(args@)[0] == args@[0]@);
    let keep = lists(args, "--keep");
    if same(args[0].as_str(), "--resume") {
        if args.len() > 1 {
            assert(views(args@)[1] == args@[1]@);
            return Ok(SmokeCommand::Resume { job_dir: args[1].clone(), keep });
        }
        return Err(SmokeRefusal::NoDirectory);
    }
    match parse_url(args[0].as_str()) {
        Ok(p) => {
            let page: u32 = match p.page {
                Some(n) => n,
                None => 1,
            };
            Ok(SmokeCommand::New { bvid: p.bvid, page, keep })
        },
        Err(e) => {
            let why = e.describe();
            proof {
                reveal_strlit("URL parse failed: empty input");
                reveal_strlit("URL parse failed: ");
                reveal_strlit("empty input");
                assert("URL parse failed: "@ + "empty input"@ =~= "URL parse failed: empty input"@);
            }
            Err(SmokeRefusal::Unreadable(cat2("URL parse failed: ", why.as_str())))
        },
    }
}

// ---- Apart from everything else ----

/// Where the documents of one run are.
pub open spec fn output_of(run_id: u128, paths: E2ePaths) -> Seq<char> {
    below(paths.output_root@, hyphenated(run_id))
}

/// Where the documents of one run are.
pub fn e2e_output_dir(run_id: u128, paths: &E2ePaths) -> (r: String)
    ensures
        r@ == output_of(run_id, *paths),
{
    let id = id_text(run_id);
    join_path(paths.output_root.as_str(), id.as_str())
}

/// The settings of one run: those of a program that was never set up, with the two roots.
pub fn e2e_config(run_id: u128, paths: &E2ePaths, home: Option<&AppPaths>, instance_nonce: String) -> (r: Config)
    ensures
        r.working_dir@ == paths.working_root@,
        r.output_dir@ == output_of(run_id, *paths),
        r.runtime_data_dir@ == (match home {
            Some(p) => p.funasr_runtime_data_dir@,
            None => "bi2read/Runtime"@,
        }),
        r.instance_nonce == instance_nonce,
        untouched(r),
{
    let mut config = Config::default(home, instance_nonce);
    config.working_dir = paths.working_root.clone();
    config.output_dir = e2e_output_dir(run_id, paths);
    config
}

/// Two runs never share their documents.
pub proof fn every_run_has_its_own_output(a: u128, b: u128, paths: E2ePaths)
    requires
        output_of(a, paths) == output_of(b, paths),
    ensures
        a == b,
{
    let x = hyphenated(a);
    let y = hyphenated(b);
    let root = paths.output_root@;
    crate::ids::an_id_is_no_root(a);
    crate::ids::an_id_is_no_root(b);
    let p = output_of(a, paths);
    if root.len() == 0 || root.last() == '/' {
        assert(p.skip(root.len() as int) =~= x);
        assert(p.skip(root.len() as int) =~= y);
    } else {
        reveal_strlit("/");
        assert(p.skip(root.len() as int + 1) =~= x);
        assert(p.skip(root.len() as int + 1) =~= y);
    }
    ids_are_told_apart(a, b);
}

/// The name of an entry of a directory.
pub open spec fn entry_name(name: Seq<char>) -> bool {
    name.len() > 0 && !name.contains('/') && name != "."@ && name != ".."@
}

/// A path names an entry of a directory; both are canonical.
pub open spec fn child_of(root: Seq<char>, dir: Seq<char>) -> bool {
    let stem = if root.len() > 0 && root.last() == '/' {
        root
    } else {
        root + "/"@
    };
    starts(dir, stem) && entry_name(dir.skip(stem.len() as int))
}

/// Whether a job's directory lies directly below the root of such runs. Both are canonical paths,
/// so that neither a link nor a way up can lead elsewhere.
pub fn is_direct_job_dir(root: &str, job_dir: &str) -> (b: bool)
    ensures
        b == child_of(root@, job_dir@),
{
    let stem = if !root.is_empty() && root.get_char(root.unicode_len() - 1) == '/' {
        text(root)
    } else {
        cat2(root, "/")
    };
    if !starts_with(job_dir, stem.as_str()) {
        return false;
    }
    let v: Vec<char> = chars_of(job_dir);
    let n: usize = stem.as_str().unicode_len();
    let name = text_of(&v, n, v.len());
    assert(v@.subrange(n as int, v@.len() as int) =~= job_dir@.skip(n as int));
    !name.as_str().is_empty() && !contains_char(name.as_str(), '/') && !same(name.as_str(), ".") && !same(
        name.as_str(),
        "..",
    )
}

/// The directory of a job that is gone on with, given what the two paths resolve to, or why it is
/// refused.
pub fn resolve_resume_job_dir(
    job_dir: &str,
    working_root: &str,
    resolved_root: Result<String, String>,
    resolved_dir: Result<String, String>,
) -> (r: Result<String, String>)
    ensures
        match (resolved_root, resolved_dir) {
            (Err(e), _) => r matches Err(m) && m@ == "cannot resolve E2E jobs root "@ + working_root@ + ": "@ + e@,
            (Ok(_), Err(e)) => r matches Err(m) && m@ == "cannot resolve job directory "@ + job_dir@ + ": "@ + e@,
            (Ok(root), Ok(dir)) => if child_of(root@, dir@) {
                r == Ok::<String, String>(dir)
            } else {
                r matches Err(m) && m@ == dir@ + " is not a direct child of the dedicated E2E jobs root "@ + root@
            },
        },
{
    let root = match resolved_root {
        Ok(p) => p,
        Err(e) => {
            return Err(cat4("cannot resolve E2E jobs root ", working_root, ": ", e.as_str()));
        },
    };
    let dir = match resolved_dir {
        Ok(p) => p,
        Err(e) => {
            return Err(cat4("cannot resolve job directory ", job_dir, ": ", e.as_str()));
        },
    };
    if is_direct_job_dir(root.as_str(), dir.as_str()) {
        Ok(dir)
    } else {
        Err(cat3(dir.as_str(), " is not a direct child of the dedicated E2E jobs root ", root.as_str()))
    }
}

/// Takes the directory as the one of the job, where it has the name of the job. What the job says
/// of itself may be out of date.
pub fn adopt_resume_dir(job: &mut Job, job_dir: &str) -> (r: Result<(), String>)
    ensures
        if split(job_dir@, '/').last() == hyphenated(old(job).id) {
            r is Ok && opt_view(final(job).work_dir) == Some(job_dir@) && *final(job) == (Job {
                work_dir: final(job).work_dir,
                ..*old(job)
            })
        } else {
            *final(job) == *old(job) && (r matches Err(m) && m@
                == "refusing to resume: job directory name must match state job id "@ + hyphenated(old(job).id))
        },
{
    let id = id_text(job.id);
    let parts = split_text(job_dir, '/');
    let ghost ps = split(job_dir@, '/');
    proof {
        split_has_parts(job_dir@, '/');
        assert(views(parts@).last() == parts@.last()@);
    }
    if !same(parts[parts.len() - 1].as_str(), id.as_str()) {
        return Err(cat2("refusing to resume: job directory name must match state job id ", id.as_str()));
    }
    job.work_dir = Some(text(job_dir));
    Ok(())
}

proof fn split_has_parts(s: Seq<char>, c: char)
    ensures
        split(s, c).len() > 0,
    decreases s.len(),
{
    if s.len() > 0 {
        split_has_parts(s.drop_last(), c);
    }
}

// ---- The run ----

/// The first `n` steps of a job, all pending.
pub open spec fn pending_steps(n: nat) -> Seq<(Stage, StageState)> {
    Seq::new(n, |i: int| (pipeline()[i], StageState::Pending))
}

/// The job of a new run: frozen with its selection, without any model.
pub open spec fn smoke_job(j: Job, id: u128, bvid: Seq<char>, page: u32, s: TranscriptionSelection, input: Seq<char>) -> bool {
    &&& j.id == id && j.bvid@ == bvid && j.title@ == bvid && j.page == page
    &&& opt_view(j.source_url) == Some(input)
    &&& j.not_begun()
    &&& j.stages@ == pending_steps(6)
    &&& j.transcription_selection == Some(s) && j.retention is Recommended
    &&& j.content_setup == Some(ContentSetupV1::of(InitialTargetV1::Disabled))
}

/// The job of a new run.
pub fn new_smoke_job(id: u128, bvid: String, page: u32, selection: TranscriptionSelection, input: &str) -> (j: Job)
    ensures
        smoke_job(j, id, bvid@, page, selection, input@),
{
    let mut job = Job::new(id, bvid, page);
    job.transcription_selection = Some(selection);
    job.retention = RetentionPolicy::Recommended;
    job.content_setup = Some(ContentSetupV1::disabled());
    job.source_url = Some(text(input));
    let stages = pipeline_stages();
    let ghost before = job;
    let mut i: usize = 0;
    while i < 6
        invariant
            i <= 6,
            stages@ == pipeline(),
            job == (Job { stages: job.stages, ..before }),
            job.stages@ =~= pending_steps(i as nat),
        decreases 6 - i,
    {
        job.set_stage_state(stages[i], StageState::Pending);
        i += 1;
    }
    job
}

/// Marks the beginning of a run.
pub fn prepare_run_state(job: &mut Job, work_dir: String, now: UtcTime)
    ensures
        *final(job) == (Job {
            work_dir: Some(work_dir),
            started_at: Some(now),
            finished_at: None,
            ..*old(job)
        }),
{
    job.work_dir = Some(work_dir);
    job.started_at = Some(now);
    job.finished_at = None;
}

/// Marks the end of a run.
pub fn finish_run(job: &mut Job, now: UtcTime)
    ensures
        *final(job) == (Job { finished_at: Some(now), ..*old(job) }),
{
    job.finished_at = Some(now);
}

// ---- The report ----

/// The files that a report lists.
pub open spec fn listed_files() -> Seq<Seq<char>> {
    seq![
        "metadata.json"@,
        "transcript.raw.json"@,
        "transcript.raw.md"@,
        "transcript.readable.md"@,
        "content-current.v1.json"@,
    ]
}

/// The files that a report lists.
pub fn report_files() -> (r: [&'static str; 5])
    ensures
        forall|i: int| 0 <= i < 5 ==> (#[trigger] r@[i])@ == listed_files()[i],
{
    [
        "metadata.json",
        "transcript.raw.json",
        "transcript.raw.md",
        "transcript.readable.md",
        "content-current.v1.json",
    ]
}

/// What the disk holds after a run: the sizes of the files that are there.
#[derive(Debug)]
pub struct RunFiles {
    pub listed: [Option<u64>; 5],
    pub full: Option<u64>,
    /// The whole document lies beside the transcript too.
    pub mirror: bool,
}

/// The report of a run: its lines, the directories that are removed, and the code.
#[derive(Debug)]
pub struct SmokeReport {
    pub lines: Vec<String>,
    pub remove: Vec<String>,
    pub code: u8,
}

/// The line of a file.
pub open spec fn file_line(name: Seq<char>, size: Option<u64>) -> Seq<char> {
    match size {
        Some(n) => "  - "@ + name + " ("@ + dec(n as nat) + " bytes)"@,
        None => "  - "@ + name + " MISSING"@,
    }
}

/// The lines of the first `n` files.
pub open spec fn file_lines(sizes: Seq<Option<u64>>, n: int) -> Seq<Seq<char>>
    decreases n,
{
    if n <= 0 {
        Seq::empty()
    } else {
        file_lines(sizes, n - 1).push(file_line(listed_files()[n - 1], sizes[n - 1]))
    }
}

/// Where the documents of a run are: where the job says, or else where the settings say.
pub open spec fn documents_of(job: Job, output_dir: Seq<char>) -> Seq<char> {
    match job.final_output_dir {
        Some(d) => d@,
        None => output_dir,
    }
}

/// The lines on what a run that came to its end has left.
pub open spec fn found_lines(job: Job, output_dir: Seq<char>, files: RunFiles) -> Seq<Seq<char>> {
    match job.work_dir {
        None => Seq::empty(),
        Some(dir) => {
            let full = below(documents_of(job, output_dir), "full.md"@);
            seq!["job dir: "@ + dir@] + file_lines(files.listed@, 5) + seq![
                match files.full {
                    Some(n) => "output full.md: "@ + full + " ("@ + dec(n as nat) + " bytes)"@,
                    None => "output full.md: MISSING at "@ + full,
                },
            ] + (if job.content_setup is Some && files.mirror {
                seq!["warning: v0.5 work-dir full.md mirror unexpectedly exists"@]
            } else {
                Seq::empty()
            })
        },
    }
}

/// A path that may be missing, as it is printed for inspection.
pub open spec fn shown_path(p: Option<String>) -> Seq<char> {
    match p {
        Some(s) => "Some("@ + debug_text(s@) + ")"@,
        None => "None"@,
    }
}

/// The lines of a run that came to its end.
pub open spec fn success_lines(job: Job, output_dir: Seq<char>, elapsed: Seq<char>, keep: bool, files: RunFiles) -> Seq<
    Seq<char>,
> {
    seq!["pipeline completed in "@ + elapsed + "s"@] + found_lines(job, output_dir, files) + (if keep {
        seq![
            "--keep: retained job dir: "@ + shown_path(job.work_dir),
            "--keep: retained output: "@ + documents_of(job, output_dir),
        ]
    } else {
        (match job.work_dir {
            Some(d) => seq!["cleaning up this job dir: "@ + d@],
            None => Seq::empty(),
        }) + seq!["cleaning up this run's output: "@ + output_dir]
    })
}

/// The lines of a run that failed.
pub open spec fn failure_lines(job: Job, output_dir: Seq<char>, elapsed: Seq<char>, error: Seq<char>) -> Seq<Seq<char>> {
    seq![
        "pipeline FAILED after "@ + elapsed + "s: "@ + error,
        "job dir retained for inspection: "@ + shown_path(job.work_dir),
        "output root retained for inspection: "@ + output_dir,
        "failed runs are always retained; --keep is not required"@,
    ]
}

/// The directories that are removed: those of a run that came to its end and is not kept, and no
/// others.
pub open spec fn removed_dirs(job: Job, output_dir: Seq<char>, failed: bool, keep: bool) -> Seq<Seq<char>> {
    if failed || keep {
        Seq::empty()
    } else {
        (match job.work_dir {
            Some(d) => seq![d@],
            None => Seq::empty(),
        }) + seq![output_dir]
    }
}

fn put(lines: &mut Vec<String>, line: String)
    ensures
        views(final(lines)@) == views(old(lines)@).push(line@),
{
    proof {
        views_push(lines@, line);
    }
    lines.push(line);
}

fn write_path(p: &Option<String>) -> (r: String)
    ensures
        r@ == shown_path(*p),
{
    match p {
        Some(s) => {
            let quoted = to_debug_text(s.as_str());
            cat3("Some(", quoted.as_str(), ")")
        },
        None => text("None"),
    }
}

fn write_file_line(name: &str, size: Option<u64>) -> (r: String)
    ensures
        r@ == file_line(name@, size),
{
    match size {
        Some(n) => {
            let d = decimal(n);
            cat5("  - ", name, " (", d.as_str(), " bytes)")
        },
        None => cat3("  - ", name, " MISSING"),
    }
}

fn write_found(lines: &mut Vec<String>, job: &Job, output_dir: &str, files: &RunFiles)
    ensures
        views(final(lines)@) == views(old(lines)@) + found_lines(*job, output_dir@, *files),
{
    let ghost start = views(lines@);
    let dir = match &job.work_dir {
        Some(d) => d,
        None => {
            assert(start + Seq::<Seq<char>>::empty() =~= start);
            return;
        },
    };
    put(lines, cat2("job dir: ", dir.as_str()));
    let names = report_files();
    let ghost head = start.push("job dir: "@ + dir@);
    let mut i: usize = 0;
    assert(head + file_lines(files.listed@, 0) =~= head);
    while i < 5
        invariant
            i <= 5,
            forall|k: int| 0 <= k < 5 ==> (#[trigger] names@[k])@ == listed_files()[k],
            views(lines@) == head + file_lines(files.listed@, i as int),
        decreases 5 - i,
    {
        let ghost so_far = file_lines(files.listed@, i as int);
        let line = write_file_line(names[i], files.listed[i]);
        put(lines, line);
        assert((head + so_far).push(line@) =~= head + so_far.push(line@));
        i += 1;
    }
    let place = match &job.final_output_dir {
        Some(d) => join_path(d.as_str(), "full.md"),
        None => join_path(output_dir, "full.md"),
    };
    let line = match files.full {
        Some(n) => {
            let d = decimal(n);
            cat5("output full.md: ", place.as_str(), " (", d.as_str(), " bytes)")
        },
        None => cat2("output full.md: MISSING at ", place.as_str()),
    };
    let ghost full_line = line@;
    put(lines, line);
    let ghost mid = views(lines@);
    assert(mid =~= start + (seq!["job dir: "@ + dir@] + file_lines(files.listed@, 5) + seq![full_line]));
    if job.content_setup.is_some() && files.mirror {
        put(lines, text("warning: v0.5 work-dir full.md mirror unexpectedly exists"));
    }
    assert(views(lines@) =~= start + found_lines(*job, output_dir@, *files));
}

/// The report of a run, given its error if it failed, and how many seconds it took in words. A
/// run that failed keeps its files in any case.
pub fn report(
    error: Option<&str>,
    job: &Job,
    output_dir: &str,
    elapsed: &str,
    keep: bool,
    files: &RunFiles,
) -> (r: SmokeReport)
    ensures
        views(r.lines@) == (match error {
            None => success_lines(*job, output_dir@, elapsed@, keep, *files),
            Some(e) => failure_lines(*job, output_dir@, elapsed@, e@),
        }),
        views(r.remove@) == removed_dirs(*job, output_dir@, error is Some, keep),
        r.code == (if error is Some {
            1u8
        } else {
            0u8
        }),
{
    let mut lines: Vec<String> = Vec::new();
    let mut remove: Vec<String> = Vec::new();
    assert(views(lines@) =~= Seq::<Seq<char>>::empty());
    assert(views(remove@) =~= Seq::<Seq<char>>::empty());
    if let Some(e) = error {
        put(&mut lines, cat4("pipeline FAILED after ", elapsed, "s: ", e));
        let dir = write_path(&job.work_dir);
        put(&mut lines, cat2("job dir retained for inspection: ", dir.as_str()));
        put(&mut lines, cat2("output root retained for inspection: ", output_dir));
        put(&mut lines, text("failed runs are always retained; --keep is not required"));
        assert(views(lines@) =~= failure_lines(*job, output_dir@, elapsed@, e@));
        return SmokeReport { lines, remove, code: 1 };
    }
    put(&mut lines, cat3("pipeline completed in ", elapsed, "s"));
    let ghost first = "pipeline completed in "@ + elapsed@ + "s"@;
    assert(views(lines@) =~= seq![first]);
    write_found(&mut lines, job, output_dir, files);
    let ghost found = seq![first] + found_lines(*job, output_dir@, *files);
    if keep {
        let dir = write_path(&job.work_dir);
        put(&mut lines, cat2("--keep: retained job dir: ", dir.as_str()));
        let place = match &job.final_output_dir {
            Some(d) => d.as_str(),
            None => output_dir,
        };
        put(&mut lines, cat2("--keep: retained output: ", place));
    } else {
        if let Some(d) = &job.work_dir {
            put(&mut lines, cat2("cleaning up this job dir: ", d.as_str()));
            put(&mut remove, d.clone());
        }
        put(&mut lines, cat2("cleaning up this run's output: ", output_dir));
        put(&mut remove, text(output_dir));
    }
    assert(views(lines@) =~= success_lines(*job, output_dir@, elapsed@, keep, *files));
    assert(views(remove@) =~= removed_dirs(*job, output_dir@, false, keep));
    SmokeReport { lines, remove, code: 0 }
}

/// A directory lies directly below the root exactly where it is the root, one slash, and a name
/// that has no slash of its own and leads nowhere else.
pub proof fn a_run_lies_directly_below_the_root(root: Seq<char>, name: Seq<char>)
    requires
        root.len() > 0,
        root.last() != '/',
    ensures
        child_of(root, root + seq!['/'] + name) <==> name.len() > 0 && !name.contains('/') && name != seq!['.'] && name
            != seq!['.', '.'],
        !child_of(root, root),
{
    reveal_strlit("/");
    reveal_strlit(".");
    reveal_strlit("..");
    assert("/"@ =~= seq!['/']);
    assert("."@ =~= seq!['.']);
    assert(".."@ =~= seq!['.', '.']);
    let stem = root + "/"@;
    let dir = root + seq!['/'] + name;
    assert(dir.subrange(0, stem.len() as int) =~= stem);
    assert(dir.skip(stem.len() as int) =~= name);
}

/// A run that failed, or that is to be kept, loses nothing; any other is cleaned up whole.
pub proof fn failed_runs_are_kept(job: Job, output_dir: Seq<char>, failed: bool, keep: bool)
    ensures
        failed || keep ==> removed_dirs(job, output_dir, failed, keep).len() == 0,
        !failed && !keep ==> removed_dirs(job, output_dir, failed, keep).contains(output_dir) && (job.work_dir matches Some(
            d,
        ) ==> removed_dirs(job, output_dir, failed, keep).contains(d@)),
        forall|k: int|
            0 <= k < removed_dirs(job, output_dir, failed, keep).len() ==> (#[trigger] removed_dirs(
                job,
                output_dir,
                failed,
                keep,
            )[k]) == output_dir || opt_view(job.work_dir) == Some(removed_dirs(job, output_dir, failed, keep)[k]),
{
    let dirs = removed_dirs(job, output_dir, failed, keep);
    if !failed && !keep {
        assert(dirs.last() == output_dir);
        if let Some(d) = job.work_dir {
            assert(dirs[0] == d@);
        }
    }
}

/// Every file that belongs to a run is listed in its place, with its size or as missing.
pub proof fn every_file_has_its_line(sizes: Seq<Option<u64>>, n: int)
    requires
        0 <= n <= sizes.len(),
        n <= 5,
    ensures
        file_lines(sizes, n) == Seq::new(n as nat, |i: int| file_line(listed_files()[i], sizes[i])),
        forall|i: int|
            0 <= i < n ==> (sizes[i] matches Some(b) ==> has(#[trigger] file_lines(sizes, n)[i], dec(b as nat)))
                && has(file_lines(sizes, n)[i], listed_files()[i]),
    decreases n,
{
    if n > 0 {
        every_file_has_its_line(sizes, n - 1);
    }
    assert(file_lines(sizes, n) =~= Seq::new(n as nat, |i: int| file_line(listed_files()[i], sizes[i])));
    assert forall|i: int| 0 <= i < n implies (sizes[i] matches Some(b) ==> has(
        #[trigger] file_lines(sizes, n)[i],
        dec(b as nat),
    )) && has(file_lines(sizes, n)[i], listed_files()[i]) by {
        let name = listed_files()[i];
        match sizes[i] {
            Some(b) => {
                let d = dec(b as nat);
                let line = "  - "@ + name + " ("@ + d + " bytes)"@;
                assert(file_lines(sizes, n)[i] == line);
                assert(line =~= "  - "@ + name + (" ("@ + d + " bytes)"@));
                a_part_is_found("  - "@, name, " ("@ + d + " bytes)"@);
                assert(line =~= ("  - "@ + name + " ("@) + d + " bytes)"@);
                a_part_is_found("  - "@ + name + " ("@, d, " bytes)"@);
            },
            None => {
                a_part_is_found("  - "@, name, " MISSING"@);
            },
        }
    }
}

} // verus!
