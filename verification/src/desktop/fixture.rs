//! States of the window that screenshots are made of: isolated from the user's queue, and the
//! same every time.

use vstd::prelude::*;
use crate::document::two_digits;
use crate::funasr::Utterance;
use crate::jobs::{Job, JobStatus, Stage, StageState, pipeline, pipeline_stages, state_in};
use crate::text::{
    a_number_reads_back, an_integer_reads_back, at, cat2, cat3, dec, decimal, decimal_reads_back,
    digit, find_from_is_first, signed_dec, trimming_keeps_the_rest, white, white_takes_no_ink, decimal_padded, halves, integer, lower_text, lowered, number,
    opt_view, padded, parse_integer, parse_number, same, split_once, starts, starts_with, text,
    trim, trimmed,
};

verus! {

// ---- Selectors ----

/// The states that can be asked for, by their names.
pub open spec fn fixture_names() -> Seq<Seq<char>> {
    seq![
        "empty"@,
        "settings"@,
        "running"@,
        "failed"@,
        "queue-scroll"@,
        "completed"@,
        "result-success"@,
        "result-limited"@,
        "result-enhancement-failed"@,
        "result-regenerating"@,
        "confirmation"@,
        "delete-confirm"@,
        "clear-confirm"@,
    ]
}

/// The state that a word asks for: its name, in any case and with white space around it. No
/// word, and the words for "on", ask for the completed state.
pub open spec fn fixture_of(value: Seq<char>) -> Option<Seq<char>> {
    let word = lowered(trimmed(value));
    if word == ""@ || word == "1"@ || word == "true"@ {
        Some("completed"@)
    } else if fixture_names().contains(word) {
        Some(word)
    } else {
        None
    }
}

fn name_at(i: usize) -> (r: &'static str)
    requires
        i < 13,
    ensures
        r@ == fixture_names()[i as int],
{
    match i {
        0 => "empty",
        1 => "settings",
        2 => "running",
        3 => "failed",
        4 => "queue-scroll",
        5 => "completed",
        6 => "result-success",
        7 => "result-limited",
        8 => "result-enhancement-failed",
        9 => "result-regenerating",
        10 => "confirmation",
        11 => "delete-confirm",
        _ => "clear-confirm",
    }
}

/// The state that a word asks for.
pub fn parse_ui_fixture(value: &str) -> (r: Option<&'static str>)
    ensures
        opt_view(r) == fixture_of(value@),
{
    let word = lower_text(trim(value));
    let w = word.as_str();
    if same(w, "") || same(w, "1") || same(w, "true") {
        return Some("completed");
    }
    let mut i: usize = 0;
    while i < 13
        invariant
            i <= 13,
            w@ == lowered(trimmed(value@)),
            fixture_of(value@) == (if fixture_names().contains(w@) {
                Some(w@)
            } else {
                None
            }),
            forall|j: int| 0 <= j < i ==> #[trigger] fixture_names()[j] != w@,
        decreases 13 - i,
    {
        let name = name_at(i);
        if same(w, name) {
            assert(fixture_names()[i as int] == w@);
            return Some(name);
        }
        i += 1;
    }
    None
}

/// Whether a state shows a result.
pub open spec fn shows_result(state: Seq<char>) -> bool {
    starts(state, "result-"@)
}

/// Whether a state shows a result.
pub fn is_result_fixture(state: &str) -> (b: bool)
    ensures
        b == shows_result(state@),
{
    starts_with(state, "result-")
}

/// Where the window stands unless something else is asked for.
pub const UI_FIXTURE_WINDOW_POSITION: (i32, i32) = (40, 40);

/// Two texts, without the white space around them.
pub open spec fn trimmed_halves(value: Option<Seq<char>>, sep: Seq<char>) -> Option<(Seq<char>, Seq<char>)> {
    match value {
        Some(v) => match halves(trimmed(v), sep) {
            Some((a, b)) => Some((trimmed(a), trimmed(b))),
            None => None,
        },
        None => None,
    }
}

/// Where the window stands: at two integers with a comma between them, or else at the fixed
/// place.
pub open spec fn position_of(value: Option<Seq<char>>) -> (int, int) {
    match trimmed_halves(value, ","@) {
        Some((a, b)) if integer(a) is Some && integer(b) is Some => (integer(a)->0, integer(b)->0),
        _ => (40, 40),
    }
}

/// Where the window stands.
pub fn parse_ui_fixture_position(value: Option<&str>) -> (r: (i32, i32))
    ensures
        (r.0 as int, r.1 as int) == position_of(opt_view(value)),
{
    if let Some(v) = value {
        if let Some((a, b)) = split_once(trim(v), ",") {
            let x = parse_integer(trim(a.as_str()));
            let y = parse_integer(trim(b.as_str()));
            if let (Some(x), Some(y)) = (x, y) {
                return (x, y);
            }
        }
    }
    UI_FIXTURE_WINDOW_POSITION
}

/// How large the window is: two numbers with an `x` between them, unless it would be smaller
/// than the window can be, or else the fixed size.
pub open spec fn size_of(value: Option<Seq<char>>) -> (int, int) {
    match trimmed_halves(value, "x"@) {
        Some((a, b)) => match (number(a, u32::MAX as int), number(b, u32::MAX as int)) {
            (Some(w), Some(h)) if w >= 920 && h >= 600 => (w, h),
            _ => (1180, 760),
        },
        None => (1180, 760),
    }
}

/// How large the window is.
pub fn parse_ui_fixture_size(value: Option<&str>) -> (r: (u32, u32))
    ensures
        (r.0 as int, r.1 as int) == size_of(opt_view(value)),
{
    if let Some(v) = value {
        if let Some((a, b)) = split_once(trim(v), "x") {
            let w = parse_number(trim(a.as_str()), u32::MAX as u64);
            let h = parse_number(trim(b.as_str()), u32::MAX as u64);
            if let (Some(w), Some(h)) = (w, h) {
                if w >= 920 && h >= 600 {
                    return (w as u32, h as u32);
                }
            }
        }
    }
    (1180, 760)
}

// ---- A long queue ----

/// Nobody entered, ran or named anything for the job.
pub open spec fn made_up(j: Job) -> bool {
    &&& j.source_url is None && j.speaker_map@ == Map::<u32, String>::empty() && j.retention is Recommended
    &&& j.created_at is None && j.started_at is None && j.finished_at is None
    &&& j.transcription_selection is None && j.transcription_result is None
}

/// The job at place `i` of the long queue: every fourth has failed.
pub open spec fn scroll_job(j: Job, id: u128, i: int) -> bool {
    let failed = i % 4 == 2;
    let stage = if failed {
        Stage::Transcribe
    } else {
        Stage::Completed
    };
    &&& j.id == id && j.page == 1
    &&& j.bvid@ == "BV1SCROLL"@ + two_digits(i as nat)
    &&& j.title@ == "长队列滚动边框验证任务 "@ + two_digits((i + 1) as nat)
    &&& j.status == (if failed {
        JobStatus::Failed
    } else {
        JobStatus::Completed
    })
    &&& j.stage == stage
    &&& j.stage_progress == (if failed {
        42u32
    } else {
        100u32
    })
    &&& opt_view(j.error) == (if failed {
        Some("隔离 fixture 错误边框"@)
    } else {
        None
    })
    &&& forall|s: Stage| #[trigger]
        state_in(j.stages@, s) == (if s != stage {
            StageState::Pending
        } else if failed {
            StageState::Failed
        } else {
            StageState::Completed
        })
    &&& j.content_setup is None && j.work_dir is None && j.final_output_dir is None
    &&& j.part_title is None && j.up_name is None && j.cid is None && j.duration_ms is None
    &&& made_up(j)
}

fn make_scroll_job(id: u128, i: usize) -> (j: Job)
    requires
        i < 12,
    ensures
        scroll_job(j, id, i as int),
{
    let number = decimal_padded(i as u64, 2);
    let place = decimal_padded(i as u64 + 1, 2);
    let mut job = Job::new(id, cat2("BV1SCROLL", number.as_str()), 1);
    job.title = cat2("长队列滚动边框验证任务 ", place.as_str());
    if i % 4 == 2 {
        job.status = JobStatus::Failed;
        job.stage = Stage::Transcribe;
        job.stage_progress = 42;
        job.error = Some(text("隔离 fixture 错误边框"));
        job.set_stage_state(Stage::Transcribe, StageState::Failed);
    } else {
        job.status = JobStatus::Completed;
        job.stage = Stage::Completed;
        job.stage_progress = 100;
        job.set_stage_state(Stage::Completed, StageState::Completed);
    }
    job
}

/// A queue that is longer than the window, with error borders in it.
pub fn queue_scroll_fixture_jobs(ids: [u128; 12]) -> (r: Vec<Job>)
    ensures
        r@.len() == 12,
        forall|i: int| 0 <= i < 12 ==> scroll_job(#[trigger] r@[i], ids@[i], i),
{
    let mut out: Vec<Job> = Vec::new();
    let mut i: usize = 0;
    while i < 12
        invariant
            i <= 12,
            out@.len() == i,
            forall|j: int| 0 <= j < i ==> scroll_job(#[trigger] out@[j], ids@[j], j),
        decreases 12 - i,
    {
        out.push(make_scroll_job(ids[i], i));
        i += 1;
    }
    out
}

// ---- A finished job ----

/// The utterance at place `i` of the transcript: one a second, by two speakers in turn.
pub open spec fn fixture_utterance(u: Utterance, i: int) -> bool {
    &&& u.id@ == "u"@ + padded(dec(i as nat), 4, '0')
    &&& u.text@ == "这是隔离结果 fixture 的第 "@ + dec(i as nat) + " 个原始片段。"@
    &&& u.start_ms == i * 1000
    &&& u.end_ms == i * 1000 + 900
    &&& u.speaker_id == i % 2
}

/// The transcript of the finished job.
pub fn fixture_transcript() -> (r: Vec<Utterance>)
    ensures
        r@.len() == 64,
        forall|i: int| 0 <= i < 64 ==> fixture_utterance(#[trigger] r@[i], i),
{
    let mut out: Vec<Utterance> = Vec::new();
    let mut i: u32 = 0;
    while i < 64
        invariant
            i <= 64,
            out@.len() == i,
            forall|j: int| 0 <= j < i ==> fixture_utterance(#[trigger] out@[j], j),
        decreases 64 - i,
    {
        let n: u64 = i as u64;
        let place = decimal_padded(n, 4);
        let count = decimal(n);
        out.push(
            Utterance {
                id: cat2("u", place.as_str()),
                text: cat3("这是隔离结果 fixture 的第 ", count.as_str(), " 个原始片段。"),
                start_ms: n * 1000,
                end_ms: n * 1000 + 900,
                speaker_id: i % 2,
            },
        );
        i += 1;
    }
    out
}

/// The finished job, before its texts are made.
pub open spec fn fixture_job(j: Job, id: u128, work_dir: Seq<char>) -> bool {
    &&& j.id == id && j.bvid@ == "BV1UIFIX"@ && j.page == 2
    &&& j.title@ == "消费结果生产回调 fixture"@ && opt_view(j.part_title) == Some("第二部分"@)
    &&& j.cid == Some(2_024_082_400u64) && j.duration_ms == Some(64_000u64)
    &&& opt_view(j.work_dir) == Some(work_dir)
    &&& j.status is Completed && j.stage is Completed && j.stage_progress == 100
    &&& forall|s: Stage| #[trigger]
        state_in(j.stages@, s) == (if pipeline().contains(s) {
            StageState::Completed
        } else {
            StageState::Pending
        })
    &&& j.content_setup is None && j.final_output_dir is None && j.up_name is None && j.error is None
    &&& made_up(j)
}

/// The finished job, before its texts are made.
pub fn result_fixture_job(id: u128, work_dir: &str) -> (j: Job)
    ensures
        fixture_job(j, id, work_dir@),
{
    let mut job = Job::new(id, text("BV1UIFIX"), 2);
    job.title = text("消费结果生产回调 fixture");
    job.part_title = Some(text("第二部分"));
    job.cid = Some(2_024_082_400);
    job.duration_ms = Some(64_000);
    job.work_dir = Some(text(work_dir));
    job.status = JobStatus::Completed;
    job.stage = Stage::Completed;
    job.stage_progress = 100;
    let stages = pipeline_stages();
    let ghost before = job;
    let mut i: usize = 0;
    while i < 6
        invariant
            i <= 6,
            stages@ == pipeline(),
            before.stages@.len() == 0,
            job == (Job { stages: job.stages, ..before }),
            forall|s: Stage| #[trigger]
                state_in(job.stages@, s) == (if pipeline().take(i as int).contains(s) {
                    StageState::Completed
                } else {
                    StageState::Pending
                }),
        decreases 6 - i,
    {
        let ghost done = pipeline().take(i as int);
        assert(pipeline().take(i + 1) =~= done.push(pipeline()[i as int]));
        assert forall|s: Stage| done.push(pipeline()[i as int]).contains(s) == (done.contains(s) || s
            == pipeline()[i as int]) by {
            if done.contains(s) {
                let k = choose|k: int| 0 <= k < done.len() && done[k] == s;
                assert(done.push(pipeline()[i as int])[k] == s);
            }
            assert(done.push(pipeline()[i as int])[i as int] == pipeline()[i as int]);
        }
        job.set_stage_state(stages[i], StageState::Completed);
        i += 1;
    }
    assert(pipeline().take(6) =~= pipeline());
    job
}

proof fn halves_of_two(a: Seq<char>, c: char, b: Seq<char>)
    requires
        forall|k: int| 0 <= k < a.len() ==> (#[trigger] a[k]) != c,
    ensures
        halves(a + seq![c] + b, seq![c]) == Some((a, b)),
{
    let s = a + seq![c] + b;
    let n = a.len() as int;
    assert(s.subrange(n, n + 1) =~= seq![c]);
    assert(at(s, seq![c], n));
    assert forall|j: int| 0 <= j < n implies !at(s, seq![c], j) by {
        if at(s, seq![c], j) {
            assert(s.subrange(j, j + 1)[0] == s[j]);
            assert(s[j] == a[j]);
        }
    }
    find_from_is_first(s, seq![c], 0);
    assert(s.take(n) =~= a);
    assert(s.skip(n + 1) =~= b);
}

proof fn numbers_have_no_white_ends(n: int)
    ensures
        trimmed(signed_dec(n)) == signed_dec(n),
        signed_dec(n).len() > 0,
        !white(signed_dec(n)[0]) && !white(signed_dec(n).last()),
        forall|k: int|
            0 <= k < signed_dec(n).len() ==> (#[trigger] signed_dec(n)[k]) != ',' && signed_dec(n)[k] != 'x',
{
    reveal_strlit("-");
    let s = signed_dec(n);
    let m = if n < 0 {
        (-n) as nat
    } else {
        n as nat
    };
    let d = dec(m);
    decimal_reads_back(m);
    assert(s =~= if n < 0 {
        "-"@ + d
    } else {
        d
    });
    assert(digit(d[0]) && digit(d[d.len() - 1]));
    assert(s.last() == d.last());
    white_takes_no_ink(s[0]);
    white_takes_no_ink(s.last());
    trimming_keeps_the_rest(s);
    assert forall|k: int| 0 <= k < s.len() implies (#[trigger] s[k]) != ',' && s[k] != 'x' by {
        if n < 0 {
            if k > 0 {
                assert(s[k] == d[k - 1]);
                assert(digit(d[k - 1]));
            }
        } else {
            assert(digit(d[k]));
        }
    }
}

/// A place that is written as two numbers with a comma between them is that place.
pub proof fn a_place_reads_back(x: i32, y: i32)
    ensures
        position_of(Some(signed_dec(x as int) + seq![','] + signed_dec(y as int))) == (x as int, y as int),
        position_of(None) == (40int, 40int),
{
    reveal_strlit(",");
    assert(","@ =~= seq![',']);
    let a = signed_dec(x as int);
    let b = signed_dec(y as int);
    numbers_have_no_white_ends(x as int);
    numbers_have_no_white_ends(y as int);
    let s = a + seq![','] + b;
    assert(s[0] == a[0] && s.last() == b.last());
    trimming_keeps_the_rest(s);
    halves_of_two(a, ',', b);
    an_integer_reads_back(x);
    an_integer_reads_back(y);
}

/// A size that is written as two numbers with a cross between them is that size where it is no
/// smaller than the window can be, and the usual size where it is.
pub proof fn a_size_reads_back(w: u32, h: u32)
    ensures
        w >= 920 && h >= 600 ==> size_of(Some(dec(w as nat) + seq!['x'] + dec(h as nat))) == (w as int, h as int),
        w < 920 || h < 600 ==> size_of(Some(dec(w as nat) + seq!['x'] + dec(h as nat))) == (1180int, 760int),
        size_of(None) == (1180int, 760int),
{
    reveal_strlit("x");
    assert("x"@ =~= seq!['x']);
    let a = dec(w as nat);
    let b = dec(h as nat);
    numbers_have_no_white_ends(w as int);
    numbers_have_no_white_ends(h as int);
    assert(signed_dec(w as int) == a && signed_dec(h as int) == b);
    let s = a + seq!['x'] + b;
    assert(s[0] == a[0] && s.last() == b.last());
    trimming_keeps_the_rest(s);
    halves_of_two(a, 'x', b);
    a_number_reads_back(w as nat, u32::MAX as int);
    a_number_reads_back(h as nat, u32::MAX as int);
}

} // verus!
