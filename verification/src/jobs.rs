//! Jobs: one video each, from its link to its document.

use std::collections::HashMap;
use vstd::prelude::*;
use crate::content_results::record::UtcTime;
use crate::content_results::target::ContentSetupV1;
use crate::funasr::RuntimeBackend;
use crate::text::{cat2, dec, decimal, decimal_reads_back, same};

verus! {

broadcast use vstd::std_specs::hash::group_hash_axioms;

/// Where a job stands.
#[derive(Debug, Clone, Copy, PartialEq, Eq, Structural)]
pub enum JobStatus {
    Queued,
    Running,
    Completed,
    Failed,
    Cancelled,
    NeedsUserAction,
}

impl JobStatus {
    /// Nothing more will happen by itself.
    pub open spec fn terminal(self) -> bool {
        self is Completed || self is Failed || self is Cancelled
    }

    /// Whether nothing more will happen by itself.
    pub fn is_terminal(self) -> (b: bool)
        ensures
            b == self.terminal(),
    {
        match self {
            JobStatus::Completed | JobStatus::Failed | JobStatus::Cancelled => true,
            _ => false,
        }
    }
}

/// The steps of a job.
#[derive(Debug, Clone, Copy, PartialEq, Eq, Structural)]
pub enum Stage {
    Metadata,
    Download,
    Normalize,
    Transcribe,
    RawDocument,
    FinalDocument,
    Completed,
    NeedsUserAction,
}

/// How far a step has come.
#[derive(Debug, Clone, Copy, PartialEq, Eq, Structural)]
pub enum StageState {
    Pending,
    Running,
    Completed,
    Failed,
}

/// What stays on disk when a job is done.
#[derive(Debug, Clone, Copy, PartialEq, Eq, Structural)]
pub enum RetentionPolicy {
    Recommended,
    KeepAll,
    DocumentsOnly,
}

impl RetentionPolicy {
    /// The name that is shown.
    pub open spec fn label_text(self) -> Seq<char> {
        match self {
            RetentionPolicy::Recommended => "推荐"@,
            RetentionPolicy::KeepAll => "全部保留"@,
            RetentionPolicy::DocumentsOnly => "仅保留文档"@,
        }
    }

    /// The name that is shown.
    pub fn label(self) -> (r: &'static str)
        ensures
            r@ == self.label_text(),
    {
        match self {
            RetentionPolicy::Recommended => "推荐",
            RetentionPolicy::KeepAll => "全部保留",
            RetentionPolicy::DocumentsOnly => "仅保留文档",
        }
    }

    /// The policy with a name.
    pub open spec fn of_label(label: Seq<char>) -> RetentionPolicy {
        if label == RetentionPolicy::KeepAll.label_text() {
            RetentionPolicy::KeepAll
        } else if label == RetentionPolicy::DocumentsOnly.label_text() {
            RetentionPolicy::DocumentsOnly
        } else {
            RetentionPolicy::Recommended
        }
    }

    /// The policy with a name; a name that is not known means the recommended one.
    pub fn from_label(label: &str) -> (r: RetentionPolicy)
        ensures
            r == RetentionPolicy::of_label(label@),
    {
        if same(label, "全部保留") {
            RetentionPolicy::KeepAll
        } else if same(label, "仅保留文档") {
            RetentionPolicy::DocumentsOnly
        } else {
            RetentionPolicy::Recommended
        }
    }

    /// The name that is stored.
    pub open spec fn wire_text(self) -> Seq<char> {
        match self {
            RetentionPolicy::Recommended => "recommended"@,
            RetentionPolicy::KeepAll => "keep_all"@,
            RetentionPolicy::DocumentsOnly => "documents_only"@,
        }
    }

    /// The name that is stored.
    pub fn as_str(self) -> (r: &'static str)
        ensures
            r@ == self.wire_text(),
    {
        match self {
            RetentionPolicy::Recommended => "recommended",
            RetentionPolicy::KeepAll => "keep_all",
            RetentionPolicy::DocumentsOnly => "documents_only",
        }
    }
}

/// A policy is found again by the name that is shown for it.
pub proof fn retention_labels_read_back(policy: RetentionPolicy)
    ensures
        RetentionPolicy::of_label(policy.label_text()) == policy,
{
    reveal_strlit("推荐");
    reveal_strlit("全部保留");
    reveal_strlit("仅保留文档");
    assert("推荐"@.len() == 2 && "全部保留"@.len() == 4 && "仅保留文档"@.len() == 5);
}

/// The language of a video, as asked for or as recognised.
#[derive(Debug, Clone, Copy, PartialEq, Eq, Structural)]
pub enum SourceLanguage {
    Auto,
    Zh,
    En,
}

impl SourceLanguage {
    /// The name that is shown.
    pub open spec fn label_text(self) -> Seq<char> {
        match self {
            SourceLanguage::Auto => "自动检测"@,
            SourceLanguage::Zh => "中文"@,
            SourceLanguage::En => "英文"@,
        }
    }

    /// The name that is shown.
    pub fn label(self) -> (r: &'static str)
        ensures
            r@ == self.label_text(),
    {
        match self {
            SourceLanguage::Auto => "自动检测",
            SourceLanguage::Zh => "中文",
            SourceLanguage::En => "英文",
        }
    }

    /// The code of the language.
    pub open spec fn code(self) -> Seq<char> {
        match self {
            SourceLanguage::Auto => "auto"@,
            SourceLanguage::Zh => "zh"@,
            SourceLanguage::En => "en"@,
        }
    }

    /// The code of the language.
    pub fn as_str(self) -> (r: &'static str)
        ensures
            r@ == self.code(),
    {
        match self {
            SourceLanguage::Auto => "auto",
            SourceLanguage::Zh => "zh",
            SourceLanguage::En => "en",
        }
    }

    /// The language with a code.
    pub open spec fn of_code(code: Seq<char>) -> Option<SourceLanguage> {
        if code == "auto"@ {
            Some(SourceLanguage::Auto)
        } else if code == "zh"@ {
            Some(SourceLanguage::Zh)
        } else if code == "en"@ {
            Some(SourceLanguage::En)
        } else {
            None
        }
    }

    /// The language with a code.
    pub fn parse(code: &str) -> (r: Option<SourceLanguage>)
        ensures
            r == SourceLanguage::of_code(code@),
    {
        if same(code, "auto") {
            Some(SourceLanguage::Auto)
        } else if same(code, "zh") {
            Some(SourceLanguage::Zh)
        } else if same(code, "en") {
            Some(SourceLanguage::En)
        } else {
            None
        }
    }
}

/// A language is found again by its code.
pub proof fn language_codes_read_back(language: SourceLanguage)
    ensures
        SourceLanguage::of_code(language.code()) == Some(language),
{
    reveal_strlit("auto");
    reveal_strlit("zh");
    reveal_strlit("en");
    assert("zh"@[0] == 'z' && "en"@[0] == 'e');
}

/// Where a runtime comes from.
#[derive(Debug, Clone, Copy, PartialEq, Eq, Structural)]
pub enum RuntimeSource {
    Bundled,
    External,
}

impl RuntimeSource {
    /// The name that is stored.
    pub open spec fn wire_text(self) -> Seq<char> {
        match self {
            RuntimeSource::Bundled => "bundled"@,
            RuntimeSource::External => "external"@,
        }
    }

    /// The name that is stored.
    pub fn as_str(self) -> (r: &'static str)
        ensures
            r@ == self.wire_text(),
    {
        match self {
            RuntimeSource::Bundled => "bundled",
            RuntimeSource::External => "external",
        }
    }

    /// The name that is shown.
    pub open spec fn label_text(self) -> Seq<char> {
        match self {
            RuntimeSource::Bundled => "内置 Runtime"@,
            RuntimeSource::External => "外部 Runtime"@,
        }
    }

    /// The name that is shown.
    pub fn label(self) -> (r: &'static str)
        ensures
            r@ == self.label_text(),
    {
        match self {
            RuntimeSource::Bundled => "内置 Runtime",
            RuntimeSource::External => "外部 Runtime",
        }
    }
}

/// Who created a job.
#[derive(Debug, Clone, Copy, PartialEq, Eq, Structural)]
pub enum CreatedFrom {
    App,
    Cli,
}

/// The runtime and the language that a job was created with.
#[derive(Debug, PartialEq)]
pub struct TranscriptionSelection {
    pub runtime_source: RuntimeSource,
    pub runtime_project: String,
    pub runtime_data_dir: String,
    pub runtime_identity: String,
    pub runtime_backend: RuntimeBackend,
    pub model_description: Option<String>,
    pub requested_language: SourceLanguage,
    pub created_from: CreatedFrom,
}

impl Clone for TranscriptionSelection {
    fn clone(&self) -> (r: Self)
        ensures
            r == *self,
    {
        TranscriptionSelection {
            runtime_source: self.runtime_source,
            runtime_project: self.runtime_project.clone(),
            runtime_data_dir: self.runtime_data_dir.clone(),
            runtime_identity: self.runtime_identity.clone(),
            runtime_backend: self.runtime_backend,
            model_description: crate::text::copy_opt(&self.model_description),
            requested_language: self.requested_language,
            created_from: self.created_from,
        }
    }
}

/// What a runtime said of itself after a transcription.
#[derive(Debug, Clone, PartialEq)]
pub struct TranscriptionResult {
    pub reported_language: Option<SourceLanguage>,
    pub reported_model: Option<String>,
    pub reported_runtime_identity: Option<String>,
}

/// One video on its way to a document.
#[derive(Debug, Clone, PartialEq)]
pub struct Job {
    pub id: u128,
    pub bvid: String,
    pub page: u32,
    pub title: String,
    pub part_title: Option<String>,
    pub up_name: Option<String>,
    pub source_url: Option<String>,
    pub cid: Option<u64>,
    pub duration_ms: Option<u64>,
    pub work_dir: Option<String>,
    pub final_output_dir: Option<String>,
    pub status: JobStatus,
    pub stage: Stage,
    pub stage_progress: u32,
    pub stages: Vec<(Stage, StageState)>,
    pub error: Option<String>,
    pub speaker_map: HashMap<u32, String>,
    pub created_at: Option<UtcTime>,
    pub started_at: Option<UtcTime>,
    pub finished_at: Option<UtcTime>,
    pub retention: RetentionPolicy,
    pub transcription_selection: Option<TranscriptionSelection>,
    pub transcription_result: Option<TranscriptionResult>,
    pub content_setup: Option<ContentSetupV1>,
}

/// The state of a step in a list of steps; one that is not listed is pending.
pub open spec fn state_in(stages: Seq<(Stage, StageState)>, stage: Stage) -> StageState
    decreases stages.len(),
{
    if stages.len() == 0 {
        StageState::Pending
    } else if stages.last().0 == stage {
        stages.last().1
    } else {
        state_in(stages.drop_last(), stage)
    }
}

/// The steps in which a job can fail, in their order.
pub open spec fn pipeline() -> Seq<Stage> {
    seq![Stage::Metadata, Stage::Download, Stage::Normalize, Stage::Transcribe, Stage::RawDocument, Stage::FinalDocument]
}

/// The steps in which a job can fail, in their order.
pub fn pipeline_stages() -> (r: [Stage; 6])
    ensures
        r@ == pipeline(),
{
    let r = [
        Stage::Metadata,
        Stage::Download,
        Stage::Normalize,
        Stage::Transcribe,
        Stage::RawDocument,
        Stage::FinalDocument,
    ];
    assert(r@ =~= pipeline());
    r
}

impl Job {
    /// A queued job that knows nothing but its video.
    pub fn new(id: u128, bvid: String, page: u32) -> (r: Job)
        ensures
            r.id == id,
            r.bvid == bvid,
            r.page == page,
            r.title@ == bvid@,
            r.untouched(),
            r.source_url is None,
            r.retention is Recommended,
            r.transcription_selection is None && r.content_setup is None,
    {
        Job {
            id,
            title: bvid.clone(),
            bvid,
            page,
            part_title: None,
            up_name: None,
            source_url: None,
            cid: None,
            duration_ms: None,
            work_dir: None,
            final_output_dir: None,
            status: JobStatus::Queued,
            stage: Stage::Metadata,
            stage_progress: 0,
            stages: Vec::new(),
            error: None,
            speaker_map: HashMap::new(),
            created_at: None,
            started_at: None,
            finished_at: None,
            retention: RetentionPolicy::Recommended,
            transcription_selection: None,
            transcription_result: None,
            content_setup: None,
        }
    }

    /// Nothing of the job has been looked up, run or made yet, and no step has a state.
    pub open spec fn untouched(&self) -> bool {
        self.not_begun() && self.stages@.len() == 0
    }

    /// Nothing of the job has been looked up, run or made yet, whatever the states of its steps.
    pub open spec fn not_begun(&self) -> bool {
        &&& self.status is Queued && self.stage is Metadata && self.stage_progress == 0
        &&& self.part_title is None && self.up_name is None && self.cid is None && self.duration_ms is None
        &&& self.work_dir is None && self.final_output_dir is None && self.error is None
        &&& self.speaker_map@ == Map::<u32, String>::empty()
        &&& self.created_at is None && self.started_at is None && self.finished_at is None
        &&& self.transcription_result is None
    }

    /// The name of a speaker: the one given by the user, or a numbered one.
    pub open spec fn name_of(&self, speaker: u32) -> Seq<char> {
        if self.speaker_map@.contains_key(speaker) {
            self.speaker_map@[speaker]@
        } else {
            "Speaker "@ + dec(speaker as nat)
        }
    }

    /// The name of a speaker: the one given by the user, or a numbered one.
    pub fn speaker_name(&self, speaker: u32) -> (r: String)
        ensures
            r@ == self.name_of(speaker),
    {
        match self.speaker_map.get(&speaker) {
            Some(name) => name.clone(),
            None => cat2("Speaker ", decimal(speaker as u64).as_str()),
        }
    }

    /// The state of a step.
    pub fn stage_state(&self, stage: Stage) -> (r: StageState)
        ensures
            r == state_in(self.stages@, stage),
    {
        let mut n: usize = self.stages.len();
        assert(self.stages@.take(n as int) =~= self.stages@);
        while n > 0
            invariant
                n <= self.stages@.len(),
                state_in(self.stages@, stage) == state_in(self.stages@.take(n as int), stage),
            decreases n,
        {
            assert(self.stages@.take(n as int).drop_last() =~= self.stages@.take(n - 1));
            assert(self.stages@.take(n as int).last() == self.stages@[n - 1]);
            if self.stages[n - 1].0 == stage {
                return self.stages[n - 1].1;
            }
            n -= 1;
        }
        StageState::Pending
    }

    /// Records the state of a step; the other steps keep theirs.
    pub fn set_stage_state(&mut self, stage: Stage, state: StageState)
        ensures
            *final(self) == (Job { stages: final(self).stages, ..*old(self) }),
            final(self).stages@ == old(self).stages@.push((stage, state)),
            forall|s: Stage| #[trigger]
                state_in(final(self).stages@, s) == (if s == stage {
                    state
                } else {
                    state_in(old(self).stages@, s)
                }),
    {
        self.stages.push((stage, state));
        assert(self.stages@.drop_last() =~= old(self).stages@);
    }
}

/// A speaker who was given a name carries it; the others are told apart by their numbers.
pub proof fn speakers_are_told_apart(job: Job, a: u32, b: u32)
    ensures
        job.speaker_map@.contains_key(a) ==> job.name_of(a) == job.speaker_map@[a]@,
        !job.speaker_map@.contains_key(a) ==> dec(a as nat).is_suffix_of(job.name_of(a)),
        !job.speaker_map@.contains_key(a) && !job.speaker_map@.contains_key(b) ==> (job.name_of(a) == job.name_of(b)
            <==> a == b),
{
    let head = "Speaker "@;
    let x = head + dec(a as nat);
    let y = head + dec(b as nat);
    assert(x.skip(head.len() as int) =~= dec(a as nat));
    assert(y.skip(head.len() as int) =~= dec(b as nat));
    assert(x.subrange((x.len() - dec(a as nat).len()) as int, x.len() as int) =~= dec(a as nat));
    decimal_reads_back(a as nat);
    decimal_reads_back(b as nat);
}

/// A stage is in the state that was noted for it last; a stage of which nothing was noted is
/// pending.
pub proof fn the_last_note_on_a_stage_counts(
    stages: Seq<(Stage, StageState)>,
    later: Seq<(Stage, StageState)>,
    stage: Stage,
    state: StageState,
)
    requires
        forall|i: int| 0 <= i < later.len() ==> (#[trigger] later[i]).0 != stage,
    ensures
        state_in(stages.push((stage, state)) + later, stage) == state,
        state_in(later, stage) == StageState::Pending,
    decreases later.len(),
{
    let s = stages.push((stage, state)) + later;
    if later.len() == 0 {
        assert(s =~= stages.push((stage, state)));
    } else {
        let r = later.drop_last();
        assert(later[later.len() - 1].0 != stage);
        assert forall|i: int| 0 <= i < r.len() implies (#[trigger] r[i]).0 != stage by {
            assert(r[i] == later[i]);
        }
        the_last_note_on_a_stage_counts(stages, r, stage, state);
        assert(s.drop_last() =~= stages.push((stage, state)) + r);
        assert(s.last() == later.last());
    }
}

/// A job that has not begun waits for its first step, and knows of its speakers only their numbers.
pub proof fn a_job_begins_with_nothing(job: Job, speaker: u32)
    requires
        job.untouched(),
    ensures
        job.status is Queued,
        !job.status.terminal(),
        job.stage == pipeline()[0],
        job.name_of(speaker) == "Speaker "@ + dec(speaker as nat),
        forall|s: Stage| #[trigger] state_in(job.stages@, s) is Pending,
        job.started_at is None && job.finished_at is None && job.error is None,
        job.work_dir is None && job.final_output_dir is None,
{
}

} // verus!
