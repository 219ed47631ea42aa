//! The raw transcript as evidence: where it comes from and what identifies it.

use vstd::prelude::*;
use vstd::utf8::encode_utf8;
use super::digest::{hex, hex64, is_hex64, sha256, sha256_hex};
use super::error::{ContentSchemaError, SchemaProblem, broken, found, violation};
use super::endpoint::spelled;
use super::chunks::CHUNK_MAX_CHARS;
use super::error::{ContentError, ContentProblem};
use crate::funasr::Utterance;
use crate::ids::{hyphenated, id_text};
use crate::jobs::Job;
use crate::json::{debug_text, json_string, to_debug_text, to_json_string};
use crate::text::{
    a_part_is_found, blank, cat2, cat3, copy_opt, has, lists, copy_texts, dec, decimal, is_blank, opt_view, same, same_opt, same_texts, text, views,
};

verus! {

/// The platform of every piece of evidence.
pub open spec fn platform() -> Seq<char> {
    "bilibili"@
}

/// What a text is about, beside the transcript itself.
#[derive(Debug, PartialEq, Eq)]
pub struct SourceContextSnapshotV1 {
    pub main_title: String,
    pub part_title: Option<String>,
    pub terms: Vec<String>,
}

/// The mathematical value of a `SourceContextSnapshotV1`.
pub struct ContextView {
    pub main_title: Seq<char>,
    pub part_title: Option<Seq<char>>,
    pub terms: Seq<Seq<char>>,
}

impl View for SourceContextSnapshotV1 {
    type V = ContextView;

    open spec fn view(&self) -> ContextView {
        ContextView {
            main_title: self.main_title@,
            part_title: opt_view(self.part_title),
            terms: views(self.terms@),
        }
    }
}

impl Clone for SourceContextSnapshotV1 {
    fn clone(&self) -> (r: Self)
        ensures
            r@ == self@,
    {
        SourceContextSnapshotV1 {
            main_title: self.main_title.clone(),
            part_title: copy_opt(&self.part_title),
            terms: copy_texts(&self.terms),
        }
    }
}

impl SourceContextSnapshotV1 {
    /// Whether two contexts are the same.
    pub fn same_as(&self, other: &Self) -> (b: bool)
        ensures
            b == (self@ == other@),
    {
        self.main_title == other.main_title && same_opt(&self.part_title, &other.part_title)
            && same_texts(&self.terms, &other.terms)
    }
}

/// Which transcript a record was made from.
#[derive(Debug, PartialEq, Eq)]
pub struct EvidenceDescriptorV1 {
    pub identity: String,
    pub job_id: u128,
    pub platform: String,
    pub bvid: String,
    pub page: u32,
    pub cid: u64,
    pub duration_ms: u64,
    pub raw_sha256: String,
    pub utterance_count: usize,
}

impl Clone for EvidenceDescriptorV1 {
    fn clone(&self) -> (r: Self)
        ensures
            r == *self,
    {
        EvidenceDescriptorV1 {
            identity: self.identity.clone(),
            job_id: self.job_id,
            platform: self.platform.clone(),
            bvid: self.bvid.clone(),
            page: self.page,
            cid: self.cid,
            duration_ms: self.duration_ms,
            raw_sha256: self.raw_sha256.clone(),
            utterance_count: self.utterance_count,
        }
    }
}

/// What is wrong with a digest field.
pub open spec fn digest_problem(field: Seq<char>, value: Seq<char>) -> Option<SchemaProblem> {
    if hex64(value) {
        None
    } else {
        broken(field + " must be a 64-character lowercase hexadecimal SHA-256"@)
    }
}

/// Accepts a digest in lower-case hexadecimal digits.
pub fn validate_sha256_hex(field: &str, value: &str) -> (r: Result<(), ContentSchemaError>)
    ensures
        found(r) == digest_problem(field@, value@),
{
    if !is_hex64(value) {
        return Err(
            ContentSchemaError::Invariant(
                cat2(field, " must be a 64-character lowercase hexadecimal SHA-256"),
            ),
        );
    }
    Ok(())
}

fn field(out: &mut String, name: &str, value: &str)
    ensures
        final(out)@ == old(out)@ + name@ + value@,
{
    out.append(name);
    out.append(value);
}

impl EvidenceDescriptorV1 {
    /// The fixed text whose digest is the identity: a JSON object with everything but the
    /// identity itself.
    pub open spec fn material(&self) -> Seq<char> {
        "{\"domain\":\"bimyscribe/evidence/v1\",\"job_id\":\""@ + hyphenated(self.job_id)
            + "\",\"platform\":"@ + json_string(self.platform@) + ",\"bvid\":"@ + json_string(self.bvid@)
            + ",\"page\":"@ + dec(self.page as nat) + ",\"cid\":"@ + dec(self.cid as nat)
            + ",\"duration_ms\":"@ + dec(self.duration_ms as nat) + ",\"raw_sha256\":"@ + json_string(
            self.raw_sha256@,
        ) + ",\"utterance_count\":"@ + dec(self.utterance_count as nat) + "}"@
    }

    /// The identity that the material gives.
    pub open spec fn fixed_identity(&self) -> Seq<char> {
        hex(sha256(encode_utf8(self.material())))
    }

    /// The outcome of working out the identity.
    pub open spec fn identity_outcome(&self) -> Result<Seq<char>, SchemaProblem> {
        match digest_problem("raw_sha256"@, self.raw_sha256@) {
            Some(p) => Err(p),
            None => Ok(self.fixed_identity()),
        }
    }

    /// What is wrong with the descriptor, where its identity was worked out as `identity`.
    pub open spec fn problem_with(
        &self,
        quoted_platform: Seq<char>,
        identity: Result<Seq<char>, SchemaProblem>,
    ) -> Option<SchemaProblem> {
        if self.platform@ != platform() {
            broken("unsupported evidence platform "@ + quoted_platform)
        } else if digest_problem("identity"@, self.identity@) is Some {
            digest_problem("identity"@, self.identity@)
        } else if digest_problem("raw_sha256"@, self.raw_sha256@) is Some {
            digest_problem("raw_sha256"@, self.raw_sha256@)
        } else if blank(self.bvid@) || self.page == 0 || self.cid == 0 {
            broken("evidence source unit is incomplete"@)
        } else {
            match identity {
                Err(p) => Some(p),
                Ok(i) => if i != self.identity@ {
                    broken("evidence identity does not match its fixed material"@)
                } else {
                    None
                },
            }
        }
    }

    /// What is wrong with the descriptor.
    pub open spec fn problem(&self) -> Option<SchemaProblem> {
        self.problem_with(debug_text(self.platform@), self.identity_outcome())
    }

    /// The same descriptor, by value.
    pub open spec fn alike(&self, other: &Self) -> bool {
        &&& self.identity@ == other.identity@
        &&& self.job_id == other.job_id
        &&& self.platform@ == other.platform@
        &&& self.bvid@ == other.bvid@
        &&& self.page == other.page
        &&& self.cid == other.cid
        &&& self.duration_ms == other.duration_ms
        &&& self.raw_sha256@ == other.raw_sha256@
        &&& self.utterance_count == other.utterance_count
    }

    /// Whether two descriptors are the same.
    pub fn same_as(&self, other: &Self) -> (b: bool)
        ensures
            b == self.alike(other),
    {
        self.identity == other.identity && self.job_id == other.job_id && self.platform
            == other.platform && self.bvid == other.bvid && self.page == other.page && self.cid
            == other.cid && self.duration_ms == other.duration_ms && self.raw_sha256
            == other.raw_sha256 && self.utterance_count == other.utterance_count
    }

    /// The fixed text whose digest is the identity.
    pub fn identity_material(&self) -> (r: String)
        ensures
            r@ == self.material(),
    {
        let mut out = text("{\"domain\":\"bimyscribe/evidence/v1\",\"job_id\":\"");
        out.append(id_text(self.job_id).as_str());
        field(&mut out, "\",\"platform\":", to_json_string(self.platform.as_str()).as_str());
        field(&mut out, ",\"bvid\":", to_json_string(self.bvid.as_str()).as_str());
        field(&mut out, ",\"page\":", decimal(self.page as u64).as_str());
        field(&mut out, ",\"cid\":", decimal(self.cid).as_str());
        field(&mut out, ",\"duration_ms\":", decimal(self.duration_ms).as_str());
        field(&mut out, ",\"raw_sha256\":", to_json_string(self.raw_sha256.as_str()).as_str());
        field(&mut out, ",\"utterance_count\":", decimal(self.utterance_count as u64).as_str());
        out.append("}");
        out
    }

    /// The identity that the other fields give. A digest in another spelling is refused
    /// first, so that one transcript cannot have two identities.
    pub fn recompute_identity(&self) -> (r: Result<String, ContentSchemaError>)
        ensures
            spelled(r) == self.identity_outcome(),
            r matches Ok(s) ==> hex64(s@),
    {
        if let Err(e) = validate_sha256_hex("raw_sha256", self.raw_sha256.as_str()) {
            return Err(e);
        }
        let material = self.identity_material();
        Ok(sha256_hex(material.as_str().as_bytes()))
    }

    /// Accepts a descriptor, given the quoted form of its platform and its identity worked
    /// out.
    pub fn validate_with(
        &self,
        quoted_platform: &str,
        identity: Result<String, ContentSchemaError>,
    ) -> (r: Result<(), ContentSchemaError>)
        ensures
            found(r) == self.problem_with(quoted_platform@, spelled(identity)),
    {
        if !same(self.platform.as_str(), "bilibili") {
            return Err(
                ContentSchemaError::Invariant(cat2("unsupported evidence platform ", quoted_platform)),
            );
        }
        if let Err(e) = validate_sha256_hex("identity", self.identity.as_str()) {
            return Err(e);
        }
        if let Err(e) = validate_sha256_hex("raw_sha256", self.raw_sha256.as_str()) {
            return Err(e);
        }
        if is_blank(self.bvid.as_str()) || self.page == 0 || self.cid == 0 {
            return Err(violation("evidence source unit is incomplete"));
        }
        match identity {
            Err(e) => Err(e),
            Ok(i) => {
                if i != self.identity {
                    return Err(violation("evidence identity does not match its fixed material"));
                }
                Ok(())
            },
        }
    }

    /// Accepts a descriptor whose identity belongs to its other fields.
    pub fn validate(&self) -> (r: Result<(), ContentSchemaError>)
        ensures
            found(r) == self.problem(),
    {
        let quoted = to_debug_text(self.platform.as_str());
        self.validate_with(quoted.as_str(), self.recompute_identity())
    }
}

/// Two descriptors with the same fields but for the identity have the same identity.
pub proof fn identity_is_fixed_by_the_material(a: EvidenceDescriptorV1, b: EvidenceDescriptorV1)
    requires
        a.problem() is None,
        b.problem() is None,
        a.job_id == b.job_id,
        a.bvid@ == b.bvid@,
        a.page == b.page,
        a.cid == b.cid,
        a.duration_ms == b.duration_ms,
        a.raw_sha256@ == b.raw_sha256@,
        a.utterance_count == b.utterance_count,
    ensures
        a.identity@ == b.identity@,
        a.alike(&b),
{
}

// ---- Reading the raw transcript ----

/// A transcript that passed its checks, with its descriptor.
#[derive(Debug, Clone)]
pub struct ValidatedEvidenceViewV1 {
    pub descriptor: EvidenceDescriptorV1,
    pub utterances: Vec<Utterance>,
}

/// The identifiers of a transcript.
pub open spec fn utterance_ids(us: Seq<Utterance>) -> Seq<Seq<char>> {
    Seq::new(us.len(), |i: int| us[i].id@)
}

/// What is wrong with utterance `i` of a transcript.
pub open spec fn utterance_complaint(us: Seq<Utterance>, i: int, duration: u64) -> Option<Seq<char>> {
    let u = us[i];
    if blank(u.id@) || utterance_ids(us).take(i).contains(u.id@) {
        Some("原始 Evidence 的 utterance id 在第 "@ + dec((i + 1) as nat) + " 项无效"@)
    } else if blank(u.text@) || u.end_ms < u.start_ms {
        Some("原始 Evidence 的第 "@ + dec((i + 1) as nat) + " 项时间或文本无效"@)
    } else if u.text@.len() > CHUNK_MAX_CHARS {
        Some("原始 Evidence 的第 "@ + dec((i + 1) as nat) + " 项超过单片段长度上限"@)
    } else if u.end_ms > duration {
        Some("原始 Evidence 的第 "@ + dec((i + 1) as nat) + " 项超出视频时长"@)
    } else if i > 0 && u.start_ms < us[i - 1].start_ms {
        Some("原始 Evidence 时间顺序无效"@)
    } else {
        None
    }
}

/// The first complaint about a transcript from position `i` on.
pub open spec fn transcript_complaint(us: Seq<Utterance>, i: int, duration: u64) -> Option<Seq<char>>
    decreases us.len() - i,
{
    if i < 0 || i >= us.len() {
        None
    } else if utterance_complaint(us, i, duration) is Some {
        utterance_complaint(us, i, duration)
    } else {
        transcript_complaint(us, i + 1, duration)
    }
}

/// What is wrong with a job's transcript as evidence.
pub open spec fn evidence_complaint(job: Job, us: Seq<Utterance>) -> Option<Seq<char>> {
    if us.len() == 0 {
        Some("原始 Evidence 不包含片段"@)
    } else if job.duration_ms is None {
        Some("任务缺少视频时长"@)
    } else if blank(job.bvid@) || job.page == 0 || job.cid is None || job.cid == Some(0u64) {
        Some("任务来源单元不完整"@)
    } else {
        transcript_complaint(us, 0, job.duration_ms->0)
    }
}

/// The descriptor of a job's transcript.
pub open spec fn describes(d: EvidenceDescriptorV1, job: Job, bytes: Seq<u8>, count: nat) -> bool {
    &&& d.job_id == job.id
    &&& d.platform@ == platform()
    &&& d.bvid@ == job.bvid@
    &&& d.page == job.page
    &&& Some(d.cid) == job.cid
    &&& Some(d.duration_ms) == job.duration_ms
    &&& d.raw_sha256@ == hex(sha256(bytes))
    &&& d.utterance_count == count
    &&& d.identity@ == d.fixed_identity()
}

fn at_item(before: &str, i: usize, after: &str) -> (r: String)
    requires
        i < usize::MAX,
    ensures
        r@ == before@ + dec((i + 1) as nat) + after@,
{
    cat3(before, decimal((i + 1) as u64).as_str(), after)
}

#[verifier::loop_isolation(false)]
fn check_transcript(utterances: &Vec<Utterance>, duration: u64) -> (r: Result<(), String>)
    ensures
        super::lexical::complaint(r) == transcript_complaint(utterances@, 0, duration),
{
    let mut ids: Vec<String> = Vec::new();
    let mut i: usize = 0;
    assert(views(ids@) =~= utterance_ids(utterances@).take(0));
    while i < utterances.len()
        invariant
            i <= utterances.len(),
            views(ids@) == utterance_ids(utterances@).take(i as int),
            transcript_complaint(utterances@, 0, duration) == transcript_complaint(
                utterances@,
                i as int,
                duration,
            ),
        decreases utterances@.len() - i,
    {
        let u = &utterances[i];
        if is_blank(u.id.as_str()) || lists(&ids, u.id.as_str()) {
            return Err(at_item("原始 Evidence 的 utterance id 在第 ", i, " 项无效"));
        }
        if is_blank(u.text.as_str()) || u.end_ms < u.start_ms {
            return Err(at_item("原始 Evidence 的第 ", i, " 项时间或文本无效"));
        }
        if u.text.as_str().unicode_len() > CHUNK_MAX_CHARS {
            return Err(at_item("原始 Evidence 的第 ", i, " 项超过单片段长度上限"));
        }
        if u.end_ms > duration {
            return Err(at_item("原始 Evidence 的第 ", i, " 项超出视频时长"));
        }
        if i > 0 && u.start_ms < utterances[i - 1].start_ms {
            return Err("原始 Evidence 时间顺序无效".to_owned());
        }
        let ghost before = ids@;
        ids.push(u.id.clone());
        proof {
            crate::text::views_push(before, u.id);
            assert(views(ids@) =~= utterance_ids(utterances@).take(i + 1));
        }
        i += 1;
    }
    Ok(())
}

/// Checks a job's transcript, given as the bytes of its file and the utterances read from
/// them, and describes it.
pub fn validate_evidence(job: &Job, bytes: &[u8], utterances: Vec<Utterance>) -> (r: Result<
    ValidatedEvidenceViewV1,
    ContentError,
>)
    ensures
        match r {
            Ok(e) => {
                &&& evidence_complaint(*job, utterances@) is None
                &&& e.utterances == utterances
                &&& describes(e.descriptor, *job, bytes@, utterances@.len())
                &&& e.descriptor.problem() is None
            },
            Err(e) => evidence_complaint(*job, utterances@) is Some && e@ == ContentProblem::Evidence(
                evidence_complaint(*job, utterances@)->0,
            ),
        },
{
    if utterances.len() == 0 {
        return Err(ContentError::Evidence(text("原始 Evidence 不包含片段")));
    }
    let duration: u64 = match job.duration_ms {
        Some(d) => d,
        None => {
            return Err(ContentError::Evidence(text("任务缺少视频时长")));
        },
    };
    let cid: u64 = match job.cid {
        Some(c) => c,
        None => 0,
    };
    if is_blank(job.bvid.as_str()) || job.page == 0 || cid == 0 {
        return Err(ContentError::Evidence(text("任务来源单元不完整")));
    }
    if let Err(m) = check_transcript(&utterances, duration) {
        return Err(ContentError::Evidence(m));
    }
    let mut descriptor = EvidenceDescriptorV1 {
        identity: String::new(),
        job_id: job.id,
        platform: text("bilibili"),
        bvid: job.bvid.clone(),
        page: job.page,
        cid,
        duration_ms: duration,
        raw_sha256: sha256_hex(bytes),
        utterance_count: utterances.len(),
    };
    match descriptor.recompute_identity() {
        Ok(identity) => {
            descriptor.identity = identity;
        },
        Err(e) => {
            return Err(ContentError::Schema(e));
        },
    }
    Ok(ValidatedEvidenceViewV1 { descriptor, utterances })
}

proof fn accepted_from(us: Seq<Utterance>, i: int, duration: u64)
    requires
        0 <= i <= us.len(),
        transcript_complaint(us, i, duration) is None,
    ensures
        forall|k: int| i <= k < us.len() ==> utterance_complaint(us, k, duration) is None,
    decreases us.len() - i,
{
    if i < us.len() {
        accepted_from(us, i + 1, duration);
    }
}

/// In accepted evidence every identifier is unique, every text says something, and times are
/// in order and within the video.
pub proof fn accepted_evidence_is_sound(job: Job, us: Seq<Utterance>)
    requires
        evidence_complaint(job, us) is None,
    ensures
        us.len() > 0,
        utterance_ids(us).no_duplicates(),
        forall|k: int|
            0 <= k < us.len() ==> {
                let u = #[trigger] us[k];
                &&& !blank(u.id@)
                &&& !blank(u.text@)
                &&& u.text@.len() <= CHUNK_MAX_CHARS
                &&& u.start_ms <= u.end_ms <= job.duration_ms->0
            },
        forall|k: int, l: int| 0 <= k <= l < us.len() ==> us[k].start_ms <= us[l].start_ms,
{
    let duration = job.duration_ms->0;
    accepted_from(us, 0, duration);
    assert forall|k: int| 0 <= k < us.len() implies {
        let u = #[trigger] us[k];
        &&& !blank(u.id@)
        &&& !blank(u.text@)
        &&& u.text@.len() <= CHUNK_MAX_CHARS
        &&& u.start_ms <= u.end_ms <= duration
    } by {
        assert(utterance_complaint(us, k, duration) is None);
    }
    let ids = utterance_ids(us);
    assert forall|a: int, b: int| 0 <= a < ids.len() && 0 <= b < ids.len() && a != b implies ids[a] != ids[b] by {
        let (x, y) = if a < b { (a, b) } else { (b, a) };
        assert(utterance_complaint(us, y, duration) is None);
        assert(ids.take(y)[x] == ids[x]);
    }
    assert forall|k: int, l: int| 0 <= k <= l < us.len() implies us[k].start_ms <= us[l].start_ms by {
        starts_rise(us, k, l, duration);
    }
}

proof fn starts_rise(us: Seq<Utterance>, k: int, l: int, duration: u64)
    requires
        0 <= k <= l < us.len(),
        forall|i: int| 0 <= i < us.len() ==> utterance_complaint(us, i, duration) is None,
    ensures
        us[k].start_ms <= us[l].start_ms,
    decreases l - k,
{
    if k < l {
        starts_rise(us, k, l - 1, duration);
        assert(utterance_complaint(us, l, duration) is None);
    }
}

/// What the file of a job's transcript holds.
#[derive(Debug)]
pub enum RawTranscript {
    /// The job has no directory.
    NoDirectory,
    /// The file cannot be read.
    Unreadable(String),
    /// The bytes are no JSON of utterances.
    NotJson(String),
    /// The bytes, and the utterances read from them.
    Parsed(Vec<u8>, Vec<Utterance>),
}

/// Checks a job's transcript, given what its file holds.
pub fn read_evidence(job: &Job, raw: RawTranscript) -> (r: Result<ValidatedEvidenceViewV1, ContentError>)
    ensures
        match raw {
            RawTranscript::NoDirectory => r matches Err(e) && e@ == ContentProblem::Evidence(
                "任务没有工作目录"@,
            ),
            RawTranscript::Unreadable(m) => r matches Err(e) && e@ == ContentProblem::Evidence(
                "无法读取原始 Evidence："@ + m@,
            ),
            RawTranscript::NotJson(m) => r matches Err(e) && e@ == ContentProblem::Evidence(
                "原始 Evidence JSON 无效："@ + m@,
            ),
            RawTranscript::Parsed(bytes, utterances) => match evidence_complaint(*job, utterances@) {
                None => r matches Ok(v) && v.utterances == utterances && describes(
                    v.descriptor,
                    *job,
                    bytes@,
                    utterances@.len(),
                ) && v.descriptor.problem() is None,
                Some(m) => r matches Err(e) && e@ == ContentProblem::Evidence(m),
            },
        },
{
    match raw {
        RawTranscript::NoDirectory => Err(ContentError::Evidence(text("任务没有工作目录"))),
        RawTranscript::Unreadable(m) => Err(
            ContentError::Evidence(cat2("无法读取原始 Evidence：", m.as_str())),
        ),
        RawTranscript::NotJson(m) => Err(
            ContentError::Evidence(cat2("原始 Evidence JSON 无效：", m.as_str())),
        ),
        RawTranscript::Parsed(bytes, utterances) => validate_evidence(job, bytes.as_slice(), utterances),
    }
}

/// The context of a job's records.
pub fn expected_context(job: &Job) -> (r: SourceContextSnapshotV1)
    ensures
        r@ == (ContextView {
            main_title: job.title@,
            part_title: opt_view(job.part_title),
            terms: Seq::empty(),
        }),
{
    let r = SourceContextSnapshotV1 {
        main_title: job.title.clone(),
        part_title: copy_opt(&job.part_title),
        terms: Vec::new(),
    };
    assert(views(r.terms@) =~= Seq::<Seq<char>>::empty());
    r
}

proof fn accepted_when_sound(us: Seq<Utterance>, i: int, duration: u64)
    requires
        0 <= i <= us.len(),
        forall|k: int| i <= k < us.len() ==> utterance_complaint(us, k, duration) is None,
    ensures
        transcript_complaint(us, i, duration) is None,
    decreases us.len() - i,
{
    if i < us.len() {
        accepted_when_sound(us, i + 1, duration);
    }
}

/// A transcript is taken as evidence exactly where the job names a video of known length, and its
/// utterances have names of their own, say something in at most six thousand characters, run
/// forward within the video, and begin in order.
pub proof fn sound_evidence_is_accepted(job: Job, us: Seq<Utterance>)
    ensures
        evidence_complaint(job, us) is None <==> {
            &&& us.len() > 0
            &&& job.duration_ms is Some
            &&& !blank(job.bvid@) && job.page >= 1 && job.cid is Some && job.cid->0 >= 1
            &&& forall|k: int|
                0 <= k < us.len() ==> {
                    let u = #[trigger] us[k];
                    &&& !blank(u.id@)
                    &&& !blank(u.text@)
                    &&& u.text@.len() <= 6000
                    &&& u.start_ms <= u.end_ms <= job.duration_ms->0
                }
            &&& forall|k: int, l: int|
                0 <= k < l < us.len() ==> (#[trigger] us[k]).id@ != (#[trigger] us[l]).id@ && us[k].start_ms
                    <= us[l].start_ms
        },
{
    if evidence_complaint(job, us) is None {
        accepted_evidence_is_sound(job, us);
        let ids = utterance_ids(us);
        assert forall|k: int, l: int| 0 <= k < l < us.len() implies (#[trigger] us[k]).id@ != (#[trigger] us[l]).id@
            && us[k].start_ms <= us[l].start_ms by {
            assert(ids[k] != ids[l]);
        }
    }
    if us.len() > 0 && job.duration_ms is Some && (forall|k: int|
        0 <= k < us.len() ==> {
            let u = #[trigger] us[k];
            &&& !blank(u.id@)
            &&& !blank(u.text@)
            &&& u.text@.len() <= 6000
            &&& u.start_ms <= u.end_ms <= job.duration_ms->0
        }) && (forall|k: int, l: int|
        0 <= k < l < us.len() ==> (#[trigger] us[k]).id@ != (#[trigger] us[l]).id@ && us[k].start_ms
            <= us[l].start_ms) {
        let duration = job.duration_ms->0;
        assert forall|k: int| 0 <= k < us.len() implies utterance_complaint(us, k, duration) is None by {
            let before = utterance_ids(us).take(k);
            if before.contains(us[k].id@) {
                let j = choose|j: int| 0 <= j < before.len() && before[j] == us[k].id@;
                assert(us[j].id@ == us[k].id@);
            }
            if k > 0 {
                assert(us[k - 1].start_ms <= us[k].start_ms);
            }
        }
        accepted_when_sound(us, 0, duration);
    }
}

proof fn ends_inside(front: Seq<char>, part: Seq<char>, end: Seq<char>, m: Seq<char>)
    requires
        end == front + part,
        end.is_prefix_of(m),
    ensures
        has(m, part),
{
    let rest = m.skip(end.len() as int);
    assert(m =~= front + part + rest);
    a_part_is_found(front, part, rest);
}

proof fn named_inside(front: Seq<char>, sign: Seq<char>, name: Seq<char>, part: Seq<char>, end: Seq<char>, m: Seq<char>)
    requires
        end == front + sign + part,
        end.is_prefix_of(m),
        name.is_suffix_of(sign),
    ensures
        has(m, name + part),
{
    let a = front + sign.take(sign.len() - name.len());
    assert(sign =~= sign.take(sign.len() - name.len()) + name);
    assert(end =~= a + (name + part));
    ends_inside(a, name + part, end, m);
}

proof fn beginnings_chain(a: Seq<char>, b: Seq<char>, c: Seq<char>)
    requires
        a.is_prefix_of(b),
        b.is_prefix_of(c),
    ensures
        a.is_prefix_of(c),
{
    assert(a =~= c.subrange(0, a.len() as int));
}

/// The identity is made from every part of what is described: from the job, the video and its
/// part, its length, the digest of the transcript and the number of its utterances.
pub proof fn an_identity_covers_every_part(d: EvidenceDescriptorV1)
    ensures
        has(d.material(), hyphenated(d.job_id)),
        has(d.material(), json_string(d.platform@)),
        has(d.material(), json_string(d.bvid@)),
        has(d.material(), "\"page\":"@ + dec(d.page as nat)),
        has(d.material(), "\"cid\":"@ + dec(d.cid as nat)),
        has(d.material(), "\"duration_ms\":"@ + dec(d.duration_ms as nat)),
        has(d.material(), json_string(d.raw_sha256@)),
        has(d.material(), "\"utterance_count\":"@ + dec(d.utterance_count as nat)),
{
    let head = "{\"domain\":\"bimyscribe/evidence/v1\",\"job_id\":\""@;
    let m1 = head + hyphenated(d.job_id);
    let m2 = m1 + "\",\"platform\":"@ + json_string(d.platform@);
    let m3 = m2 + ",\"bvid\":"@ + json_string(d.bvid@);
    let m4 = m3 + ",\"page\":"@ + dec(d.page as nat);
    let m5 = m4 + ",\"cid\":"@ + dec(d.cid as nat);
    let m6 = m5 + ",\"duration_ms\":"@ + dec(d.duration_ms as nat);
    let m7 = m6 + ",\"raw_sha256\":"@ + json_string(d.raw_sha256@);
    let m8 = m7 + ",\"utterance_count\":"@ + dec(d.utterance_count as nat);
    let m = m8 + "}"@;
    assert(d.material() == m);
    assert(m8.is_prefix_of(m));
    assert(m7.is_prefix_of(m8));
    beginnings_chain(m7, m8, m);
    assert(m6.is_prefix_of(m7));
    beginnings_chain(m6, m7, m);
    assert(m5.is_prefix_of(m6));
    beginnings_chain(m5, m6, m);
    assert(m4.is_prefix_of(m5));
    beginnings_chain(m4, m5, m);
    assert(m3.is_prefix_of(m4));
    beginnings_chain(m3, m4, m);
    assert(m2.is_prefix_of(m3));
    beginnings_chain(m2, m3, m);
    assert(m1.is_prefix_of(m2));
    beginnings_chain(m1, m2, m);
    the_name_ends_the_sign();
    ends_inside(head, hyphenated(d.job_id), m1, m);
    ends_inside(m1 + "\",\"platform\":"@, json_string(d.platform@), m2, m);
    ends_inside(m2 + ",\"bvid\":"@, json_string(d.bvid@), m3, m);
    named_inside(m3, ",\"page\":"@, "\"page\":"@, dec(d.page as nat), m4, m);
    named_inside(m4, ",\"cid\":"@, "\"cid\":"@, dec(d.cid as nat), m5, m);
    named_inside(m5, ",\"duration_ms\":"@, "\"duration_ms\":"@, dec(d.duration_ms as nat), m6, m);
    ends_inside(m6 + ",\"raw_sha256\":"@, json_string(d.raw_sha256@), m7, m);
    named_inside(m7, ",\"utterance_count\":"@, "\"utterance_count\":"@, dec(d.utterance_count as nat), m8, m);
}

proof fn the_name_ends_the_sign()
    ensures
        "\"page\":"@.is_suffix_of(",\"page\":"@),
        "\"cid\":"@.is_suffix_of(",\"cid\":"@),
        "\"duration_ms\":"@.is_suffix_of(",\"duration_ms\":"@),
        "\"utterance_count\":"@.is_suffix_of(",\"utterance_count\":"@),
{
    reveal_strlit("\"page\":");
    reveal_strlit(",\"page\":");
    reveal_strlit("\"cid\":");
    reveal_strlit(",\"cid\":");
    reveal_strlit("\"duration_ms\":");
    reveal_strlit(",\"duration_ms\":");
    reveal_strlit("\"utterance_count\":");
    reveal_strlit(",\"utterance_count\":");
}

} // verus!
