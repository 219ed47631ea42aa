//! The places in the transcript that blocks refer to.

use vstd::prelude::*;
use super::kinds::{ArtifactKindV1, SourceStatusV1};
use super::lexical::{complaint, support_complaint, validate_support};
use super::record::{ContentBlockV1, SourceRefV1};
use crate::funasr::Utterance;
use crate::text::{cat3, lower_text, lowered, same, views};

verus! {

/// The position of the last utterance with an identifier.
pub open spec fn position_of(us: Seq<Utterance>, id: Seq<char>) -> Option<int>
    decreases us.len(),
{
    if us.len() == 0 {
        None
    } else if us.last().id@ == id {
        Some(us.len() - 1)
    } else {
        position_of(us.drop_last(), id)
    }
}

/// A found position holds the identifier.
pub proof fn position_holds_the_id(us: Seq<Utterance>, id: Seq<char>)
    ensures
        position_of(us, id) matches Some(p) ==> 0 <= p < us.len() && us[p].id@ == id,
    decreases us.len(),
{
    if us.len() > 0 && us.last().id@ != id {
        position_holds_the_id(us.drop_last(), id);
    }
}

/// The position of the last utterance with an identifier.
pub fn find_position(utterances: &Vec<Utterance>, id: &String) -> (r: Option<usize>)
    ensures
        crate::text::position(r) == position_of(utterances@, id@),
        r matches Some(p) ==> p < utterances@.len(),
{
    let mut n: usize = utterances.len();
    assert(utterances@.take(n as int) =~= utterances@);
    while n > 0
        invariant
            n <= utterances@.len(),
            position_of(utterances@, id@) == position_of(utterances@.take(n as int), id@),
        decreases n,
    {
        assert(utterances@.take(n as int).drop_last() =~= utterances@.take(n - 1));
        assert(utterances@.take(n as int).last() == utterances@[n - 1]);
        if utterances[n - 1].id == *id {
            return Some(n - 1);
        }
        n -= 1;
    }
    None
}

/// Something is wrong with one reference.
pub open spec fn unknown_utterance() -> Seq<char> {
    "source ref references an unknown utterance"@
}

/// The identifiers from `k` on name the utterances that follow `first` one by one.
pub open spec fn run_complaint(ids: Seq<Seq<char>>, us: Seq<Utterance>, first: int, k: int) -> Option<
    Seq<char>,
>
    decreases ids.len() - k,
{
    if k < 0 || k >= ids.len() {
        None
    } else {
        match position_of(us, ids[k]) {
            None => Some(unknown_utterance()),
            Some(p) => if p != first + k {
                Some("source ref skips or reorders utterances"@)
            } else {
                run_complaint(ids, us, first, k + 1)
            },
        }
    }
}

/// What is wrong with one reference behind the position `previous`.
pub open spec fn ref_complaint(r: SourceRefV1, us: Seq<Utterance>, previous: Option<int>) -> Option<
    Seq<char>,
> {
    let ids = views(r.utterance_ids@);
    if ids.len() == 0 || r.end_ms < r.start_ms {
        Some("source ref is empty or has reversed time"@)
    } else {
        match (position_of(us, ids[0]), position_of(us, ids.last())) {
            (Some(first), Some(last)) => if last < first || (previous is Some && first
                <= previous->0) {
                Some("source refs are out of order or overlap"@)
            } else if run_complaint(ids, us, first, 0) is Some {
                run_complaint(ids, us, first, 0)
            } else if r.start_ms != us[first].start_ms || r.end_ms != us[last].end_ms {
                Some("source ref time does not match Evidence"@)
            } else {
                None
            },
            _ => Some(unknown_utterance()),
        }
    }
}

/// The position of a reference's first utterance.
pub open spec fn first_of(r: SourceRefV1, us: Seq<Utterance>) -> int {
    position_of(us, views(r.utterance_ids@)[0])->0
}

/// The position of a reference's last utterance.
pub open spec fn last_of(r: SourceRefV1, us: Seq<Utterance>) -> int {
    position_of(us, views(r.utterance_ids@).last())->0
}

/// The positions of a reference's utterances.
pub open spec fn run_of(r: SourceRefV1, us: Seq<Utterance>) -> Seq<int> {
    Seq::new(r.utterance_ids@.len(), |k: int| first_of(r, us) + k)
}

/// The positions that references from `i` on name, or what is wrong with them.
pub open spec fn refs_from(
    refs: Seq<SourceRefV1>,
    us: Seq<Utterance>,
    i: int,
    previous: Option<int>,
) -> Result<Seq<int>, Seq<char>>
    decreases refs.len() - i,
{
    if i < 0 || i >= refs.len() {
        Ok(Seq::empty())
    } else {
        match ref_complaint(refs[i], us, previous) {
            Some(m) => Err(m),
            None => match refs_from(refs, us, i + 1, Some(last_of(refs[i], us))) {
                Err(m) => Err(m),
                Ok(rest) => Ok(run_of(refs[i], us) + rest),
            },
        }
    }
}

/// The positions that a block's references name, or what is wrong with them.
pub open spec fn refs_outcome(refs: Seq<SourceRefV1>, us: Seq<Utterance>) -> Result<Seq<int>, Seq<char>> {
    refs_from(refs, us, 0, None)
}

/// Machine integers as mathematical ones.
pub open spec fn ints(v: Seq<usize>) -> Seq<int> {
    Seq::new(v.len(), |i: int| v[i] as int)
}

/// The value of a check of references.
pub open spec fn placed(r: Result<Vec<usize>, String>) -> Result<Seq<int>, Seq<char>> {
    match r {
        Ok(v) => Ok(ints(v@)),
        Err(m) => Err(m@),
    }
}

fn unknown() -> (r: String)
    ensures
        r@ == unknown_utterance(),
{
    "source ref references an unknown utterance".to_owned()
}

#[verifier::loop_isolation(false)]
fn check_ref(
    source_ref: &SourceRefV1,
    utterances: &Vec<Utterance>,
    previous: Option<usize>,
) -> (r: Result<(usize, usize), String>)
    ensures
        match r {
            Ok((first, last)) => {
                &&& ref_complaint(*source_ref, utterances@, crate::text::position(previous)) is None
                &&& first == first_of(*source_ref, utterances@)
                &&& last == last_of(*source_ref, utterances@)
                &&& first + source_ref.utterance_ids@.len() == last + 1
                &&& last < utterances@.len()
            },
            Err(m) => ref_complaint(*source_ref, utterances@, crate::text::position(previous)) == Some(
                m@,
            ),
        },
{
    let ghost ids = views(source_ref.utterance_ids@);
    let n: usize = source_ref.utterance_ids.len();
    if n == 0 || source_ref.end_ms < source_ref.start_ms {
        return Err("source ref is empty or has reversed time".to_owned());
    }
    let first: usize = match find_position(utterances, &source_ref.utterance_ids[0]) {
        Some(p) => p,
        None => {
            return Err(unknown());
        },
    };
    let last: usize = match find_position(utterances, &source_ref.utterance_ids[n - 1]) {
        Some(p) => p,
        None => {
            return Err(unknown());
        },
    };
    let overlaps = match previous {
        Some(p) => first <= p,
        None => false,
    };
    if last < first || overlaps {
        return Err("source refs are out of order or overlap".to_owned());
    }
    let mut k: usize = 0;
    while k < n
        invariant
            n == source_ref.utterance_ids@.len(),
            ids == views(source_ref.utterance_ids@),
            k <= n,
            k == 0 || first + k <= utterances.len(),
            k > 0 ==> position_of(utterances@, ids[k - 1]) == Some(first + k - 1),
            first < utterances.len(),
            run_complaint(ids, utterances@, first as int, 0) == run_complaint(
                ids,
                utterances@,
                first as int,
                k as int,
            ),
        decreases n - k,
    {
        match find_position(utterances, &source_ref.utterance_ids[k]) {
            Some(p) => {
                if p != first + k {
                    return Err("source ref skips or reorders utterances".to_owned());
                }
            },
            None => {
                return Err(unknown());
            },
        }
        k += 1;
    }
    if source_ref.start_ms != utterances[first].start_ms || source_ref.end_ms
        != utterances[last].end_ms {
        return Err("source ref time does not match Evidence".to_owned());
    }
    Ok((first, last))
}

/// The positions that a block's references name. They rise, do not overlap, are whole runs of
/// utterances, and carry the times of the transcript.
pub fn validate_source_refs(refs: &Vec<SourceRefV1>, utterances: &Vec<Utterance>) -> (r: Result<
    Vec<usize>,
    String,
>)
    ensures
        placed(r) == refs_outcome(refs@, utterances@),
        r matches Ok(v) ==> forall|k: int| 0 <= k < v@.len() ==> #[trigger] v@[k] < utterances@.len(),
        r matches Ok(v) ==> (refs@.len() > 0 ==> v@.len() > 0),
{
    let mut used: Vec<usize> = Vec::new();
    let mut previous: Option<usize> = None;
    let mut i: usize = 0;
    assert(ints(used@) =~= Seq::<int>::empty());
    proof {
        if let Ok(rest) = refs_from(refs@, utterances@, 0, None) {
            assert(Seq::<int>::empty() + rest =~= rest);
        }
    }
    while i < refs.len()
        invariant
            i <= refs@.len(),
            i > 0 ==> used@.len() > 0,
            forall|k: int| 0 <= k < used@.len() ==> #[trigger] used@[k] < utterances@.len(),
            refs_outcome(refs@, utterances@) == (match refs_from(
                refs@,
                utterances@,
                i as int,
                crate::text::position(previous),
            ) {
                Err(m) => Err::<Seq<int>, Seq<char>>(m),
                Ok(rest) => Ok(ints(used@) + rest),
            }),
        decreases refs@.len() - i,
    {
        let (first, last) = match check_ref(&refs[i], utterances, previous) {
            Ok(p) => p,
            Err(m) => {
                return Err(m);
            },
        };
        let ghost before = ints(used@);
        let mut position: usize = first;
        while position <= last
            invariant
                i < refs@.len(),
                first <= position <= last + 1,
                last < utterances.len(),
                before == ints(used@).take(before.len() as int),
                ints(used@) =~= before + Seq::new((position - first) as nat, |k: int| first + k),
                forall|k: int| 0 <= k < used@.len() ==> #[trigger] used@[k] < utterances@.len(),
            decreases last + 1 - position,
        {
            let ghost so_far = ints(used@);
            used.push(position);
            assert(ints(used@) =~= so_far.push(position as int));
            position += 1;
        }
        proof {
            let run = run_of(refs@[i as int], utterances@);
            assert(run =~= Seq::new((position - first) as nat, |k: int| first + k));
            assert(ints(used@) == before + run);
            if let Ok(rest) = refs_from(refs@, utterances@, i + 1, Some(last as int)) {
                assert(before + (run + rest) =~= ints(used@) + rest);
            }
        }
        previous = Some(last);
        i += 1;
    }
    assert(ints(used@) + Seq::<int>::empty() =~= ints(used@));
    Ok(used)
}

// ---- The text behind references ----

/// The identifiers of the first `n` references, one after the other.
pub open spec fn ref_ids(refs: Seq<SourceRefV1>, n: int) -> Seq<Seq<char>>
    decreases n,
{
    if n <= 0 {
        Seq::empty()
    } else {
        ref_ids(refs, n - 1) + views(refs[n - 1].utterance_ids@)
    }
}

/// The texts of utterances, each on a line of its own.
pub open spec fn text_behind(ids: Seq<Seq<char>>, us: Seq<Utterance>) -> Result<Seq<char>, Seq<char>>
    decreases ids.len(),
{
    if ids.len() == 0 {
        Ok(Seq::empty())
    } else {
        match (text_behind(ids.drop_last(), us), position_of(us, ids.last())) {
            (Ok(t), Some(p)) => Ok((t + us[p].text@).push('\n')),
            _ => Err(unknown_utterance()),
        }
    }
}

/// The text that a block's references name.
pub open spec fn source_text(refs: Seq<SourceRefV1>, us: Seq<Utterance>) -> Result<Seq<char>, Seq<char>> {
    text_behind(ref_ids(refs, refs.len() as int), us)
}

/// The value of a text or a message.
pub open spec fn told(r: Result<String, String>) -> Result<Seq<char>, Seq<char>> {
    match r {
        Ok(s) => Ok(s@),
        Err(m) => Err(m@),
    }
}

proof fn one_unknown_is_enough(ids: Seq<Seq<char>>, us: Seq<Utterance>, k: int)
    requires
        0 <= k < ids.len(),
        position_of(us, ids[k]) is None,
    ensures
        text_behind(ids, us) == Err::<Seq<char>, Seq<char>>(unknown_utterance()),
    decreases ids.len(),
{
    if k < ids.len() - 1 {
        one_unknown_is_enough(ids.drop_last(), us, k);
    }
}

proof fn ref_ids_cover(refs: Seq<SourceRefV1>, i: int, n: int, k: int)
    requires
        0 <= i < n <= refs.len(),
        0 <= k < refs[i].utterance_ids@.len(),
    ensures
        exists|x: int|
            0 <= x < ref_ids(refs, n).len() && #[trigger] ref_ids(refs, n)[x] == refs[i].utterance_ids@[k]@,
    decreases n,
{
    if i == n - 1 {
        let x = ref_ids(refs, n - 1).len() + k;
        assert(ref_ids(refs, n)[x] == views(refs[i].utterance_ids@)[k]);
    } else {
        ref_ids_cover(refs, i, n - 1, k);
        let x = choose|x: int|
            0 <= x < ref_ids(refs, n - 1).len() && #[trigger] ref_ids(refs, n - 1)[x]
                == refs[i].utterance_ids@[k]@;
        assert(ref_ids(refs, n)[x] == ref_ids(refs, n - 1)[x]);
    }
}

/// The text that a block's references name, one line for each utterance.
pub fn source_text_for_refs(refs: &Vec<SourceRefV1>, utterances: &Vec<Utterance>) -> (r: Result<
    String,
    String,
>)
    ensures
        told(r) == source_text(refs@, utterances@),
{
    let mut text = String::new();
    let mut i: usize = 0;
    while i < refs.len()
        invariant
            i <= refs@.len(),
            text_behind(ref_ids(refs@, i as int), utterances@) == Ok::<Seq<char>, Seq<char>>(text@),
        decreases refs@.len() - i,
    {
        let ids = &refs[i].utterance_ids;
        let ghost done = ref_ids(refs@, i as int);
        let ghost more = views(ids@);
        let mut k: usize = 0;
        assert(done + more.take(0) =~= done);
        while k < ids.len()
            invariant
                i < refs@.len(),
                k <= ids@.len(),
                *ids == refs@[i as int].utterance_ids,
                more == views(ids@),
                done == ref_ids(refs@, i as int),
                text_behind(done + more.take(k as int), utterances@) == Ok::<Seq<char>, Seq<char>>(text@),
            decreases ids@.len() - k,
        {
            assert(more[k as int] == ids@[k as int]@);
            match find_position(utterances, &ids[k]) {
                None => {
                    proof {
                        ref_ids_cover(refs@, i as int, refs@.len() as int, k as int);
                        let all = ref_ids(refs@, refs@.len() as int);
                        let x = choose|x: int|
                            0 <= x < all.len() && #[trigger] all[x]
                                == refs@[i as int].utterance_ids@[k as int]@;
                        one_unknown_is_enough(all, utterances@, x);
                    }
                    return Err(unknown());
                },
                Some(p) => {
                    text.append(utterances[p].text.as_str());
                    text.push('\n');
                },
            }
            proof {
                let next = done + more.take(k + 1);
                assert(next.drop_last() =~= done + more.take(k as int));
                assert(next.last() == more[k as int]);
            }
            k += 1;
        }
        assert(done + more.take(k as int) =~= done + more);
        i += 1;
    }
    Ok(text)
}

// ---- Claims ----

/// Titles that only say what kind of block follows.
pub open spec fn fixed_label(kind: ArtifactKindV1, title: Seq<char>) -> bool {
    match kind {
        ArtifactKindV1::DefaultSummary => title == "摘要"@ || title == "总结"@ || lowered(title)
            == "summary"@,
        ArtifactKindV1::ShortSummary | ArtifactKindV1::LongSummary | ArtifactKindV1::Highlights => title
            == "重点"@ || title == "要点"@ || lowered(title) == "highlight"@,
        _ => false,
    }
}

/// Whether a title only says what kind of block follows.
pub fn is_fixed_support_label(kind: ArtifactKindV1, title: &str) -> (b: bool)
    ensures
        b == fixed_label(kind, title@),
{
    match kind {
        ArtifactKindV1::DefaultSummary => same(title, "摘要") || same(title, "总结") || same(
            lower_text(title).as_str(),
            "summary",
        ),
        ArtifactKindV1::ShortSummary | ArtifactKindV1::LongSummary | ArtifactKindV1::Highlights => {
            same(title, "重点") || same(title, "要点") || same(
                lower_text(title).as_str(),
                "highlight",
            )
        },
        _ => false,
    }
}

/// The words that a claim stands by: its title, unless that is a fixed label, and its text.
pub open spec fn claim_text(kind: ArtifactKindV1, b: ContentBlockV1) -> Seq<char> {
    (match b.title {
        Some(t) if !fixed_label(kind, t@) => t@,
        _ => ""@,
    }) + "\n"@ + b.text@
}

/// What is wrong with a claim.
pub open spec fn claim_complaint(kind: ArtifactKindV1, b: ContentBlockV1, us: Seq<Utterance>) -> Option<
    Seq<char>,
> {
    if b.source_status is Limited {
        if b.source_refs@.len() > 0 {
            Some("limited supporting block must have empty refs"@)
        } else {
            None
        }
    } else {
        match source_text(b.source_refs@, us) {
            Err(m) => Some(m),
            Ok(source) => support_complaint(source, claim_text(kind, b)),
        }
    }
}

/// Accepts a claim that the utterances it refers to support, or one that refers to none and
/// says so.
pub fn validate_supporting_block(
    kind: ArtifactKindV1,
    block: &ContentBlockV1,
    utterances: &Vec<Utterance>,
) -> (r: Result<(), String>)
    ensures
        complaint(r) == claim_complaint(kind, *block, utterances@),
{
    if block.source_status == SourceStatusV1::Limited {
        if block.source_refs.len() > 0 {
            return Err("limited supporting block must have empty refs".to_owned());
        }
        return Ok(());
    }
    match source_text_for_refs(&block.source_refs, utterances) {
        Err(m) => Err(m),
        Ok(source) => {
            let title: &str = match &block.title {
                Some(t) => {
                    if is_fixed_support_label(kind, t.as_str()) {
                        ""
                    } else {
                        t.as_str()
                    }
                },
                None => "",
            };
            let output = cat3(title, "\n", block.text.as_str());
            validate_support(source.as_str(), output.as_str())
        },
    }
}

// ---- Chapters ----

/// The positions of a transcript in order, each once.
pub open spec fn every_position(used: Seq<int>, n: int) -> bool {
    used.len() == n && forall|k: int| 0 <= k < n ==> #[trigger] used[k] == k
}

/// Whether positions are those of a transcript in order, each once.
pub fn is_every_position(used: &Vec<usize>, n: usize) -> (b: bool)
    ensures
        b == every_position(ints(used@), n as int),
{
    if used.len() != n {
        return false;
    }
    let mut k: usize = 0;
    while k < n
        invariant
            k <= n,
            used@.len() == n,
            forall|j: int| 0 <= j < k ==> #[trigger] ints(used@)[j] == j,
        decreases n - k,
    {
        if used[k] != k {
            assert(ints(used@)[k as int] != k);
            return false;
        }
        k += 1;
    }
    true
}

/// What is wrong with chapters from `i` on that must begin at position `cursor` and reach the
/// end of a transcript without a gap.
pub open spec fn contiguous_complaint(
    blocks: Seq<ContentBlockV1>,
    us: Seq<Utterance>,
    i: int,
    cursor: int,
) -> Option<Seq<char>>
    decreases blocks.len() - i,
{
    if i < 0 || i >= blocks.len() {
        if cursor != us.len() {
            Some("chapter boundaries do not cover all Evidence"@)
        } else {
            None
        }
    } else if !(blocks[i].source_status is Mapped) || blocks[i].source_refs@.len() == 0 {
        Some("mapped chapter must have refs"@)
    } else {
        match refs_outcome(blocks[i].source_refs@, us) {
            Err(m) => Some(m),
            Ok(used) => if used.len() == 0 || used[0] != cursor {
                Some("chapter boundaries are not contiguous"@)
            } else {
                contiguous_complaint(blocks, us, i + 1, used.last() + 1)
            },
        }
    }
}

/// What is wrong with chapters that are to divide a transcript.
pub open spec fn partition_complaint(
    blocks: Seq<ContentBlockV1>,
    us: Seq<Utterance>,
    all_used: Seq<int>,
) -> Option<Seq<char>> {
    if !every_position(all_used, us.len() as int) {
        Some("chapter refs contain a gap, overlap, or reorder"@)
    } else {
        contiguous_complaint(blocks, us, 0, 0)
    }
}

/// Accepts chapters that divide a transcript without gap or overlap.
#[verifier::loop_isolation(false)]
pub fn validate_chapter_partitions(
    blocks: &Vec<ContentBlockV1>,
    utterances: &Vec<Utterance>,
    all_used: &Vec<usize>,
) -> (r: Result<(), String>)
    ensures
        complaint(r) == partition_complaint(blocks@, utterances@, ints(all_used@)),
{
    if !is_every_position(all_used, utterances.len()) {
        return Err("chapter refs contain a gap, overlap, or reorder".to_owned());
    }
    let mut cursor: usize = 0;
    let mut i: usize = 0;
    while i < blocks.len()
        invariant
            i <= blocks@.len(),
            contiguous_complaint(blocks@, utterances@, 0, 0) == contiguous_complaint(
                blocks@,
                utterances@,
                i as int,
                cursor as int,
            ),
        decreases blocks@.len() - i,
    {
        let block = &blocks[i];
        if block.source_status != SourceStatusV1::Mapped || block.source_refs.len() == 0 {
            return Err("mapped chapter must have refs".to_owned());
        }
        let used = match validate_source_refs(&block.source_refs, utterances) {
            Ok(used) => used,
            Err(m) => {
                return Err(m);
            },
        };
        assert(ints(used@)[0] == used@[0]);
        assert(ints(used@).last() == used@.last());
        if used[0] != cursor {
            return Err("chapter boundaries are not contiguous".to_owned());
        }
        assert(used@[used@.len() - 1] < utterances.len());
        cursor = used[used.len() - 1] + 1;
        i += 1;
    }
    if cursor != utterances.len() {
        return Err("chapter boundaries do not cover all Evidence".to_owned());
    }
    Ok(())
}

/// Every position is greater than the one before it.
pub open spec fn rising(used: Seq<int>) -> bool {
    forall|k: int| 0 < k < used.len() ==> used[k - 1] < #[trigger] used[k]
}

/// What is wrong with chapters from `i` on, of which some refer to nothing.
pub open spec fn mixed_from(blocks: Seq<ContentBlockV1>, us: Seq<Utterance>, i: int) -> Option<Seq<char>>
    decreases blocks.len() - i,
{
    if i < 0 || i >= blocks.len() {
        None
    } else if blocks[i].source_status is Mapped {
        if blocks[i].source_refs@.len() == 0 {
            Some("mapped chapter must have refs"@)
        } else {
            match refs_outcome(blocks[i].source_refs@, us) {
                Err(m) => Some(m),
                Ok(_) => mixed_from(blocks, us, i + 1),
            }
        }
    } else if blocks[i].source_refs@.len() > 0 {
        Some("limited chapter must not have refs"@)
    } else {
        mixed_from(blocks, us, i + 1)
    }
}

/// What is wrong with chapters of which some refer to nothing.
pub open spec fn mixed_complaint(
    blocks: Seq<ContentBlockV1>,
    us: Seq<Utterance>,
    all_used: Seq<int>,
) -> Option<Seq<char>> {
    if !rising(all_used) {
        Some("mapped chapter refs overlap or are out of order"@)
    } else {
        mixed_from(blocks, us, 0)
    }
}

fn is_rising(used: &Vec<usize>) -> (b: bool)
    ensures
        b == rising(ints(used@)),
{
    let mut k: usize = 1;
    while k < used.len()
        invariant
            1 <= k,
            forall|j: int| 0 < j < k && j < used@.len() ==> ints(used@)[j - 1] < #[trigger] ints(used@)[j],
        decreases used@.len() - k,
    {
        if used[k - 1] >= used[k] {
            assert(ints(used@)[k - 1] >= ints(used@)[k as int]);
            return false;
        }
        k += 1;
    }
    true
}

/// Accepts chapters of which some refer to nothing: those that refer do so in order and
/// without overlap.
#[verifier::loop_isolation(false)]
pub fn validate_chapter_mixed_sources(
    blocks: &Vec<ContentBlockV1>,
    utterances: &Vec<Utterance>,
    all_used: &Vec<usize>,
) -> (r: Result<(), String>)
    ensures
        complaint(r) == mixed_complaint(blocks@, utterances@, ints(all_used@)),
{
    if !is_rising(all_used) {
        return Err("mapped chapter refs overlap or are out of order".to_owned());
    }
    let mut i: usize = 0;
    while i < blocks.len()
        invariant
            i <= blocks@.len(),
            mixed_from(blocks@, utterances@, 0) == mixed_from(blocks@, utterances@, i as int),
        decreases blocks@.len() - i,
    {
        let block = &blocks[i];
        if block.source_status == SourceStatusV1::Mapped {
            if block.source_refs.len() == 0 {
                return Err("mapped chapter must have refs".to_owned());
            }
            if let Err(m) = validate_source_refs(&block.source_refs, utterances) {
                return Err(m);
            }
        } else if block.source_refs.len() > 0 {
            return Err("limited chapter must not have refs".to_owned());
        }
        i += 1;
    }
    Ok(())
}

proof fn a_run_is_named_in_full(ids: Seq<Seq<char>>, us: Seq<Utterance>, first: int, k: int)
    requires
        0 <= k,
        run_complaint(ids, us, first, k) is None,
    ensures
        forall|j: int| k <= j < ids.len() ==> position_of(us, #[trigger] ids[j]) == Some(first + j),
    decreases ids.len() - k,
{
    if k < ids.len() {
        a_run_is_named_in_full(ids, us, first, k + 1);
    }
}

/// The reference names a stretch of the transcript as it was spoken: its
/// identifiers are those of consecutive utterances, and its time runs from the start of the
/// first to the end of the last.
pub open spec fn names_a_stretch(r: SourceRefV1, us: Seq<Utterance>) -> bool {
    &&& r.utterance_ids@.len() > 0
    &&& 0 <= first_of(r, us) <= last_of(r, us) < us.len()
    &&& last_of(r, us) == first_of(r, us) + r.utterance_ids@.len() - 1
    &&& r.start_ms == us[first_of(r, us)].start_ms
    &&& r.end_ms == us[last_of(r, us)].end_ms
    &&& forall|k: int|
        0 <= k < r.utterance_ids@.len() ==> (#[trigger] r.utterance_ids@[k])@ == us[first_of(r, us) + k].id@
}

proof fn an_accepted_reference_names_a_stretch(r: SourceRefV1, us: Seq<Utterance>, previous: Option<int>)
    requires
        ref_complaint(r, us, previous) is None,
    ensures
        names_a_stretch(r, us),
        previous is Some ==> first_of(r, us) > previous->0,
{
    let ids = views(r.utterance_ids@);
    let first = first_of(r, us);
    a_run_is_named_in_full(ids, us, first, 0);
    assert forall|k: int| 0 <= k < r.utterance_ids@.len() implies (#[trigger] r.utterance_ids@[k])@ == us[first
        + k].id@ by {
        assert(ids[k] == r.utterance_ids@[k]@);
        position_holds_the_id(us, ids[k]);
    }
    position_holds_the_id(us, ids[0]);
    position_holds_the_id(us, ids.last());
    assert(ids.last() == ids[ids.len() - 1]);
}

proof fn references_from_lead_back(refs: Seq<SourceRefV1>, us: Seq<Utterance>, i: int, previous: Option<int>)
    requires
        0 <= i,
        refs_from(refs, us, i, previous) is Ok,
    ensures
        forall|k: int| i <= k < refs.len() ==> names_a_stretch(#[trigger] refs[k], us),
        ({
            let used = refs_from(refs, us, i, previous)->Ok_0;
            &&& rising(used)
            &&& forall|k: int| 0 <= k < used.len() ==> 0 <= #[trigger] used[k] < us.len()
            &&& previous is Some && used.len() > 0 ==> used[0] > previous->0
        }),
    decreases refs.len() - i,
{
    if i < refs.len() {
        let last = last_of(refs[i], us);
        an_accepted_reference_names_a_stretch(refs[i], us, previous);
        references_from_lead_back(refs, us, i + 1, Some(last));
        let run = run_of(refs[i], us);
        let rest = refs_from(refs, us, i + 1, Some(last))->Ok_0;
        let used = run + rest;
        assert(refs_from(refs, us, i, previous)->Ok_0 == used);
        assert forall|k: int| 0 < k < used.len() implies used[k - 1] < #[trigger] used[k] by {
            if k > run.len() {
                assert(used[k - 1] == rest[k - 1 - run.len()]);
                assert(used[k] == rest[k - run.len()]);
            }
        }
        assert forall|k: int| 0 <= k < used.len() implies 0 <= #[trigger] used[k] < us.len() by {
            if k >= run.len() {
                assert(used[k] == rest[k - run.len()]);
            }
        }
    }
}

/// What a block refers to can be followed back: every reference that was accepted names a
/// stretch of the transcript with its times, and together they name rising positions.
pub proof fn accepted_references_lead_back(refs: Seq<SourceRefV1>, us: Seq<Utterance>)
    requires
        refs_outcome(refs, us) is Ok,
    ensures
        forall|k: int| 0 <= k < refs.len() ==> names_a_stretch(#[trigger] refs[k], us),
        rising(refs_outcome(refs, us)->Ok_0),
        forall|k: int|
            0 <= k < refs_outcome(refs, us)->Ok_0.len() ==> 0 <= #[trigger] refs_outcome(refs, us)->Ok_0[k]
                < us.len(),
{
    references_from_lead_back(refs, us, 0, None);
}

// ---- What references lead to ----

/// The identifiers that references name, one reference behind the other.
pub open spec fn named_ids(refs: Seq<SourceRefV1>) -> Seq<Seq<char>> {
    refs.map_values(|r: SourceRefV1| r.utterance_ids@.map_values(|id: String| id@)).flatten()
}

/// An identifier leads to the last utterance that carries it, and to none only where none does.
pub proof fn an_identifier_leads_to_its_utterance(us: Seq<Utterance>, id: Seq<char>)
    ensures
        match position_of(us, id) {
            Some(p) => 0 <= p < us.len() && us[p].id@ == id && forall|k: int|
                p < k < us.len() ==> (#[trigger] us[k]).id@ != id,
            None => forall|k: int| 0 <= k < us.len() ==> (#[trigger] us[k]).id@ != id,
        },
    decreases us.len(),
{
    if us.len() > 0 {
        an_identifier_leads_to_its_utterance(us.drop_last(), id);
        if us.last().id@ != id {
            let t = us.drop_last();
            assert forall|k: int| 0 <= k < us.len() && (position_of(us, id) is Some ==> k > position_of(us, id)->0)
                implies (#[trigger] us[k]).id@ != id by {
                if k < us.len() - 1 {
                    assert(t[k].id@ != id);
                }
            }
        }
    }
}

proof fn ids_follow_on(refs: Seq<SourceRefV1>, n: int)
    requires
        0 <= n <= refs.len(),
    ensures
        ref_ids(refs, n) == named_ids(refs.take(n)),
    decreases n,
{
    let f = |r: SourceRefV1| r.utterance_ids@.map_values(|id: String| id@);
    if n > 0 {
        ids_follow_on(refs, n - 1);
        let last = refs[n - 1];
        assert(refs.take(n).map_values(f) =~= refs.take(n - 1).map_values(f).push(f(last)));
        refs.take(n - 1).map_values(f).lemma_flatten_push(f(last));
        assert(views(last.utterance_ids@) =~= f(last));
    } else {
        assert(refs.take(n).map_values(f) =~= Seq::<Seq<Seq<char>>>::empty());
    }
}

proof fn references_from_name_positions(refs: Seq<SourceRefV1>, us: Seq<Utterance>, i: int, previous: Option<int>)
    requires
        0 <= i <= refs.len(),
        refs_from(refs, us, i, previous) is Ok,
    ensures
        ({
            let used = refs_from(refs, us, i, previous)->Ok_0;
            let ids = named_ids(refs.skip(i));
            &&& ids.len() == used.len()
            &&& forall|k: int| 0 <= k < used.len() ==> position_of(us, #[trigger] ids[k]) == Some(used[k])
        }),
    decreases refs.len() - i,
{
    let f = |r: SourceRefV1| r.utterance_ids@.map_values(|id: String| id@);
    let lists = refs.skip(i).map_values(f);
    let ids = named_ids(refs.skip(i));
    if i < refs.len() {
        let r = refs[i];
        let last = last_of(r, us);
        references_from_name_positions(refs, us, i + 1, Some(last));
        let own = views(r.utterance_ids@);
        a_run_is_named_in_full(own, us, first_of(r, us), 0);
        assert(own =~= f(r));
        assert(lists.drop_first() =~= refs.skip(i + 1).map_values(f));
        assert(lists.first() == f(r));
        let rest = named_ids(refs.skip(i + 1));
        assert(ids == own + rest);
        let used = refs_from(refs, us, i, previous)->Ok_0;
        let more = refs_from(refs, us, i + 1, Some(last))->Ok_0;
        assert(used == run_of(r, us) + more);
        assert forall|k: int| 0 <= k < used.len() implies position_of(us, #[trigger] ids[k]) == Some(used[k]) by {
            if k < own.len() {
                assert(ids[k] == own[k]);
            } else {
                assert(ids[k] == rest[k - own.len()]);
            }
        }
    } else {
        assert(lists =~= Seq::<Seq<Seq<char>>>::empty());
    }
}

/// Accepted references use exactly the utterances that they name: one position for each
/// identifier, in their order, and the utterance there carries the identifier.
pub proof fn accepted_references_use_what_they_name(refs: Seq<SourceRefV1>, us: Seq<Utterance>)
    requires
        refs_outcome(refs, us) is Ok,
    ensures
        ({
            let used = refs_outcome(refs, us)->Ok_0;
            &&& used.len() == named_ids(refs).len()
            &&& forall|k: int|
                0 <= k < used.len() ==> 0 <= #[trigger] used[k] < us.len() && us[used[k]].id@ == named_ids(refs)[k]
            &&& forall|j: int, k: int| 0 <= j < k < used.len() ==> used[j] < used[k]
        }),
{
    references_from_name_positions(refs, us, 0, None);
    accepted_references_lead_back(refs, us);
    assert(refs.skip(0) =~= refs);
    let used = refs_outcome(refs, us)->Ok_0;
    let ids = named_ids(refs);
    assert forall|k: int| 0 <= k < used.len() implies 0 <= #[trigger] used[k] < us.len() && us[used[k]].id@
        == ids[k] by {
        assert(position_of(us, ids[k]) == Some(used[k]));
        position_holds_the_id(us, ids[k]);
    }
    assert forall|j: int, k: int| 0 <= j < k < used.len() implies used[j] < used[k] by {
        rising_stays(used, j, k);
    }
}

proof fn rising_stays(used: Seq<int>, j: int, k: int)
    requires
        rising(used),
        0 <= j < k < used.len(),
    ensures
        used[j] < used[k],
    decreases k - j,
{
    assert(used[k - 1] < used[k]);
    if j < k - 1 {
        rising_stays(used, j, k - 1);
    }
}

/// What the utterances at some positions say, each on a line of its own.
pub open spec fn lines_at(us: Seq<Utterance>, used: Seq<int>) -> Seq<char> {
    Seq::new(used.len(), |k: int| us[used[k]].text@.push('\n')).flatten()
}

proof fn text_behind_is_lines(ids: Seq<Seq<char>>, us: Seq<Utterance>, used: Seq<int>)
    requires
        ids.len() == used.len(),
        forall|k: int| 0 <= k < ids.len() ==> position_of(us, #[trigger] ids[k]) == Some(used[k]),
    ensures
        text_behind(ids, us) == Ok::<Seq<char>, Seq<char>>(lines_at(us, used)),
    decreases ids.len(),
{
    let lines = Seq::new(used.len(), |k: int| us[used[k]].text@.push('\n'));
    if ids.len() > 0 {
        let n = ids.len() as int;
        let fewer = used.drop_last();
        assert forall|k: int| 0 <= k < ids.drop_last().len() implies position_of(us, #[trigger] ids.drop_last()[k])
            == Some(fewer[k]) by {
            assert(ids.drop_last()[k] == ids[k]);
        }
        text_behind_is_lines(ids.drop_last(), us, fewer);
        assert(position_of(us, ids[n - 1]) == Some(used[n - 1]));
        let less = Seq::new(fewer.len(), |k: int| us[fewer[k]].text@.push('\n'));
        let last = us[used[n - 1]].text@;
        assert(lines =~= less.push(last.push('\n')));
        less.lemma_flatten_push(last.push('\n'));
        assert((lines_at(us, fewer) + last).push('\n') =~= lines_at(us, fewer) + last.push('\n'));
    } else {
        assert(lines =~= Seq::<Seq<char>>::empty());
    }
}

/// The text behind accepted references is what the utterances say that they name: all of it, in
/// order, each on its own line.
pub proof fn the_text_behind_references_is_what_was_said(refs: Seq<SourceRefV1>, us: Seq<Utterance>)
    requires
        refs_outcome(refs, us) is Ok,
    ensures
        source_text(refs, us) == Ok::<Seq<char>, Seq<char>>(lines_at(us, refs_outcome(refs, us)->Ok_0)),
{
    references_from_name_positions(refs, us, 0, None);
    assert(refs.skip(0) =~= refs);
    ids_follow_on(refs, refs.len() as int);
    assert(refs.take(refs.len() as int) =~= refs);
    text_behind_is_lines(named_ids(refs), us, refs_outcome(refs, us)->Ok_0);
}

/// References are followed exactly where every identifier in them is one of the transcript's.
pub proof fn known_identifiers_have_a_text(refs: Seq<SourceRefV1>, us: Seq<Utterance>)
    ensures
        source_text(refs, us) is Ok <==> forall|k: int|
            0 <= k < named_ids(refs).len() ==> exists|p: int|
                0 <= p < us.len() && (#[trigger] us[p]).id@ == #[trigger] named_ids(refs)[k],
{
    ids_follow_on(refs, refs.len() as int);
    assert(refs.take(refs.len() as int) =~= refs);
    let ids = named_ids(refs);
    if source_text(refs, us) is Ok {
        assert forall|k: int| 0 <= k < ids.len() implies exists|p: int|
            0 <= p < us.len() && (#[trigger] us[p]).id@ == #[trigger] ids[k] by {
            an_identifier_leads_to_its_utterance(us, ids[k]);
            if position_of(us, ids[k]) is None {
                one_unknown_is_enough(ids, us, k);
            }
            let p = position_of(us, ids[k])->0;
            assert(us[p].id@ == ids[k]);
        }
    } else if forall|k: int|
        0 <= k < ids.len() ==> exists|p: int| 0 <= p < us.len() && (#[trigger] us[p]).id@ == #[trigger] ids[k] {
        let used = Seq::new(ids.len(), |k: int| position_of(us, ids[k])->0);
        assert forall|k: int| 0 <= k < ids.len() implies position_of(us, #[trigger] ids[k]) == Some(used[k]) by {
            an_identifier_leads_to_its_utterance(us, ids[k]);
            let p = choose|p: int| 0 <= p < us.len() && (#[trigger] us[p]).id@ == ids[k];
            assert(us[p].id@ == ids[k]);
        }
        text_behind_is_lines(ids, us, used);
    }
}

proof fn a_unique_id_has_its_position(us: Seq<Utterance>, p: int)
    requires
        0 <= p < us.len(),
        forall|i: int, j: int| 0 <= i < j < us.len() ==> (#[trigger] us[i]).id@ != (#[trigger] us[j]).id@,
    ensures
        position_of(us, us[p].id@) == Some(p),
{
    an_identifier_leads_to_its_utterance(us, us[p].id@);
}

/// The reference names the utterances from `from` on, with their times.
pub open spec fn refers_to(r: SourceRefV1, us: Seq<Utterance>, from: int) -> bool {
    let n = r.utterance_ids@.len() as int;
    &&& n > 0
    &&& 0 <= from
    &&& from + n <= us.len()
    &&& forall|k: int| 0 <= k < n ==> (#[trigger] r.utterance_ids@[k])@ == us[from + k].id@
    &&& r.start_ms == us[from].start_ms
    &&& r.end_ms == us[from + n - 1].end_ms
    &&& r.start_ms <= r.end_ms
}

proof fn a_run_is_accepted(ids: Seq<Seq<char>>, us: Seq<Utterance>, first: int, k: int)
    requires
        0 <= k,
        forall|j: int| 0 <= j < ids.len() ==> position_of(us, #[trigger] ids[j]) == Some(first + j),
    ensures
        run_complaint(ids, us, first, k) is None,
    decreases ids.len() - k,
{
    if k < ids.len() {
        assert(position_of(us, ids[k]) == Some(first + k));
        a_run_is_accepted(ids, us, first, k + 1);
    }
}

proof fn good_references_from(
    refs: Seq<SourceRefV1>,
    us: Seq<Utterance>,
    froms: Seq<int>,
    i: int,
    previous: Option<int>,
)
    requires
        0 <= i <= refs.len(),
        froms.len() == refs.len(),
        forall|a: int, b: int| 0 <= a < b < us.len() ==> (#[trigger] us[a]).id@ != (#[trigger] us[b]).id@,
        forall|k: int| 0 <= k < refs.len() ==> refers_to(#[trigger] refs[k], us, froms[k]),
        forall|k: int|
            0 < k < refs.len() ==> froms[k - 1] + refs[k - 1].utterance_ids@.len() <= #[trigger] froms[k],
        previous is Some && i < refs.len() ==> previous->0 < froms[i],
    ensures
        refs_from(refs, us, i, previous) is Ok,
    decreases refs.len() - i,
{
    if i < refs.len() {
        let r = refs[i];
        let ids = views(r.utterance_ids@);
        let first = froms[i];
        assert(refers_to(r, us, first));
        let n = ids.len() as int;
        assert forall|j: int| 0 <= j < ids.len() implies position_of(us, #[trigger] ids[j]) == Some(first + j) by {
            assert(ids[j] == r.utterance_ids@[j]@);
            a_unique_id_has_its_position(us, first + j);
        }
        a_run_is_accepted(ids, us, first, 0);
        assert(position_of(us, ids[0]) == Some(first));
        assert(position_of(us, ids[n - 1]) == Some(first + n - 1));
        assert(ref_complaint(r, us, previous) is None);
        if i + 1 < refs.len() {
            assert(froms[i + 1 - 1] + refs[i + 1 - 1].utterance_ids@.len() <= froms[i + 1]);
        }
        good_references_from(refs, us, froms, i + 1, Some(last_of(r, us)));
    }
}

/// References to stretches of the transcript that follow one another are accepted, whatever
/// their number and length.
pub proof fn good_references_are_accepted(refs: Seq<SourceRefV1>, us: Seq<Utterance>, froms: Seq<int>)
    requires
        froms.len() == refs.len(),
        forall|a: int, b: int| 0 <= a < b < us.len() ==> (#[trigger] us[a]).id@ != (#[trigger] us[b]).id@,
        forall|k: int| 0 <= k < refs.len() ==> refers_to(#[trigger] refs[k], us, froms[k]),
        forall|k: int|
            0 < k < refs.len() ==> froms[k - 1] + refs[k - 1].utterance_ids@.len() <= #[trigger] froms[k],
    ensures
        refs_outcome(refs, us) is Ok,
{
    good_references_from(refs, us, froms, 0, None);
}

/// A claim without references is accepted as limited; one with references is accepted exactly
/// where the utterances that it names support its title and text, or its text alone under a
/// heading that says nothing.
pub proof fn a_claim_is_held_against_what_was_said(kind: ArtifactKindV1, b: ContentBlockV1, us: Seq<Utterance>)
    ensures
        b.source_status is Limited ==> (claim_complaint(kind, b, us) is None <==> b.source_refs@.len() == 0),
        b.source_status is Mapped && refs_outcome(b.source_refs@, us) is Ok && b.title is None ==> claim_complaint(
            kind,
            b,
            us,
        ) == support_complaint(lines_at(us, refs_outcome(b.source_refs@, us)->Ok_0), seq!['\n'] + b.text@),
        b.source_status is Mapped && refs_outcome(b.source_refs@, us) is Ok && b.title is Some && kind is Highlights
            && lowered((b.title->0)@) != "highlight"@ && (b.title->0)@ != "重点"@ && (b.title->0)@ != "要点"@
            ==> claim_complaint(kind, b, us) == support_complaint(
            lines_at(us, refs_outcome(b.source_refs@, us)->Ok_0),
            (b.title->0)@ + seq!['\n'] + b.text@,
        ),
{
    reveal_strlit("");
    reveal_strlit("\n");
    assert("\n"@ =~= seq!['\n']);
    if refs_outcome(b.source_refs@, us) is Ok {
        the_text_behind_references_is_what_was_said(b.source_refs@, us);
    }
    assert(""@ + "\n"@ + b.text@ =~= seq!['\n'] + b.text@);
}

} // verus!
