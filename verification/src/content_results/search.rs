//! Searching the texts of one job.

use std::collections::BTreeMap;
use vstd::prelude::*;
use super::current::ContentSnapshotV1;
use super::record::ContentBlockV1;
use crate::funasr::Utterance;
use crate::unicode::{to_unicode_lower, to_unicode_upper, unicode_lower, unicode_upper};
use crate::text::{
    cat4, cat5, chars_of, contains, find, has, lower_text, lowered, number, parse_number, find_from,
    same, split, split_text, text, text_of, trim, trimmed, views, views_push, at, dec,
    decimal_reads_back, digit, padded, padded_reads_back,
    the_first_part_is_before_the_separator, trimming_takes_the_ends, what_is_found_is_there, white,
};

verus! {

// ---- What is asked for ----

/// What a search is for.
#[derive(Debug, Clone, PartialEq, Eq)]
pub enum SearchQuery {
    /// What is said between two times, in milliseconds.
    TimeRange(u64, u64),
    /// What a speaker says.
    Speaker(String),
    /// Where a text occurs.
    Text(String),
}

/// What a search is for, by value.
pub enum QueryView {
    TimeRange(int, int),
    Speaker(Seq<char>),
    Text(Seq<char>),
}

impl View for SearchQuery {
    type V = QueryView;

    open spec fn view(&self) -> QueryView {
        match self {
            SearchQuery::TimeRange(a, b) => QueryView::TimeRange(*a as int, *b as int),
            SearchQuery::Speaker(s) => QueryView::Speaker(s@),
            SearchQuery::Text(s) => QueryView::Text(s@),
        }
    }
}

/// An optional query, by value.
pub open spec fn query_view(q: Option<SearchQuery>) -> Option<QueryView> {
    match q {
        Some(q) => Some(q@),
        None => None,
    }
}

/// The milliseconds of a time, if they can be counted.
pub open spec fn in_ms(seconds: int) -> Option<int> {
    if seconds * 1000 <= u64::MAX {
        Some(seconds * 1000)
    } else {
        None
    }
}

/// The time that `MM:SS` or `HH:MM:SS` names, in milliseconds. The first number may be large;
/// the others stay under 60.
pub open spec fn time_point(s: Seq<char>) -> Option<int> {
    let parts = split(s, ':');
    if parts.len() == 2 {
        match (number(parts[0], u64::MAX as int), number(parts[1], u64::MAX as int)) {
            (Some(m), Some(sec)) if sec < 60 => in_ms(m * 60 + sec),
            _ => None,
        }
    } else if parts.len() == 3 {
        match (
            number(parts[0], u64::MAX as int),
            number(parts[1], u64::MAX as int),
            number(parts[2], u64::MAX as int),
        ) {
            (Some(h), Some(m), Some(sec)) if m < 60 && sec < 60 => in_ms(h * 3600 + m * 60 + sec),
            _ => None,
        }
    } else {
        None
    }
}

fn to_ms(hours: u64, minutes: u64, seconds: u64) -> (r: Option<u64>)
    ensures
        match r {
            Some(n) => in_ms(hours * 3600 + minutes * 60 + seconds) == Some(n as int),
            None => in_ms(hours * 3600 + minutes * 60 + seconds) is None,
        },
{
    let h = match hours.checked_mul(3600) {
        Some(x) => x,
        None => {
            return None;
        },
    };
    let m = match minutes.checked_mul(60) {
        Some(x) => x,
        None => {
            return None;
        },
    };
    let hm = match h.checked_add(m) {
        Some(x) => x,
        None => {
            return None;
        },
    };
    let all = match hm.checked_add(seconds) {
        Some(x) => x,
        None => {
            return None;
        },
    };
    all.checked_mul(1000)
}

/// Reads `MM:SS` or `HH:MM:SS`.
pub fn parse_time_point(input: &str) -> (r: Option<u64>)
    ensures
        match r {
            Some(n) => time_point(input@) == Some(n as int),
            None => time_point(input@) is None,
        },
{
    let parts = split_text(input, ':');
    assert(views(parts@).len() == parts@.len());
    if parts.len() == 2 {
        assert(views(parts@)[0] == parts@[0]@);
        assert(views(parts@)[1] == parts@[1]@);
        let m: u64 = match parse_number(parts[0].as_str(), u64::MAX) {
            Some(x) => x,
            None => {
                return None;
            },
        };
        let s: u64 = match parse_number(parts[1].as_str(), u64::MAX) {
            Some(x) => x,
            None => {
                return None;
            },
        };
        if s >= 60 {
            return None;
        }
        return to_ms(0, m, s);
    }
    if parts.len() == 3 {
        assert(views(parts@)[0] == parts@[0]@);
        assert(views(parts@)[1] == parts@[1]@);
        assert(views(parts@)[2] == parts@[2]@);
        let h: u64 = match parse_number(parts[0].as_str(), u64::MAX) {
            Some(x) => x,
            None => {
                return None;
            },
        };
        let m: u64 = match parse_number(parts[1].as_str(), u64::MAX) {
            Some(x) => x,
            None => {
                return None;
            },
        };
        let s: u64 = match parse_number(parts[2].as_str(), u64::MAX) {
            Some(x) => x,
            None => {
                return None;
            },
        };
        if m >= 60 || s >= 60 {
            return None;
        }
        return to_ms(h, m, s);
    }
    None
}

/// The two times that `A-B` names, where the second is not before the first.
pub open spec fn time_range(s: Seq<char>) -> Option<(int, int)> {
    match find_from(s, "-"@, 0) {
        None => None,
        Some(d) => match (time_point(trimmed(s.take(d))), time_point(trimmed(s.skip(d + 1)))) {
            (Some(a), Some(b)) if a <= b => Some((a, b)),
            _ => None,
        },
    }
}

/// Reads `A-B`.
pub fn parse_time_range(input: &str) -> (r: Option<(u64, u64)>)
    ensures
        match r {
            Some((a, b)) => time_range(input@) == Some((a as int, b as int)),
            None => time_range(input@) is None,
        },
{
    let v = chars_of(input);
    let dash: usize = match find(input, "-") {
        Some(d) => d,
        None => {
            return None;
        },
    };
    proof {
        reveal_strlit("-");
    }
    let left = text_of(&v, 0, dash);
    let right = text_of(&v, dash + 1, v.len());
    assert(left@ =~= input@.take(dash as int));
    assert(right@ =~= input@.skip(dash + 1));
    let start: u64 = match parse_time_point(trim(left.as_str())) {
        Some(x) => x,
        None => {
            return None;
        },
    };
    let end: u64 = match parse_time_point(trim(right.as_str())) {
        Some(x) => x,
        None => {
            return None;
        },
    };
    if end < start {
        return None;
    }
    Some((start, end))
}

/// The times within half a minute of `p`.
pub open spec fn around(p: int) -> QueryView {
    QueryView::TimeRange(
        if p < 30_000 {
            0
        } else {
            p - 30_000
        },
        if p + 30_000 > u64::MAX {
            u64::MAX as int
        } else {
            p + 30_000
        },
    )
}

/// The times that a search names, if it names any.
pub open spec fn timed_query(t: Seq<char>) -> Option<QueryView> {
    match time_range(t) {
        Some((a, b)) => Some(QueryView::TimeRange(a, b)),
        None => match time_point(t) {
            Some(p) => Some(around(p)),
            None => None,
        },
    }
}

fn parse_times(t: &str) -> (r: Option<SearchQuery>)
    ensures
        query_view(r) == timed_query(t@),
{
    if let Some((a, b)) = parse_time_range(t) {
        return Some(SearchQuery::TimeRange(a, b));
    }
    if let Some(p) = parse_time_point(t) {
        let start: u64 = if p < 30_000 {
            0
        } else {
            p - 30_000
        };
        let end: u64 = if p > u64::MAX - 30_000 {
            u64::MAX
        } else {
            p + 30_000
        };
        return Some(SearchQuery::TimeRange(start, end));
    }
    None
}

/// What an input asks for.
pub open spec fn query_of(input: Seq<char>) -> Option<QueryView> {
    let t = trimmed(input);
    if t.len() == 0 {
        None
    } else {
        match timed_query(t) {
            Some(q) => Some(q),
            None => Some(QueryView::Text(t)),
        }
    }
}

/// Reads what an input asks for: a span of time, a time, or else a text.
pub fn parse_search_query(input: &str) -> (r: Option<SearchQuery>)
    ensures
        query_view(r) == query_of(input@),
{
    let t = trim(input);
    if t.is_empty() {
        return None;
    }
    if let Some(q) = parse_times(t) {
        return Some(q);
    }
    Some(SearchQuery::Text(text(t)))
}

// ---- Speakers ----

/// The entries of a map in the order of their keys.
pub open spec fn in_order(list: Seq<(u32, String)>, m: Map<u32, String>) -> bool {
    &&& forall|i: int, j: int| 0 <= i < j < list.len() ==> (#[trigger] list[i]).0 < (#[trigger] list[j]).0
    &&& forall|i: int| 0 <= i < list.len() ==> m.contains_key((#[trigger] list[i]).0) && m[list[i].0] == list[i].1
    &&& forall|k: u32| #[trigger] m.contains_key(k) ==> exists|i: int| 0 <= i < list.len() && (#[trigger] list[i]).0 == k
}

/// There is one order of the keys only.
pub proof fn the_order_is_unique(a: Seq<(u32, String)>, b: Seq<(u32, String)>, m: Map<u32, String>)
    requires
        in_order(a, m),
        in_order(b, m),
    ensures
        a == b,
    decreases a.len(),
{
    if a.len() == 0 {
        if b.len() > 0 {
            assert(m.contains_key(b[0].0));
        }
    } else if b.len() == 0 {
        assert(m.contains_key(a[0].0));
    } else {
        let x = a.last();
        let y = b.last();
        assert(m.contains_key(x.0) && m.contains_key(y.0));
        let i = choose|i: int| 0 <= i < b.len() && (#[trigger] b[i]).0 == x.0;
        let j = choose|j: int| 0 <= j < a.len() && (#[trigger] a[j]).0 == y.0;
        assert(x.0 == y.0) by {
            if i < b.len() - 1 {
                assert(b[i].0 < b[b.len() - 1].0);
            }
            if j < a.len() - 1 {
                assert(a[j].0 < a[a.len() - 1].0);
            }
        }
        assert(x == y);
        let n = m.remove(x.0);
        let c = a.drop_last();
        let d = b.drop_last();
        assert forall|k: u32| #[trigger] n.contains_key(k) implies exists|i: int|
            0 <= i < c.len() && (#[trigger] c[i]).0 == k by {
            assert(m.contains_key(k));
            let i = choose|i: int| 0 <= i < a.len() && (#[trigger] a[i]).0 == k;
            assert(c[i].0 == k);
        }
        assert forall|k: u32| #[trigger] n.contains_key(k) implies exists|i: int|
            0 <= i < d.len() && (#[trigger] d[i]).0 == k by {
            assert(m.contains_key(k));
            let i = choose|i: int| 0 <= i < b.len() && (#[trigger] b[i]).0 == k;
            assert(d[i].0 == k);
        }
        assert forall|i: int| 0 <= i < c.len() implies n.contains_key((#[trigger] c[i]).0) && n[c[i].0]
            == c[i].1 by {
            assert(a[i].0 < a[a.len() - 1].0);
            assert(m.contains_key(a[i].0));
        }
        assert forall|i: int| 0 <= i < d.len() implies n.contains_key((#[trigger] d[i]).0) && n[d[i].0]
            == d[i].1 by {
            assert(b[i].0 < b[b.len() - 1].0);
            assert(m.contains_key(b[i].0));
        }
        assert forall|i: int, j: int| 0 <= i < j < c.len() implies (#[trigger] c[i]).0 < (#[trigger] c[j]).0 by {
            assert(a[i].0 < a[j].0);
        }
        assert forall|i: int, j: int| 0 <= i < j < d.len() implies (#[trigger] d[i]).0 < (#[trigger] d[j]).0 by {
            assert(b[i].0 < b[j].0);
        }
        the_order_is_unique(c, d, n);
        assert(a =~= c.push(x));
        assert(b =~= d.push(y));
    }
}

/// Lists the speakers in the order of their numbers.
pub fn speakers_in_order(speakers: &BTreeMap<u32, String>) -> (r: Vec<(u32, String)>)
    ensures
        in_order(r@, speakers@),
{
    broadcast use vstd::std_specs::btree::group_btree_axioms;
    broadcast use vstd::laws_cmp::group_laws_cmp;

    assert(vstd::std_specs::btree::key_obeys_cmp_spec::<u32>());
    let entries = speakers.iter();
    let ghost items = vstd::std_specs::iter::IteratorSpec::remaining(&entries);
    let ghost keys = items.map_values(|kv: (&u32, &String)| *kv.0);
    let mut out: Vec<(u32, String)> = Vec::new();
    for (k, name) in it: entries
        invariant
            it.seq() == items,
            out@.len() == it.index(),
            forall|i: int|
                0 <= i < out@.len() ==> (#[trigger] out@[i]).0 == *items[i].0 && out@[i].1 == *items[i].1,
    {
        out.push((*k, name.clone()));
    }
    proof {
        assert(out@.len() == items.len());
        assert forall|i: int, j: int| 0 <= i < j < out@.len() implies (#[trigger] out@[i]).0 < (
        #[trigger] out@[j]).0 by {
            assert(vstd::std_specs::cmp::OrdSpec::cmp_spec(&keys[i], &keys[j]) is Less);
        }
        assert forall|k: u32| #[trigger] speakers@.contains_key(k) implies exists|i: int|
            0 <= i < out@.len() && (#[trigger] out@[i]).0 == k by {
            assert(items.contains((&k, &speakers@[k])));
            let i = choose|i: int| 0 <= i < items.len() && items[i] == (&k, &speakers@[k]);
            assert(out@[i].0 == k);
        }
    }
    out
}

/// The speakers of a map, in the order of their numbers.
pub open spec fn ordered(m: Map<u32, String>) -> Seq<(u32, String)> {
    choose|list: Seq<(u32, String)>| in_order(list, m)
}

/// A name and a search word name the same speaker: one occurs in the other, in ASCII without
/// regard to case.
pub open spec fn names(name: Seq<char>, t: Seq<char>) -> bool {
    has(lowered(name), lowered(t)) || has(lowered(t), lowered(name))
}

/// The first speaker from the `i`-th on that a search word names.
pub open spec fn named_from(list: Seq<(u32, String)>, t: Seq<char>, i: int) -> Option<Seq<char>>
    decreases list.len() - i,
{
    if i < 0 || i >= list.len() {
        None
    } else if names(list[i].1@, t) {
        Some(list[i].1@)
    } else {
        named_from(list, t, i + 1)
    }
}

/// What an input asks for, where there are speakers to ask for.
pub open spec fn query_with(input: Seq<char>, speakers: Seq<(u32, String)>) -> Option<QueryView> {
    let t = trimmed(input);
    if t.len() == 0 {
        None
    } else {
        match timed_query(t) {
            Some(q) => Some(q),
            None => match named_from(speakers, t, 0) {
                Some(name) => Some(QueryView::Speaker(name)),
                None => Some(QueryView::Text(t)),
            },
        }
    }
}

fn find_named(list: &Vec<(u32, String)>, t: &str) -> (r: Option<String>)
    ensures
        match r {
            Some(name) => named_from(list@, t@, 0) == Some(name@),
            None => named_from(list@, t@, 0) is None,
        },
{
    let lower = lower_text(t);
    let mut i: usize = 0;
    while i < list.len()
        invariant
            i <= list@.len(),
            lower@ == lowered(t@),
            named_from(list@, t@, 0) == named_from(list@, t@, i as int),
        decreases list@.len() - i,
    {
        let name = lower_text(list[i].1.as_str());
        if contains(name.as_str(), lower.as_str()) || contains(lower.as_str(), name.as_str()) {
            return Some(list[i].1.clone());
        }
        i += 1;
    }
    None
}

/// Reads what an input asks for: a span of time, a time, a speaker, or else a text.
pub fn parse_search_query_with_speakers(input: &str, speakers: &BTreeMap<u32, String>) -> (r: Option<
    SearchQuery,
>)
    ensures
        query_view(r) == query_with(input@, ordered(speakers@)),
{
    let t = trim(input);
    if t.is_empty() {
        return None;
    }
    if let Some(q) = parse_times(t) {
        return Some(q);
    }
    let list = speakers_in_order(speakers);
    proof {
        the_order_is_unique(list@, ordered(speakers@), speakers@);
    }
    if let Some(name) = find_named(&list, t) {
        return Some(SearchQuery::Speaker(name));
    }
    Some(SearchQuery::Text(text(t)))
}

// ---- Matching without regard to case ----

/// Two texts are the same but for case: one of their two foldings agrees.
pub open spec fn alike(a: Seq<char>, b: Seq<char>) -> bool {
    unicode_lower(a) == unicode_lower(b) || unicode_upper(a) == unicode_upper(b)
}

/// The fewest characters that a match is looked for in.
pub open spec fn least(query: int) -> int {
    if query <= 2 {
        1
    } else {
        query - 1
    }
}

/// A part of a text of `n` characters that is held against a query: as long as the query, give
/// or take one character, or what is left of the text where that is shorter.
pub open spec fn candidate(n: int, query: int, i: int, e: int) -> bool {
    0 <= i < e <= n && (least(query) <= e - i <= query + 1 || (e == n && e - i < least(query)))
}

/// The first part of a text, from the part that begins at `i` with `len` characters on, that is
/// the same as the query but for case.
pub open spec fn match_from(s: Seq<char>, query: Seq<char>, i: int, len: int) -> Option<(int, int)>
    decreases s.len() - i, query.len() + 2 - len,
{
    let n = s.len() as int;
    if i < 0 || i >= n {
        None
    } else if len > query.len() + 1 {
        match_from(s, query, i + 1, least(query.len() as int))
    } else {
        let e = if i + len < n {
            i + len
        } else {
            n
        };
        if alike(s.subrange(i, e), query) {
            Some((i, e))
        } else if i + len >= n {
            match_from(s, query, i + 1, least(query.len() as int))
        } else {
            match_from(s, query, i, len + 1)
        }
    }
}

/// Where a query first occurs in a text, without regard to case.
pub open spec fn match_of(s: Seq<char>, query: Seq<char>) -> Option<(int, int)> {
    if query.len() == 0 || s.len() == 0 {
        None
    } else {
        match_from(s, query, 0, least(query.len() as int))
    }
}

/// A part is looked at before another: it begins earlier, or at the same place and is shorter.
pub open spec fn sooner(j: int, f: int, i: int, e: int) -> bool {
    j < i || (j == i && f < e)
}

proof fn match_from_is_first(s: Seq<char>, query: Seq<char>, i: int, len: int)
    requires
        query.len() > 0,
        0 <= i,
        least(query.len() as int) <= len,
        len > least(query.len() as int) ==> i + len <= s.len() || len > query.len() + 1,
    ensures
        match match_from(s, query, i, len) {
            Some((a, b)) => candidate(s.len() as int, query.len() as int, a, b) && alike(
                s.subrange(a, b),
                query,
            ) && !sooner(a, b, i, i + 1) && forall|j: int, f: int|
                candidate(s.len() as int, query.len() as int, j, f) && (j > i || (j == i && (f - i >= len
                    || len == least(query.len() as int)))) && sooner(j, f, a, b) ==> !#[trigger] alike(
                    s.subrange(j, f),
                    query,
                ),
            None => forall|j: int, f: int|
                candidate(s.len() as int, query.len() as int, j, f) && (j > i || (j == i && (f - i >= len
                    || len == least(query.len() as int)))) ==> !#[trigger] alike(s.subrange(j, f), query),
        },
    decreases s.len() - i, query.len() + 2 - len,
{
    let n = s.len() as int;
    let q = query.len() as int;
    if i < n {
        if len > q + 1 {
            match_from_is_first(s, query, i + 1, least(q));
        } else {
            let e = if i + len < n {
                i + len
            } else {
                n
            };
            if !alike(s.subrange(i, e), query) {
                if i + len >= n {
                    match_from_is_first(s, query, i + 1, least(q));
                } else {
                    match_from_is_first(s, query, i, len + 1);
                }
            }
        }
    }
}

/// A match is the first of all the parts that are held against the query, and there is none
/// only where no part agrees.
pub proof fn the_match_is_the_first(s: Seq<char>, query: Seq<char>)
    requires
        s.len() > 0,
        query.len() > 0,
    ensures
        match match_of(s, query) {
            Some((a, b)) => candidate(s.len() as int, query.len() as int, a, b) && alike(
                s.subrange(a, b),
                query,
            ) && forall|j: int, f: int|
                candidate(s.len() as int, query.len() as int, j, f) && sooner(j, f, a, b)
                    ==> !#[trigger] alike(s.subrange(j, f), query),
            None => forall|j: int, f: int|
                candidate(s.len() as int, query.len() as int, j, f) ==> !#[trigger] alike(
                    s.subrange(j, f),
                    query,
                ),
        },
{
    match_from_is_first(s, query, 0, least(query.len() as int));
}

/// A pair of positions, by value.
pub open spec fn span(r: Option<(usize, usize)>) -> Option<(int, int)> {
    match r {
        Some((a, b)) => Some((a as int, b as int)),
        None => None,
    }
}

/// Finds where a query first occurs in a text, without regard to case. Positions count
/// characters.
pub fn find_case_insensitive_match(s: &str, query: &str) -> (r: Option<(usize, usize)>)
    ensures
        span(r) == match_of(s@, query@),
        r matches Some((a, b)) ==> a < b <= s@.len(),
{
    if query.is_empty() || s.is_empty() {
        return None;
    }
    let v = chars_of(s);
    let q: usize = query.unicode_len();
    let lower = to_unicode_lower(query);
    let upper = to_unicode_upper(query);
    let n: usize = v.len();
    let low: usize = if q <= 2 {
        1
    } else {
        q - 1
    };
    let mut i: usize = 0;
    let mut len: usize = low;
    while i < n
        invariant
            v@ == s@,
            n == v@.len(),
            q == query@.len(),
            q > 0,
            lower@ == unicode_lower(query@),
            upper@ == unicode_upper(query@),
            low == least(q as int),
            low <= len,
            len <= n || len == low,
            i <= n,
            match_of(s@, query@) == match_from(s@, query@, i as int, len as int),
        decreases n - i, q + 2 - len,
    {
        if len - 1 > q {
            i += 1;
            len = low;
        } else {
            let e: usize = if len < n - i {
                i + len
            } else {
                n
            };
            let part = text_of(&v, i, e);
            let part_lower = to_unicode_lower(part.as_str());
            let part_upper = to_unicode_upper(part.as_str());
            if same(part_lower.as_str(), lower.as_str()) || same(part_upper.as_str(), upper.as_str()) {
                return Some((i, e));
            }
            if len >= n - i {
                i += 1;
                len = low;
            } else {
                len += 1;
            }
        }
    }
    None
}

// ---- What is shown of a match ----

/// The end of a sentence.
pub open spec fn stop(c: char) -> bool {
    c == '。' || c == '\n'
}

/// Where the sentence around position `i` begins.
pub open spec fn sentence_start(s: Seq<char>, i: int) -> int
    decreases i,
{
    if i <= 0 || stop(s[i - 1]) {
        i
    } else {
        sentence_start(s, i - 1)
    }
}

/// Where the sentence around position `i` ends.
pub open spec fn sentence_end(s: Seq<char>, i: int) -> int
    decreases s.len() - i,
{
    if i >= s.len() {
        s.len() as int
    } else if stop(s[i]) {
        i + 1
    } else {
        sentence_end(s, i + 1)
    }
}

/// The first characters of a text, as many as are shown where nothing matches.
pub open spec fn opening(s: Seq<char>) -> Seq<char> {
    if s.len() <= 80 {
        s
    } else {
        s.take(80)
    }
}

/// What is shown of a text: the sentence of the match, the match marked in it; or the opening
/// of the text.
pub open spec fn snippet(s: Seq<char>, found: Option<(int, int)>) -> Seq<char> {
    match found {
        Some((a, b)) => trimmed(
            s.subrange(sentence_start(s, a), a) + "【"@ + s.subrange(a, b) + "】"@ + s.subrange(
                b,
                sentence_end(s, b),
            ),
        ),
        None => opening(s),
    }
}

fn start_of_sentence(v: &Vec<char>, i: usize) -> (r: usize)
    requires
        i <= v@.len(),
    ensures
        r <= i,
        r == sentence_start(v@, i as int),
{
    let mut k: usize = i;
    while k > 0 && !(v[k - 1] == '。' || v[k - 1] == '\n')
        invariant
            k <= i <= v@.len(),
            sentence_start(v@, i as int) == sentence_start(v@, k as int),
        decreases k,
    {
        k -= 1;
    }
    k
}

fn end_of_sentence(v: &Vec<char>, i: usize) -> (r: usize)
    requires
        i <= v@.len(),
    ensures
        i <= r <= v@.len(),
        r == sentence_end(v@, i as int),
{
    let mut k: usize = i;
    while k < v.len() && !(v[k] == '。' || v[k] == '\n')
        invariant
            i <= k <= v@.len(),
            sentence_end(v@, i as int) == sentence_end(v@, k as int),
        decreases v@.len() - k,
    {
        k += 1;
    }
    if k < v.len() {
        k + 1
    } else {
        k
    }
}

/// Shows a text around a match at the given characters, or its opening where there is none.
pub fn snippet_at(s: &str, found: Option<(usize, usize)>) -> (r: String)
    requires
        found matches Some((a, b)) ==> a <= b <= s@.len(),
    ensures
        r@ == snippet(s@, span(found)),
{
    let v = chars_of(s);
    match found {
        Some((a, b)) => {
            let from: usize = start_of_sentence(&v, a);
            let to: usize = end_of_sentence(&v, b);
            let before = text_of(&v, from, a);
            let matched = text_of(&v, a, b);
            let after = text_of(&v, b, to);
            let all = cat5(before.as_str(), "【", matched.as_str(), "】", after.as_str());
            text(trim(all.as_str()))
        },
        None => {
            if v.len() <= 80 {
                text(s)
            } else {
                let r = text_of(&v, 0, 80);
                assert(r@ =~= s@.take(80));
                r
            }
        },
    }
}

/// Shows a text around the first occurrence of a query.
pub fn highlight_snippet(s: &str, query: &str) -> (r: String)
    ensures
        r@ == snippet(s@, match_of(s@, query@)),
{
    let found = find_case_insensitive_match(s, query);
    snippet_at(s, found)
}

// ---- Hits ----

/// Where a hit was found.
#[derive(Debug, Clone, Copy, PartialEq, Eq, Structural)]
pub enum SearchLayer {
    RawTranscript,
    FaithfulText,
    Speaker,
}

impl SearchLayer {
    /// The name of a layer.
    pub open spec fn label_text(self) -> Seq<char> {
        match self {
            SearchLayer::RawTranscript => "原始稿"@,
            SearchLayer::FaithfulText => "忠实正文"@,
            SearchLayer::Speaker => "说话人"@,
        }
    }

    /// The name of a layer.
    pub fn label(self) -> (r: &'static str)
        ensures
            r@ == self.label_text(),
    {
        match self {
            SearchLayer::RawTranscript => "原始稿",
            SearchLayer::FaithfulText => "忠实正文",
            SearchLayer::Speaker => "说话人",
        }
    }
}

/// One result of a search.
#[derive(Debug, Clone, PartialEq, Eq)]
pub struct SearchHit {
    pub layer: SearchLayer,
    pub snippet: String,
    pub start_ms: u64,
    pub end_ms: u64,
    pub has_source_refs: bool,
}

/// One result of a search, by value.
pub struct HitView {
    pub layer: SearchLayer,
    pub snippet: Seq<char>,
    pub start_ms: u64,
    pub end_ms: u64,
    pub has_source_refs: bool,
}

impl View for SearchHit {
    type V = HitView;

    open spec fn view(&self) -> HitView {
        HitView {
            layer: self.layer,
            snippet: self.snippet@,
            start_ms: self.start_ms,
            end_ms: self.end_ms,
            has_source_refs: self.has_source_refs,
        }
    }
}

/// A hit in the transcript.
pub open spec fn raw_hit(layer: SearchLayer, u: Utterance, shown: Seq<char>) -> HitView {
    HitView {
        layer,
        snippet: shown,
        start_ms: u.start_ms,
        end_ms: u.end_ms,
        has_source_refs: true,
    }
}

/// A hit in the faithful text: it names the time of the block's first source.
pub open spec fn block_hit(b: ContentBlockV1, shown: Seq<char>) -> HitView {
    HitView {
        layer: SearchLayer::FaithfulText,
        snippet: shown,
        start_ms: if b.source_refs@.len() > 0 {
            b.source_refs@[0].start_ms
        } else {
            0
        },
        end_ms: if b.source_refs@.len() > 0 {
            b.source_refs@[0].end_ms
        } else {
            0
        },
        has_source_refs: b.source_refs@.len() > 0,
    }
}

/// What the first `n` utterances hold between two times.
pub open spec fn raw_in_range(us: Seq<Utterance>, start: u64, end: u64, n: int) -> Seq<HitView>
    decreases n,
{
    if n <= 0 {
        Seq::empty()
    } else {
        let hits = raw_in_range(us, start, end, n - 1);
        let u = us[n - 1];
        if u.end_ms >= start && u.start_ms <= end {
            hits.push(raw_hit(SearchLayer::RawTranscript, u, u.text@))
        } else {
            hits
        }
    }
}

/// One of a block's sources lies between two times.
pub open spec fn touches(b: ContentBlockV1, start: u64, end: u64) -> bool {
    exists|i: int|
        0 <= i < b.source_refs@.len() && (#[trigger] b.source_refs@[i]).end_ms >= start
            && b.source_refs@[i].start_ms <= end
}

/// What the first `n` blocks hold between two times.
pub open spec fn blocks_in_range(bs: Seq<ContentBlockV1>, start: u64, end: u64, n: int) -> Seq<HitView>
    decreases n,
{
    if n <= 0 {
        Seq::empty()
    } else {
        let hits = blocks_in_range(bs, start, end, n - 1);
        if touches(bs[n - 1], start, end) {
            hits.push(block_hit(bs[n - 1], bs[n - 1].text@))
        } else {
            hits
        }
    }
}

/// What the first `n` utterances hold of a query.
pub open spec fn raw_with_text(us: Seq<Utterance>, query: Seq<char>, n: int) -> Seq<HitView>
    decreases n,
{
    if n <= 0 {
        Seq::empty()
    } else {
        let hits = raw_with_text(us, query, n - 1);
        let u = us[n - 1];
        match match_of(u.text@, query) {
            Some(m) => hits.push(raw_hit(SearchLayer::RawTranscript, u, snippet(u.text@, Some(m)))),
            None => hits,
        }
    }
}

/// What the first `n` blocks hold of a query.
pub open spec fn blocks_with_text(bs: Seq<ContentBlockV1>, query: Seq<char>, n: int) -> Seq<HitView>
    decreases n,
{
    if n <= 0 {
        Seq::empty()
    } else {
        let hits = blocks_with_text(bs, query, n - 1);
        let b = bs[n - 1];
        match match_of(b.text@, query) {
            Some(m) => hits.push(block_hit(b, snippet(b.text@, Some(m)))),
            None => hits,
        }
    }
}

/// The speaker of an utterance carries a name that holds the search word, in ASCII without
/// regard to case.
pub open spec fn spoken_by(u: Utterance, speakers: Map<u32, String>, name: Seq<char>) -> bool {
    speakers.contains_key(u.speaker_id) && has(lowered(speakers[u.speaker_id]@), lowered(name))
}

/// What the speakers of that name say in the first `n` utterances.
pub open spec fn said_by(us: Seq<Utterance>, speakers: Map<u32, String>, name: Seq<char>, n: int) -> Seq<HitView>
    decreases n,
{
    if n <= 0 {
        Seq::empty()
    } else {
        let hits = said_by(us, speakers, name, n - 1);
        let u = us[n - 1];
        if spoken_by(u, speakers, name) {
            hits.push(
                raw_hit(
                    SearchLayer::Speaker,
                    u,
                    "【"@ + speakers[u.speaker_id]@ + "】: "@ + u.text@,
                ),
            )
        } else {
            hits
        }
    }
}

/// The blocks of the faithful text that is in force.
pub open spec fn faithful_blocks(s: ContentSnapshotV1) -> Seq<ContentBlockV1> {
    match s.current.slots.faithful_text.current {
        Some(r) => r.blocks@,
        None => Seq::empty(),
    }
}

/// What a search finds.
pub open spec fn hits_of(s: ContentSnapshotV1, speakers: Map<u32, String>, query: QueryView) -> Seq<HitView> {
    let us = s.evidence.utterances@;
    let bs = faithful_blocks(s);
    match query {
        QueryView::TimeRange(a, b) => raw_in_range(us, a as u64, b as u64, us.len() as int)
            + blocks_in_range(bs, a as u64, b as u64, bs.len() as int),
        QueryView::Speaker(name) => said_by(us, speakers, name, us.len() as int),
        QueryView::Text(t) => raw_with_text(us, t, us.len() as int) + blocks_with_text(
            bs,
            t,
            bs.len() as int,
        ),
    }
}

fn block_result(b: &ContentBlockV1, shown: String) -> (r: SearchHit)
    ensures
        r@ == block_hit(*b, shown@),
{
    let (start_ms, end_ms): (u64, u64) = if b.source_refs.len() > 0 {
        (b.source_refs[0].start_ms, b.source_refs[0].end_ms)
    } else {
        (0, 0)
    };
    SearchHit {
        layer: SearchLayer::FaithfulText,
        snippet: shown,
        start_ms,
        end_ms,
        has_source_refs: b.source_refs.len() > 0,
    }
}

fn does_touch(b: &ContentBlockV1, start: u64, end: u64) -> (r: bool)
    ensures
        r == touches(*b, start, end),
{
    let mut i: usize = 0;
    while i < b.source_refs.len()
        invariant
            i <= b.source_refs@.len(),
            forall|j: int|
                0 <= j < i ==> !((#[trigger] b.source_refs@[j]).end_ms >= start && b.source_refs@[j].start_ms
                    <= end),
        decreases b.source_refs@.len() - i,
    {
        if b.source_refs[i].end_ms >= start && b.source_refs[i].start_ms <= end {
            return true;
        }
        i += 1;
    }
    false
}

/// Finds what is said between two times, in the transcript and then in the faithful text.
#[verifier::loop_isolation(false)]
pub fn search_time_range(snapshot: &ContentSnapshotV1, start: u64, end: u64) -> (r: Vec<SearchHit>)
    ensures
        views(r@) == raw_in_range(
            snapshot.evidence.utterances@,
            start,
            end,
            snapshot.evidence.utterances@.len() as int,
        ) + blocks_in_range(
            faithful_blocks(*snapshot),
            start,
            end,
            faithful_blocks(*snapshot).len() as int,
        ),
{
    let mut hits: Vec<SearchHit> = Vec::new();
    let us = &snapshot.evidence.utterances;
    let mut i: usize = 0;
    while i < us.len()
        invariant
            i <= us@.len(),
            views(hits@) =~= raw_in_range(us@, start, end, i as int),
        decreases us@.len() - i,
    {
        let u = &us[i];
        if u.end_ms >= start && u.start_ms <= end {
            let hit = SearchHit {
                layer: SearchLayer::RawTranscript,
                snippet: u.text.clone(),
                start_ms: u.start_ms,
                end_ms: u.end_ms,
                has_source_refs: true,
            };
            proof {
                views_push(hits@, hit);
            }
            hits.push(hit);
        }
        i += 1;
    }
    let ghost raw = views(hits@);
    if let Some(record) = &snapshot.current.slots.faithful_text.current {
        let bs = &record.blocks;
        let mut k: usize = 0;
        while k < bs.len()
            invariant
                k <= bs@.len(),
                views(hits@) =~= raw + blocks_in_range(bs@, start, end, k as int),
            decreases bs@.len() - k,
        {
            let b = &bs[k];
            if does_touch(b, start, end) {
                let hit = block_result(b, b.text.clone());
                proof {
                    views_push(hits@, hit);
                }
                hits.push(hit);
            }
            k += 1;
        }
    }
    hits
}

fn name_of(speakers: &BTreeMap<u32, String>, id: u32) -> (r: Option<&String>)
    ensures
        match r {
            Some(name) => speakers@.contains_key(id) && *name == speakers@[id],
            None => !speakers@.contains_key(id),
        },
{
    broadcast use vstd::std_specs::btree::group_btree_axioms;
    broadcast use vstd::laws_cmp::group_laws_cmp;

    assert(vstd::std_specs::btree::key_obeys_cmp_spec::<u32>());
    speakers.get(&id)
}

/// Finds what the speakers of a name say.
#[verifier::loop_isolation(false)]
pub fn search_speaker(snapshot: &ContentSnapshotV1, speakers: &BTreeMap<u32, String>, name: &str) -> (r: Vec<
    SearchHit,
>)
    ensures
        views(r@) == said_by(
            snapshot.evidence.utterances@,
            speakers@,
            name@,
            snapshot.evidence.utterances@.len() as int,
        ),
{
    let lower = lower_text(name);
    let mut hits: Vec<SearchHit> = Vec::new();
    let us = &snapshot.evidence.utterances;
    let mut i: usize = 0;
    while i < us.len()
        invariant
            i <= us@.len(),
            views(hits@) =~= said_by(us@, speakers@, name@, i as int),
        decreases us@.len() - i,
    {
        let u = &us[i];
        if let Some(known) = name_of(speakers, u.speaker_id) {
            let known_lower = lower_text(known.as_str());
            if contains(known_lower.as_str(), lower.as_str()) {
                let hit = SearchHit {
                    layer: SearchLayer::Speaker,
                    snippet: cat4("【", known.as_str(), "】: ", u.text.as_str()),
                    start_ms: u.start_ms,
                    end_ms: u.end_ms,
                    has_source_refs: true,
                };
                proof {
                    views_push(hits@, hit);
                }
                hits.push(hit);
            }
        }
        i += 1;
    }
    hits
}

/// Finds where a text occurs, in the transcript and then in the faithful text.
#[verifier::loop_isolation(false)]
pub fn search_text(snapshot: &ContentSnapshotV1, query: &str) -> (r: Vec<SearchHit>)
    ensures
        views(r@) == raw_with_text(
            snapshot.evidence.utterances@,
            query@,
            snapshot.evidence.utterances@.len() as int,
        ) + blocks_with_text(
            faithful_blocks(*snapshot),
            query@,
            faithful_blocks(*snapshot).len() as int,
        ),
{
    let mut hits: Vec<SearchHit> = Vec::new();
    let us = &snapshot.evidence.utterances;
    let mut i: usize = 0;
    while i < us.len()
        invariant
            i <= us@.len(),
            views(hits@) =~= raw_with_text(us@, query@, i as int),
        decreases us@.len() - i,
    {
        let u = &us[i];
        let found = find_case_insensitive_match(u.text.as_str(), query);
        if found.is_some() {
            let hit = SearchHit {
                layer: SearchLayer::RawTranscript,
                snippet: snippet_at(u.text.as_str(), found),
                start_ms: u.start_ms,
                end_ms: u.end_ms,
                has_source_refs: true,
            };
            proof {
                views_push(hits@, hit);
            }
            hits.push(hit);
        }
        i += 1;
    }
    let ghost raw = views(hits@);
    if let Some(record) = &snapshot.current.slots.faithful_text.current {
        let bs = &record.blocks;
        let mut k: usize = 0;
        while k < bs.len()
            invariant
                k <= bs@.len(),
                views(hits@) =~= raw + blocks_with_text(bs@, query@, k as int),
            decreases bs@.len() - k,
        {
            let b = &bs[k];
            let found = find_case_insensitive_match(b.text.as_str(), query);
            if found.is_some() {
                let hit = block_result(b, snippet_at(b.text.as_str(), found));
                proof {
                    views_push(hits@, hit);
                }
                hits.push(hit);
            }
            k += 1;
        }
    }
    hits
}

/// Searches the texts of a job.
pub fn search(snapshot: &ContentSnapshotV1, speakers: &BTreeMap<u32, String>, query: &SearchQuery) -> (r:
    Vec<SearchHit>)
    ensures
        views(r@) == hits_of(*snapshot, speakers@, query@),
{
    match query {
        SearchQuery::TimeRange(start, end) => search_time_range(snapshot, *start, *end),
        SearchQuery::Speaker(name) => search_speaker(snapshot, speakers, name.as_str()),
        SearchQuery::Text(t) => search_text(snapshot, t.as_str()),
    }
}

// ---- A search finds everything, and nothing else ----

proof fn take_grows<A>(s: Seq<A>, n: int)
    requires
        0 < n <= s.len(),
    ensures
        s.take(n).drop_last() == s.take(n - 1),
        s.take(n).last() == s[n - 1],
{
    assert(s.take(n).drop_last() =~= s.take(n - 1));
}

proof fn raw_with_text_has_all(us: Seq<Utterance>, query: Seq<char>, n: int)
    requires
        0 <= n <= us.len(),
    ensures
        raw_with_text(us, query, n).len() == us.take(n).filter(|u: Utterance| match_of(u.text@, query) is Some).len(),
        forall|k: int|
            #![trigger raw_with_text(us, query, n)[k]]
            0 <= k < raw_with_text(us, query, n).len() ==> {
                let h = raw_with_text(us, query, n)[k];
                let x = us.take(n).filter(|u: Utterance| match_of(u.text@, query) is Some)[k];
                &&& h.layer == SearchLayer::RawTranscript
                &&& h.start_ms == x.start_ms
                &&& h.end_ms == x.end_ms
                &&& h.has_source_refs
                &&& h.snippet == snippet(x.text@, match_of(x.text@, query))
            },
    decreases n,
{
    reveal(Seq::filter);
    if n > 0 {
        take_grows(us, n);
        raw_with_text_has_all(us, query, n - 1);
    }
}

proof fn blocks_with_text_has_all(bs: Seq<ContentBlockV1>, query: Seq<char>, n: int)
    requires
        0 <= n <= bs.len(),
    ensures
        blocks_with_text(bs, query, n).len() == bs.take(n).filter(|b: ContentBlockV1| match_of(b.text@, query) is Some).len(),
        forall|k: int|
            #![trigger blocks_with_text(bs, query, n)[k]]
            0 <= k < blocks_with_text(bs, query, n).len() ==> {
                let h = blocks_with_text(bs, query, n)[k];
                let x = bs.take(n).filter(|b: ContentBlockV1| match_of(b.text@, query) is Some)[k];
                &&& h.layer == SearchLayer::FaithfulText
                &&& h.has_source_refs == (x.source_refs@.len() > 0)
                &&& h.has_source_refs ==> h.start_ms == x.source_refs@[0].start_ms && h.end_ms
                    == x.source_refs@[0].end_ms
                &&& h.snippet == snippet(x.text@, match_of(x.text@, query))
            },
    decreases n,
{
    reveal(Seq::filter);
    if n > 0 {
        take_grows(bs, n);
        blocks_with_text_has_all(bs, query, n - 1);
    }
}

proof fn raw_in_range_has_all(us: Seq<Utterance>, start: u64, end: u64, n: int)
    requires
        0 <= n <= us.len(),
    ensures
        raw_in_range(us, start, end, n).len() == us.take(n).filter(|u: Utterance| u.end_ms >= start && u.start_ms <= end).len(),
        forall|k: int|
            #![trigger raw_in_range(us, start, end, n)[k]]
            0 <= k < raw_in_range(us, start, end, n).len() ==> {
                let h = raw_in_range(us, start, end, n)[k];
                let x = us.take(n).filter(|u: Utterance| u.end_ms >= start && u.start_ms <= end)[k];
                &&& h.layer == SearchLayer::RawTranscript
                &&& h.start_ms == x.start_ms
                &&& h.end_ms == x.end_ms
                &&& h.has_source_refs
                &&& h.snippet == x.text@
            },
    decreases n,
{
    reveal(Seq::filter);
    if n > 0 {
        take_grows(us, n);
        raw_in_range_has_all(us, start, end, n - 1);
    }
}

proof fn blocks_in_range_has_all(bs: Seq<ContentBlockV1>, start: u64, end: u64, n: int)
    requires
        0 <= n <= bs.len(),
    ensures
        blocks_in_range(bs, start, end, n).len() == bs.take(n).filter(|b: ContentBlockV1| touches(b, start, end)).len(),
        forall|k: int|
            #![trigger blocks_in_range(bs, start, end, n)[k]]
            0 <= k < blocks_in_range(bs, start, end, n).len() ==> {
                let h = blocks_in_range(bs, start, end, n)[k];
                let x = bs.take(n).filter(|b: ContentBlockV1| touches(b, start, end))[k];
                &&& h.layer == SearchLayer::FaithfulText
                &&& h.has_source_refs == (x.source_refs@.len() > 0)
                &&& h.has_source_refs ==> h.start_ms == x.source_refs@[0].start_ms && h.end_ms
                    == x.source_refs@[0].end_ms
                &&& h.snippet == x.text@
            },
    decreases n,
{
    reveal(Seq::filter);
    if n > 0 {
        take_grows(bs, n);
        blocks_in_range_has_all(bs, start, end, n - 1);
    }
}

proof fn said_by_has_all(us: Seq<Utterance>, speakers: Map<u32, String>, name: Seq<char>, n: int)
    requires
        0 <= n <= us.len(),
    ensures
        said_by(us, speakers, name, n).len() == us.take(n).filter(|u: Utterance| spoken_by(u, speakers, name)).len(),
        forall|k: int|
            #![trigger said_by(us, speakers, name, n)[k]]
            0 <= k < said_by(us, speakers, name, n).len() ==> {
                let h = said_by(us, speakers, name, n)[k];
                let x = us.take(n).filter(|u: Utterance| spoken_by(u, speakers, name))[k];
                &&& h.layer == SearchLayer::Speaker
                &&& h.start_ms == x.start_ms
                &&& h.end_ms == x.end_ms
                &&& h.has_source_refs
                &&& h.snippet == "【"@ + speakers[x.speaker_id]@ + "】: "@ + x.text@
            },
    decreases n,
{
    reveal(Seq::filter);
    if n > 0 {
        take_grows(us, n);
        said_by_has_all(us, speakers, name, n - 1);
    }
}

/// Where a text is searched, every utterance and every block of the faithful text in which it
/// occurs is one hit, in their order, with its time and the sentence of the match; nothing else is.
pub proof fn every_occurrence_is_a_hit(s: ContentSnapshotV1, speakers: Map<u32, String>, query: Seq<char>)
    ensures
        ({
            let us = s.evidence.utterances@.filter(|u: Utterance| match_of(u.text@, query) is Some);
            let bs = (match s.current.slots.faithful_text.current {
                Some(r) => r.blocks@,
                None => Seq::empty(),
            }).filter(|b: ContentBlockV1| match_of(b.text@, query) is Some);
            let hits = hits_of(s, speakers, QueryView::Text(query));
            &&& hits.len() == us.len() + bs.len()
            &&& forall|k: int|
                #![trigger hits[k]]
                0 <= k < us.len() ==> {
                    let h = hits[k];
                    let x = us[k];
                    &&& h.layer == SearchLayer::RawTranscript
                    &&& h.start_ms == x.start_ms
                    &&& h.end_ms == x.end_ms
                    &&& h.has_source_refs
                    &&& h.snippet == snippet(x.text@, match_of(x.text@, query))
                }
            &&& forall|k: int|
                #![trigger bs[k]]
                0 <= k < bs.len() ==> {
                    let h = hits[us.len() + k];
                    let x = bs[k];
                    &&& h.layer == SearchLayer::FaithfulText
                    &&& h.has_source_refs == (x.source_refs@.len() > 0)
                    &&& h.has_source_refs ==> h.start_ms == x.source_refs@[0].start_ms && h.end_ms
                        == x.source_refs@[0].end_ms
                    &&& h.snippet == snippet(x.text@, match_of(x.text@, query))
                }
        }),
{
    let all = s.evidence.utterances@;
    let blocks = faithful_blocks(s);
    raw_with_text_has_all(all, query, all.len() as int);
    blocks_with_text_has_all(blocks, query, blocks.len() as int);
    assert(all.take(all.len() as int) =~= all);
    assert(blocks.take(blocks.len() as int) =~= blocks);
    let us = all.filter(|u: Utterance| match_of(u.text@, query) is Some);
    let bs = blocks.filter(|b: ContentBlockV1| match_of(b.text@, query) is Some);
    let hits = hits_of(s, speakers, QueryView::Text(query));
    assert forall|k: int|
        #![trigger bs[k]]
        0 <= k < bs.len() implies {
        let h = hits[us.len() + k];
        let x = bs[k];
                    &&& h.layer == SearchLayer::FaithfulText
                    &&& h.has_source_refs == (x.source_refs@.len() > 0)
                    &&& h.has_source_refs ==> h.start_ms == x.source_refs@[0].start_ms && h.end_ms
                        == x.source_refs@[0].end_ms
                    &&& h.snippet == snippet(x.text@, match_of(x.text@, query))
    } by {
        assert(hits[us.len() + k] == blocks_with_text(blocks, query, blocks.len() as int)[k]);
    }
    assert forall|k: int|
        #![trigger hits[k]]
        0 <= k < us.len() implies {
        let h = hits[k];
        let x = us[k];
                    &&& h.layer == SearchLayer::RawTranscript
                    &&& h.start_ms == x.start_ms
                    &&& h.end_ms == x.end_ms
                    &&& h.has_source_refs
                    &&& h.snippet == snippet(x.text@, match_of(x.text@, query))
    } by {
        assert(hits[k] == raw_with_text(all, query, all.len() as int)[k]);
    }
}

/// Where a span of time is searched, every utterance that overlaps it and every block of the
/// faithful text with a source that does is one hit, whole and in order; nothing else is.
pub proof fn everything_in_a_span_is_a_hit(s: ContentSnapshotV1, speakers: Map<u32, String>, start: u64, end: u64)
    ensures
        ({
            let us = s.evidence.utterances@.filter(|u: Utterance| u.end_ms >= start && u.start_ms <= end);
            let bs = (match s.current.slots.faithful_text.current {
                Some(r) => r.blocks@,
                None => Seq::empty(),
            }).filter(
                |b: ContentBlockV1|
                    exists|i: int|
                        0 <= i < b.source_refs@.len() && (#[trigger] b.source_refs@[i]).end_ms >= start
                            && b.source_refs@[i].start_ms <= end,
            );
            let hits = hits_of(s, speakers, QueryView::TimeRange(start as int, end as int));
            &&& hits.len() == us.len() + bs.len()
            &&& forall|k: int|
                #![trigger hits[k]]
                0 <= k < us.len() ==> {
                    let h = hits[k];
                    let x = us[k];
                    &&& h.layer == SearchLayer::RawTranscript
                    &&& h.start_ms == x.start_ms
                    &&& h.end_ms == x.end_ms
                    &&& h.has_source_refs
                    &&& h.snippet == x.text@
                }
            &&& forall|k: int|
                #![trigger bs[k]]
                0 <= k < bs.len() ==> {
                    let h = hits[us.len() + k];
                    let x = bs[k];
                    &&& h.layer == SearchLayer::FaithfulText
                    &&& h.has_source_refs == (x.source_refs@.len() > 0)
                    &&& h.has_source_refs ==> h.start_ms == x.source_refs@[0].start_ms && h.end_ms
                        == x.source_refs@[0].end_ms
                    &&& h.snippet == x.text@
                }
        }),
{
    let all = s.evidence.utterances@;
    let blocks = faithful_blocks(s);
    raw_in_range_has_all(all, start, end, all.len() as int);
    blocks_in_range_has_all(blocks, start, end, blocks.len() as int);
    assert(all.take(all.len() as int) =~= all);
    assert(blocks.take(blocks.len() as int) =~= blocks);
    let us = all.filter(|u: Utterance| u.end_ms >= start && u.start_ms <= end);
    let p = |b: ContentBlockV1| touches(b, start, end);
    let q = |b: ContentBlockV1|
        exists|i: int|
            0 <= i < b.source_refs@.len() && (#[trigger] b.source_refs@[i]).end_ms >= start
                && b.source_refs@[i].start_ms <= end;
    assert(p =~= q);
    let bs = blocks.filter(q);
    let hits = hits_of(s, speakers, QueryView::TimeRange(start as int, end as int));
    assert forall|k: int|
        #![trigger bs[k]]
        0 <= k < bs.len() implies {
        let h = hits[us.len() + k];
        let x = bs[k];
                    &&& h.layer == SearchLayer::FaithfulText
                    &&& h.has_source_refs == (x.source_refs@.len() > 0)
                    &&& h.has_source_refs ==> h.start_ms == x.source_refs@[0].start_ms && h.end_ms
                        == x.source_refs@[0].end_ms
                    &&& h.snippet == x.text@
    } by {
        assert(hits[us.len() + k] == blocks_in_range(blocks, start, end, blocks.len() as int)[k]);
    }
    assert forall|k: int|
        #![trigger hits[k]]
        0 <= k < us.len() implies {
        let h = hits[k];
        let x = us[k];
                    &&& h.layer == SearchLayer::RawTranscript
                    &&& h.start_ms == x.start_ms
                    &&& h.end_ms == x.end_ms
                    &&& h.has_source_refs
                    &&& h.snippet == x.text@
    } by {
        assert(hits[k] == raw_in_range(all, start, end, all.len() as int)[k]);
    }
}

/// Where a speaker is searched, every utterance of a speaker whose name holds the word, whatever
/// its case, is one hit under the speaker's name, in order; nothing else is.
pub proof fn every_word_of_a_speaker_is_a_hit(s: ContentSnapshotV1, speakers: Map<u32, String>, name: Seq<char>)
    ensures
        ({
            let us = s.evidence.utterances@.filter(
                |u: Utterance|
                    speakers.contains_key(u.speaker_id) && has(lowered(speakers[u.speaker_id]@), lowered(name)),
            );
            let hits = hits_of(s, speakers, QueryView::Speaker(name));
            &&& hits.len() == us.len()
            &&& forall|k: int|
                #![trigger hits[k]]
                0 <= k < us.len() ==> {
                    let h = hits[k];
                    let x = us[k];
                    &&& h.layer == SearchLayer::Speaker
                    &&& h.start_ms == x.start_ms
                    &&& h.end_ms == x.end_ms
                    &&& h.has_source_refs
                    &&& h.snippet == "【"@ + speakers[x.speaker_id]@ + "】: "@ + x.text@
                }
        }),
{
    let all = s.evidence.utterances@;
    said_by_has_all(all, speakers, name, all.len() as int);
    assert(all.take(all.len() as int) =~= all);
    let p = |u: Utterance| spoken_by(u, speakers, name);
    let q = |u: Utterance|
        speakers.contains_key(u.speaker_id) && has(lowered(speakers[u.speaker_id]@), lowered(name));
    assert(p =~= q);
}

/// A text that holds the query, or something that differs from it in case only, is always found,
/// there or earlier; and what is found is the query but for case.
pub proof fn an_occurrence_is_found(a: Seq<char>, part: Seq<char>, b: Seq<char>, query: Seq<char>)
    requires
        query.len() > 0,
        part.len() > 0,
        query.len() - 1 <= part.len() <= query.len() + 1,
        unicode_lower(part) == unicode_lower(query) || unicode_upper(part) == unicode_upper(query),
    ensures
        match match_of(a + part + b, query) {
            Some((i, e)) => {
                &&& 0 <= i <= a.len()
                &&& i < e <= a.len() + part.len() + b.len()
                &&& unicode_lower((a + part + b).subrange(i, e)) == unicode_lower(query) || unicode_upper(
                    (a + part + b).subrange(i, e),
                ) == unicode_upper(query)
            },
            None => false,
        },
{
    let s = a + part + b;
    let i = a.len() as int;
    let e = i + part.len() as int;
    assert(s.subrange(i, e) =~= part);
    the_match_is_the_first(s, query);
    assert(candidate(s.len() as int, query.len() as int, i, e));
    assert(alike(s.subrange(i, e), query));
}

proof fn a_core_survives_trimming(s: Seq<char>, i: int, e: int)
    requires
        0 <= i < e <= s.len(),
        !white(s[i]),
        !white(s[e - 1]),
    ensures
        has(trimmed(s), s.subrange(i, e)),
{
    let (l, r) = trimming_takes_the_ends(s);
    let t = trimmed(s);
    assert(l.len() <= i) by {
        if i < l.len() {
            assert(l[i] == s[i]);
        }
    }
    assert(e <= l.len() + t.len()) by {
        if e > l.len() + t.len() {
            assert(r[e - 1 - l.len() - t.len()] == s[e - 1]);
        }
    }
    let j = i - l.len();
    assert(t.subrange(j, j + (e - i)) =~= s.subrange(i, e));
    assert(at(t, s.subrange(i, e), j));
}

proof fn sentence_reaches(s: Seq<char>, a: int)
    requires
        0 <= a <= s.len(),
    ensures
        0 <= sentence_start(s, a) <= a,
        forall|k: int| sentence_start(s, a) <= k < a ==> (#[trigger] s[k]) != '。' && s[k] != '\n',
        sentence_start(s, a) > 0 ==> s[sentence_start(s, a) - 1] == '。' || s[sentence_start(s, a) - 1] == '\n',
    decreases a,
{
    if a > 0 && !stop(s[a - 1]) {
        sentence_reaches(s, a - 1);
    }
}

proof fn sentence_closes(s: Seq<char>, b: int)
    requires
        0 <= b <= s.len(),
    ensures
        b <= sentence_end(s, b) <= s.len(),
        forall|k: int| b <= k < sentence_end(s, b) - 1 ==> (#[trigger] s[k]) != '。' && s[k] != '\n',
        sentence_end(s, b) < s.len() ==> sentence_end(s, b) > b && (s[sentence_end(s, b) - 1] == '。'
            || s[sentence_end(s, b) - 1] == '\n'),
    decreases s.len() - b,
{
    if b < s.len() && !stop(s[b]) {
        sentence_closes(s, b + 1);
    }
}

/// What is shown of a match is the sentence around it, from the last full stop or line break
/// before the match to the first behind it, with the match between brackets and nothing changed
/// but the white space at the ends.
pub proof fn a_match_is_shown_in_its_sentence(s: Seq<char>, a: int, b: int) -> (r: (int, int))
    requires
        0 <= a <= b <= s.len(),
    ensures
        0 <= r.0 <= a,
        b <= r.1 <= s.len(),
        snippet(s, Some((a, b))) == trimmed(
            s.subrange(r.0, a) + "【"@ + s.subrange(a, b) + "】"@ + s.subrange(b, r.1),
        ),
        has(snippet(s, Some((a, b))), "【"@ + s.subrange(a, b) + "】"@),
        forall|k: int| r.0 <= k < a ==> (#[trigger] s[k]) != '。' && s[k] != '\n',
        forall|k: int| b <= k < r.1 - 1 ==> (#[trigger] s[k]) != '。' && s[k] != '\n',
        r.0 > 0 ==> s[r.0 - 1] == '。' || s[r.0 - 1] == '\n',
        r.1 < s.len() ==> r.1 > b && (s[r.1 - 1] == '。' || s[r.1 - 1] == '\n'),
        snippet(s, None) == s.take(if s.len() < 80 {
            s.len() as int
        } else {
            80
        }),
{
    reveal_strlit("【");
    reveal_strlit("】");
    sentence_reaches(s, a);
    sentence_closes(s, b);
    let r = (sentence_start(s, a), sentence_end(s, b));
    let core = "【"@ + s.subrange(a, b) + "】"@;
    let whole = s.subrange(r.0, a) + "【"@ + s.subrange(a, b) + "】"@ + s.subrange(b, r.1);
    let i = a - r.0;
    let e = i + core.len() as int;
    assert(whole.subrange(i, e) =~= core);
    assert(whole[i] == '【');
    assert(whole[e - 1] == '】');
    a_core_survives_trimming(whole, i, e);
    assert(s.take(s.len() as int) =~= s);
    r
}

/// The first speaker whose name holds the word, or is held by it, is the one that is meant.
pub proof fn the_first_named_speaker_is_meant(list: Seq<(u32, String)>, t: Seq<char>, i: int)
    requires
        0 <= i <= list.len(),
    ensures
        match named_from(list, t, i) {
            Some(name) => exists|k: int|
                i <= k < list.len() && (#[trigger] list[k]).1@ == name && names(name, t) && forall|j: int|
                    i <= j < k ==> !names((#[trigger] list[j]).1@, t),
            None => forall|j: int| i <= j < list.len() ==> !names((#[trigger] list[j]).1@, t),
        },
    decreases list.len() - i,
{
    if i < list.len() {
        if names(list[i].1@, t) {
            assert(list[i].1@ == named_from(list, t, i)->0);
        } else {
            the_first_named_speaker_is_meant(list, t, i + 1);
            if let Some(name) = named_from(list, t, i) {
                let k = choose|k: int|
                    i + 1 <= k < list.len() && (#[trigger] list[k]).1@ == name && names(name, t) && forall|j: int|
                        i + 1 <= j < k ==> !names((#[trigger] list[j]).1@, t);
                assert(list[k].1@ == name);
                assert(forall|j: int| i <= j < k ==> !names((#[trigger] list[j]).1@, t));
            }
        }
    }
}

// ---- Times are read as they are written ----

/// No digit is a colon or a dash.
pub proof fn no_colon(d: Seq<char>)
    requires
        forall|i: int| 0 <= i < d.len() ==> digit(#[trigger] d[i]),
    ensures
        !d.contains(':'),
        !d.contains('-'),
{
    if d.contains(':') {
        let k = choose|k: int| 0 <= k < d.len() && d[k] == ':';
        assert(digit(d[k]));
    }
    if d.contains('-') {
        let k = choose|k: int| 0 <= k < d.len() && d[k] == '-';
        assert(digit(d[k]));
    }
}

/// Minutes and seconds name a time in milliseconds, however large the minutes, where the seconds
/// stay under 60 and the time can be counted; and hours, minutes and seconds do.
pub proof fn a_time_reads_back(h: u64, m: u64, s: u64)
    ensures
        time_point(dec(m as nat) + seq![':'] + padded(dec(s as nat), 2, '0')) == (if s < 60 && (m * 60 + s) * 1000
            <= u64::MAX {
            Some((m * 60 + s) * 1000)
        } else {
            None
        }),
        time_point(
            dec(h as nat) + seq![':'] + (padded(dec(m as nat), 2, '0') + seq![':'] + padded(dec(s as nat), 2, '0')),
        ) == (if s < 60 && m < 60 && (h * 3600 + m * 60 + s) * 1000 <= u64::MAX {
            Some((h * 3600 + m * 60 + s) * 1000)
        } else {
            None
        }),
        time_point(dec(h as nat)) is None,
{
    let hs = dec(h as nat);
    let m1 = dec(m as nat);
    let m2 = padded(dec(m as nat), 2, '0');
    let s2 = padded(dec(s as nat), 2, '0');
    decimal_reads_back(h as nat);
    decimal_reads_back(m as nat);
    decimal_reads_back(s as nat);
    padded_reads_back(m as nat, 2);
    padded_reads_back(s as nat, 2);
    no_colon(hs);
    no_colon(m1);
    no_colon(m2);
    no_colon(s2);
    assert(digit(hs[0]) && digit(m1[0]) && digit(m2[0]) && digit(s2[0]));
    the_first_part_is_before_the_separator(m1, ':', s2);
    the_first_part_is_before_the_separator(s2, ':', Seq::empty());
    the_first_part_is_before_the_separator(m2, ':', s2);
    the_first_part_is_before_the_separator(hs, ':', m2 + seq![':'] + s2);
    let two = seq![m1] + seq![s2];
    assert(split(m1 + seq![':'] + s2, ':') == two);
    assert(two.len() == 2 && two[0] == m1 && two[1] == s2);
    let three = seq![hs] + (seq![m2] + seq![s2]);
    assert(split(hs + seq![':'] + (m2 + seq![':'] + s2), ':') == three);
    assert(three.len() == 3 && three[0] == hs && three[1] == m2 && three[2] == s2);
}

proof fn the_first_dash(a: Seq<char>, b: Seq<char>)
    requires
        !a.contains('-'),
    ensures
        find_from(a + seq!['-'] + b, "-"@, 0) == Some(a.len() as int),
        (a + seq!['-'] + b).take(a.len() as int) == a,
        (a + seq!['-'] + b).skip(a.len() as int + 1) == b,
{
    reveal_strlit("-");
    let s = a + seq!['-'] + b;
    let n = a.len() as int;
    assert(s.subrange(n, n + 1) =~= "-"@);
    crate::text::find_from_is_first(s, "-"@, 0);
    assert(at(s, "-"@, n));
    let d = find_from(s, "-"@, 0)->0;
    if d < n {
        assert(s.subrange(d, d + 1)[0] == '-');
        assert(a[d] == '-');
    }
    assert(s.take(n) =~= a);
    assert(s.skip(n + 1) =~= b);
}

/// Two times with a dash between them name the span from one to the other, if it does not run
/// backwards.
pub proof fn a_span_reads_back(a: Seq<char>, b: Seq<char>, p: int, q: int)
    requires
        !a.contains('-'),
        time_point(trimmed(a)) == Some(p),
        time_point(trimmed(b)) == Some(q),
    ensures
        time_range(a + seq!['-'] + b) == (if p <= q {
            Some((p, q))
        } else {
            None
        }),
{
    the_first_dash(a, b);
}

/// One time stands for the half minute before it and the half minute behind it, cut off where
/// times begin and end.
pub proof fn a_time_is_searched_around(p: u64)
    ensures
        match around(p as int) {
            QueryView::TimeRange(a, b) => {
                &&& 0 <= a <= p <= b <= u64::MAX
                &&& a == p - 30_000 || (a == 0 && p < 30_000)
                &&& b == p + 30_000 || (b == u64::MAX && p + 30_000 > u64::MAX)
            },
            _ => false,
        },
{
}

proof fn no_time_without_a_colon(s: Seq<char>)
    requires
        !s.contains(':'),
    ensures
        time_point(s) is None,
{
    the_first_part_is_before_the_separator(s, ':', Seq::empty());
}

/// An input without a colon names no time: it is searched as it is written, without the white
/// space around it; with speakers to ask for, as the speaker that it names. Only an input with
/// nothing in it asks for nothing.
pub proof fn words_are_searched_as_words(input: Seq<char>, speakers: Seq<(u32, String)>)
    ensures
        query_of(input) is None <==> trimmed(input).len() == 0,
        query_with(input, speakers) is None <==> trimmed(input).len() == 0,
        trimmed(input).len() > 0 && !input.contains(':') ==> query_of(input) == Some(
            QueryView::Text(trimmed(input)),
        ) && query_with(input, speakers) == Some(
            match named_from(speakers, trimmed(input), 0) {
                Some(name) => QueryView::Speaker(name),
                None => QueryView::Text(trimmed(input)),
            },
        ),
{
    let t = trimmed(input);
    if !input.contains(':') {
        let (l, r) = trimming_takes_the_ends(input);
        no_colon_inside(l, t, r, input);
        no_time_without_a_colon(t);
        if let Some(d) = find_from(t, "-"@, 0) {
            reveal_strlit("-");
            what_is_found_is_there(t, "-"@, d);
            let x = t.take(d);
            no_colon_inside(Seq::empty(), x, t.skip(d), t);
            let (l, r) = trimming_takes_the_ends(x);
            no_colon_inside(l, trimmed(x), r, x);
            no_time_without_a_colon(trimmed(x));
        }
    }
}

proof fn no_colon_inside(l: Seq<char>, t: Seq<char>, r: Seq<char>, s: Seq<char>)
    requires
        s =~= l + t + r,
        !s.contains(':'),
    ensures
        !t.contains(':'),
{
    if t.contains(':') {
        let k = choose|k: int| 0 <= k < t.len() && t[k] == ':';
        assert(s[l.len() + k] == ':');
    }
}

/// Nothing is found in an empty text, and an empty query finds nothing.
pub proof fn nothing_finds_nothing(s: Seq<char>, query: Seq<char>)
    ensures
        match_of(s, Seq::empty()) is None,
        match_of(Seq::empty(), query) is None,
{
}

/// A hit in the faithful text is shown at the time of its first source; one without a source is
/// shown at no time, and says so. A hit in the transcript has the time of its utterance.
pub proof fn a_hit_is_shown_at_its_time(b: ContentBlockV1, u: Utterance, layer: SearchLayer, shown: Seq<char>)
    ensures
        block_hit(b, shown).has_source_refs <==> b.source_refs@.len() >= 1,
        b.source_refs@.len() >= 1 ==> block_hit(b, shown).start_ms == b.source_refs@.first().start_ms && block_hit(
            b,
            shown,
        ).end_ms == b.source_refs@.first().end_ms,
        b.source_refs@.len() == 0 ==> block_hit(b, shown).start_ms == 0 && block_hit(b, shown).end_ms == 0,
        block_hit(b, shown).snippet == shown,
        raw_hit(layer, u, shown).snippet == shown,
        raw_hit(layer, u, shown).start_ms == u.start_ms && raw_hit(layer, u, shown).end_ms == u.end_ms,
        raw_hit(layer, u, shown).layer == layer && raw_hit(layer, u, shown).has_source_refs,
{
}

} // verus!
