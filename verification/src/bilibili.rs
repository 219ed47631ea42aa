//! Bilibili addresses and identifiers, and what the anonymous interface answers.

use vstd::prelude::*;
use crate::text::{
    ascii_alnum, at, cat2, cat3, cat5, chars_of, contains, dec, decimal, digit, digit_end,
    digit_end_bounds, digits, drop_leading, end_of_digits, find_from, find_from_is_first, has,
    is_ascii_alnum, lower, lower_text, lowered, number, opt_view, parse_number, read_decimal,
    signed_dec, signed_decimal, split, split_text, starts, starts_with, text, text_of, trim,
    trimmed, value, views, without_leading, a_part_is_found, decimal_reads_back, parts_behind,
    the_first_part_is_before_the_separator, white, white_around_is_trimmed,
};

verus! {

// ---- Addresses ----

/// A video as an address names it.
#[derive(Debug, PartialEq, Eq)]
pub struct ParsedVideo {
    /// The BV id, or `av` and digits, or `b23:` and a short code.
    pub bvid: String,
    /// The part's id, where the address gives one.
    pub cid: Option<u64>,
    /// The part, counted from 1; none means the first.
    pub page: Option<u32>,
}

/// Why an address names no video.
#[derive(Debug, PartialEq, Eq)]
pub enum ParseError {
    Empty,
    Unrecognized(String),
}

impl ParseError {
    /// The error in words.
    pub fn describe(&self) -> (r: String)
        ensures
            r@ == (match *self {
                ParseError::Empty => "empty input"@,
                ParseError::Unrecognized(s) => "not a recognizable Bilibili URL or BV id: "@ + s@,
            }),
    {
        match self {
            ParseError::Empty => text("empty input"),
            ParseError::Unrecognized(s) => cat2(
                "not a recognizable Bilibili URL or BV id: ",
                s.as_str(),
            ),
        }
    }
}

/// Every character is an ASCII letter or digit.
pub open spec fn all_alnum(s: Seq<char>) -> bool {
    forall|i: int| 0 <= i < s.len() ==> ascii_alnum(#[trigger] s[i])
}

/// The BV id in a text: twelve letters and digits from the first `bv1` on, in any case, with
/// the prefix in upper case.
pub open spec fn bvid_in(s: Seq<char>) -> Option<Seq<char>> {
    match find_from(lowered(s), "bv1"@, 0) {
        Some(i) => if i + 12 <= s.len() && all_alnum(s.subrange(i, i + 12)) {
            Some("BV"@ + s.subrange(i + 2, i + 12))
        } else {
            None
        },
        None => None,
    }
}

/// Takes the BV id out of a text.
pub fn extract_bvid(s: &str) -> (r: Option<String>)
    ensures
        opt_view(r) == bvid_in(s@),
{
    let v = chars_of(s);
    let lower = lower_text(s);
    let i: usize = match crate::text::find(lower.as_str(), "bv1") {
        Some(i) => i,
        None => {
            return None;
        },
    };
    proof {
        reveal_strlit("bv1");
    }
    if v.len() - i < 12 {
        return None;
    }
    assert(i + 12 <= v.len());
    let end: usize = i + 12;
    let mut k: usize = i;
    while k < end
        invariant
            i <= k <= end,
            end == i + 12,
            end <= v@.len(),
            v@ == s@,
            forall|j: int| i <= j < k ==> ascii_alnum(#[trigger] v@[j]),
            find_from(lowered(s@), "bv1"@, 0) == Some(i as int),
        decreases end - k,
    {
        if !is_ascii_alnum(v[k]) {
            assert(s@.subrange(i as int, i + 12)[k - i] == v@[k as int]);
            return None;
        }
        k += 1;
    }
    let rest = text_of(&v, i + 2, end);
    Some(cat2("BV", rest.as_str()))
}

/// The legacy id in a text: `av` and the digits behind it, at the start or behind `/video/`.
pub open spec fn avid_in(s: Seq<char>) -> Option<Seq<char>> {
    let t = lowered(s);
    let from = if starts(t, "av"@) {
        Some(2int)
    } else {
        match find_from(t, "/video/av"@, 0) {
            Some(i) => Some(i + 9),
            None => None,
        }
    };
    match from {
        Some(i) => if digit_end(t, i) > i {
            Some("av"@ + t.subrange(i, digit_end(t, i)))
        } else {
            None
        },
        None => None,
    }
}

/// Takes the legacy id out of a text.
pub fn extract_avid(s: &str) -> (r: Option<String>)
    ensures
        opt_view(r) == avid_in(s@),
{
    let lower = lower_text(s);
    let v = chars_of(lower.as_str());
    proof {
        reveal_strlit("av");
        reveal_strlit("/video/av");
    }
    let from: usize = if starts_with(lower.as_str(), "av") {
        2
    } else {
        match crate::text::find(lower.as_str(), "/video/av") {
            Some(i) => {
                assert(i + 9 <= v.len());
                i + 9
            },
            None => {
                return None;
            },
        }
    };
    let to: usize = end_of_digits(&v, from);
    if to == from {
        return None;
    }
    let digits = text_of(&v, from, to);
    Some(cat2("av", digits.as_str()))
}

/// A page parameter begins at `i`.
pub open spec fn page_marker(s: Seq<char>, i: int) -> bool {
    0 <= i && i + 2 < s.len() && (s[i] == '?' || s[i] == '&') && s[i + 1] == 'p' && s[i + 2] == '='
}

/// The page that the digits from `i` on name: a positive number of 32 bits.
pub open spec fn page_number(s: Seq<char>, i: int) -> Option<int> {
    let d = s.subrange(i, digit_end(s, i));
    if d.len() > 0 && 1 <= value(d) <= u32::MAX {
        Some(value(d) as int)
    } else {
        None
    }
}

/// The first page parameter from `i` on that names a page.
pub open spec fn page_from(s: Seq<char>, i: int) -> Option<int>
    decreases s.len() - i,
{
    if i < 0 || i >= s.len() {
        None
    } else if page_marker(s, i) && page_number(s, i + 3) is Some {
        page_number(s, i + 3)
    } else {
        page_from(s, i + 1)
    }
}

/// An optional page, by value.
pub open spec fn page_value(p: Option<u32>) -> Option<int> {
    match p {
        Some(n) => Some(n as int),
        None => None,
    }
}

/// Takes the page out of an address.
pub fn extract_page(s: &str) -> (r: Option<u32>)
    ensures
        page_value(r) == page_from(s@, 0),
{
    let v = chars_of(s);
    let n: usize = v.len();
    let mut i: usize = 0;
    while i < n
        invariant
            i <= n,
            n == v@.len(),
            v@ == s@,
            page_from(s@, 0) == page_from(s@, i as int),
        decreases n - i,
    {
        if n - i > 2 && (v[i] == '?' || v[i] == '&') && v[i + 1] == 'p' && v[i + 2] == '=' {
            let to: usize = end_of_digits(&v, i + 3);
            proof {
                digit_end_bounds(s@, i + 3);
            }
            if let Some(page) = read_decimal(&v, i + 3, to, u32::MAX as u64) {
                if page >= 1 {
                    return Some(page as u32);
                }
            }
        }
        i += 1;
    }
    None
}

/// The last part that is not empty of the first `n`.
pub open spec fn last_part(parts: Seq<Seq<char>>, n: int) -> Seq<char>
    decreases n,
{
    if n <= 0 {
        Seq::empty()
    } else if parts[n - 1].len() > 0 {
        parts[n - 1]
    } else {
        last_part(parts, n - 1)
    }
}

/// The code of a short link: its last part, without the query.
pub open spec fn short_code(s: Seq<char>) -> Seq<char> {
    let parts = split(s, '/');
    split(last_part(parts, parts.len() as int), '?')[0]
}

proof fn split_is_not_empty(s: Seq<char>, c: char)
    ensures
        split(s, c).len() > 0,
    decreases s.len(),
{
    if s.len() > 0 {
        split_is_not_empty(s.drop_last(), c);
    }
}

fn code_of_short_link(s: &str) -> (r: String)
    ensures
        r@ == short_code(s@),
{
    let parts = split_text(s, '/');
    let mut n: usize = parts.len();
    assert(views(parts@).len() == parts@.len());
    while n > 0 && parts[n - 1].as_str().is_empty()
        invariant
            n <= parts@.len(),
            views(parts@).len() == parts@.len(),
            last_part(views(parts@), parts@.len() as int) == last_part(views(parts@), n as int),
        decreases n,
    {
        assert(views(parts@)[n - 1] == parts@[n - 1]@);
        n -= 1;
    }
    let last = if n > 0 {
        assert(views(parts@)[n - 1] == parts@[n - 1]@);
        parts[n - 1].clone()
    } else {
        String::new()
    };
    assert(last@ == last_part(views(parts@), parts@.len() as int));
    let pieces = split_text(last.as_str(), '?');
    proof {
        split_is_not_empty(last@, '?');
        assert(views(pieces@).len() == pieces@.len());
        assert(views(pieces@)[0] == pieces@[0]@);
    }
    pieces[0].clone()
}

/// What an address names.
pub open spec fn video_in(input: Seq<char>) -> Option<Seq<char>> {
    let s = trimmed(input);
    match bvid_in(s) {
        Some(b) => Some(b),
        None => if has(s, "b23.tv"@) {
            Some("b23:"@ + short_code(s))
        } else {
            avid_in(s)
        },
    }
}

/// Reads an address, a short link or an id.
pub fn parse_url(input: &str) -> (r: Result<ParsedVideo, ParseError>)
    ensures
        match r {
            Ok(v) => trimmed(input@).len() > 0 && video_in(input@) == Some(v.bvid@) && v.cid is None
                && page_value(v.page) == page_from(trimmed(input@), 0),
            Err(ParseError::Empty) => trimmed(input@).len() == 0,
            Err(ParseError::Unrecognized(s)) => trimmed(input@).len() > 0 && video_in(input@) is None && s@
                == trimmed(input@),
        },
{
    let s = trim(input);
    if s.is_empty() {
        return Err(ParseError::Empty);
    }
    let page = extract_page(s);
    if let Some(bvid) = extract_bvid(s) {
        return Ok(ParsedVideo { bvid, cid: None, page });
    }
    if contains(s, "b23.tv") {
        let code = code_of_short_link(s);
        return Ok(ParsedVideo { bvid: cat2("b23:", code.as_str()), cid: None, page });
    }
    if let Some(avid) = extract_avid(s) {
        return Ok(ParsedVideo { bvid: avid, cid: None, page });
    }
    Err(ParseError::Unrecognized(text(s)))
}

proof fn lowered_at(s: Seq<char>, i: int)
    requires
        0 <= i < s.len(),
    ensures
        lowered(s)[i] == lower(s[i]),
{
}

/// A BV id that was read is read again as itself.
pub proof fn a_bvid_reads_back(s: Seq<char>)
    requires
        bvid_in(s) is Some,
    ensures
        bvid_in(bvid_in(s)->0) == bvid_in(s),
        (bvid_in(s)->0).len() == 12,
        all_alnum(bvid_in(s)->0),
{
    reveal_strlit("bv1");
    reveal_strlit("BV");
    let i = find_from(lowered(s), "bv1"@, 0)->0;
    find_from_is_first(lowered(s), "bv1"@, 0);
    let b = bvid_in(s)->0;
    assert(lowered(s).subrange(i, i + 3)[2] == '1');
    lowered_at(s, i + 2);
    assert(s[i + 2] == '1');
    assert(b[2] == s[i + 2]);
    let t = lowered(b);
    assert(t[0] == 'b' && t[1] == 'v' && t[2] == '1') by {
        lowered_at(b, 0);
        lowered_at(b, 1);
        lowered_at(b, 2);
    }
    assert(t.subrange(0, 3) =~= "bv1"@);
    assert(at(t, "bv1"@, 0));
    assert(find_from(t, "bv1"@, 0) == Some(0int));
    assert forall|k: int| 0 <= k < b.len() implies ascii_alnum(#[trigger] b[k]) by {
        if k >= 2 {
            assert(b[k] == s.subrange(i, i + 12)[k]);
        }
    }
    assert(b.subrange(0, 12) =~= b);
    assert("BV"@ + b.subrange(2, 12) =~= b);
}

/// A legacy id that was read is read again as itself.
pub proof fn an_avid_reads_back(s: Seq<char>)
    requires
        avid_in(s) is Some,
    ensures
        avid_in(avid_in(s)->0) == avid_in(s),
{
    reveal_strlit("av");
    reveal_strlit("/video/av");
    let t = lowered(s);
    let from: int = if starts(t, "av"@) {
        2
    } else {
        find_from(t, "/video/av"@, 0)->0 + 9
    };
    find_from_is_first(t, "/video/av"@, 0);
    let a = avid_in(s)->0;
    digit_end_bounds(t, from);
    let d = t.subrange(from, digit_end(t, from));
    assert(a == "av"@ + d);
    let u = lowered(a);
    assert(u =~= a) by {
        assert forall|k: int| 0 <= k < a.len() implies u[k] == a[k] by {
            lowered_at(a, k);
            if k >= 2 {
                assert(digit(d[k - 2]));
            }
        }
    }
    assert(u.subrange(0, 2) =~= "av"@);
    assert(starts(u, "av"@));
    run_to_the_end(u, 2);
    assert(u.subrange(2, u.len() as int) =~= d);
    assert("av"@ + d =~= a);
}

proof fn run_to_the_end(s: Seq<char>, i: int)
    requires
        0 <= i <= s.len(),
        forall|k: int| i <= k < s.len() ==> digit(#[trigger] s[k]),
    ensures
        digit_end(s, i) == s.len(),
    decreases s.len() - i,
{
    if i < s.len() {
        run_to_the_end(s, i + 1);
    }
}

/// A page that was read is positive.
pub proof fn a_page_is_positive(s: Seq<char>, i: int)
    ensures
        page_from(s, i) matches Some(p) ==> 1 <= p <= u32::MAX,
    decreases s.len() - i,
{
    if 0 <= i < s.len() && !(page_marker(s, i) && page_number(s, i + 3) is Some) {
        a_page_is_positive(s, i + 1);
    }
}

// ---- Links ----

/// The address of a video, and of a moment in it. A moment is named in whole seconds, and always
/// with the part.
pub open spec fn video_address(bvid: Seq<char>, page: u32, at_ms: Option<u64>) -> Seq<char> {
    let base = "https://www.bilibili.com/video/"@ + bvid;
    match at_ms {
        Some(ms) => base + "?p="@ + dec(page as nat) + "&t="@ + dec((ms / 1000) as nat),
        None => if page > 1 {
            base + "?p="@ + dec(page as nat)
        } else {
            base
        },
    }
}

/// The address of a video, and of a moment in it.
pub fn video_url(bvid: &str, page: u32, at_ms: Option<u64>) -> (r: String)
    ensures
        r@ == video_address(bvid@, page, at_ms),
{
    let base = cat2("https://www.bilibili.com/video/", bvid);
    let p = decimal(page as u64);
    match at_ms {
        Some(ms) => {
            let t = decimal(ms / 1000);
            cat5(base.as_str(), "?p=", p.as_str(), "&t=", t.as_str())
        },
        None => {
            if page > 1 {
                cat3(base.as_str(), "?p=", p.as_str())
            } else {
                base
            }
        },
    }
}

/// A stretch of a video.
#[derive(Debug, Clone, Copy, PartialEq, Eq, Structural)]
pub struct SourceSpan {
    pub start_ms: u64,
    pub end_ms: u64,
}

/// The stretch begins and ends with one of the given ones, and holds all of them.
pub open spec fn spans(s: SourceSpan, parts: Seq<(u64, u64)>) -> bool {
    &&& forall|i: int|
        0 <= i < parts.len() ==> s.start_ms <= (#[trigger] parts[i]).0 && parts[i].1 <= s.end_ms
    &&& exists|i: int| 0 <= i < parts.len() && (#[trigger] parts[i]).0 == s.start_ms
    &&& exists|i: int| 0 <= i < parts.len() && (#[trigger] parts[i]).1 == s.end_ms
}

/// The stretch from the earliest beginning to the latest end.
pub fn source_span(parts: &Vec<(u64, u64)>) -> (r: Option<SourceSpan>)
    ensures
        match r {
            Some(s) => spans(s, parts@),
            None => parts@.len() == 0,
        },
{
    if parts.len() == 0 {
        return None;
    }
    let mut start_ms: u64 = parts[0].0;
    let mut end_ms: u64 = parts[0].1;
    let mut i: usize = 1;
    assert(spans(SourceSpan { start_ms, end_ms }, parts@.take(1))) by {
        let p = parts@.take(1);
        assert(p[0].0 == start_ms);
        assert(p[0].1 == end_ms);
    }
    while i < parts.len()
        invariant
            1 <= i <= parts@.len(),
            spans(SourceSpan { start_ms, end_ms }, parts@.take(i as int)),
        decreases parts@.len() - i,
    {
        let (a, b): (u64, u64) = parts[i];
        let ghost old_start = start_ms;
        let ghost old_end = end_ms;
        if a < start_ms {
            start_ms = a;
        }
        if b > end_ms {
            end_ms = b;
        }
        proof {
            let p = parts@.take(i as int);
            let q = parts@.take(i + 1);
            assert(forall|j: int| 0 <= j < i ==> p[j] == #[trigger] q[j]);
            let x = choose|x: int| 0 <= x < p.len() && (#[trigger] p[x]).0 == old_start;
            let y = choose|y: int| 0 <= y < p.len() && (#[trigger] p[y]).1 == old_end;
            assert(q[i as int] == (a, b));
            assert(q[x].0 == old_start);
            assert(q[y].1 == old_end);
            assert forall|j: int| 0 <= j < q.len() implies start_ms <= (#[trigger] q[j]).0 && q[j].1
                <= end_ms by {
                if j < i {
                    assert(p[j] == q[j]);
                }
            }
        }
        i += 1;
    }
    assert(parts@.take(parts@.len() as int) =~= parts@);
    Some(SourceSpan { start_ms, end_ms })
}

// ---- Metadata ----

/// What is known of a video.
#[derive(Debug, PartialEq, Eq)]
pub struct Metadata {
    pub bvid: String,
    pub cid: u64,
    pub title: String,
    pub up_name: String,
    pub duration_ms: u64,
}

/// Why nothing is known of a video.
#[derive(Debug, PartialEq, Eq)]
pub enum MetadataError {
    NotAccessible,
    Network(String),
}

/// Why nothing is known of a video, by value.
pub enum MetadataProblem {
    NotAccessible,
    Network(Seq<char>),
}

impl View for MetadataError {
    type V = MetadataProblem;

    open spec fn view(&self) -> MetadataProblem {
        match self {
            MetadataError::NotAccessible => MetadataProblem::NotAccessible,
            MetadataError::Network(m) => MetadataProblem::Network(m@),
        }
    }
}

impl MetadataError {
    /// The error in words.
    pub fn describe(&self) -> (r: String)
        ensures
            r@ == (match self@ {
                MetadataProblem::NotAccessible => "video not accessible anonymously"@,
                MetadataProblem::Network(m) => "network error: "@ + m,
            }),
    {
        match self {
            MetadataError::NotAccessible => text("video not accessible anonymously"),
            MetadataError::Network(m) => cat2("network error: ", m.as_str()),
        }
    }
}

/// The digits of a legacy id, where a text is nothing but `av` and digits.
pub open spec fn whole_avid(s: Seq<char>) -> Option<Seq<char>> {
    let t = lowered(s);
    if starts(t, "av"@) && t.len() > 2 && digits(t.skip(2)) {
        Some(t.skip(2))
    } else {
        None
    }
}

/// The address that describes a video.
pub open spec fn metadata_address(id: Seq<char>) -> Seq<char> {
    match whole_avid(id) {
        Some(aid) => "https://api.bilibili.com/x/web-interface/view?aid="@ + aid,
        None => "https://api.bilibili.com/x/web-interface/view?bvid="@ + id,
    }
}

/// The address that describes a video: by its legacy id where that is what is known.
pub fn metadata_api_url(video_id: &str) -> (r: String)
    ensures
        r@ == metadata_address(video_id@),
{
    let lower = lower_text(video_id);
    let v = chars_of(lower.as_str());
    proof {
        reveal_strlit("av");
    }
    if starts_with(lower.as_str(), "av") && v.len() > 2 {
        let to: usize = end_of_digits(&v, 2);
        proof {
            digit_end_bounds(v@, 2);
            if to == v@.len() {
                assert(v@.subrange(2, v@.len() as int) =~= v@.skip(2));
            } else {
                assert(v@.skip(2)[to - 2] == v@[to as int]);
            }
        }
        if to == v.len() {
            let aid = text_of(&v, 2, to);
            return cat2(
                "https://api.bilibili.com/x/web-interface/view?aid=",
                aid.as_str(),
            );
        }
    }
    cat2("https://api.bilibili.com/x/web-interface/view?bvid=", video_id)
}

/// What the interface says of a video.
#[derive(Debug)]
pub struct ViewData {
    pub bvid: String,
    pub cid: u64,
    pub title: String,
    /// The length in seconds.
    pub duration: u64,
    /// The number of parts.
    pub videos: u32,
    pub owner_name: String,
    /// The ids of the parts, in their order.
    pub page_cids: Vec<u64>,
}

/// The place of a part in the list; parts count from 1.
pub open spec fn place(page: u32) -> int {
    if page == 0 {
        0
    } else {
        page - 1
    }
}

/// The id of a part.
pub open spec fn cid_of(data: ViewData, page: u32) -> u64 {
    if place(page) < data.page_cids@.len() {
        data.page_cids@[place(page)]
    } else {
        data.cid
    }
}

/// The part that is asked for.
pub open spec fn wanted(page: Option<u32>) -> u32 {
    match page {
        Some(p) => p,
        None => 1,
    }
}

/// What a code of the interface means, if it is not 0.
pub open spec fn refusal(code: i64, words: Seq<char>) -> MetadataProblem {
    if code == -403 || code == -404 {
        MetadataProblem::NotAccessible
    } else {
        MetadataProblem::Network(words)
    }
}

/// Reads the answer of the interface on a video, for one part.
pub fn metadata_of(code: i64, data: Option<ViewData>, page: Option<u32>) -> (r: Result<
    Metadata,
    MetadataError,
>)
    requires
        data matches Some(d) ==> d.duration * 1000 <= u64::MAX,
    ensures
        match r {
            Ok(m) => {
                &&& code == 0
                &&& data is Some
                &&& wanted(page) <= (data->0).videos
                &&& m.bvid@ == (data->0).bvid@
                &&& m.cid == cid_of(data->0, wanted(page))
                &&& m.title@ == (data->0).title@
                &&& m.up_name@ == (data->0).owner_name@
                &&& m.duration_ms == (data->0).duration * 1000
            },
            Err(e) => if code != 0 {
                e@ == refusal(
                    code,
                    "bilibili code "@ + signed_dec(code as int) + " ("@ + signed_dec(code as int)
                        + " available)"@,
                )
            } else if data is None {
                e@ == MetadataProblem::Network("empty data"@)
            } else {
                e@ is NotAccessible && wanted(page) > (data->0).videos
            },
        },
{
    if code != 0 {
        if code == -403 || code == -404 {
            return Err(MetadataError::NotAccessible);
        }
        let c = signed_decimal(code);
        return Err(
            MetadataError::Network(
                cat5("bilibili code ", c.as_str(), " (", c.as_str(), " available)"),
            ),
        );
    }
    let data = match data {
        Some(d) => d,
        None => {
            return Err(MetadataError::Network(text("empty data")));
        },
    };
    let page: u32 = match page {
        Some(p) => p,
        None => 1,
    };
    if page > data.videos {
        return Err(MetadataError::NotAccessible);
    }
    let index: usize = if page == 0 {
        0
    } else {
        (page - 1) as usize
    };
    let cid: u64 = if index < data.page_cids.len() {
        data.page_cids[index]
    } else {
        data.cid
    };
    Ok(
        Metadata {
            bvid: data.bvid,
            cid,
            title: data.title,
            up_name: data.owner_name,
            duration_ms: data.duration * 1000,
        },
    )
}

// ---- Short links ----

/// The address of a short link.
pub fn short_link_url(code: &str) -> (r: String)
    ensures
        r@ == "https://b23.tv/"@ + drop_leading(code@, '/'),
{
    cat2("https://b23.tv/", without_leading(code, '/'))
}

/// Reads the answer on a short link: where it points to, or the code as it was given where it
/// does not redirect.
pub fn short_link_target(code: &str, status: u16, location: Option<String>) -> (r: Result<
    String,
    MetadataError,
>)
    ensures
        match r {
            Ok(t) => if 300 <= status < 400 {
                location is Some && t@ == (location->0)@
            } else {
                status == 200 && t@ == code@
            },
            Err(e) => if 300 <= status < 400 {
                location is None && e@ == MetadataProblem::Network("redirect without Location"@)
            } else {
                status != 200 && e@ == MetadataProblem::Network("b23.tv status "@ + dec(status as nat))
            },
        },
{
    if 300 <= status && status < 400 {
        match location {
            Some(l) => Ok(l),
            None => Err(MetadataError::Network(text("redirect without Location"))),
        }
    } else if status == 200 {
        Ok(text(code))
    } else {
        let n = decimal(status as u64);
        Err(MetadataError::Network(cat2("b23.tv status ", n.as_str())))
    }
}

// ---- Audio ----

/// One audio stream of a video.
#[derive(Debug)]
pub struct AudioStream {
    pub bandwidth: u64,
    pub base_url: Option<String>,
    pub base_url_snake: Option<String>,
}

/// The address that lists the streams of a part.
pub fn playurl_api_url(bvid: &str, cid: u64) -> (r: String)
    ensures
        r@ == "https://api.bilibili.com/x/player/playurl?bvid="@ + bvid@ + "&cid="@ + dec(cid as nat)
            + "&fnval=16&qn=64&try_look=1"@,
{
    let n = decimal(cid);
    cat5(
        "https://api.bilibili.com/x/player/playurl?bvid=",
        bvid,
        "&cid=",
        n.as_str(),
        "&fnval=16&qn=64&try_look=1",
    )
}

/// The stream at `i` has the highest bandwidth; of several, it is the last.
pub open spec fn best_at(streams: Seq<AudioStream>, i: int) -> bool {
    &&& 0 <= i < streams.len()
    &&& forall|j: int| 0 <= j < streams.len() ==> (#[trigger] streams[j]).bandwidth <= streams[i].bandwidth
    &&& forall|j: int| i < j < streams.len() ==> (#[trigger] streams[j]).bandwidth < streams[i].bandwidth
}

/// The address of a stream.
pub open spec fn stream_address(s: AudioStream) -> Option<Seq<char>> {
    match s.base_url {
        Some(u) => Some(u@),
        None => opt_view(s.base_url_snake),
    }
}

fn best_stream(streams: &Vec<AudioStream>) -> (r: Option<usize>)
    ensures
        match r {
            Some(i) => best_at(streams@, i as int),
            None => streams@.len() == 0,
        },
{
    if streams.len() == 0 {
        return None;
    }
    let mut best: usize = 0;
    let mut i: usize = 1;
    while i < streams.len()
        invariant
            0 <= best < i <= streams@.len(),
            forall|j: int| 0 <= j < i ==> (#[trigger] streams@[j]).bandwidth <= streams@[best as int].bandwidth,
            forall|j: int|
                best < j < i ==> (#[trigger] streams@[j]).bandwidth < streams@[best as int].bandwidth,
        decreases streams@.len() - i,
    {
        if streams[i].bandwidth >= streams[best].bandwidth {
            best = i;
        }
        i += 1;
    }
    Some(best)
}

/// Reads the answer of the interface on the streams of a part: the address of the best one.
/// `data` is what the answer holds, and in it the list of streams.
pub fn audio_of(code: i64, data: Option<Option<Vec<AudioStream>>>) -> (r: Result<String, MetadataError>)
    ensures
        match r {
            Ok(u) => code == 0 && data is Some && data->0 is Some && exists|i: int| #[trigger]
                best_at((data->0->0)@, i) && stream_address((data->0->0)@[i]) == Some(u@),
            Err(e) => if code != 0 {
                e@ == refusal(code, "bilibili code "@ + signed_dec(code as int) + " for playurl"@)
            } else if data is None {
                e@ == MetadataProblem::Network("empty data"@)
            } else {
                e@ is NotAccessible && (data->0 is None || (data->0->0)@.len() == 0 || exists|i: int| #[trigger]
                    best_at((data->0->0)@, i) && stream_address((data->0->0)@[i]) is None)
            },
        },
{
    if code != 0 {
        if code == -403 || code == -404 {
            return Err(MetadataError::NotAccessible);
        }
        let c = signed_decimal(code);
        return Err(MetadataError::Network(cat3("bilibili code ", c.as_str(), " for playurl")));
    }
    let streams = match data {
        None => {
            return Err(MetadataError::Network(text("empty data")));
        },
        Some(None) => {
            return Err(MetadataError::NotAccessible);
        },
        Some(Some(s)) => s,
    };
    let i: usize = match best_stream(&streams) {
        Some(i) => i,
        None => {
            return Err(MetadataError::NotAccessible);
        },
    };
    assert(best_at(streams@, i as int));
    if let Some(u) = &streams[i].base_url {
        return Ok(u.clone());
    }
    if let Some(u) = &streams[i].base_url_snake {
        return Ok(u.clone());
    }
    Err(MetadataError::NotAccessible)
}

/// Reads the status of a download.
pub fn check_download_status(status: u16) -> (r: Result<(), MetadataError>)
    ensures
        match r {
            Ok(_) => status == 200 || status == 206,
            Err(e) => if status == 403 || status == 404 {
                e@ == MetadataProblem::Network(
                    "audio URL expired/forbidden (status "@ + dec(status as nat) + ")"@,
                )
            } else {
                status != 200 && status != 206 && e@ == MetadataProblem::Network(
                    "download status "@ + dec(status as nat),
                )
            },
        },
{
    let n = decimal(status as u64);
    if status == 403 || status == 404 {
        return Err(
            MetadataError::Network(cat3("audio URL expired/forbidden (status ", n.as_str(), ")")),
        );
    }
    if status != 200 && status != 206 {
        return Err(MetadataError::Network(cat2("download status ", n.as_str())));
    }
    Ok(())
}

/// The size of a download: what was expected, or else what the server says.
pub fn download_total(expected: Option<u64>, content_length: Option<&str>) -> (r: Option<u64>)
    ensures
        r == (match expected {
            Some(n) => Some(n),
            None => match content_length {
                Some(s) => match number(s@, u64::MAX as int) {
                    Some(n) => Some(n as u64),
                    None => None,
                },
                None => None,
            },
        }),
{
    match expected {
        Some(n) => Some(n),
        None => match content_length {
            Some(s) => parse_number(s, u64::MAX),
            None => None,
        },
    }
}

/// How much is written between two reports.
pub const REPORT_STEP: u64 = 262144;

/// How far a download has come.
#[derive(Debug, PartialEq, Eq)]
pub struct DownloadProgress {
    pub written: u64,
    pub since_report: u64,
}

impl DownloadProgress {
    /// Nothing was written.
    pub fn new() -> (r: DownloadProgress)
        ensures
            r.written == 0,
            r.since_report == 0,
    {
        DownloadProgress { written: 0, since_report: 0 }
    }

    /// Counts `n` more bytes. A report is due once enough has come since the last one.
    pub fn add_bytes(&mut self, n: u64) -> (report: bool)
        requires
            old(self).written + n <= u64::MAX,
            old(self).since_report <= old(self).written,
        ensures
            final(self).written == old(self).written + n,
            report == (old(self).since_report + n >= REPORT_STEP),
            final(self).since_report == (if report {
                0
            } else {
                old(self).since_report + n
            }),
            final(self).since_report <= final(self).written,
    {
        self.written = self.written + n;
        self.since_report = self.since_report + n;
        if self.since_report >= REPORT_STEP {
            self.since_report = 0;
            return true;
        }
        false
    }
}

// ---- Addresses are read as they are written ----

proof fn digits_between(a: Seq<char>, d: Seq<char>, rest: Seq<char>, i: int)
    requires
        a.len() <= i <= a.len() + d.len(),
        digits(d),
        rest.len() == 0 || !(0x30 <= rest[0] as int <= 0x39),
    ensures
        digit_end(a + d + rest, i) == a.len() + d.len(),
    decreases a.len() + d.len() - i,
{
    let s = a + d + rest;
    if i < a.len() + d.len() {
        assert(s[i] == d[i - a.len()]);
        digits_between(a, d, rest, i + 1);
    } else if rest.len() > 0 {
        assert(s[i] == rest[0]);
    }
}

proof fn no_page_before(a: Seq<char>, sep: char, tail: Seq<char>, i: int)
    requires
        0 <= i <= a.len(),
        sep == '?' || sep == '&',
        forall|k: int|
            0 <= k && k + 2 < a.len() ==> !(((#[trigger] a[k]) == '?' || a[k] == '&') && a[k + 1] == 'p' && a[k + 2]
                == '='),
    ensures
        page_from(a + seq![sep, 'p', '='] + tail, i) == page_from(
            a + seq![sep, 'p', '='] + tail,
            a.len() as int,
        ),
    decreases a.len() - i,
{
    let s = a + seq![sep, 'p', '='] + tail;
    if i < a.len() {
        assert(s[i] == a[i]);
        assert(s[a.len() as int] == sep);
        assert(s[a.len() as int + 1] == 'p');
        assert(!page_marker(s, i)) by {
            if i + 2 < a.len() {
                assert(s[i + 1] == a[i + 1] && s[i + 2] == a[i + 2]);
            }
        }
        no_page_before(a, sep, tail, i + 1);
    }
}

/// The page of an address is the number behind `?p=` or `&p=`, whatever stands before and behind
/// it.
pub proof fn a_page_reads_back(a: Seq<char>, n: nat, rest: Seq<char>)
    requires
        1 <= n <= u32::MAX,
        forall|k: int|
            0 <= k && k + 2 < a.len() ==> !(((#[trigger] a[k]) == '?' || a[k] == '&') && a[k + 1] == 'p' && a[k + 2]
                == '='),
        rest.len() == 0 || !(0x30 <= rest[0] as int <= 0x39),
    ensures
        page_from(a + "?p="@ + dec(n) + rest, 0) == Some(n as int),
        page_from(a + "&p="@ + dec(n) + rest, 0) == Some(n as int),
{
    reveal_strlit("?p=");
    reveal_strlit("&p=");
    assert("?p="@ =~= seq!['?', 'p', '=']);
    assert("&p="@ =~= seq!['&', 'p', '=']);
    a_page_behind(a, '?', n, rest);
    a_page_behind(a, '&', n, rest);
}

proof fn a_page_behind(a: Seq<char>, sep: char, n: nat, rest: Seq<char>)
    requires
        1 <= n <= u32::MAX,
        sep == '?' || sep == '&',
        forall|k: int|
            0 <= k && k + 2 < a.len() ==> !(((#[trigger] a[k]) == '?' || a[k] == '&') && a[k + 1] == 'p' && a[k + 2]
                == '='),
        rest.len() == 0 || !(0x30 <= rest[0] as int <= 0x39),
    ensures
        page_from(a + seq![sep, 'p', '='] + dec(n) + rest, 0) == Some(n as int),
{
    let head = a + seq![sep, 'p', '='];
    let s = head + dec(n) + rest;
    decimal_reads_back(n);
    assert(s =~= head + (dec(n) + rest));
    no_page_before(a, sep, dec(n) + rest, 0);
    digits_between(head, dec(n), rest, head.len() as int);
    let i = a.len() as int;
    assert(s[i] == sep && s[i + 1] == 'p' && s[i + 2] == '=');
    assert(page_marker(s, i));
    assert(s.subrange(i + 3, digit_end(s, i + 3)) =~= dec(n));
}

/// Where no page parameter stands, no page is read; a page that is read stands behind one.
pub proof fn a_page_has_a_parameter(s: Seq<char>, i: int)
    requires
        0 <= i,
    ensures
        page_from(s, i) is Some ==> exists|k: int|
            i <= k && k + 3 < s.len() && ((#[trigger] s[k]) == '?' || s[k] == '&') && s[k + 1] == 'p' && s[k + 2]
                == '=' && 0x30 <= s[k + 3] as int <= 0x39,
    decreases s.len() - i,
{
    if i < s.len() {
        if page_marker(s, i) && page_number(s, i + 3) is Some {
            digit_end_bounds(s, i + 3);
            let d = s.subrange(i + 3, digit_end(s, i + 3));
            assert(digit(d[0]));
            assert(s[i + 3] == d[0]);
            assert(s[i] == '?' || s[i] == '&');
        } else {
            a_page_has_a_parameter(s, i + 1);
        }
    }
}

/// A BV id inside an address is the id of the address: the first `BV1`, in any case, and the nine
/// letters and digits behind it, which keep their case.
pub proof fn a_bvid_is_found(a: Seq<char>, code: Seq<char>, rest: Seq<char>)
    requires
        !(has(lowered(a), "bv1"@)),
        code.len() == 9,
        forall|k: int| 0 <= k < 9 ==> ascii_alnum(#[trigger] code[k]),
    ensures
        bvid_in(a + "BV1"@ + code + rest) == Some("BV1"@ + code),
        bvid_in(a + "bv1"@ + code + rest) == Some("BV1"@ + code),
        bvid_in(a) is None,
{
    reveal_strlit("BV1");
    reveal_strlit("bv1");
    a_bvid_behind(a, "BV1"@, code, rest);
    a_bvid_behind(a, "bv1"@, code, rest);
    find_from_is_first(lowered(a), "bv1"@, 0);
}

proof fn a_bvid_behind(a: Seq<char>, mark: Seq<char>, code: Seq<char>, rest: Seq<char>)
    requires
        !(has(lowered(a), "bv1"@)),
        mark.len() == 3,
        mark[0] == 'b' || mark[0] == 'B',
        mark[1] == 'v' || mark[1] == 'V',
        mark[2] == '1',
        code.len() == 9,
        forall|k: int| 0 <= k < 9 ==> ascii_alnum(#[trigger] code[k]),
    ensures
        bvid_in(a + mark + code + rest) == Some("BV1"@ + code),
{
    reveal_strlit("bv1");
    reveal_strlit("BV1");
    reveal_strlit("BV");
    let s = a + mark + code + rest;
    let t = lowered(s);
    let p = "bv1"@;
    let n = a.len() as int;
    lowered_at(s, n);
    lowered_at(s, n + 1);
    lowered_at(s, n + 2);
    assert(s[n] == mark[0] && s[n + 1] == mark[1] && s[n + 2] == mark[2]);
    assert(t[n] == 'b' && t[n + 1] == 'v' && t[n + 2] == '1');
    assert(t.subrange(n, n + 3) =~= p);
    find_from_is_first(t, p, 0);
    assert(at(t, p, n));
    let i = find_from(t, p, 0)->0;
    if i < n {
        assert(t.subrange(i, i + 3)[0] == 'b' && t.subrange(i, i + 3)[1] == 'v' && t.subrange(i, i + 3)[2] == '1');
        assert(t[i + 1] == 'v' && t[i + 2] == '1');
        assert(i + 3 <= n);
        assert(lowered(a).subrange(i, i + 3) =~= t.subrange(i, i + 3));
        assert(at(lowered(a), p, i));
    }
    assert(i == n);
    let w = s.subrange(n, n + 12);
    assert forall|k: int| 0 <= k < w.len() implies ascii_alnum(#[trigger] w[k]) by {
        if k >= 3 {
            assert(w[k] == code[k - 3]);
        } else {
            assert(w[k] == mark[k]);
        }
    }
    assert("BV"@ + s.subrange(n + 2, n + 12) =~= "BV1"@ + code);
}

proof fn video_mark_is_first(b: Seq<char>, tail: Seq<char>)
    requires
        !(has(b, "/video/av"@)),
    ensures
        find_from(b + "/video/av"@ + tail, "/video/av"@, 0) == Some(b.len() as int),
{
    reveal_strlit("/video/av");
    let p = "/video/av"@;
    let t = b + p + tail;
    let m = b.len() as int;
    a_part_is_found(b, p, tail);
    find_from_is_first(t, p, 0);
    let i = find_from(t, p, 0)->0;
    if i < m {
        let w = t.subrange(i, i + 9);
        assert(w == p);
        if i + 9 <= m {
            assert(b.subrange(i, i + 9) =~= w);
            assert(at(b, p, i));
        } else {
            let k = m - i;
            assert(w[k] == t[m]);
            assert(t[m] == p[0]);
            assert(k == 6);
            assert(w[7] == t[m + 1]);
            assert(t[m + 1] == p[1]);
        }
    }
}

proof fn digits_stay(d: Seq<char>)
    requires
        digits(d),
    ensures
        lowered(d) == d,
{
    assert forall|k: int| 0 <= k < d.len() implies lowered(d)[k] == d[k] by {
        assert(digit(d[k]));
    }
    assert(lowered(d) =~= d);
}

proof fn an_avid_alone(mark: Seq<char>, n: nat, rest: Seq<char>)
    requires
        lowered(mark) == "av"@,
        rest.len() == 0 || !(0x30 <= rest[0] as int <= 0x39),
    ensures
        avid_in(mark + dec(n) + rest) == Some("av"@ + dec(n)),
{
    reveal_strlit("av");
    decimal_reads_back(n);
    digits_stay(dec(n));
    let r = lowered(rest);
    let x = lowered(mark + dec(n) + rest);
    assert(x =~= "av"@ + dec(n) + r);
    assert(x.subrange(0, 2) =~= "av"@);
    digits_between("av"@, dec(n), r, 2);
    assert(x.subrange(2, 2 + dec(n).len() as int) =~= dec(n));
}

proof fn an_avid_inside(a: Seq<char>, n: nat, rest: Seq<char>)
    requires
        !starts(lowered(a), "av"@),
        a.len() >= 2,
        !(has(lowered(a), "/video/av"@)),
        rest.len() == 0 || !(0x30 <= rest[0] as int <= 0x39),
    ensures
        avid_in(a + "/video/av"@ + dec(n) + rest) == Some("av"@ + dec(n)),
{
    reveal_strlit("av");
    reveal_strlit("/video/av");
    decimal_reads_back(n);
    digits_stay(dec(n));
    let r = lowered(rest);
    let b = lowered(a);
    let p = "/video/av"@;
    let t = lowered(a + p + dec(n) + rest);
    assert(lowered(p) =~= p);
    assert(t =~= b + p + dec(n) + r);
    assert(t =~= b + p + (dec(n) + r));
    assert(t.subrange(0, 2) =~= b.subrange(0, 2));
    assert(!starts(t, "av"@));
    video_mark_is_first(b, dec(n) + r);
    let m = a.len() as int;
    digits_between(b + p, dec(n), r, m + 9);
    assert(t.subrange(m + 9, m + 9 + dec(n).len() as int) =~= dec(n));
}

/// A legacy id is `av` and a number, alone or inside the address of a video.
pub proof fn an_avid_is_found(a: Seq<char>, n: nat, rest: Seq<char>)
    requires
        !starts(lowered(a), "av"@),
        a.len() >= 2,
        !(has(lowered(a), "/video/av"@)),
        rest.len() == 0 || !(0x30 <= rest[0] as int <= 0x39),
    ensures
        avid_in("av"@ + dec(n) + rest) == Some("av"@ + dec(n)),
        avid_in("AV"@ + dec(n) + rest) == Some("av"@ + dec(n)),
        avid_in(a + "/video/av"@ + dec(n) + rest) == Some("av"@ + dec(n)),
        avid_in(a) is None,
{
    reveal_strlit("av");
    reveal_strlit("AV");
    assert(lowered("av"@) =~= "av"@);
    assert(lowered("AV"@) =~= "av"@);
    an_avid_alone("av"@, n, rest);
    an_avid_alone("AV"@, n, rest);
    an_avid_inside(a, n, rest);
    find_from_is_first(lowered(a), "/video/av"@, 0);
}

/// The code of a short link is what stands behind the last slash, up to the query.
pub proof fn a_short_code_is_found(a: Seq<char>, code: Seq<char>, query: Seq<char>)
    requires
        code.len() > 0,
        !code.contains('/'),
        !code.contains('?'),
        !query.contains('/'),
    ensures
        short_code(a + seq!['/'] + code) == code,
        short_code(a + seq!['/'] + code + seq!['/']) == code,
        short_code(a + seq!['/'] + (code + seq!['?'] + query)) == code,
{
    parts_behind(a, code, '/');
    let parts = split(a, '/').push(code);
    the_first_part_is_before_the_separator(code, '?', query);
    assert(last_part(parts, parts.len() as int) == code);
    let s = a + seq!['/'] + code;
    let none = Seq::<char>::empty();
    assert(s + seq!['/'] =~= s + seq!['/'] + none);
    parts_behind(s, none, '/');
    let more = parts.push(none);
    assert(last_part(more, more.len() as int) == last_part(more, more.len() - 1));
    assert(last_part(more, more.len() - 1) == code);
    let tail = code + seq!['?'] + query;
    assert(!tail.contains('/')) by {
        if tail.contains('/') {
            let k = choose|k: int| 0 <= k < tail.len() && tail[k] == '/';
            if k < code.len() {
                assert(code[k] == '/');
            } else if k > code.len() {
                assert(query[k - code.len() - 1] == '/');
            }
        }
    }
    parts_behind(a, tail, '/');
    let long = split(a, '/').push(tail);
    assert(last_part(long, long.len() as int) == tail);
    assert((seq![code] + split(query, '?'))[0] == code);
}

/// The address of a video names the video and its part: reading it gives both back.
pub proof fn an_address_reads_back(code: Seq<char>, page: u32, at_ms: Option<u64>)
    requires
        code.len() == 9,
        forall|k: int| 0 <= k < 9 ==> ascii_alnum(#[trigger] code[k]),
        page >= 1,
    ensures
        bvid_in(video_address("BV1"@ + code, page, at_ms)) == Some("BV1"@ + code),
        at_ms is Some || page > 1 ==> page_from(video_address("BV1"@ + code, page, at_ms), 0) == Some(page as int),
        at_ms is None && page == 1 ==> page_from(video_address("BV1"@ + code, page, at_ms), 0) is None,
        at_ms matches Some(ms) ==> ("&t="@ + dec((ms / 1000) as nat)).is_suffix_of(
            video_address("BV1"@ + code, page, at_ms),
        ),
{
    reveal_strlit("https://www.bilibili.com/video/");
    reveal_strlit("BV1");
    reveal_strlit("bv1");
    reveal_strlit("?p=");
    reveal_strlit("&t=");
    let home = "https://www.bilibili.com/video/"@;
    let id = "BV1"@ + code;
    let none = Seq::<char>::empty();
    assert(!(has(lowered(home), "bv1"@))) by {
        if has(lowered(home), "bv1"@) {
            let i = choose|i: int| at(lowered(home), "bv1"@, i);
            assert(lowered(home).subrange(i, i + 3)[2] == '1');
            assert(lowered(home)[i + 2] == '1');
            assert(lower(home[i + 2]) == '1');
        }
    }
    let base = home + id;
    assert forall|k: int| 0 <= k < base.len() implies (#[trigger] base[k]) != '?' && base[k] != '&' by {
        if k >= home.len() + 3 {
            assert(base[k] == code[k - home.len() - 3]);
        }
    }
    match at_ms {
        Some(ms) => {
            let rest = "&t="@ + dec((ms / 1000) as nat);
            let whole = base + "?p="@ + dec(page as nat) + rest;
            assert(video_address(id, page, at_ms) =~= whole);
            a_page_reads_back(base, page as nat, rest);
            a_bvid_is_found(home, code, "?p="@ + dec(page as nat) + rest);
            assert(whole =~= home + "BV1"@ + code + ("?p="@ + dec(page as nat) + rest));
            assert(whole.subrange((whole.len() - rest.len()) as int, whole.len() as int) =~= rest);
        },
        None => if page > 1 {
            let whole = base + "?p="@ + dec(page as nat) + none;
            assert(video_address(id, page, at_ms) =~= whole);
            a_page_reads_back(base, page as nat, none);
            a_bvid_is_found(home, code, "?p="@ + dec(page as nat));
            assert(whole =~= home + "BV1"@ + code + ("?p="@ + dec(page as nat)));
        } else {
            assert(video_address(id, page, at_ms) == base);
            a_bvid_is_found(home, code, none);
            assert(base =~= home + "BV1"@ + code + none);
            a_page_has_a_parameter(base, 0);
        },
    }
}

/// The parts of a video are counted from one, and the first is meant where none is named. A part
/// that is not listed is the video itself.
pub proof fn parts_are_counted_from_one(data: ViewData, page: u32)
    ensures
        1 <= page <= data.page_cids@.len() ==> cid_of(data, page) == data.page_cids@[page - 1],
        page > data.page_cids@.len() ==> cid_of(data, page) == data.cid,
        wanted(Some(page)) == page,
        data.page_cids@.len() > 0 ==> cid_of(data, wanted(None)) == data.page_cids@.first(),
{
}

/// A video is asked for by the id that it is known by: by its number where that is all of the id,
/// whatever the case of the letters before it, and by the whole id where the id is another.
pub proof fn an_id_is_asked_for_as_it_is(d: Seq<char>, id: Seq<char>, c: char, e: char)
    requires
        d.len() > 0,
        forall|k: int| 0 <= k < d.len() ==> 0x30 <= (#[trigger] d[k]) as int <= 0x39,
        c == 'a' || c == 'A',
        e == 'v' || e == 'V',
    ensures
        metadata_address(seq![c, e] + d) == "https://api.bilibili.com/x/web-interface/view?aid="@ + d,
        metadata_address("BV"@ + id) == "https://api.bilibili.com/x/web-interface/view?bvid="@ + ("BV"@ + id),
        id.len() > 0 && !(0x30 <= id.last() as int <= 0x39) ==> metadata_address(id)
            == "https://api.bilibili.com/x/web-interface/view?bvid="@ + id,
{
    reveal_strlit("av");
    reveal_strlit("BV");
    let s = seq![c, e] + d;
    let t = lowered(s);
    assert(t.len() == s.len());
    assert forall|k: int| 0 <= k < t.len() implies #[trigger] t[k] == lower(s[k]) by {
        lowered_at(s, k);
    }
    assert(t.subrange(0, 2) =~= "av"@);
    assert forall|k: int| 0 <= k < t.skip(2).len() implies digit(#[trigger] t.skip(2)[k]) by {
        assert(s[k + 2] == d[k]);
        assert(t.skip(2)[k] == t[k + 2]);
    }
    assert(t.skip(2) =~= d) by {
        assert forall|k: int| 0 <= k < d.len() implies t.skip(2)[k] == d[k] by {
            assert(s[k + 2] == d[k]);
            assert(t.skip(2)[k] == t[k + 2]);
        }
    }
    let x = "BV"@ + id;
    let y = lowered(x);
    lowered_at(x, 0);
    if starts(y, "av"@) {
        assert(y.subrange(0, 2)[0] == y[0]);
    }
    if id.len() > 0 && !(0x30 <= id.last() as int <= 0x39) {
        let z = lowered(id);
        lowered_at(id, id.len() - 1);
        if z.len() > 2 {
            assert(z.skip(2)[z.len() - 3] == z[z.len() - 1]);
        }
    }
}

/// Of the streams on offer one is taken, and only one: none has more to it, and none behind it has
/// as much.
pub proof fn the_best_stream_is_one(streams: Seq<AudioStream>) -> (i: int)
    requires
        streams.len() > 0,
    ensures
        best_at(streams, i),
        forall|j: int| 0 <= j < streams.len() ==> (#[trigger] streams[j]).bandwidth <= streams[i].bandwidth,
        forall|j: int| best_at(streams, j) ==> j == i,
        forall|j: int| i < j < streams.len() ==> (#[trigger] streams[j]).bandwidth != streams[i].bandwidth,
    decreases streams.len(),
{
    let last = streams.len() - 1;
    let i = if last == 0 {
        0
    } else {
        let front = streams.drop_last();
        let k = the_best_stream_is_one(front);
        assert forall|j: int| 0 <= j < last implies (#[trigger] streams[j]).bandwidth <= streams[k].bandwidth by {
            assert(front[j] == streams[j]);
        }
        assert forall|j: int| k < j < last implies (#[trigger] streams[j]).bandwidth < streams[k].bandwidth by {
            assert(front[j] == streams[j]);
        }
        if streams[last].bandwidth >= streams[k].bandwidth {
            last
        } else {
            k
        }
    };
    assert(best_at(streams, i));
    assert forall|j: int| best_at(streams, j) implies j == i by {
        assert(streams[j].bandwidth <= streams[i].bandwidth);
        assert(streams[i].bandwidth <= streams[j].bandwidth);
    }
    i
}

/// The video that an input names is found whatever white space is around it: an id of today goes
/// before a short link, and a short link before an old id.
pub proof fn an_input_names_its_video(before: Seq<char>, s: Seq<char>, after: Seq<char>)
    requires
        forall|k: int| 0 <= k < before.len() ==> white(#[trigger] before[k]),
        forall|k: int| 0 <= k < after.len() ==> white(#[trigger] after[k]),
        s.len() > 0,
        !white(s[0]) && !white(s.last()),
    ensures
        bvid_in(s) is Some ==> video_in(before + s + after) == bvid_in(s),
        bvid_in(s) is None && has(s, "b23.tv"@) ==> video_in(before + s + after) == Some("b23:"@ + short_code(s)),
        bvid_in(s) is None && !(has(s, "b23.tv"@)) ==> video_in(before + s + after) == avid_in(s),
{
    white_around_is_trimmed(before, s, after);
}

} // verus!
