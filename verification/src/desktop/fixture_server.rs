//! The local model that stands behind the result states: it answers each request with blocks
//! that the request itself determines.

use vstd::prelude::*;
use crate::json::{
    JsonView, json_array, json_get, json_parse, json_parse_bytes, json_string, json_text_member, json_u64,
    json_view, member, parse_json, parse_json_bytes, text_member, to_json_string, whole_number,
};
use crate::text::{
    cat2, cat3, cat5, chars_of, dec, decimal, find_chars, find_from, find_from_is_first, halves,
    join, joined, lower_text, lowered, number, parse_number, same, split, split_once, split_text,
    text, text_of, trim, trimmed, views, views_push, a_number_reads_back, at, decimal_reads_back, digit,
    lowering_settles, white, white_around_is_trimmed, white_takes_no_ink,
};

verus! {

// ---- The request ----

/// How many requests a state makes before its result is complete.
pub open spec fn requests_of(selector: Seq<char>) -> u32 {
    if selector == "result-enhancement-failed"@ {
        13
    } else {
        16
    }
}

/// How many requests a state makes before its result is complete.
pub fn expected_requests(selector: &str) -> (r: u32)
    ensures
        r == requests_of(selector@),
{
    if same(selector, "result-enhancement-failed") {
        13
    } else {
        16
    }
}

/// The blank line that ends the head of a request stands at `i`.
pub open spec fn blank_line_at(request: Seq<u8>, i: int) -> bool {
    0 <= i && i + 4 <= request.len() && request[i] == 13 && request[i + 1] == 10 && request[i + 2] == 13
        && request[i + 3] == 10
}

/// Where the head of a request ends: at its first blank line.
pub fn head_end(request: &Vec<u8>) -> (r: Option<usize>)
    ensures
        match r {
            Some(i) => blank_line_at(request@, i as int) && forall|j: int|
                0 <= j < i ==> !(#[trigger] blank_line_at(request@, j)),
            None => forall|j: int| !(#[trigger] blank_line_at(request@, j)),
        },
{
    let mut i: usize = 0;
    while i < request.len() && request.len() - i >= 4
        invariant
            i <= request@.len(),
            forall|j: int| 0 <= j < i ==> !(#[trigger] blank_line_at(request@, j)),
        decreases request@.len() - i,
    {
        if request[i] == 13 && request[i + 1] == 10 && request[i + 2] == 13 && request[i + 3] == 10 {
            return Some(i);
        }
        i += 1;
    }
    None
}

/// The length that a line of the head names, where it is the line that names one.
pub open spec fn length_in(line: Seq<char>) -> Option<int> {
    match halves(line, ":"@) {
        Some((name, value)) => if lowered(name) == "content-length"@ {
            number(trimmed(value), usize::MAX as int)
        } else {
            None
        },
        None => None,
    }
}

/// The length that the first such line from `i` on names, or nothing.
pub open spec fn length_from(lines: Seq<Seq<char>>, i: int) -> int
    decreases lines.len() - i,
{
    if i < 0 || i >= lines.len() {
        0
    } else {
        match length_in(lines[i]) {
            Some(n) => n,
            None => length_from(lines, i + 1),
        }
    }
}

fn read_length(line: &str) -> (r: Option<usize>)
    ensures
        match r {
            Some(n) => length_in(line@) == Some(n as int),
            None => length_in(line@) is None,
        },
{
    match split_once(line, ":") {
        Some((name, value)) => {
            let word = lower_text(name.as_str());
            if same(word.as_str(), "content-length") {
                match parse_number(trim(value.as_str()), usize::MAX as u64) {
                    Some(n) => Some(n as usize),
                    None => None,
                }
            } else {
                None
            }
        },
        None => None,
    }
}

/// The length of the body, as the head of a request names it.
pub fn content_length(head: &str) -> (r: usize)
    ensures
        r == length_from(split(head@, '\n'), 0),
{
    let lines = split_text(head, '\n');
    let mut i: usize = 0;
    while i < lines.len()
        invariant
            i <= lines@.len(),
            views(lines@) == split(head@, '\n'),
            length_from(split(head@, '\n'), 0) == length_from(split(head@, '\n'), i as int),
        decreases lines@.len() - i,
    {
        assert(views(lines@)[i as int] == lines@[i as int]@);
        if let Some(n) = read_length(lines[i].as_str()) {
            return n;
        }
        i += 1;
    }
    0
}

/// Where the body of a request stands, once all of it has arrived.
pub fn body_range(received: usize, head_end: usize, length: usize) -> (r: Option<(usize, usize)>)
    ensures
        match r {
            Some((from, to)) => from == head_end + 4 && to == from + length && to <= received,
            None => head_end + 4 + length > received,
        },
{
    if received < 4 || received - 4 < head_end || received - 4 - head_end < length {
        None
    } else {
        Some((head_end + 4, head_end + 4 + length))
    }
}

/// The prompt that the body of a request holds: the content of its first message.
pub open spec fn prompt_in(body: Option<JsonView>) -> Seq<char> {
    match body {
        Some(v) => match member(v, "messages"@) {
            Some(JsonView::List(messages)) => if messages.len() > 0 {
                match text_member(Some(messages[0]), "content"@) {
                    Some(s) => s,
                    None => ""@,
                }
            } else {
                ""@
            },
            _ => ""@,
        },
        None => ""@,
    }
}

/// What a value that may be missing holds.
pub open spec fn held(v: Option<&serde_json::Value>) -> Option<JsonView> {
    match v {
        Some(x) => Some(json_view(*x)),
        None => None,
    }
}

/// The prompt that the body of a request holds.
pub fn request_prompt(body: Option<&serde_json::Value>) -> (r: &str)
    ensures
        r@ == prompt_in(held(body)),
{
    if let Some(v) = body {
        if let Some(messages) = json_get(v, "messages") {
            if let Some(items) = json_array(messages) {
                if items.len() > 0 {
                    assert(json_view(items@[0]) == (json_view(*messages)->List_0)[0]);
                    if let Some(s) = json_text_member(Some(&items[0]), "content") {
                        return s;
                    }
                }
            }
        }
    }
    ""
}

/// The prompt that the bytes of a body hold.
pub fn body_prompt(body: &[u8]) -> (r: String)
    ensures
        r@ == prompt_in(json_parse_bytes(body@)),
{
    let value = parse_json_bytes(body);
    text(request_prompt(value.as_ref()))
}

/// Where the input of a prompt begins: at the first brace behind its mark.
pub open spec fn input_start(prompt: Seq<char>) -> Option<int> {
    match find_from(prompt, "input="@, 0) {
        Some(i) => find_from(prompt, "{"@, i + 6),
        None => None,
    }
}

/// The input that a prompt holds: everything from that brace on, where it is JSON.
pub open spec fn input_of(prompt: Seq<char>) -> Option<JsonView> {
    match input_start(prompt) {
        Some(i) => json_parse(prompt.skip(i)),
        None => None,
    }
}

/// The input of a prompt as text.
pub fn input_text(prompt: &str) -> (r: Option<String>)
    ensures
        match r {
            Some(s) => input_start(prompt@) is Some && s@ == prompt@.skip(input_start(prompt@)->0),
            None => input_start(prompt@) is None,
        },
{
    let v: Vec<char> = chars_of(prompt);
    let mark: Vec<char> = chars_of("input=");
    let brace: Vec<char> = chars_of("{");
    proof {
        reveal_strlit("input=");
        reveal_strlit("{");
        find_from_is_first(v@, mark@, 0);
    }
    match find_chars(&v, &mark, 0) {
        Some(i) => {
            assert(i + 6 <= v.len());
            proof {
                find_from_is_first(v@, brace@, i + 6);
            }
            match find_chars(&v, &brace, i + 6) {
                Some(k) => {
                    assert(v@.subrange(k as int, v@.len() as int) =~= v@.skip(k as int));
                    Some(text_of(&v, k, v.len()))
                },
                None => None,
            }
        },
        None => None,
    }
}

/// The input that a prompt holds.
pub fn request_input(prompt: &str) -> (r: Option<serde_json::Value>)
    ensures
        (match r {
            Some(v) => Some(json_view(v)),
            None => None,
        }) == input_of(prompt@),
{
    match input_text(prompt) {
        Some(s) => parse_json(s.as_str()),
        None => None,
    }
}

// ---- The answer ----

/// The text of a member, or the empty text.
pub open spec fn text_at(v: Option<JsonView>, key: Seq<char>) -> Seq<char> {
    match text_member(v, key) {
        Some(s) => s,
        None => ""@,
    }
}

/// The number of a member, or zero.
pub open spec fn number_at(v: JsonView, key: Seq<char>) -> u64 {
    match member(v, key) {
        Some(n) => match whole_number(n) {
            Some(n) => n,
            None => 0,
        },
        None => 0,
    }
}

/// The utterances of an input.
pub open spec fn utterances_in(input: Option<JsonView>) -> Seq<JsonView> {
    match input {
        Some(v) => match member(v, "utterances"@) {
            Some(JsonView::List(items)) => items,
            _ => Seq::empty(),
        },
        None => Seq::empty(),
    }
}

fn read_text<'a>(v: &'a serde_json::Value, key: &str) -> (r: &'a str)
    ensures
        r@ == text_at(Some(json_view(*v)), key@),
{
    match json_text_member(Some(v), key) {
        Some(s) => s,
        None => "",
    }
}

fn read_number(v: &serde_json::Value, key: &str) -> (r: u64)
    ensures
        r == number_at(json_view(*v), key@),
{
    match json_get(v, key) {
        Some(n) => match json_u64(n) {
            Some(n) => n,
            None => 0,
        },
        None => 0,
    }
}

/// The utterances of an input as a list of values; the empty list where there are none.
pub open spec fn listed(items: Option<&Vec<serde_json::Value>>, us: Seq<JsonView>) -> bool {
    match items {
        Some(v) => v@.len() == us.len() && forall|i: int|
            0 <= i < us.len() ==> json_view(#[trigger] v@[i]) == us[i],
        None => us.len() == 0,
    }
}

fn read_utterances(input: Option<&serde_json::Value>) -> (r: Option<&Vec<serde_json::Value>>)
    ensures
        listed(r, utterances_in(held(input))),
{
    if let Some(v) = input {
        if let Some(list) = json_get(v, "utterances") {
            return json_array(list);
        }
    }
    None
}

/// A source that points at one utterance, as a JSON object.
pub open spec fn source_json(u: JsonView) -> Seq<char> {
    "[{\"end_ms\":"@ + dec(number_at(u, "end_ms"@) as nat) + ",\"start_ms\":"@ + dec(
        number_at(u, "start_ms"@) as nat,
    ) + ",\"utterance_ids\":["@ + json_string(text_at(Some(u), "id"@)) + "]}]"@
}

fn write_source(u: &serde_json::Value) -> (r: String)
    ensures
        r@ == source_json(json_view(*u)),
{
    let mut out = text("[{\"end_ms\":");
    let end = decimal(read_number(u, "end_ms"));
    out.append(end.as_str());
    out.append(",\"start_ms\":");
    let start = decimal(read_number(u, "start_ms"));
    out.append(start.as_str());
    out.append(",\"utterance_ids\":[");
    let id = to_json_string(read_text(u, "id"));
    out.append(id.as_str());
    out.append("]}]");
    out
}

/// A block as a JSON object, given its sources and its title as JSON.
pub open spec fn block_json(
    id: Seq<char>,
    sources: Seq<char>,
    status: Seq<char>,
    what: Seq<char>,
    title: Seq<char>,
) -> Seq<char> {
    "{\"id\":"@ + json_string(id) + ",\"source_refs\":"@ + sources + ",\"source_status\":"@ + json_string(status)
        + ",\"text\":"@ + json_string(what) + ",\"title\":"@ + title + "}"@
}

fn write_block(id: &str, sources: &str, status: &str, what: &str, title: &str) -> (r: String)
    ensures
        r@ == block_json(id@, sources@, status@, what@, title@),
{
    let mut out = text("{\"id\":");
    let a = to_json_string(id);
    out.append(a.as_str());
    out.append(",\"source_refs\":");
    out.append(sources);
    out.append(",\"source_status\":");
    let b = to_json_string(status);
    out.append(b.as_str());
    out.append(",\"text\":");
    let c = to_json_string(what);
    out.append(c.as_str());
    out.append(",\"title\":");
    out.append(title);
    out.append("}");
    out
}

/// The block that repeats one utterance; a chapter also gets a title.
pub open spec fn repeated(kind: Seq<char>, u: JsonView, i: int) -> Seq<char> {
    block_json(
        "fixture-block-"@ + dec(i as nat),
        source_json(u),
        "mapped"@,
        text_at(Some(u), "text"@),
        if kind == "chapters"@ {
            json_string("第 "@ + dec((i + 1) as nat) + " 段"@)
        } else {
            "null"@
        },
    )
}

fn write_repeated(kind: &str, u: &serde_json::Value, i: usize) -> (r: String)
    requires
        i < usize::MAX,
    ensures
        r@ == repeated(kind@, json_view(*u), i as int),
{
    let n = decimal(i as u64);
    let id = cat2("fixture-block-", n.as_str());
    let sources = write_source(u);
    let title = if same(kind, "chapters") {
        let m = decimal(i as u64 + 1);
        let t = cat3("第 ", m.as_str(), " 段");
        to_json_string(t.as_str())
    } else {
        text("null")
    };
    write_block(id.as_str(), sources.as_str(), "mapped", read_text(u, "text"), title.as_str())
}

/// How many utterances of a piece are repeated: all of them, but no more than ten in a summary,
/// so that the whole summary stays within the standard tier.
pub open spec fn repeated_count(kind: Seq<char>, n: nat) -> nat {
    if kind == "default_summary"@ && n > 10 {
        10
    } else {
        n
    }
}

/// The blocks of an answer: one for each utterance that is repeated, or, in the state with
/// limited sources, a summary without any source, and chapters of which only the first has one.
/// Both summaries are as long as the standard tier asks once the pieces of the transcript are put
/// together.
pub open spec fn blocks_json(selector: Seq<char>, kind: Seq<char>, us: Seq<JsonView>) -> Seq<Seq<char>> {
    if selector == "result-limited"@ && kind == "default_summary"@ {
        seq![block_json("fixture-limited-summary"@, "[]"@, "limited"@, "无法精确关联的摘要：这一段的内容经过概括，原文中没有单独一处可以对应，因此只能整体参考，不能跳转到具体时间。"@, "null"@)]
    } else if selector == "result-limited"@ && kind == "chapters"@ && us.len() > 1 {
        seq![
            block_json(
                "fixture-mapped-chapter"@,
                source_json(us[0]),
                "mapped"@,
                text_at(Some(us[0]), "text"@),
                json_string("可核对章节"@),
            ),
            block_json(
                "fixture-limited-chapter"@,
                "[]"@,
                "limited"@,
                "无法精确关联的章节"@,
                json_string("来源受限章节"@),
            ),
        ]
    } else {
        Seq::new(repeated_count(kind, us.len()), |i: int| repeated(kind, us[i], i))
    }
}

/// The identifiers of the first `n` utterances that have one, as JSON strings.
pub open spec fn ids_json(us: Seq<JsonView>, n: int) -> Seq<Seq<char>>
    decreases n,
{
    if n <= 0 {
        Seq::empty()
    } else {
        match text_member(Some(us[n - 1]), "id"@) {
            Some(id) => ids_json(us, n - 1).push(json_string(id)),
            None => ids_json(us, n - 1),
        }
    }
}

fn write_blocks(selector: &str, kind: &str, items: Option<&Vec<serde_json::Value>>, Ghost(us): Ghost<Seq<JsonView>>) -> (r:
    Vec<String>)
    requires
        listed(items, us),
    ensures
        views(r@) == blocks_json(selector@, kind@, us),
{
    let mut out: Vec<String> = Vec::new();
    let limited = same(selector, "result-limited");
    if limited && same(kind, "default_summary") {
        out.push(write_block("fixture-limited-summary", "[]", "limited", "无法精确关联的摘要：这一段的内容经过概括，原文中没有单独一处可以对应，因此只能整体参考，不能跳转到具体时间。", "null"));
        assert(views(out@) =~= blocks_json(selector@, kind@, us));
        return out;
    }
    let items = match items {
        Some(v) => v,
        None => {
            assert(views(out@) =~= blocks_json(selector@, kind@, us));
            return out;
        },
    };
    if limited && same(kind, "chapters") && items.len() > 1 {
        let sources = write_source(&items[0]);
        let first = to_json_string("可核对章节");
        let second = to_json_string("来源受限章节");
        out.push(
            write_block(
                "fixture-mapped-chapter",
                sources.as_str(),
                "mapped",
                read_text(&items[0], "text"),
                first.as_str(),
            ),
        );
        out.push(
            write_block("fixture-limited-chapter", "[]", "limited", "无法精确关联的章节", second.as_str()),
        );
        assert(views(out@) =~= blocks_json(selector@, kind@, us));
        return out;
    }
    let count: usize = if same(kind, "default_summary") && items.len() > 10 {
        10
    } else {
        items.len()
    };
    let mut i: usize = 0;
    while i < count
        invariant
            i <= count <= items@.len(),
            listed(Some(items), us),
            out@.len() == i,
            forall|j: int| 0 <= j < i ==> (#[trigger] out@[j])@ == repeated(kind@, us[j], j),
        decreases count - i,
    {
        assert(json_view(items@[i as int]) == us[i as int]);
        assert(i < items.len());
        out.push(write_repeated(kind, &items[i], i));
        i += 1;
    }
    assert(views(out@) =~= blocks_json(selector@, kind@, us));
    out
}

fn write_ids(items: Option<&Vec<serde_json::Value>>, Ghost(us): Ghost<Seq<JsonView>>) -> (r: Vec<String>)
    requires
        listed(items, us),
    ensures
        views(r@) == ids_json(us, us.len() as int),
{
    let mut out: Vec<String> = Vec::new();
    assert(views(out@) =~= Seq::<Seq<char>>::empty());
    let items = match items {
        Some(v) => v,
        None => {
            return out;
        },
    };
    let mut i: usize = 0;
    while i < items.len()
        invariant
            i <= items@.len(),
            listed(Some(items), us),
            views(out@) == ids_json(us, i as int),
        decreases items@.len() - i,
    {
        assert(json_view(items@[i as int]) == us[i as int]);
        if let Some(id) = json_text_member(Some(&items[i]), "id") {
            let s = to_json_string(id);
            proof {
                views_push(out@, s);
            }
            out.push(s);
        }
        i += 1;
    }
    out
}

/// What the model says, given the state and the input of the prompt.
pub open spec fn content_of(selector: Seq<char>, input: Option<JsonView>) -> Seq<char> {
    let us = utterances_in(input);
    "{\"blocks\":["@ + joined(blocks_json(selector, text_at(input, "kind"@), us), ","@)
        + "],\"processed_utterance_ids\":["@ + joined(ids_json(us, us.len() as int), ","@) + "]}"@
}

/// The body of the answer. In the state with a failed enhancement the highlights are answered
/// with nothing usable.
pub open spec fn answer_of(selector: Seq<char>, input: Option<JsonView>) -> Seq<char> {
    if selector == "result-enhancement-failed"@ && text_at(input, "kind"@) == "highlights"@ {
        "{\"choices\":[]}"@
    } else {
        "{\"choices\":[{\"message\":{\"content\":"@ + json_string(content_of(selector, input)) + "}}]}"@
    }
}

/// The body of the answer.
pub fn fixture_answer(selector: &str, input: Option<&serde_json::Value>) -> (r: String)
    ensures
        r@ == answer_of(selector@, held(input)),
{
    let kind = match json_text_member(input, "kind") {
        Some(s) => s,
        None => "",
    };
    if same(selector, "result-enhancement-failed") && same(kind, "highlights") {
        return text("{\"choices\":[]}");
    }
    let ghost us = utterances_in(held(input));
    let items = read_utterances(input);
    let blocks = write_blocks(selector, kind, items, Ghost(us));
    let ids = write_ids(items, Ghost(us));
    let block_list = join(&blocks, ",");
    let id_list = join(&ids, ",");
    let content = cat5(
        "{\"blocks\":[",
        block_list.as_str(),
        "],\"processed_utterance_ids\":[",
        id_list.as_str(),
        "]}",
    );
    let quoted = to_json_string(content.as_str());
    cat3("{\"choices\":[{\"message\":{\"content\":", quoted.as_str(), "}}]}")
}

/// The answer as it goes over the wire; its length is counted in bytes.
pub open spec fn http_of(body: Seq<char>) -> Seq<char> {
    "HTTP/1.1 200 OK\r\nContent-Type: application/json\r\nContent-Length: "@ + dec(
        vstd::utf8::encode_utf8(body).len(),
    ) + "\r\nConnection: close\r\n\r\n"@ + body
}

/// The answer as it goes over the wire.
pub fn http_answer(body: &str) -> (r: String)
    ensures
        r@ == http_of(body@),
{
    let n = decimal(body.as_bytes().len() as u64);
    let mut out = cat3(
        "HTTP/1.1 200 OK\r\nContent-Type: application/json\r\nContent-Length: ",
        n.as_str(),
        "\r\nConnection: close\r\n\r\n",
    );
    out.append(body);
    out
}

/// The length of a body is read from the line that names it, whatever the case of its name and the
/// white space around the number.
pub proof fn a_length_reads_back(name: Seq<char>, before: Seq<char>, n: nat, after: Seq<char>)
    requires
        lowered(name) == "content-length"@,
        n <= usize::MAX,
        forall|k: int| 0 <= k < before.len() ==> white(#[trigger] before[k]),
        forall|k: int| 0 <= k < after.len() ==> white(#[trigger] after[k]),
    ensures
        length_in(name + ":"@ + (before + dec(n) + after)) == Some(n as int),
{
    reveal_strlit(":");
    reveal_strlit("content-length");
    let rest = before + dec(n) + after;
    let s = name + ":"@ + rest;
    lowering_settles(name);
    assert forall|k: int| 0 <= k < name.len() implies (#[trigger] name[k]) != ':' by {
        assert(lowered(name)[k] != ':');
    }
    find_from_is_first(s, ":"@, 0);
    assert(s.subrange(name.len() as int, name.len() as int + 1) =~= ":"@);
    assert(at(s, ":"@, name.len() as int));
    assert forall|j: int| 0 <= j < name.len() implies !at(s, ":"@, j) by {
        if at(s, ":"@, j) {
            assert(s.subrange(j, j + 1)[0] == s[j]);
            assert(s[j] == name[j]);
        }
    }
    assert(find_from(s, ":"@, 0) == Some(name.len() as int));
    assert(s.take(name.len() as int) =~= name);
    assert(s.skip(name.len() as int + 1) =~= rest);
    decimal_reads_back(n);
    let d = dec(n);
    assert(digit(d[0]) && digit(d[d.len() - 1]));
    white_takes_no_ink(d[0]);
    white_takes_no_ink(d.last());
    white_around_is_trimmed(before, d, after);
    a_number_reads_back(n, usize::MAX as int);
}

/// The first line that gives a length counts; where none does there is no body.
pub proof fn the_first_length_counts(lines: Seq<Seq<char>>, i: int)
    requires
        0 <= i <= lines.len(),
        forall|k: int| 0 <= k < i ==> length_in(#[trigger] lines[k]) is None,
    ensures
        i < lines.len() && length_in(lines[i]) is Some ==> Some(length_from(lines, 0)) == length_in(lines[i]),
        i == lines.len() ==> length_from(lines, 0) == 0,
{
    lengths_passed(lines, 0, i);
}

proof fn lengths_passed(lines: Seq<Seq<char>>, from: int, to: int)
    requires
        0 <= from <= to <= lines.len(),
        forall|k: int| 0 <= k < to ==> length_in(#[trigger] lines[k]) is None,
    ensures
        length_from(lines, from) == length_from(lines, to),
    decreases to - from,
{
    if from < to {
        lengths_passed(lines, from + 1, to);
    }
}

/// What a prompt is about stands behind its mark, from the first brace on.
pub proof fn the_input_stands_behind_its_mark(a: Seq<char>, b: Seq<char>, rest: Seq<char>)
    requires
        forall|k: int| 0 <= k < a.len() ==> (#[trigger] a[k]) != '=',
        forall|k: int| 0 <= k < b.len() ==> (#[trigger] b[k]) != '{',
    ensures
        input_start(a + "input="@ + b + "{"@ + rest) == Some((a.len() + 6 + b.len()) as int),
        (a + "input="@ + b + "{"@ + rest).skip((a.len() + 6 + b.len()) as int) == "{"@ + rest,
{
    reveal_strlit("input=");
    reveal_strlit("{");
    let m = "input="@;
    let s = a + m + b + "{"@ + rest;
    let n = a.len() as int;
    assert(s.subrange(n, n + 6) =~= m);
    assert(at(s, m, n));
    assert forall|j: int| 0 <= j < n implies !at(s, m, j) by {
        if at(s, m, j) {
            assert(s.subrange(j, j + 6)[5] == s[j + 5]);
            if j + 5 < n {
                assert(s[j + 5] == a[j + 5]);
            } else {
                assert(s[j + 5] == m[j + 5 - n]);
            }
        }
    }
    find_from_is_first(s, m, 0);
    let e = n + 6 + b.len();
    assert(s.subrange(e, e + 1) =~= "{"@);
    assert(at(s, "{"@, e));
    assert forall|j: int| n + 6 <= j < e implies !at(s, "{"@, j) by {
        if at(s, "{"@, j) {
            assert(s.subrange(j, j + 1)[0] == s[j]);
            assert(s[j] == b[j - n - 6]);
        }
    }
    find_from_is_first(s, "{"@, n + 6);
    assert(s.skip(e) =~= "{"@ + rest);
}

/// The identifiers of an answer are those of the utterances that have one, in their order.
pub proof fn every_identifier_is_given_back(us: Seq<JsonView>, n: int)
    requires
        0 <= n <= us.len(),
    ensures
        ids_json(us, n) == us.take(n).filter(|u: JsonView| text_member(Some(u), "id"@) is Some).map_values(
            |u: JsonView| json_string(text_member(Some(u), "id"@)->0),
        ),
    decreases n,
{
    reveal(Seq::filter);
    let p = |u: JsonView| text_member(Some(u), "id"@) is Some;
    let g = |u: JsonView| json_string(text_member(Some(u), "id"@)->0);
    if n > 0 {
        every_identifier_is_given_back(us, n - 1);
        assert(us.take(n).drop_last() =~= us.take(n - 1));
        assert(us.take(n).last() == us[n - 1]);
        let front = us.take(n - 1).filter(p);
        if p(us[n - 1]) {
            assert(us.take(n).filter(p) =~= front.push(us[n - 1]));
            assert(front.push(us[n - 1]).map_values(g) =~= front.map_values(g).push(g(us[n - 1])));
        }
    } else {
        assert(us.take(0) =~= Seq::empty());
    }
}

} // verus!
