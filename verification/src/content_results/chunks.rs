//! Cutting a transcript into the pieces that are worked on one at a time.

use vstd::prelude::*;
use crate::funasr::Utterance;
use crate::text::{views, views_push};

verus! {

/// The most utterances in one piece.
pub const CHUNK_MAX_UTTERANCES: usize = 20;

/// The most characters in one piece, unless it is a single utterance.
pub const CHUNK_MAX_CHARS: usize = 6000;

/// The number of characters of `us[from..to]`.
pub open spec fn chars_between(us: Seq<Utterance>, from: int, to: int) -> nat
    decreases to - from,
{
    if from >= to {
        0
    } else {
        chars_between(us, from, to - 1) + us[to - 1].text@.len()
    }
}

/// `us[to]` does not fit into the piece `us[from..to]`.
pub open spec fn full(us: Seq<Utterance>, from: int, to: int) -> bool {
    from < to && (to - from >= CHUNK_MAX_UTTERANCES || chars_between(us, from, to)
        + us[to].text@.len() > CHUNK_MAX_CHARS)
}

/// The end of the piece that begins at `from` and reaches at least to `to`.
pub open spec fn chunk_end(us: Seq<Utterance>, from: int, to: int) -> int
    decreases us.len() - to,
{
    if to >= us.len() || full(us, from, to) {
        to
    } else {
        chunk_end(us, from, to + 1)
    }
}

/// The pieces of `us` from position `i` on.
pub open spec fn chunks_from(us: Seq<Utterance>, i: int) -> Seq<Seq<Utterance>>
    decreases us.len() - i,
{
    if i < 0 || i >= us.len() {
        Seq::empty()
    } else {
        let end = chunk_end(us, i, i);
        if i < end <= us.len() {
            seq![us.subrange(i, end)] + chunks_from(us, end)
        } else {
            Seq::empty()
        }
    }
}

/// The pieces of a transcript.
pub open spec fn chunks_of(us: Seq<Utterance>) -> Seq<Seq<Utterance>> {
    chunks_from(us, 0)
}

proof fn chunk_end_bounds(us: Seq<Utterance>, from: int, to: int)
    requires
        0 <= from <= to <= us.len(),
    ensures
        to <= chunk_end(us, from, to) <= us.len(),
        from == to && to < us.len() ==> to < chunk_end(us, from, to),
    decreases us.len() - to,
{
    if to < us.len() && !full(us, from, to) {
        chunk_end_bounds(us, from, to + 1);
    }
}

/// The pieces of a transcript, in order.
pub fn chunk_utterances(utterances: &Vec<Utterance>) -> (r: Vec<Vec<Utterance>>)
    ensures
        views(r@) == chunks_of(utterances@),
{
    let ghost us = utterances@;
    let mut chunks: Vec<Vec<Utterance>> = Vec::new();
    let mut from: usize = 0;
    assert(views(chunks@) + chunks_from(us, 0) =~= chunks_from(us, 0));
    while from < utterances.len()
        invariant
            us == utterances@,
            from <= us.len(),
            views(chunks@) + chunks_from(us, from as int) == chunks_from(us, 0),
        decreases us.len() - from,
    {
        let ghost before = views(chunks@);
        let mut current: Vec<Utterance> = Vec::new();
        let mut chars: usize = 0;
        let mut to: usize = from;
        proof {
            chunk_end_bounds(us, from as int, from as int);
        }
        loop
            invariant
                us == utterances@,
                from <= to <= us.len(),
                current@ =~= us.subrange(from as int, to as int),
                chars == chars_between(us, from as int, to as int),
                chunk_end(us, from as int, from as int) == chunk_end(us, from as int, to as int),
            ensures
                to == chunk_end(us, from as int, from as int),
                current@ == us.subrange(from as int, to as int),
                to <= us.len(),
            decreases us.len() - to,
        {
            if to >= utterances.len() {
                break;
            }
            let length: usize = utterances[to].text.as_str().unicode_len();
            if from < to && (to - from >= CHUNK_MAX_UTTERANCES || chars > CHUNK_MAX_CHARS || length
                > CHUNK_MAX_CHARS - chars) {
                break;
            }
            chars = if from == to {
                length
            } else {
                chars + length
            };
            current.push(utterances[to].clone());
            to += 1;
        }
        let ghost piece = current@;
        let ghost old_chunks = chunks@;
        chunks.push(current);
        proof {
            views_push(old_chunks, current);
            assert(before + (seq![piece] + chunks_from(us, to as int)) =~= views(chunks@) + chunks_from(
                us,
                to as int,
            ));
        }
        from = to;
    }
    assert(views(chunks@) + chunks_from(us, from as int) =~= views(chunks@));
    chunks
}

// ---- Laws ----

proof fn chunk_end_limits(us: Seq<Utterance>, from: int, to: int)
    requires
        0 <= from <= to <= us.len(),
        to - from <= CHUNK_MAX_UTTERANCES,
        to - from <= 1 || chars_between(us, from, to) <= CHUNK_MAX_CHARS,
    ensures
        ({
            let end = chunk_end(us, from, to);
            end - from <= CHUNK_MAX_UTTERANCES && (end - from <= 1 || chars_between(us, from, end)
                <= CHUNK_MAX_CHARS)
        }),
    decreases us.len() - to,
{
    if to < us.len() && !full(us, from, to) {
        assert(chars_between(us, from, to + 1) == chars_between(us, from, to) + us[to].text@.len());
        chunk_end_limits(us, from, to + 1);
    }
}

proof fn chars_of_piece(us: Seq<Utterance>, from: int, to: int, n: int)
    requires
        0 <= from <= from + n <= to <= us.len(),
    ensures
        chars_between(us.subrange(from, to), 0, n) == chars_between(us, from, from + n),
    decreases n,
{
    if n > 0 {
        chars_of_piece(us, from, to, n - 1);
    }
}

proof fn pieces_from(us: Seq<Utterance>, i: int)
    requires
        0 <= i <= us.len(),
    ensures
        chunks_from(us, i).flatten() == us.skip(i),
        forall|k: int|
            0 <= k < chunks_from(us, i).len() ==> {
                let c = #[trigger] chunks_from(us, i)[k];
                &&& 0 < c.len() <= CHUNK_MAX_UTTERANCES
                &&& c.len() == 1 || chars_between(c, 0, c.len() as int) <= CHUNK_MAX_CHARS
            },
    decreases us.len() - i,
{
    if i < us.len() {
        chunk_end_bounds(us, i, i);
        chunk_end_limits(us, i, i);
        let end = chunk_end(us, i, i);
        let first = us.subrange(i, end);
        let rest = chunks_from(us, end);
        pieces_from(us, end);
        let all = chunks_from(us, i);
        assert(all == seq![first] + rest);
        assert(all.first() == first);
        assert(all.drop_first() =~= rest);
        assert(all.flatten() == first + rest.flatten());
        assert(first + us.skip(end) =~= us.skip(i));
        chars_of_piece(us, i, end, end - i);
        assert forall|k: int| 0 <= k < all.len() implies {
            let c = #[trigger] all[k];
            &&& 0 < c.len() <= CHUNK_MAX_UTTERANCES
            &&& c.len() == 1 || chars_between(c, 0, c.len() as int) <= CHUNK_MAX_CHARS
        } by {
            if k > 0 {
                assert(all[k] == rest[k - 1]);
            }
        }
    } else {
        assert(us.skip(i) =~= Seq::empty());
        assert(chunks_from(us, i).flatten() =~= Seq::empty());
    }
}

/// The pieces put together are the transcript, none is empty, none has too many utterances,
/// and none but a single long utterance has too many characters.
pub proof fn chunks_partition_the_transcript(us: Seq<Utterance>)
    ensures
        chunks_of(us).flatten() == us,
        forall|k: int|
            0 <= k < chunks_of(us).len() ==> {
                let c = #[trigger] chunks_of(us)[k];
                &&& 0 < c.len() <= CHUNK_MAX_UTTERANCES
                &&& c.len() == 1 || chars_between(c, 0, c.len() as int) <= CHUNK_MAX_CHARS
            },
{
    pieces_from(us, 0);
    assert(us.skip(0) =~= us);
}

/// The position at which piece `n` begins.
pub open spec fn chunk_start(us: Seq<Utterance>, n: int) -> int
    decreases n,
{
    if n <= 0 {
        0
    } else {
        let b = chunk_start(us, n - 1);
        if b < us.len() {
            chunk_end(us, b, b)
        } else {
            b
        }
    }
}

proof fn chunk_start_rest(us: Seq<Utterance>, n: int)
    requires
        0 <= n <= chunks_of(us).len(),
    ensures
        0 <= chunk_start(us, n) <= us.len(),
        chunks_from(us, chunk_start(us, n)) == chunks_of(us).skip(n),
    decreases n,
{
    if n == 0 {
        assert(chunks_of(us).skip(0) =~= chunks_of(us));
    } else {
        chunk_start_rest(us, n - 1);
        let b = chunk_start(us, n - 1);
        let rest = chunks_from(us, b);
        assert(rest.len() == chunks_of(us).len() - (n - 1) && rest.len() > 0);
        assert(b < us.len());
        chunk_end_bounds(us, b, b);
        let e = chunk_end(us, b, b);
        assert(rest == seq![us.subrange(b, e)] + chunks_from(us, e));
        assert(rest.skip(1) =~= chunks_from(us, e));
        assert(chunks_of(us).skip(n - 1).skip(1) =~= chunks_of(us).skip(n));
    }
}

/// Piece `n` is the part of the transcript between its start and the next one's.
pub proof fn chunk_is_a_part(us: Seq<Utterance>, n: int)
    requires
        0 <= n < chunks_of(us).len(),
    ensures
        0 <= chunk_start(us, n) < chunk_start(us, n + 1) <= us.len(),
        chunks_of(us)[n] == us.subrange(chunk_start(us, n), chunk_start(us, n + 1)),
{
    chunk_start_rest(us, n);
    chunk_start_rest(us, n + 1);
    let b = chunk_start(us, n);
    let rest = chunks_from(us, b);
    assert(rest[0] == chunks_of(us)[n]);
    assert(b < us.len());
    chunk_end_bounds(us, b, b);
}

/// The last piece ends with the transcript.
pub proof fn chunks_reach_the_end(us: Seq<Utterance>)
    ensures
        chunk_start(us, chunks_of(us).len() as int) == us.len(),
{
    let n = chunks_of(us).len() as int;
    chunk_start_rest(us, n);
    let b = chunk_start(us, n);
    if b < us.len() {
        chunk_end_bounds(us, b, b);
        assert(chunks_from(us, b).len() > 0);
    }
}

/// Everything that a piece says, one utterance behind the other.
pub open spec fn said_in_piece(c: Seq<Utterance>) -> Seq<char> {
    c.map_values(|u: Utterance| u.text@).flatten()
}

proof fn chars_are_counted(us: Seq<Utterance>, from: int, to: int)
    requires
        0 <= from <= to <= us.len(),
    ensures
        chars_between(us, from, to) == said_in_piece(us.subrange(from, to)).len(),
    decreases to - from,
{
    let texts = us.subrange(from, to).map_values(|u: Utterance| u.text@);
    if from < to {
        chars_are_counted(us, from, to - 1);
        let less = us.subrange(from, to - 1).map_values(|u: Utterance| u.text@);
        assert(texts =~= less.push(us[to - 1].text@));
        less.lemma_flatten_push(us[to - 1].text@);
    } else {
        assert(texts =~= Seq::<Seq<char>>::empty());
    }
}

proof fn a_piece_ends_when_full(us: Seq<Utterance>, from: int, to: int)
    requires
        0 <= from <= to <= us.len(),
    ensures
        chunk_end(us, from, to) < us.len() ==> full(us, from, chunk_end(us, from, to)),
    decreases us.len() - to,
{
    if to < us.len() && !full(us, from, to) {
        a_piece_ends_when_full(us, from, to + 1);
    }
}

/// A piece has at most twenty utterances and, unless it is a single one, at most six thousand
/// characters; and it ends only where the next utterance would be too many or too long for it.
pub proof fn pieces_are_filled(us: Seq<Utterance>, n: int)
    requires
        0 <= n < chunks_of(us).len(),
    ensures
        1 <= chunks_of(us)[n].len() <= 20,
        chunks_of(us)[n].len() == 1 || said_in_piece(chunks_of(us)[n]).len() <= 6000,
        n + 1 < chunks_of(us).len() ==> chunks_of(us)[n].len() == 20 || said_in_piece(chunks_of(us)[n]).len()
            + chunks_of(us)[n + 1][0].text@.len() > 6000,
{
    chunks_partition_the_transcript(us);
    chunk_is_a_part(us, n);
    let b = chunk_start(us, n);
    let e = chunk_start(us, n + 1);
    let c = chunks_of(us)[n];
    chars_are_counted(us, b, e);
    chars_are_counted(c, 0, c.len() as int);
    assert(c.subrange(0, c.len() as int) =~= c);
    if n + 1 < chunks_of(us).len() {
        chunk_is_a_part(us, n + 1);
        a_piece_ends_when_full(us, b, b);
        assert(chunks_of(us)[n + 1][0] == us[e]);
    }
}

} // verus!
