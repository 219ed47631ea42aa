//! The scale of a text, and how long it takes to read.

use vstd::prelude::*;
use crate::jobs::SourceLanguage;
use crate::text::{ascii_alnum, cat2, cat4, chars_of, dec, decimal, is_ascii_alnum};

verus! {

/// The scale of a text.
#[derive(Debug, Clone, Copy, PartialEq, Eq, Structural)]
pub struct TextScale {
    pub cjk_chars: usize,
    pub latin_words: usize,
}

/// Han ideographs.
pub open spec fn cjk(c: char) -> bool {
    let n = c as int;
    0x3400 <= n <= 0x4dbf || 0x4e00 <= n <= 0x9fff || 0xf900 <= n <= 0xfaff || 0x20000 <= n <= 0x3134f
}

/// Whether a character is a Han ideograph.
pub fn is_cjk(c: char) -> (b: bool)
    ensures
        b == cjk(c),
{
    let n: u32 = c as u32;
    (0x3400 <= n && n <= 0x4dbf) || (0x4e00 <= n && n <= 0x9fff) || (0xf900 <= n && n <= 0xfaff) || (
    0x20000 <= n && n <= 0x3134f)
}

/// The number of Han ideographs in a text.
pub open spec fn cjk_count(s: Seq<char>) -> nat
    decreases s.len(),
{
    if s.len() == 0 {
        0
    } else {
        cjk_count(s.drop_last()) + (if cjk(s.last()) {
            1nat
        } else {
            0nat
        })
    }
}

/// The number of runs of ASCII letters and digits in a text.
pub open spec fn word_count(s: Seq<char>) -> nat
    decreases s.len(),
{
    if s.len() == 0 {
        0
    } else {
        word_count(s.drop_last()) + (if ascii_alnum(s.last()) && (s.len() == 1 || !ascii_alnum(
            s[s.len() - 2],
        )) {
            1nat
        } else {
            0nat
        })
    }
}

/// The scale of a text.
pub fn measure(text: &str) -> (r: TextScale)
    ensures
        r.cjk_chars == cjk_count(text@),
        r.latin_words == word_count(text@),
{
    let v: Vec<char> = chars_of(text);
    let mut cjk_chars: usize = 0;
    let mut latin_words: usize = 0;
    let mut in_word = false;
    let mut i: usize = 0;
    assert(v@.take(0) =~= Seq::<char>::empty());
    while i < v.len()
        invariant
            i <= v.len(),
            cjk_chars <= i,
            latin_words <= i,
            in_word == (i > 0 && ascii_alnum(v@[i - 1])),
            cjk_chars == cjk_count(v@.take(i as int)),
            latin_words == word_count(v@.take(i as int)),
        decreases v@.len() - i,
    {
        proof {
            assert(v@.take(i + 1).drop_last() =~= v@.take(i as int));
            assert(v@.take(i + 1).last() == v@[i as int]);
        }
        if is_cjk(v[i]) {
            cjk_chars += 1;
        }
        let letter = is_ascii_alnum(v[i]);
        if letter && !in_word {
            latin_words += 1;
        }
        in_word = letter;
        i += 1;
    }
    assert(v@.take(i as int) =~= v@);
    TextScale { cjk_chars, latin_words }
}

impl TextScale {
    /// The scale in words.
    pub open spec fn scale_text(self) -> Seq<char> {
        if self.latin_words == 0 {
            dec(self.cjk_chars as nat) + " 字"@
        } else if self.cjk_chars == 0 {
            dec(self.latin_words as nat) + " 词"@
        } else {
            dec(self.cjk_chars as nat) + " 字 / "@ + dec(self.latin_words as nat) + " 词"@
        }
    }

    /// The scale in words.
    pub fn format_scale(self) -> (r: String)
        ensures
            r@ == self.scale_text(),
    {
        let c = decimal(self.cjk_chars as u64);
        let w = decimal(self.latin_words as u64);
        if self.latin_words == 0 {
            cat2(c.as_str(), " 字")
        } else if self.cjk_chars == 0 {
            cat2(w.as_str(), " 词")
        } else {
            cat4(c.as_str(), " 字 / ", w.as_str(), " 词")
        }
    }
}

/// The version of the reading speeds.
pub const READING_PROFILE_VERSION: &'static str = "reading-profile v1";

/// How long a text takes to read, and how much time it saves.
#[derive(Debug, Clone, Copy, PartialEq, Eq)]
pub struct ReadingEstimate {
    pub scale: TextScale,
    pub video_ms: Option<u64>,
    pub reading_ms: Option<u64>,
    pub saved_ms: Option<u64>,
}

/// The time that a text of a scale takes: 400 characters or 240 words a minute.
pub open spec fn reading_time(scale: TextScale) -> int {
    let ms = scale.cjk_chars * 150 + scale.latin_words * 250;
    if ms > u64::MAX {
        u64::MAX as int
    } else {
        ms
    }
}

/// The language is known, so that the reading speeds apply.
pub open spec fn has_profile(language: Option<SourceLanguage>) -> bool {
    language == Some(SourceLanguage::Zh) || language == Some(SourceLanguage::En)
}

fn time_of(scale: TextScale) -> (r: u64)
    ensures
        r == reading_time(scale),
{
    let ms: u128 = scale.cjk_chars as u128 * 150 + scale.latin_words as u128 * 250;
    if ms > u64::MAX as u128 {
        u64::MAX
    } else {
        ms as u64
    }
}

/// Estimates how long a text takes to read. Nothing is made up: where the language is not known
/// there is no estimate, and where the length of the video is not known nothing is saved.
pub fn estimate(text: &str, video_ms: Option<u64>, language: Option<SourceLanguage>) -> (r: ReadingEstimate)
    ensures
        r.scale.cjk_chars == cjk_count(text@),
        r.scale.latin_words == word_count(text@),
        r.video_ms == video_ms,
        r.reading_ms == (if has_profile(language) {
            Some(reading_time(r.scale) as u64)
        } else {
            None
        }),
        r.saved_ms == (match video_ms {
            Some(v) if has_profile(language) => Some(
                if reading_time(r.scale) >= v {
                    0
                } else {
                    (v - reading_time(r.scale)) as u64
                },
            ),
            _ => None,
        }),
{
    let scale = measure(text);
    let known = match language {
        Some(l) => l == SourceLanguage::Zh || l == SourceLanguage::En,
        None => false,
    };
    if !known {
        return ReadingEstimate { scale, video_ms, reading_ms: None, saved_ms: None };
    }
    let reading: u64 = time_of(scale);
    let saved_ms = match video_ms {
        Some(v) => Some(
            if reading >= v {
                0
            } else {
                v - reading
            },
        ),
        None => None,
    };
    ReadingEstimate { scale, video_ms, reading_ms: Some(reading), saved_ms }
}

// ---- What is counted ----

/// Every Han ideograph counts once, wherever it stands, and nothing else counts.
pub proof fn every_ideograph_counts_once(s: Seq<char>)
    ensures
        cjk_count(s) == s.filter(
            |c: char|
                '\u{3400}' as int <= c as int <= '\u{4dbf}' as int || '\u{4e00}' as int <= c as int
                    <= '\u{9fff}' as int || '\u{f900}' as int <= c as int <= '\u{faff}' as int || '\u{20000}' as int
                    <= c as int <= '\u{3134f}' as int,
        ).len(),
    decreases s.len(),
{
    reveal(Seq::filter);
    if s.len() > 0 {
        every_ideograph_counts_once(s.drop_last());
    }
}

/// A run of ASCII letters and digits is one word, however long, and words on both sides of any
/// other character count on their own.
pub proof fn words_are_counted_by_runs(run: Seq<char>, a: Seq<char>, c: char, b: Seq<char>)
    requires
        run.len() > 0,
        forall|i: int|
            0 <= i < run.len() ==> {
                let n = (#[trigger] run[i]) as int;
                0x30 <= n <= 0x39 || 0x41 <= n <= 0x5a || 0x61 <= n <= 0x7a
            },
        !(0x30 <= c as int <= 0x39 || 0x41 <= c as int <= 0x5a || 0x61 <= c as int <= 0x7a),
    ensures
        word_count(run) == 1,
        word_count(a.push(c) + b) == word_count(a) + word_count(b),
        word_count(Seq::empty()) == 0,
{
    one_run(run);
    counts_add(a, c, b);
}

proof fn one_run(run: Seq<char>)
    requires
        run.len() > 0,
        forall|i: int| 0 <= i < run.len() ==> ascii_alnum(#[trigger] run[i]),
    ensures
        word_count(run) == 1,
    decreases run.len(),
{
    let r = run.drop_last();
    assert(ascii_alnum(run[run.len() - 1]));
    if run.len() > 1 {
        assert(ascii_alnum(run[run.len() - 2]));
        assert forall|i: int| 0 <= i < r.len() implies ascii_alnum(#[trigger] r[i]) by {
            assert(r[i] == run[i]);
        }
        one_run(r);
    } else {
        assert(r =~= Seq::<char>::empty());
        assert(word_count(r) == 0);
    }
}

proof fn counts_add(a: Seq<char>, c: char, b: Seq<char>)
    requires
        !ascii_alnum(c),
    ensures
        word_count(a.push(c) + b) == word_count(a) + word_count(b),
    decreases b.len(),
{
    let s = a.push(c) + b;
    if b.len() == 0 {
        assert(s =~= a.push(c));
        assert(s.drop_last() =~= a);
    } else {
        counts_add(a, c, b.drop_last());
        assert(s.drop_last() =~= a.push(c) + b.drop_last());
        assert(s.last() == b.last());
        if b.len() > 1 {
            assert(s[s.len() - 2] == b[b.len() - 2]);
        } else {
            assert(s[s.len() - 2] == c);
        }
    }
}

/// Four hundred ideographs, and two hundred and forty words, take a minute each; the times add up
/// as long as they can be counted.
pub proof fn reading_takes_its_time(a: TextScale, b: TextScale, both: TextScale)
    requires
        both.cjk_chars == a.cjk_chars + b.cjk_chars,
        both.latin_words == a.latin_words + b.latin_words,
    ensures
        a.cjk_chars == 400 && a.latin_words == 0 ==> reading_time(a) == 60_000,
        a.cjk_chars == 0 && a.latin_words == 240 ==> reading_time(a) == 60_000,
        a.cjk_chars == 0 && a.latin_words == 0 ==> reading_time(a) == 0,
        reading_time(both) < u64::MAX ==> reading_time(both) == reading_time(a) + reading_time(b),
        0 <= reading_time(a) <= reading_time(both) <= u64::MAX,
{
}

/// The words of a scale begin with the number of ideographs where there are any or there are no
/// words; where there are words, their number is told too.
pub proof fn a_scale_tells_its_numbers(s: TextScale)
    ensures
        s.cjk_chars > 0 || s.latin_words == 0 ==> (dec(s.cjk_chars as nat) + " 字"@).is_prefix_of(s.scale_text()),
        s.latin_words > 0 ==> (dec(s.latin_words as nat) + " 词"@).is_suffix_of(s.scale_text()),
        s.latin_words > 0 && s.cjk_chars == 0 ==> s.scale_text() == dec(s.latin_words as nat) + " 词"@,
{
    reveal_strlit(" 字");
    reveal_strlit(" 字 / ");
    let a = dec(s.cjk_chars as nat);
    let b = dec(s.latin_words as nat);
    let t = s.scale_text();
    if s.cjk_chars > 0 && s.latin_words > 0 {
        assert(" 字 / "@ =~= " 字"@ + " 字 / "@.skip(2));
        assert(t =~= (a + " 字"@) + (" 字 / "@.skip(2) + b + " 词"@));
        assert(t =~= (a + " 字 / "@) + (b + " 词"@));
    }
}

} // verus!
