//! What a text says, apart from its punctuation: words, and values that must not change.

use vstd::prelude::*;
use crate::text::{
    ascii_alnum, at, blank, chars_of, digit, is_ascii_alnum, is_at, is_blank, is_digit, is_white, lower,
    lower_char, lowered, same_texts, text_of, views, views_push, white,
};

verus! {

/// The characters that `char::is_alphanumeric` accepts.
pub uninterp spec fn unicode_alnum(c: char) -> bool;

/// `char::is_alphanumeric`, a function of the character alone.
#[verifier::external_body]
fn is_unicode_alnum(c: char) -> (b: bool)
    ensures
        b == unicode_alnum(c),
{
    c.is_alphanumeric()
}

/// A letter or digit outside ASCII: a word of its own.
pub open spec fn word_char(c: char) -> bool {
    c as int >= 128 && unicode_alnum(c)
}

fn is_word_char(c: char) -> (b: bool)
    ensures
        b == word_char(c),
{
    c as u32 >= 128 && is_unicode_alnum(c)
}

/// The end of the run of ASCII letters and digits that begins at `i`.
pub open spec fn word_end(s: Seq<char>, i: int) -> int
    decreases s.len() - i,
{
    if 0 <= i < s.len() && ascii_alnum(s[i]) {
        word_end(s, i + 1)
    } else {
        i
    }
}

proof fn word_end_bounds(s: Seq<char>, i: int)
    requires
        0 <= i <= s.len(),
    ensures
        i <= word_end(s, i) <= s.len(),
    decreases s.len() - i,
{
    if i < s.len() && ascii_alnum(s[i]) {
        word_end_bounds(s, i + 1);
    }
}

/// The words of `s` from position `i` on: runs of ASCII letters and digits in lower case,
/// and single letters and digits of other scripts.
pub open spec fn words_from(s: Seq<char>, i: int) -> Seq<Seq<char>>
    decreases s.len() - i,
{
    if i < 0 || i >= s.len() {
        Seq::empty()
    } else if ascii_alnum(s[i]) {
        let end = word_end(s, i);
        if i < end <= s.len() {
            seq![lowered(s.subrange(i, end))] + words_from(s, end)
        } else {
            Seq::empty()
        }
    } else if word_char(s[i]) {
        seq![seq![s[i]]] + words_from(s, i + 1)
    } else {
        words_from(s, i + 1)
    }
}

/// The words of a text.
pub open spec fn words(s: Seq<char>) -> Seq<Seq<char>> {
    words_from(s, 0)
}

fn lowered_part(v: &Vec<char>, from: usize, to: usize) -> (r: String)
    requires
        from <= to <= v@.len(),
    ensures
        r@ == lowered(v@.subrange(from as int, to as int)),
{
    let mut out = String::new();
    let mut i: usize = from;
    while i < to
        invariant
            from <= i <= to <= v@.len(),
            out@ =~= lowered(v@.subrange(from as int, i as int)),
        decreases to - i,
    {
        out.push(lower_char(v[i]));
        i += 1;
    }
    out
}

fn one_char(c: char) -> (r: String)
    ensures
        r@ == seq![c],
{
    let mut out = String::new();
    out.push(c);
    assert(out@ =~= seq![c]);
    out
}

fn add_token(out: &mut Vec<String>, token: String)
    ensures
        views(final(out)@) == views(old(out)@) + seq![token@],
{
    out.push(token);
    proof {
        views_push(old(out)@, token);
        assert(views(old(out)@).push(token@) =~= views(old(out)@) + seq![token@]);
    }
}

/// The words of a text, in order.
pub fn normalized_lexical_tokens(text: &str) -> (r: Vec<String>)
    ensures
        views(r@) == words(text@),
{
    let v: Vec<char> = chars_of(text);
    let mut out: Vec<String> = Vec::new();
    let mut i: usize = 0;
    assert(views(out@) + words_from(v@, 0) =~= words_from(v@, 0));
    while i < v.len()
        invariant
            i <= v@.len(),
            views(out@) + words_from(v@, i as int) == words_from(v@, 0),
        decreases v@.len() - i,
    {
        let ghost before = views(out@);
        let ghost start = i as int;
        if is_ascii_alnum(v[i]) {
            let from: usize = i;
            while i < v.len() && is_ascii_alnum(v[i])
                invariant
                    from <= i <= v@.len(),
                    word_end(v@, from as int) == word_end(v@, i as int),
                decreases v@.len() - i,
            {
                i += 1;
            }
            proof {
                word_end_bounds(v@, start + 1);
            }
            let token = lowered_part(&v, from, i);
            add_token(&mut out, token);
            assert(before + (seq![token@] + words_from(v@, i as int)) =~= views(out@) + words_from(
                v@,
                i as int,
            ));
        } else {
            if is_word_char(v[i]) {
                let token = one_char(v[i]);
                add_token(&mut out, token);
                assert(before + (seq![token@] + words_from(v@, i + 1)) =~= views(out@) + words_from(
                    v@,
                    i + 1,
                ));
            }
            i += 1;
        }
    }
    assert(views(out@) + words_from(v@, i as int) =~= views(out@));
    out
}

// ---- Values that must not change ----

/// The signs that stand before an amount of money.
pub open spec fn currency(c: char) -> bool {
    c == '$' || c == '¥' || c == '￥' || c == '€' || c == '£' || c == '₩' || c == '₹'
}

/// Whether a character stands before an amount of money.
pub fn is_currency_symbol(c: char) -> (b: bool)
    ensures
        b == currency(c),
{
    c == '$' || c == '¥' || c == '￥' || c == '€' || c == '£' || c == '₩' || c == '₹'
}

/// `prefix` stands in `s` at `i`, whatever the case of its ASCII letters.
pub open spec fn at_any_case(s: Seq<char>, prefix: Seq<char>, i: int) -> bool {
    0 <= i && i + prefix.len() <= s.len() && lowered(s.subrange(i, i + prefix.len() as int)) == prefix
}

/// Whether `prefix` stands in `s` at `i`, whatever the case of its ASCII letters.
pub fn ascii_prefix_case_insensitive(s: &Vec<char>, prefix: &Vec<char>, i: usize) -> (b: bool)
    ensures
        b == at_any_case(s@, prefix@, i as int),
{
    if prefix.len() > s.len() || i > s.len() - prefix.len() {
        return false;
    }
    let mut j: usize = 0;
    while j < prefix.len()
        invariant
            j <= prefix@.len(),
            i + prefix.len() <= s.len(),
            forall|k: int| 0 <= k < j ==> lower(s@[i + k]) == prefix@[k],
        decreases prefix@.len() - j,
    {
        if lower_char(s[i + j]) != prefix[j] {
            assert(lowered(s@.subrange(i as int, i + prefix@.len() as int))[j as int] != prefix@[j as int]);
            return false;
        }
        j += 1;
    }
    assert(lowered(s@.subrange(i as int, i + prefix@.len() as int)) =~= prefix@);
    true
}

/// The characters that can follow in a number, a date or a time.
pub open spec fn number_char(c: char) -> bool {
    digit(c) || c == '.' || c == '-' || c == '/' || c == ':' || c == '%' || c == ','
}

fn is_number_char(c: char) -> (b: bool)
    ensures
        b == number_char(c),
{
    is_digit(c) || c == '.' || c == '-' || c == '/' || c == ':' || c == '%' || c == ','
}

/// The end of the run of number characters that holds position `i`.
pub open spec fn number_run(s: Seq<char>, i: int) -> int
    decreases s.len() - i,
{
    if 0 <= i < s.len() && number_char(s[i]) {
        number_run(s, i + 1)
    } else {
        i
    }
}

proof fn number_run_bounds(s: Seq<char>, i: int)
    requires
        0 <= i <= s.len(),
    ensures
        i <= number_run(s, i) <= s.len(),
    decreases s.len() - i,
{
    if i < s.len() && number_char(s[i]) {
        number_run_bounds(s, i + 1);
    }
}

/// The end of the number that begins at `start`.
pub fn protected_number_end(s: &Vec<char>, start: usize) -> (end: usize)
    requires
        start < s@.len(),
    ensures
        end == number_run(s@, start + 1),
        start < end <= s@.len(),
{
    assert(start < s.len());
    let mut end: usize = start + 1;
    while end < s.len() && is_number_char(s[end])
        invariant
            start < end <= s@.len(),
            number_run(s@, start + 1) == number_run(s@, end as int),
        decreases s@.len() - end,
    {
        end += 1;
    }
    end
}

/// The characters that a URL can hold.
pub open spec fn url_char(c: char) -> bool {
    ascii_alnum(c) || c == '-' || c == '.' || c == '_' || c == '~' || c == ':' || c == '/' || c == '?' || c
        == '#' || c == '[' || c == ']' || c == '@' || c == '!' || c == '$' || c == '&' || c == '\'' || c
        == '(' || c == ')' || c == '*' || c == '+' || c == ',' || c == ';' || c == '=' || c == '%'
}

fn is_url_char(c: char) -> (b: bool)
    ensures
        b == url_char(c),
{
    is_ascii_alnum(c) || c == '-' || c == '.' || c == '_' || c == '~' || c == ':' || c == '/' || c == '?'
        || c == '#' || c == '[' || c == ']' || c == '@' || c == '!' || c == '$' || c == '&' || c == '\''
        || c == '(' || c == ')' || c == '*' || c == '+' || c == ',' || c == ';' || c == '=' || c == '%'
}

/// The end of the run of URL characters that begins at `i`.
pub open spec fn url_end(s: Seq<char>, i: int) -> int
    decreases s.len() - i,
{
    if 0 <= i < s.len() && url_char(s[i]) {
        url_end(s, i + 1)
    } else {
        i
    }
}

proof fn url_end_bounds(s: Seq<char>, i: int)
    requires
        0 <= i <= s.len(),
    ensures
        i <= url_end(s, i) <= s.len(),
    decreases s.len() - i,
{
    if i < s.len() && url_char(s[i]) {
        url_end_bounds(s, i + 1);
    }
}

/// The end of the URL that begins at `start`.
pub fn protected_url_end(s: &Vec<char>, start: usize) -> (end: usize)
    requires
        start <= s@.len(),
    ensures
        end == url_end(s@, start as int),
        start <= end <= s@.len(),
{
    let mut end: usize = start;
    while end < s.len() && is_url_char(s[end])
        invariant
            start <= end <= s@.len(),
            url_end(s@, start as int) == url_end(s@, end as int),
        decreases s@.len() - end,
    {
        end += 1;
    }
    end
}

proof fn url_end_step(s: Seq<char>, i: int, k: int)
    requires
        0 <= i,
        0 <= k,
        i + k <= s.len(),
        forall|j: int| i <= j < i + k ==> url_char(#[trigger] s[j]),
    ensures
        url_end(s, i) >= i + k,
    decreases k,
{
    if k > 0 {
        url_end_step(s, i + 1, k - 1);
    } else {
        url_end_bounds(s, i);
    }
}

proof fn scheme_is_part_of_the_url(s: Seq<char>, i: int)
    ensures
        at_any_case(s, "https://"@, i) ==> i + 8 <= url_end(s, i) <= s.len() && "https://"@.len() == 8,
        at_any_case(s, "http://"@, i) ==> i + 7 <= url_end(s, i) <= s.len() && "http://"@.len() == 7,
{
    reveal_strlit("https://");
    reveal_strlit("http://");
    if at_any_case(s, "https://"@, i) {
        let p = "https://"@;
        assert forall|j: int| i <= j < i + 8 implies url_char(#[trigger] s[j]) by {
            assert(lowered(s.subrange(i, i + 8))[j - i] == p[j - i]);
            assert(lower(s[j]) == p[j - i]);
        }
        url_end_step(s, i, 8);
        url_end_bounds(s, i);
    }
    if at_any_case(s, "http://"@, i) {
        let p = "http://"@;
        assert forall|j: int| i <= j < i + 7 implies url_char(#[trigger] s[j]) by {
            assert(lowered(s.subrange(i, i + 7))[j - i] == p[j - i]);
            assert(lower(s[j]) == p[j - i]);
        }
        url_end_step(s, i, 7);
        url_end_bounds(s, i);
    }
}

/// The first position from `i` on that is not white space.
pub open spec fn past_white(s: Seq<char>, i: int) -> int
    decreases s.len() - i,
{
    if 0 <= i < s.len() && white(s[i]) {
        past_white(s, i + 1)
    } else {
        i
    }
}

/// The end of the number and its unit that begin at `i`.
pub open spec fn amount_end(s: Seq<char>, i: int) -> int {
    let end = number_run(s, i + 1);
    if at(s, "元"@, end) || at(s, "円"@, end) {
        end + 1
    } else if at(s, "美元"@, end) {
        end + 2
    } else {
        end
    }
}

/// An amount of money that begins at `i` with its sign: the position of its first digit.
pub open spec fn money_at(s: Seq<char>, i: int) -> Option<int> {
    let n = past_white(s, i + 1);
    if currency(s[i]) && n < s.len() && digit(s[n]) {
        Some(n)
    } else {
        None
    }
}

/// The URLs, amounts and numbers of `s` from position `i` on. The scheme of a URL is in
/// lower case and no white space stands behind a currency sign.
pub open spec fn values_from(s: Seq<char>, i: int) -> Seq<Seq<char>>
    decreases s.len() - i,
{
    if i < 0 || i >= s.len() {
        Seq::empty()
    } else if at_any_case(s, "https://"@, i) && i + 8 <= url_end(s, i) <= s.len() {
        seq!["https://"@ + s.subrange(i + 8, url_end(s, i))] + values_from(s, url_end(s, i))
    } else if at_any_case(s, "http://"@, i) && i + 7 <= url_end(s, i) <= s.len() {
        seq!["http://"@ + s.subrange(i + 7, url_end(s, i))] + values_from(s, url_end(s, i))
    } else if money_at(s, i) is Some && i < number_run(s, money_at(s, i)->0 + 1) <= s.len() {
        let n = money_at(s, i)->0;
        seq![seq![s[i]] + s.subrange(n, number_run(s, n + 1))] + values_from(s, number_run(s, n + 1))
    } else if digit(s[i]) && i < amount_end(s, i) <= s.len() {
        seq![s.subrange(i, amount_end(s, i))] + values_from(s, amount_end(s, i))
    } else {
        values_from(s, i + 1)
    }
}

/// The URLs, amounts and numbers of a text.
pub open spec fn values(s: Seq<char>) -> Seq<Seq<char>> {
    values_from(s, 0)
}

proof fn past_white_bounds(s: Seq<char>, i: int)
    requires
        0 <= i <= s.len(),
    ensures
        i <= past_white(s, i) <= s.len(),
    decreases s.len() - i,
{
    if i < s.len() && white(s[i]) {
        past_white_bounds(s, i + 1);
    }
}

fn skip_white(s: &Vec<char>, from: usize) -> (n: usize)
    requires
        from <= s@.len(),
    ensures
        n == past_white(s@, from as int),
        from <= n <= s@.len(),
{
    let mut n: usize = from;
    while n < s.len() && is_white(s[n])
        invariant
            from <= n <= s@.len(),
            past_white(s@, from as int) == past_white(s@, n as int),
        decreases s@.len() - n,
    {
        n += 1;
    }
    n
}

fn unit_end(s: &Vec<char>, i: usize) -> (end: usize)
    requires
        i < s@.len(),
    ensures
        end == amount_end(s@, i as int),
        i < end <= s@.len(),
{
    let end: usize = protected_number_end(s, i);
    assert(end <= s.len());
    let yuan: Vec<char> = chars_of("元");
    let yen: Vec<char> = chars_of("円");
    let dollar: Vec<char> = chars_of("美元");
    proof {
        reveal_strlit("元");
        reveal_strlit("円");
        reveal_strlit("美元");
    }
    if is_at(s, &yuan, end) || is_at(s, &yen, end) {
        end + 1
    } else if is_at(s, &dollar, end) {
        end + 2
    } else {
        end
    }
}

fn scheme_and_rest(scheme: &str, v: &Vec<char>, from: usize, to: usize) -> (r: String)
    requires
        from <= to <= v@.len(),
    ensures
        r@ == scheme@ + v@.subrange(from as int, to as int),
{
    let mut out = scheme.to_owned();
    let rest = text_of(v, from, to);
    out.append(rest.as_str());
    out
}

/// The URLs, amounts and numbers of a text, in order.
pub fn protected_tokens(text: &str) -> (r: Vec<String>)
    ensures
        views(r@) == values(text@),
{
    let v: Vec<char> = chars_of(text);
    let https: Vec<char> = chars_of("https://");
    let http: Vec<char> = chars_of("http://");
    let mut out: Vec<String> = Vec::new();
    let mut i: usize = 0;
    assert(views(out@) + values_from(v@, 0) =~= values_from(v@, 0));
    while i < v.len()
        invariant
            i <= v@.len(),
            https@ == "https://"@,
            http@ == "http://"@,
            views(out@) + values_from(v@, i as int) == values_from(v@, 0),
        decreases v@.len() - i,
    {
        let ghost before = views(out@);
        let ghost start = i as int;
        proof {
            scheme_is_part_of_the_url(v@, start);
            past_white_bounds(v@, start + 1);
        }
        let mut token: Option<String> = None;
        let mut end: usize = i + 1;
        if ascii_prefix_case_insensitive(&v, &https, i) {
            end = protected_url_end(&v, i);
            token = Some(scheme_and_rest("https://", &v, i + 8, end));
        } else if ascii_prefix_case_insensitive(&v, &http, i) {
            end = protected_url_end(&v, i);
            token = Some(scheme_and_rest("http://", &v, i + 7, end));
        } else {
            let n: usize = skip_white(&v, i + 1);
            if is_currency_symbol(v[i]) && n < v.len() && is_digit(v[n]) {
                end = protected_number_end(&v, n);
                let sign = one_char(v[i]);
                token = Some(scheme_and_rest(sign.as_str(), &v, n, end));
            } else if is_digit(v[i]) {
                end = unit_end(&v, i);
                token = Some(text_of(&v, i, end));
            }
        }
        match token {
            Some(t) => {
                add_token(&mut out, t);
                assert(before + (seq![t@] + values_from(v@, end as int)) =~= views(out@) + values_from(
                    v@,
                    end as int,
                ));
            },
            None => {},
        }
        i = end;
    }
    assert(views(out@) + values_from(v@, i as int) =~= views(out@));
    out
}

// ---- Comparing two texts ----

/// How often `t` occurs in `s`.
pub open spec fn count(s: Seq<Seq<char>>, t: Seq<char>) -> nat
    decreases s.len(),
{
    if s.len() == 0 {
        0
    } else {
        count(s.drop_last(), t) + (if s.last() == t {
            1nat
        } else {
            0nat
        })
    }
}

/// How often a text occurs in a list.
pub fn token_count(tokens: &Vec<String>, t: &String) -> (n: usize)
    ensures
        n == count(views(tokens@), t@),
{
    let mut n: usize = 0;
    let mut i: usize = 0;
    assert(views(tokens@).take(0) =~= Seq::<Seq<char>>::empty());
    while i < tokens.len()
        invariant
            i <= tokens.len(),
            n <= i,
            n == count(views(tokens@).take(i as int), t@),
        decreases tokens@.len() - i,
    {
        proof {
            assert(views(tokens@).take(i + 1).drop_last() =~= views(tokens@).take(i as int));
            assert(views(tokens@).take(i + 1).last() == tokens@[i as int]@);
        }
        if tokens[i] == *t {
            n += 1;
        }
        i += 1;
    }
    assert(views(tokens@).take(i as int) =~= views(tokens@));
    n
}

/// Every text occurs in `a` at most as often as in `b`.
pub open spec fn no_more_often(a: Seq<Seq<char>>, b: Seq<Seq<char>>) -> bool {
    forall|t: Seq<char>| count(a, t) <= #[trigger] count(b, t)
}

proof fn count_absent(s: Seq<Seq<char>>, t: Seq<char>)
    requires
        !s.contains(t),
    ensures
        count(s, t) == 0,
    decreases s.len(),
{
    if s.len() > 0 {
        assert(s[s.len() - 1] != t);
        assert(!s.drop_last().contains(t)) by {
            if s.drop_last().contains(t) {
                let j = choose|j: int| 0 <= j < s.drop_last().len() && s.drop_last()[j] == t;
                assert(s[j] == t);
            }
        }
        count_absent(s.drop_last(), t);
    }
}

fn is_no_more_often(a: &Vec<String>, b: &Vec<String>) -> (r: bool)
    ensures
        r == no_more_often(views(a@), views(b@)),
{
    let mut i: usize = 0;
    while i < a.len()
        invariant
            i <= a@.len(),
            forall|j: int|
                0 <= j < i ==> count(views(a@), #[trigger] a@[j]@) <= count(views(b@), a@[j]@),
        decreases a@.len() - i,
    {
        if token_count(a, &a[i]) > token_count(b, &a[i]) {
            assert(count(views(a@), a@[i as int]@) > count(views(b@), a@[i as int]@));
            return false;
        }
        i += 1;
    }
    assert forall|t: Seq<char>| count(views(a@), t) <= #[trigger] count(views(b@), t) by {
        if views(a@).contains(t) {
            let j = choose|j: int| 0 <= j < views(a@).len() && views(a@)[j] == t;
            assert(a@[j]@ == t);
        } else {
            count_absent(views(a@), t);
        }
    }
    true
}

/// `needles[i..]` occurs in `hay[j..]` in order, with gaps allowed.
pub open spec fn ordered_from(needles: Seq<Seq<char>>, i: int, hay: Seq<Seq<char>>, j: int) -> bool
    decreases hay.len() - j,
{
    if i >= needles.len() {
        true
    } else if j < 0 || j >= hay.len() {
        false
    } else if needles[i] == hay[j] {
        ordered_from(needles, i + 1, hay, j + 1)
    } else {
        ordered_from(needles, i, hay, j + 1)
    }
}

/// `needles` occurs in `hay` in order, with gaps allowed.
pub open spec fn ordered_within(needles: Seq<Seq<char>>, hay: Seq<Seq<char>>) -> bool {
    ordered_from(needles, 0, hay, 0)
}

/// Whether one list occurs in another in order, with gaps allowed.
pub fn is_ordered_subsequence(needles: &Vec<String>, haystack: &Vec<String>) -> (r: bool)
    ensures
        r == ordered_within(views(needles@), views(haystack@)),
{
    let mut i: usize = 0;
    let mut j: usize = 0;
    while i < needles.len() && j < haystack.len()
        invariant
            i <= needles@.len(),
            j <= haystack@.len(),
            ordered_from(views(needles@), 0, views(haystack@), 0) == ordered_from(
                views(needles@),
                i as int,
                views(haystack@),
                j as int,
            ),
        decreases haystack@.len() - j,
    {
        assert(views(needles@)[i as int] == needles@[i as int]@);
        assert(views(haystack@)[j as int] == haystack@[j as int]@);
        if needles[i] == haystack[j] {
            i += 1;
        }
        j += 1;
    }
    i == needles.len()
}

/// Positions that rise strictly, one for each needle, at which the needles stand.
pub open spec fn witnesses(
    positions: Seq<int>,
    needles: Seq<Seq<char>>,
    i: int,
    hay: Seq<Seq<char>>,
    j: int,
) -> bool {
    &&& positions.len() == needles.len() - i
    &&& forall|k: int| 0 <= k < positions.len() ==> j <= #[trigger] positions[k] < hay.len()
    &&& forall|k: int| 0 <= k < positions.len() ==> hay[#[trigger] positions[k]] == needles[i + k]
    &&& forall|k: int, l: int| 0 <= k < l < positions.len() ==> positions[k] < positions[l]
}

proof fn ordered_gives_positions(
    needles: Seq<Seq<char>>,
    i: int,
    hay: Seq<Seq<char>>,
    j: int,
) -> (positions: Seq<int>)
    requires
        0 <= i <= needles.len(),
        0 <= j <= hay.len(),
        ordered_from(needles, i, hay, j),
    ensures
        witnesses(positions, needles, i, hay, j),
    decreases hay.len() - j,
{
    if i >= needles.len() {
        Seq::empty()
    } else if needles[i] == hay[j] {
        let rest = ordered_gives_positions(needles, i + 1, hay, j + 1);
        let positions = seq![j] + rest;
        assert forall|k: int| 0 <= k < positions.len() implies hay[#[trigger] positions[k]] == needles[i + k] by {
            if k > 0 {
                assert(positions[k] == rest[k - 1]);
            }
        }
        assert forall|k: int, l: int| 0 <= k < l < positions.len() implies positions[k] < positions[l] by {
            assert(positions[l] == rest[l - 1]);
            if k > 0 {
                assert(positions[k] == rest[k - 1]);
            }
        }
        positions
    } else {
        ordered_gives_positions(needles, i, hay, j + 1)
    }
}

proof fn positions_give_ordered(
    positions: Seq<int>,
    needles: Seq<Seq<char>>,
    i: int,
    hay: Seq<Seq<char>>,
    j: int,
)
    requires
        0 <= i <= needles.len(),
        0 <= j <= hay.len(),
        witnesses(positions, needles, i, hay, j),
    ensures
        ordered_from(needles, i, hay, j),
    decreases hay.len() - j,
{
    if i < needles.len() {
        assert(j <= positions[0] < hay.len());
        if needles[i] == hay[j] {
            let rest = positions.skip(1);
            assert forall|k: int| 0 <= k < rest.len() implies j + 1 <= #[trigger] rest[k] < hay.len() by {
                assert(positions[0] < positions[k + 1]);
            }
            positions_give_ordered(rest, needles, i + 1, hay, j + 1);
        } else {
            assert(positions[0] != j) by {
                assert(hay[positions[0]] == needles[i + 0]);
            }
            assert forall|k: int| 0 <= k < positions.len() implies j + 1 <= #[trigger] positions[k] < hay.len() by {
                if k > 0 {
                    assert(positions[0] < positions[k]);
                }
            }
            positions_give_ordered(positions, needles, i, hay, j + 1);
        }
    }
}

/// The greedy walk finds the needles in order exactly if there are strictly rising positions
/// at which they stand.
pub proof fn ordered_subsequence_has_positions(needles: Seq<Seq<char>>, hay: Seq<Seq<char>>)
    ensures
        ordered_within(needles, hay) <==> exists|positions: Seq<int>|
            #[trigger] witnesses(positions, needles, 0, hay, 0),
{
    if ordered_within(needles, hay) {
        let positions = ordered_gives_positions(needles, 0, hay, 0);
        assert(witnesses(positions, needles, 0, hay, 0));
    }
    if exists|positions: Seq<int>| #[trigger] witnesses(positions, needles, 0, hay, 0) {
        let positions = choose|positions: Seq<int>| #[trigger] witnesses(positions, needles, 0, hay, 0);
        positions_give_ordered(positions, needles, 0, hay, 0);
    }
}

/// The outcome of a check with a message.
pub open spec fn complaint(r: Result<(), String>) -> Option<Seq<char>> {
    match r {
        Ok(_) => None,
        Err(m) => Some(m@),
    }
}

/// How `output` fails to say exactly what `source` says.
pub open spec fn faithful_complaint(source: Seq<char>, output: Seq<char>) -> Option<Seq<char>> {
    if blank(output) || words(output) != words(source) {
        Some("faithful output changed the normalized lexical sequence"@)
    } else if values(source) != values(output) {
        Some("faithful output changed the ordered number or URL multiset"@)
    } else {
        None
    }
}

/// Accepts an output with the words and the values of its source, in their order.
pub fn validate_faithful_text_pair(source: &str, output: &str) -> (r: Result<(), String>)
    ensures
        complaint(r) == faithful_complaint(source@, output@),
{
    let source_tokens = normalized_lexical_tokens(source);
    let output_tokens = normalized_lexical_tokens(output);
    if is_blank(output) || !same_texts(&output_tokens, &source_tokens) {
        return Err("faithful output changed the normalized lexical sequence".to_owned());
    }
    if !same_texts(&protected_tokens(source), &protected_tokens(output)) {
        return Err("faithful output changed the ordered number or URL multiset".to_owned());
    }
    Ok(())
}

/// How `output` says something that `source` does not support.
pub open spec fn support_complaint(source: Seq<char>, output: Seq<char>) -> Option<Seq<char>> {
    if words(output).len() == 0 {
        Some("mapped supporting block has no lexical content"@)
    } else if !ordered_within(words(output), words(source)) {
        Some("mapped supporting block has no conservative lexical support"@)
    } else if !no_more_often(values(output), values(source)) {
        Some("supporting block introduced a number or URL outside refs"@)
    } else if !ordered_within(values(output), values(source)) {
        Some("supporting block reordered protected values outside refs"@)
    } else {
        None
    }
}

/// Accepts an output whose words and values all stand in the source, in their order.
pub fn validate_support(source: &str, output: &str) -> (r: Result<(), String>)
    ensures
        complaint(r) == support_complaint(source@, output@),
{
    let source_tokens = normalized_lexical_tokens(source);
    let output_tokens = normalized_lexical_tokens(output);
    if output_tokens.len() == 0 {
        assert(words(output@).len() == 0);
        return Err("mapped supporting block has no lexical content".to_owned());
    }
    assert(words(output@).len() == output_tokens@.len());
    if !is_ordered_subsequence(&output_tokens, &source_tokens) {
        return Err("mapped supporting block has no conservative lexical support".to_owned());
    }
    let source_values = protected_tokens(source);
    let output_values = protected_tokens(output);
    if !is_no_more_often(&output_values, &source_values) {
        return Err("supporting block introduced a number or URL outside refs".to_owned());
    }
    if !is_ordered_subsequence(&output_values, &source_values) {
        return Err("supporting block reordered protected values outside refs".to_owned());
    }
    Ok(())
}

// ---- A final line break ----

proof fn word_end_with_break(s: Seq<char>, i: int)
    requires
        0 <= i <= s.len(),
    ensures
        word_end(s.push('\n'), i) == word_end(s, i),
    decreases s.len() - i,
{
    if i < s.len() && ascii_alnum(s[i]) {
        word_end_with_break(s, i + 1);
    }
}

proof fn words_with_break(s: Seq<char>, i: int)
    requires
        0 <= i <= s.len(),
    ensures
        words_from(s.push('\n'), i) == words_from(s, i),
    decreases s.len() - i,
{
    let t = s.push('\n');
    if i == s.len() {
        assert(words_from(t, i + 1) =~= Seq::<Seq<char>>::empty());
    } else if ascii_alnum(s[i]) {
        word_end_with_break(s, i);
        word_end_bounds(s, i + 1);
        let end = word_end(s, i);
        assert(t.subrange(i, end) =~= s.subrange(i, end));
        words_with_break(s, end);
    } else {
        words_with_break(s, i + 1);
    }
}

proof fn url_end_with_break(s: Seq<char>, i: int)
    requires
        0 <= i <= s.len(),
    ensures
        url_end(s.push('\n'), i) == url_end(s, i),
    decreases s.len() - i,
{
    if i < s.len() && url_char(s[i]) {
        url_end_with_break(s, i + 1);
    }
}

proof fn number_run_with_break(s: Seq<char>, i: int)
    requires
        0 <= i <= s.len(),
    ensures
        number_run(s.push('\n'), i) == number_run(s, i),
    decreases s.len() - i,
{
    if i < s.len() && number_char(s[i]) {
        number_run_with_break(s, i + 1);
    }
}

proof fn past_white_with_break(s: Seq<char>, i: int)
    requires
        0 <= i <= s.len(),
    ensures
        past_white(s, i) < s.len() ==> past_white(s.push('\n'), i) == past_white(s, i),
        past_white(s, i) >= s.len() ==> past_white(s.push('\n'), i) > s.len(),
    decreases s.len() - i,
{
    let t = s.push('\n');
    if i == s.len() {
        assert(white(t[i]));
        assert(past_white(t, i + 1) == i + 1);
    } else if white(s[i]) {
        past_white_with_break(s, i + 1);
    }
}

proof fn any_case_with_break(s: Seq<char>, p: Seq<char>, i: int)
    requires
        p.len() > 0,
        p.last() == '/',
    ensures
        at_any_case(s.push('\n'), p, i) == at_any_case(s, p, i),
{
    let t = s.push('\n');
    if 0 <= i && i + p.len() <= s.len() {
        assert(t.subrange(i, i + p.len() as int) =~= s.subrange(i, i + p.len() as int));
    } else if at_any_case(t, p, i) {
        let part = lowered(t.subrange(i, i + p.len() as int));
        assert(part[p.len() - 1] == lower(t[s.len() as int]));
        assert(false);
    }
}

proof fn at_with_break(s: Seq<char>, p: Seq<char>, i: int)
    requires
        p.len() > 0,
        p.last() != '\n',
    ensures
        at(s.push('\n'), p, i) == at(s, p, i),
{
    let t = s.push('\n');
    if 0 <= i && i + p.len() <= s.len() {
        assert(t.subrange(i, i + p.len() as int) =~= s.subrange(i, i + p.len() as int));
    } else if at(t, p, i) {
        assert(t.subrange(i, i + p.len() as int)[p.len() - 1] == t[s.len() as int]);
        assert(false);
    }
}

proof fn values_with_break(s: Seq<char>, i: int)
    requires
        0 <= i <= s.len(),
    ensures
        values_from(s.push('\n'), i) == values_from(s, i),
    decreases s.len() - i,
{
    let t = s.push('\n');
    reveal_strlit("https://");
    reveal_strlit("http://");
    reveal_strlit("元");
    reveal_strlit("円");
    reveal_strlit("美元");
    any_case_with_break(s, "https://"@, i);
    any_case_with_break(s, "http://"@, i);
    if i == s.len() {
        assert(values_from(t, i + 1) =~= Seq::<Seq<char>>::empty());
        assert(!currency(t[i]) && !digit(t[i]));
    } else {
        url_end_with_break(s, i);
        url_end_bounds(s, i);
        past_white_with_break(s, i + 1);
        past_white_bounds(s, i + 1);
        number_run_with_break(s, i + 1);
        number_run_bounds(s, i + 1);
        let end = number_run(s, i + 1);
        at_with_break(s, "元"@, end);
        at_with_break(s, "円"@, end);
        at_with_break(s, "美元"@, end);
        scheme_is_part_of_the_url(s, i);
        if at_any_case(s, "https://"@, i) {
            let e = url_end(s, i);
            assert(t.subrange(i + 8, e) =~= s.subrange(i + 8, e));
            values_with_break(s, e);
        } else if at_any_case(s, "http://"@, i) {
            let e = url_end(s, i);
            assert(t.subrange(i + 7, e) =~= s.subrange(i + 7, e));
            values_with_break(s, e);
        } else if money_at(s, i) is Some {
            let n = money_at(s, i)->0;
            assert(money_at(t, i) == money_at(s, i));
            number_run_with_break(s, n + 1);
            number_run_bounds(s, n + 1);
            let e = number_run(s, n + 1);
            assert(t.subrange(n, e) =~= s.subrange(n, e));
            values_with_break(s, e);
        } else {
            assert(money_at(t, i) is None);
            if digit(s[i]) {
                let e = amount_end(s, i);
                assert(amount_end(t, i) == e);
                assert(t.subrange(i, e) =~= s.subrange(i, e));
                values_with_break(s, e);
            } else {
                values_with_break(s, i + 1);
            }
        }
    }
}

/// A line break at the end of a text adds no word and no value.
pub proof fn final_line_break_says_nothing(s: Seq<char>)
    ensures
        words(s.push('\n')) == words(s),
        values(s.push('\n')) == values(s),
{
    words_with_break(s, 0);
    values_with_break(s, 0);
}

// ---- What words and values are ----

/// An ASCII letter or digit, by its number.
pub open spec fn in_ascii_word(c: char) -> bool {
    0x30 <= c as int <= 0x39 || 0x41 <= c as int <= 0x5a || 0x61 <= c as int <= 0x7a
}

/// A character that belongs to a word.
pub open spec fn in_word(c: char) -> bool {
    in_ascii_word(c) || (c as int >= 0x80 && unicode_alnum(c))
}

/// A character with an ASCII capital made small, by its number.
pub open spec fn small(c: char) -> char {
    if 0x41 <= c as int <= 0x5a {
        (c as int + 0x20) as char
    } else {
        c
    }
}

proof fn lowered_is_small(s: Seq<char>)
    ensures
        lowered(s) == s.map_values(|c: char| small(c)),
{
    assert(lowered(s) =~= s.map_values(|c: char| small(c)));
}

proof fn word_end_before(a: Seq<char>, c: char, b: Seq<char>, i: int)
    requires
        0 <= i <= a.len(),
        !ascii_alnum(c),
    ensures
        word_end(a.push(c) + b, i) == word_end(a, i),
    decreases a.len() - i,
{
    let t = a.push(c) + b;
    if i < a.len() {
        assert(t[i] == a[i]);
        if ascii_alnum(a[i]) {
            word_end_before(a, c, b, i + 1);
        }
    } else {
        assert(t[i] == c);
    }
}

proof fn word_end_shifted(p: Seq<char>, b: Seq<char>, i: int)
    requires
        0 <= i <= b.len(),
    ensures
        word_end(p + b, p.len() + i) == p.len() + word_end(b, i),
    decreases b.len() - i,
{
    if i < b.len() {
        assert((p + b)[p.len() + i] == b[i]);
        if ascii_alnum(b[i]) {
            word_end_shifted(p, b, i + 1);
        }
    }
}

proof fn words_shifted(p: Seq<char>, b: Seq<char>, i: int)
    requires
        0 <= i <= b.len(),
    ensures
        words_from(p + b, p.len() + i) == words_from(b, i),
    decreases b.len() - i,
{
    let t = p + b;
    if i < b.len() {
        assert(t[p.len() + i] == b[i]);
        if ascii_alnum(b[i]) {
            word_end_shifted(p, b, i);
            word_end_bounds(b, i + 1);
            let e = word_end(b, i);
            assert(t.subrange(p.len() + i, p.len() + e) =~= b.subrange(i, e));
            words_shifted(p, b, e);
        } else {
            words_shifted(p, b, i + 1);
        }
    }
}

proof fn words_around_from(a: Seq<char>, c: char, b: Seq<char>, i: int)
    requires
        0 <= i <= a.len(),
        !ascii_alnum(c),
    ensures
        words_from(a.push(c) + b, i) == words_from(a, i) + (if word_char(c) {
            seq![seq![c]]
        } else {
            Seq::empty()
        }) + words(b),
    decreases a.len() - i,
{
    let t = a.push(c) + b;
    let mid = if word_char(c) {
        seq![seq![c]]
    } else {
        Seq::empty()
    };
    if i == a.len() {
        assert(t[i] == c);
        words_shifted(a.push(c), b, 0);
        assert(words_from(t, i + 1) == words(b));
        assert(words_from(a, i) + mid + words(b) =~= mid + words(b));
        if !word_char(c) {
            assert(mid + words(b) =~= words(b));
        }
    } else {
        assert(t[i] == a[i]);
        if ascii_alnum(a[i]) {
            word_end_before(a, c, b, i);
            word_end_bounds(a, i + 1);
            let e = word_end(a, i);
            assert(t.subrange(i, e) =~= a.subrange(i, e));
            words_around_from(a, c, b, e);
            let w = seq![lowered(a.subrange(i, e))];
            assert(w + (words_from(a, e) + mid + words(b)) =~= (w + words_from(a, e)) + mid + words(b));
        } else {
            words_around_from(a, c, b, i + 1);
            if word_char(a[i]) {
                let w = seq![seq![a[i]]];
                assert(w + (words_from(a, i + 1) + mid + words(b)) =~= (w + words_from(a, i + 1)) + mid + words(b));
            }
        }
    }
}

/// A character that is no ASCII letter or digit ends a word: the words before it and the words
/// behind it are those of the whole. A letter or digit of another script is a word of its own in
/// between; anything else is none.
pub proof fn words_stand_apart(a: Seq<char>, c: char, b: Seq<char>)
    requires
        !in_ascii_word(c),
    ensures
        c as int >= 0x80 && unicode_alnum(c) ==> words(a.push(c) + b) == words(a) + seq![seq![c]] + words(b),
        !(c as int >= 0x80 && unicode_alnum(c)) ==> words(a.push(c) + b) == words(a) + words(b),
{
    words_around_from(a, c, b, 0);
    if !word_char(c) {
        assert(words(a) + Seq::<Seq<char>>::empty() + words(b) =~= words(a) + words(b));
    }
}

proof fn run_of_word(s: Seq<char>, i: int)
    requires
        0 <= i <= s.len(),
        forall|k: int| i <= k < s.len() ==> in_ascii_word(#[trigger] s[k]),
    ensures
        word_end(s, i) == s.len(),
    decreases s.len() - i,
{
    if i < s.len() {
        assert(in_ascii_word(s[i]));
        run_of_word(s, i + 1);
    }
}

/// A run of ASCII letters and digits is one word, the whole of it, in small letters.
pub proof fn a_run_is_one_word(s: Seq<char>)
    requires
        s.len() > 0,
        forall|k: int| 0 <= k < s.len() ==> in_ascii_word(#[trigger] s[k]),
    ensures
        words(s) == seq![s.map_values(|c: char| small(c))],
{
    assert(in_ascii_word(s[0]));
    run_of_word(s, 0);
    lowered_is_small(s);
    assert(s.subrange(0, s.len() as int) =~= s);
    assert(words_from(s, s.len() as int) =~= Seq::<Seq<char>>::empty());
    assert(words(s) =~= seq![lowered(s)]);
}

/// The characters of a text that belong to words, in small letters, in their order.
pub open spec fn letters(s: Seq<char>) -> Seq<char> {
    s.filter(|c: char| in_word(c)).map_values(|c: char| small(c))
}

/// The letters of two texts in a row are those of one and then of the other.
pub proof fn letters_add(a: Seq<char>, b: Seq<char>)
    ensures
        letters(a + b) == letters(a) + letters(b),
{
    let p = |c: char| in_word(c);
    Seq::filter_distributes_over_add(a, b, p);
    assert(letters(a + b) =~= letters(a) + letters(b));
}

proof fn letters_of_words(s: Seq<char>)
    requires
        forall|k: int| 0 <= k < s.len() ==> in_word(#[trigger] s[k]),
    ensures
        letters(s) == s.map_values(|c: char| small(c)),
    decreases s.len(),
{
    reveal(Seq::filter);
    let p = |c: char| in_word(c);
    if s.len() > 0 {
        let r = s.drop_last();
        letters_of_words(r);
        assert(s =~= r + seq![s.last()]);
        letters_add(r, seq![s.last()]);
        assert(seq![s.last()].drop_last() =~= Seq::<char>::empty());
        assert(Seq::<char>::empty().filter(p) =~= Seq::<char>::empty());
        assert(seq![s.last()].filter(p) =~= seq![s.last()]);
        assert(letters(s) =~= s.map_values(|c: char| small(c)));
    } else {
        assert(letters(s) =~= s.map_values(|c: char| small(c)));
    }
}

/// A single character is its own letter, or none.
pub proof fn letters_of_one(c: char)
    ensures
        letters(seq![c]) == (if in_word(c) {
            seq![small(c)]
        } else {
            Seq::empty()
        }),
{
    reveal(Seq::filter);
    let p = |c: char| in_word(c);
    assert(seq![c].drop_last() =~= Seq::<char>::empty());
    assert(Seq::<char>::empty().filter(p) =~= Seq::<char>::empty());
    if in_word(c) {
        assert(letters(seq![c]) =~= seq![small(c)]);
    } else {
        assert(letters(seq![c]) =~= Seq::empty());
    }
}

proof fn word_end_holds(s: Seq<char>, i: int)
    requires
        0 <= i <= s.len(),
    ensures
        i <= word_end(s, i) <= s.len(),
        forall|k: int| i <= k < word_end(s, i) ==> ascii_alnum(#[trigger] s[k]),
    decreases s.len() - i,
{
    if i < s.len() && ascii_alnum(s[i]) {
        word_end_holds(s, i + 1);
    }
}

proof fn words_hold_letters_from(s: Seq<char>, i: int)
    requires
        0 <= i <= s.len(),
    ensures
        words_from(s, i).flatten() == letters(s.skip(i)),
    decreases s.len() - i,
{
    if i == s.len() {
        reveal(Seq::filter);
        assert(s.skip(i) =~= Seq::<char>::empty());
        assert(letters(s.skip(i)) =~= Seq::<char>::empty());
        assert(words_from(s, i).flatten() =~= Seq::<char>::empty());
    } else if ascii_alnum(s[i]) {
        word_end_holds(s, i);
        word_end_bounds(s, i + 1);
        let e = word_end(s, i);
        let w = s.subrange(i, e);
        assert forall|k: int| 0 <= k < w.len() implies in_word(#[trigger] w[k]) by {
            assert(ascii_alnum(s[i + k]));
        }
        letters_of_words(w);
        lowered_is_small(w);
        words_hold_letters_from(s, e);
        assert(s.skip(i) =~= w + s.skip(e));
        letters_add(w, s.skip(e));
        let all = seq![lowered(w)] + words_from(s, e);
        assert(all.drop_first() =~= words_from(s, e));
        assert(all.first() == lowered(w));
        assert(all.flatten() == lowered(w) + words_from(s, e).flatten());
    } else {
        words_hold_letters_from(s, i + 1);
        assert(s.skip(i) =~= seq![s[i]] + s.skip(i + 1));
        letters_add(seq![s[i]], s.skip(i + 1));
        letters_of_one(s[i]);
        if word_char(s[i]) {
            let all = seq![seq![s[i]]] + words_from(s, i + 1);
            assert(all.drop_first() =~= words_from(s, i + 1));
            assert(all.first() == seq![s[i]]);
            assert(all.flatten() == seq![s[i]] + words_from(s, i + 1).flatten());
            assert(small(s[i]) == s[i]);
        } else {
            assert(letters(seq![s[i]]) + letters(s.skip(i + 1)) =~= letters(s.skip(i + 1)));
        }
    }
}

/// The words of a text, one after the other, are its letters and digits in small letters:
/// no word loses or gains anything.
pub proof fn words_hold_every_letter(s: Seq<char>)
    ensures
        words(s).flatten() == letters(s),
{
    words_hold_letters_from(s, 0);
    assert(s.skip(0) =~= s);
}

/// A text that passes as faithful has exactly the letters and digits of its source, in their
/// order, and is not blank; a text that is not blank always passes for itself.
pub proof fn a_faithful_text_keeps_every_letter(source: Seq<char>, output: Seq<char>)
    ensures
        faithful_complaint(source, output) is None ==> letters(output) == letters(source) && !blank(output),
        !blank(source) ==> faithful_complaint(source, source) is None,
{
    words_hold_every_letter(source);
    words_hold_every_letter(output);
}

/// A changed word is not faithful: between the same surroundings, two runs of ASCII letters and
/// digits are told apart unless they differ in case only.
pub proof fn a_changed_word_is_not_faithful(
    before: Seq<char>,
    old_word: Seq<char>,
    new_word: Seq<char>,
    after: Seq<char>,
)
    requires
        old_word.len() > 0,
        new_word.len() > 0,
        forall|k: int| 0 <= k < old_word.len() ==> in_ascii_word(#[trigger] old_word[k]),
        forall|k: int| 0 <= k < new_word.len() ==> in_ascii_word(#[trigger] new_word[k]),
        old_word.map_values(|c: char| small(c)) != new_word.map_values(|c: char| small(c)),
    ensures
        faithful_complaint(before.push(' ') + (old_word.push(' ') + after), before.push(' ') + (new_word.push(' ')
            + after)) is Some,
{
    let a = old_word.push(' ') + after;
    let b = new_word.push(' ') + after;
    words_stand_apart(before, ' ', a);
    words_stand_apart(before, ' ', b);
    words_stand_apart(old_word, ' ', after);
    words_stand_apart(new_word, ' ', after);
    a_run_is_one_word(old_word);
    a_run_is_one_word(new_word);
    let s = before.push(' ') + a;
    let o = before.push(' ') + b;
    let n = words(before).len() as int;
    assert(words(s)[n] == words(a)[0]);
    assert(words(o)[n] == words(b)[0]);
    assert(words(a)[0] == old_word.map_values(|c: char| small(c)));
    assert(words(b)[0] == new_word.map_values(|c: char| small(c)));
}

proof fn ordered_needles_occur(needles: Seq<Seq<char>>, hay: Seq<Seq<char>>, k: int)
    requires
        ordered_within(needles, hay),
        0 <= k < needles.len(),
    ensures
        hay.contains(needles[k]),
{
    ordered_subsequence_has_positions(needles, hay);
    let positions = choose|positions: Seq<int>| #[trigger] witnesses(positions, needles, 0, hay, 0);
    assert(hay[positions[k]] == needles[0 + k]);
}

/// A text that its source supports has words, and each of them, and each of its values, is one of
/// the source's; no value occurs more often than there.
pub proof fn a_supported_text_says_nothing_new(source: Seq<char>, output: Seq<char>, k: int, value: Seq<char>)
    requires
        support_complaint(source, output) is None,
    ensures
        words(output).len() > 0,
        0 <= k < words(output).len() ==> words(source).contains(words(output)[k]),
        0 <= k < values(output).len() ==> values(source).contains(values(output)[k]),
        values(output).filter(|v: Seq<char>| v == value).len() <= values(source).filter(
            |v: Seq<char>| v == value,
        ).len(),
{
    if 0 <= k < words(output).len() {
        ordered_needles_occur(words(output), words(source), k);
    }
    if 0 <= k < values(output).len() {
        ordered_needles_occur(values(output), values(source), k);
    }
    count_is_filtered(values(output), value);
    count_is_filtered(values(source), value);
    assert(count(values(output), value) <= count(values(source), value));
}

proof fn count_is_filtered(s: Seq<Seq<char>>, t: Seq<char>)
    ensures
        count(s, t) == s.filter(|v: Seq<char>| v == t).len(),
    decreases s.len(),
{
    reveal(Seq::filter);
    if s.len() > 0 {
        count_is_filtered(s.drop_last(), t);
    }
}

/// The digits of a text, in their order.
pub open spec fn digits_in(s: Seq<char>) -> Seq<char> {
    s.filter(|c: char| 0x30 <= c as int <= 0x39)
}

/// The digits of two texts in a row are those of one and then of the other.
pub proof fn digits_add(a: Seq<char>, b: Seq<char>)
    ensures
        digits_in(a + b) == digits_in(a) + digits_in(b),
{
    Seq::filter_distributes_over_add(a, b, |c: char| 0x30 <= c as int <= 0x39);
}

/// A text without digits has none.
pub proof fn no_digits_in(s: Seq<char>)
    requires
        forall|k: int| 0 <= k < s.len() ==> !digit(#[trigger] s[k]),
    ensures
        digits_in(s) == Seq::<char>::empty(),
    decreases s.len(),
{
    reveal(Seq::filter);
    if s.len() > 0 {
        assert(!digit(s[s.len() - 1]));
        assert forall|k: int| 0 <= k < s.drop_last().len() implies !digit(#[trigger] s.drop_last()[k]) by {
            assert(s.drop_last()[k] == s[k]);
        }
        no_digits_in(s.drop_last());
    }
}

proof fn past_white_holds(s: Seq<char>, i: int)
    requires
        0 <= i <= s.len(),
    ensures
        i <= past_white(s, i) <= s.len(),
        forall|k: int| i <= k < past_white(s, i) ==> white(#[trigger] s[k]),
    decreases s.len() - i,
{
    if i < s.len() && white(s[i]) {
        past_white_holds(s, i + 1);
    }
}

proof fn values_hold_digits_from(s: Seq<char>, i: int)
    requires
        0 <= i <= s.len(),
    ensures
        digits_in(values_from(s, i).flatten()) == digits_in(s.skip(i)),
    decreases s.len() - i,
{
    reveal_strlit("https://");
    reveal_strlit("http://");
    if i == s.len() {
        reveal(Seq::filter);
        assert(s.skip(i) =~= Seq::<char>::empty());
        assert(values_from(s, i).flatten() =~= Seq::<char>::empty());
    } else {
        scheme_is_part_of_the_url(s, i);
        past_white_holds(s, i + 1);
        number_run_bounds(s, i + 1);
        let (token, end) = if at_any_case(s, "https://"@, i) {
            ("https://"@ + s.subrange(i + 8, url_end(s, i)), url_end(s, i))
        } else if at_any_case(s, "http://"@, i) {
            ("http://"@ + s.subrange(i + 7, url_end(s, i)), url_end(s, i))
        } else if money_at(s, i) is Some {
            let n = money_at(s, i)->0;
            (seq![s[i]] + s.subrange(n, number_run(s, n + 1)), number_run(s, n + 1))
        } else if digit(s[i]) {
            (s.subrange(i, amount_end(s, i)), amount_end(s, i))
        } else {
            (Seq::empty(), i + 1)
        };
        let part = s.subrange(i, end);
        let found = at_any_case(s, "https://"@, i) || at_any_case(s, "http://"@, i) || money_at(s, i) is Some || digit(
            s[i],
        );
        if at_any_case(s, "https://"@, i) {
            let head = s.subrange(i, i + 8);
            assert forall|k: int| 0 <= k < 8 implies !digit(#[trigger] head[k]) by {
                assert(lowered(head)[k] == "https://"@[k]);
                assert(lower(head[k]) == "https://"@[k]);
            }
            no_digits_in(head);
            no_digits_in("https://"@);
            assert(part =~= head + s.subrange(i + 8, end));
            digits_add(head, s.subrange(i + 8, end));
            digits_add("https://"@, s.subrange(i + 8, end));
        } else if at_any_case(s, "http://"@, i) {
            let head = s.subrange(i, i + 7);
            assert forall|k: int| 0 <= k < 7 implies !digit(#[trigger] head[k]) by {
                assert(lowered(head)[k] == "http://"@[k]);
                assert(lower(head[k]) == "http://"@[k]);
            }
            no_digits_in(head);
            no_digits_in("http://"@);
            assert(part =~= head + s.subrange(i + 7, end));
            digits_add(head, s.subrange(i + 7, end));
            digits_add("http://"@, s.subrange(i + 7, end));
        } else if money_at(s, i) is Some {
            let n = money_at(s, i)->0;
            number_run_bounds(s, n + 1);
            let gap = s.subrange(i + 1, n);
            assert forall|k: int| 0 <= k < gap.len() implies !digit(#[trigger] gap[k]) by {
                assert(white(s[i + 1 + k]));
            }
            no_digits_in(gap);
            assert(part =~= seq![s[i]] + gap + s.subrange(n, end));
            digits_add(seq![s[i]] + gap, s.subrange(n, end));
            digits_add(seq![s[i]], gap);
            digits_add(seq![s[i]], s.subrange(n, end));
            assert(digits_in(seq![s[i]]) + Seq::<char>::empty() =~= digits_in(seq![s[i]]));
        } else if digit(s[i]) {
            reveal_strlit("元");
            reveal_strlit("円");
            reveal_strlit("美元");
        } else {
            assert forall|k: int| 0 <= k < part.len() implies !digit(#[trigger] part[k]) by {
                assert(part[k] == s[i]);
            }
            no_digits_in(part);
        }
        values_hold_digits_from(s, end);
        assert(s.skip(i) =~= part + s.skip(end));
        digits_add(part, s.skip(end));
        if found {
            let all = seq![token] + values_from(s, end);
            assert(values_from(s, i) == all);
            assert(all.drop_first() =~= values_from(s, end));
            assert(all.flatten() == token + values_from(s, end).flatten());
            digits_add(token, values_from(s, end).flatten());
        } else {
            assert(Seq::<char>::empty() + digits_in(s.skip(end)) =~= digits_in(s.skip(end)));
        }
    }
}

/// Every digit of a text is in one of its values, and a value has no digit of its own: the digits
/// of the values, one after the other, are the digits of the text.
pub proof fn values_hold_every_digit(s: Seq<char>)
    ensures
        digits_in(values(s).flatten()) == digits_in(s),
{
    values_hold_digits_from(s, 0);
    assert(s.skip(0) =~= s);
}

/// A text that passes as faithful has the digits of its source, in their order.
pub proof fn a_faithful_text_keeps_every_digit(source: Seq<char>, output: Seq<char>)
    requires
        faithful_complaint(source, output) is None,
    ensures
        digits_in(output) == digits_in(source),
{
    values_hold_every_digit(source);
    values_hold_every_digit(output);
}

proof fn url_run(s: Seq<char>, i: int)
    requires
        0 <= i <= s.len(),
        forall|k: int| i <= k < s.len() ==> url_char(#[trigger] s[k]),
    ensures
        url_end(s, i) == s.len(),
    decreases s.len() - i,
{
    if i < s.len() {
        assert(url_char(s[i]));
        url_run(s, i + 1);
    }
}

proof fn number_run_to_the_end(s: Seq<char>, i: int)
    requires
        0 <= i <= s.len(),
        forall|k: int| i <= k < s.len() ==> digit(#[trigger] s[k]),
    ensures
        number_run(s, i) == s.len(),
    decreases s.len() - i,
{
    if i < s.len() {
        assert(digit(s[i]));
        number_run_to_the_end(s, i + 1);
    }
}

/// An address in ASCII letters, digits and the signs of addresses is one value, the whole of it.
pub proof fn an_address_is_one_value(rest: Seq<char>)
    requires
        forall|k: int| 0 <= k < rest.len() ==> 0x21 <= (#[trigger] rest[k]) as int <= 0x7e && rest[k] != '"' && rest[k]
            != '<' && rest[k] != '>' && rest[k] != '\\' && rest[k] != '^' && rest[k] != '`' && rest[k] != '{' && rest[k]
            != '|' && rest[k] != '}',
    ensures
        values("https://"@ + rest) == seq!["https://"@ + rest],
        values("http://"@ + rest) == seq!["http://"@ + rest],
{
    reveal_strlit("https://");
    reveal_strlit("http://");
    let s = "https://"@ + rest;
    assert forall|k: int| 0 <= k < s.len() implies url_char(#[trigger] s[k]) by {
        if k >= 8 {
            assert(s[k] == rest[k - 8]);
        }
    }
    url_run(s, 0);
    assert(lowered(s.subrange(0, 8)) =~= "https://"@);
    assert(s.subrange(8, s.len() as int) =~= rest);
    assert(values_from(s, s.len() as int) =~= Seq::<Seq<char>>::empty());
    assert(values(s) =~= seq![s]);
    let t = "http://"@ + rest;
    assert forall|k: int| 0 <= k < t.len() implies url_char(#[trigger] t[k]) by {
        if k >= 7 {
            assert(t[k] == rest[k - 7]);
        }
    }
    url_run(t, 0);
    assert(lowered(t.subrange(0, 7)) =~= "http://"@);
    if at_any_case(t, "https://"@, 0) {
        assert(lowered(t.subrange(0, 8))[4] == lower(t[4]));
    }
    assert(t.subrange(7, t.len() as int) =~= rest);
    assert(values_from(t, t.len() as int) =~= Seq::<Seq<char>>::empty());
    assert(values(t) =~= seq![t]);
}

/// A number is one value, the whole of it, and so is an amount with its sign before the number.
pub proof fn a_number_is_one_value(s: Seq<char>)
    requires
        s.len() > 0,
        forall|k: int| 0 <= k < s.len() ==> 0x30 <= (#[trigger] s[k]) as int <= 0x39,
    ensures
        values(s) == seq![s],
        values(seq!['$'] + s) == seq![seq!['$'] + s],
        values(seq!['¥'] + s) == seq![seq!['¥'] + s],
{
    reveal_strlit("https://");
    reveal_strlit("http://");
    reveal_strlit("元");
    reveal_strlit("円");
    reveal_strlit("美元");
    let d = s[0];
    assert(0x30 <= d as int <= 0x39);
    number_run_to_the_end(s, 1);
    if at_any_case(s, "https://"@, 0) {
        assert(lowered(s.subrange(0, 8))[0] == lower(s[0]));
    }
    if at_any_case(s, "http://"@, 0) {
        assert(lowered(s.subrange(0, 7))[0] == lower(s[0]));
    }
    assert(s.subrange(0, s.len() as int) =~= s);
    assert(values_from(s, s.len() as int) =~= Seq::<Seq<char>>::empty());
    assert(amount_end(s, 0) == s.len());
    assert(values(s) =~= seq![s]);
    a_signed_number_is_one_value('$', s);
    a_signed_number_is_one_value('¥', s);
}

proof fn a_signed_number_is_one_value(c: char, s: Seq<char>)
    requires
        currency(c),
        s.len() > 0,
        forall|k: int| 0 <= k < s.len() ==> digit(#[trigger] s[k]),
    ensures
        values(seq![c] + s) == seq![seq![c] + s],
{
    reveal_strlit("https://");
    reveal_strlit("http://");
    let t = seq![c] + s;
    if at_any_case(t, "https://"@, 0) {
        assert(lowered(t.subrange(0, 8))[0] == lower(t[0]));
    }
    if at_any_case(t, "http://"@, 0) {
        assert(lowered(t.subrange(0, 7))[0] == lower(t[0]));
    }
    assert(t[1] == s[0]);
    assert(digit(s[0]));
    assert(past_white(t, 1) == 1);
    assert forall|k: int| 2 <= k < t.len() implies digit(#[trigger] t[k]) by {
        assert(t[k] == s[k - 1]);
    }
    number_run_to_the_end(t, 2);
    assert(seq![t[0]] + t.subrange(1, t.len() as int) =~= t);
    assert(values_from(t, t.len() as int) =~= Seq::<Seq<char>>::empty());
    assert(values(t) =~= seq![t]);
}

proof fn a_subsequence_counts_less(positions: Seq<int>, needles: Seq<Seq<char>>, hay: Seq<Seq<char>>, t: Seq<char>)
    requires
        witnesses(positions, needles, 0, hay, 0),
    ensures
        count(needles, t) <= count(hay, t),
    decreases hay.len(),
{
    if needles.len() > 0 {
        let n = needles.len() - 1;
        assert(0 <= positions[n] < hay.len());
        let h = hay.drop_last();
        assert(hay[positions[n]] == needles[0 + n]);
        if positions[n] == hay.len() - 1 {
            let p = positions.drop_last();
            let m = needles.drop_last();
            assert forall|k: int| 0 <= k < p.len() implies 0 <= #[trigger] p[k] < h.len() by {
                assert(positions[k] < positions[n]);
            }
            assert forall|k: int| 0 <= k < p.len() implies h[#[trigger] p[k]] == m[0 + k] by {
                assert(positions[k] < positions[n]);
                assert(hay[positions[k]] == needles[0 + k]);
            }
            assert(witnesses(p, m, 0, h, 0));
            a_subsequence_counts_less(p, m, h, t);
        } else {
            assert forall|k: int| 0 <= k < positions.len() implies 0 <= #[trigger] positions[k] < h.len() by {
                if k < n {
                    assert(positions[k] < positions[n]);
                }
            }
            assert forall|k: int| 0 <= k < positions.len() implies h[#[trigger] positions[k]] == needles[0 + k] by {
                assert(hay[positions[k]] == needles[0 + k]);
            }
            assert(witnesses(positions, needles, 0, h, 0));
            a_subsequence_counts_less(positions, needles, h, t);
        }
    }
}

/// A text is supported exactly where it has words, and there are rising positions in the source at
/// which its words stand, and rising positions at which its values do. What a source says itself
/// is supported.
pub proof fn support_is_selection(source: Seq<char>, output: Seq<char>)
    ensures
        support_complaint(source, output) is None <==> {
            &&& words(output).len() > 0
            &&& exists|p: Seq<int>| #[trigger] witnesses(p, words(output), 0, words(source), 0)
            &&& exists|p: Seq<int>| #[trigger] witnesses(p, values(output), 0, values(source), 0)
        },
        words(source).len() > 0 ==> support_complaint(source, source) is None,
{
    ordered_subsequence_has_positions(words(output), words(source));
    ordered_subsequence_has_positions(values(output), values(source));
    if exists|p: Seq<int>| #[trigger] witnesses(p, values(output), 0, values(source), 0) {
        let p = choose|p: Seq<int>| #[trigger] witnesses(p, values(output), 0, values(source), 0);
        assert forall|t: Seq<char>| #[trigger] count(values(output), t) <= count(values(source), t) by {
            a_subsequence_counts_less(p, values(output), values(source), t);
        }
    }
    let w = Seq::new(words(source).len(), |k: int| k);
    let v = Seq::new(values(source).len(), |k: int| k);
    assert(witnesses(w, words(source), 0, words(source), 0));
    assert(witnesses(v, values(source), 0, values(source), 0));
    ordered_subsequence_has_positions(words(source), words(source));
    ordered_subsequence_has_positions(values(source), values(source));
}

// ---- Where a value ends ----

proof fn url_end_shifted(p: Seq<char>, b: Seq<char>, i: int)
    requires
        0 <= i <= b.len(),
    ensures
        url_end(p + b, p.len() + i) == p.len() + url_end(b, i),
    decreases b.len() - i,
{
    if i < b.len() {
        assert((p + b)[p.len() + i] == b[i]);
        if url_char(b[i]) {
            url_end_shifted(p, b, i + 1);
        }
    }
}

proof fn number_run_shifted(p: Seq<char>, b: Seq<char>, i: int)
    requires
        0 <= i <= b.len(),
    ensures
        number_run(p + b, p.len() + i) == p.len() + number_run(b, i),
    decreases b.len() - i,
{
    if i < b.len() {
        assert((p + b)[p.len() + i] == b[i]);
        if number_char(b[i]) {
            number_run_shifted(p, b, i + 1);
        }
    }
}

proof fn past_white_shifted(p: Seq<char>, b: Seq<char>, i: int)
    requires
        0 <= i <= b.len(),
    ensures
        past_white(p + b, p.len() + i) == p.len() + past_white(b, i),
    decreases b.len() - i,
{
    if i < b.len() {
        assert((p + b)[p.len() + i] == b[i]);
        if white(b[i]) {
            past_white_shifted(p, b, i + 1);
        }
    }
}

proof fn at_shifted(p: Seq<char>, b: Seq<char>, w: Seq<char>, i: int)
    requires
        0 <= i,
    ensures
        at(p + b, w, p.len() + i) == at(b, w, i),
        at_any_case(p + b, w, p.len() + i) == at_any_case(b, w, i),
{
    let n = p.len() as int;
    if i + w.len() <= b.len() {
        assert((p + b).subrange(n + i, n + i + w.len() as int) =~= b.subrange(i, i + w.len() as int));
    }
}

proof fn values_shifted(p: Seq<char>, b: Seq<char>, i: int)
    requires
        0 <= i <= b.len(),
    ensures
        values_from(p + b, p.len() + i) == values_from(b, i),
    decreases b.len() - i,
{
    let t = p + b;
    let n = p.len() as int;
    if i < b.len() {
        assert(t[n + i] == b[i]);
        at_shifted(p, b, "https://"@, i);
        at_shifted(p, b, "http://"@, i);
        scheme_is_part_of_the_url(b, i);
        if at_any_case(b, "https://"@, i) {
            url_end_shifted(p, b, i);
            let e = url_end(b, i);
            assert(t.subrange(n + i + 8, n + e) =~= b.subrange(i + 8, e));
            values_shifted(p, b, e);
        } else if at_any_case(b, "http://"@, i) {
            url_end_shifted(p, b, i);
            let e = url_end(b, i);
            assert(t.subrange(n + i + 7, n + e) =~= b.subrange(i + 7, e));
            values_shifted(p, b, e);
        } else {
            past_white_shifted(p, b, i + 1);
            past_white_bounds(b, i + 1);
            let w = past_white(b, i + 1);
            if w < b.len() {
                assert(t[n + w] == b[w]);
            }
            assert((money_at(t, n + i) is Some) == (money_at(b, i) is Some));
            if money_at(b, i) is Some {
                number_run_shifted(p, b, w + 1);
                number_run_bounds(b, w + 1);
                let e = number_run(b, w + 1);
                assert(t.subrange(n + w, n + e) =~= b.subrange(w, e));
                values_shifted(p, b, e);
            } else if digit(b[i]) {
                number_run_shifted(p, b, i + 1);
                number_run_bounds(b, i + 1);
                let r = number_run(b, i + 1);
                at_shifted(p, b, "元"@, r);
                at_shifted(p, b, "円"@, r);
                at_shifted(p, b, "美元"@, r);
                reveal_strlit("元");
                reveal_strlit("円");
                reveal_strlit("美元");
                let e = amount_end(b, i);
                assert(amount_end(t, n + i) == n + e);
                assert(t.subrange(n + i, n + e) =~= b.subrange(i, e));
                values_shifted(p, b, e);
            } else {
                values_shifted(p, b, i + 1);
            }
        }
    }
}

/// A character that begins no address, amount or number is no part of a value by itself: the
/// values are those of what is behind it.
pub proof fn other_characters_are_no_values(c: char, b: Seq<char>)
    requires
        c != 'h' && c != 'H',
        !(0x30 <= c as int <= 0x39),
        c != '$' && c != '¥' && c != '￥' && c != '€' && c != '£' && c != '₩' && c != '₹',
    ensures
        values(seq![c] + b) == values(b),
        values(Seq::empty()) == Seq::<Seq<char>>::empty(),
{
    reveal_strlit("https://");
    reveal_strlit("http://");
    let s = seq![c] + b;
    if at_any_case(s, "https://"@, 0) {
        assert(lowered(s.subrange(0, 8))[0] == lower(s[0]));
    }
    if at_any_case(s, "http://"@, 0) {
        assert(lowered(s.subrange(0, 7))[0] == lower(s[0]));
    }
    values_shifted(seq![c], b, 0);
}

proof fn number_run_stops(a: Seq<char>, d: Seq<char>, rest: Seq<char>, i: int)
    requires
        a.len() <= i <= a.len() + d.len(),
        forall|k: int| 0 <= k < d.len() ==> number_char(#[trigger] d[k]),
        rest.len() == 0 || !number_char(rest[0]),
    ensures
        number_run(a + d + rest, i) == a.len() + d.len(),
    decreases a.len() + d.len() - i,
{
    let s = a + d + rest;
    if i < a.len() + d.len() {
        assert(s[i] == d[i - a.len()]);
        number_run_stops(a, d, rest, i + 1);
    } else if rest.len() > 0 {
        assert(s[i] == rest[0]);
    }
}

/// A number begins with a digit and goes on as long as its characters do. A unit of money behind
/// it belongs to it; what else is behind it has values of its own.
pub proof fn a_number_ends_where_its_characters_end(d: Seq<char>, rest: Seq<char>)
    requires
        d.len() > 0,
        0x30 <= d[0] as int <= 0x39,
        forall|k: int| 0 <= k < d.len() ==> number_char(#[trigger] d[k]),
        rest.len() == 0 || !number_char(rest[0]),
    ensures
        !at(rest, "元"@, 0) && !at(rest, "円"@, 0) && !at(rest, "美元"@, 0) ==> values(d + rest) == seq![d] + values(
            rest,
        ),
        values(d + ("元"@ + rest)) == seq![d + "元"@] + values(rest),
        values(d + ("円"@ + rest)) == seq![d + "円"@] + values(rest),
        values(d + ("美元"@ + rest)) == seq![d + "美元"@] + values(rest),
{
    reveal_strlit("元");
    reveal_strlit("円");
    reveal_strlit("美元");
    let none = Seq::<char>::empty();
    if !at(rest, "元"@, 0) && !at(rest, "円"@, 0) && !at(rest, "美元"@, 0) {
        assert(d + (none + rest) =~= d + rest);
        assert(d + none =~= d);
        assert(none + rest =~= rest);
        assert(rest.len() == 0 || !number_char(rest[0]));
        a_number_and_its_unit(d, none, rest);
    }
    a_number_and_its_unit(d, "元"@, rest);
    a_number_and_its_unit(d, "円"@, rest);
    a_number_and_its_unit(d, "美元"@, rest);
}

proof fn a_number_and_its_unit(d: Seq<char>, unit: Seq<char>, rest: Seq<char>)
    requires
        d.len() > 0,
        digit(d[0]),
        forall|k: int| 0 <= k < d.len() ==> number_char(#[trigger] d[k]),
        (unit + rest).len() == 0 || !number_char((unit + rest)[0]),
        unit == "元"@ || unit == "円"@ || unit == "美元"@ || (unit.len() == 0 && !at(rest, "元"@, 0) && !at(
            rest,
            "円"@,
            0,
        ) && !at(rest, "美元"@, 0)),
    ensures
        values(d + (unit + rest)) == seq![d + unit] + values(rest),
{
    reveal_strlit("https://");
    reveal_strlit("http://");
    reveal_strlit("元");
    reveal_strlit("円");
    reveal_strlit("美元");
    let u = unit + rest;
    let s = d + u;
    let none = Seq::<char>::empty();
    assert(none + d + u =~= s);
    number_run_stops(none, d, u, 1);
    let n = d.len() as int;
    at_shifted(d, u, "元"@, 0);
    at_shifted(d, u, "円"@, 0);
    at_shifted(d, u, "美元"@, 0);
    if unit.len() > 0 {
        assert(u.subrange(0, unit.len() as int) =~= unit);
        if unit == "美元"@ {
            assert(u[0] == '美');
            if at(u, "元"@, 0) {
                assert(u.subrange(0, 1)[0] == u[0]);
            }
            if at(u, "円"@, 0) {
                assert(u.subrange(0, 1)[0] == u[0]);
            }
        }
    } else {
        assert(u =~= rest);
    }
    assert(amount_end(s, 0) == n + unit.len());
    if at_any_case(s, "https://"@, 0) {
        assert(lowered(s.subrange(0, 8))[0] == lower(s[0]));
    }
    if at_any_case(s, "http://"@, 0) {
        assert(lowered(s.subrange(0, 7))[0] == lower(s[0]));
    }
    assert(s[0] == d[0]);
    assert(s.subrange(0, n + unit.len() as int) =~= d + unit);
    let front = d + unit;
    assert(s =~= front + rest);
    values_shifted(front, rest, 0);
}

proof fn white_passes(a: Seq<char>, w: Seq<char>, rest: Seq<char>, i: int)
    requires
        a.len() <= i <= a.len() + w.len(),
        forall|k: int| 0 <= k < w.len() ==> white(#[trigger] w[k]),
        rest.len() > 0,
        !white(rest[0]),
    ensures
        past_white(a + w + rest, i) == a.len() + w.len(),
    decreases a.len() + w.len() - i,
{
    let s = a + w + rest;
    if i < a.len() + w.len() {
        assert(s[i] == w[i - a.len()]);
        white_passes(a, w, rest, i + 1);
    } else {
        assert(s[i] == rest[0]);
    }
}

/// A sign of money before a number belongs to it, and the white space between them does not.
pub proof fn a_sign_of_money_belongs_to_its_number(c: char, w: Seq<char>, d: Seq<char>, rest: Seq<char>)
    requires
        c == '$' || c == '¥' || c == '￥' || c == '€' || c == '£' || c == '₩' || c == '₹',
        forall|k: int| 0 <= k < w.len() ==> white(#[trigger] w[k]),
        d.len() > 0,
        0x30 <= d[0] as int <= 0x39,
        forall|k: int| 0 <= k < d.len() ==> number_char(#[trigger] d[k]),
        rest.len() == 0 || !number_char(rest[0]),
    ensures
        values(seq![c] + w + d + rest) == seq![seq![c] + d] + values(rest),
{
    reveal_strlit("https://");
    reveal_strlit("http://");
    let s = seq![c] + w + d + rest;
    let x = seq![c] + w;
    if at_any_case(s, "https://"@, 0) {
        assert(lowered(s.subrange(0, 8))[0] == lower(s[0]));
    }
    if at_any_case(s, "http://"@, 0) {
        assert(lowered(s.subrange(0, 7))[0] == lower(s[0]));
    }
    assert(s =~= seq![c] + w + (d + rest));
    assert((d + rest)[0] == d[0]);
    white_passes(seq![c], w, d + rest, 1);
    let n = x.len() as int;
    assert(s[n] == d[0]);
    assert(money_at(s, 0) == Some(n));
    number_run_stops(x, d, rest, n + 1);
    let e = n + d.len() as int;
    assert(s.subrange(n, e) =~= d);
    let front = x + d;
    assert(s =~= front + rest);
    values_shifted(front, rest, 0);
}

proof fn url_stops(a: Seq<char>, d: Seq<char>, rest: Seq<char>, i: int)
    requires
        a.len() <= i <= a.len() + d.len(),
        forall|k: int| 0 <= k < d.len() ==> url_char(#[trigger] d[k]),
        rest.len() == 0 || !url_char(rest[0]),
    ensures
        url_end(a + d + rest, i) == a.len() + d.len(),
    decreases a.len() + d.len() - i,
{
    let s = a + d + rest;
    if i < a.len() + d.len() {
        assert(s[i] == d[i - a.len()]);
        url_stops(a, d, rest, i + 1);
    } else if rest.len() > 0 {
        assert(s[i] == rest[0]);
    }
}

/// An address is one value from its scheme, whatever its case, to the first character that cannot
/// be part of one; what is behind it has values of its own.
pub proof fn an_address_ends_where_its_characters_end(scheme: Seq<char>, d: Seq<char>, rest: Seq<char>)
    requires
        lowered(scheme) == "https://"@ || lowered(scheme) == "http://"@,
        forall|k: int| 0 <= k < d.len() ==> url_char(#[trigger] d[k]),
        rest.len() == 0 || !url_char(rest[0]),
    ensures
        values(scheme + d + rest) == seq![lowered(scheme) + d] + values(rest),
{
    reveal_strlit("https://");
    reveal_strlit("http://");
    let s = scheme + d + rest;
    let n = scheme.len() as int;
    assert(lowered(scheme).len() == n);
    assert(s.subrange(0, n) =~= scheme);
    let all = scheme + d;
    assert forall|k: int| 0 <= k < all.len() implies url_char(#[trigger] all[k]) by {
        if k < n {
            assert(lowered(scheme)[k] == lower(scheme[k]));
            assert(all[k] == scheme[k]);
        } else {
            assert(all[k] == d[k - n]);
        }
    }
    let none = Seq::<char>::empty();
    assert(none + all + rest =~= s);
    url_stops(none, all, rest, 0);
    if lowered(scheme) == "http://"@ && at_any_case(s, "https://"@, 0) {
        assert(lowered(s.subrange(0, 8))[4] == lower(s[4]));
        assert(lowered(scheme)[4] == lower(scheme[4]));
        assert(s[4] == scheme[4]);
    }
    assert(s.subrange(n, all.len() as int) =~= d);
    assert(s =~= all + rest);
    values_shifted(all, rest, 0);
}

/// A number is made of digits and the signs that stand inside numbers.
pub proof fn what_a_number_is_made_of(c: char)
    ensures
        0x30 <= c as int <= 0x39 ==> number_char(c),
        c == '.' || c == ',' ==> number_char(c),
        white(c) || 0x41 <= c as int <= 0x5a || 0x61 <= c as int <= 0x7a || c as int >= 0x3000 ==> !number_char(c),
        white(c) || c as int >= 0x80 || c == '<' || c == '>' || c == '"' ==> !url_char(c),
{
}

} // verus!
