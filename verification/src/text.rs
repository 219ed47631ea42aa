//! Text as a sequence of Unicode scalar values.

use vstd::prelude::*;

verus! {

/// `String::push` appends the given character at the end.
pub assume_specification[ String::push ](s: &mut String, c: char)
    ensures
        final(s)@ == old(s)@.push(c),
;

// ---- Characters ----

/// The characters with the Unicode `White_Space` property.
pub open spec fn white(c: char) -> bool {
    let n = c as int;
    ||| 0x9 <= n <= 0xd
    ||| n == 0x20
    ||| n == 0x85
    ||| n == 0xa0
    ||| n == 0x1680
    ||| 0x2000 <= n <= 0x200a
    ||| n == 0x2028
    ||| n == 0x2029
    ||| n == 0x202f
    ||| n == 0x205f
    ||| n == 0x3000
}

/// Whether `c` is white space.
pub fn is_white(c: char) -> (b: bool)
    ensures
        b == white(c),
{
    let n: u32 = c as u32;
    (0x9 <= n && n <= 0xd) || n == 0x20 || n == 0x85 || n == 0xa0 || n == 0x1680 || (0x2000 <= n
        && n <= 0x200a) || n == 0x2028 || n == 0x2029 || n == 0x202f || n == 0x205f || n == 0x3000
}

/// The characters of the Unicode category `Cc`.
pub open spec fn control(c: char) -> bool {
    c as int <= 0x1f || 0x7f <= c as int <= 0x9f
}

/// Whether `c` is a control character.
pub fn is_control(c: char) -> (b: bool)
    ensures
        b == control(c),
{
    let n: u32 = c as u32;
    n <= 0x1f || (0x7f <= n && n <= 0x9f)
}

/// ASCII digits.
pub open spec fn digit(c: char) -> bool {
    '0' as int <= c as int <= '9' as int
}

/// Whether `c` is an ASCII digit.
pub fn is_digit(c: char) -> (b: bool)
    ensures
        b == digit(c),
{
    let n: u32 = c as u32;
    0x30 <= n && n <= 0x39
}

/// ASCII letters.
pub open spec fn ascii_letter(c: char) -> bool {
    'a' as int <= c as int <= 'z' as int || 'A' as int <= c as int <= 'Z' as int
}

/// ASCII letters and digits.
pub open spec fn ascii_alnum(c: char) -> bool {
    ascii_letter(c) || digit(c)
}

/// Whether `c` is an ASCII letter or digit.
pub fn is_ascii_alnum(c: char) -> (b: bool)
    ensures
        b == ascii_alnum(c),
{
    let n: u32 = c as u32;
    is_digit(c) || (0x61 <= n && n <= 0x7a) || (0x41 <= n && n <= 0x5a)
}

/// `c` with an ASCII capital replaced by its small letter.
pub open spec fn lower(c: char) -> char {
    if 'A' as int <= c as int <= 'Z' as int {
        (c as int + 32) as char
    } else {
        c
    }
}

/// ASCII lower case of one character.
pub fn lower_char(c: char) -> (r: char)
    ensures
        r == lower(c),
{
    let n: u32 = c as u32;
    if 0x41 <= n && n <= 0x5a {
        (n as u8 + 32u8) as char
    } else {
        c
    }
}

/// ASCII lower case of a text.
pub open spec fn lowered(s: Seq<char>) -> Seq<char> {
    s.map_values(|c: char| lower(c))
}

// ---- Between `str` and its characters ----

/// The characters of a text, in order.
pub fn chars_of(s: &str) -> (r: Vec<char>)
    ensures
        r@ == s@,
{
    let mut out: Vec<char> = Vec::new();
    for c in it: s.chars()
        invariant
            out@ =~= s@.take(it.index()),
            it.seq() == s@,
    {
        out.push(c);
    }
    out
}

/// The text with the characters `v[from..to]`.
pub fn text_of(v: &Vec<char>, from: usize, to: usize) -> (r: String)
    requires
        from <= to <= v@.len(),
    ensures
        r@ == v@.subrange(from as int, to as int),
{
    let mut out = String::new();
    let mut i: usize = from;
    while i < to
        invariant
            from <= i <= to <= v@.len(),
            out@ =~= v@.subrange(from as int, i as int),
        decreases to - i,
    {
        out.push(v[i]);
        i += 1;
    }
    out
}

/// Whether two texts hold the same characters.
pub fn same(a: &str, b: &str) -> (r: bool)
    ensures
        r == (a@ == b@),
{
    let x: Vec<char> = chars_of(a);
    let y: Vec<char> = chars_of(b);
    if x.len() != y.len() {
        return false;
    }
    let mut i: usize = 0;
    while i < x.len()
        invariant
            i <= x@.len(),
            x@ == a@,
            y@ == b@,
            x@.len() == y@.len(),
            forall|j: int| 0 <= j < i ==> x@[j] == y@[j],
        decreases x@.len() - i,
    {
        if x[i] != y[i] {
            return false;
        }
        i += 1;
    }
    assert(a@ =~= b@);
    true
}

/// ASCII lower case of a text.
pub fn lower_text(s: &str) -> (r: String)
    ensures
        r@ == lowered(s@),
{
    let v: Vec<char> = chars_of(s);
    let mut out = String::new();
    let mut i: usize = 0;
    while i < v.len()
        invariant
            i <= v@.len(),
            v@ == s@,
            out@ =~= lowered(s@).take(i as int),
        decreases v@.len() - i,
    {
        out.push(lower_char(v[i]));
        i += 1;
    }
    assert(out@ =~= lowered(s@));
    out
}

// ---- Trimming ----

/// `s` without its leading white space.
pub open spec fn trim_start(s: Seq<char>) -> Seq<char>
    decreases s.len(),
{
    if s.len() > 0 && white(s[0]) {
        trim_start(s.drop_first())
    } else {
        s
    }
}

/// `s` without its trailing white space.
pub open spec fn trim_end(s: Seq<char>) -> Seq<char>
    decreases s.len(),
{
    if s.len() > 0 && white(s.last()) {
        trim_end(s.drop_last())
    } else {
        s
    }
}

/// `s` without the white space around it.
pub open spec fn trimmed(s: Seq<char>) -> Seq<char> {
    trim_end(trim_start(s))
}

/// Nothing but white space.
pub open spec fn blank(s: Seq<char>) -> bool {
    trimmed(s).len() == 0
}

/// The number of leading white characters.
fn leading_white(v: &Vec<char>) -> (n: usize)
    ensures
        n <= v@.len(),
        trim_start(v@) == v@.skip(n as int),
{
    let mut n: usize = 0;
    assert(v@.skip(0) =~= v@);
    while n < v.len() && is_white(v[n])
        invariant
            n <= v@.len(),
            trim_start(v@) == trim_start(v@.skip(n as int)),
        decreases v@.len() - n,
    {
        proof {
            assert(v@.skip(n as int).drop_first() =~= v@.skip(n + 1));
        }
        n += 1;
    }
    n
}

/// `s` without the white space around it.
pub fn trim(s: &str) -> (r: &str)
    ensures
        r@ == trimmed(s@),
{
    let v: Vec<char> = chars_of(s);
    let from: usize = leading_white(&v);
    let mut to: usize = v.len();
    assert(v@.skip(from as int) =~= v@.subrange(from as int, to as int));
    while from < to && is_white(v[to - 1])
        invariant
            from <= to <= v@.len(),
            trim_end(trim_start(v@)) == trim_end(v@.subrange(from as int, to as int)),
        decreases to,
    {
        proof {
            assert(v@.subrange(from as int, to as int).drop_last() =~= v@.subrange(
                from as int,
                to - 1,
            ));
        }
        to -= 1;
    }
    s.substring_char(from, to)
}

/// Whether a text is nothing but white space.
pub fn is_blank(s: &str) -> (b: bool)
    ensures
        b == blank(s@),
{
    trim(s).is_empty()
}

/// `s` without the copies of `c` at its start.
pub open spec fn drop_leading(s: Seq<char>, c: char) -> Seq<char>
    decreases s.len(),
{
    if s.len() > 0 && s[0] == c {
        drop_leading(s.drop_first(), c)
    } else {
        s
    }
}

/// `s` without the copies of `c` at its end.
pub open spec fn drop_trailing(s: Seq<char>, c: char) -> Seq<char>
    decreases s.len(),
{
    if s.len() > 0 && s.last() == c {
        drop_trailing(s.drop_last(), c)
    } else {
        s
    }
}

/// `s` without the copies of `c` at its start.
pub fn without_leading(s: &str, c: char) -> (r: &str)
    ensures
        r@ == drop_leading(s@, c),
{
    let v: Vec<char> = chars_of(s);
    let mut n: usize = 0;
    assert(v@.skip(0) =~= v@);
    while n < v.len() && v[n] == c
        invariant
            n <= v@.len(),
            drop_leading(v@, c) == drop_leading(v@.skip(n as int), c),
        decreases v@.len() - n,
    {
        assert(v@.skip(n as int).drop_first() =~= v@.skip(n + 1));
        n += 1;
    }
    assert(v@.skip(n as int) =~= v@.subrange(n as int, v@.len() as int));
    s.substring_char(n, v.len())
}

/// `s` without the copies of `c` at its end.
pub fn without_trailing(s: &str, c: char) -> (r: &str)
    ensures
        r@ == drop_trailing(s@, c),
{
    let v: Vec<char> = chars_of(s);
    let mut n: usize = v.len();
    assert(v@.take(n as int) =~= v@);
    while 0 < n && v[n - 1] == c
        invariant
            n <= v@.len(),
            drop_trailing(v@, c) == drop_trailing(v@.take(n as int), c),
        decreases n,
    {
        assert(v@.take(n as int).drop_last() =~= v@.take(n - 1));
        n -= 1;
    }
    assert(v@.take(n as int) =~= v@.subrange(0, n as int));
    s.substring_char(0, n)
}

// ---- Searching ----

/// `p` stands in `s` at position `i`.
pub open spec fn at(s: Seq<char>, p: Seq<char>, i: int) -> bool {
    0 <= i && i + p.len() <= s.len() && s.subrange(i, i + p.len() as int) == p
}

/// `s` begins with `p`.
pub open spec fn starts(s: Seq<char>, p: Seq<char>) -> bool {
    at(s, p, 0)
}

/// `s` ends with `p`.
pub open spec fn ends(s: Seq<char>, p: Seq<char>) -> bool {
    at(s, p, s.len() - p.len())
}

/// `p` stands somewhere in `s`.
pub open spec fn has(s: Seq<char>, p: Seq<char>) -> bool {
    exists|i: int| at(s, p, i)
}

/// The first position at or after `i` at which `p` stands in `s`.
pub open spec fn find_from(s: Seq<char>, p: Seq<char>, i: int) -> Option<int>
    decreases s.len() + 1 - i,
{
    if i < 0 || i + p.len() > s.len() {
        None
    } else if at(s, p, i) {
        Some(i)
    } else {
        find_from(s, p, i + 1)
    }
}

/// `find_from` gives the least position, and gives one whenever there is one.
pub proof fn find_from_is_first(s: Seq<char>, p: Seq<char>, i: int)
    requires
        0 <= i,
    ensures
        match find_from(s, p, i) {
            Some(k) => i <= k && at(s, p, k) && forall|j: int| i <= j < k ==> !at(s, p, j),
            None => forall|j: int| i <= j ==> !at(s, p, j),
        },
    decreases s.len() + 1 - i,
{
    if i + p.len() <= s.len() && !at(s, p, i) {
        find_from_is_first(s, p, i + 1);
    }
}

/// A position as a mathematical integer.
pub open spec fn position(p: Option<usize>) -> Option<int> {
    match p {
        Some(i) => Some(i as int),
        None => None,
    }
}

/// Whether `p` stands in `s` at position `i`.
pub fn is_at(s: &Vec<char>, p: &Vec<char>, i: usize) -> (b: bool)
    ensures
        b == at(s@, p@, i as int),
{
    if p.len() > s.len() || i > s.len() - p.len() {
        return false;
    }
    let mut j: usize = 0;
    while j < p.len()
        invariant
            j <= p@.len(),
            i + p.len() <= s.len(),
            forall|k: int| 0 <= k < j ==> s@[i + k] == p@[k],
        decreases p@.len() - j,
    {
        if s[i + j] != p[j] {
            assert(s@.subrange(i as int, i + p@.len() as int)[j as int] != p@[j as int]);
            return false;
        }
        j += 1;
    }
    assert(s@.subrange(i as int, i + p@.len() as int) =~= p@);
    true
}

/// The first position of `p` in `s` at or after `from`.
pub fn find_chars(s: &Vec<char>, p: &Vec<char>, from: usize) -> (r: Option<usize>)
    ensures
        position(r) == find_from(s@, p@, from as int),
{
    if p.len() > s.len() {
        return None;
    }
    let last: usize = s.len() - p.len();
    let mut i: usize = from;
    while i <= last
        invariant
            from <= i,
            last == s@.len() - p@.len(),
            i <= last + 1 || i == from,
            find_from(s@, p@, from as int) == find_from(s@, p@, i as int),
        decreases last + 1 - i,
    {
        if is_at(s, p, i) {
            return Some(i);
        }
        if i == last {
            assert(find_from(s@, p@, i + 1) is None);
            return None;
        }
        i += 1;
    }
    None
}

/// The first position of `p` in `s`, counted in characters.
pub fn find(s: &str, p: &str) -> (r: Option<usize>)
    ensures
        position(r) == find_from(s@, p@, 0),
        r matches Some(i) ==> i + p@.len() <= s@.len(),
{
    let x: Vec<char> = chars_of(s);
    let y: Vec<char> = chars_of(p);
    proof {
        find_from_is_first(s@, p@, 0);
    }
    find_chars(&x, &y, 0)
}

/// Whether `p` stands somewhere in `s`.
pub fn contains(s: &str, p: &str) -> (b: bool)
    ensures
        b == has(s@, p@),
{
    let r = find(s, p);
    proof {
        find_from_is_first(s@, p@, 0);
        if r is Some {
            assert(at(s@, p@, r->0 as int));
        } else {
            assert forall|i: int| !at(s@, p@, i) by {}
        }
    }
    r.is_some()
}

/// Whether `s` begins with `p`.
pub fn starts_with(s: &str, p: &str) -> (b: bool)
    ensures
        b == starts(s@, p@),
{
    is_at(&chars_of(s), &chars_of(p), 0)
}

/// Whether `s` ends with `p`.
pub fn ends_with(s: &str, p: &str) -> (b: bool)
    ensures
        b == ends(s@, p@),
{
    let x: Vec<char> = chars_of(s);
    let y: Vec<char> = chars_of(p);
    if y.len() > x.len() {
        return false;
    }
    is_at(&x, &y, x.len() - y.len())
}

/// `s` without the last `n` characters.
pub fn without_last(s: &str, n: usize) -> (r: &str)
    requires
        n <= s@.len(),
    ensures
        r@ == s@.take(s@.len() - n),
{
    let len: usize = s.unicode_len();
    let r = s.substring_char(0, len - n);
    assert(s@.subrange(0, len - n) =~= s@.take(len - n));
    r
}

/// The character occurs in the text.
pub fn contains_char(s: &str, c: char) -> (b: bool)
    ensures
        b == s@.contains(c),
{
    let v: Vec<char> = chars_of(s);
    let mut i: usize = 0;
    while i < v.len()
        invariant
            i <= v@.len(),
            v@ == s@,
            forall|j: int| 0 <= j < i ==> v@[j] != c,
        decreases v@.len() - i,
    {
        if v[i] == c {
            assert(s@[i as int] == c);
            return true;
        }
        i += 1;
    }
    false
}

// ---- Decimal numbers ----

/// The digit `d` as a character.
pub open spec fn digit_char(d: int) -> char {
    ('0' as int + d) as char
}

/// The decimal digits of `n`, without leading zeros.
pub open spec fn dec(n: nat) -> Seq<char>
    decreases n,
{
    if n < 10 {
        seq![digit_char(n as int)]
    } else {
        dec(n / 10).push(digit_char((n % 10) as int))
    }
}

/// `s` filled up on the left with `c` to at least `width` characters.
pub open spec fn padded(s: Seq<char>, width: nat, c: char) -> Seq<char> {
    if s.len() >= width {
        s
    } else {
        Seq::new((width - s.len()) as nat, |i: int| c) + s
    }
}

/// The decimal form of `n`.
pub fn decimal(n: u64) -> (r: String)
    ensures
        r@ == dec(n as nat),
    decreases n,
{
    if n < 10 {
        let mut out = String::new();
        out.push((48u8 + n as u8) as char);
        assert(out@ =~= dec(n as nat));
        out
    } else {
        let mut out = decimal(n / 10);
        out.push((48u8 + (n % 10) as u8) as char);
        out
    }
}

/// `n` with at least `width` digits.
pub fn decimal_padded(n: u64, width: usize) -> (r: String)
    ensures
        r@ == padded(dec(n as nat), width as nat, '0'),
{
    let digits = decimal(n);
    let len: usize = digits.as_str().unicode_len();
    let mut out = String::new();
    let mut i: usize = len;
    while i < width
        invariant
            len == digits@.len(),
            digits@ == dec(n as nat),
            len <= i,
            i <= width || i == len,
            out@ =~= Seq::new((i - len) as nat, |j: int| '0'),
        decreases width - i,
    {
        out.push('0');
        i += 1;
    }
    out.append(digits.as_str());
    assert(out@ =~= padded(dec(n as nat), width as nat, '0'));
    out
}

/// The value of a run of decimal digits.
pub open spec fn value(s: Seq<char>) -> nat
    decreases s.len(),
{
    if s.len() == 0 {
        0
    } else {
        (value(s.drop_last()) * 10 + (s.last() as int - '0' as int)) as nat
    }
}

/// Nothing but digits.
pub open spec fn digits(s: Seq<char>) -> bool {
    forall|i: int| 0 <= i < s.len() ==> digit(#[trigger] s[i])
}

/// Reading back the decimal form of `n` gives `n`.
pub proof fn decimal_reads_back(n: nat)
    ensures
        digits(dec(n)),
        dec(n).len() >= 1,
        value(dec(n)) == n,
    decreases n,
{
    if n < 10 {
        let s = dec(n);
        assert(s.drop_last() =~= Seq::<char>::empty());
        assert(s.last() == digit_char(n as int));
        assert(value(s.drop_last()) == 0);
    } else {
        decimal_reads_back(n / 10);
        let s = dec(n);
        assert(s.drop_last() =~= dec(n / 10));
        assert forall|i: int| 0 <= i < s.len() implies digit(#[trigger] s[i]) by {
            if i < s.len() - 1 {
                assert(s[i] == dec(n / 10)[i]);
            }
        }
    }
}

/// The value of `v[from..to]`, where it is a run of digits that is worth at most `max`.
pub fn read_decimal(v: &Vec<char>, from: usize, to: usize, max: u64) -> (r: Option<u64>)
    requires
        from <= to <= v@.len(),
    ensures
        r == (if from < to && digits(v@.subrange(from as int, to as int)) && value(
            v@.subrange(from as int, to as int),
        ) <= max {
            Some(value(v@.subrange(from as int, to as int)) as u64)
        } else {
            None
        }),
{
    if from == to {
        return None;
    }
    let ghost s = v@.subrange(from as int, to as int);
    let mut n: u64 = 0;
    let mut i: usize = from;
    assert(s.take(0) =~= Seq::<char>::empty());
    let mut over: bool = false;
    while i < to
        invariant
            from <= i <= to <= v@.len(),
            s == v@.subrange(from as int, to as int),
            digits(s.take(i - from)),
            over ==> value(s.take(i - from)) > max,
            !over ==> n == value(s.take(i - from)) && n <= max,
        decreases to - i,
    {
        let c: char = v[i];
        assert(s[i - from] == c);
        if !is_digit(c) {
            return None;
        }
        proof {
            assert(s.take(i + 1 - from).drop_last() =~= s.take(i - from));
            assert(s.take(i + 1 - from).last() == c);
            assert forall|j: int| 0 <= j < i + 1 - from implies digit(#[trigger] s.take(i + 1 - from)[j]) by {
                if j < i - from {
                    assert(s.take(i + 1 - from)[j] == s.take(i - from)[j]);
                }
            }
        }
        let d: u64 = (c as u32 - 48) as u64;
        if !over {
            if d > max || n > (max - d) / 10 {
                over = true;
            } else {
                n = n * 10 + d;
            }
        }
        i += 1;
    }
    assert(s.take(to - from) =~= s);
    if over {
        None
    } else {
        Some(n)
    }
}

/// The first dash in `dec(n) + "-" + rest` stands right behind the digits.
pub proof fn decimal_before_dash(n: nat, x: Seq<char>, m: nat, y: Seq<char>)
    requires
        dec(n) + seq!['-'] + x == dec(m) + seq!['-'] + y,
    ensures
        n == m,
        x == y,
{
    decimal_reads_back(n);
    decimal_reads_back(m);
    let a = dec(n) + seq!['-'] + x;
    let b = dec(m) + seq!['-'] + y;
    if dec(n).len() < dec(m).len() {
        assert(a[dec(n).len() as int] == '-');
        assert(b[dec(n).len() as int] == dec(m)[dec(n).len() as int]);
        assert(digit(dec(m)[dec(n).len() as int]));
    }
    if dec(m).len() < dec(n).len() {
        assert(b[dec(m).len() as int] == '-');
        assert(a[dec(m).len() as int] == dec(n)[dec(m).len() as int]);
        assert(digit(dec(n)[dec(m).len() as int]));
    }
    assert(a.take(dec(n).len() as int) =~= dec(n));
    assert(b.take(dec(m).len() as int) =~= dec(m));
    assert(a.skip(dec(n).len() as int + 1) =~= x);
    assert(b.skip(dec(m).len() as int + 1) =~= y);
}

proof fn leading_zero(s: Seq<char>)
    requires
        digits(s),
    ensures
        digits(seq!['0'] + s),
        value(seq!['0'] + s) == value(s),
    decreases s.len(),
{
    let t = seq!['0'] + s;
    assert forall|i: int| 0 <= i < t.len() implies digit(#[trigger] t[i]) by {
        if i > 0 {
            assert(t[i] == s[i - 1]);
        }
    }
    if s.len() == 0 {
        assert(t.drop_last() =~= Seq::<char>::empty());
        assert(t.last() == '0');
        assert(value(t.drop_last()) == 0);
    } else {
        assert forall|i: int| 0 <= i < s.drop_last().len() implies digit(#[trigger] s.drop_last()[i]) by {
            assert(s.drop_last()[i] == s[i]);
        }
        leading_zero(s.drop_last());
        assert(t.drop_last() =~= seq!['0'] + s.drop_last());
    }
}

proof fn padding_keeps_value(s: Seq<char>, k: nat)
    requires
        digits(s),
    ensures
        digits(Seq::new(k, |i: int| '0') + s),
        value(Seq::new(k, |i: int| '0') + s) == value(s),
    decreases k,
{
    if k == 0 {
        assert(Seq::new(k, |i: int| '0') + s =~= s);
    } else {
        padding_keeps_value(s, (k - 1) as nat);
        let shorter = Seq::new((k - 1) as nat, |i: int| '0') + s;
        leading_zero(shorter);
        assert(Seq::new(k, |i: int| '0') + s =~= seq!['0'] + shorter);
    }
}

/// Numbers that look the same when padded with zeros are the same.
pub proof fn padded_decimals_differ(n: nat, m: nat, width: nat)
    requires
        padded(dec(n), width, '0') == padded(dec(m), width, '0'),
    ensures
        n == m,
{
    decimal_reads_back(n);
    decimal_reads_back(m);
    if dec(n).len() < width {
        padding_keeps_value(dec(n), (width - dec(n).len()) as nat);
    }
    if dec(m).len() < width {
        padding_keeps_value(dec(m), (width - dec(m).len()) as nat);
    }
}

/// A text that begins and ends with something visible is not blank.
pub proof fn visible_ends(s: Seq<char>)
    requires
        s.len() > 0,
        !white(s[0]),
        !white(s.last()),
    ensures
        trimmed(s) == s,
        !blank(s),
{
}

// ---- Reading numbers and lists ----

/// The parts of `s` between the occurrences of `c`.
pub open spec fn split(s: Seq<char>, c: char) -> Seq<Seq<char>>
    decreases s.len(),
{
    if s.len() == 0 {
        seq![Seq::<char>::empty()]
    } else {
        let parts = split(s.drop_last(), c);
        if s.last() == c {
            parts.push(Seq::empty())
        } else {
            parts.drop_last().push(parts.last().push(s.last()))
        }
    }
}

/// Splits a text at every `c`.
#[verifier::loop_isolation(false)]
pub fn split_text(s: &str, c: char) -> (r: Vec<String>)
    ensures
        views(r@) == split(s@, c),
{
    let v: Vec<char> = chars_of(s);
    let mut out: Vec<String> = Vec::new();
    let mut part = String::new();
    let mut i: usize = 0;
    assert(v@.take(0) =~= Seq::<char>::empty());
    assert(views(out@) =~= Seq::<Seq<char>>::empty());
    while i < v.len()
        invariant
            i <= v@.len(),
            v@ == s@,
            views(out@).push(part@) =~= split(v@.take(i as int), c),
        decreases v@.len() - i,
    {
        let d: char = v[i];
        let ghost before = views(out@).push(part@);
        assert(v@.take(i + 1).drop_last() =~= v@.take(i as int));
        assert(before.drop_last() =~= views(out@));
        if d == c {
            proof {
                views_push(out@, part);
            }
            out.push(part);
            part = String::new();
        } else {
            part.push(d);
        }
        i += 1;
    }
    assert(v@.take(v@.len() as int) =~= v@);
    proof {
        views_push(out@, part);
    }
    out.push(part);
    out
}

/// What a number is worth that may carry a plus sign, if it is at most `max`.
pub open spec fn number(s: Seq<char>, max: int) -> Option<int> {
    let t = if s.len() > 0 && s[0] == '+' {
        s.skip(1)
    } else {
        s
    };
    if t.len() > 0 && digits(t) && value(t) <= max {
        Some(value(t) as int)
    } else {
        None
    }
}

/// Reads a number that may carry a plus sign.
pub fn parse_number(s: &str, max: u64) -> (r: Option<u64>)
    ensures
        match r {
            Some(n) => number(s@, max as int) == Some(n as int),
            None => number(s@, max as int) is None,
        },
{
    let v: Vec<char> = chars_of(s);
    let from: usize = if v.len() > 0 && v[0] == '+' {
        1
    } else {
        0
    };
    let r = read_decimal(&v, from, v.len(), max);
    assert(v@.subrange(from as int, v@.len() as int) =~= v@.skip(from as int));
    assert(v@.skip(0) =~= v@);
    r
}

/// What an integer is worth that may carry a sign, if it fits into 32 bits.
pub open spec fn integer(s: Seq<char>) -> Option<int> {
    if s.len() > 0 && s[0] == '-' {
        let t = s.skip(1);
        if t.len() > 0 && digits(t) && value(t) <= 0x8000_0000 {
            Some(-(value(t) as int))
        } else {
            None
        }
    } else {
        number(s, 0x7fff_ffff)
    }
}

/// Reads an integer that may carry a sign.
pub fn parse_integer(s: &str) -> (r: Option<i32>)
    ensures
        match r {
            Some(n) => integer(s@) == Some(n as int),
            None => integer(s@) is None,
        },
{
    let v: Vec<char> = chars_of(s);
    if v.len() > 0 && v[0] == '-' {
        assert(v@.subrange(1, v@.len() as int) =~= v@.skip(1));
        match read_decimal(&v, 1, v.len(), 0x8000_0000) {
            Some(n) => Some((-(n as i64)) as i32),
            None => None,
        }
    } else {
        match parse_number(s, 0x7fff_ffff) {
            Some(n) => Some(n as i32),
            None => None,
        }
    }
}

/// The texts on both sides of the first `sep`.
pub open spec fn halves(s: Seq<char>, sep: Seq<char>) -> Option<(Seq<char>, Seq<char>)> {
    match find_from(s, sep, 0) {
        Some(i) => Some((s.take(i), s.skip(i + sep.len()))),
        None => None,
    }
}

/// The texts on both sides of the first `sep`.
pub fn split_once(s: &str, sep: &str) -> (r: Option<(String, String)>)
    ensures
        match r {
            Some((a, b)) => halves(s@, sep@) == Some((a@, b@)),
            None => halves(s@, sep@) is None,
        },
{
    let v: Vec<char> = chars_of(s);
    let p: Vec<char> = chars_of(sep);
    match find(s, sep) {
        Some(i) => {
            assert(i + p@.len() <= v.len());
            let a = text_of(&v, 0, i);
            let b = text_of(&v, i + p.len(), v.len());
            assert(a@ =~= s@.take(i as int));
            assert(b@ =~= s@.skip(i + sep@.len()));
            Some((a, b))
        },
        None => None,
    }
}

/// Where the run of digits that begins at `i` ends.
pub open spec fn digit_end(s: Seq<char>, i: int) -> int
    decreases s.len() - i,
{
    if 0 <= i < s.len() && digit(s[i]) {
        digit_end(s, i + 1)
    } else {
        i
    }
}

/// A run of digits reaches to its end, and holds nothing but digits.
pub proof fn digit_end_bounds(s: Seq<char>, i: int)
    requires
        0 <= i <= s.len(),
    ensures
        i <= digit_end(s, i) <= s.len(),
        digits(s.subrange(i, digit_end(s, i))),
        digit_end(s, i) < s.len() ==> !digit(s[digit_end(s, i)]),
    decreases s.len() - i,
{
    if i < s.len() && digit(s[i]) {
        digit_end_bounds(s, i + 1);
        let e = digit_end(s, i);
        assert forall|k: int| 0 <= k < e - i implies digit(#[trigger] s.subrange(i, e)[k]) by {
            if k > 0 {
                assert(s.subrange(i, e)[k] == s.subrange(i + 1, e)[k - 1]);
            }
        }
    }
}

/// Where the run of digits that begins at `i` ends.
pub fn end_of_digits(v: &Vec<char>, i: usize) -> (r: usize)
    requires
        i <= v@.len(),
    ensures
        i <= r <= v@.len(),
        r == digit_end(v@, i as int),
{
    let mut k: usize = i;
    while k < v.len() && is_digit(v[k])
        invariant
            i <= k <= v@.len(),
            digit_end(v@, i as int) == digit_end(v@, k as int),
        decreases v@.len() - k,
    {
        k += 1;
    }
    k
}

/// The decimal digits of an integer, with a minus sign where it is negative.
pub open spec fn signed_dec(n: int) -> Seq<char> {
    if n < 0 {
        "-"@ + dec((-n) as nat)
    } else {
        dec(n as nat)
    }
}

/// The decimal digits of an integer, with a minus sign where it is negative.
pub fn signed_decimal(n: i64) -> (r: String)
    ensures
        r@ == signed_dec(n as int),
{
    if n < 0 {
        let magnitude: u64 = (-(n + 1)) as u64 + 1;
        let d = decimal(magnitude);
        cat2("-", d.as_str())
    } else {
        decimal(n as u64)
    }
}

// ---- Collections of texts ----

/// The views of a sequence's items.
pub open spec fn views<T: View>(s: Seq<T>) -> Seq<T::V> {
    Seq::new(s.len(), |i: int| s[i]@)
}

/// The view of an optional value.
pub open spec fn opt_view<T: View>(o: Option<T>) -> Option<T::V> {
    match o {
        Some(t) => Some(t@),
        None => None,
    }
}

/// Adding an item adds its view.
pub proof fn views_push<T: View>(s: Seq<T>, t: T)
    ensures
        views(s.push(t)) == views(s).push(t@),
{
    assert(views(s.push(t)) =~= views(s).push(t@));
}

/// Copies borrowed texts into a list of owned ones.
pub fn own_texts(v: Vec<&str>) -> (r: Vec<String>)
    ensures
        views(r@) == views(v@),
{
    let mut out: Vec<String> = Vec::new();
    let mut i: usize = 0;
    while i < v.len()
        invariant
            i <= v@.len(),
            out@.len() == i,
            forall|j: int| 0 <= j < i ==> (#[trigger] out@[j])@ == v@[j]@,
        decreases v@.len() - i,
    {
        out.push(text(v[i]));
        i += 1;
    }
    assert(views(out@) =~= views(v@));
    out
}

/// Whether two lists hold the same texts in the same order.
pub fn same_texts(a: &Vec<String>, b: &Vec<String>) -> (r: bool)
    ensures
        r == (views(a@) == views(b@)),
{
    if a.len() != b.len() {
        assert(views(a@).len() != views(b@).len());
        return false;
    }
    let mut i: usize = 0;
    while i < a.len()
        invariant
            i <= a@.len(),
            a@.len() == b@.len(),
            forall|j: int| 0 <= j < i ==> a@[j]@ == b@[j]@,
        decreases a@.len() - i,
    {
        if a[i] != b[i] {
            assert(views(a@)[i as int] != views(b@)[i as int]);
            return false;
        }
        i += 1;
    }
    assert(views(a@) =~= views(b@));
    true
}

/// Whether two optional texts agree.
pub fn same_opt(a: &Option<String>, b: &Option<String>) -> (r: bool)
    ensures
        r == (opt_view(*a) == opt_view(*b)),
{
    match (a, b) {
        (None, None) => true,
        (Some(x), Some(y)) => *x == *y,
        _ => false,
    }
}

/// A copy of a list of texts.
pub fn copy_texts(v: &Vec<String>) -> (r: Vec<String>)
    ensures
        r@ == v@,
{
    let mut out: Vec<String> = Vec::new();
    let mut i: usize = 0;
    while i < v.len()
        invariant
            i <= v@.len(),
            out@ =~= v@.take(i as int),
        decreases v@.len() - i,
    {
        out.push(v[i].clone());
        i += 1;
    }
    assert(out@ =~= v@);
    out
}

/// A copy of an optional text.
pub fn copy_opt(o: &Option<String>) -> (r: Option<String>)
    ensures
        r == *o,
{
    match o {
        Some(s) => Some(s.clone()),
        None => None,
    }
}

/// Whether a list holds a text.
pub fn lists(v: &Vec<String>, s: &str) -> (r: bool)
    ensures
        r == views(v@).contains(s@),
{
    let mut i: usize = 0;
    while i < v.len()
        invariant
            i <= v@.len(),
            forall|j: int| 0 <= j < i ==> v@[j]@ != s@,
        decreases v@.len() - i,
    {
        if same(v[i].as_str(), s) {
            assert(views(v@)[i as int] == s@);
            return true;
        }
        i += 1;
    }
    assert forall|j: int| 0 <= j < views(v@).len() implies views(v@)[j] != s@ by {}
    false
}

/// Texts with `sep` between neighbours.
pub open spec fn joined(parts: Seq<Seq<char>>, sep: Seq<char>) -> Seq<char>
    decreases parts.len(),
{
    if parts.len() == 0 {
        Seq::empty()
    } else if parts.len() == 1 {
        parts[0]
    } else {
        joined(parts.drop_last(), sep) + sep + parts.last()
    }
}

/// The texts of a list with `sep` between neighbours.
pub fn join(parts: &Vec<String>, sep: &str) -> (r: String)
    ensures
        r@ == joined(views(parts@), sep@),
{
    let mut out = String::new();
    let mut i: usize = 0;
    assert(views(parts@).take(0) =~= Seq::<Seq<char>>::empty());
    while i < parts.len()
        invariant
            i <= parts@.len(),
            out@ == joined(views(parts@).take(i as int), sep@),
        decreases parts@.len() - i,
    {
        let ghost before = views(parts@).take(i as int);
        let ghost after = views(parts@).take(i + 1);
        proof {
            assert(after.drop_last() =~= before);
            assert(after.last() == parts@[i as int]@);
        }
        if i > 0 {
            out.append(sep);
        }
        out.append(parts[i].as_str());
        proof {
            if i == 0 {
                assert(out@ =~= parts@[0]@);
            }
        }
        i += 1;
    }
    assert(views(parts@).take(i as int) =~= views(parts@));
    out
}

/// No control character.
pub open spec fn no_control(s: Seq<char>) -> bool {
    forall|i: int| 0 <= i < s.len() ==> !control(#[trigger] s[i])
}

/// Whether a text is free of control characters.
pub fn has_no_control(s: &str) -> (b: bool)
    ensures
        b == no_control(s@),
{
    let v: Vec<char> = chars_of(s);
    let mut i: usize = 0;
    while i < v.len()
        invariant
            i <= v@.len(),
            v@ == s@,
            forall|j: int| 0 <= j < i ==> !control(#[trigger] s@[j]),
        decreases v@.len() - i,
    {
        if is_control(v[i]) {
            assert(control(s@[i as int]));
            return false;
        }
        i += 1;
    }
    true
}

/// A text of the given literal.
pub fn text(s: &str) -> (r: String)
    ensures
        r@ == s@,
{
    s.to_owned()
}

/// Two texts one after the other.
pub fn cat2(a: &str, b: &str) -> (r: String)
    ensures
        r@ == a@ + b@,
{
    let mut out = text(a);
    out.append(b);
    out
}

/// Three texts one after the other.
pub fn cat3(a: &str, b: &str, c: &str) -> (r: String)
    ensures
        r@ == a@ + b@ + c@,
{
    let mut out = text(a);
    out.append(b);
    out.append(c);
    out
}

/// Four texts one after the other.
pub fn cat4(a: &str, b: &str, c: &str, d: &str) -> (r: String)
    ensures
        r@ == a@ + b@ + c@ + d@,
{
    let mut out = text(a);
    out.append(b);
    out.append(c);
    out.append(d);
    out
}

/// Five texts one after the other.
pub fn cat5(a: &str, b: &str, c: &str, d: &str, e: &str) -> (r: String)
    ensures
        r@ == a@ + b@ + c@ + d@ + e@,
{
    let mut out = text(a);
    out.append(b);
    out.append(c);
    out.append(d);
    out.append(e);
    out
}

// ---- What the pieces above have in common ----

/// Only the space characters and line breaks of Unicode count as white, tab and ideographic space
/// among them; nothing visible does.
pub proof fn white_takes_no_ink(c: char)
    ensures
        c == ' ' || c == '\t' || c == '\n' || c == '\r' || c == '\u{b}' || c == '\u{c}' || c == '\u{85}' || c
            == '\u{a0}' || c == '\u{1680}' || c == '\u{2000}' || c == '\u{2001}' || c == '\u{2002}' || c
            == '\u{2003}' || c == '\u{2004}' || c == '\u{2005}' || c == '\u{2006}' || c == '\u{2007}' || c
            == '\u{2008}' || c == '\u{2009}' || c == '\u{200a}' || c == '\u{2028}' || c == '\u{2029}' || c
            == '\u{202f}' || c == '\u{205f}' || c == '\u{3000}' <==> white(c),
{
}

/// Control characters are those below the space, and from the delete character to U+009F.
pub proof fn control_takes_no_ink(c: char)
    ensures
        control(c) <==> !(' ' as int <= c as int <= '~' as int || c as int >= 0xa0),
{
}

/// Case changes nothing but ASCII capitals, and changes them once: a letter and its capital end
/// up alike, and a lowered text has its length and no capital.
pub proof fn lowering_settles(s: Seq<char>)
    ensures
        lowered(s).len() == s.len(),
        lowered(lowered(s)) == lowered(s),
        forall|i: int|
            0 <= i < s.len() ==> {
                let c = s[i] as int;
                let d = (#[trigger] lowered(s)[i]) as int;
                &&& !(0x41 <= d <= 0x5a)
                &&& d == c || (0x41 <= c <= 0x5a && d == c + 0x20)
            },
{
    assert(lowered(lowered(s)) =~= lowered(s));
}

/// A number of one digit is written as that digit, and one more digit at the end of a number is
/// ten times the number and the digit.
pub proof fn a_digit_counts_by_its_place(n: nat, d: nat)
    requires
        d < 10,
    ensures
        dec(d) == seq![(0x30 + d) as char],
        n > 0 ==> dec(10 * n + d) == dec(n).push((0x30 + d) as char),
        value(seq![(0x30 + d) as char]) == d,
        value(dec(n).push((0x30 + d) as char)) == 10 * n + d,
{
    decimal_reads_back(n);
    let one = seq![(0x30 + d) as char];
    assert(one.drop_last() =~= Seq::<char>::empty());
    assert(value(one.drop_last()) == 0);
    let more = dec(n).push((0x30 + d) as char);
    assert(more.drop_last() =~= dec(n));
    if n > 0 {
        assert((10 * n + d) / 10 == n);
        assert((10 * n + d) % 10 == d);
    }
}

/// A padded number reads back, and is as wide as asked for.
pub proof fn padded_reads_back(n: nat, width: nat)
    ensures
        digits(padded(dec(n), width, '0')),
        value(padded(dec(n), width, '0')) == n,
        padded(dec(n), width, '0').len() >= width,
        dec(n).len() >= width ==> padded(dec(n), width, '0') == dec(n),
        dec(n).len() <= width ==> padded(dec(n), width, '0').len() == width,
{
    decimal_reads_back(n);
    if dec(n).len() < width {
        padding_keeps_value(dec(n), (width - dec(n).len()) as nat);
    }
}

/// A number below a hundred padded to two digits takes two.
pub proof fn two_digits_are_two(n: nat)
    requires
        n < 100,
    ensures
        padded(dec(n), 2, '0') == seq![(0x30 + n / 10) as char, (0x30 + n % 10) as char],
{
    let t = padded(dec(n), 2, '0');
    if n < 10 {
        assert(t =~= seq![(0x30 + n / 10) as char, (0x30 + n % 10) as char]);
    } else {
        assert(n / 10 < 10);
        assert(dec(n / 10) == seq![digit_char((n / 10) as int)]);
        assert(t =~= seq![(0x30 + n / 10) as char, (0x30 + n % 10) as char]);
    }
}

/// A number that was written is read again, with or without a plus sign, if it is not too large.
pub proof fn a_number_reads_back(n: nat, max: int)
    ensures
        number(dec(n), max) == (if n <= max {
            Some(n as int)
        } else {
            None
        }),
        number(seq!['+'] + dec(n), max) == number(dec(n), max),
{
    decimal_reads_back(n);
    assert(digit(dec(n)[0]));
    assert((seq!['+'] + dec(n)).skip(1) =~= dec(n));
}

/// An integer that was written is read again with its sign.
pub proof fn an_integer_reads_back(n: i32)
    ensures
        integer(signed_dec(n as int)) == Some(n as int),
{
    reveal_strlit("-");
    if n < 0 {
        decimal_reads_back((-n) as nat);
        let t = "-"@ + dec((-n) as nat);
        assert(t.skip(1) =~= dec((-n) as nat));
    } else {
        a_number_reads_back(n as nat, 0x7fff_ffff);
        decimal_reads_back(n as nat);
        assert(digit(dec(n as nat)[0]));
    }
}

proof fn trim_start_cuts(s: Seq<char>) -> (a: int)
    ensures
        0 <= a <= s.len(),
        trim_start(s) == s.skip(a),
        forall|k: int| 0 <= k < a ==> white(#[trigger] s[k]),
        a < s.len() ==> !white(s[a]),
    decreases s.len(),
{
    if s.len() > 0 && white(s[0]) {
        let b = trim_start_cuts(s.drop_first());
        assert(s.drop_first().skip(b) =~= s.skip(b + 1));
        assert forall|k: int| 0 <= k < b + 1 implies white(#[trigger] s[k]) by {
            if k > 0 {
                assert(s.drop_first()[k - 1] == s[k]);
            }
        }
        if b < s.drop_first().len() {
            assert(s.drop_first()[b] == s[b + 1]);
        }
        b + 1
    } else {
        assert(s.skip(0) =~= s);
        0
    }
}

proof fn trim_end_cuts(s: Seq<char>) -> (b: int)
    ensures
        0 <= b <= s.len(),
        trim_end(s) == s.take(b),
        forall|k: int| b <= k < s.len() ==> white(#[trigger] s[k]),
        b > 0 ==> !white(s[b - 1]),
    decreases s.len(),
{
    if s.len() > 0 && white(s.last()) {
        let b = trim_end_cuts(s.drop_last());
        assert(s.drop_last().take(b) =~= s.take(b));
        assert forall|k: int| b <= k < s.len() implies white(#[trigger] s[k]) by {
            if k < s.len() - 1 {
                assert(s.drop_last()[k] == s[k]);
            }
        }
        b
    } else {
        assert(s.take(s.len() as int) =~= s);
        s.len() as int
    }
}

/// Trimming takes white characters off both ends and nothing else, and takes all of them.
pub proof fn trimming_takes_the_ends(s: Seq<char>) -> (r: (Seq<char>, Seq<char>))
    ensures
        s == r.0 + trimmed(s) + r.1,
        forall|k: int| 0 <= k < r.0.len() ==> white(#[trigger] r.0[k]),
        forall|k: int| 0 <= k < r.1.len() ==> white(#[trigger] r.1[k]),
        trimmed(s).len() > 0 ==> !white(trimmed(s)[0]) && !white(trimmed(s).last()),
{
    let a = trim_start_cuts(s);
    let t = trim_start(s);
    let b = trim_end_cuts(t);
    let r = (s.take(a), t.skip(b));
    assert(s =~= r.0 + trimmed(s) + r.1);
    assert forall|k: int| 0 <= k < r.1.len() implies white(#[trigger] r.1[k]) by {
        assert(r.1[k] == t[b + k]);
    }
    if b > 0 {
        assert(t[0] == s[a]);
    }
    r
}

/// A text is blank if and only if it holds nothing but white characters.
pub proof fn blank_is_all_white(s: Seq<char>)
    ensures
        blank(s) <==> forall|k: int| 0 <= k < s.len() ==> white(#[trigger] s[k]),
{
    let (a, b) = trimming_takes_the_ends(s);
    if blank(s) {
        assert forall|k: int| 0 <= k < s.len() implies white(#[trigger] s[k]) by {
            if k < a.len() {
                assert(a[k] == s[k]);
            } else {
                assert(b[k - a.len()] == s[k]);
            }
        }
    } else {
        assert(s[a.len() as int] == trimmed(s)[0]);
    }
}

/// A text with nothing white at its ends is kept as it is.
pub proof fn trimming_keeps_the_rest(s: Seq<char>)
    requires
        s.len() > 0 ==> !white(s[0]) && !white(s.last()),
    ensures
        trimmed(s) == s,
{
}

/// A text stands in another at the length of what is before it.
pub proof fn a_part_is_found(a: Seq<char>, p: Seq<char>, b: Seq<char>)
    ensures
        has(a + p + b, p),
        find_from(a + p + b, p, 0) is Some,
        find_from(a + p + b, p, 0)->0 <= a.len(),
        starts(p + b, p),
        ends(a + p, p),
{
    let s = a + p + b;
    assert(s.subrange(a.len() as int, a.len() + p.len() as int) =~= p);
    assert(at(s, p, a.len() as int));
    find_from_is_first(s, p, 0);
    assert((p + b).subrange(0, p.len() as int) =~= p);
    assert((a + p).subrange(a.len() as int, a.len() + p.len() as int) =~= p);
}

/// Where a text is found, the whole is what is before it, the text, and what is behind it.
pub proof fn what_is_found_is_there(s: Seq<char>, p: Seq<char>, i: int)
    requires
        find_from(s, p, 0) == Some(i),
    ensures
        0 <= i,
        i + p.len() <= s.len(),
        s == s.take(i) + p + s.skip(i + p.len()),
        forall|j: int| 0 <= j < i ==> !p.is_prefix_of(#[trigger] s.skip(j)),
{
    find_from_is_first(s, p, 0);
    assert(s.subrange(i, i + p.len() as int) == p);
    assert(s =~= s.take(i) + p + s.skip(i + p.len()));
    assert forall|j: int| 0 <= j < i implies !p.is_prefix_of(#[trigger] s.skip(j)) by {
        assert(!at(s, p, j));
        assert(s.skip(j).subrange(0, p.len() as int) =~= s.subrange(j, j + p.len() as int));
    }
}

/// The two halves with the separator between them are the whole, and the first of them ends at
/// the first separator.
pub proof fn halves_make_a_whole(s: Seq<char>, sep: Seq<char>)
    ensures
        halves(s, sep) matches Some(h) ==> s == h.0 + sep + h.1 && (sep.len() > 0 ==> !(has(
            h.0 + sep.drop_last(),
            sep,
        ))),
        halves(s, sep) is None ==> !(has(s, sep)),
        sep.len() == 0 ==> halves(s, sep) == Some((Seq::<char>::empty(), s)),
{
    find_from_is_first(s, sep, 0);
    match halves(s, sep) {
        Some(h) => {
            let i = find_from(s, sep, 0)->0;
            what_is_found_is_there(s, sep, i);
            let t = h.0 + sep.drop_last();
            if sep.len() == 0 {
                assert(at(s, sep, 0)) by {
                    assert(s.subrange(0, 0) =~= sep);
                }
                assert(s.take(0) =~= Seq::<char>::empty());
                assert(s.skip(0) =~= s);
            } else if has(t, sep) {
                let j = choose|j: int| at(t, sep, j);
                assert(t =~= s.take(t.len() as int));
                assert(s.subrange(j, j + sep.len() as int) =~= t.subrange(j, j + sep.len() as int));
                assert(at(s, sep, j));
            }
        },
        None => {},
    }
}

proof fn joined_grows(parts: Seq<Seq<char>>, last: Seq<char>, c: char, sep: Seq<char>)
    ensures
        joined(parts.push(last.push(c)), sep) == joined(parts.push(last), sep).push(c),
{
    let a = parts.push(last.push(c));
    let b = parts.push(last);
    assert(a.drop_last() =~= parts);
    assert(b.drop_last() =~= parts);
    assert(joined(a, sep) =~= joined(b, sep).push(c));
}

/// The parts of a text with the separator between neighbours are the text again, and no part
/// holds the separator.
pub proof fn parts_make_a_whole(s: Seq<char>, c: char)
    ensures
        split(s, c).len() >= 1,
        joined(split(s, c), seq![c]) == s,
        forall|i: int| 0 <= i < split(s, c).len() ==> !(#[trigger] split(s, c)[i]).contains(c),
    decreases s.len(),
{
    if s.len() > 0 {
        let r = s.drop_last();
        parts_make_a_whole(r, c);
        let parts = split(r, c);
        assert(s =~= r.push(s.last()));
        if s.last() == c {
            let more = parts.push(Seq::empty());
            assert(more.drop_last() =~= parts);
            assert(joined(more, seq![c]) =~= s);
        } else {
            assert(parts =~= parts.drop_last().push(parts.last()));
            joined_grows(parts.drop_last(), parts.last(), s.last(), seq![c]);
            let grown = parts.last().push(s.last());
            assert(!grown.contains(c)) by {
                if grown.contains(c) {
                    let k = choose|k: int| 0 <= k < grown.len() && grown[k] == c;
                    assert(parts.last()[k] == c);
                    assert(parts[parts.len() - 1].contains(c));
                }
            }
        }
    }
}

/// Texts without the separator, written with it between neighbours, are the parts again.
pub proof fn a_joined_text_comes_apart(parts: Seq<Seq<char>>, c: char)
    requires
        parts.len() >= 1,
        forall|i: int| 0 <= i < parts.len() ==> !(#[trigger] parts[i]).contains(c),
    ensures
        split(joined(parts, seq![c]), c) == parts,
    decreases parts.len(),
{
    if parts.len() == 1 {
        one_part(parts[0], c);
        assert(parts =~= seq![parts[0]]);
    } else {
        let r = parts.drop_last();
        assert forall|i: int| 0 <= i < r.len() implies !(#[trigger] r[i]).contains(c) by {
            assert(r[i] == parts[i]);
        }
        a_joined_text_comes_apart(r, c);
        let a = joined(r, seq![c]);
        assert(!parts[parts.len() - 1].contains(c));
        parts_behind(a, parts.last(), c);
        assert(joined(parts, seq![c]) =~= a + seq![c] + parts.last());
        assert(parts =~= r.push(parts.last()));
    }
}

proof fn one_part(s: Seq<char>, c: char)
    requires
        !s.contains(c),
    ensures
        split(s, c) == seq![s],
    decreases s.len(),
{
    if s.len() > 0 {
        let r = s.drop_last();
        assert(!r.contains(c)) by {
            if r.contains(c) {
                let k = choose|k: int| 0 <= k < r.len() && r[k] == c;
                assert(s[k] == c);
            }
        }
        one_part(r, c);
        assert(s[s.len() - 1] != c);
        assert(r.push(s.last()) =~= s);
        assert(split(s, c) =~= seq![s]);
    } else {
        assert(s =~= Seq::<char>::empty());
    }
}

/// Behind a separator stands one more part.
pub proof fn parts_behind(a: Seq<char>, b: Seq<char>, c: char)
    requires
        !b.contains(c),
    ensures
        split(a + seq![c] + b, c) == split(a, c).push(b),
    decreases b.len(),
{
    let s = a + seq![c] + b;
    if b.len() == 0 {
        assert(s =~= a.push(c));
        assert(s.drop_last() =~= a);
        assert(b =~= Seq::<char>::empty());
    } else {
        let r = b.drop_last();
        assert(!r.contains(c)) by {
            if r.contains(c) {
                let k = choose|k: int| 0 <= k < r.len() && r[k] == c;
                assert(b[k] == c);
            }
        }
        parts_behind(a, r, c);
        assert(s.drop_last() =~= a + seq![c] + r);
        assert(b[b.len() - 1] != c);
        assert(s.last() == b.last());
        assert(r.push(b.last()) =~= b);
        assert(split(s, c) =~= split(a, c).push(b));
    }
}

/// The first part is what stands before the first separator.
pub proof fn the_first_part_is_before_the_separator(a: Seq<char>, c: char, b: Seq<char>)
    requires
        !a.contains(c),
    ensures
        split(a, c) == seq![a],
        split(a + seq![c] + b, c) == seq![a] + split(b, c),
    decreases b.len(),
{
    one_part(a, c);
    let s = a + seq![c] + b;
    if b.len() == 0 {
        assert(s.drop_last() =~= a);
        assert(split(s, c) =~= seq![a] + split(b, c));
    } else {
        the_first_part_is_before_the_separator(a, c, b.drop_last());
        assert(s.drop_last() =~= a + seq![c] + b.drop_last());
        let rest = split(b.drop_last(), c);
        parts_make_a_whole(b.drop_last(), c);
        assert((seq![a] + rest).drop_last() =~= seq![a] + rest.drop_last());
        assert((seq![a] + rest).last() == rest.last());
        assert(split(s, c) =~= seq![a] + split(b, c));
    }
}

/// Texts joined with nothing between them follow one another.
pub proof fn joined_with_nothing_follows_on(parts: Seq<Seq<char>>)
    ensures
        joined(parts, Seq::empty()) == parts.flatten(),
    decreases parts.len(),
{
    let none = Seq::<char>::empty();
    if parts.len() == 1 {
        parts.lemma_flatten_one_element();
    } else if parts.len() > 1 {
        joined_with_nothing_follows_on(parts.drop_last());
        assert(parts =~= parts.drop_last().push(parts.last()));
        parts.drop_last().lemma_flatten_push(parts.last());
        assert(joined(parts, none) =~= joined(parts.drop_last(), none) + parts.last());
    }
}

proof fn dropping_from_the_start(s: Seq<char>, c: char)
    ensures
        drop_leading(s, c).len() <= s.len(),
        drop_leading(s, c) == s.skip(s.len() - drop_leading(s, c).len()),
        forall|k: int| 0 <= k < s.len() - drop_leading(s, c).len() ==> #[trigger] s[k] == c,
        drop_leading(s, c).len() > 0 ==> drop_leading(s, c)[0] != c,
    decreases s.len(),
{
    if s.len() > 0 && s[0] == c {
        let t = s.drop_first();
        dropping_from_the_start(t, c);
        let n = s.len() - drop_leading(s, c).len();
        assert(t.skip(n - 1) =~= s.skip(n));
        assert forall|k: int| 0 <= k < n implies #[trigger] s[k] == c by {
            if k > 0 {
                assert(t[k - 1] == s[k]);
            }
        }
    } else {
        assert(s.skip(0) =~= s);
    }
}

proof fn dropping_from_the_end(s: Seq<char>, c: char)
    ensures
        drop_trailing(s, c).len() <= s.len(),
        drop_trailing(s, c) == s.take(drop_trailing(s, c).len() as int),
        forall|k: int| drop_trailing(s, c).len() <= k < s.len() ==> #[trigger] s[k] == c,
        drop_trailing(s, c).len() > 0 ==> drop_trailing(s, c).last() != c,
    decreases s.len(),
{
    if s.len() > 0 && s.last() == c {
        let t = s.drop_last();
        dropping_from_the_end(t, c);
        let n = drop_trailing(s, c).len() as int;
        assert(t.take(n) =~= s.take(n));
        assert forall|k: int| n <= k < s.len() implies #[trigger] s[k] == c by {
            if k < t.len() {
                assert(t[k] == s[k]);
            }
        }
    } else {
        assert(s.take(s.len() as int) =~= s);
    }
}

/// What is left of a text has the copies of a character taken off its start, or its end, and
/// nothing else.
pub proof fn dropping_takes_copies(s: Seq<char>, c: char)
    ensures
        s == Seq::new((s.len() - drop_leading(s, c).len()) as nat, |i: int| c) + drop_leading(s, c),
        s == drop_trailing(s, c) + Seq::new((s.len() - drop_trailing(s, c).len()) as nat, |i: int| c),
        drop_leading(s, c).len() > 0 ==> drop_leading(s, c)[0] != c,
        drop_trailing(s, c).len() > 0 ==> drop_trailing(s, c).last() != c,
        drop_leading(s, c).len() <= s.len(),
        drop_trailing(s, c).len() <= s.len(),
{
    dropping_from_the_start(s, c);
    dropping_from_the_end(s, c);
    assert(s =~= Seq::new((s.len() - drop_leading(s, c).len()) as nat, |i: int| c) + drop_leading(s, c));
    assert(s =~= drop_trailing(s, c) + Seq::new((s.len() - drop_trailing(s, c).len()) as nat, |i: int| c));
}

/// Each of the texts that are joined is in the whole, whatever stands between them.
pub proof fn a_joined_part_is_held(parts: Seq<Seq<char>>, sep: Seq<char>, k: int)
    requires
        0 <= k < parts.len(),
    ensures
        has(joined(parts, sep), parts[k]),
    decreases parts.len(),
{
    let none = Seq::<char>::empty();
    if parts.len() == 1 {
        a_part_is_found(none, parts[0], none);
        assert(none + parts[0] + none =~= parts[0]);
    } else {
        let r = parts.drop_last();
        let before = joined(r, sep);
        if k == parts.len() - 1 {
            a_part_is_found(before + sep, parts.last(), none);
            assert(before + sep + parts.last() + none =~= joined(parts, sep));
        } else {
            a_joined_part_is_held(r, sep, k);
            assert(r[k] == parts[k]);
            let i = choose|i: int| at(before, parts[k], i);
            let n = parts[k].len() as int;
            assert(joined(parts, sep).subrange(i, i + n) =~= before.subrange(i, i + n));
            assert(at(joined(parts, sep), parts[k], i));
        }
    }
}

proof fn white_before_is_trimmed(before: Seq<char>, s: Seq<char>)
    requires
        forall|k: int| 0 <= k < before.len() ==> white(#[trigger] before[k]),
        s.len() > 0,
        !white(s[0]),
    ensures
        trim_start(before + s) == s,
    decreases before.len(),
{
    let t = before + s;
    if before.len() > 0 {
        assert(t[0] == before[0]);
        assert(t.drop_first() =~= before.drop_first() + s);
        white_before_is_trimmed(before.drop_first(), s);
    } else {
        assert(t =~= s);
    }
}

proof fn white_behind_is_trimmed(s: Seq<char>, after: Seq<char>)
    requires
        forall|k: int| 0 <= k < after.len() ==> white(#[trigger] after[k]),
        s.len() > 0,
        !white(s.last()),
    ensures
        trim_end(s + after) == s,
    decreases after.len(),
{
    let t = s + after;
    if after.len() > 0 {
        assert(t.last() == after.last());
        assert(t.drop_last() =~= s + after.drop_last());
        white_behind_is_trimmed(s, after.drop_last());
    } else {
        assert(t =~= s);
    }
}

/// Trimming takes the white space around a text and leaves the text.
pub proof fn white_around_is_trimmed(before: Seq<char>, s: Seq<char>, after: Seq<char>)
    requires
        forall|k: int| 0 <= k < before.len() ==> white(#[trigger] before[k]),
        forall|k: int| 0 <= k < after.len() ==> white(#[trigger] after[k]),
        s.len() > 0,
        !white(s[0]) && !white(s.last()),
    ensures
        trimmed(before + s + after) == s,
{
    assert(before + s + after =~= before + (s + after));
    assert((s + after)[0] == s[0]);
    white_before_is_trimmed(before, s + after);
    white_behind_is_trimmed(s, after);
}

} // verus!
