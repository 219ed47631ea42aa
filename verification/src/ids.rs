//! Job identifiers.

use vstd::prelude::*;
use crate::content_results::digest::{hex_char, hex_char_of, hex_worth};

verus! {

/// The last `width` hexadecimal digits of `n`.
pub open spec fn hex_fixed(n: nat, width: nat) -> Seq<char>
    decreases width,
{
    if width == 0 {
        Seq::empty()
    } else {
        hex_fixed(n / 16, (width - 1) as nat).push(hex_char((n % 16) as int))
    }
}

/// A 128-bit identifier as five groups of hexadecimal digits.
pub open spec fn hyphenated(id: u128) -> Seq<char> {
    let h = hex_fixed(id as nat, 32);
    h.subrange(0, 8) + seq!['-'] + h.subrange(8, 12) + seq!['-'] + h.subrange(12, 16) + seq!['-']
        + h.subrange(16, 20) + seq!['-'] + h.subrange(20, 32)
}

proof fn hex_fixed_len(n: nat, width: nat)
    ensures
        hex_fixed(n, width).len() == width,
    decreases width,
{
    if width > 0 {
        hex_fixed_len(n / 16, (width - 1) as nat);
    }
}

fn hex_digits(n: u128, width: usize) -> (r: Vec<char>)
    ensures
        r@ == hex_fixed(n as nat, width as nat),
    decreases width,
{
    if width == 0 {
        Vec::new()
    } else {
        let mut out: Vec<char> = hex_digits(n / 16, width - 1);
        out.push(hex_char_of((n % 16) as u8));
        out
    }
}

fn put(out: &mut String, v: &Vec<char>, from: usize, to: usize)
    requires
        from <= to <= v@.len(),
    ensures
        final(out)@ == old(out)@ + v@.subrange(from as int, to as int),
{
    let mut i: usize = from;
    assert(out@ =~= old(out)@ + v@.subrange(from as int, from as int));
    while i < to
        invariant
            from <= i <= to <= v@.len(),
            out@ == old(out)@ + v@.subrange(from as int, i as int),
        decreases to - i,
    {
        out.push(v[i]);
        assert(out@ =~= old(out)@ + v@.subrange(from as int, i + 1));
        i += 1;
    }
}

fn put_char(out: &mut String, c: char)
    ensures
        final(out)@ == old(out)@ + seq![c],
{
    out.push(c);
    assert(out@ =~= old(out)@ + seq![c]);
}

/// The usual spelling of a job identifier.
pub fn id_text(id: u128) -> (r: String)
    ensures
        r@ == hyphenated(id),
{
    let v: Vec<char> = hex_digits(id, 32);
    proof {
        hex_fixed_len(id as nat, 32);
    }
    let mut out = String::new();
    put(&mut out, &v, 0, 8);
    assert(out@ =~= v@.subrange(0, 8));
    put_char(&mut out, '-');
    put(&mut out, &v, 8, 12);
    put_char(&mut out, '-');
    put(&mut out, &v, 12, 16);
    put_char(&mut out, '-');
    put(&mut out, &v, 16, 20);
    put_char(&mut out, '-');
    put(&mut out, &v, 20, 32);
    out
}

/// How many numbers have `width` hexadecimal digits or fewer.
spec fn room(width: nat) -> nat
    decreases width,
{
    if width == 0 {
        1
    } else {
        16 * room((width - 1) as nat)
    }
}

proof fn hex_fixed_tells_apart(n: nat, m: nat, width: nat)
    requires
        n < room(width),
        m < room(width),
        hex_fixed(n, width) == hex_fixed(m, width),
    ensures
        n == m,
    decreases width,
{
    if width > 0 {
        let w = (width - 1) as nat;
        assert(hex_fixed(n, width).last() == hex_char((n % 16) as int));
        assert(hex_fixed(m, width).last() == hex_char((m % 16) as int));
        assert(hex_fixed(n, width).drop_last() =~= hex_fixed(n / 16, w));
        assert(hex_fixed(m, width).drop_last() =~= hex_fixed(m / 16, w));
        hex_fixed_tells_apart(n / 16, m / 16, w);
    }
}

/// Two identifiers are never spelled alike.
pub proof fn ids_are_told_apart(a: u128, b: u128)
    requires
        hyphenated(a) == hyphenated(b),
    ensures
        a == b,
{
    let x = hex_fixed(a as nat, 32);
    let y = hex_fixed(b as nat, 32);
    let s = hyphenated(a);
    let t = hyphenated(b);
    hex_fixed_len(a as nat, 32);
    hex_fixed_len(b as nat, 32);
    assert(s.subrange(0, 8) =~= x.subrange(0, 8) && t.subrange(0, 8) =~= y.subrange(0, 8));
    assert(s.subrange(9, 13) =~= x.subrange(8, 12) && t.subrange(9, 13) =~= y.subrange(8, 12));
    assert(s.subrange(14, 18) =~= x.subrange(12, 16) && t.subrange(14, 18) =~= y.subrange(12, 16));
    assert(s.subrange(19, 23) =~= x.subrange(16, 20) && t.subrange(19, 23) =~= y.subrange(16, 20));
    assert(s.subrange(24, 36) =~= x.subrange(20, 32) && t.subrange(24, 36) =~= y.subrange(20, 32));
    assert(x =~= x.subrange(0, 8) + x.subrange(8, 12) + x.subrange(12, 16) + x.subrange(16, 20) + x.subrange(20, 32));
    assert(y =~= y.subrange(0, 8) + y.subrange(8, 12) + y.subrange(12, 16) + y.subrange(16, 20) + y.subrange(20, 32));
    reveal_with_fuel(room, 33);
    hex_fixed_tells_apart(a as nat, b as nat, 32);
}

/// A spelled identifier is no path from the root.
pub proof fn an_id_is_no_root(id: u128)
    ensures
        hyphenated(id).len() == 36,
        !crate::paths::absolute(hyphenated(id)),
{
    hex_fixed_len(id as nat, 32);
    let h = hex_fixed(id as nat, 32);
    hex_fixed_chars(id as nat, 32, 0);
    assert(hyphenated(id)[0] == h[0]);
}

proof fn hex_fixed_chars(n: nat, width: nat, i: int)
    requires
        0 <= i < width,
    ensures
        hex_fixed(n, width)[i] != '/',
    decreases width,
{
    hex_fixed_len(n / 16, (width - 1) as nat);
    if i < width - 1 {
        hex_fixed_chars(n / 16, (width - 1) as nat, i);
    }
}

/// What hexadecimal digits are worth together.
pub open spec fn hex_value(s: Seq<char>) -> int
    decreases s.len(),
{
    if s.len() == 0 {
        0
    } else {
        hex_value(s.drop_last()) * 16 + hex_worth(s.last())
    }
}

proof fn hex_fixed_reads_back(n: nat, width: nat)
    requires
        n < room(width),
    ensures
        hex_value(hex_fixed(n, width)) == n,
    decreases width,
{
    if width > 0 {
        hex_fixed_reads_back(n / 16, (width - 1) as nat);
        let s = hex_fixed(n, width);
        assert(s.drop_last() =~= hex_fixed(n / 16, (width - 1) as nat));
    }
}

/// An id is written as thirty-two hexadecimal digits that read back as the id, in groups of
/// eight, four, four, four and twelve with a hyphen between neighbours.
pub proof fn an_id_reads_back(id: u128)
    ensures
        ({
            let s = hyphenated(id);
            &&& s.len() == 36
            &&& s[8] == '-' && s[13] == '-' && s[18] == '-' && s[23] == '-'
            &&& hex_value(
                s.subrange(0, 8) + s.subrange(9, 13) + s.subrange(14, 18) + s.subrange(19, 23) + s.subrange(24, 36),
            ) == id
        }),
{
    let h = hex_fixed(id as nat, 32);
    hex_fixed_len(id as nat, 32);
    let s = hyphenated(id);
    assert(s.subrange(0, 8) + s.subrange(9, 13) + s.subrange(14, 18) + s.subrange(19, 23) + s.subrange(24, 36)
        =~= h);
    assert(room(32) == 0x1_0000_0000_0000_0000_0000_0000_0000_0000nat) by {
        reveal_with_fuel(room, 33);
    }
    hex_fixed_reads_back(id as nat, 32);
}

} // verus!
