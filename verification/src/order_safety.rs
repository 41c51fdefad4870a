use vstd::prelude::*;

use crate::order::{lexical_char, lexical_char_text};

verus! {

/// An ASCII decimal digit.
pub open spec fn is_ascii_digit(c: char) -> bool {
    '0' <= c && c <= '9'
}

/// The number of ASCII digits in `t`.
pub open spec fn ascii_digit_count(t: Seq<char>) -> nat
    decreases t.len(),
{
    if t.len() == 0 {
        0
    } else {
        ascii_digit_count(t.drop_last()) + if is_ascii_digit(t.last()) { 1nat } else { 0nat }
    }
}

/// Scanning `s` with `acc` digits already in the current run of what natural
/// ordering reads (each character as `lexical_char_text` gives it), no run
/// ever reaches twenty digits. Counted generously: a character whose text
/// holds a digit adds all its digits to the run, one whose text is empty
/// leaves the run as it is, and only one whose text holds no digit ends it.
pub open spec fn digit_runs_below_twenty(s: Seq<char>, acc: nat) -> bool
    decreases s.len(),
{
    if s.len() == 0 {
        acc < 20
    } else {
        let t = lexical_char_text(s[0]);
        let d = ascii_digit_count(t);
        if d > 0 || t.len() == 0 {
            acc + d < 20 && digit_runs_below_twenty(s.drop_first(), acc + d)
        } else {
            digit_runs_below_twenty(s.drop_first(), 0)
        }
    }
}

/// Names on which natural ordering is defined: every run of digits it reads
/// fits in 64 bits (at most nineteen digits).
pub open spec fn natural_order_safe(s: Seq<char>) -> bool {
    digit_runs_below_twenty(s, 0)
}

/// The number of ASCII digits in `t`.
fn count_ascii_digits(t: &str) -> (d: usize)
    ensures
        d == ascii_digit_count(t@),
        d <= t@.len(),
{
    let v = crate::strings::chars_of(t);
    let mut d: usize = 0;
    let mut k: usize = 0;
    while k < v.len()
        invariant
            v@ == t@,
            k <= v.len(),
            d <= k,
            d == ascii_digit_count(v@.take(k as int)),
        decreases v.len() - k,
    {
        assert(v@.take(k + 1).drop_last() =~= v@.take(k as int));
        assert(v@.take(k + 1).last() == v@[k as int]);
        if '0' <= v[k] && v[k] <= '9' {
            d = d + 1;
        }
        k = k + 1;
    }
    assert(v@.take(v.len() as int) =~= v@);
    d
}

/// Tells whether `s` is a name that natural ordering accepts.
pub fn is_natural_order_safe(s: &str) -> (ok: bool)
    ensures
        ok == natural_order_safe(s@),
{
    let v = crate::strings::chars_of(s);
    let mut acc: usize = 0;
    let mut i: usize = 0;
    assert(v@.skip(0) =~= v@);
    while i < v.len()
        invariant
            v@ == s@,
            i <= v.len(),
            acc < 20,
            natural_order_safe(s@) == digit_runs_below_twenty(v@.skip(i as int), acc as nat),
        decreases v.len() - i,
    {
        proof {
            assert(v@.skip(i as int)[0] == v@[i as int]);
            assert(v@.skip(i as int).drop_first() =~= v@.skip(i + 1));
        }
        let t = lexical_char(v[i]);
        let d = count_ascii_digits(t.as_str());
        if d > 0 || t.unicode_len() == 0 {
            if d >= 20 - acc {
                return false;
            }
            acc = acc + d;
        } else {
            acc = 0;
        }
        i = i + 1;
    }
    true
}

} // verus!

verus! {

/// A white space character (Unicode `White_Space`, as `char::is_whitespace`).
pub open spec fn is_white_space(c: char) -> bool {
    let u = c as u32;
    (0x9 <= u && u <= 0xd) || u == 0x20 || u == 0x85 || u == 0xa0 || u == 0x1680 || (0x2000 <= u
        && u <= 0x200a) || u == 0x2028 || u == 0x2029 || u == 0x202f || u == 0x205f || u == 0x3000
}

/// Whether `c` is white space.
pub fn char_is_white_space(c: char) -> (r: bool)
    ensures
        r == is_white_space(c),
{
    let u = c as u32;
    (0x9 <= u && u <= 0xd) || u == 0x20 || u == 0x85 || u == 0xa0 || u == 0x1680 || (0x2000 <= u
        && u <= 0x200a) || u == 0x2028 || u == 0x2029 || u == 0x202f || u == 0x205f || u == 0x3000
}

} // verus!
