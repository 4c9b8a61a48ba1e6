//! The port of a host written as `host:port`.

use vstd::prelude::*;
use crate::text::chars_of;

verus! {

/// How many characters of `s` stand before its first colon; the length of `s`
/// where it has none.
pub open spec fn colon_offset(s: Seq<char>) -> int
    decreases s.len(),
{
    if s.len() == 0 || s[0] == ':' {
        0
    } else {
        1 + colon_offset(s.skip(1))
    }
}

/// The text between the first colon of `host` and its second, or its end.
/// A host without a colon has no such text.
pub open spec fn port_text(host: Seq<char>) -> Option<Seq<char>> {
    let first = colon_offset(host);
    if first >= host.len() {
        None
    } else {
        let rest = host.skip(first + 1);
        Some(rest.take(colon_offset(rest)))
    }
}

/// Whether `c` is one of the ten ASCII digits.
pub open spec fn is_digit(c: char) -> bool {
    '0' <= c <= '9'
}

/// The number that a digit stands for.
pub open spec fn digit_value(c: char) -> nat {
    (c as int - '0' as int) as nat
}

/// Whether `s` holds digits and nothing else.
pub open spec fn all_digits(s: Seq<char>) -> bool {
    forall|i: int| 0 <= i < s.len() ==> is_digit(#[trigger] s[i])
}

/// The number that a run of decimal digits writes.
pub open spec fn decimal_value(s: Seq<char>) -> nat
    decreases s.len(),
{
    if s.len() == 0 {
        0
    } else {
        decimal_value(s.drop_last()) * 10 + digit_value(s.last())
    }
}

/// `s` without one leading plus sign.
pub open spec fn unsigned_digits(s: Seq<char>) -> Seq<char> {
    if s.len() > 0 && s[0] == '+' {
        s.skip(1)
    } else {
        s
    }
}

/// The number that `s` writes: an optional plus sign, and after it one or
/// more decimal digits and nothing else, with a value that fits 64 bits.
pub open spec fn port_number(s: Seq<char>) -> Option<u64> {
    let digits = unsigned_digits(s);
    if digits.len() > 0 && all_digits(digits) && decimal_value(digits) <= u64::MAX {
        Some(decimal_value(digits) as u64)
    } else {
        None
    }
}

/// The port that a host names.
pub open spec fn host_port_of(host: Seq<char>) -> Option<u64> {
    match port_text(host) {
        Some(text) => port_number(text),
        None => None,
    }
}

/// A prefix of a digit run writes no more than the whole run.
proof fn lemma_decimal_value_grows(s: Seq<char>, k: int)
    requires
        0 <= k <= s.len(),
    ensures
        decimal_value(s.take(k)) <= decimal_value(s),
    decreases s.len(),
{
    if k == s.len() {
        assert(s.take(k) =~= s);
    } else {
        assert(s.drop_last().take(k) =~= s.take(k));
        lemma_decimal_value_grows(s.drop_last(), k);
    }
}

/// The position of the first colon at or after `from`; the length where there
/// is none.
fn colon_from(chars: &Vec<char>, from: usize) -> (at: usize)
    requires
        from <= chars.len(),
    ensures
        from <= at <= chars.len(),
        at == from + colon_offset(chars@.skip(from as int)),
{
    let n: usize = chars.len();
    let mut at: usize = from;
    while at < n && chars[at] != ':'
        invariant
            n == chars.len(),
            from <= at <= n,
            from + colon_offset(chars@.skip(from as int)) == at + colon_offset(
                chars@.skip(at as int),
            ),
        decreases n - at,
    {
        assert(chars@.skip(at as int).skip(1) =~= chars@.skip(at + 1));
        at = at + 1;
    }
    at
}

/// Reads the characters from `start` to `end` as a number.
fn read_number(chars: &Vec<char>, start: usize, end: usize) -> (number: Option<u64>)
    requires
        start <= end <= chars.len(),
    ensures
        number == port_number(chars@.subrange(start as int, end as int)),
{
    let ghost text = chars@.subrange(start as int, end as int);
    let first: usize = if start < end && chars[start] == '+' {
        start + 1
    } else {
        start
    };
    let ghost digits = chars@.subrange(first as int, end as int);
    assert(digits =~= unsigned_digits(text));
    if first == end {
        return None;
    }
    let mut value: u64 = 0;
    let mut at: usize = first;
    assert(digits.take(0) =~= Seq::<char>::empty());
    while at < end
        invariant
            start <= first <= at <= end <= chars.len(),
            digits == chars@.subrange(first as int, end as int),
            digits == unsigned_digits(chars@.subrange(start as int, end as int)),
            all_digits(digits.take(at - first)),
            value == decimal_value(digits.take(at - first)),
        decreases end - at,
    {
        let c: char = chars[at];
        assert(c == digits[at - first]);
        if !(c >= '0' && c <= '9') {
            assert(!is_digit(digits[at - first]));
            return None;
        }
        let digit: u64 = (c as u32 - '0' as u32) as u64;
        let ghost next = digits.take(at - first + 1);
        assert(next.drop_last() =~= digits.take(at - first));
        assert(next.last() == c);
        assert(decimal_value(next) == value * 10 + digit);
        assert(all_digits(next)) by {
            assert forall|i: int| 0 <= i < next.len() implies is_digit(#[trigger] next[i]) by {
                if i < at - first {
                    assert(next[i] == digits.take(at - first)[i]);
                }
            }
        }
        let grown: Option<u64> = match value.checked_mul(10) {
            Some(tens) => tens.checked_add(digit),
            None => None,
        };
        match grown {
            Some(v) => {
                value = v;
            },
            None => {
                proof {
                    lemma_decimal_value_grows(digits, at - first + 1);
                }
                return None;
            },
        }
        at = at + 1;
    }
    assert(digits.take(end - first) =~= digits);
    Some(value)
}

/// The port of a host written as `host:port`.
///
/// The port is what stands between the first colon and the second, or the
/// end. It is reported where it is a number, and left out without an error
/// where there is no colon or the text is no number.
pub fn host_port(host: &str) -> (port: Option<u64>)
    ensures
        port == host_port_of(host@),
{
    let chars = chars_of(host);
    assert(chars@.skip(0) =~= chars@);
    let first: usize = colon_from(&chars, 0);
    if first >= chars.len() {
        return None;
    }
    let start: usize = first + 1;
    let end: usize = colon_from(&chars, start);
    assert(chars@.skip(start as int).take(end - start) =~= chars@.subrange(
        start as int,
        end as int,
    ));
    read_number(&chars, start, end)
}

} // verus!
