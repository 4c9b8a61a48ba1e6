//! The protocol version of a request, as a span reports it.
//!
//! A server renders the version with its family in front, as in `HTTP/1.1`.
//! The span attribute holds the bare number, `1.1`.

use vstd::prelude::*;
use vstd::string::StrSliceExecFns;
use vstd::string::StringExecFns;
use crate::text::chars_of;

verus! {

/// The family prefix of a rendered protocol version.
pub open spec fn family_prefix() -> Seq<char> {
    seq!['H', 'T', 'T', 'P', '/']
}

/// Whether the family prefix stands in `s` at position `at`.
pub open spec fn family_at(s: Seq<char>, at: int) -> bool {
    0 <= at && at + 5 <= s.len() && s.subrange(at, at + 5) =~= family_prefix()
}

/// `s` without the family prefix: read from the left, every occurrence of the
/// prefix is dropped and every other character is kept.
pub open spec fn without_family(s: Seq<char>) -> Seq<char>
    decreases s.len(),
{
    if s.len() == 0 {
        s
    } else if family_at(s, 0) {
        without_family(s.skip(5))
    } else {
        seq![s[0]] + without_family(s.skip(1))
    }
}

fn family_starts(chars: &Vec<char>, at: usize) -> (found: bool)
    requires
        at <= chars.len(),
    ensures
        found == family_at(chars@, at as int),
{
    if chars.len() - at < 5 {
        return false;
    }
    let ghost here = chars@.subrange(at as int, at + 5);
    assert(here[0] == chars@[at as int] && here[1] == chars@[at + 1] && here[2] == chars@[at + 2]
        && here[3] == chars@[at + 3] && here[4] == chars@[at + 4]);
    chars[at] == 'H' && chars[at + 1] == 'T' && chars[at + 2] == 'T' && chars[at + 3] == 'P'
        && chars[at + 4] == '/'
}

/// Unfolds `without_family` once at position `at` of `s`.
proof fn lemma_without_family_step(s: Seq<char>, at: int)
    requires
        0 <= at < s.len(),
    ensures
        family_at(s, at) ==> without_family(s.skip(at)) == without_family(s.skip(at + 5)),
        !family_at(s, at) ==> without_family(s.skip(at)) == seq![s[at]] + without_family(
            s.skip(at + 1),
        ),
{
    let rest = s.skip(at);
    if at + 5 <= s.len() {
        assert(rest.subrange(0, 5) =~= s.subrange(at, at + 5));
    }
    assert(family_at(rest, 0) == family_at(s, at));
    if family_at(s, at) {
        assert(rest.skip(5) =~= s.skip(at + 5));
    } else {
        assert(rest.skip(1) =~= s.skip(at + 1));
    }
}

/// The flavor of a protocol version: the rendered version without its family
/// prefix, `1.1` for `HTTP/1.1`.
pub fn protocol_flavor(version: &str) -> (flavor: String)
    ensures
        flavor@ == without_family(version@),
{
    let chars = chars_of(version);
    let n: usize = chars.len();
    let mut flavor = String::new();
    let mut kept: usize = 0;
    let mut at: usize = 0;
    assert(version@.skip(0) =~= version@);
    while at < n
        invariant
            chars@ == version@,
            n == chars.len(),
            kept <= at <= n,
            without_family(version@) == flavor@ + version@.subrange(kept as int, at as int)
                + without_family(version@.skip(at as int)),
        decreases n - at,
    {
        proof {
            lemma_without_family_step(version@, at as int);
        }
        if family_starts(&chars, at) {
            flavor.append(version.substring_char(kept, at));
            at = at + 5;
            kept = at;
            assert(version@.subrange(kept as int, at as int) =~= Seq::<char>::empty());
        } else {
            assert(version@.subrange(kept as int, at as int) + seq![version@[at as int]]
                =~= version@.subrange(kept as int, at + 1));
            at = at + 1;
        }
    }
    assert(version@.skip(n as int) =~= Seq::<char>::empty());
    flavor.append(version.substring_char(kept, n));
    flavor
}

} // verus!
