//! The headers of a request, as a context extractor reads them.
//!
//! A carrier answers two questions: what is the value of the header with a
//! given name, and which names are there. It never fails. A header that is
//! missing, or whose value is no text, is not found.

use vstd::prelude::*;
use crate::text::chars_of;

verus! {

/// Whether a byte of a header value is text: a visible ASCII character, a
/// space or a tab.
pub open spec fn is_visible(b: u8) -> bool {
    32 <= b < 127 || b == 9
}

/// Whether every byte of a header value is text.
pub open spec fn all_visible(bytes: Seq<u8>) -> bool {
    forall|i: int| 0 <= i < bytes.len() ==> is_visible(#[trigger] bytes[i])
}

/// The characters that ASCII bytes stand for.
pub open spec fn as_text(bytes: Seq<u8>) -> Seq<char> {
    Seq::new(bytes.len(), |i: int| bytes[i] as char)
}

/// The text of a header value; none where a byte of it is no text.
pub open spec fn text_of(bytes: Seq<u8>) -> Option<Seq<char>> {
    if all_visible(bytes) {
        Some(as_text(bytes))
    } else {
        None
    }
}

/// A character with the ASCII capitals folded onto the small letters.
pub open spec fn folded(c: char) -> u32 {
    if 'A' <= c <= 'Z' {
        (c as u32 + 32) as u32
    } else {
        c as u32
    }
}

/// Whether two header names are the same name. The case of ASCII letters
/// makes no difference.
pub open spec fn same_name(a: Seq<char>, b: Seq<char>) -> bool {
    &&& a.len() == b.len()
    &&& forall|i: int| 0 <= i < a.len() ==> folded(#[trigger] a[i]) == folded(b[i])
}

/// One header of a request: its name, and its value where that is text.
#[derive(Debug)]
struct HeaderField {
    name: String,
    text: Option<String>,
}

/// What a header field holds.
pub ghost struct HeaderFieldView {
    pub name: Seq<char>,
    pub text: Option<Seq<char>>,
}

impl View for HeaderField {
    type V = HeaderFieldView;

    closed spec fn view(&self) -> HeaderFieldView {
        HeaderFieldView {
            name: self.name@,
            text: match self.text {
                Some(t) => Some(t@),
                None => None,
            },
        }
    }
}

/// The fields that a list of raw headers gives: each name as it is, each
/// value as text.
pub open spec fn fields_of(headers: Seq<(String, Vec<u8>)>) -> Seq<HeaderFieldView> {
    Seq::new(
        headers.len(),
        |i: int| HeaderFieldView { name: headers[i].0@, text: text_of(headers[i].1@) },
    )
}

/// The position of the first field with the name `key`.
pub open spec fn first_match(fields: Seq<HeaderFieldView>, key: Seq<char>) -> Option<int>
    decreases fields.len(),
{
    if fields.len() == 0 {
        None
    } else if same_name(fields[0].name, key) {
        Some(0)
    } else {
        match first_match(fields.skip(1), key) {
            Some(i) => Some(i + 1),
            None => None,
        }
    }
}

/// The value that a lookup of `key` finds: the text of the first field with
/// that name.
pub open spec fn found_text(fields: Seq<HeaderFieldView>, key: Seq<char>) -> Option<Seq<char>> {
    match first_match(fields, key) {
        Some(i) => fields[i].text,
        None => None,
    }
}

/// The names among the first `n` fields, each one once, in the order in which
/// they first occur.
pub open spec fn names_among(fields: Seq<HeaderFieldView>, n: int) -> Seq<Seq<char>>
    decreases n,
{
    if n <= 0 {
        Seq::empty()
    } else if first_match(fields, fields[n - 1].name) == Some(n - 1) {
        names_among(fields, n - 1).push(fields[n - 1].name)
    } else {
        names_among(fields, n - 1)
    }
}

/// The names of the fields, each one once.
pub open spec fn key_names(fields: Seq<HeaderFieldView>) -> Seq<Seq<char>> {
    names_among(fields, fields.len() as int)
}

/// The texts that a list of strings holds.
pub open spec fn texts(names: Seq<&str>) -> Seq<Seq<char>> {
    Seq::new(names.len(), |i: int| names[i]@)
}

/// The first match is a match, and no field before it is one.
pub proof fn lemma_first_match(fields: Seq<HeaderFieldView>, key: Seq<char>)
    ensures
        match first_match(fields, key) {
            Some(i) => {
                &&& 0 <= i < fields.len()
                &&& same_name(fields[i].name, key)
                &&& forall|j: int| 0 <= j < i ==> !same_name(#[trigger] fields[j].name, key)
            },
            None => forall|j: int|
                0 <= j < fields.len() ==> !same_name(#[trigger] fields[j].name, key),
        },
    decreases fields.len(),
{
    if fields.len() > 0 && !same_name(fields[0].name, key) {
        let rest = fields.skip(1);
        lemma_first_match(rest, key);
        match first_match(rest, key) {
            Some(i) => {
                assert forall|j: int| 0 <= j < i + 1 implies !same_name(
                    #[trigger] fields[j].name,
                    key,
                ) by {
                    if j > 0 {
                        assert(fields[j] == rest[j - 1]);
                    }
                }
            },
            None => {
                assert forall|j: int| 0 <= j < fields.len() implies !same_name(
                    #[trigger] fields[j].name,
                    key,
                ) by {
                    if j > 0 {
                        assert(fields[j] == rest[j - 1]);
                    }
                }
            },
        }
    }
}

/// Being the same name is an equivalence: every name is the same as itself,
/// and names that are the same as a third are the same as each other.
pub proof fn lemma_same_name_equivalence(a: Seq<char>, b: Seq<char>, c: Seq<char>)
    ensures
        same_name(a, a),
        same_name(a, b) ==> same_name(b, a),
        same_name(a, b) && same_name(b, c) ==> same_name(a, c),
{
    if same_name(a, b) {
        assert forall|i: int| 0 <= i < b.len() implies folded(#[trigger] b[i]) == folded(a[i]) by {
            assert(folded(a[i]) == folded(b[i]));
        }
        if same_name(b, c) {
            assert forall|i: int| 0 <= i < a.len() implies folded(#[trigger] a[i]) == folded(
                c[i],
            ) by {
                assert(folded(a[i]) == folded(b[i]));
                assert(folded(b[i]) == folded(c[i]));
            }
        }
    }
}

/// A lookup does not depend on the case in which the name is written: two
/// keys that are the same name find the same field.
pub proof fn lemma_lookup_ignores_case(
    fields: Seq<HeaderFieldView>,
    key: Seq<char>,
    other: Seq<char>,
)
    requires
        same_name(key, other),
    ensures
        first_match(fields, key) == first_match(fields, other),
        found_text(fields, key) == found_text(fields, other),
    decreases fields.len(),
{
    if fields.len() > 0 {
        lemma_same_name_equivalence(fields[0].name, key, other);
        lemma_same_name_equivalence(key, other, key);
        lemma_same_name_equivalence(fields[0].name, other, key);
        lemma_lookup_ignores_case(fields.skip(1), key, other);
    }
}

/// Whether the field at `at` is the first of its name.
pub open spec fn is_first_of_name(fields: Seq<HeaderFieldView>, at: int) -> bool {
    0 <= at < fields.len() && first_match(fields, fields[at].name) == Some(at)
}

/// Whether one of `keys` is the same name as `name`.
pub open spec fn has_name(keys: Seq<Seq<char>>, name: Seq<char>) -> bool {
    exists|k: int| 0 <= k < keys.len() && same_name(#[trigger] keys[k], name)
}

/// Whether the key at `k` is the name of a field before `n` that is the first
/// of its name.
spec fn key_comes_from(fields: Seq<HeaderFieldView>, n: int, k: int) -> bool {
    exists|i: int|
        0 <= i < n && #[trigger] is_first_of_name(fields, i) && names_among(fields, n)[k]
            == fields[i].name
}

/// Whether the name of the field at `at` stands among the names of the first
/// `n` fields.
spec fn field_is_key(fields: Seq<HeaderFieldView>, n: int, at: int) -> bool {
    exists|k: int|
        0 <= k < names_among(fields, n).len() && #[trigger] names_among(fields, n)[k]
            == fields[at].name
}

/// The names among the first `n` fields are the names of the fields that
/// are the first of their name, and no two of them are the same name.
proof fn lemma_names_among(fields: Seq<HeaderFieldView>, n: int)
    requires
        0 <= n <= fields.len(),
    ensures
        forall|k: int| 0 <= k < names_among(fields, n).len() ==> key_comes_from(fields, n, k),
        forall|i: int| 0 <= i < n && is_first_of_name(fields, i) ==> field_is_key(fields, n, i),
        forall|k: int, l: int|
            0 <= k < l < names_among(fields, n).len() ==> !same_name(
                #[trigger] names_among(fields, n)[k],
                #[trigger] names_among(fields, n)[l],
            ),
    decreases n,
{
    if n > 0 {
        lemma_names_among(fields, n - 1);
        let before = names_among(fields, n - 1);
        let now = names_among(fields, n);
        let last = fields[n - 1].name;
        assert forall|k: int| 0 <= k < now.len() implies key_comes_from(fields, n, k) by {
            if k < before.len() {
                assert(key_comes_from(fields, n - 1, k));
                let i = choose|i: int|
                    0 <= i < n - 1 && #[trigger] is_first_of_name(fields, i) && before[k]
                        == fields[i].name;
                assert(is_first_of_name(fields, i) && now[k] == fields[i].name);
            } else {
                assert(is_first_of_name(fields, n - 1) && now[k] == last);
            }
        }
        assert forall|i: int| 0 <= i < n && is_first_of_name(fields, i) implies field_is_key(
            fields,
            n,
            i,
        ) by {
            if i < n - 1 {
                assert(field_is_key(fields, n - 1, i));
                let k = choose|k: int|
                    0 <= k < before.len() && #[trigger] before[k] == fields[i].name;
                assert(now[k] == fields[i].name);
            } else {
                assert(now[now.len() - 1] == fields[i].name);
            }
        }
        assert forall|k: int, l: int| 0 <= k < l < now.len() implies !same_name(
            #[trigger] now[k],
            #[trigger] now[l],
        ) by {
            if l < before.len() {
                assert(now[k] == before[k] && now[l] == before[l]);
            } else {
                assert(now[l] == last);
                assert(key_comes_from(fields, n - 1, k));
                let i = choose|i: int|
                    0 <= i < n - 1 && #[trigger] is_first_of_name(fields, i) && before[k]
                        == fields[i].name;
                lemma_first_match(fields, last);
                assert(!same_name(fields[i].name, last));
            }
        }
    }
}

/// What the keys of a carrier are.
///
/// A lookup of a key finds a header. No two keys are the same name. And the
/// name of every header is, but for the case it is written in, one of the
/// keys.
pub proof fn lemma_key_names(fields: Seq<HeaderFieldView>)
    ensures
        forall|k: int|
            0 <= k < key_names(fields).len() ==> first_match(
                fields,
                #[trigger] key_names(fields)[k],
            ) is Some,
        forall|k: int, l: int|
            0 <= k < l < key_names(fields).len() ==> !same_name(
                #[trigger] key_names(fields)[k],
                #[trigger] key_names(fields)[l],
            ),
        forall|i: int|
            0 <= i < fields.len() ==> has_name(key_names(fields), (#[trigger] fields[i]).name),
{
    let n = fields.len() as int;
    let keys = key_names(fields);
    lemma_names_among(fields, n);
    assert forall|k: int| 0 <= k < keys.len() implies first_match(fields, #[trigger] keys[k])
        is Some by {
        assert(key_comes_from(fields, n, k));
    }
    assert forall|i: int| 0 <= i < fields.len() implies has_name(
        keys,
        (#[trigger] fields[i]).name,
    ) by {
        let name = fields[i].name;
        lemma_same_name_equivalence(name, name, name);
        lemma_first_match(fields, name);
        let j = first_match(fields, name)->0;
        lemma_lookup_ignores_case(fields, fields[j].name, name);
        assert(is_first_of_name(fields, j));
        assert(field_is_key(fields, n, j));
        let k = choose|k: int| 0 <= k < keys.len() && #[trigger] keys[k] == fields[j].name;
        assert(same_name(keys[k], name));
    }
}

/// The text of a header value.
///
/// Trusted: `HeaderValue::from_bytes` and `HeaderValue::to_str` of the http
/// crate. The first takes every byte from 32 up but 127, and the tab; the
/// second gives the bytes back as a string where each of them is below 127 as
/// well. So a value has a text exactly where every byte is visible ASCII, a
/// space or a tab, and the text is those bytes read as ASCII.
#[verifier::external_body]
fn visible_text(value: &[u8]) -> (text: Option<String>)
    ensures
        text is Some <==> all_visible(value@),
        text matches Some(t) ==> t@ == as_text(value@),
{
    match actix_web::http::header::HeaderValue::from_bytes(value) {
        Ok(v) => match v.to_str() {
            Ok(s) => Some(s.to_owned()),
            Err(_) => None,
        },
        Err(_) => None,
    }
}

fn fold(c: char) -> (code: u32)
    ensures
        code == folded(c),
{
    if c >= 'A' && c <= 'Z' {
        c as u32 + 32
    } else {
        c as u32
    }
}

fn names_match(a: &Vec<char>, b: &Vec<char>) -> (same: bool)
    ensures
        same == same_name(a@, b@),
{
    if a.len() != b.len() {
        return false;
    }
    let n: usize = a.len();
    let mut at: usize = 0;
    while at < n
        invariant
            n == a.len(),
            n == b.len(),
            at <= n,
            forall|i: int| 0 <= i < at ==> folded(#[trigger] a@[i]) == folded(b@[i]),
        decreases n - at,
    {
        if fold(a[at]) != fold(b[at]) {
            return false;
        }
        at = at + 1;
    }
    true
}

/// The headers of one request.
#[derive(Debug)]
pub struct RequestHeaderCarrier {
    fields: Vec<HeaderField>,
}

impl View for RequestHeaderCarrier {
    type V = Seq<HeaderFieldView>;

    closed spec fn view(&self) -> Seq<HeaderFieldView> {
        Seq::new(self.fields@.len(), |i: int| self.fields@[i]@)
    }
}

impl RequestHeaderCarrier {
    /// A carrier for a list of raw headers, each a name and the bytes of its
    /// value. A header with several values stands in the list once for each.
    pub fn new(headers: &[(String, Vec<u8>)]) -> (carrier: RequestHeaderCarrier)
        ensures
            carrier@ == fields_of(headers@),
    {
        let n: usize = headers.len();
        let mut fields: Vec<HeaderField> = Vec::new();
        let mut at: usize = 0;
        while at < n
            invariant
                n == headers.len(),
                at <= n,
                fields.len() == at,
                forall|i: int| 0 <= i < at ==> (#[trigger] fields@[i])@ == fields_of(headers@)[i],
            decreases n - at,
        {
            let text = visible_text(headers[at].1.as_slice());
            fields.push(HeaderField { name: headers[at].0.clone(), text });
            at = at + 1;
        }
        let carrier = RequestHeaderCarrier { fields };
        assert(carrier@ =~= fields_of(headers@));
        carrier
    }

    /// The position of the first field with the name `key`.
    fn position(&self, key: &Vec<char>) -> (found: Option<usize>)
        ensures
            match found {
                Some(i) => first_match(self@, key@) == Some(i as int) && i < self.fields.len(),
                None => first_match(self@, key@) is None,
            },
    {
        let n: usize = self.fields.len();
        let mut at: usize = 0;
        assert(self@.skip(0) =~= self@);
        while at < n
            invariant
                n == self.fields.len(),
                n == self@.len(),
                at <= n,
                first_match(self@, key@) == match first_match(self@.skip(at as int), key@) {
                    Some(i) => Some(i + at),
                    None => None,
                },
            decreases n - at,
        {
            let name = chars_of(self.fields[at].name.as_str());
            assert(self@.skip(at as int)[0] == self.fields@[at as int]@);
            assert(self@.skip(at as int).skip(1) =~= self@.skip(at + 1));
            if names_match(&name, key) {
                return Some(at);
            }
            at = at + 1;
        }
        None
    }

    /// The value of the header `key`.
    ///
    /// Where several fields have that name, the first one counts. The result
    /// is none where no field has the name, and where the first that has it
    /// holds no text.
    pub fn get(&self, key: &str) -> (value: Option<&str>)
        ensures
            match value {
                Some(t) => found_text(self@, key@) == Some(t@),
                None => found_text(self@, key@) is None,
            },
    {
        let key_chars = chars_of(key);
        match self.position(&key_chars) {
            Some(i) => match &self.fields[i].text {
                Some(t) => Some(t.as_str()),
                None => None,
            },
            None => None,
        }
    }

    /// The names of the headers, each one once, in the order in which they
    /// first occur.
    pub fn keys(&self) -> (names: Vec<&str>)
        ensures
            texts(names@) == key_names(self@),
    {
        let n: usize = self.fields.len();
        let mut names: Vec<&str> = Vec::new();
        let mut at: usize = 0;
        while at < n
            invariant
                n == self.fields.len(),
                n == self@.len(),
                at <= n,
                texts(names@) == names_among(self@, at as int),
            decreases n - at,
        {
            let name = self.fields[at].name.as_str();
            let name_chars = chars_of(name);
            let first = self.position(&name_chars);
            assert(self@[at as int].name == name@);
            if first == Some(at) {
                names.push(name);
                assert(texts(names@) =~= names_among(self@, at as int).push(name@));
            }
            at = at + 1;
        }
        names
    }
}

} // verus!
