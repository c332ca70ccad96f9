//! Header values arrive as bytes; only visible ASCII (and tab) is text.
use vstd::prelude::*;
use vstd::string::*;

use crate::headers::{lookup, name_matches, names_match, user_agent_of, Header, HeaderSet};

verus! {

/// A header as the transport parsed it, its value not yet known to be text.
pub struct RawHeader {
    pub name: String,
    pub value: Vec<u8>,
}

/// A byte that a header value may hold as text: visible ASCII or tab.
pub open spec fn visible_ascii(b: u8) -> bool {
    (32 <= b && b < 127) || b == 9
}

/// Every byte of the value is text.
pub open spec fn is_text(v: Seq<u8>) -> bool {
    forall|i: int| 0 <= i < v.len() ==> visible_ascii(#[trigger] v[i])
}

/// The characters of an ASCII value, one per byte.
pub open spec fn text_of(v: Seq<u8>) -> Seq<char> {
    v.map_values(|b: u8| b as char)
}

/// Every header value of the request is text.
pub open spec fn all_text(raw: Seq<RawHeader>) -> bool {
    forall|i: int| 0 <= i < raw.len() ==> is_text(#[trigger] raw[i].value@)
}

/// The headers with their values read as text.
pub open spec fn decoded(raw: Seq<RawHeader>) -> Seq<(Seq<char>, Seq<char>)> {
    raw.map_values(|h: RawHeader| (h.name@, text_of(h.value@)))
}

/// The raw value of the first header whose name matches `name`, ignoring
/// ASCII case, if any.
pub open spec fn raw_lookup(raw: Seq<RawHeader>, name: Seq<char>) -> Option<Seq<u8>>
    decreases raw.len(),
{
    if raw.len() == 0 {
        None
    } else if names_match(raw[0].name@, name) {
        Some(raw[0].value@)
    } else {
        raw_lookup(raw.drop_first(), name)
    }
}

/// The `User-Agent` value, if the request has one, is text.
pub open spec fn user_agent_is_text(raw: Seq<RawHeader>) -> bool {
    match raw_lookup(raw, "User-Agent"@) {
        Some(v) => is_text(v),
        None => true,
    }
}

/// The user agent read from the raw headers: the first `User-Agent` value as
/// text, else `Unknown`.
pub open spec fn raw_user_agent(raw: Seq<RawHeader>) -> Seq<char> {
    match raw_lookup(raw, "User-Agent"@) {
        Some(v) => text_of(v),
        None => "Unknown"@,
    }
}

/// Looking a name up among the raw headers and reading the value as text
/// finds what looking it up among the decoded headers finds.
pub proof fn lemma_raw_lookup_decoded(raw: Seq<RawHeader>, name: Seq<char>)
    ensures
        lookup(decoded(raw), name) == match raw_lookup(raw, name) {
            Some(v) => Some(text_of(v)),
            None => None,
        },
    decreases raw.len(),
{
    if raw.len() > 0 {
        assert(decoded(raw).drop_first() =~= decoded(raw.drop_first()));
        lemma_raw_lookup_decoded(raw.drop_first(), name);
    }
}

/// The user agent read from the raw headers is the user agent of the
/// decoded headers.
pub proof fn lemma_raw_user_agent_decoded(raw: Seq<RawHeader>)
    ensures
        raw_user_agent(raw) == user_agent_of(decoded(raw)),
{
    lemma_raw_lookup_decoded(raw, "User-Agent"@);
}

/// Relies on `String::push`: the character goes on the end.
pub assume_specification[ String::push ](s: &mut String, ch: char)
    ensures
        final(s)@ == old(s)@.push(ch),
;

/// The value as text, or `None` when it holds a byte that is not visible
/// ASCII or tab.
pub fn value_text(v: &Vec<u8>) -> (r: Option<String>)
    ensures
        r is Some <==> is_text(v@),
        r matches Some(s) ==> s@ == text_of(v@),
{
    let n = v.len();
    let mut out = String::new();
    let mut i: usize = 0;
    while i < n
        invariant
            n == v@.len(),
            i <= n,
            forall|j: int| 0 <= j < i ==> visible_ascii(#[trigger] v@[j]),
            out@ =~= text_of(v@.take(i as int)),
        decreases n - i,
    {
        let b = v[i];
        if !((32 <= b && b < 127) || b == 9) {
            return None;
        }
        out.push(b as char);
        assert(text_of(v@.take(i + 1)) =~= text_of(v@.take(i as int)).push(b as char));
        i = i + 1;
    }
    assert(v@.take(n as int) =~= v@);
    Some(out)
}

/// The headers with their values as text, or `None` when any value is not
/// text.
pub fn decode_headers(raw: &Vec<RawHeader>) -> (r: Option<HeaderSet>)
    ensures
        r is Some <==> all_text(raw@),
        r matches Some(hs) ==> hs@ == decoded(raw@),
{
    let n = raw.len();
    let mut entries: Vec<Header> = Vec::new();
    let mut i: usize = 0;
    while i < n
        invariant
            n == raw@.len(),
            i <= n,
            forall|j: int| 0 <= j < i ==> is_text(#[trigger] raw@[j].value@),
            entries@.map_values(|h: Header| h@) =~= decoded(raw@.take(i as int)),
        decreases n - i,
    {
        let h = &raw[i];
        match value_text(&h.value) {
            Some(text) => {
                entries.push(Header { name: h.name.clone(), value: text });
                assert(decoded(raw@.take(i + 1)) =~= decoded(raw@.take(i as int)).push(
                    (h.name@, text_of(h.value@)),
                ));
            },
            None => {
                return None;
            },
        }
        i = i + 1;
    }
    assert(raw@.take(n as int) =~= raw@);
    let hs = HeaderSet { entries };
    assert(hs@ =~= decoded(raw@));
    Some(hs)
}

/// The position of the first header whose name matches `name`, ignoring
/// ASCII case, if any.
pub fn find_header(raw: &Vec<RawHeader>, name: &str) -> (r: Option<usize>)
    ensures
        r is None ==> raw_lookup(raw@, name@) is None,
        r matches Some(i) ==> i < raw@.len() && raw_lookup(raw@, name@) == Some(raw@[i as int].value@),
{
    let n = raw.len();
    let mut i: usize = 0;
    assert(raw@.subrange(0, n as int) =~= raw@);
    while i < n
        invariant
            n == raw@.len(),
            i <= n,
            raw_lookup(raw@, name@) == raw_lookup(raw@.subrange(i as int, n as int), name@),
        decreases n - i,
    {
        proof {
            let rest = raw@.subrange(i as int, n as int);
            assert(rest[0] == raw@[i as int]);
            assert(rest.drop_first() =~= raw@.subrange(i + 1, n as int));
        }
        if name_matches(raw[i].name.as_str(), name) {
            return Some(i);
        }
        i = i + 1;
    }
    None
}

/// The user agent read from the raw headers, or `None` when its value is not
/// text. Other header values are not looked at.
pub fn decode_user_agent(raw: &Vec<RawHeader>) -> (r: Option<String>)
    ensures
        r is Some <==> user_agent_is_text(raw@),
        r matches Some(s) ==> s@ == raw_user_agent(raw@),
{
    match find_header(raw, "User-Agent") {
        Some(i) => value_text(&raw[i].value),
        None => Some(String::from_str("Unknown")),
    }
}

} // verus!
