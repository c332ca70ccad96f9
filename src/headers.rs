//! Request headers: an ordered list of (name, value) pairs as transmitted,
//! looked up by name without regard to ASCII case.
use vstd::prelude::*;
use vstd::string::*;

verus! {

/// One header line as the transport received it.
pub struct Header {
    pub name: String,
    pub value: String,
}

/// The headers of one request, in transmission order.
pub struct HeaderSet {
    pub entries: Vec<Header>,
}

impl View for Header {
    type V = (Seq<char>, Seq<char>);

    open spec fn view(&self) -> (Seq<char>, Seq<char>) {
        (self.name@, self.value@)
    }
}

impl View for HeaderSet {
    type V = Seq<(Seq<char>, Seq<char>)>;

    open spec fn view(&self) -> Seq<(Seq<char>, Seq<char>)> {
        self.entries@.map_values(|h: Header| h@)
    }
}

/// Two characters are equal once ASCII letters are folded to one case.
pub open spec fn chars_match(a: char, b: char) -> bool {
    a == b || ('A' <= a <= 'Z' && b as u32 == a as u32 + 32) || ('A' <= b <= 'Z' && a as u32
        == b as u32 + 32)
}

/// Two header names are equal without regard to ASCII case.
pub open spec fn names_match(a: Seq<char>, b: Seq<char>) -> bool {
    a.len() == b.len() && forall|i: int| 0 <= i < a.len() ==> chars_match(#[trigger] a[i], b[i])
}

/// The value of the first header whose name matches `name`, if any.
pub open spec fn lookup(hs: Seq<(Seq<char>, Seq<char>)>, name: Seq<char>) -> Option<Seq<char>>
    decreases hs.len(),
{
    if hs.len() == 0 {
        None
    } else if names_match(hs[0].0, name) {
        Some(hs[0].1)
    } else {
        lookup(hs.drop_first(), name)
    }
}

/// The value of the header `name`, or `default` when the request has none.
pub open spec fn value_or(hs: Seq<(Seq<char>, Seq<char>)>, name: Seq<char>, default: Seq<char>) -> Seq<
    char,
> {
    match lookup(hs, name) {
        Some(v) => v,
        None => default,
    }
}

/// The user agent of a request: its `User-Agent` header, else `Unknown`.
pub open spec fn user_agent_of(hs: Seq<(Seq<char>, Seq<char>)>) -> Seq<char> {
    value_or(hs, "User-Agent"@, "Unknown"@)
}

/// A request that carries no `User-Agent` header, in any case, has the user
/// agent `Unknown`.
pub proof fn lemma_missing_user_agent_is_unknown(hs: Seq<(Seq<char>, Seq<char>)>)
    requires
        forall|i: int| 0 <= i < hs.len() ==> !names_match(#[trigger] hs[i].0, "User-Agent"@),
    ensures
        user_agent_of(hs) == "Unknown"@,
{
    lemma_no_match_is_none(hs, "User-Agent"@);
}

/// A lookup finds nothing where no name matches.
pub proof fn lemma_no_match_is_none(hs: Seq<(Seq<char>, Seq<char>)>, name: Seq<char>)
    requires
        forall|i: int| 0 <= i < hs.len() ==> !names_match(#[trigger] hs[i].0, name),
    ensures
        lookup(hs, name) is None,
    decreases hs.len(),
{
    if hs.len() > 0 {
        assert(!names_match(hs[0].0, name));
        assert forall|i: int| 0 <= i < hs.drop_first().len() implies !names_match(
            #[trigger] hs.drop_first()[i].0,
            name,
        ) by {
            assert(hs.drop_first()[i] == hs[i + 1]);
        }
        lemma_no_match_is_none(hs.drop_first(), name);
    }
}

fn char_matches(a: char, b: char) -> (r: bool)
    ensures
        r == chars_match(a, b),
{
    let x = a as u32;
    let y = b as u32;
    a == b || ('A' <= a && a <= 'Z' && y == x + 32) || ('A' <= b && b <= 'Z' && x == y + 32)
}

/// Compares two header names without regard to ASCII case.
pub fn name_matches(a: &str, b: &str) -> (r: bool)
    ensures
        r == names_match(a@, b@),
{
    let n = a.unicode_len();
    if n != b.unicode_len() {
        return false;
    }
    let mut i: usize = 0;
    while i < n
        invariant
            n == a@.len(),
            n == b@.len(),
            i <= n,
            forall|j: int| 0 <= j < i ==> chars_match(#[trigger] a@[j], b@[j]),
        decreases n - i,
    {
        if !char_matches(a.get_char(i), b.get_char(i)) {
            return false;
        }
        i = i + 1;
    }
    true
}

impl HeaderSet {
    /// The value of the first header named `name`, ignoring ASCII case, or
    /// `default` when there is none.
    pub fn get(&self, name: &str, default: &str) -> (r: String)
        ensures
            r@ == value_or(self@, name@, default@),
    {
        let n = self.entries.len();
        let mut i: usize = 0;
        assert(self@.subrange(0, n as int) =~= self@);
        while i < n
            invariant
                n == self.entries@.len(),
                n == self@.len(),
                i <= n,
                lookup(self@, name@) == lookup(self@.subrange(i as int, n as int), name@),
            decreases n - i,
        {
            let h = &self.entries[i];
            proof {
                let rest = self@.subrange(i as int, n as int);
                assert(rest[0] == h@);
                assert(rest.drop_first() =~= self@.subrange(i + 1, n as int));
            }
            if name_matches(h.name.as_str(), name) {
                return h.value.clone();
            }
            i = i + 1;
        }
        proof {
            assert(self@.subrange(n as int, n as int).len() == 0);
        }
        String::from_str(default)
    }

    /// The caller's user agent: the `User-Agent` header, else `Unknown`.
    pub fn user_agent(&self) -> (r: String)
        ensures
            r@ == user_agent_of(self@),
    {
        self.get("User-Agent", "Unknown")
    }
}

} // verus!
