//! The caller's address, taken from transport connection info.
use vstd::prelude::*;
use vstd::string::*;

verus! {

/// Position of the first `:` in `s`, or `s.len()` when there is none.
pub open spec fn first_colon(s: Seq<char>) -> int
    decreases s.len(),
{
    if s.len() == 0 {
        0
    } else if s[0] == ':' {
        0
    } else {
        1 + first_colon(s.drop_first())
    }
}

/// The part of `s` before its first `:` (all of `s` when it holds none).
pub open spec fn address_of(s: Seq<char>) -> Seq<char> {
    s.take(first_colon(s))
}

proof fn lemma_first_colon_bounds(s: Seq<char>)
    ensures
        0 <= first_colon(s) <= s.len(),
        forall|j: int| 0 <= j < first_colon(s) ==> s[j] != ':',
        first_colon(s) < s.len() ==> s[first_colon(s)] == ':',
    decreases s.len(),
{
    if s.len() > 0 && s[0] != ':' {
        lemma_first_colon_bounds(s.drop_first());
        assert forall|j: int| 0 <= j < first_colon(s) implies s[j] != ':' by {
            if j > 0 {
                assert(s[j] == s.drop_first()[j - 1]);
            }
        }
    }
}

/// `first_colon` is the first index holding `:`, or the length.
proof fn lemma_first_colon_unique(s: Seq<char>, k: int)
    requires
        0 <= k <= s.len(),
        forall|j: int| 0 <= j < k ==> s[j] != ':',
        k < s.len() ==> s[k] == ':',
    ensures
        first_colon(s) == k,
    decreases s.len(),
{
    if s.len() > 0 && s[0] != ':' {
        assert forall|j: int| 0 <= j < k - 1 implies s.drop_first()[j] != ':' by {
            assert(s[j + 1] != ':');
        }
        if k - 1 < s.len() - 1 {
            assert(s.drop_first()[k - 1] == s[k]);
        }
        lemma_first_colon_unique(s.drop_first(), k - 1);
    }
}

/// Resolves the caller's address from connection info of the form
/// `address` or `address:port`: everything before the first `:`.
/// An IPv6 literal is cut at its first colon as well. An empty input gives an
/// empty address.
pub fn resolve_address(info: &str) -> (r: String)
    ensures
        r@ == address_of(info@),
        info@.len() == 0 ==> r@.len() == 0,
        forall|j: int| 0 <= j < r@.len() ==> r@[j] != ':',
        r@.len() < info@.len() ==> info@[r@.len() as int] == ':',
{
    let n = info.unicode_len();
    let mut i: usize = 0;
    while i < n
        invariant
            n == info@.len(),
            i <= n,
            forall|j: int| 0 <= j < i ==> info@[j] != ':',
        ensures
            i <= n,
            forall|j: int| 0 <= j < i ==> info@[j] != ':',
            i < n ==> info@[i as int] == ':',
        decreases n - i,
    {
        if info.get_char(i) == ':' {
            break;
        }
        i = i + 1;
    }
    proof {
        lemma_first_colon_unique(info@, i as int);
        lemma_first_colon_bounds(info@);
    }
    String::from_str(info.substring_char(0, i))
}

/// The address of a request, where the transport may have none to give: an
/// unresolvable address is the empty string.
pub fn client_address(info: Option<&str>) -> (r: String)
    ensures
        r@ == match info {
            Some(s) => address_of(s@),
            None => Seq::<char>::empty(),
        },
{
    match info {
        Some(s) => resolve_address(s),
        None => String::new(),
    }
}

} // verus!
