//! JSON bodies: the fields of one object, built with the last write winning,
//! then written out by serde_json.
use vstd::prelude::*;
use vstd::string::*;

use crate::headers::HeaderSet;
use crate::text::same_text;

verus! {

/// One field of a JSON object whose values are all strings.
pub struct Entry {
    pub key: String,
    pub value: String,
}

impl View for Entry {
    type V = (Seq<char>, Seq<char>);

    open spec fn view(&self) -> (Seq<char>, Seq<char>) {
        (self.key@, self.value@)
    }
}

/// The fields as (key, value) pairs.
pub open spec fn entries_view(es: Seq<Entry>) -> Seq<(Seq<char>, Seq<char>)> {
    es.map_values(|e: Entry| e@)
}

/// No key occurs twice.
pub open spec fn keys_unique(es: Seq<(Seq<char>, Seq<char>)>) -> bool {
    forall|i: int, j: int| 0 <= i < j < es.len() ==> #[trigger] es[i].0 != #[trigger] es[j].0
}

/// Sets field `h.0` to `h.1`: in place where the key is there already, else
/// at the end.
pub open spec fn put(es: Seq<(Seq<char>, Seq<char>)>, h: (Seq<char>, Seq<char>)) -> Seq<
    (Seq<char>, Seq<char>),
> {
    if exists|j: int| 0 <= j < es.len() && es[j].0 == h.0 {
        es.update(choose|j: int| 0 <= j < es.len() && es[j].0 == h.0, h)
    } else {
        es.push(h)
    }
}

/// The fields `init`, then every header put in transmission order.
pub open spec fn object_of(init: Seq<(Seq<char>, Seq<char>)>, hs: Seq<(Seq<char>, Seq<char>)>) -> Seq<
    (Seq<char>, Seq<char>),
>
    decreases hs.len(),
{
    if hs.len() == 0 {
        init
    } else {
        put(object_of(init, hs.drop_last()), hs.last())
    }
}

/// The mapping that a list of fields denotes.
pub open spec fn entries_map(es: Seq<(Seq<char>, Seq<char>)>) -> Map<Seq<char>, Seq<char>>
    decreases es.len(),
{
    if es.len() == 0 {
        Map::empty()
    } else {
        entries_map(es.drop_last()).insert(es.last().0, es.last().1)
    }
}

/// `m` with every header inserted in transmission order, the last write
/// winning.
pub open spec fn insert_all(m: Map<Seq<char>, Seq<char>>, hs: Seq<(Seq<char>, Seq<char>)>) -> Map<
    Seq<char>,
    Seq<char>,
>
    decreases hs.len(),
{
    if hs.len() == 0 {
        m
    } else {
        insert_all(m, hs.drop_last()).insert(hs.last().0, hs.last().1)
    }
}

/// The compact JSON text of the object with these string fields, as
/// serde_json writes it: its map is ordered by key, so the fields come out
/// sorted by key whatever their order here.
pub uninterp spec fn json_object_text(entries: Seq<(Seq<char>, Seq<char>)>) -> Seq<char>;

/// Relies on serde_json: `Map` collects the fields and `Value`'s `Display`
/// writes the object as compact JSON text, strings escaped.
#[verifier::external_body]
fn to_json_object(entries: &Vec<Entry>) -> (r: String)
    ensures
        r@ == json_object_text(entries_view(entries@)),
{
    let m: serde_json::Map<String, serde_json::Value> = entries.iter().map(
        |e| (e.key.clone(), serde_json::Value::String(e.value.clone())),
    ).collect();
    serde_json::Value::Object(m).to_string()
}

/// Putting a field keeps the keys unique.
pub proof fn lemma_put_keeps_keys_unique(es: Seq<(Seq<char>, Seq<char>)>, h: (Seq<char>, Seq<char>))
    requires
        keys_unique(es),
    ensures
        keys_unique(put(es, h)),
{
    let r = put(es, h);
    if exists|j: int| 0 <= j < es.len() && es[j].0 == h.0 {
        let j = choose|j: int| 0 <= j < es.len() && es[j].0 == h.0;
        assert forall|a: int, b: int| 0 <= a < b < r.len() implies #[trigger] r[a].0
            != #[trigger] r[b].0 by {
            assert(es[a].0 != es[b].0);
        }
    } else {
        assert forall|a: int, b: int| 0 <= a < b < r.len() implies #[trigger] r[a].0
            != #[trigger] r[b].0 by {
            if b < es.len() {
                assert(es[a].0 != es[b].0);
            } else {
                assert(r[b] == h);
                assert(r[a] == es[a]);
            }
        }
    }
}

/// Overwriting the value of a key that is there changes the mapping at that
/// key alone.
proof fn lemma_update_map(es: Seq<(Seq<char>, Seq<char>)>, c: int, h: (Seq<char>, Seq<char>))
    requires
        keys_unique(es),
        0 <= c < es.len(),
        es[c].0 == h.0,
    ensures
        entries_map(es.update(c, h)) == entries_map(es).insert(h.0, h.1),
    decreases es.len(),
{
    let u = es.update(c, h);
    let d = es.drop_last();
    if c == es.len() - 1 {
        assert(u.drop_last() =~= d);
        assert(entries_map(u) =~= entries_map(es).insert(h.0, h.1));
    } else {
        assert(u.drop_last() =~= d.update(c, h));
        assert(es[c].0 != es[es.len() - 1].0);
        assert(keys_unique(d)) by {
            assert forall|a: int, b: int| 0 <= a < b < d.len() implies #[trigger] d[a].0
                != #[trigger] d[b].0 by {
                assert(es[a].0 != es[b].0);
            }
        }
        lemma_update_map(d, c, h);
        assert(entries_map(u) =~= entries_map(es).insert(h.0, h.1));
    }
}

/// Putting a field inserts it into the mapping.
pub proof fn lemma_put_map(es: Seq<(Seq<char>, Seq<char>)>, h: (Seq<char>, Seq<char>))
    requires
        keys_unique(es),
    ensures
        entries_map(put(es, h)) == entries_map(es).insert(h.0, h.1),
{
    if exists|j: int| 0 <= j < es.len() && es[j].0 == h.0 {
        let c = choose|j: int| 0 <= j < es.len() && es[j].0 == h.0;
        lemma_update_map(es, c, h);
    } else {
        assert(es.push(h).drop_last() =~= es);
    }
}

/// The fields built from `init` and the headers have unique keys and denote
/// `init`'s mapping with every header inserted in order.
pub proof fn lemma_object_map(init: Seq<(Seq<char>, Seq<char>)>, hs: Seq<(Seq<char>, Seq<char>)>)
    requires
        keys_unique(init),
    ensures
        keys_unique(object_of(init, hs)),
        entries_map(object_of(init, hs)) == insert_all(entries_map(init), hs),
    decreases hs.len(),
{
    if hs.len() > 0 {
        lemma_object_map(init, hs.drop_last());
        lemma_put_keeps_keys_unique(object_of(init, hs.drop_last()), hs.last());
        lemma_put_map(object_of(init, hs.drop_last()), hs.last());
    }
}

/// What the headers inserted into an empty mapping hold: each header's name
/// is a key, and each key holds the value of the last header of that name.
pub proof fn lemma_insert_all_empty(hs: Seq<(Seq<char>, Seq<char>)>)
    ensures
        forall|i: int| 0 <= i < hs.len() ==> insert_all(Map::empty(), hs).contains_key(#[trigger] hs[i].0),
        forall|k: Seq<char>| #[trigger] insert_all(Map::empty(), hs).contains_key(k) ==> exists|i: int|
            0 <= i < hs.len() && hs[i].0 == k && insert_all(Map::empty(), hs)[k] == hs[i].1
                && forall|j: int| i < j < hs.len() ==> #[trigger] hs[j].0 != k,
    decreases hs.len(),
{
    if hs.len() > 0 {
        let d = hs.drop_last();
        let m = insert_all(Map::empty(), hs);
        let m0 = insert_all(Map::empty(), d);
        lemma_insert_all_empty(d);
        assert forall|i: int| 0 <= i < hs.len() implies m.contains_key(#[trigger] hs[i].0) by {
            if i < hs.len() - 1 {
                assert(hs[i] == d[i]);
                assert(m0.contains_key(d[i].0));
            }
        }
        assert forall|k: Seq<char>| #[trigger] m.contains_key(k) implies exists|i: int|
            0 <= i < hs.len() && hs[i].0 == k && m[k] == hs[i].1 && forall|j: int|
                i < j < hs.len() ==> #[trigger] hs[j].0 != k by {
            if k == hs.last().0 {
                assert(hs[hs.len() - 1].0 == k);
            } else {
                assert(m0.contains_key(k));
                let i = choose|i: int|
                    0 <= i < d.len() && d[i].0 == k && m0[k] == d[i].1 && forall|j: int|
                        i < j < d.len() ==> #[trigger] d[j].0 != k;
                assert(hs[i] == d[i]);
                assert forall|j: int| i < j < hs.len() implies #[trigger] hs[j].0 != k by {
                    if j < hs.len() - 1 {
                        assert(hs[j] == d[j]);
                    }
                }
            }
        }
    }
}

/// Sets the field `key` to `value`, in place where it is there already, else
/// at the end.
fn put_field(es: &mut Vec<Entry>, key: String, value: String)
    requires
        keys_unique(entries_view(old(es)@)),
    ensures
        entries_view(final(es)@) == put(entries_view(old(es)@), (key@, value@)),
        keys_unique(entries_view(final(es)@)),
{
    let ghost before = entries_view(es@);
    let ghost h = (key@, value@);
    proof {
        lemma_put_keeps_keys_unique(before, h);
    }
    let n = es.len();
    let mut i: usize = 0;
    while i < n
        invariant
            n == es@.len(),
            n == before.len(),
            before == entries_view(es@),
            before == entries_view(old(es)@),
            h == (key@, value@),
            keys_unique(before),
            keys_unique(put(before, h)),
            i <= n,
            forall|j: int| 0 <= j < i ==> before[j].0 != key@,
        decreases n - i,
    {
        proof {
            assert(before[i as int] == es@[i as int]@);
        }
        let found = same_text(es[i].key.as_str(), key.as_str());
        if found {
            proof {
                assert(before[i as int].0 == h.0);
                let c = choose|j: int| 0 <= j < before.len() && before[j].0 == h.0;
                if c < i {
                    assert(before[c].0 != before[i as int].0);
                } else if c > i {
                    assert(before[i as int].0 != before[c].0);
                }
                assert(put(before, h) == before.update(i as int, h));
            }
            es[i] = Entry { key, value };
            assert(entries_view(es@) =~= before.update(i as int, h));
            return ;
        }
        i = i + 1;
    }
    assert(!exists|j: int| 0 <= j < before.len() && before[j].0 == h.0);
    es.push(Entry { key, value });
    assert(entries_view(es@) =~= before.push(h));
}

/// Puts every header, in transmission order, into the fields `es`.
fn put_headers(es: &mut Vec<Entry>, headers: &HeaderSet)
    requires
        keys_unique(entries_view(old(es)@)),
    ensures
        entries_view(final(es)@) == object_of(entries_view(old(es)@), headers@),
        keys_unique(entries_view(final(es)@)),
{
    let ghost init = entries_view(es@);
    let n = headers.entries.len();
    let mut i: usize = 0;
    assert(headers@.take(0) =~= Seq::<(Seq<char>, Seq<char>)>::empty());
    while i < n
        invariant
            n == headers.entries@.len(),
            n == headers@.len(),
            i <= n,
            entries_view(es@) == object_of(init, headers@.take(i as int)),
            keys_unique(entries_view(es@)),
        decreases n - i,
    {
        let h = &headers.entries[i];
        put_field(es, h.name.clone(), h.value.clone());
        proof {
            let t = headers@.take(i + 1);
            assert(t.drop_last() =~= headers@.take(i as int));
            assert(t.last() == h@);
        }
        i = i + 1;
    }
    assert(headers@.take(n as int) =~= headers@);
}

/// The fields of the header object: one per header name, in order of first
/// appearance, holding the value of the last header of that name.
pub open spec fn header_object(hs: Seq<(Seq<char>, Seq<char>)>) -> Seq<(Seq<char>, Seq<char>)> {
    object_of(Seq::empty(), hs)
}

/// The fields of the combined object: `ip` first, then the headers put in
/// order, so that a header named `ip` overwrites the address.
pub open spec fn combined_object(addr: Seq<char>, hs: Seq<(Seq<char>, Seq<char>)>) -> Seq<
    (Seq<char>, Seq<char>),
> {
    object_of(seq![("ip"@, addr)], hs)
}

/// Decoding the header object gives back the headers: its keys are unique,
/// every header name is a key, and every key holds the value of the last
/// header of that name.
pub proof fn lemma_header_object_round_trip(hs: Seq<(Seq<char>, Seq<char>)>)
    ensures
        keys_unique(header_object(hs)),
        entries_map(header_object(hs)) == insert_all(Map::empty(), hs),
        forall|i: int| 0 <= i < hs.len() ==> entries_map(header_object(hs)).contains_key(#[trigger] hs[i].0),
        forall|k: Seq<char>| #[trigger] entries_map(header_object(hs)).contains_key(k) ==> exists|i: int|
            0 <= i < hs.len() && hs[i].0 == k && entries_map(header_object(hs))[k] == hs[i].1
                && forall|j: int| i < j < hs.len() ==> #[trigger] hs[j].0 != k,
{
    lemma_object_map(Seq::empty(), hs);
    lemma_insert_all_empty(hs);
}

/// The combined object holds `ip` with the address and every header, a
/// header named `ip` overwriting the address.
pub proof fn lemma_combined_object_map(addr: Seq<char>, hs: Seq<(Seq<char>, Seq<char>)>)
    ensures
        keys_unique(combined_object(addr, hs)),
        entries_map(combined_object(addr, hs)) == insert_all(map![("ip"@) => addr], hs),
{
    let init = seq![("ip"@, addr)];
    assert(init.drop_last() =~= Seq::<(Seq<char>, Seq<char>)>::empty());
    assert(entries_map(init.drop_last()) == Map::<Seq<char>, Seq<char>>::empty());
    assert(init.last() == ("ip"@, addr));
    assert(entries_map(init) =~= map![("ip"@) => addr]);
    lemma_object_map(init, hs);
}

/// `{"ip": <address>}`.
pub fn json_address(addr: &str) -> (r: String)
    ensures
        r@ == json_object_text(seq![("ip"@, addr@)]),
{
    let mut es: Vec<Entry> = Vec::new();
    es.push(Entry { key: String::from_str("ip"), value: String::from_str(addr) });
    assert(entries_view(es@) =~= seq![("ip"@, addr@)]);
    to_json_object(&es)
}

/// `{"user-agent": <user agent>}`.
pub fn json_user_agent(ua: &str) -> (r: String)
    ensures
        r@ == json_object_text(seq![("user-agent"@, ua@)]),
{
    let mut es: Vec<Entry> = Vec::new();
    es.push(Entry { key: String::from_str("user-agent"), value: String::from_str(ua) });
    assert(entries_view(es@) =~= seq![("user-agent"@, ua@)]);
    to_json_object(&es)
}

/// One field per header name, the last header of a name winning.
pub fn json_headers(headers: &HeaderSet) -> (r: String)
    ensures
        r@ == json_object_text(header_object(headers@)),
{
    let mut es: Vec<Entry> = Vec::new();
    assert(entries_view(es@) =~= Seq::<(Seq<char>, Seq<char>)>::empty());
    put_headers(&mut es, headers);
    to_json_object(&es)
}

/// `ip` with the address, then one field per header name; a header named
/// `ip` overwrites the address.
pub fn json_combined(addr: &str, headers: &HeaderSet) -> (r: String)
    ensures
        r@ == json_object_text(combined_object(addr@, headers@)),
{
    let mut es: Vec<Entry> = Vec::new();
    es.push(Entry { key: String::from_str("ip"), value: String::from_str(addr) });
    assert(entries_view(es@) =~= seq![("ip"@, addr@)]);
    put_headers(&mut es, headers);
    to_json_object(&es)
}

} // verus!
