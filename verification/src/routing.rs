//! The venue-to-client routing map, kept in an insertion-ordered map from
//! the `indexmap` crate behind a small trusted surface.
//!
//! `routing_entries` names what the map holds: its key-value pairs in
//! order. Each wrapper states over that name what the crate's source
//! shows of the method it calls; everything built on the map is verified
//! against those statements.

use vstd::prelude::*;

use indexmap::IndexMap;

use crate::messages::spec_metadata_get;

verus! {

#[verifier::external_type_specification]
#[verifier::external_body]
#[verifier::reject_recursive_types(K)]
#[verifier::reject_recursive_types(V)]
#[verifier::reject_recursive_types(S)]
pub struct ExIndexMap<K, V, S>(IndexMap<K, V, S>);

/// The key-value pairs an insertion-ordered map holds, in order.
pub uninterp spec fn routing_entries(m: IndexMap<String, String>) -> Seq<(Seq<char>, Seq<char>)>;

/// Entries after an insert: an equivalent key keeps its place and takes
/// the new value; a new key is appended last.
pub open spec fn spec_im_insert(
    entries: Seq<(Seq<char>, Seq<char>)>,
    key: Seq<char>,
    value: Seq<char>,
) -> Seq<(Seq<char>, Seq<char>)>
    decreases entries.len(),
{
    if entries.len() == 0 {
        seq![(key, value)]
    } else if entries[0].0 == key {
        seq![(key, value)] + entries.skip(1)
    } else {
        seq![entries[0]] + spec_im_insert(entries.skip(1), key, value)
    }
}

/// The value under a key: the first entry's, as in `spec_metadata_get`.
pub open spec fn spec_routing_get(
    entries: Seq<(Seq<char>, Seq<char>)>,
    key: Seq<char>,
) -> Option<Seq<char>> {
    spec_metadata_get(entries, key)
}

/// Helper: inserting an absent key appends the pair.
pub proof fn lemma_im_insert_absent(
    entries: Seq<(Seq<char>, Seq<char>)>,
    key: Seq<char>,
    value: Seq<char>,
)
    requires
        forall|k: int| 0 <= k < entries.len() ==> entries[k].0 != key,
    ensures
        spec_im_insert(entries, key, value) == entries.push((key, value)),
    decreases entries.len(),
{
    if entries.len() == 0 {
        assert(seq![(key, value)] =~= entries.push((key, value)));
    } else {
        assert(forall|k: int|
            0 <= k < entries.skip(1).len() ==> entries.skip(1)[k] == entries[k + 1]);
        lemma_im_insert_absent(entries.skip(1), key, value);
        assert(seq![entries[0]] + entries.skip(1).push((key, value)) =~= entries.push(
            (key, value),
        ));
    }
}

/// Helper: an insert keeps keys unique and changes no other pair.
pub proof fn lemma_im_insert_frame(
    entries: Seq<(Seq<char>, Seq<char>)>,
    key: Seq<char>,
    value: Seq<char>,
)
    requires
        forall|i: int, j: int|
            0 <= i < j < entries.len() ==> entries[i].0 != entries[j].0,
    ensures
        ({
            let after = spec_im_insert(entries, key, value);
            &&& forall|i: int, j: int| 0 <= i < j < after.len() ==> after[i].0 != after[j].0
            &&& forall|i: int|
                0 <= i < after.len() ==> after[i] == (key, value) || (0 <= i < entries.len()
                    && after[i] == entries[i] && entries[i].0 != key)
        }),
    decreases entries.len(),
{
    if entries.len() == 0 {
    } else if entries[0].0 == key {
        let after = spec_im_insert(entries, key, value);
        assert(forall|i: int|
            1 <= i < after.len() ==> after[i] == entries[i] && entries[i].0 != key);
    } else {
        assert(forall|i: int, j: int|
            0 <= i < j < entries.skip(1).len() ==> entries.skip(1)[i].0 != entries.skip(1)[j].0);
        lemma_im_insert_frame(entries.skip(1), key, value);
        let after = spec_im_insert(entries, key, value);
        let tail = spec_im_insert(entries.skip(1), key, value);
        assert(forall|i: int| 1 <= i < after.len() ==> after[i] == tail[i - 1]);
    }
}

/// Relies on `IndexMap::new`: a fresh map is empty.
#[verifier::external_body]
pub fn im_new() -> (r: IndexMap<String, String>)
    ensures
        routing_entries(r) == Seq::<(Seq<char>, Seq<char>)>::empty(),
{
    IndexMap::new()
}

/// Relies on `IndexMap::insert`: an equivalent key remains, retains its
/// place in the order, and its value is updated; a new key-value pair is
/// inserted last in order.
#[verifier::external_body]
pub fn im_insert(m: &mut IndexMap<String, String>, key: String, value: String)
    ensures
        routing_entries(*final(m)) == spec_im_insert(routing_entries(*old(m)), key@, value@),
{
    m.insert(key, value);
}

/// Relies on `IndexMap::get`: the value of the entry whose key equals the
/// one sought, or nothing when the map has no such entry.
#[verifier::external_body]
pub fn im_get<'a>(m: &'a IndexMap<String, String>, key: &String) -> (r: Option<&'a String>)
    ensures
        match r {
            Some(v) => spec_routing_get(routing_entries(*m), key@) == Some(v@),
            None => spec_routing_get(routing_entries(*m), key@) is None,
        },
{
    m.get(key)
}

/// Relies on `IndexMap::iter` visiting the entries in order; each pair is
/// cloned into a plain vector.
#[verifier::external_body]
pub fn im_entries(m: &IndexMap<String, String>) -> (r: Vec<(String, String)>)
    ensures
        r@.map(|i: int, e: (String, String)| (e.0@, e.1@)) == routing_entries(*m),
{
    m.iter().map(|(k, v)| (k.clone(), v.clone())).collect()
}

} // verus!
