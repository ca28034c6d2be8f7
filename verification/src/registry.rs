//! The packet registry: two insertion-ordered maps from packet id to packet
//! name, one per traffic direction, populated once from a source document.
//!
//! The maps themselves are `linked_hash_map::LinkedHashMap` values; the
//! registry's contracts speak of their contents through the abstract state
//! `lhm_entries` and the operations of [`crate::model`].

use vstd::prelude::*;

use crate::model::{entry_insert, find_key, inserted_all, lemma_inserted_all_push, Entry};

verus! {

/// Declares `linked_hash_map::LinkedHashMap` to the verifier as an opaque
/// type, so that the registry can hold it in its fields.
#[verifier::external_type_specification]
#[verifier::external_body]
#[verifier::reject_recursive_types(K)]
#[verifier::reject_recursive_types(V)]
#[verifier::reject_recursive_types(S)]
pub struct ExLinkedHashMap<K, V, S>(linked_hash_map::LinkedHashMap<K, V, S>);

/// The contents of a map: its `(id, name)` entries in iteration order.
pub uninterp spec fn lhm_entries(m: linked_hash_map::LinkedHashMap<String, String>) -> Seq<Entry>;

/// Relies on `linked_hash_map::LinkedHashMap::new`: the new map is empty.
#[verifier::external_body]
fn lhm_new() -> (m: linked_hash_map::LinkedHashMap<String, String>)
    ensures
        lhm_entries(m) == Seq::<Entry>::empty(),
{
    linked_hash_map::LinkedHashMap::new()
}

/// Relies on `linked_hash_map::LinkedHashMap::insert`: a fresh key is
/// appended at the back of the iteration order; an existing key has its
/// value overwritten and is moved to the back.
#[verifier::external_body]
fn lhm_insert(m: &mut linked_hash_map::LinkedHashMap<String, String>, k: String, v: String)
    ensures
        lhm_entries(*final(m)) == entry_insert(lhm_entries(*old(m)), k@, v@),
{
    m.insert(k, v);
}

/// Relies on `linked_hash_map::LinkedHashMap::get`: returns the value stored
/// under the key, if any.
#[verifier::external_body]
fn lhm_get(m: &linked_hash_map::LinkedHashMap<String, String>, k: &str) -> (r: Option<String>)
    ensures
        r is Some <==> find_key(lhm_entries(*m), k@) is Some,
        r matches Some(v) ==> find_key(lhm_entries(*m), k@) == Some(v@),
{
    m.get(k).cloned()
}

/// Relies on `linked_hash_map::LinkedHashMap::iter`: visits the entries in
/// insertion order.
#[verifier::external_body]
fn lhm_pairs(m: &linked_hash_map::LinkedHashMap<String, String>) -> (r: Vec<(String, String)>)
    ensures
        r@.len() == lhm_entries(*m).len(),
        forall|i: int|
            0 <= i < r@.len() ==> (#[trigger] r@[i]).0@ == lhm_entries(*m)[i].0 && r@[i].1@
                == lhm_entries(*m)[i].1,
{
    m.iter().map(|(k, v)| (k.clone(), v.clone())).collect()
}

/// One record of the source document: a packet id in decimal string form
/// and the packet's name.
pub struct Packet {
    pub id: String,
    pub name: String,
}

impl Packet {
    /// The entry this record contributes to the registry.
    pub open spec fn entry(&self) -> Entry {
        (self.id@, self.name@)
    }
}

/// The parsed source document: one ordered record list per direction.
pub struct SourceDocument {
    pub server_bound: Vec<Packet>,
    pub client_bound: Vec<Packet>,
}

/// The entries contributed by a record list, in list order.
pub open spec fn doc_entries(ps: Seq<Packet>) -> Seq<Entry> {
    ps.map_values(|p: Packet| p.entry())
}

/// The two traffic directions.
#[derive(Clone, Copy, PartialEq, Eq, Structural, Debug)]
pub enum Direction {
    /// Server to client traffic.
    ClientBound,
    /// Client to server traffic.
    ServerBound,
}

/// The registry: one insertion-ordered id-to-name map per direction.
pub struct PacketRegistry {
    server_bound: linked_hash_map::LinkedHashMap<String, String>,
    client_bound: linked_hash_map::LinkedHashMap<String, String>,
}

impl PacketRegistry {
    /// The server-bound entries in iteration order.
    pub closed spec fn server_entries(&self) -> Seq<Entry> {
        lhm_entries(self.server_bound)
    }

    /// The client-bound entries in iteration order.
    pub closed spec fn client_entries(&self) -> Seq<Entry> {
        lhm_entries(self.client_bound)
    }

    /// The entries of the chosen direction.
    pub open spec fn entries_of(&self, direction: Direction) -> Seq<Entry> {
        match direction {
            Direction::ClientBound => self.client_entries(),
            Direction::ServerBound => self.server_entries(),
        }
    }

    /// Creates an empty registry.
    pub fn new() -> (r: PacketRegistry)
        ensures
            r.server_entries() == Seq::<Entry>::empty(),
            r.client_entries() == Seq::<Entry>::empty(),
    {
        PacketRegistry { server_bound: lhm_new(), client_bound: lhm_new() }
    }

    /// Populates the registry from a source document: every record of each
    /// direction's list is inserted into that direction's map, in list
    /// order, so a repeated id keeps the name of its last occurrence.
    pub fn load(&mut self, doc: &SourceDocument)
        ensures
            final(self).client_entries() == inserted_all(
                old(self).client_entries(),
                doc_entries(doc.client_bound@),
            ),
            final(self).server_entries() == inserted_all(
                old(self).server_entries(),
                doc_entries(doc.server_bound@),
            ),
    {
        let cn = doc.client_bound.len();
        let mut i: usize = 0;
        while i < cn
            invariant
                i <= cn,
                cn == doc.client_bound@.len(),
                self.client_entries() == inserted_all(
                    old(self).client_entries(),
                    doc_entries(doc.client_bound@).take(i as int),
                ),
                self.server_entries() == old(self).server_entries(),
            decreases cn - i,
        {
            let p = &doc.client_bound[i];
            lhm_insert(&mut self.client_bound, p.id.clone(), p.name.clone());
            proof {
                let s = doc_entries(doc.client_bound@);
                assert(s.take(i as int).push(s[i as int]) =~= s.take(i as int + 1));
                lemma_inserted_all_push(old(self).client_entries(), s.take(i as int), s[i as int]);
            }
            i += 1;
        }
        proof {
            assert(doc_entries(doc.client_bound@).take(cn as int) =~= doc_entries(
                doc.client_bound@,
            ));
        }
        let sn = doc.server_bound.len();
        let mut j: usize = 0;
        while j < sn
            invariant
                j <= sn,
                sn == doc.server_bound@.len(),
                self.server_entries() == inserted_all(
                    old(self).server_entries(),
                    doc_entries(doc.server_bound@).take(j as int),
                ),
                self.client_entries() == inserted_all(
                    old(self).client_entries(),
                    doc_entries(doc.client_bound@),
                ),
            decreases sn - j,
        {
            let p = &doc.server_bound[j];
            lhm_insert(&mut self.server_bound, p.id.clone(), p.name.clone());
            proof {
                let s = doc_entries(doc.server_bound@);
                assert(s.take(j as int).push(s[j as int]) =~= s.take(j as int + 1));
                lemma_inserted_all_push(old(self).server_entries(), s.take(j as int), s[j as int]);
            }
            j += 1;
        }
        proof {
            assert(doc_entries(doc.server_bound@).take(sn as int) =~= doc_entries(
                doc.server_bound@,
            ));
        }
    }

    /// Looks up the name registered under `id` in the chosen direction's
    /// map.  A pure read.
    pub fn get(&self, direction: Direction, id: &str) -> (r: Option<String>)
        ensures
            r is Some <==> find_key(self.entries_of(direction), id@) is Some,
            r matches Some(name) ==> find_key(self.entries_of(direction), id@) == Some(name@),
    {
        match direction {
            Direction::ClientBound => lhm_get(&self.client_bound, id),
            Direction::ServerBound => lhm_get(&self.server_bound, id),
        }
    }

    /// The chosen direction's `(id, name)` entries, in insertion order.
    /// A pure read.
    pub fn iter(&self, direction: Direction) -> (r: Vec<(String, String)>)
        ensures
            pair_entries(r@) == self.entries_of(direction),
    {
        let r = match direction {
            Direction::ClientBound => lhm_pairs(&self.client_bound),
            Direction::ServerBound => lhm_pairs(&self.server_bound),
        };
        proof {
            assert(pair_entries(r@) =~~= self.entries_of(direction));
        }
        r
    }
}

/// The entries a list of owned `(id, name)` pairs stands for.
pub open spec fn pair_entries(s: Seq<(String, String)>) -> Seq<Entry> {
    s.map_values(|p: (String, String)| (p.0@, p.1@))
}

} // verus!
