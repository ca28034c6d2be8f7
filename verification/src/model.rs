//! The mathematical model of the registry: an insertion-ordered association
//! sequence of `(id, name)` entries, and the operations the executable code
//! is specified against.

use vstd::prelude::*;

verus! {

/// One registry entry: a packet id and a packet name, both as character
/// sequences.
pub type Entry = (Seq<char>, Seq<char>);

/// The value stored under key `k`: the first entry whose key is `k`.
/// (A registry state never holds the same key twice, so the first match
/// is the only match.)
pub open spec fn find_key(s: Seq<Entry>, k: Seq<char>) -> Option<Seq<char>>
    decreases s.len(),
{
    if s.len() == 0 {
        None
    } else if s[0].0 == k {
        Some(s[0].1)
    } else {
        find_key(s.drop_first(), k)
    }
}

/// `s` with every entry whose key is `k` removed, order otherwise kept.
pub open spec fn drop_key(s: Seq<Entry>, k: Seq<char>) -> Seq<Entry>
    decreases s.len(),
{
    if s.len() == 0 {
        Seq::empty()
    } else if s[0].0 == k {
        drop_key(s.drop_first(), k)
    } else {
        seq![s[0]] + drop_key(s.drop_first(), k)
    }
}

/// The effect of inserting `(k, v)` into an insertion-ordered map state:
/// any previous entry for `k` disappears and `(k, v)` takes the rearmost
/// position in the enumeration order.
pub open spec fn entry_insert(s: Seq<Entry>, k: Seq<char>, v: Seq<char>) -> Seq<Entry> {
    drop_key(s, k).push((k, v))
}

/// The state after inserting every entry of `ps` in order, starting from
/// `init`.
pub open spec fn inserted_all(init: Seq<Entry>, ps: Seq<Entry>) -> Seq<Entry>
    decreases ps.len(),
{
    if ps.len() == 0 {
        init
    } else {
        inserted_all(entry_insert(init, ps[0].0, ps[0].1), ps.drop_first())
    }
}

/// The name paired with the last occurrence of key `k` in the source list
/// `ps`, if `k` occurs at all.
pub open spec fn last_value(ps: Seq<Entry>, k: Seq<char>) -> Option<Seq<char>>
    decreases ps.len(),
{
    if ps.len() == 0 {
        None
    } else if ps.last().0 == k {
        Some(ps.last().1)
    } else {
        last_value(ps.drop_last(), k)
    }
}

/// Whether key `k` occurs anywhere in `ps`.
pub open spec fn has_key(ps: Seq<Entry>, k: Seq<char>) -> bool {
    exists|i: int| 0 <= i < ps.len() && ps[i].0 == k
}

/// A decimal digit.
pub open spec fn is_digit_char(c: char) -> bool {
    '0' <= c && c <= '9'
}

/// Whether a token consists of decimal digits only (vacuously true of the
/// empty token).
pub open spec fn all_digits(s: Seq<char>) -> bool {
    forall|i: int| 0 <= i < s.len() ==> is_digit_char(#[trigger] s[i])
}

/// The token naming client-to-server traffic, matched without regard to
/// letter case.
pub open spec fn is_c2s_token(s: Seq<char>) -> bool {
    s.len() == 3 && (s[0] == 'c' || s[0] == 'C') && s[1] == '2' && (s[2] == 's' || s[2] == 'S')
}

/// The token naming server-to-client traffic, matched without regard to
/// letter case.
pub open spec fn is_s2c_token(s: Seq<char>) -> bool {
    s.len() == 3 && (s[0] == 's' || s[0] == 'S') && s[1] == '2' && (s[2] == 'c' || s[2] == 'C')
}

proof fn lemma_find_key_push(s: Seq<Entry>, e: Entry, q: Seq<char>)
    ensures
        find_key(s.push(e), q) == (match find_key(s, q) {
            Some(v) => Some(v),
            None => if e.0 == q {
                Some(e.1)
            } else {
                None
            },
        }),
    decreases s.len(),
{
    if s.len() == 0 {
        reveal_with_fuel(find_key, 2);
        assert(s.push(e)[0] == e);
        assert(s.push(e).drop_first() =~= Seq::<Entry>::empty());
    } else {
        assert(s.push(e)[0] == s[0]);
        assert(s.push(e).drop_first() =~= s.drop_first().push(e));
        lemma_find_key_push(s.drop_first(), e, q);
    }
}

proof fn lemma_find_drop_key_same(s: Seq<Entry>, k: Seq<char>)
    ensures
        find_key(drop_key(s, k), k) is None,
    decreases s.len(),
{
    if s.len() == 0 {
    } else if s[0].0 == k {
        lemma_find_drop_key_same(s.drop_first(), k);
    } else {
        lemma_find_drop_key_same(s.drop_first(), k);
        assert((seq![s[0]] + drop_key(s.drop_first(), k))[0] == s[0]);
        assert((seq![s[0]] + drop_key(s.drop_first(), k)).drop_first() =~= drop_key(
            s.drop_first(),
            k,
        ));
    }
}

proof fn lemma_find_drop_key_other(s: Seq<Entry>, k: Seq<char>, q: Seq<char>)
    requires
        q != k,
    ensures
        find_key(drop_key(s, k), q) == find_key(s, q),
    decreases s.len(),
{
    if s.len() == 0 {
    } else if s[0].0 == k {
        lemma_find_drop_key_other(s.drop_first(), k, q);
    } else {
        lemma_find_drop_key_other(s.drop_first(), k, q);
        assert((seq![s[0]] + drop_key(s.drop_first(), k))[0] == s[0]);
        assert((seq![s[0]] + drop_key(s.drop_first(), k)).drop_first() =~= drop_key(
            s.drop_first(),
            k,
        ));
    }
}

/// Inserting `(k, v)` makes `k` map to `v` and leaves every other key's
/// value unchanged.
pub proof fn lemma_find_insert(s: Seq<Entry>, k: Seq<char>, v: Seq<char>, q: Seq<char>)
    ensures
        find_key(entry_insert(s, k, v), q) == if q == k {
            Some(v)
        } else {
            find_key(s, q)
        },
{
    lemma_find_key_push(drop_key(s, k), (k, v), q);
    if q == k {
        lemma_find_drop_key_same(s, k);
    } else {
        lemma_find_drop_key_other(s, k, q);
    }
}

/// Folding one more entry onto the back of the source list is one more
/// insertion.
pub proof fn lemma_inserted_all_push(init: Seq<Entry>, ps: Seq<Entry>, e: Entry)
    ensures
        inserted_all(init, ps.push(e)) == entry_insert(inserted_all(init, ps), e.0, e.1),
    decreases ps.len(),
{
    if ps.len() == 0 {
        reveal_with_fuel(inserted_all, 2);
        assert(ps.push(e)[0] == e);
        assert(ps.push(e).drop_first() =~= Seq::<Entry>::empty());
    } else {
        assert(ps.push(e)[0] == ps[0]);
        assert(ps.push(e).drop_first() =~= ps.drop_first().push(e));
        lemma_inserted_all_push(entry_insert(init, ps[0].0, ps[0].1), ps.drop_first(), e);
    }
}

/// Last write wins: after inserting a whole source list, a key maps to the
/// name of its last occurrence in the list, and a key the list never
/// mentions keeps whatever value the initial state gave it.
pub proof fn lemma_loaded_find(init: Seq<Entry>, ps: Seq<Entry>, k: Seq<char>)
    ensures
        find_key(inserted_all(init, ps), k) == (match last_value(ps, k) {
            Some(v) => Some(v),
            None => find_key(init, k),
        }),
    decreases ps.len(),
{
    if ps.len() == 0 {
    } else {
        let e = ps.last();
        assert(ps.drop_last().push(e) =~= ps);
        lemma_inserted_all_push(init, ps.drop_last(), e);
        lemma_find_insert(inserted_all(init, ps.drop_last()), e.0, e.1, k);
        lemma_loaded_find(init, ps.drop_last(), k);
    }
}

/// A source list has a last occurrence of a key exactly when it mentions
/// the key at all.
pub proof fn lemma_last_value_has_key(ps: Seq<Entry>, k: Seq<char>)
    ensures
        last_value(ps, k) is Some <==> has_key(ps, k),
    decreases ps.len(),
{
    if ps.len() == 0 {
    } else if ps.last().0 == k {
        assert(ps[ps.len() - 1].0 == k);
    } else {
        lemma_last_value_has_key(ps.drop_last(), k);
        if has_key(ps, k) {
            let i = choose|i: int| 0 <= i < ps.len() && ps[i].0 == k;
            assert(ps.drop_last()[i] == ps[i]);
        }
        if has_key(ps.drop_last(), k) {
            let i = choose|i: int| 0 <= i < ps.drop_last().len() && ps.drop_last()[i].0 == k;
            assert(ps[i] == ps.drop_last()[i]);
        }
    }
}

/// The two facts a loaded registry is queried under, for a registry that
/// started empty: every key present in the source list maps to the name of
/// its last occurrence there, and every other key is absent.
pub proof fn lemma_lookup_after_load(ps: Seq<Entry>, k: Seq<char>)
    ensures
        find_key(inserted_all(Seq::empty(), ps), k) == last_value(ps, k),
        find_key(inserted_all(Seq::empty(), ps), k) is Some <==> has_key(ps, k),
{
    lemma_loaded_find(Seq::empty(), ps, k);
    lemma_last_value_has_key(ps, k);
}

} // verus!
