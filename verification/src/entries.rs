//! Mathematical model of an insertion-ordered string map: a sequence of
//! key/value pairs with unique keys, where inserting an existing key updates
//! the value in place and inserting a new key appends it.

use vstd::prelude::*;

verus! {

/// One entry: a key and a value, both character sequences.
pub type Entry = (Seq<char>, Seq<char>);

/// The value stored under `k`, at the first entry whose key is `k`.
pub open spec fn lookup(es: Seq<Entry>, k: Seq<char>) -> Option<Seq<char>>
    decreases es.len(),
{
    if es.len() == 0 {
        None
    } else if es[0].0 == k {
        Some(es[0].1)
    } else {
        lookup(es.skip(1), k)
    }
}

/// Whether some entry has key `k`.
pub open spec fn has_key(es: Seq<Entry>, k: Seq<char>) -> bool {
    lookup(es, k) is Some
}

/// Insert-or-update: if `k` is already a key, its value becomes `v` and the
/// entry keeps its place; otherwise `(k, v)` is appended.
pub open spec fn upsert(es: Seq<Entry>, k: Seq<char>, v: Seq<char>) -> Seq<Entry>
    decreases es.len(),
{
    if es.len() == 0 {
        seq![(k, v)]
    } else if es[0].0 == k {
        seq![(k, v)] + es.skip(1)
    } else {
        seq![es[0]] + upsert(es.skip(1), k, v)
    }
}

/// The keys of the entries, in order.
pub open spec fn entry_keys(es: Seq<Entry>) -> Seq<Seq<char>> {
    es.map_values(|e: Entry| e.0)
}

/// No two entries share a key.
pub open spec fn no_dup_keys(es: Seq<Entry>) -> bool {
    forall|i: int, j: int| 0 <= i < j < es.len() ==> es[i].0 != es[j].0
}

/// The entries that folding the pairs into an empty map, in order, leaves
/// behind: each pair is upserted, so a repeated key keeps its first position
/// but takes its last value.
pub open spec fn entries_of_pairs(ps: Seq<Entry>) -> Seq<Entry>
    decreases ps.len(),
{
    if ps.len() == 0 {
        Seq::empty()
    } else {
        upsert(entries_of_pairs(ps.drop_last()), ps.last().0, ps.last().1)
    }
}

/// After an upsert, looking up the same key yields the new value.
pub proof fn lemma_lookup_upsert_same(es: Seq<Entry>, k: Seq<char>, v: Seq<char>)
    ensures
        lookup(upsert(es, k, v), k) == Some(v),
    decreases es.len(),
{
    if es.len() == 0 {
    } else if es[0].0 == k {
        assert((seq![(k, v)] + es.skip(1))[0] == (k, v));
    } else {
        lemma_lookup_upsert_same(es.skip(1), k, v);
        assert((seq![es[0]] + upsert(es.skip(1), k, v)).skip(1) =~= upsert(es.skip(1), k, v));
    }
}

/// An upsert leaves the lookup of every other key unchanged.
pub proof fn lemma_lookup_upsert_other(es: Seq<Entry>, k: Seq<char>, v: Seq<char>, k2: Seq<char>)
    requires
        k2 != k,
    ensures
        lookup(upsert(es, k, v), k2) == lookup(es, k2),
    decreases es.len(),
{
    if es.len() == 0 {
        assert(seq![(k, v)][0] == (k, v));
        assert(seq![(k, v)].skip(1).len() == 0);
        assert(lookup(seq![(k, v)].skip(1), k2) is None);
        assert(lookup(upsert(es, k, v), k2) == lookup(es, k2));
    } else if es[0].0 == k {
        assert((seq![(k, v)] + es.skip(1))[0] == (k, v));
        assert((seq![(k, v)] + es.skip(1)).skip(1) =~= es.skip(1));
    } else {
        lemma_lookup_upsert_other(es.skip(1), k, v, k2);
        assert((seq![es[0]] + upsert(es.skip(1), k, v))[0] == es[0]);
        assert((seq![es[0]] + upsert(es.skip(1), k, v)).skip(1) =~= upsert(es.skip(1), k, v));
    }
}

/// The keys of a sequence of entries starting with `e` are `e`'s key followed
/// by the keys of the rest.
pub proof fn lemma_keys_cons(e: Entry, es: Seq<Entry>)
    ensures
        entry_keys(seq![e] + es) == seq![e.0] + entry_keys(es),
{
    let l = entry_keys(seq![e] + es);
    let r = seq![e.0] + entry_keys(es);
    assert forall|i: int| 0 <= i < l.len() implies l[i] == r[i] by {
        assert(l[i] == (seq![e] + es)[i].0);
        if i > 0 {
            assert((seq![e] + es)[i] == es[i - 1]);
            assert(entry_keys(es)[i - 1] == es[i - 1].0);
        }
    }
    assert(l =~= r);
}

/// An upsert keeps the key order: existing keys stay in place, and a new key
/// is appended at the end.
pub proof fn lemma_upsert_keys(es: Seq<Entry>, k: Seq<char>, v: Seq<char>)
    ensures
        has_key(es, k) ==> entry_keys(upsert(es, k, v)) == entry_keys(es),
        !has_key(es, k) ==> entry_keys(upsert(es, k, v)) == entry_keys(es).push(k),
    decreases es.len(),
{
    if es.len() == 0 {
        assert(entry_keys(seq![(k, v)])[0] == (k, v).0);
        assert(entry_keys(seq![(k, v)]) =~= entry_keys(es).push(k));
    } else {
        assert(es =~= seq![es[0]] + es.skip(1));
        lemma_keys_cons(es[0], es.skip(1));
        if es[0].0 == k {
            lemma_keys_cons((k, v), es.skip(1));
            assert(entry_keys(seq![(k, v)] + es.skip(1)) =~= entry_keys(es));
        } else {
            lemma_upsert_keys(es.skip(1), k, v);
            lemma_keys_cons(es[0], upsert(es.skip(1), k, v));
            if has_key(es.skip(1), k) {
                assert(entry_keys(upsert(es, k, v)) =~= entry_keys(es));
            } else {
                assert(entry_keys(upsert(es, k, v)) =~= entry_keys(es).push(k));
            }
        }
    }
}

/// A key is present exactly when it occurs among the entry keys.
pub proof fn lemma_has_key_contains(es: Seq<Entry>, k: Seq<char>)
    ensures
        has_key(es, k) <==> entry_keys(es).contains(k),
    decreases es.len(),
{
    if es.len() == 0 {
    } else if es[0].0 == k {
        assert(entry_keys(es)[0] == k);
    } else {
        lemma_has_key_contains(es.skip(1), k);
        assert(entry_keys(es.skip(1)) =~= entry_keys(es).skip(1));
        if entry_keys(es).contains(k) {
            let i = choose|i: int| 0 <= i < entry_keys(es).len() && entry_keys(es)[i] == k;
            assert(entry_keys(es).skip(1)[i - 1] == k);
        }
        if entry_keys(es).skip(1).contains(k) {
            let i = choose|i: int|
                0 <= i < entry_keys(es).skip(1).len() && entry_keys(es).skip(1)[i] == k;
            assert(entry_keys(es)[i + 1] == k);
        }
    }
}

/// An upsert never introduces a duplicate key.
pub proof fn lemma_upsert_no_dup(es: Seq<Entry>, k: Seq<char>, v: Seq<char>)
    requires
        no_dup_keys(es),
    ensures
        no_dup_keys(upsert(es, k, v)),
{
    lemma_upsert_keys(es, k, v);
    lemma_has_key_contains(es, k);
    let es2 = upsert(es, k, v);
    assert(entry_keys(es2).len() == es2.len());
    assert(entry_keys(es).len() == es.len());
    assert forall|i: int, j: int| 0 <= i < j < es2.len() implies es2[i].0 != es2[j].0 by {
        assert(entry_keys(es2)[i] == es2[i].0);
        assert(entry_keys(es2)[j] == es2[j].0);
        if has_key(es, k) {
            assert(entry_keys(es)[i] == es[i].0);
            assert(entry_keys(es)[j] == es[j].0);
        } else {
            if j < es.len() {
                assert(entry_keys(es)[i] == es[i].0);
                assert(entry_keys(es)[j] == es[j].0);
            } else {
                assert(es2[j].0 == k);
                assert(es2[i].0 == es[i].0);
                if es2[i].0 == k {
                    assert(entry_keys(es)[i] == k);
                    assert(entry_keys(es).contains(k));
                    assert(false);
                }
            }
        }
    }
}

/// Appending an element to a sequence adds it to the sequence's set of
/// elements.
pub proof fn lemma_push_to_set(s: Seq<Seq<char>>, k: Seq<char>)
    ensures
        s.push(k).to_set() == s.to_set().insert(k),
{
    broadcast use vstd::seq_lib::seq_to_set_is_finite;

    assert forall|x: Seq<char>| s.push(k).to_set().contains(x) implies s.to_set().insert(
        k,
    ).contains(x) by {
        let i = choose|i: int| 0 <= i < s.push(k).len() && s.push(k)[i] == x;
        if i < s.len() {
            assert(s[i] == x);
            assert(s.contains(x));
        }
    }
    assert forall|x: Seq<char>| s.to_set().insert(k).contains(x) implies s.push(k).to_set().contains(
        x,
    ) by {
        if x == k {
            assert(s.push(k)[s.len() as int] == x);
        } else {
            let i = choose|i: int| 0 <= i < s.len() && s[i] == x;
            assert(s.push(k)[i] == x);
        }
        assert(s.push(k).contains(x));
    }
    assert(s.push(k).to_set() =~= s.to_set().insert(k));
}

/// Folding pairs into entries leaves no duplicate key, and leaves exactly the
/// keys the pairs mention.
pub proof fn lemma_entries_of_pairs_props(ps: Seq<Entry>)
    ensures
        no_dup_keys(entries_of_pairs(ps)),
        entry_keys(entries_of_pairs(ps)).to_set() == entry_keys(ps).to_set(),
    decreases ps.len(),
{
    if ps.len() == 0 {
        assert(entry_keys(entries_of_pairs(ps)).to_set() =~= entry_keys(ps).to_set());
    } else {
        let pre = ps.drop_last();
        let p = ps.last();
        lemma_entries_of_pairs_props(pre);
        let e0 = entries_of_pairs(pre);
        lemma_upsert_no_dup(e0, p.0, p.1);
        lemma_upsert_keys(e0, p.0, p.1);
        lemma_has_key_contains(e0, p.0);
        assert(entry_keys(ps) =~= entry_keys(pre).push(p.0));
        lemma_push_to_set(entry_keys(pre), p.0);
        if has_key(e0, p.0) {
            assert(entry_keys(e0).to_set().contains(p.0));
            assert(entry_keys(e0).to_set() =~= entry_keys(e0).to_set().insert(p.0));
            assert(entry_keys(entries_of_pairs(ps)).to_set() =~= entry_keys(ps).to_set());
        } else {
            lemma_push_to_set(entry_keys(e0), p.0);
            assert(entry_keys(entries_of_pairs(ps)).to_set() =~= entry_keys(ps).to_set());
        }
    }
}

/// The distinct elements of a sequence, each at its first occurrence, in
/// order.
pub open spec fn first_seen(ks: Seq<Seq<char>>) -> Seq<Seq<char>>
    decreases ks.len(),
{
    if ks.len() == 0 {
        Seq::empty()
    } else {
        let pre = first_seen(ks.drop_last());
        if pre.contains(ks.last()) {
            pre
        } else {
            pre.push(ks.last())
        }
    }
}

/// The entries' keys stand in first-occurrence order: folding the pairs keeps
/// each key at the position of its first completion.
pub proof fn lemma_entries_keys_first_seen(ps: Seq<Entry>)
    ensures
        entry_keys(entries_of_pairs(ps)) == first_seen(entry_keys(ps)),
    decreases ps.len(),
{
    if ps.len() == 0 {
        assert(entry_keys(entries_of_pairs(ps)) =~= first_seen(entry_keys(ps)));
    } else {
        let pre = ps.drop_last();
        let p = ps.last();
        lemma_entries_keys_first_seen(pre);
        let e0 = entries_of_pairs(pre);
        lemma_upsert_keys(e0, p.0, p.1);
        lemma_has_key_contains(e0, p.0);
        assert(entry_keys(ps) =~= entry_keys(pre).push(p.0));
        assert(entry_keys(ps).drop_last() =~= entry_keys(pre));
        assert(entry_keys(ps).last() == p.0);
    }
}

/// Entries with pairwise distinct keys are exactly as many as their distinct
/// keys.
pub proof fn lemma_no_dup_len_is_key_count(es: Seq<Entry>)
    requires
        no_dup_keys(es),
    ensures
        es.len() == entry_keys(es).to_set().len(),
{
    assert(entry_keys(es).no_duplicates()) by {
        assert forall|i: int, j: int|
            0 <= i < entry_keys(es).len() && 0 <= j < entry_keys(es).len() && i != j implies
            entry_keys(es)[i] != entry_keys(es)[j] by {
            assert(entry_keys(es)[i] == es[i].0);
            assert(entry_keys(es)[j] == es[j].0);
        }
    }
    entry_keys(es).unique_seq_to_set();
}

} // verus!
