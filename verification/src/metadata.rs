//! A multimap of case-insensitive string keys to string values, analogous to
//! HTTP headers or gRPC metadata.

use vstd::prelude::*;

use crate::keys::{
    ascii_lowercase, lemma_lowercase_idempotent, normalize, normalize_owned, compare_keys, is_ascii_lowercased, key_precedes, lemma_precedes_asymmetric, lemma_precedes_distinct,
    lemma_precedes_transitive, KeyOrder,
};

verus! {

/// The abstract form of one entry: a key and its values, in insertion order.
pub type EntryView = (Seq<char>, Seq<Seq<char>>);

/// The view of a list of strings.
pub open spec fn strings_view(v: Seq<String>) -> Seq<Seq<char>> {
    v.map_values(|s: String| s@)
}

/// The view of one stored entry.
pub open spec fn entry_view(e: (String, Vec<String>)) -> EntryView {
    (e.0@, strings_view(e.1@))
}

/// The view of a list of stored entries.
pub open spec fn entries_view(es: Seq<(String, Vec<String>)>) -> Seq<EntryView> {
    es.map_values(|e: (String, Vec<String>)| entry_view(e))
}

/// The keys of a list of entries, in order.
pub open spec fn entry_keys(es: Seq<EntryView>) -> Seq<Seq<char>> {
    es.map_values(|e: EntryView| e.0)
}

/// Keys in strictly increasing order.
pub open spec fn keys_ascending(ks: Seq<Seq<char>>) -> bool {
    forall|i: int, j: int| 0 <= i < j < ks.len() ==> key_precedes(#[trigger] ks[i], #[trigger] ks[j])
}

/// The shape every stored list of entries keeps: keys strictly ascending and in
/// ASCII lower case, and every key with at least one value.
pub open spec fn entries_wf(es: Seq<EntryView>) -> bool {
    &&& keys_ascending(entry_keys(es))
    &&& forall|i: int| 0 <= i < es.len() ==> is_ascii_lowercased(#[trigger] es[i].0)
    &&& forall|i: int| 0 <= i < es.len() ==> (#[trigger] es[i].1).len() > 0
}

/// The map from each key to its values that a list of entries stands for.
pub open spec fn entries_to_map(es: Seq<EntryView>) -> Map<Seq<char>, Seq<Seq<char>>> {
    Map::new(
        |k: Seq<char>| entry_keys(es).contains(k),
        |k: Seq<char>| es[entry_keys(es).index_of(k)].1,
    )
}

/// The key-value pairs of one key's values, in order.
pub open spec fn pairs_under(k: Seq<char>, vs: Seq<Seq<char>>) -> Seq<(Seq<char>, Seq<char>)> {
    vs.map_values(|v: Seq<char>| (k, v))
}

/// All key-value pairs of a list of entries, flattened in order.
pub open spec fn flatten_entries(es: Seq<EntryView>) -> Seq<(Seq<char>, Seq<char>)>
    decreases es.len(),
{
    if es.len() == 0 {
        Seq::empty()
    } else {
        flatten_entries(es.drop_last()) + pairs_under(es.last().0, es.last().1)
    }
}

/// The map after `insert(key, value)`: the lowercased key bound to just that
/// value.
pub open spec fn map_after_insert(
    m: Map<Seq<char>, Seq<Seq<char>>>,
    key: Seq<char>,
    value: Seq<char>,
) -> Map<Seq<char>, Seq<Seq<char>>> {
    m.insert(ascii_lowercase(key), seq![value])
}

/// The map after `append(key, value)`: the value added after the lowercased
/// key's existing values.
pub open spec fn map_after_append(
    m: Map<Seq<char>, Seq<Seq<char>>>,
    key: Seq<char>,
    value: Seq<char>,
) -> Map<Seq<char>, Seq<Seq<char>>> {
    let k = ascii_lowercase(key);
    m.insert(
        k,
        if m.contains_key(k) {
            m[k].push(value)
        } else {
            seq![value]
        },
    )
}

/// The number of values held by a list of entries.
pub open spec fn total_values(es: Seq<EntryView>) -> nat
    decreases es.len(),
{
    if es.len() == 0 {
        0
    } else {
        total_values(es.drop_last()) + es.last().1.len()
    }
}

/// Flattening yields every value of every key: as many pairs as values.
pub proof fn lemma_flat_count(es: Seq<EntryView>)
    ensures
        flatten_entries(es).len() == total_values(es),
    decreases es.len(),
{
    if es.len() > 0 {
        lemma_flat_count(es.drop_last());
    }
}

/// Keys differing only in ASCII case name one entry: inserting under one and
/// appending under the other leaves a single key with both values, in order.
pub proof fn lemma_case_variants_share_entry(
    m: Map<Seq<char>, Seq<Seq<char>>>,
    k1: Seq<char>,
    v1: Seq<char>,
    k2: Seq<char>,
    v2: Seq<char>,
)
    requires
        ascii_lowercase(k1) == ascii_lowercase(k2),
    ensures
        map_after_append(map_after_insert(m, k1, v1), k2, v2)[ascii_lowercase(k1)] == seq![v1, v2],
        map_after_append(map_after_insert(m, k1, v1), k2, v2).dom() == m.dom().insert(
            ascii_lowercase(k1),
        ),
{
    assert(seq![v1].push(v2) =~= seq![v1, v2]);
    assert(map_after_append(map_after_insert(m, k1, v1), k2, v2).dom() =~= m.dom().insert(
        ascii_lowercase(k1),
    ));
}

/// Inserting replaces every earlier value of the key with the one value.
pub proof fn lemma_insert_replaces(m: Map<Seq<char>, Seq<Seq<char>>>, key: Seq<char>, value: Seq<char>)
    ensures
        map_after_insert(m, key, value)[ascii_lowercase(key)] == seq![value],
{
}

/// Appending keeps the key's earlier values, and its first value, in place.
pub proof fn lemma_append_keeps_earlier(
    m: Map<Seq<char>, Seq<Seq<char>>>,
    key: Seq<char>,
    value: Seq<char>,
)
    requires
        m.contains_key(ascii_lowercase(key)),
        m[ascii_lowercase(key)].len() > 0,
    ensures
        map_after_append(m, key, value)[ascii_lowercase(key)].take(
            m[ascii_lowercase(key)].len() as int,
        ) == m[ascii_lowercase(key)],
        map_after_append(m, key, value)[ascii_lowercase(key)][0] == m[ascii_lowercase(key)][0],
{
    let k = ascii_lowercase(key);
    assert(m[k].push(value).take(m[k].len() as int) =~= m[k]);
}

/// Removing a key drops all of its values and no other key.
pub proof fn lemma_remove_drops_key(m: Map<Seq<char>, Seq<Seq<char>>>, key: Seq<char>)
    ensures
        !m.remove(ascii_lowercase(key)).contains_key(ascii_lowercase(key)),
        m.remove(ascii_lowercase(key)).dom() == m.dom().remove(ascii_lowercase(key)),
{
}

/// Ascending keys are distinct.
pub proof fn lemma_ascending_no_duplicates(ks: Seq<Seq<char>>)
    requires
        keys_ascending(ks),
    ensures
        ks.no_duplicates(),
{
    assert forall|i: int, j: int| 0 <= i < ks.len() && 0 <= j < ks.len() && i != j implies ks[i]
        != ks[j] by {
        if i < j {
            lemma_precedes_distinct(ks[i], ks[j]);
        } else {
            lemma_precedes_distinct(ks[j], ks[i]);
        }
    }
}

/// In a list of entries with distinct keys, each entry's key maps to its values.
pub proof fn lemma_entry_lookup(es: Seq<EntryView>, i: int)
    requires
        entry_keys(es).no_duplicates(),
        0 <= i < es.len(),
    ensures
        entries_to_map(es).contains_key(es[i].0),
        entries_to_map(es)[es[i].0] == es[i].1,
{
    let ks = entry_keys(es);
    assert(ks[i] == es[i].0);
    assert(ks.contains(es[i].0));
    let j = ks.index_of(es[i].0);
    assert(ks[j] == es[i].0);
}

/// A key that no entry has is absent from the map.
pub proof fn lemma_entry_absent(es: Seq<EntryView>, k: Seq<char>)
    requires
        forall|i: int| 0 <= i < es.len() ==> es[i].0 != k,
    ensures
        !entries_to_map(es).contains_key(k),
{
    let ks = entry_keys(es);
    if ks.contains(k) {
        let j = choose|j: int| 0 <= j < ks.len() && ks[j] == k;
        assert(es[j].0 == k);
    }
}

/// Two lists of entries with distinct keys stand for the same map when every
/// key of either is found in the other with the same values.
pub proof fn lemma_entries_map_ext(a: Seq<EntryView>, m: Map<Seq<char>, Seq<Seq<char>>>)
    requires
        entry_keys(a).no_duplicates(),
        forall|i: int| 0 <= i < a.len() ==> #[trigger] m.contains_key(a[i].0) && m[a[i].0] == a[i].1,
        forall|k: Seq<char>| #[trigger] m.contains_key(k) ==> entry_keys(a).contains(k),
    ensures
        entries_to_map(a) == m,
{
    assert forall|k: Seq<char>| #[trigger] entries_to_map(a).contains_key(k) <==> m.contains_key(k) by {
        if entries_to_map(a).contains_key(k) {
            let j = choose|j: int| 0 <= j < entry_keys(a).len() && entry_keys(a)[j] == k;
            assert(a[j].0 == k);
        }
    }
    assert forall|k: Seq<char>| #[trigger] entries_to_map(a).contains_key(k) implies entries_to_map(
        a,
    )[k] == m[k] by {
        let j = choose|j: int| 0 <= j < entry_keys(a).len() && entry_keys(a)[j] == k;
        assert(a[j].0 == k);
        lemma_entry_lookup(a, j);
    }
    assert(entries_to_map(a) =~= m);
}

/// Adding an entry for a new key at its place in the order keeps the entries
/// well formed and adds the key to the map.
pub proof fn lemma_insert_new_entry(es: Seq<EntryView>, p: int, e: EntryView)
    requires
        entries_wf(es),
        0 <= p <= es.len(),
        forall|i: int| 0 <= i < p ==> key_precedes(#[trigger] es[i].0, e.0),
        p < es.len() ==> key_precedes(e.0, es[p].0),
        is_ascii_lowercased(e.0),
        e.1.len() > 0,
    ensures
        entries_wf(es.insert(p, e)),
        entries_to_map(es.insert(p, e)) == entries_to_map(es).insert(e.0, e.1),
{
    let es2 = es.insert(p, e);
    let ks = entry_keys(es);
    let ks2 = entry_keys(es2);
    assert forall|j: int| p < j < es2.len() implies key_precedes(e.0, #[trigger] ks2[j]) by {
        assert(ks2[j] == es[j - 1].0);
        if j - 1 > p {
            assert(key_precedes(ks[p], ks[j - 1]));
            lemma_precedes_transitive(e.0, es[p].0, es[j - 1].0);
        }
    }
    assert forall|i: int, j: int| 0 <= i < j < ks2.len() implies key_precedes(
        #[trigger] ks2[i],
        #[trigger] ks2[j],
    ) by {
        if j < p {
            assert(key_precedes(ks[i], ks[j]));
        } else if j == p {
            assert(key_precedes(es[i].0, e.0));
        } else if i < p {
            assert(key_precedes(es[i].0, e.0));
            assert(key_precedes(e.0, ks2[j]));
            lemma_precedes_transitive(es[i].0, e.0, ks2[j]);
        } else if i == p {
        } else {
            assert(key_precedes(ks[i - 1], ks[j - 1]));
        }
    }
    assert forall|i: int| 0 <= i < es2.len() implies is_ascii_lowercased(#[trigger] es2[i].0) by {
        if i < p {
            assert(es2[i] == es[i]);
        } else if i > p {
            assert(es2[i] == es[i - 1]);
        }
    }
    assert forall|i: int| 0 <= i < es2.len() implies (#[trigger] es2[i].1).len() > 0 by {
        if i < p {
            assert(es2[i] == es[i]);
        } else if i > p {
            assert(es2[i] == es[i - 1]);
        }
    }
    lemma_ascending_no_duplicates(ks);
    lemma_ascending_no_duplicates(ks2);
    let m = entries_to_map(es).insert(e.0, e.1);
    assert forall|i: int| 0 <= i < es2.len() implies #[trigger] m.contains_key(es2[i].0) && m[es2[i].0]
        == es2[i].1 by {
        if i < p {
            assert(es2[i] == es[i]);
            lemma_precedes_distinct(es[i].0, e.0);
            lemma_entry_lookup(es, i);
        } else if i > p {
            assert(es2[i] == es[i - 1]);
            assert(ks2[i] == es2[i].0);
            lemma_precedes_distinct(e.0, es[i - 1].0);
            lemma_entry_lookup(es, i - 1);
        }
    }
    assert forall|k: Seq<char>| #[trigger] m.contains_key(k) implies ks2.contains(k) by {
        if k == e.0 {
            assert(ks2[p] == k);
        } else {
            let j = choose|j: int| 0 <= j < ks.len() && ks[j] == k;
            if j < p {
                assert(ks2[j] == k);
            } else {
                assert(ks2[j + 1] == k);
            }
        }
    }
    lemma_entries_map_ext(es2, m);
}

/// Replacing the values of an entry keeps the entries well formed and rebinds
/// its key in the map.
pub proof fn lemma_replace_entry(es: Seq<EntryView>, p: int, e: EntryView)
    requires
        entries_wf(es),
        0 <= p < es.len(),
        es[p].0 == e.0,
        e.1.len() > 0,
    ensures
        entries_wf(es.update(p, e)),
        entries_to_map(es.update(p, e)) == entries_to_map(es).insert(e.0, e.1),
{
    let es2 = es.update(p, e);
    let ks = entry_keys(es);
    let ks2 = entry_keys(es2);
    assert(ks2 =~= ks);
    assert forall|i: int| 0 <= i < es2.len() implies is_ascii_lowercased(#[trigger] es2[i].0) by {
        if i != p {
            assert(es2[i] == es[i]);
        }
    }
    assert forall|i: int| 0 <= i < es2.len() implies (#[trigger] es2[i].1).len() > 0 by {
        if i != p {
            assert(es2[i] == es[i]);
        }
    }
    lemma_ascending_no_duplicates(ks);
    let m = entries_to_map(es).insert(e.0, e.1);
    assert forall|i: int| 0 <= i < es2.len() implies #[trigger] m.contains_key(es2[i].0) && m[es2[i].0]
        == es2[i].1 by {
        if i != p {
            assert(es2[i] == es[i]);
            assert(ks[i] != ks[p]);
            lemma_entry_lookup(es, i);
        }
    }
    assert forall|k: Seq<char>| #[trigger] m.contains_key(k) implies ks2.contains(k) by {
        if k == e.0 {
            assert(ks2[p] == k);
        } else {
            let j = choose|j: int| 0 <= j < ks.len() && ks[j] == k;
            assert(ks2[j] == k);
        }
    }
    lemma_entries_map_ext(es2, m);
}

/// Dropping an entry keeps the entries well formed and removes its key from
/// the map.
pub proof fn lemma_remove_entry(es: Seq<EntryView>, p: int)
    requires
        entries_wf(es),
        0 <= p < es.len(),
    ensures
        entries_wf(es.remove(p)),
        entries_to_map(es.remove(p)) == entries_to_map(es).remove(es[p].0),
{
    let es2 = es.remove(p);
    let ks = entry_keys(es);
    let ks2 = entry_keys(es2);
    assert(ks2 =~= ks.remove(p));
    assert forall|i: int, j: int| 0 <= i < j < ks2.len() implies key_precedes(
        #[trigger] ks2[i],
        #[trigger] ks2[j],
    ) by {
        let i0 = if i < p { i } else { i + 1 };
        let j0 = if j < p { j } else { j + 1 };
        assert(key_precedes(ks[i0], ks[j0]));
    }
    assert forall|i: int| 0 <= i < es2.len() implies is_ascii_lowercased(#[trigger] es2[i].0) by {
        if i >= p {
            assert(es2[i] == es[i + 1]);
        }
    }
    assert forall|i: int| 0 <= i < es2.len() implies (#[trigger] es2[i].1).len() > 0 by {
        if i >= p {
            assert(es2[i] == es[i + 1]);
        }
    }
    lemma_ascending_no_duplicates(ks);
    lemma_ascending_no_duplicates(ks2);
    let m = entries_to_map(es).remove(es[p].0);
    assert forall|i: int| 0 <= i < es2.len() implies #[trigger] m.contains_key(es2[i].0) && m[es2[i].0]
        == es2[i].1 by {
        let i0 = if i < p { i } else { i + 1 };
        assert(es2[i] == es[i0]);
        assert(ks[i0] != ks[p]);
        lemma_entry_lookup(es, i0);
    }
    assert forall|k: Seq<char>| #[trigger] m.contains_key(k) implies ks2.contains(k) by {
        let j = choose|j: int| 0 <= j < ks.len() && ks[j] == k;
        assert(j != p);
        if j < p {
            assert(ks2[j] == k);
        } else {
            assert(ks2[j - 1] == k);
        }
    }
    lemma_entries_map_ext(es2, m);
}

/// A key at its place in ascending entries, between those before `p` and the
/// one at `p`, is a key that no entry has; adding it there keeps the entries
/// well formed and adds it to the map.
pub proof fn lemma_add_new_key(es: Seq<EntryView>, p: int, e: EntryView)
    requires
        entries_wf(es),
        0 <= p <= es.len(),
        forall|i: int| 0 <= i < p ==> key_precedes(#[trigger] es[i].0, e.0),
        p < es.len() ==> key_precedes(e.0, es[p].0),
        is_ascii_lowercased(e.0),
        e.1.len() > 0,
    ensures
        !entries_to_map(es).contains_key(e.0),
        entries_wf(es.insert(p, e)),
        entries_to_map(es.insert(p, e)) == entries_to_map(es).insert(e.0, e.1),
{
    lemma_insert_new_entry(es, p, e);
    assert forall|i: int| 0 <= i < es.len() implies es[i].0 != e.0 by {
        if i < p {
            lemma_precedes_distinct(es[i].0, e.0);
        } else {
            if i > p {
                assert(key_precedes(entry_keys(es)[p], entry_keys(es)[i]));
                lemma_precedes_transitive(e.0, es[p].0, es[i].0);
            }
            lemma_precedes_distinct(e.0, es[i].0);
        }
    }
    lemma_entry_absent(es, e.0);
}

/// Well-formed entries are determined by the map they stand for: two lists of
/// ascending entries with the same map are the same list.
pub proof fn lemma_entries_determined(a: Seq<EntryView>, b: Seq<EntryView>)
    requires
        entries_wf(a),
        entries_wf(b),
        entries_to_map(a) == entries_to_map(b),
    ensures
        a == b,
    decreases a.len(),
{
    lemma_ascending_no_duplicates(entry_keys(a));
    lemma_ascending_no_duplicates(entry_keys(b));
    if a.len() == 0 {
        if b.len() > 0 {
            lemma_entry_lookup(b, 0);
            assert(entry_keys(a).len() == 0);
        }
        assert(a =~= b);
    } else {
        if b.len() == 0 {
            lemma_entry_lookup(a, 0);
            assert(entry_keys(b).len() == 0);
        }
        let na = a.len() - 1;
        let nb = b.len() - 1;
        let la = a[na].0;
        let lb = b[nb].0;
        lemma_entry_lookup(a, na);
        lemma_entry_lookup(b, nb);
        let ka = entry_keys(a);
        let kb = entry_keys(b);
        let j = choose|j: int| 0 <= j < kb.len() && kb[j] == la;
        let i = choose|i: int| 0 <= i < ka.len() && ka[i] == lb;
        if la != lb {
            assert(j != nb);
            assert(i != na);
            assert(key_precedes(kb[j], kb[nb]));
            assert(key_precedes(ka[i], ka[na]));
            lemma_precedes_asymmetric(la, lb);
        }
        lemma_remove_entry(a, na);
        lemma_remove_entry(b, nb);
        lemma_entries_determined(a.remove(na), b.remove(nb));
        assert(a.remove(na).push(a[na]) =~= a);
        assert(b.remove(nb).push(b[nb]) =~= b);
    }
}

/// A list of entries with distinct keys has as many keys in its map as entries.
pub proof fn lemma_map_size(es: Seq<EntryView>)
    requires
        entry_keys(es).no_duplicates(),
    ensures
        entries_to_map(es).dom() == entry_keys(es).to_set(),
        entries_to_map(es).dom().len() == es.len(),
{
    assert(entries_to_map(es).dom() =~= entry_keys(es).to_set());
    entry_keys(es).unique_seq_to_set();
}

/// A multimap of string keys to string values, analogous to HTTP headers or
/// gRPC metadata. Keys are case-insensitive ASCII, stored lowercased, and kept
/// in ascending order; the values of a key keep the order they were added in.
/// Binary (`-bin`) metadata should be base64; encoding and decoding it is up to
/// the user.
///
/// The entries are a `Vec` kept in ascending key order with distinct keys (the
/// invariant below) rather than a `BTreeMap<String, _>`: vstd's contracts for
/// `BTreeMap` hold only for key types whose `Ord` it models, the integers, so
/// with `String` keys they would say nothing of what the map holds.
#[derive(Debug)]
pub struct MetadataMap {
    entries: Vec<(String, Vec<String>)>,
}

impl MetadataMap {
    #[verifier::type_invariant]
    spec fn well_formed(self) -> bool {
        entries_wf(entries_view(self.entries@))
    }

    /// The entries in ascending key order.
    pub closed spec fn ordered_entries(self) -> Seq<EntryView> {
        entries_view(self.entries@)
    }
}

impl View for MetadataMap {
    type V = Map<Seq<char>, Seq<Seq<char>>>;

    open spec fn view(&self) -> Map<Seq<char>, Seq<Seq<char>>> {
        entries_to_map(self.ordered_entries())
    }
}

impl MetadataMap {
    pub fn new() -> (m: MetadataMap)
        ensures
            m@ == Map::<Seq<char>, Seq<Seq<char>>>::empty(),
            m.ordered_entries().len() == 0,
    {
        let m = MetadataMap { entries: Vec::new() };
        assert(m@ =~= Map::<Seq<char>, Seq<Seq<char>>>::empty());
        m
    }

    /// Inserts a value, replacing all existing values for this key. Returns the
    /// previous values, if any.
    pub fn insert(&mut self, key: &str, value: &str) -> (r: Option<Vec<String>>)
        ensures
            final(self)@ == map_after_insert(old(self)@, key@, value@),
            r is None <==> !old(self)@.contains_key(ascii_lowercase(key@)),
            r matches Some(vs) ==> strings_view(vs@) == old(self)@[ascii_lowercase(key@)],
    {
        proof {
            use_type_invariant(&*self);
        }
        let k = normalize(key);
        let mut es: Vec<(String, Vec<String>)> = Vec::new();
        std::mem::swap(&mut es, &mut self.entries);
        let ghost old_es = entries_view(es@);
        let (p, found) = locate(&es, &k);
        let mut vals: Vec<String> = Vec::new();
        vals.push(value.to_owned());
        let ghost e: EntryView = (k@, seq![value@]);
        assert(strings_view(vals@) =~= seq![value@]);
        proof {
            lemma_lowercase_idempotent(key@);
            lemma_ascending_no_duplicates(entry_keys(old_es));
        }
        let r = if found {
            let (_, prev) = es.remove(p);
            es.insert(p, (k, vals));
            proof {
                assert(entries_view(es@) =~= old_es.update(p as int, e));
                lemma_replace_entry(old_es, p as int, e);
                lemma_entry_lookup(old_es, p as int);
            }
            Some(prev)
        } else {
            es.insert(p, (k, vals));
            proof {
                assert(entries_view(es@) =~= old_es.insert(p as int, e));
                lemma_add_new_key(old_es, p as int, e);
            }
            None
        };
        self.entries = es;
        r
    }

    /// Appends a value to the given key without removing existing values.
    pub fn append(&mut self, key: &str, value: &str)
        ensures
            final(self)@ == map_after_append(old(self)@, key@, value@),
            entries_wf(final(self).ordered_entries()),
    {
        proof {
            use_type_invariant(&*self);
        }
        let k = normalize(key);
        let mut es: Vec<(String, Vec<String>)> = Vec::new();
        std::mem::swap(&mut es, &mut self.entries);
        let ghost old_es = entries_view(es@);
        let (p, found) = locate(&es, &k);
        proof {
            lemma_lowercase_idempotent(key@);
            lemma_ascending_no_duplicates(entry_keys(old_es));
        }
        if found {
            let (_, mut vals) = es.remove(p);
            let ghost prev = strings_view(vals@);
            vals.push(value.to_owned());
            let ghost e: EntryView = (k@, prev.push(value@));
            assert(strings_view(vals@) =~= prev.push(value@));
            es.insert(p, (k, vals));
            proof {
                assert(old_es[p as int].1 == prev);
                assert(entries_view(es@) =~= old_es.update(p as int, e));
                lemma_replace_entry(old_es, p as int, e);
                lemma_entry_lookup(old_es, p as int);
            }
        } else {
            let mut vals: Vec<String> = Vec::new();
            vals.push(value.to_owned());
            let ghost e: EntryView = (k@, seq![value@]);
            assert(strings_view(vals@) =~= seq![value@]);
            es.insert(p, (k, vals));
            proof {
                assert(entries_view(es@) =~= old_es.insert(p as int, e));
                lemma_add_new_key(old_es, p as int, e);
            }
        }
        self.entries = es;
    }

    /// The index of the entry for a key, if there is one.
    fn find(&self, k: &String) -> (r: Option<usize>)
        ensures
            r matches Some(i) ==> i < self.ordered_entries().len() && self.ordered_entries()[i as int].0
                == k@,
            r is None ==> forall|i: int|
                0 <= i < self.ordered_entries().len() ==> self.ordered_entries()[i].0 != k@,
    {
        let n = self.entries.len();
        let mut i: usize = 0;
        while i < n
            invariant
                n == self.entries.len(),
                i <= n,
                forall|j: int| 0 <= j < i ==> self.ordered_entries()[j].0 != k@,
            decreases n - i,
        {
            if self.entries[i].0 == *k {
                return Some(i);
            }
            i = i + 1;
        }
        None
    }

    /// Gets the first value for a key.
    pub fn get_first(&self, key: &str) -> (r: Option<&str>)
        ensures
            r is Some <==> self@.contains_key(ascii_lowercase(key@)),
            r matches Some(v) ==> v@ == self@[ascii_lowercase(key@)][0],
    {
        proof {
            use_type_invariant(self);
            lemma_ascending_no_duplicates(entry_keys(self.ordered_entries()));
        }
        let k = normalize(key);
        match self.find(&k) {
            Some(i) => {
                proof {
                    lemma_entry_lookup(self.ordered_entries(), i as int);
                }
                Some(self.entries[i].1[0].as_str())
            },
            None => {
                proof {
                    lemma_entry_absent(self.ordered_entries(), k@);
                }
                None
            },
        }
    }

    /// Gets all values for a key, in the order they were added; none for an
    /// absent key.
    pub fn get_all(&self, key: &str) -> (r: &[String])
        ensures
            strings_view(r@) == if self@.contains_key(ascii_lowercase(key@)) {
                self@[ascii_lowercase(key@)]
            } else {
                Seq::<Seq<char>>::empty()
            },
    {
        proof {
            use_type_invariant(self);
            lemma_ascending_no_duplicates(entry_keys(self.ordered_entries()));
        }
        let k = normalize(key);
        match self.find(&k) {
            Some(i) => {
                proof {
                    lemma_entry_lookup(self.ordered_entries(), i as int);
                }
                self.entries[i].1.as_slice()
            },
            None => {
                proof {
                    lemma_entry_absent(self.ordered_entries(), k@);
                }
                let none: &[String] = &[];
                assert(strings_view(none@) =~= Seq::<Seq<char>>::empty());
                none
            },
        }
    }

    /// Removes all values for a key, returning them.
    pub fn remove(&mut self, key: &str) -> (r: Option<Vec<String>>)
        ensures
            final(self)@ == old(self)@.remove(ascii_lowercase(key@)),
            r is None <==> !old(self)@.contains_key(ascii_lowercase(key@)),
            r matches Some(vs) ==> strings_view(vs@) == old(self)@[ascii_lowercase(key@)],
    {
        proof {
            use_type_invariant(&*self);
            lemma_ascending_no_duplicates(entry_keys(self.ordered_entries()));
        }
        let k = normalize(key);
        match self.find(&k) {
            Some(i) => {
                let mut es: Vec<(String, Vec<String>)> = Vec::new();
                std::mem::swap(&mut es, &mut self.entries);
                let ghost old_es = entries_view(es@);
                let (_, prev) = es.remove(i);
                proof {
                    assert(entries_view(es@) =~= old_es.remove(i as int));
                    lemma_remove_entry(old_es, i as int);
                    lemma_entry_lookup(old_es, i as int);
                }
                self.entries = es;
                Some(prev)
            },
            None => {
                proof {
                    lemma_entry_absent(self.ordered_entries(), k@);
                    assert(self@.remove(k@) =~= self@);
                }
                None
            },
        }
    }

    /// Whether the map holds no key.
    pub fn is_empty(&self) -> (r: bool)
        ensures
            r <==> self@.dom().len() == 0,
            r <==> self.ordered_entries().len() == 0,
    {
        proof {
            use_type_invariant(self);
            lemma_ascending_no_duplicates(entry_keys(self.ordered_entries()));
            lemma_map_size(self.ordered_entries());
        }
        self.entries.len() == 0
    }

    /// The number of keys.
    pub fn len(&self) -> (r: usize)
        ensures
            r == self@.dom().len(),
            r == self.ordered_entries().len(),
    {
        proof {
            use_type_invariant(self);
            lemma_ascending_no_duplicates(entry_keys(self.ordered_entries()));
            lemma_map_size(self.ordered_entries());
        }
        self.entries.len()
    }

    /// All keys with their values, in ascending key order. Keys are lowercased.
    pub fn iter(&self) -> (r: Vec<(String, Vec<String>)>)
        ensures
            entries_wf(self.ordered_entries()),
            entries_view(r@) == self.ordered_entries(),
    {
        proof {
            use_type_invariant(self);
        }
        let n = self.entries.len();
        let mut out: Vec<(String, Vec<String>)> = Vec::new();
        let mut i: usize = 0;
        while i < n
            invariant
                n == self.entries.len(),
                i <= n,
                entries_view(out@) =~= self.ordered_entries().take(i as int),
            decreases n - i,
        {
            let key = self.entries[i].0.clone();
            let vals = clone_strings(&self.entries[i].1);
            out.push((key, vals));
            proof {
                assert(self.ordered_entries().take(i + 1) =~= self.ordered_entries().take(
                    i as int,
                ).push(self.ordered_entries()[i as int]));
            }
            i = i + 1;
        }
        assert(self.ordered_entries().take(n as int) =~= self.ordered_entries());
        out
    }

    /// Every individual key-value pair, flattened: keys in ascending order, and
    /// the values of a key in the order they were added. Keys are lowercased.
    pub fn iter_flat(&self) -> (r: Vec<(String, String)>)
        ensures
            entries_wf(self.ordered_entries()),
            pairs_view(r@) == flatten_entries(self.ordered_entries()),
    {
        proof {
            use_type_invariant(self);
        }
        let n = self.entries.len();
        let mut out: Vec<(String, String)> = Vec::new();
        let mut i: usize = 0;
        while i < n
            invariant
                n == self.entries.len(),
                i <= n,
                pairs_view(out@) =~= flatten_entries(self.ordered_entries().take(i as int)),
            decreases n - i,
        {
            let vals = &self.entries[i].1;
            let m = vals.len();
            let ghost before = pairs_view(out@);
            let ghost e = self.ordered_entries()[i as int];
            let mut j: usize = 0;
            while j < m
                invariant
                    n == self.entries.len(),
                    i < n,
                    vals == &self.entries[i as int].1,
                    m == vals.len(),
                    j <= m,
                    e == self.ordered_entries()[i as int],
                    pairs_view(out@) =~= before + pairs_under(e.0, e.1.take(j as int)),
                decreases m - j,
            {
                let kc = self.entries[i].0.clone();
                let vc = vals[j].clone();
                proof {
                    assert(kc@ == e.0);
                    assert(vc@ == e.1[j as int]);
                }
                let ghost prev_out = out@;
                out.push((kc, vc));
                proof {
                    assert(pairs_view(out@) =~= pairs_view(prev_out).push((kc@, vc@)));
                    assert(pairs_under(e.0, e.1.take(j + 1)) =~= pairs_under(e.0, e.1.take(j as int)).push(
                        (e.0, e.1[j as int]),
                    ));
                }
                j = j + 1;
            }
            proof {
                let t = self.ordered_entries().take(i + 1);
                assert(t.drop_last() =~= self.ordered_entries().take(i as int));
                assert(e.1.take(m as int) =~= e.1);
            }
            i = i + 1;
        }
        assert(self.ordered_entries().take(n as int) =~= self.ordered_entries());
        out
    }

    /// The keys, in ascending order. Keys are lowercased.
    pub fn keys(&self) -> (r: Vec<String>)
        ensures
            entries_wf(self.ordered_entries()),
            strings_view(r@) == entry_keys(self.ordered_entries()),
    {
        proof {
            use_type_invariant(self);
        }
        let n = self.entries.len();
        let mut out: Vec<String> = Vec::new();
        let mut i: usize = 0;
        while i < n
            invariant
                n == self.entries.len(),
                i <= n,
                strings_view(out@) =~= entry_keys(self.ordered_entries()).take(i as int),
            decreases n - i,
        {
            let c = self.entries[i].0.clone();
            proof {
                assert(c@ == self.ordered_entries()[i as int].0);
            }
            out.push(c);
            proof {
                let ks = entry_keys(self.ordered_entries());
                assert(strings_view(out@) =~= ks.take(i as int).push(c@));
                assert(ks.take(i + 1) =~= ks.take(i as int).push(c@));
            }
            i = i + 1;
        }
        out
    }

    /// Removes every key.
    pub fn clear(&mut self)
        ensures
            final(self)@ == Map::<Seq<char>, Seq<Seq<char>>>::empty(),
            final(self).ordered_entries().len() == 0,
    {
        self.entries = Vec::new();
        assert(self@ =~= Map::<Seq<char>, Seq<Seq<char>>>::empty());
    }
}

impl Clone for MetadataMap {
    fn clone(&self) -> (r: MetadataMap)
        ensures
            r.ordered_entries() == self.ordered_entries(),
            r@ == self@,
    {
        MetadataMap { entries: self.iter() }
    }
}

impl Default for MetadataMap {
    fn default() -> (m: MetadataMap)
        ensures
            m@ == Map::<Seq<char>, Seq<Seq<char>>>::empty(),
    {
        MetadataMap::new()
    }
}

/// The view of a list of key-value string pairs.
pub open spec fn pairs_view(ps: Seq<(String, String)>) -> Seq<(Seq<char>, Seq<char>)> {
    ps.map_values(|p: (String, String)| (p.0@, p.1@))
}

/// A copy of a list of strings.
fn clone_strings(v: &Vec<String>) -> (r: Vec<String>)
    ensures
        strings_view(r@) == strings_view(v@),
{
    let n = v.len();
    let mut out: Vec<String> = Vec::new();
    let mut i: usize = 0;
    while i < n
        invariant
            n == v.len(),
            i <= n,
            strings_view(out@) =~= strings_view(v@).take(i as int),
        decreases n - i,
    {
        let c = v[i].clone();
        proof {
            assert(c@ == v@[i as int]@);
        }
        out.push(c);
        proof {
            assert(strings_view(out@) =~= strings_view(v@).take(i as int).push(c@));
            assert(strings_view(v@).take(i + 1) =~= strings_view(v@).take(i as int).push(c@));
        }
        i = i + 1;
    }
    out
}

/// Where a key stands in a list of entries with ascending keys.
fn locate(es: &Vec<(String, Vec<String>)>, k: &String) -> (r: (usize, bool))
    requires
        keys_ascending(entry_keys(entries_view(es@))),
    ensures
        r.0 <= es.len(),
        forall|i: int| 0 <= i < r.0 ==> key_precedes(#[trigger] es@[i].0@, k@),
        r.1 ==> r.0 < es.len() && es@[r.0 as int].0@ == k@,
        !r.1 ==> (r.0 < es.len() ==> key_precedes(k@, es@[r.0 as int].0@)),
{
    let n = es.len();
    let mut i: usize = 0;
    while i < n
        invariant
            n == es.len(),
            i <= n,
            forall|j: int| 0 <= j < i ==> key_precedes(#[trigger] es@[j].0@, k@),
        decreases n - i,
    {
        let o = compare_keys(es[i].0.as_str(), k.as_str());
        match o {
            KeyOrder::Less => {},
            KeyOrder::Equal => {
                return (i, true);
            },
            KeyOrder::Greater => {
                return (i, false);
            },
        }
        i = i + 1;
    }
    (i, false)
}

} // verus!
