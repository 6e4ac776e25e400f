//! The memory tool: notes kept in a key-value store for the session.
//!
//! The store keeps its entries in ascending key order, so that listing the
//! keys needs no sort; its content is a map from key to value.

use vstd::prelude::*;

use crate::json::{json_view, JsonValue, JsonView};
use crate::schema::{enum_prop, enum_property, member, object_schema, object_schema_of, props_view, typed_prop, typed_property};
use crate::text::{
    chars_eq, chars_less, chars_of, concat_str, decimal, extend_str, join3,
    lemma_seq_less_irreflexive, lemma_seq_less_total, lemma_seq_less_transitive, push_decimal,
    seq_less, str_eq, string_of,
};
use crate::tools::{opt_text, result_is, str_arg, string_arg, ToolResult};

verus! {

broadcast use vstd::string::group_string_axioms;

/// Entries as text: (key, value) pairs.
pub type Entries = Seq<(Seq<char>, Seq<char>)>;

/// Some entry of `e` has the key `k`.
pub open spec fn has_key(e: Entries, k: Seq<char>) -> bool {
    exists|i: int| 0 <= i < e.len() && (#[trigger] e[i]).0 == k
}

/// The position of an entry keyed `k` (meaningful when there is one).
pub open spec fn key_pos(e: Entries, k: Seq<char>) -> int {
    choose|i: int| 0 <= i < e.len() && (#[trigger] e[i]).0 == k
}

/// The map the entries stand for.
pub open spec fn entries_map(e: Entries) -> Map<Seq<char>, Seq<char>> {
    Map::new(|k: Seq<char>| has_key(e, k), |k: Seq<char>| e[key_pos(e, k)].1)
}

/// The keys of `e` strictly ascend.
pub open spec fn ascending(e: Entries) -> bool {
    forall|a: int, b: int| #![trigger e[a], e[b]] 0 <= a < b < e.len() ==> seq_less(e[a].0, e[b].0)
}

/// The keys of `e`, in order.
pub open spec fn keys_of(e: Entries) -> Seq<Seq<char>> {
    e.map_values(|p: (Seq<char>, Seq<char>)| p.0)
}

/// In ascending entries, a key occurs once.
proof fn lemma_key_unique(e: Entries, i: int, j: int)
    requires
        ascending(e),
        0 <= i < e.len(),
        0 <= j < e.len(),
        e[i].0 == e[j].0,
    ensures
        i == j,
{
    if i < j {
        lemma_seq_less_irreflexive(e[i].0);
        assert(seq_less(e[i].0, e[j].0));
    } else if j < i {
        lemma_seq_less_irreflexive(e[i].0);
        assert(seq_less(e[j].0, e[i].0));
    }
}

/// In ascending entries, the map gives each entry's value for its key.
proof fn lemma_value_at(e: Entries, i: int)
    requires
        ascending(e),
        0 <= i < e.len(),
    ensures
        entries_map(e).dom().contains(e[i].0),
        entries_map(e)[e[i].0] == e[i].1,
        key_pos(e, e[i].0) == i,
{
    assert(has_key(e, e[i].0));
    let p = key_pos(e, e[i].0);
    lemma_key_unique(e, p, i);
}

/// Replacing the value of the entry at `i` sets its key to `v`.
proof fn lemma_replace(e: Entries, i: int, v: Seq<char>)
    requires
        ascending(e),
        0 <= i < e.len(),
    ensures
        ascending(e.update(i, (e[i].0, v))),
        entries_map(e.update(i, (e[i].0, v))) == entries_map(e).insert(e[i].0, v),
{
    let k = e[i].0;
    let e2 = e.update(i, (k, v));
    assert forall|a: int, b: int| #![trigger e2[a], e2[b]] 0 <= a < b < e2.len() implies seq_less(
        e2[a].0,
        e2[b].0,
    ) by {
        assert(e2[a].0 == e[a].0 && e2[b].0 == e[b].0);
        assert(seq_less(e[a].0, e[b].0));
    }
    lemma_value_at(e2, i);
    assert forall|x: Seq<char>| has_key(e2, x) <==> has_key(e, x) by {
        if has_key(e2, x) {
            let j = choose|j: int| 0 <= j < e2.len() && (#[trigger] e2[j]).0 == x;
            assert(e[j].0 == x);
        }
        if has_key(e, x) {
            let j = choose|j: int| 0 <= j < e.len() && (#[trigger] e[j]).0 == x;
            assert(e2[j].0 == x);
        }
    }
    assert forall|x: Seq<char>| #[trigger] entries_map(e2).dom().contains(x) && x != k implies entries_map(e2)[x]
        == entries_map(e)[x] by {
        let j = key_pos(e2, x);
        assert(e2[j].0 == x);
        assert(j != i);
        assert(e[j] == e2[j]);
        lemma_value_at(e, j);
        lemma_value_at(e2, j);
    }
    lemma_value_at(e, i);
    assert(entries_map(e2) =~= entries_map(e).insert(k, v));
}

/// Inserting an entry keyed `k` at `p`, between the keys below and above
/// it, adds `k` with `v` to the map.
proof fn lemma_insert(e: Entries, p: int, k: Seq<char>, v: Seq<char>)
    requires
        ascending(e),
        0 <= p <= e.len(),
        p > 0 ==> seq_less(e[p - 1].0, k),
        p < e.len() ==> seq_less(k, e[p].0),
    ensures
        !has_key(e, k),
        ascending(e.insert(p, (k, v))),
        entries_map(e.insert(p, (k, v))) == entries_map(e).insert(k, v),
{
    let e2 = e.insert(p, (k, v));
    // Every key below `p` is below `k`, every key from `p` on above it.
    assert forall|j: int| 0 <= j < p implies seq_less(#[trigger] e[j].0, k) by {
        if j < p - 1 {
            assert(seq_less(e[j].0, e[p - 1].0));
            lemma_seq_less_transitive(e[j].0, e[p - 1].0, k);
        }
    }
    assert forall|j: int| p <= j < e.len() implies seq_less(k, #[trigger] e[j].0) by {
        if j > p {
            assert(seq_less(e[p].0, e[j].0));
            lemma_seq_less_transitive(k, e[p].0, e[j].0);
        }
    }
    if has_key(e, k) {
        let j = choose|j: int| 0 <= j < e.len() && (#[trigger] e[j]).0 == k;
        lemma_seq_less_irreflexive(k);
        if j < p {
            assert(seq_less(e[j].0, k));
        } else {
            assert(seq_less(k, e[j].0));
        }
    }
    assert forall|a: int, b: int| #![trigger e2[a], e2[b]] 0 <= a < b < e2.len() implies seq_less(
        e2[a].0,
        e2[b].0,
    ) by {
        if b < p {
            assert(e2[a] == e[a] && e2[b] == e[b]);
            assert(seq_less(e[a].0, e[b].0));
        } else if b == p {
            assert(e2[a] == e[a]);
            assert(seq_less(e[a].0, k));
        } else if a < p {
            assert(e2[a] == e[a] && e2[b] == e[b - 1]);
            assert(seq_less(e[a].0, k));
            assert(seq_less(k, e[b - 1].0));
            lemma_seq_less_transitive(e[a].0, k, e[b - 1].0);
        } else if a == p {
            assert(e2[b] == e[b - 1]);
            assert(seq_less(k, e[b - 1].0));
        } else {
            assert(e2[a] == e[a - 1] && e2[b] == e[b - 1]);
            assert(seq_less(e[a - 1].0, e[b - 1].0));
        }
    }
    lemma_value_at(e2, p);
    assert forall|x: Seq<char>| has_key(e2, x) <==> (has_key(e, x) || x == k) by {
        if has_key(e2, x) {
            let j = choose|j: int| 0 <= j < e2.len() && (#[trigger] e2[j]).0 == x;
            if j < p {
                assert(e[j].0 == x);
            } else if j > p {
                assert(e[j - 1].0 == x);
            }
        }
        if has_key(e, x) {
            let j = choose|j: int| 0 <= j < e.len() && (#[trigger] e[j]).0 == x;
            if j < p {
                assert(e2[j].0 == x);
            } else {
                assert(e2[j + 1].0 == x);
            }
        }
    }
    assert forall|x: Seq<char>| #[trigger] entries_map(e2).dom().contains(x) && x != k implies entries_map(e2)[x]
        == entries_map(e)[x] by {
        let j = key_pos(e2, x);
        assert(e2[j].0 == x);
        lemma_value_at(e2, j);
        if j < p {
            assert(e2[j] == e[j]);
            lemma_value_at(e, j);
        } else {
            assert(j != p);
            assert(e2[j] == e[j - 1]);
            lemma_value_at(e, j - 1);
        }
    }
    assert(entries_map(e2) =~= entries_map(e).insert(k, v));
}

/// Removing the entry at `i` removes its key from the map.
proof fn lemma_remove(e: Entries, i: int)
    requires
        ascending(e),
        0 <= i < e.len(),
    ensures
        ascending(e.remove(i)),
        entries_map(e.remove(i)) == entries_map(e).remove(e[i].0),
{
    let k = e[i].0;
    let e2 = e.remove(i);
    assert forall|a: int, b: int| #![trigger e2[a], e2[b]] 0 <= a < b < e2.len() implies seq_less(
        e2[a].0,
        e2[b].0,
    ) by {
        let a1 = if a < i { a } else { a + 1 };
        let b1 = if b < i { b } else { b + 1 };
        assert(e2[a] == e[a1] && e2[b] == e[b1]);
        assert(seq_less(e[a1].0, e[b1].0));
    }
    assert forall|x: Seq<char>| has_key(e2, x) <==> (has_key(e, x) && x != k) by {
        if has_key(e2, x) {
            let j = choose|j: int| 0 <= j < e2.len() && (#[trigger] e2[j]).0 == x;
            let j1 = if j < i { j } else { j + 1 };
            assert(e[j1].0 == x);
            if x == k {
                lemma_key_unique(e, j1, i);
            }
        }
        if has_key(e, x) && x != k {
            let j = choose|j: int| 0 <= j < e.len() && (#[trigger] e[j]).0 == x;
            assert(j != i);
            if j < i {
                assert(e2[j].0 == x);
            } else {
                assert(e2[j - 1].0 == x);
            }
        }
    }
    assert forall|x: Seq<char>| #[trigger] entries_map(e2).dom().contains(x) implies entries_map(e2)[x]
        == entries_map(e)[x] by {
        let j = key_pos(e2, x);
        assert(e2[j].0 == x);
        lemma_value_at(e2, j);
        let j1 = if j < i { j } else { j + 1 };
        assert(e2[j] == e[j1]);
        lemma_value_at(e, j1);
    }
    assert(entries_map(e2) =~= entries_map(e).remove(k));
}

/// A key that sorts strictly between the keys below `i` and the key at
/// `i` is not in ascending entries.
proof fn lemma_absent(e: Entries, k: Seq<char>, i: int)
    requires
        ascending(e),
        0 <= i <= e.len(),
        forall|j: int| 0 <= j < i ==> seq_less(#[trigger] e[j].0, k),
        i < e.len() ==> seq_less(k, e[i].0),
    ensures
        !has_key(e, k),
        !entries_map(e).dom().contains(k),
{
    if has_key(e, k) {
        let j = choose|j: int| 0 <= j < e.len() && (#[trigger] e[j]).0 == k;
        lemma_seq_less_irreflexive(k);
        if j < i {
            assert(seq_less(e[j].0, k));
        } else if j == i {
            assert(seq_less(k, e[i].0));
        } else {
            assert(seq_less(e[i].0, e[j].0));
            lemma_seq_less_transitive(k, e[i].0, e[j].0);
        }
    }
}

/// The keys of ascending entries are the map's keys, each once, ascending.
proof fn lemma_keys(e: Entries)
    requires
        ascending(e),
    ensures
        keys_of(e).to_set() == entries_map(e).dom(),
        keys_of(e).no_duplicates(),
        keys_of(e).len() == entries_map(e).dom().len(),
{
    let ks = keys_of(e);
    assert forall|x: Seq<char>| ks.to_set().contains(x) <==> entries_map(e).dom().contains(x) by {
        if ks.to_set().contains(x) {
            let j = choose|j: int| 0 <= j < ks.len() && ks[j] == x;
            assert(e[j].0 == x);
        }
        if entries_map(e).dom().contains(x) {
            let j = choose|j: int| 0 <= j < e.len() && (#[trigger] e[j]).0 == x;
            assert(ks[j] == x);
        }
    }
    assert(ks.to_set() =~= entries_map(e).dom());
    assert forall|a: int, b: int| 0 <= a < ks.len() && 0 <= b < ks.len() && a != b implies ks[a] != ks[b] by {
        if ks[a] == ks[b] {
            lemma_key_unique(e, a, b);
        }
    }
    ks.unique_seq_to_set();
}

/// The notes of a session, kept in ascending key order.
pub struct MemoryStore {
    entries: Vec<(String, String)>,
}

pub open spec fn entries_view(v: Seq<(String, String)>) -> Entries {
    v.map_values(|p: (String, String)| (p.0@, p.1@))
}

impl MemoryStore {
    #[verifier::type_invariant]
    spec fn ordered(self) -> bool {
        ascending(entries_view(self.entries@))
    }

    /// The entries, in ascending key order.
    pub closed spec fn entries(self) -> Entries {
        entries_view(self.entries@)
    }

    /// The keys, in ascending order.
    pub open spec fn keys_in_order(self) -> Seq<Seq<char>> {
        keys_of(self.entries())
    }
}

impl View for MemoryStore {
    type V = Map<Seq<char>, Seq<char>>;

    open spec fn view(&self) -> Map<Seq<char>, Seq<char>> {
        entries_map(self.entries())
    }
}

impl MemoryStore {
    /// An empty store.
    pub fn new() -> (s: Self)
        ensures
            s@ == Map::<Seq<char>, Seq<char>>::empty(),
    {
        let s = MemoryStore { entries: Vec::new() };
        assert(s@ =~= Map::<Seq<char>, Seq<char>>::empty());
        s
    }

    /// Where `key` is, or where it would go: the first position whose key
    /// does not sort below it.
    fn position(&self, key: &str) -> (r: (usize, bool))
        ensures
            r.0 <= self.entries().len(),
            forall|j: int| 0 <= j < r.0 ==> seq_less(#[trigger] self.entries()[j].0, key@),
            r.1 == (r.0 < self.entries().len() && self.entries()[r.0 as int].0 == key@),
            r.0 < self.entries().len() && !r.1 ==> seq_less(key@, self.entries()[r.0 as int].0),
    {
        let k = chars_of(key);
        let mut i: usize = 0;
        while i < self.entries.len()
            invariant
                i <= self.entries.len(),
                k@ == key@,
                forall|j: int| 0 <= j < i ==> seq_less(#[trigger] entries_view(self.entries@)[j].0, key@),
            decreases self.entries.len() - i,
        {
            let name = chars_of(self.entries[i].0.as_str());
            if !chars_less(&name, &k) {
                let same = str_eq(self.entries[i].0.as_str(), key);
                proof {
                    if !same {
                        lemma_seq_less_total(name@, k@);
                    }
                }
                return (i, same);
            }
            i = i + 1;
        }
        (i, false)
    }

    /// Sets `key` to `value`.
    pub fn set(&mut self, key: String, value: String)
        ensures
            final(self)@ == old(self)@.insert(key@, value@),
    {
        proof {
            use_type_invariant(&*self);
        }
        let (i, found) = self.position(key.as_str());
        let ghost e = self.entries();
        if found {
            proof {
                lemma_replace(e, i as int, value@);
            }
            let mut entries: Vec<(String, String)> = Vec::new();
            std::mem::swap(&mut entries, &mut self.entries);
            entries.set(i, (key, value));
            assert(entries_view(entries@) =~= e.update(i as int, (e[i as int].0, value@)));
            self.entries = entries;
        } else {
            proof {
                lemma_insert(e, i as int, key@, value@);
            }
            let mut entries: Vec<(String, String)> = Vec::new();
            std::mem::swap(&mut entries, &mut self.entries);
            let ghost kv = key@;
            entries.insert(i, (key, value));
            assert(entries_view(entries@) =~= e.insert(i as int, (kv, value@)));
            self.entries = entries;
        }
    }

    /// The value of `key`, if set.
    pub fn get(&self, key: &str) -> (r: Option<String>)
        ensures
            opt_text(r) == if self@.dom().contains(key@) {
                Some(self@[key@])
            } else {
                None
            },
    {
        proof {
            use_type_invariant(self);
        }
        let (i, found) = self.position(key);
        if found {
            proof {
                lemma_value_at(self.entries(), i as int);
            }
            Some(self.entries[i].1.clone())
        } else {
            proof {
                lemma_absent(self.entries(), key@, i as int);
            }
            None
        }
    }

    /// Removes `key`; whether it was set.
    pub fn delete(&mut self, key: &str) -> (removed: bool)
        ensures
            removed == old(self)@.dom().contains(key@),
            final(self)@ == old(self)@.remove(key@),
    {
        proof {
            use_type_invariant(&*self);
        }
        let present = self.get(key).is_some();
        let (i, found) = self.position(key);
        let ghost e = self.entries();
        if found {
            proof {
                lemma_remove(e, i as int);
            }
            let mut entries: Vec<(String, String)> = Vec::new();
            std::mem::swap(&mut entries, &mut self.entries);
            entries.remove(i);
            assert(entries_view(entries@) =~= e.remove(i as int));
            self.entries = entries;
        } else {
            proof {
                lemma_absent(e, key@, i as int);
            }
            assert(entries_map(e).remove(key@) =~= entries_map(e));
        }
        present
    }

    /// The keys, in ascending order.
    pub fn keys(&self) -> (r: Vec<String>)
        ensures
            r@.map_values(|s: String| s@) == self.keys_in_order(),
            self.keys_in_order().to_set() == self@.dom(),
            forall|a: int, b: int|
                #![trigger self.keys_in_order()[a], self.keys_in_order()[b]]
                0 <= a < b < self.keys_in_order().len() ==> seq_less(
                    self.keys_in_order()[a],
                    self.keys_in_order()[b],
                ),
    {
        proof {
            use_type_invariant(self);
            lemma_keys(self.entries());
            assert forall|a: int, b: int|
                #![trigger self.keys_in_order()[a], self.keys_in_order()[b]]
                0 <= a < b < self.keys_in_order().len() implies seq_less(
                self.keys_in_order()[a],
                self.keys_in_order()[b],
            ) by {
                assert(seq_less(self.entries()[a].0, self.entries()[b].0));
            }
        }
        let mut r: Vec<String> = Vec::new();
        let mut i: usize = 0;
        while i < self.entries.len()
            invariant
                i <= self.entries.len(),
                r@.map_values(|s: String| s@) == keys_of(entries_view(self.entries@)).take(i as int),
            decreases self.entries.len() - i,
        {
            let ghost before = r@;
            let c = self.entries[i].0.clone();
            r.push(c);
            assert(r@.map_values(|s: String| s@) =~= before.map_values(|s: String| s@).push(c@));
            assert(keys_of(entries_view(self.entries@))[i as int] == c@);
            assert(r@.map_values(|s: String| s@) =~= keys_of(entries_view(self.entries@)).take(i + 1));
            i = i + 1;
        }
        assert(keys_of(entries_view(self.entries@)).take(i as int) =~= keys_of(entries_view(self.entries@)));
        r
    }

    /// The number of keys.
    pub fn len(&self) -> (n: usize)
        ensures
            n == self@.dom().len(),
    {
        proof {
            use_type_invariant(self);
            lemma_keys(self.entries());
        }
        self.entries.len()
    }

    /// Removes every key.
    pub fn clear(&mut self)
        ensures
            final(self)@ == Map::<Seq<char>, Seq<char>>::empty(),
    {
        self.entries = Vec::new();
        assert(self@ =~= Map::<Seq<char>, Seq<char>>::empty());
    }
}

/// The lines `ks`, joined by newlines.
pub open spec fn join_lines(ks: Seq<Seq<char>>) -> Seq<char>
    decreases ks.len(),
{
    if ks.len() == 0 {
        seq![]
    } else if ks.len() == 1 {
        ks[0]
    } else {
        join_lines(ks.drop_last()) + "\n"@ + ks.last()
    }
}

pub(crate) fn join_lines_of(ks: &Vec<String>) -> (r: String)
    ensures
        r@ == join_lines(ks@.map_values(|s: String| s@)),
{
    let ghost v = ks@.map_values(|s: String| s@);
    let mut out: Vec<char> = Vec::new();
    let mut i: usize = 0;
    while i < ks.len()
        invariant
            i <= ks.len(),
            v == ks@.map_values(|s: String| s@),
            out@ == join_lines(v.take(i as int)),
        decreases ks.len() - i,
    {
        let ghost t = v.take(i + 1);
        assert(t.drop_last() =~= v.take(i as int));
        assert(t.last() == ks@[i as int]@);
        if i > 0 {
            out.push('\n');
        }
        extend_str(&mut out, ks[i].as_str());
        proof {
            reveal_strlit("\n");
            if i == 0 {
                assert(v.take(0) =~= Seq::<Seq<char>>::empty());
                assert(out@ =~= t[0]);
            } else {
                assert(out@ =~= join_lines(t.drop_last()) + "\n"@ + t.last());
            }
        }
        i = i + 1;
    }
    assert(v.take(ks.len() as int) =~= v);
    string_of(&out)
}

/// The message naming a missing parameter.
pub open spec fn missing_param(name: Seq<char>) -> Seq<char> {
    "Missing '"@ + name + "' parameter"@
}

/// The message for a key that is not set.
pub open spec fn not_found(k: Seq<char>) -> Seq<char> {
    "Key '"@ + k + "' not found"@
}

/// What the memory tool does with `args` to the notes `m`, whose keys in
/// ascending order are `keys`: the notes afterwards and the result, or the
/// error for a call without an action or a needed key or value.
pub open spec fn memory_spec(
    m: Map<Seq<char>, Seq<char>>,
    keys: Seq<Seq<char>>,
    args: JsonValue,
) -> Result<(Map<Seq<char>, Seq<char>>, Result<Seq<char>, Seq<char>>), Seq<char>> {
    match string_arg(args, "action"@) {
        None => Err(missing_param("action"@)),
        Some(a) => if a == "set"@ {
            match string_arg(args, "key"@) {
                None => Err(missing_param("key"@)),
                Some(k) => match string_arg(args, "value"@) {
                    None => Err(missing_param("value"@)),
                    Some(v) => Ok((m.insert(k, v), Ok("Stored key '"@ + k + "'"@))),
                },
            }
        } else if a == "get"@ {
            match string_arg(args, "key"@) {
                None => Err(missing_param("key"@)),
                Some(k) => Ok(
                    (
                        m,
                        Ok(
                            if m.dom().contains(k) {
                                m[k]
                            } else {
                                not_found(k)
                            },
                        ),
                    ),
                ),
            }
        } else if a == "delete"@ {
            match string_arg(args, "key"@) {
                None => Err(missing_param("key"@)),
                Some(k) => Ok(
                    (
                        m.remove(k),
                        Ok(
                            if m.dom().contains(k) {
                                "Deleted key '"@ + k + "'"@
                            } else {
                                not_found(k)
                            },
                        ),
                    ),
                ),
            }
        } else if a == "list"@ {
            Ok(
                (
                    m,
                    Ok(
                        if keys.len() == 0 {
                            "No keys stored"@
                        } else {
                            join_lines(keys)
                        },
                    ),
                ),
            )
        } else if a == "clear"@ {
            Ok((Map::empty(), Ok("Cleared "@ + decimal(m.dom().len()) + " keys"@)))
        } else {
            Ok((m, Err("Unknown action: "@ + a)))
        },
    }
}

/// Stores and retrieves notes in a key-value store for the session.
pub struct MemoryTool {
    /// The notes.
    pub store: MemoryStore,
}

impl MemoryTool {
    /// A tool with no notes.
    pub fn new() -> (t: Self)
        ensures
            t.store@ == Map::<Seq<char>, Seq<char>>::empty(),
    {
        MemoryTool { store: MemoryStore::new() }
    }

    pub fn name(&self) -> (s: &'static str)
        ensures
            s@ == "memory"@,
    {
        "memory"
    }

    pub fn description(&self) -> (s: &'static str)
        ensures
            s@ == "Store and retrieve notes or facts in a persistent key-value store. Use this to remember information across turns in a conversation, such as user preferences, task state, or important facts. Notes persist for the lifetime of the current session."@,
    {
        "Store and retrieve notes or facts in a persistent key-value store. Use this to remember information across turns in a conversation, such as user preferences, task state, or important facts. Notes persist for the lifetime of the current session."
    }

    /// The JSON Schema of the tool's parameters (see [`memory_schema`]).
    pub fn parameters_schema(&self) -> (v: JsonValue)
        ensures
            json_view(v) == memory_schema(),
    {
        let actions: &[&str] = &["set", "get", "delete", "list", "clear"];
        let props = vec![
            member("action", enum_property("The memory operation to perform.", actions)),
            member("key", typed_property("string", "The key to store or retrieve (required for 'set', 'get', 'delete').")),
            member("value", typed_property("string", "The value to store (required for 'set').")),
        ];
        let required: &[&str] = &["action"];
        assert(actions@.map_values(|n: &str| n@) =~= seq!["set"@, "get"@, "delete"@, "list"@, "clear"@]);
        assert(props_view(props@) =~= seq![
            ("action"@, enum_prop("The memory operation to perform."@, seq!["set"@, "get"@, "delete"@, "list"@, "clear"@])),
            ("key"@, typed_prop("string"@, "The key to store or retrieve (required for 'set', 'get', 'delete')."@)),
            ("value"@, typed_prop("string"@, "The value to store (required for 'set')."@)),
        ]);
        assert(required@.map_values(|n: &str| n@) =~= seq!["action"@]);
        object_schema_of(props, required)
    }

    /// Runs the call `args` on the notes (see [`memory_spec`]).
    pub fn execute(&mut self, args: &JsonValue) -> (r: Result<ToolResult, String>)
        ensures
            match memory_spec(old(self).store@, old(self).store.keys_in_order(), *args) {
                Err(e) => r matches Err(x) && x@ == e && final(self).store@ == old(self).store@,
                Ok((m, o)) => r matches Ok(t) && result_is(t, o) && final(self).store@ == m,
            },
    {
        let action = match str_arg(args, "action") {
            Some(a) => a,
            None => return Err(join3("Missing '", "action", "' parameter")),
        };
        let a = chars_of(action.as_str());
        if chars_eq(&a, &chars_of("set")) {
            let key = match str_arg(args, "key") {
                Some(k) => k,
                None => return Err(join3("Missing '", "key", "' parameter")),
            };
            let value = match str_arg(args, "value") {
                Some(v) => v,
                None => return Err(join3("Missing '", "value", "' parameter")),
            };
            let msg = join3("Stored key '", key.as_str(), "'");
            self.store.set(key, value);
            Ok(ToolResult::ok(msg))
        } else if chars_eq(&a, &chars_of("get")) {
            let key = match str_arg(args, "key") {
                Some(k) => k,
                None => return Err(join3("Missing '", "key", "' parameter")),
            };
            match self.store.get(key.as_str()) {
                Some(v) => Ok(ToolResult::ok(v)),
                None => Ok(ToolResult::ok(join3("Key '", key.as_str(), "' not found"))),
            }
        } else if chars_eq(&a, &chars_of("delete")) {
            let key = match str_arg(args, "key") {
                Some(k) => k,
                None => return Err(join3("Missing '", "key", "' parameter")),
            };
            if self.store.delete(key.as_str()) {
                Ok(ToolResult::ok(join3("Deleted key '", key.as_str(), "'")))
            } else {
                Ok(ToolResult::ok(join3("Key '", key.as_str(), "' not found")))
            }
        } else if chars_eq(&a, &chars_of("list")) {
            let keys = self.store.keys();
            if keys.len() == 0 {
                Ok(ToolResult::ok("No keys stored".to_string()))
            } else {
                Ok(ToolResult::ok(join_lines_of(&keys)))
            }
        } else if chars_eq(&a, &chars_of("clear")) {
            let count = self.store.len();
            self.store.clear();
            let mut m = chars_of("Cleared ");
            push_decimal(&mut m, count as u64);
            extend_str(&mut m, " keys");
            Ok(ToolResult::ok(string_of(&m)))
        } else {
            Ok(ToolResult::err(concat_str("Unknown action: ", action.as_str())))
        }
    }
}

/// The parameters of [`MemoryTool`].
pub open spec fn memory_schema() -> JsonView {
    object_schema(
        seq![
            ("action"@, enum_prop("The memory operation to perform."@, seq!["set"@, "get"@, "delete"@, "list"@, "clear"@])),
            ("key"@, typed_prop("string"@, "The key to store or retrieve (required for 'set', 'get', 'delete')."@)),
            ("value"@, typed_prop("string"@, "The value to store (required for 'set')."@)),
        ],
        seq!["action"@],
    )
}

/// A note read back after it was written is the value written: a `get` of
/// the key of a successful `set` gives its value, whatever the keys' order.
pub proof fn lemma_get_after_set(
    m: Map<Seq<char>, Seq<char>>,
    keys: Seq<Seq<char>>,
    keys_after: Seq<Seq<char>>,
    set_args: JsonValue,
    get_args: JsonValue,
    k: Seq<char>,
    v: Seq<char>,
)
    requires
        string_arg(set_args, "action"@) == Some("set"@),
        string_arg(set_args, "key"@) == Some(k),
        string_arg(set_args, "value"@) == Some(v),
        string_arg(get_args, "action"@) == Some("get"@),
        string_arg(get_args, "key"@) == Some(k),
    ensures
        memory_spec(m, keys, set_args) == Ok::<_, Seq<char>>((m.insert(k, v), Ok::<Seq<char>, Seq<char>>("Stored key '"@ + k + "'"@))),
        memory_spec(m.insert(k, v), keys_after, get_args) == Ok::<_, Seq<char>>((m.insert(k, v), Ok::<Seq<char>, Seq<char>>(v))),
{
    reveal_strlit("set");
    reveal_strlit("get");
    assert("get"@[0] != "set"@[0]);
}

/// A deleted note is gone: a `get` of the key of a `delete` reports it not
/// found.
pub proof fn lemma_get_after_delete(
    m: Map<Seq<char>, Seq<char>>,
    keys: Seq<Seq<char>>,
    keys_after: Seq<Seq<char>>,
    delete_args: JsonValue,
    get_args: JsonValue,
    k: Seq<char>,
)
    requires
        string_arg(delete_args, "action"@) == Some("delete"@),
        string_arg(delete_args, "key"@) == Some(k),
        string_arg(get_args, "action"@) == Some("get"@),
        string_arg(get_args, "key"@) == Some(k),
    ensures
        memory_spec(m, keys, delete_args) matches Ok((m2, _)) && m2 == m.remove(k)
            && memory_spec(m2, keys_after, get_args) == Ok::<_, Seq<char>>((m2, Ok::<Seq<char>, Seq<char>>(not_found(k)))),
{
    reveal_strlit("delete");
    reveal_strlit("get");
    reveal_strlit("set");
    assert("get"@[0] != "set"@[0]);
    assert("delete"@[0] != "set"@[0]);
    assert("delete"@[0] != "get"@[0]);
}

/// After a `clear` no note is left: a `list` reports none.
pub proof fn lemma_list_after_clear(
    m: Map<Seq<char>, Seq<char>>,
    keys: Seq<Seq<char>>,
    keys_after: Seq<Seq<char>>,
    clear_args: JsonValue,
    list_args: JsonValue,
)
    requires
        string_arg(clear_args, "action"@) == Some("clear"@),
        string_arg(list_args, "action"@) == Some("list"@),
        keys_after.to_set() == Map::<Seq<char>, Seq<char>>::empty().dom(),
    ensures
        memory_spec(m, keys, clear_args) matches Ok((m2, _)) && m2 == Map::<Seq<char>, Seq<char>>::empty()
            && memory_spec(m2, keys_after, list_args) == Ok::<_, Seq<char>>((m2, Ok::<Seq<char>, Seq<char>>("No keys stored"@))),
{
    reveal_strlit("clear");
    reveal_strlit("list");
    reveal_strlit("set");
    reveal_strlit("get");
    reveal_strlit("delete");
    assert("clear"@[0] != "set"@[0] && "clear"@[0] != "get"@[0] && "clear"@[0] != "delete"@[0]);
    assert("clear"@[0] != "list"@[0]);
    assert("list"@[0] != "set"@[0] && "list"@[0] != "get"@[0] && "list"@[0] != "delete"@[0]);
    if keys_after.len() > 0 {
        assert(keys_after.to_set().contains(keys_after[0]));
    }
}

} // verus!
