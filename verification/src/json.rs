//! Option values and key-ordered maps: what the library reads of the JSON
//! and YAML values that configuration, requests and job parameters carry.
use vstd::prelude::*;
use crate::text::{views, seq_lt, text_eq, text_lt};

verus! {

/// A JSON value, as far as the library reads it. Numbers keep their kind;
/// a float keeps the text that JSON serialisation gives it; an array keeps
/// its string items (in order) and its JSON text; an object keeps its JSON
/// text.
pub enum JsonValue {
    Null,
    Bool(bool),
    /// A non-negative integer.
    PosInt(u64),
    /// A negative integer.
    NegInt(i64),
    /// A float, by its JSON text.
    Float(String),
    Str(String),
    /// The array's string items, and the array's JSON text.
    Array(Vec<String>, String),
    /// The object's JSON text.
    Object(String),
}

/// The mathematical value of a `JsonValue`.
pub enum JsonV {
    Null,
    Bool(bool),
    PosInt(u64),
    NegInt(i64),
    Float(Seq<char>),
    Str(Seq<char>),
    Array(Seq<Seq<char>>, Seq<char>),
    Object(Seq<char>),
}

impl View for JsonValue {
    type V = JsonV;

    open spec fn view(&self) -> JsonV {
        match self {
            JsonValue::Null => JsonV::Null,
            JsonValue::Bool(b) => JsonV::Bool(*b),
            JsonValue::PosInt(n) => JsonV::PosInt(*n),
            JsonValue::NegInt(n) => JsonV::NegInt(*n),
            JsonValue::Float(t) => JsonV::Float(t@),
            JsonValue::Str(s) => JsonV::Str(s@),
            JsonValue::Array(items, t) => JsonV::Array(views(items@), t@),
            JsonValue::Object(t) => JsonV::Object(t@),
        }
    }
}

/// A value that can be copied with its view kept.
pub trait DeepClone: View + Sized {
    fn deep_clone(&self) -> (r: Self)
        ensures
            r@ == self@,
    ;
}

/// Copies a vector of strings.
pub fn clone_strings(v: &Vec<String>) -> (r: Vec<String>)
    ensures
        views(r@) == views(v@),
{
    let mut r: Vec<String> = Vec::new();
    let mut i: usize = 0;
    while i < v.len()
        invariant
            i <= v.len(),
            r@.len() == i,
            views(r@) =~= views(v@).take(i as int),
        decreases v.len() - i,
    {
        r.push(v[i].clone());
        proof {
            assert(views(r@)[i as int] == v@[i as int]@);
        }
        i = i + 1;
    }
    assert(views(v@).take(v.len() as int) =~= views(v@));
    r
}

impl DeepClone for JsonValue {
    fn deep_clone(&self) -> (r: Self) {
        match self {
            JsonValue::Null => JsonValue::Null,
            JsonValue::Bool(b) => JsonValue::Bool(*b),
            JsonValue::PosInt(n) => JsonValue::PosInt(*n),
            JsonValue::NegInt(n) => JsonValue::NegInt(*n),
            JsonValue::Float(t) => JsonValue::Float(t.clone()),
            JsonValue::Str(s) => JsonValue::Str(s.clone()),
            JsonValue::Array(items, t) => JsonValue::Array(clone_strings(items), t.clone()),
            JsonValue::Object(t) => JsonValue::Object(t.clone()),
        }
    }
}

impl JsonValue {
    /// The text of a string value (`Value::as_str`).
    pub fn as_str(&self) -> (r: Option<&String>)
        ensures
            match self@ {
                JsonV::Str(s) => r is Some && r->0@ == s,
                _ => r is None,
            },
    {
        match self {
            JsonValue::Str(s) => Some(s),
            _ => None,
        }
    }

    /// The value of an integer that fits an `i64` (`Value::as_i64`).
    pub fn as_i64(&self) -> (r: Option<i64>)
        ensures
            r == json_as_i64(self@),
    {
        match self {
            JsonValue::PosInt(n) => if *n <= 9223372036854775807u64 {
                Some(*n as i64)
            } else {
                None
            },
            JsonValue::NegInt(n) => Some(*n),
            _ => None,
        }
    }

    /// The value of a non-negative integer (`Value::as_u64`).
    pub fn as_u64(&self) -> (r: Option<u64>)
        ensures
            r == json_as_u64(self@),
    {
        match self {
            JsonValue::PosInt(n) => Some(*n),
            _ => None,
        }
    }
}

/// `Value::as_i64`.
pub open spec fn json_as_i64(v: JsonV) -> Option<i64> {
    match v {
        JsonV::PosInt(n) => if n <= i64::MAX { Some(n as i64) } else { None },
        JsonV::NegInt(n) => Some(n),
        _ => None,
    }
}

/// `Value::as_u64`.
pub open spec fn json_as_u64(v: JsonV) -> Option<u64> {
    match v {
        JsonV::PosInt(n) => Some(n),
        _ => None,
    }
}

/// `Value::as_str` on the mathematical value.
pub open spec fn json_str(v: JsonV) -> Option<Seq<char>> {
    match v {
        JsonV::Str(s) => Some(s),
        _ => None,
    }
}

// ---------------------------------------------------------------------------
// Key-ordered maps
// ---------------------------------------------------------------------------

/// Entries are strictly ordered by key: the order of a `BTreeMap<String, _>`.
pub open spec fn sorted<V>(s: Seq<(Seq<char>, V)>) -> bool {
    forall|i: int, j: int| 0 <= i < j < s.len() ==> seq_lt(#[trigger] s[i].0, #[trigger] s[j].0)
}

/// Whether some entry has key `k`.
pub open spec fn has_key<V>(s: Seq<(Seq<char>, V)>, k: Seq<char>) -> bool {
    exists|i: int| 0 <= i < s.len() && #[trigger] s[i].0 == k
}

/// A position whose key is `k`, when there is one.
pub open spec fn key_index<V>(s: Seq<(Seq<char>, V)>, k: Seq<char>) -> int {
    choose|i: int| 0 <= i < s.len() && #[trigger] s[i].0 == k
}

/// The value stored under `k`.
pub open spec fn lookup<V>(s: Seq<(Seq<char>, V)>, k: Seq<char>) -> Option<V> {
    if has_key(s, k) {
        Some(s[key_index(s, k)].1)
    } else {
        None
    }
}

/// The value given last for `k` in a list of assignments.
pub open spec fn last_value<V>(s: Seq<(Seq<char>, V)>, k: Seq<char>) -> Option<V>
    decreases s.len(),
{
    if s.len() == 0 {
        None
    } else if s.last().0 == k {
        Some(s.last().1)
    } else {
        last_value(s.drop_last(), k)
    }
}

/// The entries as a map.
pub open spec fn as_map<V>(s: Seq<(Seq<char>, V)>) -> Map<Seq<char>, V> {
    Map::new(|k: Seq<char>| has_key(s, k), |k: Seq<char>| s[key_index(s, k)].1)
}

/// What `KeyMap::extend` promises, as maps: `after` is `before` with the
/// entries of `other` put over it.
pub proof fn lemma_extend_as_map<V>(
    before: Seq<(Seq<char>, V)>,
    other: Seq<(Seq<char>, V)>,
    after: Seq<(Seq<char>, V)>,
)
    requires
        forall|k: Seq<char>|
            #[trigger] lookup(after, k) == match lookup(other, k) {
                Some(v) => Some(v),
                None => lookup(before, k),
            },
    ensures
        as_map(after) == as_map(before).union_prefer_right(as_map(other)),
{
    assert forall|k: Seq<char>| #[trigger] as_map(after).dom().contains(k) == as_map(before).union_prefer_right(as_map(other)).dom().contains(k) by {
        assert(lookup(after, k) == match lookup(other, k) {
            Some(v) => Some(v),
            None => lookup(before, k),
        });
    }
    assert forall|k: Seq<char>| #[trigger] as_map(after).dom().contains(k) implies as_map(after)[k] == as_map(before).union_prefer_right(as_map(other))[k] by {
        assert(lookup(after, k) == match lookup(other, k) {
            Some(v) => Some(v),
            None => lookup(before, k),
        });
    }
    assert(as_map(after) =~= as_map(before).union_prefer_right(as_map(other)));
}

/// A map from strings to values whose entries are kept in key order, as a
/// `BTreeMap<String, V>` keeps them.
pub struct KeyMap<V> {
    pub entries: Vec<(String, V)>,
}

/// The mathematical entries: keys by their text, values by their view.
pub open spec fn entries_view<V: View>(e: Seq<(String, V)>) -> Seq<(Seq<char>, V::V)> {
    e.map_values(|p: (String, V)| (p.0@, p.1@))
}

impl<V: View> View for KeyMap<V> {
    type V = Seq<(Seq<char>, V::V)>;

    open spec fn view(&self) -> Seq<(Seq<char>, V::V)> {
        entries_view(self.entries@)
    }
}

// --- order lemmas -----------------------------------------------------------

/// No key comes before itself.
pub proof fn lemma_lt_irreflexive(a: Seq<char>)
    ensures
        !seq_lt(a, a),
    decreases a.len(),
{
    if a.len() > 0 {
        lemma_lt_irreflexive(a.drop_first());
    }
}

/// Of two different keys one comes first.
pub proof fn lemma_lt_total(a: Seq<char>, b: Seq<char>)
    ensures
        a != b ==> seq_lt(a, b) || seq_lt(b, a),
    decreases a.len(),
{
    if a.len() > 0 && b.len() > 0 && a[0] == b[0] {
        lemma_lt_total(a.drop_first(), b.drop_first());
        if a.drop_first() == b.drop_first() {
            assert(a =~= seq![a[0]] + a.drop_first());
            assert(b =~= seq![b[0]] + b.drop_first());
        }
    } else if a.len() == 0 && b.len() == 0 {
        assert(a =~= b);
    } else if a.len() > 0 && b.len() > 0 {
    }
}

/// The key order is transitive.
pub proof fn lemma_lt_transitive(a: Seq<char>, b: Seq<char>, c: Seq<char>)
    requires
        seq_lt(a, b),
        seq_lt(b, c),
    ensures
        seq_lt(a, c),
    decreases a.len(),
{
    if a.len() > 0 && b.len() > 0 && c.len() > 0 && a[0] == b[0] && b[0] == c[0] {
        lemma_lt_transitive(a.drop_first(), b.drop_first(), c.drop_first());
    }
}

/// In a sorted sequence the entry at `i` is what its key looks up.
pub proof fn lemma_lookup_at<V>(s: Seq<(Seq<char>, V)>, idx: int)
    requires
        sorted(s),
        0 <= idx < s.len(),
    ensures
        lookup(s, s[idx].0) == Some(s[idx].1),
{
    let k = s[idx].0;
    assert(has_key(s, k));
    let j = key_index(s, k);
    assert(0 <= j < s.len() && s[j].0 == k);
    if j != idx {
        if j < idx {
            assert(seq_lt(s[j].0, s[idx].0));
        } else {
            assert(seq_lt(s[idx].0, s[j].0));
        }
        lemma_lt_irreflexive(k);
    }
    assert(j == idx);
    assert(lookup(s, k) == Some(s[j].1));
}

proof fn lemma_views_index<V: View>(e: Seq<(String, V)>, i: int)
    requires
        0 <= i < e.len(),
    ensures
        entries_view(e)[i] == (e[i].0@, e[i].1@),
        entries_view(e).len() == e.len(),
{
}

impl<V: View + DeepClone> KeyMap<V> {
    /// The entries are in strict key order.
    pub open spec fn wf(&self) -> bool {
        sorted(self@)
    }

    /// An empty map.
    pub fn new() -> (m: Self)
        ensures
            m.wf(),
            m@ == Seq::<(Seq<char>, V::V)>::empty(),
    {
        let m = KeyMap { entries: Vec::new() };
        assert(m@ =~= Seq::<(Seq<char>, V::V)>::empty());
        m
    }

    /// The number of entries.
    pub fn len(&self) -> (n: usize)
        ensures
            n == self@.len(),
    {
        self.entries.len()
    }

    /// Whether the map has no entry.
    pub fn is_empty(&self) -> (b: bool)
        ensures
            b == (self@.len() == 0),
    {
        self.entries.len() == 0
    }

    /// The position of `key`, or where it would be inserted.
    fn position(&self, key: &str) -> (r: (usize, bool))
        requires
            self.wf(),
        ensures
            r.0 <= self@.len(),
            forall|j: int| 0 <= j < r.0 ==> seq_lt(#[trigger] self@[j].0, key@),
            r.1 ==> r.0 < self@.len() && self@[r.0 as int].0 == key@,
            !r.1 ==> forall|j: int| r.0 <= j < self@.len() ==> seq_lt(key@, #[trigger] self@[j].0),
    {
        let mut i: usize = 0;
        while i < self.entries.len()
            invariant
                self.wf(),
                i <= self.entries.len(),
                self@.len() == self.entries.len(),
                forall|j: int| 0 <= j < i ==> seq_lt(#[trigger] self@[j].0, key@),
            decreases self.entries.len() - i,
        {
            proof {
                lemma_views_index(self.entries@, i as int);
            }
            let k = self.entries[i].0.as_str();
            if text_eq(k, key) {
                return (i, true);
            }
            if !text_lt(k, key) {
                proof {
                    lemma_lt_total(self@[i as int].0, key@);
                    assert forall|j: int| i <= j < self@.len() implies seq_lt(key@, #[trigger] self@[j].0) by {
                        if j > i {
                            assert(seq_lt(self@[i as int].0, self@[j].0));
                            lemma_lt_transitive(key@, self@[i as int].0, self@[j].0);
                        }
                    }
                }
                return (i, false);
            }
            i = i + 1;
        }
        (i, false)
    }

    /// The value stored under `key` (`BTreeMap::get`).
    pub fn get(&self, key: &str) -> (r: Option<&V>)
        requires
            self.wf(),
        ensures
            match r {
                Some(v) => lookup(self@, key@) == Some(v@),
                None => lookup(self@, key@) is None,
            },
    {
        let (i, found) = self.position(key);
        if found {
            proof {
                lemma_lookup_at(self@, i as int);
                lemma_views_index(self.entries@, i as int);
            }
            Some(&self.entries[i].1)
        } else {
            proof {
                assert forall|j: int| 0 <= j < self@.len() implies #[trigger] self@[j].0 != key@ by {
                    if j < i {
                        lemma_lt_irreflexive(key@);
                    } else {
                        lemma_lt_irreflexive(key@);
                    }
                }
            }
            None
        }
    }

    /// Stores `value` under `key`, replacing any earlier value
    /// (`BTreeMap::insert`).
    pub fn insert(&mut self, key: String, value: V)
        requires
            old(self).wf(),
        ensures
            final(self).wf(),
            forall|k: Seq<char>|
                #[trigger] lookup(final(self)@, k) == if k == key@ {
                    Some(value@)
                } else {
                    lookup(old(self)@, k)
                },
    {
        let ghost old_v = self@;
        let (i, found) = self.position(key.as_str());
        let ghost kv = key@;
        let ghost vv = value@;
        if found {
            self.entries.set(i, (key, value));
            proof {
                assert(self@ =~= old_v.update(i as int, (kv, vv)));
                assert(sorted(self@)) by {
                    assert forall|a: int, b: int| 0 <= a < b < self@.len() implies seq_lt(
                        #[trigger] self@[a].0,
                        #[trigger] self@[b].0,
                    ) by {
                        assert(seq_lt(old_v[a].0, old_v[b].0));
                    }
                }
                assert forall|k: Seq<char>| #[trigger]
                    lookup(self@, k) == if k == kv {
                        Some(vv)
                    } else {
                        lookup(old_v, k)
                    } by {
                    lemma_map_update_lookup(old_v, i as int, vv, k);
                }
            }
        } else {
            proof {
                assert forall|j: int| 0 <= j < old_v.len() implies #[trigger] old_v[j].0 != kv by {
                    lemma_lt_irreflexive(kv);
                }
            }
            self.entries.insert(i, (key, value));
            proof {
                assert(self@ =~= old_v.insert(i as int, (kv, vv)));
                assert(sorted(self@)) by {
                    assert forall|a: int, b: int| 0 <= a < b < self@.len() implies seq_lt(
                        #[trigger] self@[a].0,
                        #[trigger] self@[b].0,
                    ) by {
                        if a < i && b < i {
                            assert(seq_lt(old_v[a].0, old_v[b].0));
                        } else if a < i && b == i {
                        } else if a < i && b > i {
                            assert(seq_lt(old_v[a].0, kv));
                            assert(seq_lt(kv, old_v[b - 1].0));
                            lemma_lt_transitive(old_v[a].0, kv, old_v[b - 1].0);
                        } else if a == i {
                            assert(seq_lt(kv, old_v[b - 1].0));
                        } else {
                            assert(seq_lt(old_v[a - 1].0, old_v[b - 1].0));
                        }
                    }
                }
                assert forall|k: Seq<char>| #[trigger]
                    lookup(self@, k) == if k == kv {
                        Some(vv)
                    } else {
                        lookup(old_v, k)
                    } by {
                    lemma_map_insert_lookup(old_v, i as int, kv, vv, k);
                }
            }
        }
    }

    /// Removes the entry of `key`, if any (`BTreeMap::remove`).
    pub fn remove(&mut self, key: &str)
        requires
            old(self).wf(),
        ensures
            final(self).wf(),
            forall|k: Seq<char>|
                #[trigger] lookup(final(self)@, k) == if k == key@ {
                    None
                } else {
                    lookup(old(self)@, k)
                },
    {
        let ghost old_v = self@;
        let (i, found) = self.position(key);
        if found {
            self.entries.remove(i);
            proof {
                assert(self@ =~= old_v.remove(i as int));
                assert(sorted(self@)) by {
                    assert forall|a: int, b: int| 0 <= a < b < self@.len() implies seq_lt(
                        #[trigger] self@[a].0,
                        #[trigger] self@[b].0,
                    ) by {
                        if b < i {
                            assert(seq_lt(old_v[a].0, old_v[b].0));
                        } else if a < i {
                            assert(seq_lt(old_v[a].0, old_v[b + 1].0));
                        } else {
                            assert(seq_lt(old_v[a + 1].0, old_v[b + 1].0));
                        }
                    }
                }
                assert forall|k: Seq<char>| #[trigger]
                    lookup(self@, k) == if k == key@ {
                        None
                    } else {
                        lookup(old_v, k)
                    } by {
                    lemma_map_remove_lookup(old_v, i as int, k);
                }
            }
        } else {
            proof {
                assert forall|k: Seq<char>| #[trigger]
                    lookup(self@, k) == if k == key@ {
                        None
                    } else {
                        lookup(old_v, k)
                    } by {
                    if k == key@ {
                        assert forall|j: int| 0 <= j < old_v.len() implies #[trigger] old_v[j].0 != k by {
                            lemma_lt_irreflexive(k);
                        }
                    }
                }
            }
        }
    }

    /// Inserts every entry of `other`, later values replacing earlier ones
    /// (`BTreeMap::extend`).
    pub fn extend(&mut self, other: Self)
        requires
            old(self).wf(),
            other.wf(),
        ensures
            final(self).wf(),
            forall|k: Seq<char>|
                #[trigger] lookup(final(self)@, k) == match lookup(other@, k) {
                    Some(v) => Some(v),
                    None => lookup(old(self)@, k),
                },
    {
        let ghost old_v = self@;
        let ghost ov = other@;
        let n = other.entries.len();
        let mut done: usize = 0;
        while done < n
            invariant
                self.wf(),
                other.wf(),
                ov == other@,
                n == ov.len(),
                n == other.entries.len(),
                done <= n,
                forall|k: Seq<char>|
                    #[trigger] lookup(self@, k) == match lookup(ov.take(done as int), k) {
                        Some(v) => Some(v),
                        None => lookup(old_v, k),
                    },
            decreases n - done,
        {
            let k = other.entries[done].0.clone();
            let v = other.entries[done].1.deep_clone();
            proof {
                lemma_views_index(other.entries@, done as int);
                assert(ov[done as int] == (k@, v@));
            }
            self.insert(k, v);
            proof {
                assert forall|k: Seq<char>| #[trigger]
                    lookup(self@, k) == match lookup(ov.take(done + 1), k) {
                        Some(v) => Some(v),
                        None => lookup(old_v, k),
                    } by {
                    lemma_take_push_lookup(ov, done as int, k);
                }
            }
            done = done + 1;
        }
        assert(ov.take(n as int) =~= ov);
    }

    /// A copy with every value copied.
    pub fn deep_clone_map(&self) -> (r: Self)
        ensures
            r@ == self@,
    {
        let mut entries: Vec<(String, V)> = Vec::new();
        let mut i: usize = 0;
        while i < self.entries.len()
            invariant
                i <= self.entries.len(),
                entries@.len() == i,
                entries_view(entries@) =~= entries_view(self.entries@).take(i as int),
            decreases self.entries.len() - i,
        {
            let k = self.entries[i].0.clone();
            let v = self.entries[i].1.deep_clone();
            entries.push((k, v));
            proof {
                lemma_views_index(self.entries@, i as int);
                lemma_views_index(entries@, i as int);
            }
            i = i + 1;
        }
        assert(entries_view(self.entries@).take(self.entries.len() as int) =~= entries_view(
            self.entries@,
        ));
        KeyMap { entries }
    }
}

impl<V: View + DeepClone> DeepClone for KeyMap<V> {
    fn deep_clone(&self) -> (r: Self) {
        self.deep_clone_map()
    }
}

proof fn lemma_map_update_lookup<V>(s: Seq<(Seq<char>, V)>, i: int, v: V, k: Seq<char>)
    requires
        sorted(s),
        0 <= i < s.len(),
        sorted(s.update(i, (s[i].0, v))),
    ensures
        lookup(s.update(i, (s[i].0, v)), k) == if k == s[i].0 {
            Some(v)
        } else {
            lookup(s, k)
        },
{
    let t = s.update(i, (s[i].0, v));
    if k == s[i].0 {
        lemma_lookup_at(t, i);
    } else {
        if has_key(s, k) {
            let j = choose|j: int| 0 <= j < s.len() && #[trigger] s[j].0 == k;
            assert(t[j].0 == k);
            lemma_lookup_at(s, j);
            lemma_lookup_at(t, j);
        } else {
            assert forall|j: int| 0 <= j < t.len() implies #[trigger] t[j].0 != k by {
                assert(s[j].0 != k);
            }
        }
    }
}

proof fn lemma_map_insert_lookup<V>(s: Seq<(Seq<char>, V)>, i: int, kv: Seq<char>, v: V, k: Seq<char>)
    requires
        sorted(s),
        0 <= i <= s.len(),
        forall|j: int| 0 <= j < s.len() ==> #[trigger] s[j].0 != kv,
        sorted(s.insert(i, (kv, v))),
    ensures
        lookup(s.insert(i, (kv, v)), k) == if k == kv {
            Some(v)
        } else {
            lookup(s, k)
        },
{
    let t = s.insert(i, (kv, v));
    if k == kv {
        lemma_lookup_at(t, i);
    } else {
        if has_key(s, k) {
            let j = choose|j: int| 0 <= j < s.len() && #[trigger] s[j].0 == k;
            lemma_lookup_at(s, j);
            if j < i {
                assert(t[j] == s[j]);
                lemma_lookup_at(t, j);
            } else {
                assert(t[j + 1] == s[j]);
                lemma_lookup_at(t, j + 1);
            }
        } else {
            assert forall|j: int| 0 <= j < t.len() implies #[trigger] t[j].0 != k by {
                if j < i {
                    assert(t[j] == s[j]);
                } else if j > i {
                    assert(t[j] == s[j - 1]);
                }
            }
        }
    }
}

proof fn lemma_map_remove_lookup<V>(s: Seq<(Seq<char>, V)>, i: int, k: Seq<char>)
    requires
        sorted(s),
        0 <= i < s.len(),
        sorted(s.remove(i)),
    ensures
        lookup(s.remove(i), k) == if k == s[i].0 {
            None
        } else {
            lookup(s, k)
        },
{
    let t = s.remove(i);
    if k == s[i].0 {
        assert forall|j: int| 0 <= j < t.len() implies #[trigger] t[j].0 != k by {
            if j < i {
                assert(seq_lt(s[j].0, s[i].0));
                lemma_lt_irreflexive(k);
            } else {
                assert(seq_lt(s[i].0, s[j + 1].0));
                lemma_lt_irreflexive(k);
            }
        }
    } else {
        if has_key(s, k) {
            let j = choose|j: int| 0 <= j < s.len() && #[trigger] s[j].0 == k;
            lemma_lookup_at(s, j);
            if j < i {
                assert(t[j] == s[j]);
                lemma_lookup_at(t, j);
            } else {
                assert(j != i);
                assert(t[j - 1] == s[j]);
                lemma_lookup_at(t, j - 1);
            }
        } else {
            assert forall|j: int| 0 <= j < t.len() implies #[trigger] t[j].0 != k by {
                if j < i {
                    assert(t[j] == s[j]);
                } else {
                    assert(t[j] == s[j + 1]);
                }
            }
        }
    }
}

proof fn lemma_take_push_lookup<V>(s: Seq<(Seq<char>, V)>, d: int, k: Seq<char>)
    requires
        sorted(s),
        0 <= d < s.len(),
    ensures
        lookup(s.take(d + 1), k) == if k == s[d].0 {
            Some(s[d].1)
        } else {
            lookup(s.take(d), k)
        },
{
    let a = s.take(d + 1);
    let b = s.take(d);
    assert(sorted(a));
    assert(sorted(b));
    if k == s[d].0 {
        lemma_lookup_at(a, d);
    } else {
        if has_key(b, k) {
            let j = choose|j: int| 0 <= j < b.len() && #[trigger] b[j].0 == k;
            lemma_lookup_at(b, j);
            assert(a[j] == b[j]);
            lemma_lookup_at(a, j);
        } else {
            assert forall|j: int| 0 <= j < a.len() implies #[trigger] a[j].0 != k by {
                if j < d {
                    assert(a[j] == b[j]);
                }
            }
        }
    }
}

} // verus!

verus! {

/// Extra job parameters: normally an object, but any JSON value a client
/// sent is kept.
pub enum Extra {
    Object(KeyMap<JsonValue>),
    Other(JsonValue),
}

/// The mathematical value of `Extra`.
pub enum ExtraV {
    Object(Seq<(Seq<char>, JsonV)>),
    Other(JsonV),
}

impl View for Extra {
    type V = ExtraV;

    open spec fn view(&self) -> ExtraV {
        match self {
            Extra::Object(m) => ExtraV::Object(m@),
            Extra::Other(v) => ExtraV::Other(v@),
        }
    }
}

/// `Value::get` on extra parameters: only an object has entries.
pub open spec fn extra_get(e: ExtraV, k: Seq<char>) -> Option<JsonV> {
    match e {
        ExtraV::Object(m) => lookup(m, k),
        ExtraV::Other(_) => None,
    }
}

/// The entries of an object, or none (`Value::as_object` with a default).
pub open spec fn extra_entries(e: ExtraV) -> Seq<(Seq<char>, JsonV)> {
    match e {
        ExtraV::Object(m) => m,
        ExtraV::Other(_) => Seq::empty(),
    }
}

impl Extra {
    /// An object's entries are in key order.
    pub open spec fn wf(&self) -> bool {
        match self {
            Extra::Object(m) => m.wf(),
            Extra::Other(_) => true,
        }
    }

    /// An empty object.
    pub fn empty() -> (r: Self)
        ensures
            r.wf(),
            r@ == ExtraV::Object(Seq::empty()),
    {
        Extra::Object(KeyMap::new())
    }

    /// The value stored under `key` in an object.
    pub fn get(&self, key: &str) -> (r: Option<&JsonValue>)
        requires
            self.wf(),
        ensures
            match r {
                Some(v) => extra_get(self@, key@) == Some(v@),
                None => extra_get(self@, key@) is None,
            },
    {
        match self {
            Extra::Object(m) => m.get(key),
            Extra::Other(_) => None,
        }
    }

    /// A copy of the object's entries, or an empty map.
    pub fn object(&self) -> (r: KeyMap<JsonValue>)
        requires
            self.wf(),
        ensures
            r.wf(),
            r@ == extra_entries(self@),
    {
        match self {
            Extra::Object(m) => m.deep_clone_map(),
            Extra::Other(_) => KeyMap::new(),
        }
    }
}

impl DeepClone for Extra {
    fn deep_clone(&self) -> (r: Self) {
        match self {
            Extra::Object(m) => Extra::Object(m.deep_clone_map()),
            Extra::Other(v) => Extra::Other(v.deep_clone()),
        }
    }
}

} // verus!
