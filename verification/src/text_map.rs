//! Maps from texts, kept in the order in which their keys came.
use vstd::prelude::*;
use vstd::string::*;
use crate::text::same_text;

verus! {

/// A map from texts, in which no key occurs twice.
#[derive(Debug)]
pub struct TextMap<V> {
    entries: Vec<(String, V)>,
}

/// The least index from `i` on whose key is `k`, or the length.
pub open spec fn key_index<V>(s: Seq<(Seq<char>, V)>, k: Seq<char>, i: int) -> int
    decreases s.len() - i,
{
    if i >= s.len() {
        s.len() as int
    } else if s[i].0 == k {
        i
    } else {
        key_index(s, k, i + 1)
    }
}

/// The value under `k`, if there is one.
pub open spec fn lookup<V>(s: Seq<(Seq<char>, V)>, k: Seq<char>) -> Option<V> {
    let i = key_index(s, k, 0);
    if i < s.len() {
        Some(s[i].1)
    } else {
        None
    }
}

/// `s` with `v` under `k`: in place of the value there, or at the end.
pub open spec fn inserted<V>(s: Seq<(Seq<char>, V)>, k: Seq<char>, v: V) -> Seq<(Seq<char>, V)> {
    let i = key_index(s, k, 0);
    if i < s.len() {
        s.update(i, (k, v))
    } else {
        s.push((k, v))
    }
}

/// No key occurs twice.
pub open spec fn unique_keys<V>(s: Seq<(Seq<char>, V)>) -> bool {
    forall|i: int, j: int| 0 <= i < j < s.len() ==> (#[trigger] s[i]).0 != (#[trigger] s[j]).0
}

proof fn key_index_bounds<V>(s: Seq<(Seq<char>, V)>, k: Seq<char>, i: int)
    requires
        0 <= i <= s.len(),
    ensures
        i <= key_index(s, k, i) <= s.len(),
        key_index(s, k, i) < s.len() ==> s[key_index(s, k, i)].0 == k,
        forall|j: int| i <= j < key_index(s, k, i) ==> (#[trigger] s[j]).0 != k,
    decreases s.len() - i,
{
    if i < s.len() && s[i].0 != k {
        key_index_bounds(s, k, i + 1);
    }
}

proof fn key_index_is<V>(s: Seq<(Seq<char>, V)>, k: Seq<char>, i: int, at: int)
    requires
        0 <= i <= at <= s.len(),
        at < s.len() ==> s[at].0 == k,
        forall|j: int| i <= j < at ==> (#[trigger] s[j]).0 != k,
    ensures
        key_index(s, k, i) == at,
    decreases at - i,
{
    if i < at {
        key_index_is(s, k, i + 1, at);
    }
}

/// Looking up a key gives what was last put under it, and inserting under
/// another key changes nothing of that. Keys stay unique.
pub proof fn insert_then_lookup<V>(s: Seq<(Seq<char>, V)>, k: Seq<char>, v: V, other: Seq<char>)
    ensures
        lookup(inserted(s, k, v), k) == Some(v),
        other != k ==> lookup(inserted(s, k, v), other) == lookup(s, other),
        unique_keys(s) ==> unique_keys(inserted(s, k, v)),
{
    let t = inserted(s, k, v);
    let at = key_index(s, k, 0);
    key_index_bounds(s, k, 0);
    key_index_is(t, k, 0, at);
    if other != k {
        let o = key_index(s, other, 0);
        key_index_bounds(s, other, 0);
        if o < s.len() {
            key_index_is(t, other, 0, o);
        } else {
            key_index_is(t, other, 0, t.len() as int);
        }
    }
}

impl<V> View for TextMap<V> {
    type V = Seq<(Seq<char>, V)>;

    closed spec fn view(&self) -> Seq<(Seq<char>, V)> {
        self.entries@.map_values(|e: (String, V)| (e.0@, e.1))
    }
}

impl<V> TextMap<V> {
    #[verifier::type_invariant]
    spec fn well_formed(self) -> bool {
        unique_keys(self@)
    }

    /// The empty map.
    pub fn new() -> (r: TextMap<V>)
        ensures
            r@.len() == 0,
    {
        TextMap { entries: Vec::new() }
    }

    /// Number of keys.
    pub fn len(&self) -> (n: usize)
        ensures
            n == self@.len(),
            unique_keys(self@),
    {
        proof {
            use_type_invariant(self);
        }
        self.entries.len()
    }

    /// Whether there is no key.
    pub fn is_empty(&self) -> (b: bool)
        ensures
            b == (self@.len() == 0),
    {
        self.entries.len() == 0
    }

    /// The key and the value at a position.
    pub fn at(&self, i: usize) -> (r: (&String, &V))
        requires
            i < self@.len(),
        ensures
            r.0@ == self@[i as int].0,
            *r.1 == self@[i as int].1,
    {
        (&self.entries[i].0, &self.entries[i].1)
    }

    /// The position of a key, or the number of keys.
    pub fn position(&self, k: &str) -> (i: usize)
        ensures
            i == key_index(self@, k@, 0),
            i <= self@.len(),
    {
        let mut i: usize = 0;
        while i < self.entries.len()
            invariant
                i <= self.entries@.len(),
                key_index(self@, k@, 0) == key_index(self@, k@, i as int),
            decreases self.entries.len() - i,
        {
            if same_text(self.entries[i].0.as_str(), k) {
                return i;
            }
            i += 1;
        }
        i
    }

    /// Whether there is a value under `k`.
    pub fn contains_key(&self, k: &str) -> (b: bool)
        ensures
            b == (lookup(self@, k@) is Some),
    {
        self.position(k) < self.entries.len()
    }

    /// The value under `k`.
    pub fn get(&self, k: &str) -> (r: Option<&V>)
        ensures
            r is Some <==> lookup(self@, k@) is Some,
            r matches Some(v) ==> lookup(self@, k@) == Some(*v),
    {
        let i: usize = self.position(k);
        if i < self.entries.len() {
            Some(&self.entries[i].1)
        } else {
            None
        }
    }

    /// Puts `v` under `k`.
    pub fn insert(&mut self, k: String, v: V)
        ensures
            final(self)@ == inserted(old(self)@, k@, v),
            unique_keys(final(self)@),
    {
        proof {
            use_type_invariant(&*self);
            insert_then_lookup(old(self)@, k@, v, k@);
        }
        let i: usize = self.position(k.as_str());
        let mut entries: Vec<(String, V)> = Vec::new();
        std::mem::swap(&mut entries, &mut self.entries);
        if i < entries.len() {
            entries[i] = (k, v);
        } else {
            entries.push((k, v));
        }
        assert(entries@.map_values(|e: (String, V)| (e.0@, e.1)) =~= inserted(old(self)@, k@, v));
        self.entries = entries;
    }
}

/// Looking up a key gives the value of the entry with that key, and nothing
/// where no entry has it.
pub proof fn lookup_gives_the_entry<V>(s: Seq<(Seq<char>, V)>, k: Seq<char>, i: int)
    requires
        unique_keys(s),
    ensures
        0 <= i < s.len() && s[i].0 == k ==> lookup(s, k) == Some(s[i].1),
        (forall|j: int| 0 <= j < s.len() ==> (#[trigger] s[j]).0 != k) ==> lookup(s, k) is None,
{
    key_index_bounds(s, k, 0);
    if 0 <= i < s.len() && s[i].0 == k {
        let at = key_index(s, k, 0);
        if at != i {
            if at < i {
                assert(s[at].0 != s[i].0);
            } else {
                assert(s[i].0 != k);
            }
        }
    }
}

} // verus!
