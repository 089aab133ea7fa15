//! A registry of entries under distinct string keys, in registration order.
//! Registering under a key that is already present replaces that entry in
//! place.

use vstd::prelude::*;

verus! {

/// The keys of a list of entries.
pub open spec fn keys_of<E>(s: Seq<(String, E)>) -> Seq<Seq<char>> {
    s.map_values(|p: (String, E)| p.0@)
}

/// Position of the entry under key `k`, if any.
pub open spec fn spec_find<E>(s: Seq<(String, E)>, k: Seq<char>) -> Option<int> {
    if exists|i: int| 0 <= i < s.len() && #[trigger] s[i].0@ == k {
        Some(choose|i: int| 0 <= i < s.len() && #[trigger] s[i].0@ == k)
    } else {
        None
    }
}

/// The entries after registering `e` under `key`.
pub open spec fn spec_register<E>(s: Seq<(String, E)>, key: String, e: E) -> Seq<(String, E)> {
    match spec_find(s, key@) {
        Some(i) => s.update(i, (key, e)),
        None => s.push((key, e)),
    }
}

/// The entry under key `k`, if any.
pub open spec fn spec_lookup<E>(s: Seq<(String, E)>, k: Seq<char>) -> Option<E> {
    match spec_find(s, k) {
        Some(i) => Some(s[i].1),
        None => None,
    }
}

/// Entries under distinct string keys.
pub struct Registry<E> {
    entries: Vec<(String, E)>,
}

impl<E> Registry<E> {
    /// The entries, in registration order.
    pub closed spec fn view(&self) -> Seq<(String, E)> {
        self.entries@
    }

    pub closed spec fn wf(&self) -> bool {
        keys_of(self.entries@).no_duplicates()
    }

    /// Well formed, no key is held twice.
    pub proof fn lemma_keys_distinct(&self)
        requires
            self.wf(),
        ensures
            keys_of(self.view()).no_duplicates(),
    {
    }

    /// An empty registry.
    pub fn new() -> (r: Self)
        ensures
            r.wf(),
            r.view() == Seq::<(String, E)>::empty(),
    {
        let r = Registry { entries: Vec::new() };
        assert(keys_of(r.entries@) =~= Seq::<Seq<char>>::empty());
        r
    }

    /// Position of the entry under key `k`.
    pub fn find(&self, k: &str) -> (r: Option<usize>)
        requires
            self.wf(),
        ensures
            r matches Some(i) ==> spec_find(self.view(), k@) == Some(i as int),
            r is None ==> spec_find(self.view(), k@) is None,
    {
        let mut i: usize = 0;
        while i < self.entries.len()
            invariant
                self.wf(),
                i <= self.entries@.len(),
                forall|j: int| 0 <= j < i ==> (#[trigger] self.entries@[j]).0@ != k@,
            decreases self.entries@.len() - i,
        {
            if self.entries[i].0 == k.to_owned() {
                proof {
                    let c = choose|x: int| 0 <= x < self.entries@.len() && #[trigger] self.entries@[x].0@ == k@;
                    assert(keys_of(self.entries@)[c] == keys_of(self.entries@)[i as int]);
                    assert(c == i);
                }
                return Some(i);
            }
            i = i + 1;
        }
        None
    }

    /// Registers `e` under `key`, replacing the entry already under `key`.
    pub fn register(&mut self, key: String, e: E)
        requires
            old(self).wf(),
        ensures
            final(self).wf(),
            final(self).view() == spec_register(old(self).view(), key, e),
    {
        let ghost s = self.entries@;
        match self.find(key.as_str()) {
            Some(i) => {
                self.entries.remove(i);
                self.entries.insert(i, (key, e));
                proof {
                    assert(self.entries@ =~= s.update(i as int, (key, e)));
                    assert(keys_of(self.entries@) =~= keys_of(s));
                }
            },
            None => {
                let ghost kv = key@;
                self.entries.push((key, e));
                proof {
                    assert(self.entries@ =~= s.push((key, e)));
                    let ks = keys_of(s);
                    assert(keys_of(self.entries@) =~= ks.push(kv));
                    assert forall|a: int, b: int| 0 <= a < ks.len() + 1 && 0 <= b < ks.len() + 1 && a != b
                        implies keys_of(self.entries@)[a] != keys_of(self.entries@)[b] by {
                        if a < ks.len() && b < ks.len() {
                            assert(ks[a] != ks[b]);
                        } else if a < ks.len() {
                            assert(s[a].0@ != kv);
                        } else {
                            assert(s[b].0@ != kv);
                        }
                    }
                }
            },
        }
    }

    /// The entry at position `i`.
    pub fn get(&self, i: usize) -> (r: &(String, E))
        requires
            i < self.view().len(),
        ensures
            *r == self.view()[i as int],
    {
        &self.entries[i]
    }

    /// The number of entries.
    pub fn len(&self) -> (n: usize)
        ensures
            n == self.view().len(),
    {
        self.entries.len()
    }

    /// Whether there is no entry.
    pub fn is_empty(&self) -> (b: bool)
        ensures
            b == (self.view().len() == 0),
    {
        self.entries.len() == 0
    }
}

/// With distinct keys, the entry under `k` is the one at the position that
/// holds `k`.
pub proof fn lemma_find_at<E>(s: Seq<(String, E)>, k: Seq<char>, x: int)
    requires
        keys_of(s).no_duplicates(),
        0 <= x < s.len(),
        s[x].0@ == k,
    ensures
        spec_find(s, k) == Some(x),
{
    assert(exists|i: int| 0 <= i < s.len() && #[trigger] s[i].0@ == k);
    let c = spec_find(s, k)->0;
    assert(0 <= c < s.len() && s[c].0@ == k);
    assert(keys_of(s)[c] == keys_of(s)[x]);
}

/// No entry holds `k`.
pub proof fn lemma_find_none<E>(s: Seq<(String, E)>, k: Seq<char>)
    requires
        forall|i: int| 0 <= i < s.len() ==> #[trigger] s[i].0@ != k,
    ensures
        spec_find(s, k) is None,
{
}

/// After registering `e` under `key`, looking `key` up gives `e`, looking
/// up any other key gives what it gave before, and no key is listed twice.
pub proof fn law_register_then_lookup<E>(s: Seq<(String, E)>, key: String, e: E, other: Seq<char>)
    requires
        keys_of(s).no_duplicates(),
        other != key@,
    ensures
        spec_lookup(spec_register(s, key, e), key@) == Some(e),
        spec_lookup(spec_register(s, key, e), other) == spec_lookup(s, other),
        keys_of(spec_register(s, key, e)).no_duplicates(),
        spec_register(s, key, e).len() == s.len() + (if spec_find(s, key@) is Some { 0int } else { 1int }),
{
    let t = spec_register(s, key, e);
    let n = s.len() as int;
    match spec_find(s, key@) {
        Some(i) => {
            assert(0 <= i < n && s[i].0@ == key@);
            assert(t == s.update(i, (key, e)));
            assert(keys_of(t) =~= keys_of(s));
        },
        None => {
            assert(t == s.push((key, e)));
            let ks = keys_of(s);
            assert(keys_of(t) =~= ks.push(key@));
            assert forall|i: int| 0 <= i < n implies #[trigger] s[i].0@ != key@ by {
                if s[i].0@ == key@ {
                    assert(exists|j: int| 0 <= j < s.len() && #[trigger] s[j].0@ == key@);
                }
            }
            assert forall|a: int, b: int| 0 <= a < t.len() && 0 <= b < t.len() && a != b
                implies keys_of(t)[a] != keys_of(t)[b] by {
                if a < n && b < n {
                    assert(ks[a] != ks[b]);
                } else if a < n {
                    assert(s[a].0@ != key@);
                } else {
                    assert(s[b].0@ != key@);
                }
            }
        },
    }
    let ki = if spec_find(s, key@) is Some { spec_find(s, key@)->0 } else { n };
    assert(t[ki].0@ == key@);
    lemma_find_at(t, key@, ki);
    if exists|x: int| 0 <= x < s.len() && #[trigger] s[x].0@ == other {
        let d = choose|x: int| 0 <= x < s.len() && #[trigger] s[x].0@ == other;
        lemma_find_at(s, other, d);
        assert(d != ki);
        assert(t[d] == s[d]);
        lemma_find_at(t, other, d);
    } else {
        assert forall|x: int| 0 <= x < t.len() implies #[trigger] t[x].0@ != other by {
            if x != ki {
                assert(t[x] == s[x]);
            }
        }
        lemma_find_none(t, other);
    }
}

} // verus!
