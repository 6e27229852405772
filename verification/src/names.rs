//! A small map from names to values, kept as a list of unique names.

use vstd::prelude::*;
use crate::text::str_eq;

verus! {

/// Values by name; a name occurs at most once.
///
/// vstd specifies `std::collections::HashMap` only for keys that it knows
/// to obey its key model (integers, `bool` and boxes of them); for a
/// `String` key that would have to be assumed, and nothing about lookups
/// could be proved. The maps here hold a few fonts or uploaded assets, so
/// they are kept as a list that is searched.
pub struct NameMap<V> {
    entries: Vec<(String, V)>,
}

impl<V> NameMap<V> {
    #[verifier::type_invariant]
    closed spec fn unique_names(self) -> bool {
        forall|i: int, j: int|
            0 <= i < j < self.entries@.len() ==> #[trigger] self.entries@[i].0@
                != #[trigger] self.entries@[j].0@
    }

    /// The values by name.
    pub closed spec fn map(self) -> Map<Seq<char>, V> {
        Map::new(
            |n: Seq<char>| exists|i: int| 0 <= i < self.entries@.len() && self.entries@[i].0@ == n,
            |n: Seq<char>|
                self.entries@[choose|i: int|
                    0 <= i < self.entries@.len() && self.entries@[i].0@ == n].1,
        )
    }

    pub fn new() -> (m: Self)
        ensures
            m.map() == Map::<Seq<char>, V>::empty(),
    {
        let m = Self { entries: Vec::new() };
        assert(m.map() =~= Map::<Seq<char>, V>::empty());
        m
    }

    fn find(&self, name: &str) -> (r: Option<usize>)
        ensures
            r matches Some(k) ==> k < self.entries@.len() && self.entries@[k as int].0@ == name@,
            r is None ==> forall|i: int|
                0 <= i < self.entries@.len() ==> self.entries@[i].0@ != name@,
    {
        let mut k: usize = 0;
        while k < self.entries.len()
            invariant
                k <= self.entries@.len(),
                forall|i: int| 0 <= i < k ==> self.entries@[i].0@ != name@,
            decreases self.entries@.len() - k,
        {
            if str_eq(self.entries[k].0.as_str(), name) {
                return Some(k);
            }
            k = k + 1;
        }
        None
    }

    /// The value named `name`.
    pub fn get(&self, name: &str) -> (r: Option<&V>)
        ensures
            self.map().dom().contains(name@) ==> (r matches Some(v) && *v == self.map()[name@]),
            !self.map().dom().contains(name@) ==> r is None,
    {
        proof {
            use_type_invariant(self);
        }
        match self.find(name) {
            Some(k) => {
                proof {
                    let c = choose|i: int|
                        0 <= i < self.entries@.len() && self.entries@[i].0@ == name@;
                    assert(c == k as int);
                }
                Some(&self.entries[k].1)
            },
            None => None,
        }
    }

    pub fn contains(&self, name: &str) -> (b: bool)
        ensures
            b == self.map().dom().contains(name@),
    {
        self.find(name).is_some()
    }

    /// Sets the value of `name`, replacing the one it had.
    pub fn insert(&mut self, name: String, v: V)
        ensures
            final(self).map() == old(self).map().insert(name@, v),
    {
        proof {
            use_type_invariant(&*self);
        }
        let ghost before = self.map();
        let found = self.find(name.as_str());
        let mut entries: Vec<(String, V)> = Vec::new();
        std::mem::swap(&mut entries, &mut self.entries);
        match found {
            Some(k) => {
                entries.set(k, (name, v));
            },
            None => {
                entries.push((name, v));
            },
        }
        proof {
            let olds = old(self).entries@;
            assert forall|i: int, j: int|
                0 <= i < j < entries@.len() implies #[trigger] entries@[i].0@
                != #[trigger] entries@[j].0@ by {
                if found is None && j == olds.len() {
                    assert(olds[i].0@ != name@);
                } else {
                    assert(olds[i].0@ != olds[j].0@);
                }
            }
        }
        self.entries = entries;
        proof {
            let olds = old(self).entries@;
            let news = self.entries@;
            let idx = match found {
                Some(k) => k as int,
                None => olds.len() as int,
            };
            assert(news[idx].0@ == name@ && news[idx].1 == v);
            assert forall|n: Seq<char>| #[trigger]
                self.map().dom().contains(n) <==> before.insert(name@, v).dom().contains(n) by {
                if n != name@ {
                    if exists|i: int| 0 <= i < news.len() && news[i].0@ == n {
                        let i = choose|i: int| 0 <= i < news.len() && news[i].0@ == n;
                        assert(olds[i].0@ == n);
                    }
                    if exists|i: int| 0 <= i < olds.len() && olds[i].0@ == n {
                        let i = choose|i: int| 0 <= i < olds.len() && olds[i].0@ == n;
                        assert(news[i].0@ == n);
                    }
                }
            }
            assert forall|n: Seq<char>| #[trigger]
                self.map().dom().contains(n) implies self.map()[n] == before.insert(name@, v)[n] by {
                let c = choose|i: int| 0 <= i < news.len() && news[i].0@ == n;
                if n == name@ {
                    assert(c == idx);
                } else {
                    let d = choose|i: int| 0 <= i < olds.len() && olds[i].0@ == n;
                    assert(news[d].0@ == n);
                    assert(c == d);
                }
            }
            assert(self.map() =~= before.insert(name@, v));
        }
    }

    /// Takes the value named `name` out of the map.
    pub fn remove(&mut self, name: &str) -> (r: Option<V>)
        ensures
            old(self).map().dom().contains(name@) ==> r == Some(old(self).map()[name@]),
            !old(self).map().dom().contains(name@) ==> r is None,
            final(self).map() == old(self).map().remove(name@),
    {
        proof {
            use_type_invariant(&*self);
        }
        let ghost before = self.map();
        match self.find(name) {
            None => {
                assert(before.remove(name@) =~= before);
                None
            },
            Some(k) => {
                proof {
                    let c = choose|i: int|
                        0 <= i < self.entries@.len() && self.entries@[i].0@ == name@;
                    assert(c == k as int);
                }
                let mut entries: Vec<(String, V)> = Vec::new();
                std::mem::swap(&mut entries, &mut self.entries);
                let (_, v) = entries.remove(k);
                proof {
                    let olds = old(self).entries@;
                    assert forall|i: int, j: int|
                        0 <= i < j < entries@.len() implies #[trigger] entries@[i].0@
                        != #[trigger] entries@[j].0@ by {
                        let oi = if i < k {
                            i
                        } else {
                            i + 1
                        };
                        let oj = if j < k {
                            j
                        } else {
                            j + 1
                        };
                        assert(olds[oi].0@ != olds[oj].0@);
                    }
                }
                self.entries = entries;
                proof {
                    let olds = old(self).entries@;
                    let news = self.entries@;
                    assert forall|n: Seq<char>| #[trigger]
                        self.map().dom().contains(n) <==> before.remove(name@).dom().contains(n) by {
                        if exists|i: int| 0 <= i < news.len() && news[i].0@ == n {
                            let i = choose|i: int| 0 <= i < news.len() && news[i].0@ == n;
                            let oi = if i < k {
                                i
                            } else {
                                i + 1
                            };
                            assert(olds[oi].0@ == n);
                            assert(n != name@);
                        }
                        if n != name@ && exists|i: int| 0 <= i < olds.len() && olds[i].0@ == n {
                            let i = choose|i: int| 0 <= i < olds.len() && olds[i].0@ == n;
                            assert(i != k);
                            let ni = if i < k {
                                i
                            } else {
                                i - 1
                            };
                            assert(news[ni].0@ == n);
                        }
                    }
                    assert forall|n: Seq<char>| #[trigger]
                        self.map().dom().contains(n) implies self.map()[n] == before.remove(
                        name@,
                    )[n] by {
                        let c = choose|i: int| 0 <= i < news.len() && news[i].0@ == n;
                        let oc = if c < k {
                            c
                        } else {
                            c + 1
                        };
                        assert(olds[oc].0@ == n);
                        let d = choose|i: int| 0 <= i < olds.len() && olds[i].0@ == n;
                        assert(d == oc);
                    }
                    assert(self.map() =~= before.remove(name@));
                }
                Some(v)
            },
        }
    }
}

} // verus!
