//! The cache from a domain name to the destination that serves it. Entries
//! are written only after a registry answer and never expire.
use vstd::prelude::*;

verus! {

/// Entries as pairs of character sequences.
pub open spec fn pairs_view(s: Seq<(String, String)>) -> Seq<(Seq<char>, Seq<char>)> {
    s.map_values(|e: (String, String)| (e.0@, e.1@))
}

/// The value of the last entry for `k`, if any.
pub open spec fn lookup(s: Seq<(Seq<char>, Seq<char>)>, k: Seq<char>) -> Option<Seq<char>>
    decreases s.len(),
{
    if s.len() == 0 {
        None
    } else if s.last().0 == k {
        Some(s.last().1)
    } else {
        lookup(s.drop_last(), k)
    }
}

/// A map from domain to destination, held as a list of pairs in which the
/// last pair for a key wins. vstd states its hash-map laws only for keys of
/// primitive type, so a `HashMap` keyed by `String` would leave `get` and
/// `set` without a provable result; the list keeps them exact.
pub struct Cache {
    entries: Vec<(String, String)>,
}

impl View for Cache {
    type V = Map<Seq<char>, Seq<char>>;

    closed spec fn view(&self) -> Map<Seq<char>, Seq<char>> {
        entries_map(self.entries@)
    }
}

/// The map that a list of entries stands for: the last entry for a key wins.
pub open spec fn entries_map(s: Seq<(String, String)>) -> Map<Seq<char>, Seq<char>> {
    Map::new(
        |k: Seq<char>| lookup(pairs_view(s), k) is Some,
        |k: Seq<char>| lookup(pairs_view(s), k)->0,
    )
}

/// What `m` holds for `k`.
pub open spec fn map_get(m: Map<Seq<char>, Seq<char>>, k: Seq<char>) -> Option<Seq<char>> {
    if m.contains_key(k) {
        Some(m[k])
    } else {
        None
    }
}

proof fn lemma_entries_get(s: Seq<(String, String)>, k: Seq<char>)
    ensures
        map_get(entries_map(s), k) == lookup(pairs_view(s), k),
{
}

impl Cache {
    /// An empty cache.
    pub fn new() -> (r: Cache)
        ensures
            r@ == Map::<Seq<char>, Seq<char>>::empty(),
    {
        let r = Cache { entries: Vec::new() };
        assert(r@ =~= Map::<Seq<char>, Seq<char>>::empty());
        r
    }

    /// The destination stored for `key`.
    pub fn get(&self, key: &String) -> (r: Option<String>)
        ensures
            map_get(self@, key@) == (match r {
                Some(v) => Some(v@),
                None => None,
            }),
    {
        let ghost pv = pairs_view(self.entries@);
        let mut i: usize = self.entries.len();
        proof {
            assert(pv.subrange(0, i as int) =~= pv);
        }
        while i > 0
            invariant
                i <= self.entries@.len(),
                pv == pairs_view(self.entries@),
                lookup(pv.subrange(0, i as int), key@) == lookup(pv, key@),
            decreases i,
        {
            proof {
                assert(pv.subrange(0, i as int).drop_last() =~= pv.subrange(0, i - 1));
            }
            if self.entries[i - 1].0 == *key {
                proof {
                    lemma_entries_get(self.entries@, key@);
                }
                return Some(self.entries[i - 1].1.clone());
            }
            i = i - 1;
        }
        proof {
            lemma_entries_get(self.entries@, key@);
        }
        None
    }

    /// Drops the entry for `key`, if any.
    pub fn remove(&mut self, key: &String)
        ensures
            final(self)@ == old(self)@.remove(key@),
    {
        let ghost pv = pairs_view(self.entries@);
        let mut kept: Vec<(String, String)> = Vec::new();
        let mut i: usize = 0;
        while i < self.entries.len()
            invariant
                i <= self.entries@.len(),
                pv == pairs_view(self.entries@),
                forall|k: Seq<char>|
                    lookup(pairs_view(kept@), k) == if k == key@ {
                        None
                    } else {
                        lookup(pv.subrange(0, i as int), k)
                    },
            decreases self.entries.len() - i,
        {
            let ghost before = kept@;
            proof {
                assert(pv.subrange(0, i + 1).drop_last() =~= pv.subrange(0, i as int));
            }
            let ghost cur = pv[i as int];
            assert(cur == (self.entries@[i as int].0@, self.entries@[i as int].1@));
            assert(pv.subrange(0, i + 1).last() == cur);
            if !(self.entries[i].0 == *key) {
                let e = (self.entries[i].0.clone(), self.entries[i].1.clone());
                kept.push(e);
                proof {
                    assert(kept@.drop_last() =~= before);
                    assert(pairs_view(kept@).drop_last() =~= pairs_view(before));
                    assert(pairs_view(kept@).last() == cur);
                }
            }
            i = i + 1;
            proof {
                assert forall|k: Seq<char>|
                    lookup(pairs_view(kept@), k) == if k == key@ {
                        None
                    } else {
                        lookup(pv.subrange(0, i as int), k)
                    } by {
                    assert(lookup(pairs_view(before), k) == if k == key@ {
                        None
                    } else {
                        lookup(pv.subrange(0, i - 1), k)
                    });
                }
            }
        }
        proof {
            assert(pv.subrange(0, i as int) =~= pv);
        }
        let ghost old_view = self@;
        let ghost old_entries = self.entries@;
        self.entries = kept;
        proof {
            assert forall|k: Seq<char>| #[trigger] map_get(self@, k) == map_get(old_view.remove(key@), k) by {
                lemma_entries_get(self.entries@, k);
                lemma_entries_get(old_entries, k);
            }
            assert(self@ =~= old_view.remove(key@)) by {
                assert forall|k: Seq<char>| self@.contains_key(k) == old_view.remove(key@).contains_key(k) by {
                    assert(map_get(self@, k) == map_get(old_view.remove(key@), k));
                }
            }
        }
    }

    /// Stores `value` as the destination for `key`, replacing any earlier one.
    pub fn set(&mut self, key: String, value: String)
        ensures
            final(self)@ == old(self)@.insert(key@, value@),
    {
        let ghost old_view = self@;
        self.remove(&key);
        let ghost mid = self@;
        let ghost before = self.entries@;
        let ghost kv = key@;
        let ghost vv = value@;
        self.entries.push((key, value));
        let ghost now = self@;
        let ghost want = old_view.insert(kv, vv);
        proof {
            assert(self.entries@.drop_last() =~= before);
            assert(pairs_view(self.entries@).drop_last() =~= pairs_view(before));
            assert forall|k: Seq<char>|
                #![trigger now.dom().contains(k)]
                #![trigger want.dom().contains(k)]
                now.contains_key(k) == want.contains_key(k) && (now.contains_key(k) ==> now[k]
                    == want[k]) by {
                lemma_entries_get(self.entries@, k);
                lemma_entries_get(before, k);
                assert(map_get(mid, k) == map_get(old_view.remove(kv), k));
                assert(map_get(now, k) == map_get(want, k));
            }
            assert(now =~= want);
        }
    }
}

} // verus!
