//! An executable model of one replicated key/value document.
//!
//! The engine resolves each key to a single latest entry, and treats the
//! key given to a write or a delete as a *prefix*: a delete removes every
//! entry whose key extends the given one, and a write clobbers every
//! entry whose key strictly extends the written key. The store above
//! this model never triggers the destructive cases, and proves that from
//! the key framing convention in `keys`.

use vstd::prelude::*;
use crate::keys::is_prefix_spec;
use crate::keys::strict_prefix_spec;

verus! {

/// One document: the latest entry per key.
pub struct DocModel {
    entries: Vec<(String, Vec<u8>)>,
    contents: Ghost<Map<Seq<char>, Seq<u8>>>,
}

/// Byte-for-byte copy of a byte vector.
pub(crate) fn clone_bytes(v: &Vec<u8>) -> (r: Vec<u8>)
    ensures
        r@ == v@,
{
    let mut r: Vec<u8> = Vec::new();
    let mut i: usize = 0;
    while i < v.len()
        invariant
            i <= v.len(),
            r@ == v@.subrange(0, i as int),
        decreases v.len() - i,
    {
        let b = v[i];
        r.push(b);
        proof {
            assert(r@ =~= v@.subrange(0, i as int + 1));
        }
        i += 1;
    }
    proof {
        assert(r@ =~= v@);
    }
    r
}

impl View for DocModel {
    type V = Map<Seq<char>, Seq<u8>>;

    closed spec fn view(&self) -> Map<Seq<char>, Seq<u8>> {
        self.contents@
    }
}

impl DocModel {
    /// The entry list and the ghost map agree and keys are unique.
    pub closed spec fn wf(self) -> bool {
        &&& (forall|i: int, j: int|
            0 <= i < j < self.entries@.len() ==> self.entries@[i].0@ != self.entries@[j].0@)
        &&& (forall|i: int|
            0 <= i < self.entries@.len() ==> #[trigger] self.contents@.dom().contains(
                self.entries@[i].0@,
            ) && self.contents@[self.entries@[i].0@] == self.entries@[i].1@)
        &&& (forall|k: Seq<char>| #[trigger]
            self.contents@.dom().contains(k) ==> exists|i: int|
                0 <= i < self.entries@.len() && self.entries@[i].0@ == k)
    }

    /// A fresh, empty document.
    pub fn new() -> (r: DocModel)
        ensures
            r.wf(),
            r@ == Map::<Seq<char>, Seq<u8>>::empty(),
    {
        DocModel { entries: Vec::new(), contents: Ghost(Map::empty()) }
    }

    fn find_index(&self, key: &String) -> (r: Option<usize>)
        ensures
            match r {
                Some(i) => i < self.entries@.len() && self.entries@[i as int].0@ == key@,
                None => forall|i: int|
                    0 <= i < self.entries@.len() ==> self.entries@[i].0@ != key@,
            },
    {
        let mut i: usize = 0;
        while i < self.entries.len()
            invariant
                i <= self.entries@.len(),
                forall|j: int| 0 <= j < i ==> self.entries@[j].0@ != key@,
            decreases self.entries@.len() - i,
        {
            if self.entries[i].0 == *key {
                return Some(i);
            }
            i += 1;
        }
        None
    }

    /// The latest value stored under exactly this key, if any.
    pub fn get(&self, key: &String) -> (r: Option<Vec<u8>>)
        requires
            self.wf(),
        ensures
            match r {
                Some(v) => self@.dom().contains(key@) && v@ == self@[key@],
                None => !self@.dom().contains(key@),
            },
    {
        match self.find_index(key) {
            Some(i) => {
                proof {
                    assert(self.contents@.dom().contains(self.entries@[i as int].0@));
                }
                Some(clone_bytes(&self.entries[i].1))
            },
            None => {
                proof {
                    if self@.dom().contains(key@) {
                        let i = choose|i: int|
                            0 <= i < self.entries@.len() && self.entries@[i].0@ == key@;
                        assert(self.entries@[i].0@ != key@);
                    }
                }
                None
            },
        }
    }

    /// Remove every entry whose key extends the given one, itself included.
    #[verifier::rlimit(50)]
    fn remove_prefixed(&mut self, key: &String)
        requires
            old(self).wf(),
        ensures
            final(self).wf(),
            final(self)@ == old(self)@.remove_keys(
                Set::new(|k: Seq<char>| is_prefix_spec(key@, k)),
            ),
    {
        let ghost olde = self.entries@;
        let ghost oldm = self.contents@;
        let ghost target = oldm.remove_keys(Set::new(|k: Seq<char>| is_prefix_spec(key@, k)));
        let mut kept: Vec<(String, Vec<u8>)> = Vec::new();
        let n = self.entries.len();
        let mut i: usize = 0;
        while i < n
            invariant
                i <= n,
                n == olde.len(),
                self.entries@ == olde,
                forall|a: int, b: int| 0 <= a < b < olde.len() ==> olde[a].0@ != olde[b].0@,
                forall|a: int, b: int| 0 <= a < b < kept@.len() ==> kept@[a].0@ != kept@[b].0@,
                forall|a: int|
                    0 <= a < kept@.len() ==> !is_prefix_spec(key@, kept@[a].0@) && exists|j: int|
                        0 <= j < i && olde[j].0@ == #[trigger] kept@[a].0@ && olde[j].1@
                            == kept@[a].1@,
                forall|j: int|
                    0 <= j < i && !is_prefix_spec(key@, #[trigger] olde[j].0@) ==> exists|a: int|
                        0 <= a < kept@.len() && kept@[a].0@ == olde[j].0@,
            decreases n - i,
        {
            let ghost kept0 = kept@;
            let keep = !crate::keys::is_prefix_of(key.as_str(), self.entries[i].0.as_str());
            if keep {
                let k2 = self.entries[i].0.clone();
                let v2 = clone_bytes(&self.entries[i].1);
                kept.push((k2, v2));
                proof {
                    assert(kept@ == kept0.push((k2, v2)));
                    assert(kept@[kept@.len() - 1].0@ == olde[i as int].0@);
                    assert(kept@[kept@.len() - 1].1@ == olde[i as int].1@);
                    assert forall|a: int| 0 <= a < kept@.len() implies !is_prefix_spec(
                        key@,
                        kept@[a].0@,
                    ) && exists|j: int|
                        0 <= j < i + 1 && olde[j].0@ == #[trigger] kept@[a].0@ && olde[j].1@
                            == kept@[a].1@ by {
                        if a < kept0.len() {
                            assert(kept@[a] == kept0[a]);
                            let j = choose|j: int|
                                0 <= j < i && olde[j].0@ == kept0[a].0@ && olde[j].1@
                                    == kept0[a].1@;
                            assert(0 <= j < i + 1 && olde[j].0@ == kept@[a].0@ && olde[j].1@
                                == kept@[a].1@);
                        } else {
                            let ghost j = i as int;
                            assert(0 <= j < i + 1 && olde[j].0@ == kept@[a].0@ && olde[j].1@
                                == kept@[a].1@);
                        }
                    }
                    assert forall|a: int, b: int|
                        0 <= a < b < kept@.len() implies kept@[a].0@ != kept@[b].0@ by {
                        if b == kept@.len() - 1 {
                            let j = choose|j: int|
                                0 <= j < i && olde[j].0@ == kept0[a].0@ && olde[j].1@
                                    == kept0[a].1@;
                            assert(olde[j].0@ != olde[i as int].0@);
                        }
                    }
                }
            }
            proof {
                assert forall|j: int|
                    0 <= j < i + 1 && !is_prefix_spec(key@, #[trigger] olde[j].0@) implies exists|
                    a: int,
                | 0 <= a < kept@.len() && kept@[a].0@ == olde[j].0@ by {
                    if j == i {
                        assert(keep);
                        assert(kept@[kept@.len() - 1].0@ == olde[j].0@);
                    } else {
                        let a = choose|a: int| 0 <= a < kept0.len() && kept0[a].0@ == olde[j].0@;
                        assert(kept@[a].0@ == olde[j].0@);
                    }
                }
            }
            i += 1;
        }
        self.entries = kept;
        proof {
            self.contents@ = target;
        }
        proof {
            // Well-formedness of the filtered list against the shrunk map.
            assert forall|a: int| 0 <= a < self.entries@.len() implies #[trigger] self.contents@
                .dom().contains(self.entries@[a].0@) && self.contents@[self.entries@[a].0@]
                == self.entries@[a].1@ by {
                let j = choose|j: int|
                    0 <= j < olde.len() && olde[j].0@ == self.entries@[a].0@ && olde[j].1@
                        == self.entries@[a].1@;
                assert(oldm.dom().contains(olde[j].0@));
            }
            assert forall|k: Seq<char>| #[trigger] self.contents@.dom().contains(k) implies exists|
                a: int,
            | 0 <= a < self.entries@.len() && self.entries@[a].0@ == k by {
                assert(oldm.dom().contains(k));
                let j = choose|j: int| 0 <= j < olde.len() && olde[j].0@ == k;
                assert(!is_prefix_spec(key@, olde[j].0@));
            }
        }
    }

    /// Store a value under a key: the latest entry for that key is
    /// replaced, and every entry whose key strictly extends the written
    /// key is destroyed.
    pub fn set(&mut self, key: String, value: Vec<u8>)
        requires
            old(self).wf(),
        ensures
            final(self).wf(),
            final(self)@ == old(self)@.remove_keys(
                Set::new(|k: Seq<char>| strict_prefix_spec(key@, k)),
            ).insert(key@, value@),
    {
        let ghost oldm = self.contents@;
        self.remove_prefixed(&key);
        let ghost mid = *self;
        let ghost key_view = key@;
        let ghost value_view = value@;
        proof {
            assert(is_prefix_spec(key_view, key_view)) by {
                assert(key_view.subrange(0, key_view.len() as int) =~= key_view);
            }
            assert(!mid.contents@.dom().contains(key_view));
        }
        self.entries.push((key, value));
        proof {
            self.contents@ = mid.contents@.insert(key_view, value_view);
            let strict = Set::new(|k: Seq<char>| strict_prefix_spec(key_view, k));
            assert(self.contents@ =~= oldm.remove_keys(strict).insert(key_view, value_view)) by {
                assert forall|k: Seq<char>|
                    k != key_view && is_prefix_spec(key_view, k) implies strict_prefix_spec(
                    key_view,
                    k,
                ) by {
                    if k.len() == key_view.len() {
                        assert(k =~= key_view);
                    }
                }
            }
            let n = self.entries@.len();
            assert(self.entries@ == mid.entries@.push((key, value)));
            assert forall|a: int, b: int|
                0 <= a < b < n implies self.entries@[a].0@ != self.entries@[b].0@ by {
                if b == n - 1 {
                    assert(mid.contents@.dom().contains(mid.entries@[a].0@));
                }
            }
            assert forall|a: int| 0 <= a < n implies #[trigger] self.contents@.dom().contains(
                self.entries@[a].0@,
            ) && self.contents@[self.entries@[a].0@] == self.entries@[a].1@ by {
                if a < n - 1 {
                    assert(mid.contents@.dom().contains(mid.entries@[a].0@));
                }
            }
            assert forall|k: Seq<char>| #[trigger] self.contents@.dom().contains(k) implies exists|
                i: int,
            | 0 <= i < self.entries@.len() && self.entries@[i].0@ == k by {
                if k == key_view {
                    assert(self.entries@[n - 1].0@ == k);
                } else {
                    let i = choose|i: int|
                        0 <= i < mid.entries@.len() && mid.entries@[i].0@ == k;
                    assert(self.entries@[i].0@ == k);
                }
            }
        }
    }

    /// Delete by key: removes every entry whose key extends the given one.
    pub fn del(&mut self, key: &String)
        requires
            old(self).wf(),
        ensures
            final(self).wf(),
            final(self)@ == old(self)@.remove_keys(
                Set::new(|k: Seq<char>| is_prefix_spec(key@, k)),
            ),
    {
        self.remove_prefixed(key);
    }

    /// The stored keys, one copy of each.
    pub fn keys(&self) -> (r: Vec<String>)
        requires
            self.wf(),
        ensures
            forall|a: int, b: int| 0 <= a < b < r@.len() ==> r@[a]@ != r@[b]@,
            forall|a: int| 0 <= a < r@.len() ==> #[trigger] self@.dom().contains(r@[a]@),
            forall|k: Seq<char>| #[trigger]
                self@.dom().contains(k) ==> exists|a: int| 0 <= a < r@.len() && r@[a]@ == k,
    {
        let mut r: Vec<String> = Vec::new();
        let mut i: usize = 0;
        while i < self.entries.len()
            invariant
                i <= self.entries@.len(),
                self.wf(),
                r@.len() == i,
                forall|a: int| 0 <= a < i ==> r@[a]@ == self.entries@[a].0@,
            decreases self.entries@.len() - i,
        {
            r.push(self.entries[i].0.clone());
            i += 1;
        }
        proof {
            assert forall|k: Seq<char>| #[trigger] self@.dom().contains(k) implies exists|a: int|
                0 <= a < r@.len() && r@[a]@ == k by {
                let j = choose|j: int| 0 <= j < self.entries@.len() && self.entries@[j].0@ == k;
                assert(r@[j]@ == k);
            }
        }
        r
    }
}

} // verus!
