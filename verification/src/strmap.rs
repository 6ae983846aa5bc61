//! String-keyed maps used by the decoded chart.
//!
//! A chart stores its song properties and its per-track key presses in maps
//! keyed by strings. These maps are built once during decoding and read
//! afterwards, so they are kept as vectors of pairs with pairwise-distinct
//! keys; their mathematical view is a `Map` over the keys' character
//! sequences, and `insert` has the usual overwrite semantics.

use vstd::prelude::*;

use crate::chart::key_press_views;
use crate::chart::KeyPressEvent;
use crate::chart::KeyPressEventView;
use crate::scan::str_eq;

verus! {

/// The song properties of a chart: a map from property name to its raw value.
#[derive(Debug)]
pub struct Properties {
    pairs: Vec<(String, String)>,
}

impl View for Properties {
    type V = Map<Seq<char>, Seq<char>>;

    closed spec fn view(&self) -> Map<Seq<char>, Seq<char>> {
        Map::new(
            |k: Seq<char>|
                exists|i: int| 0 <= i < self.pairs@.len() && (#[trigger] self.pairs@[i]).0@ == k,
            |k: Seq<char>|
                {
                    let i = choose|i: int|
                        0 <= i < self.pairs@.len() && (#[trigger] self.pairs@[i]).0@ == k;
                    self.pairs@[i].1@
                },
        )
    }
}

impl Properties {
    /// The stored keys are pairwise distinct, so each key names one value.
    pub closed spec fn wf(&self) -> bool {
        forall|i: int, j: int|
            0 <= i < j < self.pairs@.len() ==> (#[trigger] self.pairs@[i]).0@ != (
            #[trigger] self.pairs@[j]).0@
    }

    /// Each stored pair is the map entry for its key.
    proof fn lemma_pair_entry(&self, i: int)
        requires
            self.wf(),
            0 <= i < self.pairs@.len(),
        ensures
            self@.contains_key(self.pairs@[i].0@),
            self@[self.pairs@[i].0@] == self.pairs@[i].1@,
    {
        let k = self.pairs@[i].0@;
        let j = choose|j: int| 0 <= j < self.pairs@.len() && (#[trigger] self.pairs@[j]).0@ == k;
        assert(j == i);
    }

    /// Creates an empty property map.
    pub(crate) fn new() -> (r: Self)
        ensures
            r@ == Map::<Seq<char>, Seq<char>>::empty(),
            r.wf(),
    {
        let r = Properties { pairs: Vec::new() };
        proof {
            assert(r@ =~= Map::<Seq<char>, Seq<char>>::empty());
        }
        r
    }

    /// Adds a property, overwriting the value of an equal key.
    #[verifier::loop_isolation(false)]
    pub(crate) fn insert(&mut self, key: String, value: String)
        requires
            old(self).wf(),
        ensures
            final(self).wf(),
            final(self)@ == old(self)@.insert(key@, value@),
    {
        let n = self.pairs.len();
        let mut i: usize = 0;
        while i < n
            invariant
                n == self.pairs@.len(),
                i <= n,
                *self == *old(self),
                forall|j: int| 0 <= j < i ==> (#[trigger] self.pairs@[j]).0@ != key@,
            decreases n - i,
        {
            if self.pairs[i].0 == key {
                let ghost old_self = *self;
                self.pairs[i] = (key, value);
                proof {
                    assert(self.pairs@[i as int].0@ == key@);
                    assert(old_self.pairs@[i as int].0@ == key@);
                    assert forall|k: Seq<char>| true implies #[trigger] self@.contains_key(k)
                        == old_self@.insert(key@, value@).contains_key(k) by {
                        if self@.contains_key(k) {
                            let j = choose|j: int|
                                0 <= j < self.pairs@.len() && (#[trigger] self.pairs@[j]).0@ == k;
                            assert(old_self.pairs@[j].0@ == k);
                        }
                        if old_self@.insert(key@, value@).contains_key(k) {
                            if k == key@ {
                                assert(self.pairs@[i as int].0@ == k);
                            } else {
                                let j = choose|j: int|
                                    0 <= j < old_self.pairs@.len() && (
                                    #[trigger] old_self.pairs@[j]).0@ == k;
                                assert(self.pairs@[j].0@ == k);
                            }
                        }
                    }
                    assert forall|k: Seq<char>| self@.contains_key(k) implies #[trigger] self@[k]
                        == old_self@.insert(key@, value@)[k] by {
                        if k == key@ {
                            let j = choose|j: int|
                                0 <= j < self.pairs@.len() && (#[trigger] self.pairs@[j]).0@ == k;
                            assert(self.pairs@[i as int].0@ == k);
                            assert(j == i);
                        } else {
                            let j = choose|j: int|
                                0 <= j < self.pairs@.len() && (#[trigger] self.pairs@[j]).0@ == k;
                            assert(old_self.pairs@[j].0@ == k);
                            old_self.lemma_pair_entry(j);
                        }
                    }
                    assert(self@ =~= old_self@.insert(key@, value@));
                }
                return ;
            }
            i = i + 1;
        }
        let ghost old_self = *self;
        self.pairs.push((key, value));
        proof {
            let m = self.pairs@.len() - 1;
            assert forall|k: Seq<char>| self@.contains_key(k) implies #[trigger] self@[k]
                == old_self@.insert(key@, value@)[k] by {
                let j = choose|j: int|
                    0 <= j < self.pairs@.len() && (#[trigger] self.pairs@[j]).0@ == k;
                if j == m {
                    assert(self.pairs@[m].0@ == key@);
                } else {
                    assert(old_self.pairs@[j].0@ == k);
                    old_self.lemma_pair_entry(j);
                }
            }
            assert forall|k: Seq<char>| old_self@.insert(key@, value@).contains_key(k) implies
                #[trigger] self@.contains_key(k) by {
                if k == key@ {
                    assert(self.pairs@[m].0@ == k);
                } else {
                    let j = choose|j: int|
                        0 <= j < old_self.pairs@.len() && (#[trigger] old_self.pairs@[j]).0@ == k;
                    assert(self.pairs@[j].0@ == k);
                }
            }
            assert(self@ =~= old_self@.insert(key@, value@));
        }
    }

    /// Looks up a property by name.
    pub fn get(&self, key: &str) -> (r: Option<&String>)
        requires
            self.wf(),
        ensures
            match r {
                Some(v) => self@.contains_key(key@) && v@ == self@[key@],
                None => !self@.contains_key(key@),
            },
    {
        let n = self.pairs.len();
        let mut i: usize = 0;
        while i < n
            invariant
                self.wf(),
                n == self.pairs@.len(),
                i <= n,
                forall|j: int| 0 <= j < i ==> (#[trigger] self.pairs@[j]).0@ != key@,
            decreases n - i,
        {
            if str_eq(self.pairs[i].0.as_str(), key) {
                proof {
                    self.lemma_pair_entry(i as int);
                }
                return Some(&self.pairs[i].1);
            }
            i = i + 1;
        }
        None
    }

    /// The stored pairs, for iteration; each is an entry of the map.
    pub fn entries(&self) -> (r: &Vec<(String, String)>)
        requires
            self.wf(),
        ensures
            forall|i: int|
                0 <= i < r@.len() ==> self@.contains_key((#[trigger] r@[i]).0@) && self@[r@[i].0@]
                    == r@[i].1@,
    {
        proof {
            assert forall|i: int| 0 <= i < self.pairs@.len() implies self@.contains_key(
                (#[trigger] self.pairs@[i]).0@,
            ) && self@[self.pairs@[i].0@] == self.pairs@[i].1@ by {
                self.lemma_pair_entry(i);
            }
        }
        &self.pairs
    }
}

/// The key presses of a chart: a map from track name to that track's events.
#[derive(Debug)]
pub struct TrackMap {
    pairs: Vec<(String, Vec<KeyPressEvent>)>,
}

impl View for TrackMap {
    type V = Map<Seq<char>, Seq<KeyPressEventView>>;

    closed spec fn view(&self) -> Map<Seq<char>, Seq<KeyPressEventView>> {
        Map::new(
            |k: Seq<char>|
                exists|i: int| 0 <= i < self.pairs@.len() && (#[trigger] self.pairs@[i]).0@ == k,
            |k: Seq<char>|
                {
                    let i = choose|i: int|
                        0 <= i < self.pairs@.len() && (#[trigger] self.pairs@[i]).0@ == k;
                    key_press_views(self.pairs@[i].1@)
                },
        )
    }
}

impl TrackMap {
    /// The stored keys are pairwise distinct, so each key names one track.
    pub closed spec fn wf(&self) -> bool {
        forall|i: int, j: int|
            0 <= i < j < self.pairs@.len() ==> (#[trigger] self.pairs@[i]).0@ != (
            #[trigger] self.pairs@[j]).0@
    }

    /// Each stored pair is the map entry for its key.
    proof fn lemma_pair_entry(&self, i: int)
        requires
            self.wf(),
            0 <= i < self.pairs@.len(),
        ensures
            self@.contains_key(self.pairs@[i].0@),
            self@[self.pairs@[i].0@] == key_press_views(self.pairs@[i].1@),
    {
        let k = self.pairs@[i].0@;
        let j = choose|j: int| 0 <= j < self.pairs@.len() && (#[trigger] self.pairs@[j]).0@ == k;
        assert(j == i);
    }

    /// Creates an empty track map.
    pub(crate) fn new() -> (r: Self)
        ensures
            r@ == Map::<Seq<char>, Seq<KeyPressEventView>>::empty(),
            r.wf(),
    {
        let r = TrackMap { pairs: Vec::new() };
        proof {
            assert(r@ =~= Map::<Seq<char>, Seq<KeyPressEventView>>::empty());
        }
        r
    }

    /// Adds a track, overwriting the events of an equal track name.
    #[verifier::loop_isolation(false)]
    pub(crate) fn insert(&mut self, key: String, value: Vec<KeyPressEvent>)
        requires
            old(self).wf(),
        ensures
            final(self).wf(),
            final(self)@ == old(self)@.insert(key@, key_press_views(value@)),
    {
        let n = self.pairs.len();
        let mut i: usize = 0;
        while i < n
            invariant
                n == self.pairs@.len(),
                i <= n,
                *self == *old(self),
                forall|j: int| 0 <= j < i ==> (#[trigger] self.pairs@[j]).0@ != key@,
            decreases n - i,
        {
            if self.pairs[i].0 == key {
                let ghost old_self = *self;
                self.pairs[i] = (key, value);
                proof {
                    let ghost vv = key_press_views(self.pairs@[i as int].1@);
                    assert(self.pairs@[i as int].0@ == key@);
                    assert(old_self.pairs@[i as int].0@ == key@);
                    assert forall|k: Seq<char>| true implies #[trigger] self@.contains_key(k)
                        == old_self@.insert(key@, vv).contains_key(k) by {
                        if self@.contains_key(k) {
                            let j = choose|j: int|
                                0 <= j < self.pairs@.len() && (#[trigger] self.pairs@[j]).0@ == k;
                            assert(old_self.pairs@[j].0@ == k);
                        }
                        if old_self@.insert(key@, vv).contains_key(k) {
                            if k == key@ {
                                assert(self.pairs@[i as int].0@ == k);
                            } else {
                                let j = choose|j: int|
                                    0 <= j < old_self.pairs@.len() && (
                                    #[trigger] old_self.pairs@[j]).0@ == k;
                                assert(self.pairs@[j].0@ == k);
                            }
                        }
                    }
                    assert forall|k: Seq<char>| self@.contains_key(k) implies #[trigger] self@[k]
                        == old_self@.insert(key@, vv)[k] by {
                        if k == key@ {
                            let j = choose|j: int|
                                0 <= j < self.pairs@.len() && (#[trigger] self.pairs@[j]).0@ == k;
                            assert(self.pairs@[i as int].0@ == k);
                            assert(j == i);
                        } else {
                            let j = choose|j: int|
                                0 <= j < self.pairs@.len() && (#[trigger] self.pairs@[j]).0@ == k;
                            assert(old_self.pairs@[j].0@ == k);
                            old_self.lemma_pair_entry(j);
                        }
                    }
                    assert(self@ =~= old_self@.insert(key@, vv));
                }
                return ;
            }
            i = i + 1;
        }
        let ghost old_self = *self;
        self.pairs.push((key, value));
        proof {
            let m = self.pairs@.len() - 1;
            let ghost vv = key_press_views(self.pairs@[m].1@);
            assert forall|k: Seq<char>| self@.contains_key(k) implies #[trigger] self@[k]
                == old_self@.insert(key@, vv)[k] by {
                let j = choose|j: int|
                    0 <= j < self.pairs@.len() && (#[trigger] self.pairs@[j]).0@ == k;
                if j == m {
                    assert(self.pairs@[m].0@ == key@);
                } else {
                    assert(old_self.pairs@[j].0@ == k);
                    old_self.lemma_pair_entry(j);
                }
            }
            assert forall|k: Seq<char>| old_self@.insert(key@, vv).contains_key(k) implies
                #[trigger] self@.contains_key(k) by {
                if k == key@ {
                    assert(self.pairs@[m].0@ == k);
                } else {
                    let j = choose|j: int|
                        0 <= j < old_self.pairs@.len() && (#[trigger] old_self.pairs@[j]).0@ == k;
                    assert(self.pairs@[j].0@ == k);
                }
            }
            assert(self@ =~= old_self@.insert(key@, vv));
        }
    }

    /// Looks up a track by name.
    pub fn get(&self, key: &str) -> (r: Option<&Vec<KeyPressEvent>>)
        requires
            self.wf(),
        ensures
            match r {
                Some(v) => self@.contains_key(key@) && key_press_views(v@) == self@[key@],
                None => !self@.contains_key(key@),
            },
    {
        let n = self.pairs.len();
        let mut i: usize = 0;
        while i < n
            invariant
                self.wf(),
                n == self.pairs@.len(),
                i <= n,
                forall|j: int| 0 <= j < i ==> (#[trigger] self.pairs@[j]).0@ != key@,
            decreases n - i,
        {
            if str_eq(self.pairs[i].0.as_str(), key) {
                proof {
                    self.lemma_pair_entry(i as int);
                }
                return Some(&self.pairs[i].1);
            }
            i = i + 1;
        }
        None
    }

    /// The stored pairs, for iteration; each is an entry of the map.
    pub fn entries(&self) -> (r: &Vec<(String, Vec<KeyPressEvent>)>)
        requires
            self.wf(),
        ensures
            forall|i: int|
                0 <= i < r@.len() ==> self@.contains_key((#[trigger] r@[i]).0@) && self@[r@[i].0@]
                    == key_press_views(r@[i].1@),
    {
        proof {
            assert forall|i: int| 0 <= i < self.pairs@.len() implies self@.contains_key(
                (#[trigger] self.pairs@[i]).0@,
            ) && self@[self.pairs@[i].0@] == key_press_views(self.pairs@[i].1@) by {
                self.lemma_pair_entry(i);
            }
        }
        &self.pairs
    }
}

} // verus!
