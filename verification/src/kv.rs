//! The key-value store behind the RPC service: a map from byte strings to
//! byte strings.

use vstd::prelude::*;
use crate::text::same_bytes;

verus! {

/// Why a call on the store failed.
#[derive(Clone, Copy, Debug, PartialEq, Eq, Structural)]
pub enum KvError {
    /// The key is not in the store.
    NotFound,
}

/// A map from keys to values. Each key stands once.
pub struct KvStore {
    entries: Vec<(Vec<u8>, Vec<u8>)>,
}

/// No key stands twice.
pub open spec fn distinct_keys(entries: Seq<(Vec<u8>, Vec<u8>)>) -> bool {
    forall|i: int, j: int|
        0 <= i < entries.len() && 0 <= j < entries.len() && (#[trigger] entries[i]).0@ == (
        #[trigger] entries[j]).0@ ==> i == j
}

/// Some entry has the key `key`.
pub open spec fn has_key(entries: Seq<(Vec<u8>, Vec<u8>)>, key: Seq<u8>) -> bool {
    exists|i: int| 0 <= i < entries.len() && (#[trigger] entries[i]).0@ == key
}

/// The place of an entry that has the key `key`.
pub open spec fn place_of(entries: Seq<(Vec<u8>, Vec<u8>)>, key: Seq<u8>) -> int {
    choose|i: int| 0 <= i < entries.len() && (#[trigger] entries[i]).0@ == key
}

/// The map that the entries stand for.
pub open spec fn map_of(entries: Seq<(Vec<u8>, Vec<u8>)>) -> Map<Seq<u8>, Seq<u8>> {
    Map::new(
        |key: Seq<u8>| has_key(entries, key),
        |key: Seq<u8>| entries[place_of(entries, key)].1@,
    )
}

/// The number that follows `input`, where the largest is followed by zero.
pub open spec fn following(input: u32) -> u32 {
    if input == u32::MAX {
        0
    } else {
        (input + 1) as u32
    }
}

/// The keys of a sequence of entries are finitely many.
proof fn lemma_keys_finite(entries: Seq<(Vec<u8>, Vec<u8>)>)
    ensures
        map_of(entries).dom().finite(),
    decreases entries.len(),
{
    let keys = map_of(entries).dom();
    if entries.len() == 0 {
        assert(keys =~= Set::<Seq<u8>>::empty());
    } else {
        let fewer = entries.drop_last();
        lemma_keys_finite(fewer);
        let last = entries.last().0@;
        assert forall|k: Seq<u8>| keys.contains(k) == map_of(fewer).dom().insert(last).contains(
            k,
        ) by {
            if has_key(entries, k) {
                let i = place_of(entries, k);
                if i < fewer.len() {
                    assert(fewer[i].0@ == k);
                }
            }
            if has_key(fewer, k) {
                let i = place_of(fewer, k);
                assert(entries[i].0@ == k);
            }
            if k == last {
                assert(entries[entries.len() - 1].0@ == k);
            }
        }
        assert(keys =~= map_of(fewer).dom().insert(last));
    }
}

impl View for KvStore {
    type V = Map<Seq<u8>, Seq<u8>>;

    closed spec fn view(&self) -> Map<Seq<u8>, Seq<u8>> {
        map_of(self.entries@)
    }
}

/// The store as it is when the service starts: empty.
pub fn start() -> (store: KvStore)
    ensures
        store.wf(),
        store@ == Map::<Seq<u8>, Seq<u8>>::empty(),
{
    let store = KvStore { entries: Vec::new() };
    assert(store@ =~= Map::<Seq<u8>, Seq<u8>>::empty());
    store
}

impl KvStore {
    /// The store is well formed: no key stands twice in it. Every store
    /// that this module hands out is, and stays so.
    pub closed spec fn wf(&self) -> bool {
        distinct_keys(self.entries@)
    }

    /// A store holds finitely many keys.
    pub proof fn lemma_finite(&self)
        ensures
            self@.dom().finite(),
    {
        lemma_keys_finite(self.entries@);
    }

    /// The place of `key` among the entries.
    fn find(&self, key: &[u8]) -> (r: Option<usize>)
        ensures
            match r {
                Some(i) => i < self.entries@.len() && self.entries@[i as int].0@ == key@,
                None => !has_key(self.entries@, key@),
            },
    {
        let mut i: usize = 0;
        while i < self.entries.len()
            invariant
                i <= self.entries@.len(),
                forall|j: int| 0 <= j < i ==> (#[trigger] self.entries@[j]).0@ != key@,
            decreases self.entries@.len() - i,
        {
            if same_bytes(self.entries[i].0.as_slice(), key) {
                return Some(i);
            }
            i += 1;
        }
        None
    }

    /// Answers with the number that follows `input`; behind the largest
    /// number the count starts again at zero.
    pub fn example(&self, input: u32) -> (output: u32)
        ensures
            output == following(input),
    {
        if input == u32::MAX {
            0
        } else {
            input + 1
        }
    }

    /// Answers with the message that it was given.
    pub fn echo(&self, msg: String) -> (output: String)
        ensures
            output == msg,
    {
        msg
    }

    /// Stores `value` under `key`, in place of what was there. Always
    /// succeeds.
    pub fn put(&mut self, key: Vec<u8>, value: Vec<u8>)
        requires
            old(self).wf(),
        ensures
            final(self).wf(),
            final(self)@ == old(self)@.insert(key@, value@),
    {
        let ghost before = self.entries@;
        match self.find(key.as_slice()) {
            Some(i) => {
                self.entries.set(i, (key, value));
                proof {
                    let after = self.entries@;
                    assert forall|k: Seq<u8>| has_key(after, k) == has_key(before, k) by {
                        if has_key(before, k) {
                            let j = place_of(before, k);
                            assert(after[j].0@ == k);
                        }
                        if has_key(after, k) {
                            let j = place_of(after, k);
                            assert(before[j].0@ == k);
                        }
                    }
                    assert forall|k: Seq<u8>| has_key(after, k) implies #[trigger] map_of(after)[k]
                        == map_of(before).insert(key@, value@)[k] by {
                        let j = place_of(after, k);
                        if k == key@ {
                            assert(after[i as int].0@ == k);
                        } else {
                            assert(before[j].0@ == k);
                        }
                    }
                    assert(map_of(after) =~= map_of(before).insert(key@, value@));
                }
            },
            None => {
                self.entries.push((key, value));
                proof {
                    let after = self.entries@;
                    let n = before.len() as int;
                    assert(after[n].0@ == key@);
                    assert forall|k: Seq<u8>| has_key(after, k) == (has_key(before, k) || k
                        == key@) by {
                        if has_key(before, k) {
                            let j = place_of(before, k);
                            assert(after[j].0@ == k);
                        }
                        if has_key(after, k) && k != key@ {
                            let j = place_of(after, k);
                            assert(before[j].0@ == k);
                        }
                    }
                    assert forall|k: Seq<u8>| has_key(after, k) implies #[trigger] map_of(after)[k]
                        == map_of(before).insert(key@, value@)[k] by {
                        let j = place_of(after, k);
                        if k != key@ {
                            let j0 = place_of(before, k);
                            assert(before[j].0@ == k);
                            assert(after[j0].0@ == k);
                        }
                    }
                    assert(map_of(after) =~= map_of(before).insert(key@, value@));
                }
            },
        }
    }

    /// The value stored under `key`; `NotFound` where there is none.
    pub fn get(&self, key: &[u8]) -> (r: Result<Vec<u8>, KvError>)
        requires
            self.wf(),
        ensures
            match r {
                Ok(value) => self@.contains_key(key@) && self@[key@] == value@,
                Err(e) => e == KvError::NotFound && !self@.contains_key(key@),
            },
    {
        match self.find(key) {
            Some(i) => {
                proof {
                    let j = place_of(self.entries@, key@);
                    assert(self.entries@[j].0@ == key@);
                }
                Ok(self.entries[i].1.clone())
            },
            None => Err(KvError::NotFound),
        }
    }
}

} // verus!
