//! Key-addressed byte storage with a strictly increasing key allocator.

use crate::types::ContentKey;
use vstd::prelude::*;

verus! {

/// Immutable payloads, each stored under the key that was next when it came
/// in. Keys start at zero and grow by one; no entry is replaced or removed.
pub struct ContentStore {
    entries: Vec<Vec<u8>>,
}

impl View for ContentStore {
    type V = Seq<Seq<u8>>;

    /// The payloads in the order of their keys: the payload under key `k`
    /// stands at index `k`.
    closed spec fn view(&self) -> Seq<Seq<u8>> {
        Seq::new(self.entries@.len(), |i: int| self.entries@[i]@)
    }
}

/// What a store with the entries `entries` answers for `key`.
pub open spec fn content_at(entries: Seq<Seq<u8>>, key: ContentKey) -> Option<Seq<u8>> {
    if key < entries.len() {
        Some(entries[key as int])
    } else {
        None
    }
}

impl ContentStore {
    /// Every key that the store has handed out, and the next one, fits the
    /// key type.
    pub proof fn lemma_keys_fit(&self)
        ensures
            self@.len() <= usize::MAX,
            self@.len() <= ContentKey::MAX,
    {
        assert(self.entries@.len() == self.entries.len());
    }

    /// The store without any entry.
    pub fn new() -> (store: ContentStore)
        ensures
            store@ == Seq::<Seq<u8>>::empty(),
    {
        let store = ContentStore { entries: Vec::new() };
        assert(store@ =~= Seq::<Seq<u8>>::empty());
        store
    }

    /// Number of entries, which is also the next key.
    pub fn len(&self) -> (n: usize)
        ensures
            n == self@.len(),
    {
        self.entries.len()
    }

    /// Stores `bytes` under the next key and returns that key. Every earlier
    /// entry stays as it was.
    pub fn put(&mut self, bytes: Vec<u8>) -> (key: ContentKey)
        ensures
            key == old(self)@.len(),
            final(self)@ == old(self)@.push(bytes@),
    {
        let key = self.entries.len() as u64;
        self.entries.push(bytes);
        assert(self@ =~= old(self)@.push(bytes@));
        key
    }

    /// The bytes stored under a key that `put` has handed out.
    pub(crate) fn fetch(&self, key: ContentKey) -> (bytes: &Vec<u8>)
        requires
            key < self@.len(),
        ensures
            bytes@ == self@[key as int],
    {
        proof {
            self.lemma_keys_fit();
        }
        &self.entries[key as usize]
    }

    /// The bytes stored under `key`, or `None` for a key that `put` has not
    /// handed out.
    pub fn get(&self, key: ContentKey) -> (found: Option<&Vec<u8>>)
        ensures
            match found {
                Some(bytes) => content_at(self@, key) == Some(bytes@),
                None => content_at(self@, key) is None,
            },
    {
        if key < self.entries.len() as u64 {
            Some(&self.entries[key as usize])
        } else {
            None
        }
    }
}

} // verus!
