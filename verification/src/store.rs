//! The flash-backed key-value store, modelled as a map from string keys to
//! byte payloads. Each key holds one self-contained value; put, get and
//! remove are atomic per key.

use vstd::prelude::*;

verus! {

/// Faults of the key-value store facade.
///
/// `NotFound`: the key is absent. `LengthMismatch`: the store reported an
/// inconsistent length for a key. `InvalidKey`: a write was attempted under
/// an empty key, which is a caller defect and must be treated as fatal by
/// the caller.
#[derive(Debug, PartialEq, Eq, Structural, Clone, Copy)]
pub enum StoreError {
    NotFound,
    LengthMismatch,
    InvalidKey,
}

/// The key-value store. Its abstract value is the map from keys to the byte
/// payloads they hold.
pub struct NvsStore {
    data: vstd::hash_map::StringHashMap<Vec<u8>>,
}

impl View for NvsStore {
    type V = Map<Seq<char>, Seq<u8>>;

    closed spec fn view(&self) -> Map<Seq<char>, Seq<u8>> {
        self.data@.map_values(|v: Vec<u8>| v@)
    }
}

/// Operations every store used for settings records must offer: a read of
/// the whole payload under a key, and an atomic write of a payload under a
/// key.
pub trait NvsStorage {
    /// The map this store currently holds.
    spec fn store_view(&self) -> Map<Seq<char>, Seq<u8>>;

    /// Reads the payload stored under `key`. Read-only: the store is not
    /// changed. Fails with `NotFound` exactly when the key is absent; never
    /// invents a value.
    fn get_val(&self, key: &str) -> (r: Result<Vec<u8>, StoreError>)
        ensures
            match r {
                Ok(v) => self.store_view().contains_key(key@) && v@ == self.store_view()[key@],
                Err(e) => !self.store_view().contains_key(key@) && e == StoreError::NotFound,
            },
    ;

    /// Writes `val` under `key`. Fails with `InvalidKey` exactly when the
    /// key is empty, leaving the store unchanged; otherwise stores the value
    /// and reports whether the stored value changed.
    fn set_val(&mut self, key: &str, val: &[u8]) -> (r: Result<bool, StoreError>)
        ensures
            match r {
                Ok(changed) => {
                    &&& key@.len() > 0
                    &&& final(self).store_view() == old(self).store_view().insert(key@, val@)
                    &&& changed == !(old(self).store_view().contains_key(key@)
                        && old(self).store_view()[key@] == val@)
                },
                Err(e) => {
                    &&& key@.len() == 0
                    &&& e == StoreError::InvalidKey
                    &&& final(self).store_view() == old(self).store_view()
                },
            },
    ;
}

impl NvsStore {
    /// An empty store.
    pub fn new() -> (r: NvsStore)
        ensures
            r@ == Map::<Seq<char>, Seq<u8>>::empty(),
    {
        let r = NvsStore { data: vstd::hash_map::StringHashMap::new() };
        proof {
            assert(r@ =~= Map::<Seq<char>, Seq<u8>>::empty());
        }
        r
    }

    /// Whether the store holds a value under `key`.
    pub fn contains(&self, key: &str) -> (b: bool)
        ensures
            b == self@.contains_key(key@),
    {
        self.data.contains_key(key)
    }

    /// Removes the value under `key`. Idempotent: absence of the key is not
    /// an error.
    pub fn remove(&mut self, key: &str)
        ensures
            final(self)@ == old(self)@.remove(key@),
    {
        self.data.remove(key);
        proof {
            assert(final(self)@ =~= old(self)@.remove(key@));
        }
    }
}

impl NvsStorage for NvsStore {
    open spec fn store_view(&self) -> Map<Seq<char>, Seq<u8>> {
        self@
    }

    fn get_val(&self, key: &str) -> (r: Result<Vec<u8>, StoreError>) {
        match self.data.get(key) {
            Some(v) => {
                let out = vstd::slice::slice_to_vec(v.as_slice());
                proof {
                    assert(self@[key@] == self.data@[key@]@);
                    assert(self.store_view().contains_key(key@) && out@ == self.store_view()[key@]);
                }
                Ok(out)
            },
            None => Err(StoreError::NotFound),
        }
    }

    fn set_val(&mut self, key: &str, val: &[u8]) -> (r: Result<bool, StoreError>) {
        if key.is_empty() {
            return Err(StoreError::InvalidKey);
        }
        let changed = match self.data.get(key) {
            Some(prev) => !bytes_eq(prev.as_slice(), val),
            None => true,
        };
        let owned = vstd::slice::slice_to_vec(val);
        self.data.insert(key.to_owned(), owned);
        proof {
            assert(final(self).store_view() =~= old(self).store_view().insert(key@, val@));
        }
        Ok(changed)
    }
}

/// Whether two byte slices hold the same bytes.
pub fn bytes_eq(a: &[u8], b: &[u8]) -> (r: bool)
    ensures
        r == (a@ == b@),
{
    if a.len() != b.len() {
        proof {
            assert(a@.len() != b@.len());
        }
        return false;
    }
    let n = a.len();
    let mut i: usize = 0;
    while i < n
        invariant
            0 <= i <= n,
            n == a@.len(),
            n == b@.len(),
            forall|j: int| 0 <= j < i ==> a@[j] == b@[j],
        decreases n - i,
    {
        if *vstd::slice::slice_index_get(a, i) != *vstd::slice::slice_index_get(b, i) {
            return false;
        }
        i += 1;
    }
    proof {
        assert(a@ =~= b@);
    }
    true
}

} // verus!
