use crate::error::HashitError;
use crate::open_mode::OpenMode;
use crate::utils::combined_hash;
use vstd::prelude::*;

verus! {

/// What a fetch finds under `key`: the stored bytes, or no bytes for an
/// absent entry.
pub open spec fn cached_of(entries: Map<Seq<char>, Seq<u8>>, key: Seq<char>) -> Seq<u8> {
    if entries.contains_key(key) {
        entries[key]
    } else {
        Seq::empty()
    }
}

/// The entries after making sure that `key` has one: an absent entry is
/// created empty, a present one is left as it is.
pub open spec fn created(entries: Map<Seq<char>, Seq<u8>>, key: Seq<char>) -> Map<Seq<char>, Seq<u8>> {
    if entries.contains_key(key) {
        entries
    } else {
        entries.insert(key, Seq::empty())
    }
}

/// The entries after writing `data` under `key` in `mode`.
pub open spec fn written(
    entries: Map<Seq<char>, Seq<u8>>,
    key: Seq<char>,
    mode: OpenMode,
    data: Seq<u8>,
) -> Map<Seq<char>, Seq<u8>> {
    match mode {
        OpenMode::WriteAppend => entries.insert(key, cached_of(entries, key) + data),
        OpenMode::WriteTruncate => entries.insert(key, data),
    }
}

/// The identifiers named by a slice of string slices.
pub open spec fn names_of(inputs: Seq<&str>) -> Seq<Seq<char>> {
    inputs.map_values(|s: &str| s@)
}

/// Every identifier resolves to some content.
pub open spec fn all_resolve(resolve: spec_fn(Seq<char>) -> Option<Seq<u8>>, names: Seq<Seq<char>>) -> bool {
    forall|i: int| 0 <= i < names.len() ==> (#[trigger] resolve(names[i])) is Some
}

/// The contents that the identifiers resolve to, in order.
pub open spec fn resolved(resolve: spec_fn(Seq<char>) -> Option<Seq<u8>>, names: Seq<Seq<char>>) -> Seq<Seq<u8>> {
    names.map_values(|n: Seq<char>| resolve(n)->Some_0)
}

/// The combined hash of the inputs' contents.
pub open spec fn hash_of(resolve: spec_fn(Seq<char>) -> Option<Seq<u8>>, names: Seq<Seq<char>>) -> Seq<u8> {
    combined_hash(resolved(resolve, names))
}

/// Read access to a store of byte entries under string keys.
pub trait Open {
    /// The entries of the store, by key. A backend that is not verified
    /// leaves them unstated.
    open spec fn entries(&self) -> Map<Seq<char>, Seq<u8>> {
        arbitrary()
    }

    /// Whether every operation of the store succeeds where its entry allows
    /// (so for a store held in memory, not for one on a device); by default,
    /// not promised.
    open spec fn infallible(&self) -> bool {
        false
    }

    /// Reads the full bytes stored under `input`; an absent entry is
    /// `NotFound`.
    fn open(&self, input: &str) -> (r: Result<Vec<u8>, HashitError>)
        ensures
            r matches Ok(b) ==> self.entries().contains_key(input@) && b@ == self.entries()[input@],
            !self.entries().contains_key(input@) ==> r matches Err(HashitError::NotFound { .. }),
            self.infallible() && self.entries().contains_key(input@) ==> r is Ok,
    ;

    /// Whether an entry is present under `input`.
    fn entry_exists(&self, input: &str) -> (r: bool)
        ensures
            r == self.entries().contains_key(input@),
    ;
}

/// Write access to a store of byte entries.
pub trait OpenMut: Open {
    /// Writes `data` under `input`, after the stored bytes or in their place
    /// as `mode` says; an absent entry is created.
    fn open_mut(&mut self, input: &str, mode: OpenMode, data: &[u8]) -> (r: Result<(), HashitError>)
        ensures
            r is Ok ==> final(self).entries() == written(old(self).entries(), input@, mode, data@),
            old(self).infallible() ==> r is Ok,
            final(self).infallible() == old(self).infallible(),
    ;

    /// Makes sure that an entry exists under `input`, creating it empty.
    fn create(&mut self, input: &str) -> (r: Result<(), HashitError>)
        ensures
            r is Ok ==> final(self).entries() == created(old(self).entries(), input@),
            old(self).infallible() ==> r is Ok,
            final(self).infallible() == old(self).infallible(),
    ;
}

/// Reading back the combined hash cached under a key.
pub trait FetchCachedHash: OpenMut {
    /// The bytes cached under `input`; an absent entry is created empty and
    /// reads as no bytes, never as an error.
    fn fetch_cached_hash(&mut self, input: &str) -> (r: Result<Vec<u8>, HashitError>)
        ensures
            r matches Ok(b) ==> b@ == cached_of(old(self).entries(), input@) && final(self).entries()
                == created(old(self).entries(), input@),
            old(self).infallible() ==> r is Ok,
            final(self).infallible() == old(self).infallible(),
    ;
}

/// Computing the combined hash of a sequence of inputs.
pub trait CalcHash {
    /// The bytes that each input identifier resolves to, if any. A hasher
    /// that is not verified leaves them unstated.
    open spec fn resolver(&self) -> spec_fn(Seq<char>) -> Option<Seq<u8>> {
        arbitrary()
    }

    /// Whether hashing succeeds whenever every input resolves; by default,
    /// not promised.
    open spec fn infallible(&self) -> bool {
        false
    }

    /// The digests of the inputs' contents, concatenated in order; an input
    /// that resolves to nothing is `NotFound`.
    fn calc_hash(&self, inputs: &[&str]) -> (r: Result<Vec<u8>, HashitError>)
        ensures
            r matches Ok(h) ==> all_resolve(self.resolver(), names_of(inputs@)) && h@ == hash_of(
                self.resolver(),
                names_of(inputs@),
            ),
            !all_resolve(self.resolver(), names_of(inputs@)) ==> r matches Err(
                HashitError::NotFound { .. },
            ),
            self.infallible() && all_resolve(self.resolver(), names_of(inputs@)) ==> r is Ok,
    ;
}

} // verus!
