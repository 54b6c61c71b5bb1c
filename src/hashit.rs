use crate::error::HashitError;
use crate::open_mode::OpenMode;
use crate::traits::{
    all_resolve, cached_of, created, hash_of, names_of, CalcHash, FetchCachedHash, Open, OpenMut,
};
use crate::utils::{
    blake2b_of, combined_hash, digests_sized, lemma_combined_differs, lemma_combined_len, DIGEST_LEN,
};
use vstd::prelude::*;

verus! {

/// Whether `hash` differs from what a fetch finds under `key`.
pub open spec fn differs(hash: Seq<u8>, entries: Map<Seq<char>, Seq<u8>>, key: Seq<char>) -> bool {
    hash != cached_of(entries, key)
}

/// The entries after checking `hash` against `key`: the entry under `key`
/// exists afterwards, and holds `hash` if it differed.
pub open spec fn after_check(
    hash: Seq<u8>,
    entries: Map<Seq<char>, Seq<u8>>,
    key: Seq<char>,
) -> Map<Seq<char>, Seq<u8>> {
    if differs(hash, entries, key) {
        entries.insert(key, hash)
    } else {
        created(entries, key)
    }
}

/// Whether two byte sequences are equal.
pub fn bytes_equal(a: &[u8], b: &[u8]) -> (r: bool)
    ensures
        r == (a@ == b@),
{
    if a.len() != b.len() {
        return false;
    }
    let mut i: usize = 0;
    while i < a.len()
        invariant
            i <= a@.len(),
            a@.len() == b@.len(),
            forall|j: int| 0 <= j < i ==> a@[j] == b@[j],
        decreases a@.len() - i,
    {
        if a[i] != b[i] {
            return false;
        }
        i = i + 1;
    }
    assert(a@ =~= b@);
    true
}

/// Tracks whether inputs have changed, through a store for the cached
/// hashes and a hasher for the inputs.
#[derive(Debug)]
pub struct Hashit<R, H> {
    pub inner: R,
    pub hasher: H,
}

impl<R: FetchCachedHash, H: CalcHash> Hashit<R, H> {
    /// A tracker over the given store and hasher.
    pub fn new(inner: R, hasher: H) -> (r: Self)
        ensures
            r.inner == inner,
            r.hasher == hasher,
    {
        Hashit { inner, hasher }
    }

    /// Compares the combined hash of `inputs` with the one cached under
    /// `output`, and reports whether they differ.
    ///
    /// - The hash of the inputs is computed first; if that fails, the store
    ///   is left untouched.
    /// - The entry under `output` is created empty if it is absent.
    /// - If the hashes differ, the new hash replaces the cached one.
    ///
    /// An empty list of inputs has an empty combined hash, which equals the
    /// content of a freshly created entry: against a fresh key it reports no
    /// change.
    pub fn has_changed(&mut self, inputs: &[&str], output: &str) -> (r: Result<bool, HashitError>)
        ensures
            final(self).hasher == old(self).hasher,
            old(self).inner.infallible() && old(self).hasher.infallible() && all_resolve(
                old(self).hasher.resolver(),
                names_of(inputs@),
            ) ==> r is Ok,
            r matches Ok(changed) ==> all_resolve(old(self).hasher.resolver(), names_of(inputs@))
                && changed == differs(
                hash_of(old(self).hasher.resolver(), names_of(inputs@)),
                old(self).inner.entries(),
                output@,
            ) && final(self).inner.entries() == after_check(
                hash_of(old(self).hasher.resolver(), names_of(inputs@)),
                old(self).inner.entries(),
                output@,
            ),
            !all_resolve(old(self).hasher.resolver(), names_of(inputs@)) ==> (r matches Err(
                HashitError::NotFound { .. },
            )),
            !all_resolve(old(self).hasher.resolver(), names_of(inputs@)) ==> final(self).inner.entries()
                == old(self).inner.entries(),
    {
        let hash = match self.hasher.calc_hash(inputs) {
            Ok(h) => h,
            Err(e) => return Err(e),
        };
        let ghost entries = self.inner.entries();
        let buffer = match self.inner.fetch_cached_hash(output) {
            Ok(b) => b,
            Err(e) => return Err(e),
        };
        let differs = !bytes_equal(hash.as_slice(), buffer.as_slice());
        if differs {
            match self.inner.open_mut(output, OpenMode::WriteTruncate, hash.as_slice()) {
                Ok(()) => {},
                Err(e) => return Err(e),
            }
            assert(self.inner.entries() =~= entries.insert(output@, hash@));
        }
        Ok(differs)
    }
}

/// The entries after `n` checks of the same hash against `key`.
pub open spec fn repeated_checks(
    hash: Seq<u8>,
    entries: Map<Seq<char>, Seq<u8>>,
    key: Seq<char>,
    n: nat,
) -> Map<Seq<char>, Seq<u8>>
    decreases n,
{
    if n == 0 {
        entries
    } else {
        after_check(hash, repeated_checks(hash, entries, key, (n - 1) as nat), key)
    }
}

/// After a check, a fetch under the key finds exactly the hash that was
/// checked.
pub proof fn lemma_check_stores(hash: Seq<u8>, entries: Map<Seq<char>, Seq<u8>>, key: Seq<char>)
    ensures
        cached_of(after_check(hash, entries, key), key) == hash,
{
}

/// A key that holds no entry reports a change for any non-empty list of
/// inputs.
pub proof fn lemma_first_use(contents: Seq<Seq<u8>>, entries: Map<Seq<char>, Seq<u8>>, key: Seq<char>)
    requires
        !entries.contains_key(key),
        contents.len() > 0,
        digests_sized(contents),
    ensures
        differs(combined_hash(contents), entries, key),
{
    lemma_combined_len(contents);
}

/// A check that reported a change is followed by one that reports none,
/// for the same inputs and key.
pub proof fn lemma_stability(hash: Seq<u8>, entries: Map<Seq<char>, Seq<u8>>, key: Seq<char>)
    requires
        differs(hash, entries, key),
    ensures
        !differs(hash, after_check(hash, entries, key), key),
{
    lemma_check_stores(hash, entries, key);
}

/// Once a check reports no change, every further check with the same
/// inputs reports none, and leaves the entries as they are.
pub proof fn lemma_idempotent_no_op(
    hash: Seq<u8>,
    entries: Map<Seq<char>, Seq<u8>>,
    key: Seq<char>,
    n: nat,
)
    requires
        !differs(hash, entries, key),
    ensures
        !differs(hash, repeated_checks(hash, entries, key, n), key),
        n > 0 ==> repeated_checks(hash, entries, key, n) == created(entries, key),
    decreases n,
{
    if n > 0 {
        lemma_idempotent_no_op(hash, entries, key, (n - 1) as nat);
        lemma_check_stores(hash, entries, key);
        if n > 1 {
            assert(created(created(entries, key), key) == created(entries, key));
        }
    }
}

/// After a check that reported a change, the entry under the key holds
/// exactly the combined hash of that check.
pub proof fn lemma_round_trip(hash: Seq<u8>, entries: Map<Seq<char>, Seq<u8>>, key: Seq<char>)
    requires
        differs(hash, entries, key),
    ensures
        after_check(hash, entries, key).contains_key(key),
        after_check(hash, entries, key)[key] == hash,
{
}

/// Changing one byte of one input's content makes the next check report a
/// change, unless the changed content has the same digest as before.
pub proof fn lemma_sensitivity(
    contents: Seq<Seq<u8>>,
    entries: Map<Seq<char>, Seq<u8>>,
    key: Seq<char>,
    i: int,
    j: int,
    byte: u8,
)
    requires
        digests_sized(contents),
        0 <= i < contents.len(),
        0 <= j < contents[i].len(),
        byte != contents[i][j],
        blake2b_of(contents[i].update(j, byte)).len() == blake2b_of(contents[i]).len(),
        blake2b_of(contents[i].update(j, byte)) != blake2b_of(contents[i]),
    ensures
        differs(
            combined_hash(contents.update(i, contents[i].update(j, byte))),
            after_check(combined_hash(contents), entries, key),
            key,
        ),
{
    let changed = contents.update(i, contents[i].update(j, byte));
    assert(digests_sized(changed)) by {
        assert forall|k: int| 0 <= k < changed.len() implies #[trigger] blake2b_of(changed[k]).len()
            == DIGEST_LEN by {
            assert(blake2b_of(contents[k]).len() == DIGEST_LEN);
        }
    }
    lemma_combined_differs(changed, contents, i);
    lemma_check_stores(combined_hash(contents), entries, key);
}

/// Presenting two inputs with different digests in swapped order makes the
/// next check report a change.
pub proof fn lemma_order_sensitivity(
    contents: Seq<Seq<u8>>,
    entries: Map<Seq<char>, Seq<u8>>,
    key: Seq<char>,
    i: int,
    j: int,
)
    requires
        digests_sized(contents),
        0 <= i < contents.len(),
        0 <= j < contents.len(),
        blake2b_of(contents[i]) != blake2b_of(contents[j]),
    ensures
        differs(
            combined_hash(contents.update(i, contents[j]).update(j, contents[i])),
            after_check(combined_hash(contents), entries, key),
            key,
        ),
{
    let swapped = contents.update(i, contents[j]).update(j, contents[i]);
    assert(i != j);
    assert(digests_sized(swapped)) by {
        assert forall|k: int| 0 <= k < swapped.len() implies #[trigger] blake2b_of(swapped[k]).len()
            == DIGEST_LEN by {
            assert(blake2b_of(contents[k]).len() == DIGEST_LEN);
            assert(blake2b_of(contents[i]).len() == DIGEST_LEN);
            assert(blake2b_of(contents[j]).len() == DIGEST_LEN);
        }
    }
    assert(swapped[j] == contents[i]);
    lemma_combined_differs(swapped, contents, j);
    lemma_check_stores(combined_hash(contents), entries, key);
}

} // verus!
