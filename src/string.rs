use crate::error::HashitError;
use crate::open_mode::OpenMode;
use crate::traits::{names_of, resolved, CalcHash, FetchCachedHash, Open, OpenMut};
use crate::utils::{hash_contents, views_of};
use vstd::prelude::*;
use vstd::utf8::encode_utf8;
use vstd::slice::slice_to_vec;

verus! {

/// The pairs have unique keys, and the map holds exactly the pairs.
spec fn pairs_match(items: Seq<(String, Vec<u8>)>, map: Map<Seq<char>, Seq<u8>>) -> bool {
    &&& forall|i: int, j: int|
        0 <= i < items.len() && 0 <= j < items.len() && i != j ==> (#[trigger] items[i]).0@ != (
        #[trigger] items[j]).0@
    &&& forall|i: int|
        0 <= i < items.len() ==> map.contains_key((#[trigger] items[i]).0@) && map[items[i].0@]
            == items[i].1@
    &&& forall|k: Seq<char>|
        #[trigger] map.contains_key(k) ==> exists|i: int| 0 <= i < items.len() && (#[trigger] items[i]).0@ == k
}

/// A store of byte entries held in memory, owned by whoever builds it.
pub struct HtString {
    items: Vec<(String, Vec<u8>)>,
    map: Ghost<Map<Seq<char>, Seq<u8>>>,
}

impl View for HtString {
    type V = Map<Seq<char>, Seq<u8>>;

    closed spec fn view(&self) -> Map<Seq<char>, Seq<u8>> {
        self.map@
    }
}

impl HtString {
    /// Keys are unique, and the entries are exactly the stored pairs.
    #[verifier::type_invariant]
    spec fn wf(self) -> bool {
        pairs_match(self.items@, self.map@)
    }

    /// An empty store.
    pub fn new() -> (r: Self)
        ensures
            r@ == Map::<Seq<char>, Seq<u8>>::empty(),
    {
        HtString { items: Vec::new(), map: Ghost(Map::empty()) }
    }

    /// The position of the pair stored under `key`, if any.
    fn find(&self, key: &str) -> (r: Option<usize>)
        ensures
            r matches Some(i) ==> i < self.items@.len() && self.items@[i as int].0@ == key@
                && self@.contains_key(key@) && self@[key@] == self.items@[i as int].1@,
            r is None ==> !self@.contains_key(key@),
    {
        proof {
            use_type_invariant(self);
        }
        let wanted: String = key.to_owned();
        let mut i: usize = 0;
        while i < self.items.len()
            invariant
                i <= self.items@.len(),
                wanted@ == key@,
                forall|j: int| 0 <= j < i ==> (#[trigger] self.items@[j]).0@ != key@,
            decreases self.items@.len() - i,
        {
            if self.items[i].0.eq(&wanted) {
                assert(self.items@[i as int].0@ == key@);
                proof {
                    use_type_invariant(self);
                }
                return Some(i);
            }
            i = i + 1;
        }
        None
    }

    /// A copy of the bytes stored under `key`, if any.
    pub fn get(&self, key: &str) -> (r: Option<Vec<u8>>)
        ensures
            r matches Some(b) ==> self@.contains_key(key@) && b@ == self@[key@],
            r is None ==> !self@.contains_key(key@),
    {
        match self.find(key) {
            Some(i) => Some(slice_to_vec(self.items[i].1.as_slice())),
            None => None,
        }
    }

    /// Stores `data` under `key`, in place of what was there.
    pub fn put(&mut self, key: &str, data: Vec<u8>)
        ensures
            final(self)@ == old(self)@.insert(key@, data@),
    {
        let found = self.find(key);
        let mut taken = HtString::new();
        core::mem::swap(self, &mut taken);
        proof {
            use_type_invariant(&taken);
        }
        let HtString { mut items, map } = taken;
        let ghost old_items = items@;
        let ghost new_map = map@.insert(key@, data@);
        match found {
            Some(i) => {
                items[i] = (key.to_owned(), data);
                proof {
                    assert forall|a: int| 0 <= a < items@.len() implies new_map.contains_key(
                        (#[trigger] items@[a]).0@,
                    ) && new_map[items@[a].0@] == items@[a].1@ by {
                        if a != i {
                            assert(items@[a] == old_items[a]);
                            assert(old_items[a].0@ != old_items[i as int].0@);
                        }
                    }
                    assert forall|a: int, b: int|
                        0 <= a < items@.len() && 0 <= b < items@.len() && a != b implies (
                    #[trigger] items@[a]).0@ != (#[trigger] items@[b]).0@ by {
                        assert(old_items[a].0@ != old_items[b].0@);
                    }
                    assert forall|k: Seq<char>| #[trigger] new_map.contains_key(k) implies exists|
                        j: int,
                    | 0 <= j < items@.len() && (#[trigger] items@[j]).0@ == k by {
                        if k != key@ {
                            let j = choose|j: int| 0 <= j < old_items.len() && (#[trigger] old_items[j]).0@ == k;
                            assert(items@[j] == old_items[j]);
                        } else {
                            assert(items@[i as int].0@ == k);
                        }
                    }
                }
            },
            None => {
                items.push((key.to_owned(), data));
                proof {
                    assert forall|a: int| 0 <= a < old_items.len() implies (#[trigger] old_items[a]).0@
                        != key@ by {
                        assert(map@.contains_key(old_items[a].0@));
                    }
                    assert forall|a: int| 0 <= a < items@.len() implies new_map.contains_key(
                        (#[trigger] items@[a]).0@,
                    ) && new_map[items@[a].0@] == items@[a].1@ by {
                        if a < old_items.len() {
                            assert(items@[a] == old_items[a]);
                        }
                    }
                    assert forall|a: int, b: int|
                        0 <= a < items@.len() && 0 <= b < items@.len() && a != b implies (
                    #[trigger] items@[a]).0@ != (#[trigger] items@[b]).0@ by {
                        if a < old_items.len() && b < old_items.len() {
                            assert(old_items[a].0@ != old_items[b].0@);
                        } else if a < old_items.len() {
                            assert(old_items[a].0@ != key@);
                        } else {
                            assert(old_items[b].0@ != key@);
                        }
                    }
                    assert forall|k: Seq<char>| #[trigger] new_map.contains_key(k) implies exists|
                        j: int,
                    | 0 <= j < items@.len() && (#[trigger] items@[j]).0@ == k by {
                        if k != key@ {
                            let j = choose|j: int| 0 <= j < old_items.len() && (#[trigger] old_items[j]).0@ == k;
                            assert(items@[j] == old_items[j]);
                        } else {
                            assert(items@[old_items.len() as int].0@ == k);
                        }
                    }
                }
            },
        }
        assert(pairs_match(items@, new_map));
        *self = HtString { items, map: Ghost(new_map) };
    }
}

impl Open for HtString {
    open spec fn entries(&self) -> Map<Seq<char>, Seq<u8>> {
        self@
    }

    open spec fn infallible(&self) -> bool {
        true
    }

    fn open(&self, input: &str) -> (r: Result<Vec<u8>, HashitError>) {
        match self.get(input) {
            Some(bytes) => Ok(bytes),
            None => Err(
                HashitError::NotFound {
                    file: input.to_owned(),
                    reason: "no entry under this key".to_owned(),
                },
            ),
        }
    }

    fn entry_exists(&self, input: &str) -> (r: bool) {
        match self.find(input) {
            Some(_) => true,
            None => false,
        }
    }
}

impl OpenMut for HtString {
    fn open_mut(&mut self, input: &str, mode: OpenMode, data: &[u8]) -> (r: Result<(), HashitError>) {
        let mut bytes: Vec<u8> = match mode {
            OpenMode::WriteAppend => match self.get(input) {
                Some(stored) => stored,
                None => Vec::new(),
            },
            OpenMode::WriteTruncate => Vec::new(),
        };
        let mut extra = slice_to_vec(data);
        bytes.append(&mut extra);
        proof {
            if mode == OpenMode::WriteTruncate || !self@.contains_key(input@) {
                assert(bytes@ =~= data@);
            }
        }
        self.put(input, bytes);
        Ok(())
    }

    fn create(&mut self, input: &str) -> (r: Result<(), HashitError>) {
        if !self.entry_exists(input) {
            self.put(input, Vec::new());
        }
        Ok(())
    }
}

impl FetchCachedHash for HtString {
    fn fetch_cached_hash(&mut self, input: &str) -> (r: Result<Vec<u8>, HashitError>) {
        match self.get(input) {
            Some(bytes) => Ok(bytes),
            None => {
                self.put(input, Vec::new());
                Ok(Vec::new())
            },
        }
    }
}

/// Hashes each input identifier's own UTF-8 bytes, so that no storage is
/// needed to resolve an input.
#[derive(Debug)]
pub struct StringHash {}

impl StringHash {
    /// A hasher of identifiers.
    pub fn new() -> (r: Self) {
        StringHash {  }
    }
}

impl CalcHash for StringHash {
    open spec fn resolver(&self) -> spec_fn(Seq<char>) -> Option<Seq<u8>> {
        |n: Seq<char>| Some(encode_utf8(n))
    }

    open spec fn infallible(&self) -> bool {
        true
    }

    fn calc_hash(&self, inputs: &[&str]) -> (r: Result<Vec<u8>, HashitError>) {
        let mut contents: Vec<Vec<u8>> = Vec::new();
        let mut i: usize = 0;
        while i < inputs.len()
            invariant
                i <= inputs@.len(),
                contents@.len() == i,
                forall|j: int| 0 <= j < i ==> (#[trigger] contents@[j])@ == encode_utf8(inputs@[j]@),
            decreases inputs@.len() - i,
        {
            contents.push(slice_to_vec(inputs[i].as_bytes()));
            i = i + 1;
        }
        proof {
            assert(views_of(contents@) =~= resolved(self.resolver(), names_of(inputs@)));
        }
        Ok(hash_contents(contents.as_slice()))
    }
}

} // verus!
