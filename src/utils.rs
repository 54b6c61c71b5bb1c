use blake2::{Blake2b, Digest};
use vstd::prelude::*;

verus! {

/// Number of bytes in one digest.
pub const DIGEST_LEN: usize = 64;

/// The Blake2b-512 digest of a byte sequence.
pub uninterp spec fn blake2b_of(data: Seq<u8>) -> Seq<u8>;

/// Relies on blake2::Blake2b (fixed 64-byte output): `new`, `update` and
/// `finalize` give the digest of the bytes fed in, which depends on them alone.
#[verifier::external_body]
pub(crate) fn blake_hash(input: &[u8]) -> (r: Vec<u8>)
    ensures
        r@ == blake2b_of(input@),
        r@.len() == DIGEST_LEN,
{
    let mut hasher = Blake2b::new();
    hasher.update(input);
    hasher.finalize().to_vec()
}

/// The combined hash of a sequence of contents: the digest of each, concatenated
/// in order.
pub open spec fn combined_hash(contents: Seq<Seq<u8>>) -> Seq<u8>
    decreases contents.len(),
{
    if contents.len() == 0 {
        Seq::empty()
    } else {
        combined_hash(contents.drop_last()) + blake2b_of(contents.last())
    }
}

/// Every content of the sequence has a digest of the fixed length, as every
/// digest that is computed has.
pub open spec fn digests_sized(contents: Seq<Seq<u8>>) -> bool {
    forall|i: int| 0 <= i < contents.len() ==> #[trigger] blake2b_of(contents[i]).len() == DIGEST_LEN
}

/// The byte views of a sequence of buffers.
pub open spec fn views_of(bufs: Seq<Vec<u8>>) -> Seq<Seq<u8>> {
    bufs.map_values(|b: Vec<u8>| b@)
}

/// The combined hash is one fixed-length digest per content.
pub proof fn lemma_combined_len(contents: Seq<Seq<u8>>)
    requires
        digests_sized(contents),
    ensures
        combined_hash(contents).len() == DIGEST_LEN * contents.len(),
    decreases contents.len(),
{
    if contents.len() > 0 {
        let init = contents.drop_last();
        assert(digests_sized(init)) by {
            assert forall|i: int| 0 <= i < init.len() implies #[trigger] blake2b_of(init[i]).len()
                == DIGEST_LEN by {
                assert(init[i] == contents[i]);
            }
        }
        lemma_combined_len(init);
        assert(blake2b_of(contents[contents.len() - 1]).len() == DIGEST_LEN);
        assert(DIGEST_LEN * contents.len() == DIGEST_LEN * init.len() + DIGEST_LEN) by (nonlinear_arith)
            requires contents.len() == init.len() + 1;
    }
}

/// The digest of the `i`-th content stands at the `i`-th slot of the combined hash.
pub proof fn lemma_combined_slot(contents: Seq<Seq<u8>>, i: int)
    requires
        digests_sized(contents),
        0 <= i < contents.len(),
    ensures
        combined_hash(contents).subrange(DIGEST_LEN * i, DIGEST_LEN * i + DIGEST_LEN)
            == blake2b_of(contents[i]),
    decreases contents.len(),
{
    let init = contents.drop_last();
    assert(digests_sized(init)) by {
        assert forall|k: int| 0 <= k < init.len() implies #[trigger] blake2b_of(init[k]).len()
            == DIGEST_LEN by {
            assert(init[k] == contents[k]);
        }
    }
    lemma_combined_len(init);
    let whole = combined_hash(contents);
    assert(whole == combined_hash(init) + blake2b_of(contents.last()));
    if i == contents.len() - 1 {
        assert(DIGEST_LEN * i == DIGEST_LEN * init.len());
        assert(whole.subrange(DIGEST_LEN * i, DIGEST_LEN * i + DIGEST_LEN) =~= blake2b_of(
            contents.last(),
        ));
    } else {
        lemma_combined_slot(init, i);
        assert(DIGEST_LEN * i + DIGEST_LEN <= DIGEST_LEN * init.len()) by (nonlinear_arith)
            requires i + 1 <= init.len();
        assert(0 <= DIGEST_LEN * i) by (nonlinear_arith) requires 0 <= i;
        assert(whole.subrange(DIGEST_LEN * i, DIGEST_LEN * i + DIGEST_LEN) =~= combined_hash(
            init,
        ).subrange(DIGEST_LEN * i, DIGEST_LEN * i + DIGEST_LEN));
        assert(init[i] == contents[i]);
    }
}

/// Two sequences of contents whose digests differ at one position have
/// different combined hashes.
pub proof fn lemma_combined_differs(a: Seq<Seq<u8>>, b: Seq<Seq<u8>>, i: int)
    requires
        digests_sized(a),
        digests_sized(b),
        a.len() == b.len(),
        0 <= i < a.len(),
        blake2b_of(a[i]) != blake2b_of(b[i]),
    ensures
        combined_hash(a) != combined_hash(b),
{
    lemma_combined_slot(a, i);
    lemma_combined_slot(b, i);
}

/// Digests each buffer in turn and concatenates the digests.
pub fn hash_contents(contents: &[Vec<u8>]) -> (r: Vec<u8>)
    ensures
        r@ == combined_hash(views_of(contents@)),
{
    let mut resvec: Vec<u8> = Vec::new();
    let mut i: usize = 0;
    while i < contents.len()
        invariant
            i <= contents@.len(),
            resvec@ == combined_hash(views_of(contents@.subrange(0, i as int))),
        decreases contents@.len() - i,
    {
        let mut digest = blake_hash(contents[i].as_slice());
        resvec.append(&mut digest);
        proof {
            let before = views_of(contents@.subrange(0, i as int));
            let after = views_of(contents@.subrange(0, i + 1));
            assert(after.drop_last() =~= before);
            assert(after.last() == contents@[i as int]@);
        }
        i = i + 1;
    }
    assert(contents@.subrange(0, contents@.len() as int) =~= contents@);
    resvec
}

} // verus!
