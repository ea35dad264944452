//! Content digests.
//!
//! Every emitted row carries the SHA-256 digest of its content. The digest
//! itself is computed by an outside implementation; the library only relies
//! on it being a pure function of the input bytes that always yields 32
//! bytes, and gives its result the name `sha256_of`.

use vstd::prelude::*;
use sha2::Digest;

verus! {

/// Width of the hash column in bytes: a SHA-256 digest.
pub const HASH_WIDTH: usize = 32;

/// The SHA-256 digest of a byte sequence. The digest depends on the bytes
/// alone; nothing more is assumed about its value.
pub uninterp spec fn sha256_of(data: Seq<u8>) -> Seq<u8>;

/// Relies on sha2's `Sha256::digest`: the SHA-256 digest of the input,
/// always exactly 32 bytes, a pure function of the input bytes.
#[verifier::external_body]
pub(crate) fn sha256(data: &[u8]) -> (r: Vec<u8>)
    ensures
        r@ == sha256_of(data@),
        r@.len() == HASH_WIDTH,
{
    sha2::Sha256::digest(data).to_vec()
}

/// The set of byte strings held in a vector of digests.
pub open spec fn digests_set(s: Seq<Vec<u8>>) -> Set<Seq<u8>>
    decreases s.len(),
{
    if s.len() == 0 {
        Set::empty()
    } else {
        digests_set(s.drop_first()).insert(s[0]@)
    }
}

/// A byte string is in `digests_set(s)` exactly when some element of `s`
/// holds it.
pub proof fn lemma_digests_contains(s: Seq<Vec<u8>>, h: Seq<u8>)
    ensures
        digests_set(s).contains(h) <==> exists|i: int| 0 <= i < s.len() && s[i]@ == h,
    decreases s.len(),
{
    if s.len() > 0 {
        lemma_digests_contains(s.drop_first(), h);
        if digests_set(s).contains(h) && s[0]@ != h {
            let j = choose|j: int| 0 <= j < s.drop_first().len() && s.drop_first()[j]@ == h;
            assert(s[j + 1]@ == h);
        }
        if exists|i: int| 0 <= i < s.len() && s[i]@ == h {
            let i = choose|i: int| 0 <= i < s.len() && s[i]@ == h;
            if i > 0 {
                assert(s.drop_first()[i - 1]@ == h);
            }
        }
    }
}

/// Appending one digest adds exactly its byte string to the set.
pub proof fn lemma_digests_push(s: Seq<Vec<u8>>, v: Vec<u8>)
    ensures
        digests_set(s.push(v)) == digests_set(s).insert(v@),
    decreases s.len(),
{
    if s.len() == 0 {
        assert(s.push(v).drop_first() =~= s);
        assert(digests_set(s.push(v)) =~= digests_set(s).insert(v@));
    } else {
        assert(s.push(v).drop_first() =~= s.drop_first().push(v));
        lemma_digests_push(s.drop_first(), v);
        assert(digests_set(s.push(v)) =~= digests_set(s).insert(v@));
    }
}

/// Byte-for-byte equality of two byte vectors.
pub fn bytes_eq(a: &Vec<u8>, b: &Vec<u8>) -> (r: bool)
    ensures
        r == (a@ == b@),
{
    if a.len() != b.len() {
        return false;
    }
    for i in 0..a.len()
        invariant
            a.len() == b.len(),
            forall|j: int| 0 <= j < i ==> a@[j] == b@[j],
    {
        if a[i] != b[i] {
            return false;
        }
    }
    proof {
        assert(a@ =~= b@);
    }
    true
}

/// Whether `h` is already among the digests of `seen`.
pub(crate) fn contains_digest(seen: &Vec<Vec<u8>>, h: &Vec<u8>) -> (r: bool)
    ensures
        r == digests_set(seen@).contains(h@),
{
    let mut found = false;
    for i in 0..seen.len()
        invariant
            found == exists|j: int| 0 <= j < i && seen@[j]@ == h@,
    {
        if !found && bytes_eq(&seen[i], h) {
            found = true;
            assert(seen@[i as int]@ == h@);
        }
    }
    proof {
        lemma_digests_contains(seen@, h@);
    }
    found
}

} // verus!
