//! The digest component: a fixed-length BLAKE2b-512 fingerprint of a byte
//! sequence, with a lowercase hexadecimal rendering.
use sha3::Digest;
use vstd::prelude::*;

verus! {

/// Length in bytes of every digest.
pub const DIGEST_LEN: usize = 64;

/// The BLAKE2b-512 digest of a byte sequence, as computed by the `blake2` crate.
pub uninterp spec fn blake2b_512_of(data: Seq<u8>) -> Seq<u8>;

/// The lowercase hexadecimal digit for a value below 16.
pub open spec fn hex_digit(n: u8) -> char {
    seq!['0', '1', '2', '3', '4', '5', '6', '7', '8', '9', 'a', 'b', 'c', 'd', 'e', 'f'][n as int]
}

/// Lowercase hexadecimal text of a byte sequence: two digits per byte, high
/// nibble first, no prefix.
pub open spec fn hex_of(b: Seq<u8>) -> Seq<char>
    decreases b.len(),
{
    if b.len() == 0 {
        seq![]
    } else {
        hex_of(b.drop_last()) + seq![hex_digit(b.last() / 16), hex_digit(b.last() % 16)]
    }
}

/// Relies on `Blake2b512` of the `blake2` crate, driven through the `Digest`
/// trait: its output is the 64-byte BLAKE2b-512 digest of the input, which
/// depends on the input bytes alone.
#[verifier::external_body]
fn blake2b_512(data: &[u8]) -> (r: Vec<u8>)
    ensures
        r@ == blake2b_512_of(data@),
        r@.len() == DIGEST_LEN,
{
    blake2::Blake2b512::digest(data).to_vec()
}

/// Relies on `hex::encode`: each byte becomes two lowercase hexadecimal digits,
/// high nibble first.
#[verifier::external_body]
fn hex_encode(b: &[u8]) -> (r: String)
    ensures
        r@ == hex_of(b@),
{
    hex::encode(b)
}

/// A digest: the bytes produced by [`blake2b`].
#[allow(clippy::derived_hash_with_manual_eq)]
#[derive(Debug, Clone, Eq, Hash)]
pub struct Hash(pub Vec<u8>);

impl View for Hash {
    type V = Seq<u8>;

    open spec fn view(&self) -> Seq<u8> {
        self.0@
    }
}

impl Hash {
    /// The digest as lowercase hexadecimal text without prefix, two characters
    /// per byte.
    pub fn to_hex(&self) -> (r: String)
        ensures
            r@ == hex_of(self@),
    {
        hex_encode(self.0.as_slice())
    }
}

impl PartialEq for Hash {
    fn eq(&self, other: &Hash) -> (r: bool)
        ensures
            r == (self@ == other@),
    {
        let a = &self.0;
        let b = &other.0;
        if a.len() != b.len() {
            return false;
        }
        let mut i: usize = 0;
        while i < a.len()
            invariant
                a@ == self@,
                b@ == other@,
                a.len() == b.len(),
                0 <= i <= a.len(),
                forall|j: int| 0 <= j < i ==> a@[j] == b@[j],
            decreases a.len() - i,
        {
            if a[i] != b[i] {
                proof {
                    assert(a@[i as int] != b@[i as int]);
                }
                return false;
            }
            i = i + 1;
        }
        proof {
            assert(a@ =~= b@);
        }
        true
    }
}

impl vstd::std_specs::cmp::PartialEqSpecImpl for Hash {
    open spec fn obeys_eq_spec() -> bool {
        true
    }

    open spec fn eq_spec(&self, other: &Hash) -> bool {
        self@ == other@
    }
}

/// BLAKE2b-512 digest of `data`. Pure: the result depends on the bytes of
/// `data` alone, and it always holds exactly 64 bytes.
pub fn blake2b(data: &[u8]) -> (r: Hash)
    ensures
        r@ == blake2b_512_of(data@),
        r@.len() == DIGEST_LEN,
{
    Hash(blake2b_512(data))
}

/// Hashing is deterministic: digests of equal byte sequences are equal,
/// whichever calls produced them.
pub proof fn lemma_hash_deterministic(m1: Seq<u8>, m2: Seq<u8>, h1: Hash, h2: Hash)
    requires
        m1 == m2,
        h1@ == blake2b_512_of(m1),
        h2@ == blake2b_512_of(m2),
    ensures
        h1@ == h2@,
{
}

} // verus!
