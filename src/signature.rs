//! The identity component: Ed25519 keypairs, deterministic signing, and
//! standalone verification of a signature from raw bytes.
use ed25519_dalek::{Signer, Verifier};
use rand::rngs::OsRng;
use vstd::prelude::*;

verus! {

/// Length in bytes of a public key.
pub const PUBLIC_KEY_LEN: usize = 32;

/// Length in bytes of a secret key.
pub const SECRET_KEY_LEN: usize = 32;

/// Length in bytes of a signature.
pub const SIGNATURE_LEN: usize = 64;

#[verifier::external_type_specification]
#[verifier::external_body]
pub struct ExVerifyingKey(ed25519_dalek::VerifyingKey);

/// The Ed25519 public key (compressed point) derived from a 32-byte secret key.
pub uninterp spec fn ed25519_public_of(secret: Seq<u8>) -> Seq<u8>;

/// The Ed25519 signature of `message` under a 32-byte secret key.
pub uninterp spec fn ed25519_signature_of(secret: Seq<u8>, message: Seq<u8>) -> Seq<u8>;

/// Whether 32 bytes are the encoding of a point of the curve.
pub uninterp spec fn ed25519_point_decodes(public_key: Seq<u8>) -> bool;

/// Whether a 64-byte signature authenticates `message` under a decodable
/// 32-byte public key.
pub uninterp spec fn ed25519_verifies(public_key: Seq<u8>, message: Seq<u8>, signature: Seq<u8>) -> bool;

/// Relies on `SigningKey::generate` with `OsRng`: 32 fresh bytes drawn from the
/// operating system's entropy source; it panics when that source fails.
#[verifier::external_body]
fn random_secret_key() -> (r: [u8; 32]) {
    ed25519_dalek::SigningKey::generate(&mut OsRng).to_bytes()
}

/// Relies on `SigningKey::verifying_key` (after `SigningKey::from_bytes`): the
/// compressed public point of the secret key, which decodes again.
#[verifier::external_body]
fn derive_public_key(secret: &[u8; 32]) -> (r: [u8; 32])
    ensures
        r@ == ed25519_public_of(secret@),
        ed25519_point_decodes(r@),
{
    ed25519_dalek::SigningKey::from_bytes(secret).verifying_key().to_bytes()
}

/// Relies on `Signer::sign` of `SigningKey`: the deterministic Ed25519
/// signature of the message, whose scalar half is reduced below the group
/// order, and which `Verifier::verify` accepts under the key's own public key.
#[verifier::external_body]
fn sign_message(secret: &[u8; 32], message: &[u8]) -> (r: [u8; 64])
    ensures
        r@ == ed25519_signature_of(secret@, message@),
        scalar_is_canonical(r@.subrange(32, 64)),
        ed25519_verifies(ed25519_public_of(secret@), message@, r@),
{
    ed25519_dalek::SigningKey::from_bytes(secret).sign(message).to_bytes()
}

/// Relies on `VerifyingKey::from_bytes`: it succeeds exactly when the bytes
/// decompress to a curve point.
#[verifier::external_body]
fn decode_public_key(public_key: &[u8; 32]) -> (r: Option<ed25519_dalek::VerifyingKey>)
    ensures
        r is Some <==> ed25519_point_decodes(public_key@),
{
    ed25519_dalek::VerifyingKey::from_bytes(public_key).ok()
}

/// Relies on `Verifier::verify` of `VerifyingKey`, on a key rebuilt from its
/// bytes and a signature taken from its 64 bytes: `Ok` exactly when the
/// signature authenticates the message.
#[verifier::external_body]
fn verify_message(public_key: &[u8; 32], message: &[u8], signature: &[u8; 64]) -> (r: bool)
    requires
        ed25519_point_decodes(public_key@),
    ensures
        r == ed25519_verifies(public_key@, message@, signature@),
{
    match ed25519_dalek::VerifyingKey::from_bytes(public_key) {
        Ok(key) => key.verify(message, &ed25519_dalek::Signature::from_bytes(signature)).is_ok(),
        Err(_) => false,
    }
}

/// Why a signature was not accepted.
#[derive(Debug, Clone, Copy, PartialEq, Eq, Structural)]
pub enum VerificationError {
    /// The public key is not 32 bytes, or does not encode a curve point.
    MalformedPublicKey,
    /// The signature is not 64 bytes, or its scalar half is not a canonical
    /// scalar (below the group order).
    MalformedSignature,
    /// Both are well formed, but the signature does not authenticate the
    /// message under the public key.
    VerificationFailed,
}

/// The unsigned integer that a byte sequence encodes, least significant byte
/// first.
pub open spec fn le_value(s: Seq<u8>) -> nat
    decreases s.len(),
{
    if s.len() == 0 {
        0
    } else {
        s[0] as nat + 256 * le_value(s.subrange(1, s.len() as int))
    }
}

/// 256 to the power `n`.
pub open spec fn pow256(n: nat) -> nat
    decreases n,
{
    if n == 0 {
        1
    } else {
        256 * pow256((n - 1) as nat)
    }
}

/// The order L of the Ed25519 base point: 2^252 + 27742317777372353535851937790883648493.
pub open spec fn group_order() -> nat {
    0x1000_0000_0000_0000_0000_0000_0000_0000 * pow256(16) + 0x14de_f9de_a2f7_9cd6_5812_631a_5cf5_d3ed
}

/// Whether 32 bytes encode, little-endian, a scalar below the group order.
pub open spec fn scalar_is_canonical(s: Seq<u8>) -> bool {
    le_value(s) < group_order()
}

/// The outcome of verifying `signature` over `message` under `public_key`:
/// the public key is checked first, then the signature's length and the
/// encoding of its scalar half S (its last 32 bytes), then the signature
/// itself.
pub open spec fn verification_outcome(public_key: Seq<u8>, message: Seq<u8>, signature: Seq<u8>) -> Result<(), VerificationError> {
    if public_key.len() != PUBLIC_KEY_LEN || !ed25519_point_decodes(public_key) {
        Err(VerificationError::MalformedPublicKey)
    } else if signature.len() != SIGNATURE_LEN {
        Err(VerificationError::MalformedSignature)
    } else if !scalar_is_canonical(signature.subrange(32, 64)) {
        Err(VerificationError::MalformedSignature)
    } else if ed25519_verifies(public_key, message, signature) {
        Ok(())
    } else {
        Err(VerificationError::VerificationFailed)
    }
}

/// A 64-byte Ed25519 signature. It holds no reference to the key or message.
#[derive(Debug, Clone, Copy, Eq)]
pub struct Signature {
    bytes: [u8; 64],
}

impl View for Signature {
    type V = Seq<u8>;

    closed spec fn view(&self) -> Seq<u8> {
        self.bytes@
    }
}

impl Signature {
    /// The signature from its 64 raw bytes.
    pub fn from_bytes(bytes: &[u8; 64]) -> (r: Signature)
        ensures
            r@ == bytes@,
    {
        Signature { bytes: *bytes }
    }

    /// The 64 raw bytes of the signature.
    pub fn to_bytes(&self) -> (r: [u8; 64])
        ensures
            r@ == self@,
    {
        self.bytes
    }
}

impl PartialEq for Signature {
    fn eq(&self, other: &Signature) -> (r: bool)
        ensures
            r == (self@ == other@),
    {
        let mut i: usize = 0;
        while i < SIGNATURE_LEN
            invariant
                self@.len() == SIGNATURE_LEN,
                other@.len() == SIGNATURE_LEN,
                0 <= i <= SIGNATURE_LEN,
                forall|j: int| 0 <= j < i ==> self@[j] == other@[j],
            decreases SIGNATURE_LEN - i,
        {
            if self.bytes[i] != other.bytes[i] {
                proof {
                    assert(self@[i as int] != other@[i as int]);
                }
                return false;
            }
            i = i + 1;
        }
        proof {
            assert(self@ =~= other@);
        }
        true
    }
}

impl vstd::std_specs::cmp::PartialEqSpecImpl for Signature {
    open spec fn obeys_eq_spec() -> bool {
        true
    }

    open spec fn eq_spec(&self, other: &Signature) -> bool {
        self@ == other@
    }
}

/// Copies a slice into an array of the same length.
fn to_array<const N: usize>(s: &[u8]) -> (r: [u8; N])
    requires
        s@.len() == N,
    ensures
        r@ == s@,
{
    let mut a: [u8; N] = [0u8; N];
    let mut i: usize = 0;
    while i < N
        invariant
            s@.len() == N,
            0 <= i <= N,
            a@.len() == N,
            forall|j: int| 0 <= j < i ==> a@[j] == s@[j],
        decreases N - i,
    {
        a[i] = s[i];
        i = i + 1;
    }
    proof {
        assert(a@ =~= s@);
    }
    a
}

proof fn lemma_pow256_monotone(a: nat, b: nat)
    requires
        a <= b,
    ensures
        pow256(a) <= pow256(b),
    decreases b,
{
    if a < b {
        lemma_pow256_monotone(a, (b - 1) as nat);
    }
}

/// Splitting a byte sequence at `k` splits its value: the low part plus
/// 256^k times the high part.
proof fn lemma_le_value_split(s: Seq<u8>, k: nat)
    requires
        k <= s.len(),
    ensures
        le_value(s) == le_value(s.subrange(0, k as int)) + pow256(k) * le_value(s.subrange(k as int, s.len() as int)),
    decreases k,
{
    if k == 0 {
        assert(s.subrange(0, 0) =~= Seq::<u8>::empty());
        assert(s.subrange(0, s.len() as int) =~= s);
        assert(le_value(s.subrange(0, 0)) == 0);
        assert(pow256(0) == 1);
    } else {
        let tail = s.subrange(1, s.len() as int);
        lemma_le_value_split(tail, (k - 1) as nat);
        let low = s.subrange(0, k as int);
        assert(low.subrange(1, low.len() as int) =~= tail.subrange(0, k - 1));
        assert(tail.subrange(k - 1, tail.len() as int) =~= s.subrange(k as int, s.len() as int));
        let a = le_value(tail.subrange(0, k - 1));
        let p = pow256((k - 1) as nat);
        let h = le_value(s.subrange(k as int, s.len() as int));
        assert(le_value(s) == s[0] as nat + 256 * le_value(tail));
        assert(le_value(low) == low[0] as nat + 256 * a);
        assert(low[0] == s[0]);
        assert(pow256(k) == 256 * p);
        assert(le_value(tail) == a + p * h);
        assert(256 * (a + p * h) == 256 * a + (256 * p) * h) by (nonlinear_arith);
        assert(le_value(s) == le_value(low) + pow256(k) * h);
    }
}

/// The value of the 16 bytes of `s` from `start` on, least significant first.
fn le_u128(s: &[u8], start: usize) -> (r: u128)
    requires
        start + 16 <= s@.len(),
    ensures
        r as nat == le_value(s@.subrange(start as int, start + 16)),
{
    let n: usize = s.len();
    let mut v: u128 = 0;
    let mut i: usize = 16;
    proof {
        assert(s@.subrange(start + 16, start + 16) =~= Seq::<u8>::empty());
        reveal_with_fuel(pow256, 17);
        assert(pow256(16) == u128::MAX as nat + 1);
    }
    while i > 0
        invariant
            n == s@.len(),
            start + 16 <= s@.len(),
            i <= 16,
            v as nat == le_value(s@.subrange(start + i, start + 16)),
            (v as nat) < pow256((16 - i) as nat),
            pow256(16) == u128::MAX as nat + 1,
        decreases i,
    {
        i = i - 1;
        let b = s[start + i];
        proof {
            let t = s@.subrange(start + i, start + 16);
            assert(t.subrange(1, t.len() as int) =~= s@.subrange(start + i + 1, start + 16));
            assert(t[0] == b);
            let p = pow256((15 - i) as nat);
            assert(pow256((16 - i) as nat) == 256 * p);
            assert((v as nat) * 256 + (b as nat) < 256 * p) by (nonlinear_arith)
                requires
                    (v as nat) < p,
                    (b as nat) < 256,
            ;
            lemma_pow256_monotone((16 - i) as nat, 16);
        }
        v = v * 256 + b as u128;
    }
    v
}

/// Whether the scalar half S of a signature, its last 32 bytes, is below the
/// group order.
fn signature_scalar_is_canonical(signature: &[u8; 64]) -> (r: bool)
    ensures
        r == scalar_is_canonical(signature@.subrange(32, 64)),
{
    let low = le_u128(signature.as_slice(), 32);
    let high = le_u128(signature.as_slice(), 48);
    proof {
        let s = signature@.subrange(32, 64);
        lemma_le_value_split(s, 16);
        assert(s.subrange(0, 16) =~= signature@.subrange(32, 48));
        assert(s.subrange(16, 32) =~= signature@.subrange(48, 64));
        reveal_with_fuel(pow256, 17);
        let p = pow256(16);
        assert(p == u128::MAX as nat + 1);
        let h: nat = 0x1000_0000_0000_0000_0000_0000_0000_0000;
        let c: nat = 0x14de_f9de_a2f7_9cd6_5812_631a_5cf5_d3ed;
        let hv = high as nat;
        let lv = low as nat;
        assert(le_value(s) == lv + p * hv);
        assert(group_order() == h * p + c);
        assert(hv < h ==> lv + p * hv < h * p) by (nonlinear_arith)
            requires
                lv < p,
        ;
        assert(hv > h ==> lv + p * hv >= h * p + p) by (nonlinear_arith);
        assert(c < p);
        if hv < h {
            assert(le_value(s) < group_order());
        } else if hv == h {
            assert(p * hv == h * p) by (nonlinear_arith)
                requires
                    hv == h,
            ;
            assert(le_value(s) < group_order() <==> lv < c);
        } else {
            assert(le_value(s) >= group_order());
        }
    }
    // L = 2^124 * 2^128 + c, with c = 0x14def9dea2f79cd65812631a5cf5d3ed below 2^128.
    high < 0x1000_0000_0000_0000_0000_0000_0000_0000
        || (high == 0x1000_0000_0000_0000_0000_0000_0000_0000 && low < 0x14de_f9de_a2f7_9cd6_5812_631a_5cf5_d3ed)
}

/// Checks that `signature` is a valid signature over exactly `message` under
/// `public_key`. The public key is checked first: it must be 32 bytes that
/// encode a curve point; then the signature must be 64 bytes whose last 32
/// encode a scalar below the group order; only then is the signature itself
/// checked.
pub fn verify_signature(public_key: &[u8], message: &[u8], signature: &[u8]) -> (r: Result<(), VerificationError>)
    ensures
        r == verification_outcome(public_key@, message@, signature@),
{
    if public_key.len() != PUBLIC_KEY_LEN {
        return Err(VerificationError::MalformedPublicKey);
    }
    let key: [u8; 32] = to_array(public_key);
    if decode_public_key(&key).is_none() {
        return Err(VerificationError::MalformedPublicKey);
    }
    if signature.len() != SIGNATURE_LEN {
        return Err(VerificationError::MalformedSignature);
    }
    let sig: [u8; 64] = to_array(signature);
    if !signature_scalar_is_canonical(&sig) {
        return Err(VerificationError::MalformedSignature);
    }
    if verify_message(&key, message, &sig) {
        Ok(())
    } else {
        Err(VerificationError::VerificationFailed)
    }
}

/// An Ed25519 keypair. The public key is always the one derived from the
/// secret key; the secret key never leaves the keypair.
pub struct Ed25519Keypair {
    public: [u8; 32],
    secret: [u8; 32],
}

impl Ed25519Keypair {
    /// The 32 bytes of the public key.
    pub closed spec fn public_key(&self) -> Seq<u8> {
        self.public@
    }

    /// The 32 bytes of the secret key.
    pub closed spec fn secret_key(&self) -> Seq<u8> {
        self.secret@
    }

    #[verifier::type_invariant]
    spec fn inv(&self) -> bool {
        &&& self.public@ == ed25519_public_of(self.secret@)
        &&& ed25519_point_decodes(self.public@)
    }

    /// The keypair of a secret key.
    fn from_secret(secret: [u8; 32]) -> (r: Self)
        ensures
            r.secret_key() == secret@,
            r.public_key() == ed25519_public_of(secret@),
    {
        let public = derive_public_key(&secret);
        Ed25519Keypair { public, secret }
    }

    /// A fresh keypair from the operating system's entropy source. Panics if
    /// that source is unavailable: no key can be made without it.
    pub fn generate() -> (r: Self)
        ensures
            r.public_key() == ed25519_public_of(r.secret_key()),
            ed25519_point_decodes(r.public_key()),
    {
        let secret = random_secret_key();
        let r = Self::from_secret(secret);
        proof {
            use_type_invariant(&r);
        }
        r
    }

    /// Signs `msg`. Deterministic: the signature depends on the secret key and
    /// the message alone, and it verifies under this keypair's public key.
    pub fn sign(&self, msg: &[u8]) -> (r: Signature)
        ensures
            r@ == ed25519_signature_of(self.secret_key(), msg@),
            verification_outcome(self.public_key(), msg@, r@) == Ok::<(), VerificationError>(()),
    {
        proof {
            use_type_invariant(self);
        }
        Signature { bytes: sign_message(&self.secret, msg) }
    }

    /// The 32 bytes of the public key.
    pub fn public_bytes(&self) -> (r: [u8; 32])
        ensures
            r@ == self.public_key(),
            r@ == ed25519_public_of(self.secret_key()),
            ed25519_point_decodes(r@),
    {
        proof {
            use_type_invariant(self);
        }
        self.public
    }

    /// The public key as a key object of `ed25519_dalek`.
    pub fn verifying_key(&self) -> ed25519_dalek::VerifyingKey {
        proof {
            use_type_invariant(self);
        }
        match decode_public_key(&self.public) {
            Some(key) => key,
            None => vstd::pervasive::unreached(),
        }
    }
}

/// Signing is deterministic: two signatures made by one keypair over equal
/// messages are equal, byte for byte.
pub proof fn lemma_sign_deterministic(k: Ed25519Keypair, m1: Seq<u8>, m2: Seq<u8>, s1: Signature, s2: Signature)
    requires
        m1 == m2,
        s1@ == ed25519_signature_of(k.secret_key(), m1),
        s2@ == ed25519_signature_of(k.secret_key(), m2),
    ensures
        s1@ == s2@,
        s1 == s2,
{
    assert(s1.bytes =~= s2.bytes);
}

/// Malformed input is rejected as such, never as a failed verification: a
/// public key of a length other than 32 gives `MalformedPublicKey`; a signature
/// of a length other than 64 gives `MalformedPublicKey` or
/// `MalformedSignature`, the latter whenever the public key is well formed; so
/// does, under a well-formed public key, a 64-byte signature whose scalar half
/// is not below the group order.
pub proof fn lemma_malformed_input_rejected(public_key: Seq<u8>, message: Seq<u8>, signature: Seq<u8>)
    ensures
        public_key.len() != PUBLIC_KEY_LEN ==> verification_outcome(public_key, message, signature)
            == Err::<(), VerificationError>(VerificationError::MalformedPublicKey),
        signature.len() != SIGNATURE_LEN ==> verification_outcome(public_key, message, signature)
            != Err::<(), VerificationError>(VerificationError::VerificationFailed),
        signature.len() != SIGNATURE_LEN ==> verification_outcome(public_key, message, signature) is Err,
        signature.len() != SIGNATURE_LEN && public_key.len() == PUBLIC_KEY_LEN && ed25519_point_decodes(public_key)
            ==> verification_outcome(public_key, message, signature)
            == Err::<(), VerificationError>(VerificationError::MalformedSignature),
        signature.len() == SIGNATURE_LEN && !scalar_is_canonical(signature.subrange(32, 64))
            && public_key.len() == PUBLIC_KEY_LEN && ed25519_point_decodes(public_key)
            ==> verification_outcome(public_key, message, signature)
            == Err::<(), VerificationError>(VerificationError::MalformedSignature),
{
}

/// Under a keypair's public key, a 64-byte signature whose scalar half is
/// canonical, over any message, is either accepted or refused with
/// `VerificationFailed`: a tampered message or a signature made by another key
/// is never reported as malformed input.
pub proof fn lemma_keypair_rejections_are_verification_failures(k: Ed25519Keypair, message: Seq<u8>, signature: Seq<u8>)
    requires
        k.public_key() == ed25519_public_of(k.secret_key()),
        ed25519_point_decodes(k.public_key()),
        signature.len() == SIGNATURE_LEN,
        scalar_is_canonical(signature.subrange(32, 64)),
    ensures
        verification_outcome(k.public_key(), message, signature) is Ok
            || verification_outcome(k.public_key(), message, signature)
            == Err::<(), VerificationError>(VerificationError::VerificationFailed),
        verification_outcome(k.public_key(), message, signature) is Ok
            <==> ed25519_verifies(k.public_key(), message, signature),
{
    assert(k.public_key().len() == PUBLIC_KEY_LEN);
}

} // verus!
