use vstd::prelude::*;

verus! {

/// Opaque identity of a validator. In this model the identity coincides with
/// the validator's public key; it is only ever compared for equality and used
/// as a lookup key.
pub type Author = u64;

/// A content hash. Hashing is modelled by a fixed deterministic mixing
/// function over 64-bit words; nothing in the protocol relies on any property
/// of the function beyond determinism.
pub type HashValue = u64;

/// Monotonically increasing proposal sequence number within an epoch.
pub type Round = u64;

/// A signature over a hash. The cryptographic scheme itself is outside this
/// model: a signature made with key `k` over hash `h` is the pair `(k, h)`,
/// and it verifies for an author exactly when `k` is the key registered for
/// that author and `h` is the hash being checked.
#[derive(Clone, Copy, PartialEq, Eq, Debug)]
pub struct Signature {
    pub key: u64,
    pub hash: HashValue,
}

/// The signature the holder of `key` produces over `hash`.
pub open spec fn spec_sign(key: u64, hash: HashValue) -> Signature {
    Signature { key: key, hash: hash }
}

/// Deterministic mixing of two hash words; the model's stand-in for a
/// collision-resistant combiner.
pub open spec fn spec_combine_hash(a: u64, b: u64) -> u64 {
    (a ^ ((b << 7) | (b >> 57))) ^ 0x9e3779b97f4a7c15u64
}

/// Executable twin of [`spec_combine_hash`].
pub fn combine_hash(a: u64, b: u64) -> (r: u64)
    ensures
        r == spec_combine_hash(a, b),
{
    (a ^ ((b << 7) | (b >> 57))) ^ 0x9e3779b97f4a7c15u64
}

/// The signing half of a validator: holds the private key. Deriving the
/// public identity from the key is modelled as the identity function, so a
/// signer's author equals its key.
#[derive(Clone, Copy, PartialEq, Eq, Debug)]
pub struct ValidatorSigner {
    pub key: u64,
}

impl ValidatorSigner {
    pub fn new(key: u64) -> (s: Self)
        ensures
            s.key == key,
    {
        ValidatorSigner { key }
    }

    /// The validator identity this signer signs as.
    pub fn author(&self) -> (a: Author)
        ensures
            a == self.key,
    {
        self.key
    }

    /// The public key other validators verify this signer's signatures with.
    pub fn public_key(&self) -> (k: u64)
        ensures
            k == self.key,
    {
        self.key
    }

    /// Sign a hash; assumed infallible for a configured key.
    pub fn sign(&self, hash: HashValue) -> (s: Signature)
        ensures
            s == spec_sign(self.key, hash),
    {
        Signature { key: self.key, hash }
    }
}

} // verus!
