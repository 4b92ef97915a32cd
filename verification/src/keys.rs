//! Validator keys: the Ed25519 keys of the consensus participants.

use commonware_codec::ReadExt;
use commonware_cryptography::ed25519::PrivateKey;
use commonware_cryptography::ed25519::PublicKey;
use commonware_cryptography::Signer;
use vstd::prelude::*;

verus! {

/// An Ed25519 public key.
#[verifier::external_type_specification]
#[verifier::external_body]
pub struct ExPublicKey(PublicKey);

/// An Ed25519 private key.
#[verifier::external_type_specification]
#[verifier::external_body]
pub struct ExPrivateKey(PrivateKey);

/// The Ed25519 public key that the first 32 bytes of `bytes` encode, if they
/// encode one.
pub uninterp spec fn decoded_key(bytes: Seq<u8>) -> Option<PublicKey>;

/// The public key that `bytes` encode, if they encode one.
///
/// Trusted: `read` of `commonware_cryptography::ed25519::PublicKey`, which
/// takes 32 bytes and gives the key that holds them where they decompress to
/// a point of the curve; the contract names what it gives.
#[verifier::external_body]
pub(crate) fn decode_public_key(bytes: &[u8]) -> (key: Option<PublicKey>)
    ensures
        key == decoded_key(bytes@),
{
    let mut buf = bytes;
    PublicKey::read(&mut buf).ok()
}

/// The Ed25519 private key whose seed the first 32 bytes of `seed` are, if
/// there are so many.
pub uninterp spec fn seeded_key(seed: Seq<u8>) -> Option<PrivateKey>;

/// The private key with the given seed.
///
/// Trusted: `read` of `commonware_cryptography::ed25519::PrivateKey`, which
/// takes 32 bytes as the seed and fails only where fewer are given; the
/// contract names the key.
#[verifier::external_body]
pub(crate) fn private_key(seed: &[u8]) -> (key: Option<PrivateKey>)
    ensures
        key == seeded_key(seed@),
        seed@.len() >= 32 ==> key is Some,
{
    let mut buf = seed;
    PrivateKey::read(&mut buf).ok()
}

/// The public key that belongs to a private key.
pub uninterp spec fn public_of(private: PrivateKey) -> PublicKey;

/// The public key of a private key.
///
/// Trusted: `Signer::public_key` of `commonware_cryptography::ed25519::PrivateKey`,
/// which hands out the public key that the private key holds, derived from
/// it when it was made; the contract names it.
#[verifier::external_body]
pub(crate) fn public_key(private: &PrivateKey) -> (public: PublicKey)
    ensures
        public == public_of(*private),
{
    private.public_key()
}

} // verus!
