//! The notary key that verifications trust.

use vstd::prelude::*;
use elliptic_curve::pkcs8::DecodePublicKey;

verus! {

/// What `DecodePublicKey::from_public_key_pem` reads from a PEM text as a
/// P-256 public key, in the SEC1 encoding that `PublicKey::to_sec1_bytes`
/// gives it; `None` where the text holds no such key.
pub uninterp spec fn public_key_of_pem(pem: Seq<char>) -> Option<Seq<u8>>;

#[verifier::external_type_specification]
#[verifier::external_body]
pub struct ExSpkiError(elliptic_curve::pkcs8::spki::Error);

/// Calls `p256::PublicKey::from_public_key_pem` and hands the key out as
/// the bytes that `to_sec1_bytes` makes of it. The contract names the
/// result and claims that it depends on the text alone.
#[verifier::external_body]
fn public_key_from_pem(pem: &str) -> (r: Result<Vec<u8>, elliptic_curve::pkcs8::spki::Error>)
    ensures
        r is Ok <==> public_key_of_pem(pem@) is Some,
        r matches Ok(bytes) ==> public_key_of_pem(pem@) == Some(bytes@),
{
    let key = p256::PublicKey::from_public_key_pem(pem)?;
    Ok(key.to_sec1_bytes().into_vec())
}

/// A public key that is trusted to sign session headers, as a SEC1
/// encoded point of the curve P-256.
#[derive(Debug, PartialEq, Eq)]
pub struct NotaryPublicKey {
    sec1: Vec<u8>,
}

impl View for NotaryPublicKey {
    type V = Seq<u8>;

    closed spec fn view(&self) -> Seq<u8> {
        self.sec1@
    }
}

impl NotaryPublicKey {
    /// The key's SEC1 encoding.
    pub fn as_bytes(&self) -> (bytes: &[u8])
        ensures
            bytes@ == self@,
    {
        self.sec1.as_slice()
    }
}

/// Why a key store could not be made.
#[derive(Clone, Copy, Debug, PartialEq, Eq, Structural)]
pub enum KeyError {
    /// The key material is not a PEM-encoded P-256 public key.
    Malformed,
}

/// Holds the trusted notary key. It is made once and never changes.
#[derive(Debug)]
pub struct KeyStore {
    key: NotaryPublicKey,
}

impl KeyStore {
    /// The key that the store trusts.
    pub closed spec fn key(&self) -> Seq<u8> {
        self.key@
    }

    /// A store that trusts the key in `pem`.
    pub fn from_pem(pem: &str) -> (r: Result<KeyStore, KeyError>)
        ensures
            match r {
                Ok(store) => public_key_of_pem(pem@) == Some(store.key()),
                Err(error) => public_key_of_pem(pem@) is None && error == KeyError::Malformed,
            },
    {
        match public_key_from_pem(pem) {
            Ok(sec1) => Ok(KeyStore { key: NotaryPublicKey { sec1 } }),
            Err(_) => Err(KeyError::Malformed),
        }
    }

    /// The trusted notary key.
    pub fn trusted_key(&self) -> (key: &NotaryPublicKey)
        ensures
            key@ == self.key(),
    {
        &self.key
    }
}

} // verus!
