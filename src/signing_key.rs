use jsonwebtoken::EncodingKey;

use vstd::prelude::*;

verus! {

#[verifier::external_type_specification]
#[verifier::external_body]
pub struct ExEncodingKey(EncodingKey);

#[verifier::external_type_specification]
#[verifier::external_body]
pub struct ExJwtError(jsonwebtoken::errors::Error);

/// Whether `pem` is a PEM document holding an RSA private key that
/// jsonwebtoken can sign with.
pub uninterp spec fn is_rsa_pem_key(pem: Seq<u8>) -> bool;

/// Relies on jsonwebtoken's `EncodingKey::from_rsa_pem`, which parses the
/// PEM text and fails unless it holds an RSA key; it reads nothing but its
/// argument.
#[verifier::external_body]
fn rsa_key_from_pem(pem: &[u8]) -> (r: Result<EncodingKey, jsonwebtoken::errors::Error>)
    ensures
        r.is_ok() == is_rsa_pem_key(pem@),
{
    EncodingKey::from_rsa_pem(pem)
}

/// Why the app's private key cannot be used.
#[derive(Debug, PartialEq, Eq)]
pub enum KeyError {
    /// The key is not an RSA private key in PEM form.
    InvalidPrivateKey,
}

/// The key with which the app signs its requests, from the PEM text of its
/// private key.
pub fn app_signing_key(pem: &[u8]) -> (r: Result<EncodingKey, KeyError>)
    ensures
        r.is_ok() == is_rsa_pem_key(pem@),
        r.is_err() ==> r == Err::<EncodingKey, KeyError>(KeyError::InvalidPrivateKey),
{
    match rsa_key_from_pem(pem) {
        Ok(key) => Ok(key),
        Err(_) => Err(KeyError::InvalidPrivateKey),
    }
}

} // verus!
