//! The post-quantum signature primitive (SPHINCS+, SHA2-128f-simple), seen
//! through plain byte strings, and the in-process signing backend.

use pqcrypto_sphincsplus::sphincssha2128fsimple as sphincs;
use pqcrypto_traits::sign::DetachedSignature as _;
use pqcrypto_traits::sign::PublicKey as _;
use pqcrypto_traits::sign::SecretKey as _;
use vstd::prelude::*;

verus! {

/// Length in bytes of an encoded public key.
pub const PUBLIC_KEY_BYTES: usize = 32;

/// Length in bytes of an encoded secret key.
pub const SECRET_KEY_BYTES: usize = 64;

/// Length in bytes of an encoded detached signature.
pub const SIGNATURE_BYTES: usize = 17088;

/// Whether `sig` is a valid detached signature over `msg` under the public
/// key `pk`, as the signature scheme decides it.
pub uninterp spec fn signature_verifies(msg: Seq<u8>, sig: Seq<u8>, pk: Seq<u8>) -> bool;

/// Relies on `PublicKey::from_bytes`, `DetachedSignature::from_bytes` and
/// `verify_detached_signature`: the verdict depends on the three byte strings
/// alone; a public key of the wrong length is refused by `from_bytes`, and a
/// signature of any length but the scheme's never verifies.
#[verifier::external_body]
pub(crate) fn verify_detached(msg: &[u8], sig: &[u8], pk: &[u8]) -> (r: bool)
    ensures
        r == signature_verifies(msg@, sig@, pk@),
        pk@.len() != PUBLIC_KEY_BYTES ==> !r,
        sig@.len() != SIGNATURE_BYTES ==> !r,
{
    match (sphincs::PublicKey::from_bytes(pk), sphincs::DetachedSignature::from_bytes(sig)) {
        (Ok(p), Ok(s)) => sphincs::verify_detached_signature(&s, msg, &p).is_ok(),
        _ => false,
    }
}

/// Relies on `SecretKey::from_bytes` and `detached_sign`: a secret key is
/// accepted exactly when it has the scheme's length, and the detached
/// signature, always of the scheme's signature length, is then handed back as
/// bytes.
#[verifier::external_body]
pub(crate) fn sign_detached(msg: &[u8], sk: &[u8]) -> (r: Option<Vec<u8>>)
    ensures
        r is Some <==> sk@.len() == SECRET_KEY_BYTES,
        r matches Some(sig) ==> sig@.len() == SIGNATURE_BYTES,
{
    match sphincs::SecretKey::from_bytes(sk) {
        Ok(k) => Some(sphincs::detached_sign(msg, &k).as_bytes().to_vec()),
        Err(_) => None,
    }
}

/// Relies on `keypair`: a fresh key pair from the system's randomness, both
/// halves handed back as bytes of the scheme's fixed lengths.
#[verifier::external_body]
pub(crate) fn fresh_keypair() -> (r: (Vec<u8>, Vec<u8>))
    ensures
        r.0@.len() == PUBLIC_KEY_BYTES,
        r.1@.len() == SECRET_KEY_BYTES,
{
    let (pk, sk) = sphincs::keypair();
    (pk.as_bytes().to_vec(), sk.as_bytes().to_vec())
}

/// Errors of a signing backend.
#[derive(Debug, Clone, Copy, PartialEq, Eq, Structural)]
pub enum BackendError {
    /// No signing session could be opened.
    SessionOpenFailed,
    /// The credential was refused.
    AuthenticationFailed,
    /// The signer did not produce a signature.
    SigningFailed,
}

/// The in-process signing backend: it holds an owner's secret key.
pub struct LocalSigner {
    secret_key: Vec<u8>,
}

impl View for LocalSigner {
    type V = Seq<u8>;

    closed spec fn view(&self) -> Seq<u8> {
        self.secret_key@
    }
}

impl LocalSigner {
    /// A signer holding the given secret key bytes.
    pub fn from_secret_key(secret_key: Vec<u8>) -> (r: LocalSigner)
        ensures
            r@ == secret_key@,
    {
        LocalSigner { secret_key }
    }

    /// The held secret key bytes.
    pub fn secret_key(&self) -> (r: &Vec<u8>)
        ensures
            r@ == self@,
    {
        &self.secret_key
    }

    /// A fresh key pair: the public key bytes and a signer for the secret key.
    pub fn generate() -> (r: (Vec<u8>, LocalSigner))
        ensures
            r.0@.len() == PUBLIC_KEY_BYTES,
            r.1@.len() == SECRET_KEY_BYTES,
    {
        let (pk, sk) = fresh_keypair();
        (pk, LocalSigner { secret_key: sk })
    }

    /// Signs `message`; fails with `SigningFailed` exactly when the held key
    /// material is malformed (not of the scheme's secret key length).
    pub fn sign(&self, message: &[u8]) -> (r: Result<Vec<u8>, BackendError>)
        ensures
            r is Ok <==> self@.len() == SECRET_KEY_BYTES,
            r matches Ok(sig) ==> sig@.len() == SIGNATURE_BYTES,
            r is Err ==> r == Err::<Vec<u8>, BackendError>(BackendError::SigningFailed),
    {
        match sign_detached(message, self.secret_key.as_slice()) {
            Some(sig) => Ok(sig),
            None => Err(BackendError::SigningFailed),
        }
    }
}

} // verus!
