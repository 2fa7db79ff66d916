//! Key pairs, signatures over text, and the content digest.
//!
//! The elliptic-curve and hashing work is done by `secp256k1` and `sha2`.
//! What those crates compute is not spelled out here: each result has a
//! name, and the contracts of this module are stated over those names.

use sha2::Digest;
use std::str::FromStr;
use vstd::prelude::*;

verus! {

/// The text that `sha2::Sha256` gives for the UTF-8 bytes of `text`, printed
/// with `{:x}`: the SHA-256 digest in lower-case hexadecimal.
pub uninterp spec fn spec_sha256_hex(text: Seq<char>) -> Seq<char>;

/// The public key that belongs to the secret key written in `secret_key`, as
/// `secp256k1::PublicKey` prints it; `None` where `secret_key` is not the
/// text of a secret key.
pub uninterp spec fn spec_public_key(secret_key: Seq<char>) -> Option<Seq<char>>;

/// The signature that `secp256k1` makes over the SHA-256 digest of `message`
/// with the secret key written in `secret_key`, as `secp256k1::Signature`
/// prints it; `None` where `secret_key` is not the text of a secret key.
pub uninterp spec fn spec_sign(message: Seq<char>, secret_key: Seq<char>) -> Option<Seq<char>>;

/// Whether `signature` and `public_key` are the texts of a signature and of
/// a public key, and `secp256k1` accepts the signature over the SHA-256
/// digest of `message` under that key.
pub uninterp spec fn spec_verify(
    message: Seq<char>,
    signature: Seq<char>,
    public_key: Seq<char>,
) -> bool;

/// The characters of an optional text.
pub open spec fn text_of(t: Option<String>) -> Option<Seq<char>> {
    match t {
        Some(s) => Some(s@),
        None => None,
    }
}

/// The content digest used for transactions and blocks.
///
/// Trusted: calls `sha2::Sha256` (`new`, `update`, `finalize`) on the bytes
/// of `in_str` and prints the 32 bytes with `{:x}`. The contract only gives
/// that text its name: it depends on `in_str` alone.
#[verifier::external_body]
pub fn hash_string(in_str: &str) -> (digest: String)
    ensures
        digest@ == spec_sha256_hex(in_str@),
{
    let mut hasher = sha2::Sha256::new();
    hasher.update(in_str);
    format!("{:x}", hasher.finalize())
}

/// A fresh secret key, as text; `None` where the operating system's random
/// source cannot be opened.
///
/// Trusted: calls `rand`'s `OsRng::new` and `secp256k1::SecretKey::new`,
/// which draws until the bytes are a valid key, and prints the key. The key
/// is random, so the contract claims only what holds of every draw: the
/// text is that of a secret key.
#[verifier::external_body]
fn random_secret_key() -> (key: Option<String>)
    ensures
        key matches Some(k) ==> spec_public_key(k@) is Some,
{
    match secp256k1::rand::rngs::OsRng::new() {
        Ok(mut rng) => Some(secp256k1::SecretKey::new(&mut rng).to_string()),
        Err(_) => None,
    }
}

/// The public key of a secret key, both as text.
///
/// Trusted: parses with `secp256k1::SecretKey::from_str`, derives with
/// `secp256k1::PublicKey::from_secret_key` and prints the key in its
/// compressed form. The contract gives the result its name.
#[verifier::external_body]
fn public_key_for(secret_key: &str) -> (key: Option<String>)
    ensures
        text_of(key) == spec_public_key(secret_key@),
{
    match secp256k1::SecretKey::from_str(secret_key) {
        Ok(sk) => {
            let secp = secp256k1::Secp256k1::new();
            Some(secp256k1::PublicKey::from_secret_key(&secp, &sk).to_string())
        },
        Err(_) => None,
    }
}

/// Signs the SHA-256 digest of `message`.
///
/// Trusted: parses the key with `secp256k1::SecretKey::from_str`, hashes
/// with `secp256k1::Message::from_hashed_data`, signs with
/// `secp256k1::Secp256k1::sign` (deterministic nonce) and prints the
/// signature. The contract names the result, says that it exists exactly
/// when the key text is that of a secret key, and that the signature
/// verifies under the public key of that secret key.
#[verifier::external_body]
fn ecdsa_sign(message: &str, secret_key: &str) -> (signature: Option<String>)
    ensures
        text_of(signature) == spec_sign(message@, secret_key@),
        signature is Some <==> spec_public_key(secret_key@) is Some,
        signature matches Some(s) ==> spec_verify(
            message@,
            s@,
            spec_public_key(secret_key@).unwrap(),
        ),
{
    match secp256k1::SecretKey::from_str(secret_key) {
        Ok(sk) => {
            let digest = secp256k1::Message::from_hashed_data::<
                secp256k1::bitcoin_hashes::sha256::Hash,
            >(message.as_bytes());
            Some(secp256k1::Secp256k1::new().sign(&digest, &sk).to_string())
        },
        Err(_) => None,
    }
}

/// Checks a signature over the SHA-256 digest of `message`; a text that is
/// no signature or no public key gives `false`.
///
/// Trusted: parses with `secp256k1::PublicKey::from_str` and
/// `secp256k1::Signature::from_str`, hashes with
/// `secp256k1::Message::from_hashed_data` and checks with
/// `secp256k1::Secp256k1::verify`. The contract gives the answer its name.
#[verifier::external_body]
pub(crate) fn ecdsa_verify(message: &str, signature: &str, public_key: &str) -> (valid: bool)
    ensures
        valid == spec_verify(message@, signature@, public_key@),
{
    match (secp256k1::PublicKey::from_str(public_key), secp256k1::Signature::from_str(signature)) {
        (Ok(pk), Ok(sig)) => {
            let digest = secp256k1::Message::from_hashed_data::<
                secp256k1::bitcoin_hashes::sha256::Hash,
            >(message.as_bytes());
            secp256k1::Secp256k1::new().verify(&digest, &sig, &pk).is_ok()
        },
        _ => false,
    }
}

/// Why a key pair could not be made.
#[derive(Clone, Copy, Debug, PartialEq, Eq, Structural)]
pub enum KeyError {
    /// The operating system's random source could not be opened.
    EntropyUnavailable,
    /// The text is not that of a secret key.
    InvalidSecretKey,
}

/// What a [`KeyManager`] holds, as plain text.
pub struct KeyPair {
    pub public_key: Seq<char>,
    pub secret_key: Seq<char>,
}

impl KeyPair {
    /// The public key is the one that belongs to the secret key.
    pub open spec fn matched(self) -> bool {
        spec_public_key(self.secret_key) == Some(self.public_key)
    }
}

/// An identity: a secret key and its public key, which doubles as the
/// account address.
pub struct KeyManager {
    public_key: String,
    secret_key: String,
}

impl View for KeyManager {
    type V = KeyPair;

    closed spec fn view(&self) -> KeyPair {
        KeyPair { public_key: self.public_key@, secret_key: self.secret_key@ }
    }
}

impl KeyManager {
    #[verifier::type_invariant]
    spec fn well_formed(self) -> bool {
        spec_public_key(self.secret_key@) == Some(self.public_key@)
    }

    /// Generates a fresh key pair: draws a secret key from the operating
    /// system's random source and derives its public key. It fails only
    /// where that source cannot be opened.
    pub fn new() -> (made: Result<KeyManager, KeyError>)
        ensures
            made matches Ok(keys) ==> keys@.matched(),
            made matches Err(e) ==> e == KeyError::EntropyUnavailable,
    {
        match random_secret_key() {
            Some(secret_key) => KeyManager::from_secret_key(secret_key),
            None => Err(KeyError::EntropyUnavailable),
        }
    }

    /// The key pair of a given secret key: its public key is derived from
    /// it. Fails exactly where the text is not that of a secret key.
    pub fn from_secret_key(secret_key: String) -> (made: Result<KeyManager, KeyError>)
        ensures
            match made {
                Ok(keys) => keys@.secret_key == secret_key@ && keys@.matched(),
                Err(e) => e == KeyError::InvalidSecretKey && spec_public_key(secret_key@) is None,
            },
    {
        match public_key_for(secret_key.as_str()) {
            Some(public_key) => Ok(KeyManager { public_key, secret_key }),
            None => Err(KeyError::InvalidSecretKey),
        }
    }

    /// Signs the digest of `message` with the held secret key. The result
    /// verifies under the held public key.
    pub fn sign(&self, message: String) -> (signature: String)
        ensures
            spec_sign(message@, self@.secret_key) == Some(signature@),
            spec_verify(message@, signature@, self@.public_key),
    {
        proof {
            use_type_invariant(self);
        }
        ecdsa_sign(message.as_str(), self.secret_key.as_str()).unwrap()
    }

    /// Checks `signature` over the digest of `message` against `public_key`,
    /// or against the held public key where none is given.
    pub fn verify(&self, message: String, signature: String, public_key: Option<String>) -> (valid:
        bool)
        ensures
            valid == spec_verify(
                message@,
                signature@,
                match public_key {
                    Some(k) => k@,
                    None => self@.public_key,
                },
            ),
    {
        match public_key {
            Some(k) => ecdsa_verify(message.as_str(), signature.as_str(), k.as_str()),
            None => ecdsa_verify(message.as_str(), signature.as_str(), self.public_key.as_str()),
        }
    }

    /// The public key, which is the account address.
    pub fn get_public_key(&self) -> (key: String)
        ensures
            key@ == self@.public_key,
    {
        self.public_key.clone()
    }
}

} // verus!
