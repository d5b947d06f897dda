//! The key that protects the cache, and authenticated encryption under it.
//!
//! A blob is a fresh 12-byte nonce followed by what AES-256-GCM makes of the
//! plaintext under that nonce: the ciphertext and its 16-byte tag.

use aes_gcm::aead::{Aead, KeyInit, OsRng};
use aes_gcm::{Aes256Gcm, Nonce};
use base64::engine::general_purpose;
use base64::Engine;
use rand::RngCore;
use vstd::prelude::*;

verus! {

/// Bytes of a nonce.
pub const NONCE_LENGTH: usize = 12;

/// Bytes of a key.
pub const KEY_LENGTH: usize = 32;

/// Bytes of an authentication tag.
pub const TAG_LENGTH: usize = 16;

/// The longest plaintext, in bytes, that AES-GCM takes.
pub const MAX_PLAINTEXT_LENGTH: u64 = 68_719_476_736;

/// What `Aes256Gcm::encrypt` makes of a plaintext under a key and a nonce:
/// the ciphertext followed by its tag.
pub uninterp spec fn aes256_gcm_seal(key: Seq<u8>, nonce: Seq<u8>, plaintext: Seq<u8>) -> Seq<u8>;

/// What `Aes256Gcm::decrypt` makes of a ciphertext with its tag under a key
/// and a nonce: the plaintext, or `None` where it refuses.
pub uninterp spec fn aes256_gcm_open(key: Seq<u8>, nonce: Seq<u8>, sealed: Seq<u8>) -> Option<
    Seq<u8>,
>;

/// The text that the standard base64 engine writes for bytes.
pub uninterp spec fn base64_text(bytes: Seq<u8>) -> Seq<char>;

/// The bytes that the standard base64 engine reads from a text, or `None`
/// where it refuses.
pub uninterp spec fn base64_bytes(text: Seq<char>) -> Option<Seq<u8>>;

/// Why a key could not be had or a payload could not be processed.
#[derive(Debug, PartialEq, Eq)]
pub enum EncryptionError {
    /// The secret store could not be reached.
    KeyAccess(String),
    /// The stored secret is not a key: it is not base64, or it is not 32
    /// bytes.
    KeyFormat(&'static str),
    /// The operating system gave no random bytes.
    RandomSource,
    /// The cipher refused the plaintext.
    EncryptionFailure,
    /// The blob is too short to hold a nonce.
    InvalidCiphertext,
    /// The tag does not match: the blob was tampered with or corrupted, or
    /// the key is another one.
    AuthenticationFailure,
}

impl EncryptionError {
    /// The error in words.
    pub open spec fn spec_message(self) -> Seq<char> {
        match self {
            EncryptionError::KeyAccess(message) => message@,
            EncryptionError::KeyFormat(message) => message@,
            EncryptionError::RandomSource => "random source unavailable"@,
            EncryptionError::EncryptionFailure => "encryption failure"@,
            EncryptionError::InvalidCiphertext => "ciphertext too short to contain nonce"@,
            EncryptionError::AuthenticationFailure => "decryption failure"@,
        }
    }

    /// The error in words.
    pub fn message(&self) -> (text: String)
        ensures
            text@ == self.spec_message(),
    {
        match self {
            EncryptionError::KeyAccess(message) => message.clone(),
            EncryptionError::KeyFormat(message) => (*message).to_owned(),
            EncryptionError::RandomSource => "random source unavailable".to_owned(),
            EncryptionError::EncryptionFailure => "encryption failure".to_owned(),
            EncryptionError::InvalidCiphertext => "ciphertext too short to contain nonce".to_owned(),
            EncryptionError::AuthenticationFailure => "decryption failure".to_owned(),
        }
    }
}

/// Seals with `Aes256Gcm::new_from_slice(key)` and `Aead::encrypt` under
/// `Nonce::from_slice(nonce)`.
///
/// Trusted: the cipher refuses exactly the plaintexts of more than 2^36
/// bytes; what it returns depends on key, nonce and plaintext alone, is 16
/// bytes longer than the plaintext, and is opened again by `Aead::decrypt`
/// under the same key and nonce.
#[verifier::external_body]
fn aes_seal(key: &[u8; 32], nonce: &[u8; 12], plaintext: &[u8]) -> (sealed: Option<Vec<u8>>)
    ensures
        sealed is Some <==> plaintext@.len() <= MAX_PLAINTEXT_LENGTH,
        sealed matches Some(bytes) ==> {
            &&& bytes@ == aes256_gcm_seal(key@, nonce@, plaintext@)
            &&& bytes@.len() == plaintext@.len() + TAG_LENGTH
            &&& aes256_gcm_open(key@, nonce@, bytes@) == Some(plaintext@)
        },
{
    let cipher = Aes256Gcm::new_from_slice(key).ok()?;
    cipher.encrypt(Nonce::from_slice(nonce), plaintext).ok()
}

/// Opens with `Aes256Gcm::new_from_slice(key)` and `Aead::decrypt` under
/// `Nonce::from_slice(nonce)`.
///
/// Trusted: whether the cipher accepts, and the plaintext it returns, depend
/// on key, nonce and sealed bytes alone.
#[verifier::external_body]
fn aes_open(key: &[u8; 32], nonce: &[u8; 12], sealed: &[u8]) -> (opened: Option<Vec<u8>>)
    ensures
        match opened {
            Some(plaintext) => aes256_gcm_open(key@, nonce@, sealed@) == Some(plaintext@),
            None => aes256_gcm_open(key@, nonce@, sealed@) is None,
        },
{
    let cipher = Aes256Gcm::new_from_slice(key).ok()?;
    cipher.decrypt(Nonce::from_slice(nonce), sealed).ok()
}

/// Asks the operating system for random bytes with `OsRng.try_fill_bytes`.
/// `None` means that the system gave none. Nothing is known of the bytes.
#[verifier::external_body]
fn random_bytes<const N: usize>() -> (bytes: Option<[u8; N]>) {
    let mut bytes = [0u8; N];
    OsRng.try_fill_bytes(&mut bytes).ok().map(|_| bytes)
}

/// Writes bytes as text with `general_purpose::STANDARD.encode`.
///
/// Trusted: the text depends on the bytes alone, and the same engine reads
/// the bytes back from it.
#[verifier::external_body]
fn base64_encode(bytes: &[u8; 32]) -> (text: String)
    ensures
        text@ == base64_text(bytes@),
        base64_bytes(text@) == Some(bytes@),
{
    general_purpose::STANDARD.encode(bytes)
}

/// Reads bytes from text with `general_purpose::STANDARD.decode`.
///
/// Trusted: whether the text is accepted, and the bytes read from it, depend
/// on the text alone.
#[verifier::external_body]
fn base64_decode(text: &str) -> (bytes: Option<Vec<u8>>)
    ensures
        match bytes {
            Some(read) => base64_bytes(text@) == Some(read@),
            None => base64_bytes(text@) is None,
        },
{
    general_purpose::STANDARD.decode(text).ok()
}

/// The blob that holds a plaintext sealed under a key and a nonce.
pub open spec fn sealed_blob(key: Seq<u8>, nonce: Seq<u8>, plaintext: Seq<u8>) -> Seq<u8> {
    nonce + aes256_gcm_seal(key, nonce, plaintext)
}

/// What opening a blob under a key gives.
pub open spec fn opened_blob(key: Seq<u8>, blob: Seq<u8>) -> Result<Seq<u8>, EncryptionError> {
    if blob.len() < NONCE_LENGTH {
        Err(EncryptionError::InvalidCiphertext)
    } else {
        match aes256_gcm_open(
            key,
            blob.subrange(0, NONCE_LENGTH as int),
            blob.subrange(NONCE_LENGTH as int, blob.len() as int),
        ) {
            Some(plaintext) => Ok(plaintext),
            None => Err(EncryptionError::AuthenticationFailure),
        }
    }
}

/// What reading a stored secret as a key gives.
pub open spec fn stored_key(secret: Seq<char>) -> Result<Seq<u8>, EncryptionError> {
    match base64_bytes(secret) {
        None => Err(EncryptionError::KeyFormat("failed to decode stored encryption key")),
        Some(bytes) => if bytes.len() == KEY_LENGTH {
            Ok(bytes)
        } else {
            Err(EncryptionError::KeyFormat("stored encryption key has invalid length"))
        },
    }
}

/// A result with its bytes as a sequence.
pub open spec fn viewed_bytes(result: Result<Vec<u8>, EncryptionError>) -> Result<
    Seq<u8>,
    EncryptionError,
> {
    match result {
        Ok(bytes) => Ok(bytes@),
        Err(error) => Err(error),
    }
}

/// A key, and the secret to write to the secret store where the key is new.
#[derive(Debug)]
pub struct FetchedKey {
    pub key: [u8; 32],
    /// `Some` for a key that was just generated: the text under which the
    /// secret store has to keep it. `None` for a key that the store held.
    pub persist: Option<String>,
}

/// What reading the secret store under the address of the key gave.
#[derive(Debug, PartialEq, Eq)]
pub enum StoredSecret {
    /// The store holds this secret.
    Found(String),
    /// The store was read and holds nothing under the address.
    Absent,
    /// The store could not be read; the reason is given.
    Unreachable(String),
}

/// Owns the address of the key in the secret store, and encrypts and
/// decrypts under a key.
#[derive(Debug)]
pub struct EncryptionManager {
    service: String,
    account: String,
}

impl Clone for EncryptionManager {
    fn clone(&self) -> (copy: EncryptionManager)
        ensures
            copy == *self,
    {
        EncryptionManager { service: self.service.clone(), account: self.account.clone() }
    }
}

impl EncryptionManager {
    /// The service part of the address.
    pub closed spec fn spec_service(self) -> Seq<char> {
        self.service@
    }

    /// The account part of the address.
    pub closed spec fn spec_account(self) -> Seq<char> {
        self.account@
    }

    /// A manager for the key that the secret store keeps under the pair
    /// `(service, account)`.
    pub fn new(service: &str, account: &str) -> (manager: EncryptionManager)
        ensures
            manager.spec_service() == service@,
            manager.spec_account() == account@,
    {
        EncryptionManager { service: service.to_owned(), account: account.to_owned() }
    }

    /// The service part of the address.
    pub fn service(&self) -> (service: &str)
        ensures
            service@ == self.spec_service(),
    {
        self.service.as_str()
    }

    /// The account part of the address.
    pub fn account(&self) -> (account: &str)
        ensures
            account@ == self.spec_account(),
    {
        self.account.as_str()
    }

    /// Reads a stored secret as a key.
    pub fn decode_stored_key(&self, secret: &str) -> (decoded: Result<[u8; 32], EncryptionError>)
        ensures
            match decoded {
                Ok(key) => stored_key(secret@) == Ok::<Seq<u8>, EncryptionError>(key@),
                Err(error) => stored_key(secret@) == Err::<Seq<u8>, EncryptionError>(error),
            },
    {
        match base64_decode(secret) {
            None => Err(EncryptionError::KeyFormat("failed to decode stored encryption key")),
            Some(bytes) => {
                if bytes.len() != KEY_LENGTH {
                    return Err(
                        EncryptionError::KeyFormat("stored encryption key has invalid length"),
                    );
                }
                let mut key = [0u8;32];
                let mut i: usize = 0;
                while i < KEY_LENGTH
                    invariant
                        i <= KEY_LENGTH,
                        bytes.len() == KEY_LENGTH,
                        forall|k: int| 0 <= k < i ==> key@[k] == bytes@[k],
                    decreases KEY_LENGTH - i,
                {
                    key[i] = bytes[i];
                    i += 1;
                }
                assert(key@ =~= bytes@);
                Ok(key)
            },
        }
    }

    /// The key that freshly drawn bytes make: the bytes themselves, with
    /// the secret to persist, from which the same key is read again.
    pub fn generated_key(&self, drawn: [u8; 32]) -> (made: FetchedKey)
        ensures
            made.key@ == drawn@,
            made.persist matches Some(secret) && secret@ == base64_text(drawn@) && stored_key(
                secret@,
            ) == Ok::<Seq<u8>, EncryptionError>(drawn@),
    {
        let secret = base64_encode(&drawn);
        FetchedKey { key: drawn, persist: Some(secret) }
    }

    /// Decides on the key from what reading the secret store gave. A stored
    /// secret is read as the key. A store that could not be read is an
    /// error, and no key is made. Where the store holds nothing, 32 random
    /// bytes are drawn and become the key, which comes with the secret to
    /// persist.
    pub fn fetch_or_generate_key(&self, stored: &StoredSecret) -> (fetched: Result<
        FetchedKey,
        EncryptionError,
    >)
        ensures
            match *stored {
                StoredSecret::Found(secret) => match fetched {
                    Ok(found) => stored_key(secret@) == Ok::<Seq<u8>, EncryptionError>(found.key@)
                        && found.persist is None,
                    Err(error) => stored_key(secret@) == Err::<Seq<u8>, EncryptionError>(error),
                },
                StoredSecret::Unreachable(reason) => fetched matches Err(error) && error
                    == EncryptionError::KeyAccess(reason),
                StoredSecret::Absent => match fetched {
                    Ok(made) => made.persist matches Some(secret) && secret@ == base64_text(
                        made.key@,
                    ) && stored_key(secret@) == Ok::<Seq<u8>, EncryptionError>(made.key@),
                    Err(error) => error == EncryptionError::RandomSource,
                },
            },
    {
        match stored {
            StoredSecret::Found(secret) => {
                let key = self.decode_stored_key(secret.as_str())?;
                Ok(FetchedKey { key, persist: None })
            },
            StoredSecret::Unreachable(reason) => Err(EncryptionError::KeyAccess(reason.clone())),
            StoredSecret::Absent => match random_bytes::<32>() {
                Some(drawn) => Ok(self.generated_key(drawn)),
                None => Err(EncryptionError::RandomSource),
            },
        }
    }

    /// Seals a plaintext under a key and the given nonce.
    pub fn encrypt_with_nonce(&self, key: &[u8; 32], nonce: &[u8; 12], plaintext: &[u8]) -> (blob:
        Result<Vec<u8>, EncryptionError>)
        ensures
            viewed_bytes(blob) == if plaintext@.len() <= MAX_PLAINTEXT_LENGTH {
                Ok::<Seq<u8>, EncryptionError>(sealed_blob(key@, nonce@, plaintext@))
            } else {
                Err::<Seq<u8>, EncryptionError>(EncryptionError::EncryptionFailure)
            },
            blob matches Ok(bytes) ==> bytes@.len() == NONCE_LENGTH + plaintext@.len() + TAG_LENGTH
                && opened_blob(key@, bytes@) == Ok::<Seq<u8>, EncryptionError>(plaintext@),
    {
        match aes_seal(key, nonce, plaintext) {
            None => Err(EncryptionError::EncryptionFailure),
            Some(mut sealed) => {
                let ghost body = sealed@;
                let mut blob: Vec<u8> = Vec::new();
                let mut i: usize = 0;
                while i < NONCE_LENGTH
                    invariant
                        i <= NONCE_LENGTH,
                        blob@ == nonce@.take(i as int),
                    decreases NONCE_LENGTH - i,
                {
                    blob.push(nonce[i]);
                    assert(blob@ =~= nonce@.take(i + 1));
                    i += 1;
                }
                assert(nonce@.take(NONCE_LENGTH as int) =~= nonce@);
                blob.append(&mut sealed);
                assert(blob@.subrange(0, NONCE_LENGTH as int) =~= nonce@);
                assert(blob@.subrange(NONCE_LENGTH as int, blob@.len() as int) =~= body);
                Ok(blob)
            },
        }
    }

    /// Seals a plaintext under a key and a fresh random nonce. The blob
    /// that comes back opens to the plaintext under the same key.
    pub fn encrypt(&self, key: &[u8; 32], plaintext: &[u8]) -> (blob: Result<
        Vec<u8>,
        EncryptionError,
    >)
        ensures
            match blob {
                Ok(bytes) => {
                    &&& plaintext@.len() <= MAX_PLAINTEXT_LENGTH
                    &&& exists|nonce: Seq<u8>|
                        nonce.len() == NONCE_LENGTH && bytes@ == #[trigger] sealed_blob(
                            key@,
                            nonce,
                            plaintext@,
                        )
                    &&& bytes@.len() == NONCE_LENGTH + plaintext@.len() + TAG_LENGTH
                    &&& opened_blob(key@, bytes@) == Ok::<Seq<u8>, EncryptionError>(plaintext@)
                },
                Err(error) => error == EncryptionError::RandomSource || (error
                    == EncryptionError::EncryptionFailure && plaintext@.len()
                    > MAX_PLAINTEXT_LENGTH),
            },
    {
        match random_bytes::<12>() {
            None => Err(EncryptionError::RandomSource),
            Some(nonce) => {
                let blob = self.encrypt_with_nonce(key, &nonce, plaintext);
                proof {
                    if blob is Ok {
                        assert(blob->Ok_0@ == sealed_blob(key@, nonce@, plaintext@));
                    }
                }
                blob
            },
        }
    }

    /// Opens a blob under a key.
    pub fn decrypt(&self, key: &[u8; 32], data: &[u8]) -> (plaintext: Result<
        Vec<u8>,
        EncryptionError,
    >)
        ensures
            viewed_bytes(plaintext) == opened_blob(key@, data@),
    {
        if data.len() < NONCE_LENGTH {
            return Err(EncryptionError::InvalidCiphertext);
        }
        let (nonce_bytes, sealed) = data.split_at(NONCE_LENGTH);
        let mut nonce = [0u8;12];
        let mut i: usize = 0;
        while i < NONCE_LENGTH
            invariant
                i <= NONCE_LENGTH,
                nonce_bytes@.len() == NONCE_LENGTH,
                forall|k: int| 0 <= k < i ==> nonce@[k] == nonce_bytes@[k],
            decreases NONCE_LENGTH - i,
        {
            nonce[i] = nonce_bytes[i];
            i += 1;
        }
        assert(nonce@ =~= data@.subrange(0, NONCE_LENGTH as int));
        match aes_open(key, &nonce, sealed) {
            Some(opened) => Ok(opened),
            None => Err(EncryptionError::AuthenticationFailure),
        }
    }
}

} // verus!
