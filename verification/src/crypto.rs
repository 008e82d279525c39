//! Authenticated encryption of audio and signaling data with AES-256-GCM.
//!
//! A sealed message is laid out as nonce (12 bytes) || ciphertext || tag
//! (16 bytes). The nonce is 4 random bytes followed by a per-cipher counter
//! in little-endian order, advanced before every encryption.

use aes_gcm::aead::{Aead, KeyInit, OsRng, Payload};
use aes_gcm::{Aes256Gcm, Key, Nonce};
use rand::RngCore;
use std::collections::hash_map::DefaultHasher;
use std::hash::{Hash, Hasher};
use vstd::bytes::{spec_u64_to_le_bytes, u64_to_le_bytes};
use vstd::prelude::*;

use crate::text::{dec_text, push_decimal};

verus! {

/// Size of an AES-256 key in bytes.
pub const KEY_SIZE: usize = 32;

/// Size of a GCM nonce in bytes.
pub const NONCE_SIZE: usize = 12;

/// Size of a GCM tag in bytes.
pub const TAG_SIZE: usize = 16;

/// Crypto errors.
#[derive(Debug, PartialEq, Eq, Structural)]
pub enum CryptoError {
    EncryptionFailed,
    DecryptionFailed,
    InvalidKeySize { expected: usize, actual: usize },
    InvalidNonceSize { expected: usize, actual: usize },
    CiphertextTooShort,
}

/// The message of a crypto error.
pub open spec fn crypto_error_text(e: CryptoError) -> Seq<char> {
    match e {
        CryptoError::EncryptionFailed => "Encryption failed"@,
        CryptoError::DecryptionFailed => "Decryption failed: invalid ciphertext or tag"@,
        CryptoError::InvalidKeySize { expected, actual } => "Invalid key size: expected "@ + dec_text(
            expected as nat,
        ) + ", got "@ + dec_text(actual as nat),
        CryptoError::InvalidNonceSize { expected, actual } => "Invalid nonce size: expected "@
            + dec_text(expected as nat) + ", got "@ + dec_text(actual as nat),
        CryptoError::CiphertextTooShort => "Ciphertext too short"@,
    }
}

impl CryptoError {
    /// The human-readable message.
    pub fn message(&self) -> (r: String)
        ensures
            r@ == crypto_error_text(*self),
    {
        match self {
            CryptoError::EncryptionFailed => String::from_str("Encryption failed"),
            CryptoError::DecryptionFailed => String::from_str("Decryption failed: invalid ciphertext or tag"),
            CryptoError::InvalidKeySize { expected, actual } => {
                let mut r = String::from_str("Invalid key size: expected ");
                push_decimal(&mut r, *expected as u64);
                r.append(", got ");
                push_decimal(&mut r, *actual as u64);
                r
            },
            CryptoError::InvalidNonceSize { expected, actual } => {
                let mut r = String::from_str("Invalid nonce size: expected ");
                push_decimal(&mut r, *expected as u64);
                r.append(", got ");
                push_decimal(&mut r, *actual as u64);
                r
            },
            CryptoError::CiphertextTooShort => String::from_str("Ciphertext too short"),
        }
    }
}

#[verifier::external_type_specification]
#[verifier::external_body]
pub struct ExAeadError(aes_gcm::Error);

/// What `Aead::encrypt` of `Aes256Gcm` returns for a key, a nonce, a message
/// and associated data: the ciphertext followed by the 16-byte tag.
pub uninterp spec fn aes_gcm_seal(key: Seq<u8>, nonce: Seq<u8>, msg: Seq<u8>, aad: Seq<u8>) -> Seq<u8>;

/// What `Aead::decrypt` of `Aes256Gcm` returns for a key, a nonce, a
/// ciphertext with its tag and associated data: the plaintext, or `None`
/// where it fails.
pub uninterp spec fn aes_gcm_open(key: Seq<u8>, nonce: Seq<u8>, ct: Seq<u8>, aad: Seq<u8>) -> Option<
    Seq<u8>,
>;

/// The largest message and associated data that AES-GCM accepts (2^36 bytes).
pub open spec fn gcm_max() -> nat {
    0x10_0000_0000
}

/// Encryption succeeds on messages and associated data up to 2^36 bytes.
pub open spec fn seal_len_ok(msg_len: nat, aad_len: nat) -> bool {
    msg_len <= gcm_max() && aad_len <= gcm_max()
}

/// Decryption can only succeed on a tagged ciphertext of 16 to 2^36 + 32
/// bytes with associated data up to 2^36 bytes.
pub open spec fn open_len_ok(ct_len: nat, aad_len: nat) -> bool {
    16 <= ct_len <= gcm_max() + 32 && aad_len <= gcm_max()
}

/// `Aead::encrypt` of `Aes256Gcm` built from `key` (`KeyInit::new`), at
/// `nonce`, over `msg` with associated data `aad`. Per the source of
/// aes-gcm 0.10 and aead 0.5: it fails exactly when the message or the
/// associated data is longer than 2^36 bytes; otherwise it returns the
/// ciphertext (as long as the message) followed by a 16-byte tag, and
/// decrypting that under the same key, nonce and associated data gives the
/// message back. `Key::from_slice` and `Nonce::from_slice` panic on other
/// lengths than 32 and 12.
#[verifier::external_body]
fn gcm_encrypt(key: &[u8], nonce: &[u8], msg: &[u8], aad: &[u8]) -> (r: Result<Vec<u8>, aes_gcm::Error>)
    requires
        key@.len() == KEY_SIZE,
        nonce@.len() == NONCE_SIZE,
    ensures
        r.is_ok() == seal_len_ok(msg@.len(), aad@.len()),
        r matches Ok(c) ==> c@ == aes_gcm_seal(key@, nonce@, msg@, aad@),
        r matches Ok(c) ==> c@.len() == msg@.len() + TAG_SIZE,
        r matches Ok(c) ==> aes_gcm_open(key@, nonce@, c@, aad@) == Some(msg@),
{
    let cipher = Aes256Gcm::new(Key::<Aes256Gcm>::from_slice(key));
    cipher.encrypt(Nonce::from_slice(nonce), Payload { msg, aad })
}

/// `Aead::decrypt` of `Aes256Gcm` built from `key`, at `nonce`, over a
/// ciphertext with its tag and associated data `aad`. Its result is named by
/// `aes_gcm_open`; per the source it fails on lengths outside
/// `open_len_ok` before any tag check.
#[verifier::external_body]
fn gcm_decrypt(key: &[u8], nonce: &[u8], ct: &[u8], aad: &[u8]) -> (r: Result<Vec<u8>, aes_gcm::Error>)
    requires
        key@.len() == KEY_SIZE,
        nonce@.len() == NONCE_SIZE,
    ensures
        r matches Ok(p) ==> aes_gcm_open(key@, nonce@, ct@, aad@) == Some(p@),
        r is Err ==> aes_gcm_open(key@, nonce@, ct@, aad@) is None,
        !open_len_ok(ct@.len(), aad@.len()) ==> r is Err,
{
    let cipher = Aes256Gcm::new(Key::<Aes256Gcm>::from_slice(key));
    cipher.decrypt(Nonce::from_slice(nonce), Payload { msg: ct, aad })
}

/// `KeyInit::generate_key` of `Aes256Gcm` with the operating system's
/// random source: 32 random bytes. It panics if the source fails.
#[verifier::external_body]
fn random_key() -> (k: Vec<u8>)
    ensures
        k@.len() == KEY_SIZE,
{
    Aes256Gcm::generate_key(&mut OsRng).to_vec()
}

/// `RngCore::fill_bytes` of the operating system's random source over `n`
/// bytes. Nothing is promised of their values. It panics if the source
/// fails.
#[verifier::external_body]
fn random_bytes(n: usize) -> (v: Vec<u8>)
    ensures
        v@.len() == n,
{
    let mut v = vec![0u8; n];
    OsRng.fill_bytes(&mut v);
    v
}

/// `Hash::hash` of `str` into a `DefaultHasher`. What it writes is left
/// unsaid: it is std's own business.
#[verifier::external_body]
fn hash_str(s: &str, state: &mut DefaultHasher) {
    s.hash(state)
}

/// `Hash::hash` of a byte slice into a `DefaultHasher`; it writes the length
/// as a `usize`, so what it writes depends on the machine.
#[verifier::external_body]
fn hash_bytes(s: &[u8], state: &mut DefaultHasher) {
    s.hash(state)
}

/// `Hash::hash` of a `u64` into a `DefaultHasher`; it writes native-endian
/// bytes, so what it writes depends on the machine.
#[verifier::external_body]
fn hash_u64(x: u64, state: &mut DefaultHasher) {
    x.hash(state)
}

/// The output of a successful encryption under `key`, with the nonce counter
/// at `counter`, of `msg` with associated data `aad`: nonce, then the
/// ciphertext and tag that AES-GCM gives for that nonce. The nonce ends with
/// the counter in little-endian order; its first 4 bytes are random.
pub open spec fn sealed(key: Seq<u8>, counter: u64, msg: Seq<u8>, aad: Seq<u8>, out: Seq<u8>) -> bool {
    let nonce = out.subrange(0, NONCE_SIZE as int);
    let body = out.subrange(NONCE_SIZE as int, out.len() as int);
    &&& out.len() == NONCE_SIZE + msg.len() + TAG_SIZE
    &&& out.subrange(4, NONCE_SIZE as int) == spec_u64_to_le_bytes(counter)
    &&& body == aes_gcm_seal(key, nonce, msg, aad)
    &&& aes_gcm_open(key, nonce, body, aad) == Some(msg)
}

/// What decryption under `key` gives for `ct` with associated data `aad`:
/// too short below nonce plus tag, else the AES-GCM plaintext of the bytes
/// after the nonce, or a failure.
pub open spec fn opened(key: Seq<u8>, ct: Seq<u8>, aad: Seq<u8>) -> Result<Seq<u8>, CryptoError> {
    if ct.len() < NONCE_SIZE + TAG_SIZE {
        Err(CryptoError::CiphertextTooShort)
    } else {
        match aes_gcm_open(
            key,
            ct.subrange(0, NONCE_SIZE as int),
            ct.subrange(NONCE_SIZE as int, ct.len() as int),
            aad,
        ) {
            Some(p) => Ok(p),
            None => Err(CryptoError::DecryptionFailed),
        }
    }
}

/// The model of a cipher: its key and its nonce counter.
pub struct CipherView {
    pub key: Seq<u8>,
    pub nonce_counter: u64,
}

/// AES-256-GCM cipher for authenticated encryption.
pub struct Cipher {
    key: Vec<u8>,
    nonce_counter: u64,
}

impl View for Cipher {
    type V = CipherView;

    closed spec fn view(&self) -> CipherView {
        CipherView { key: self.key@, nonce_counter: self.nonce_counter }
    }
}

/// A copy of a byte slice.
fn copy_bytes(s: &[u8]) -> (v: Vec<u8>)
    ensures
        v@ == s@,
{
    let mut v: Vec<u8> = Vec::new();
    let mut i: usize = 0;
    while i < s.len()
        invariant
            i <= s@.len(),
            v@ == s@.subrange(0, i as int),
        decreases s@.len() - i,
    {
        v.push(s[i]);
        i = i + 1;
        assert(v@ =~= s@.subrange(0, i as int));
    }
    assert(v@ =~= s@);
    v
}

impl Cipher {
    #[verifier::type_invariant]
    spec fn key_is_full(&self) -> bool {
        self.key@.len() == KEY_SIZE
    }

    /// A cipher with a fresh random key and the counter at zero.
    pub fn new() -> (r: Self)
        ensures
            r@.key.len() == KEY_SIZE,
            r@.nonce_counter == 0,
    {
        Cipher { key: random_key(), nonce_counter: 0 }
    }

    /// A cipher with the given key, which must be 32 bytes long.
    pub fn from_key(key_bytes: &[u8]) -> (r: Result<Self, CryptoError>)
        ensures
            match r {
                Ok(c) => key_bytes@.len() == KEY_SIZE && c@.key == key_bytes@ && c@.nonce_counter == 0,
                Err(e) => key_bytes@.len() != KEY_SIZE && e == (CryptoError::InvalidKeySize {
                    expected: KEY_SIZE,
                    actual: key_bytes@.len() as usize,
                }),
            },
    {
        if key_bytes.len() != KEY_SIZE {
            return Err(CryptoError::InvalidKeySize { expected: KEY_SIZE, actual: key_bytes.len() });
        }
        Ok(Cipher { key: copy_bytes(key_bytes), nonce_counter: 0 })
    }

    /// The key bytes.
    pub fn key_bytes(&self) -> (r: &[u8])
        ensures
            r@ == self@.key,
    {
        self.key.as_slice()
    }

    /// The next nonce: 4 random bytes, then the advanced counter.
    fn generate_nonce(&mut self) -> (n: Vec<u8>)
        ensures
            final(self)@.key == old(self)@.key,
            final(self)@.nonce_counter == old(self)@.nonce_counter.wrapping_add(1),
            n@.len() == NONCE_SIZE,
            n@.subrange(4, NONCE_SIZE as int) == spec_u64_to_le_bytes(final(self)@.nonce_counter),
    {
        proof {
            use_type_invariant(&*self);
        }
        let mut nonce = random_bytes(4);
        self.nonce_counter = self.nonce_counter.wrapping_add(1);
        let counter = u64_to_le_bytes(self.nonce_counter);
        proof {
            vstd::bytes::lemma_auto_spec_u64_to_from_le_bytes();
        }
        nonce.extend_from_slice(counter.as_slice());
        assert(nonce@.subrange(4, NONCE_SIZE as int) =~= counter@);
        nonce
    }

    /// Encrypt `plaintext` with associated data `aad` under a fresh nonce.
    /// The counter advances whether or not encryption succeeds.
    fn seal(&mut self, plaintext: &[u8], aad: &[u8]) -> (r: Result<Vec<u8>, CryptoError>)
        ensures
            final(self)@.key == old(self)@.key,
            final(self)@.nonce_counter == old(self)@.nonce_counter.wrapping_add(1),
            r.is_ok() == seal_len_ok(plaintext@.len(), aad@.len()),
            r matches Err(e) ==> e == CryptoError::EncryptionFailed,
            r matches Ok(c) ==> sealed(
                old(self)@.key,
                final(self)@.nonce_counter,
                plaintext@,
                aad@,
                c@,
            ),
    {
        proof {
            use_type_invariant(&*self);
        }
        let nonce = self.generate_nonce();
        let sealed_bytes = match gcm_encrypt(self.key.as_slice(), nonce.as_slice(), plaintext, aad) {
            Ok(c) => c,
            Err(_) => {
                return Err(CryptoError::EncryptionFailed);
            },
        };
        let mut result: Vec<u8> = Vec::new();
        result.extend_from_slice(nonce.as_slice());
        result.extend_from_slice(sealed_bytes.as_slice());
        assert(result@.subrange(0, NONCE_SIZE as int) =~= nonce@);
        assert(result@.subrange(NONCE_SIZE as int, result@.len() as int) =~= sealed_bytes@);
        assert(result@.subrange(4, NONCE_SIZE as int) =~= nonce@.subrange(4, NONCE_SIZE as int));
        Ok(result)
    }

    /// Encrypt data with authenticated encryption.
    ///
    /// Returns: nonce (12 bytes) || ciphertext || tag (16 bytes).
    pub fn encrypt(&mut self, plaintext: &[u8]) -> (r: Result<Vec<u8>, CryptoError>)
        ensures
            final(self)@.key == old(self)@.key,
            final(self)@.nonce_counter == old(self)@.nonce_counter.wrapping_add(1),
            r.is_ok() == seal_len_ok(plaintext@.len(), 0),
            r matches Err(e) ==> e == CryptoError::EncryptionFailed,
            r matches Ok(c) ==> sealed(
                old(self)@.key,
                final(self)@.nonce_counter,
                plaintext@,
                Seq::empty(),
                c@,
            ),
    {
        let no_aad: Vec<u8> = Vec::new();
        self.seal(plaintext, no_aad.as_slice())
    }

    /// Encrypt data with additional authenticated data (AAD).
    pub fn encrypt_with_aad(&mut self, plaintext: &[u8], aad: &[u8]) -> (r: Result<Vec<u8>, CryptoError>)
        ensures
            final(self)@.key == old(self)@.key,
            final(self)@.nonce_counter == old(self)@.nonce_counter.wrapping_add(1),
            r.is_ok() == seal_len_ok(plaintext@.len(), aad@.len()),
            r matches Err(e) ==> e == CryptoError::EncryptionFailed,
            r matches Ok(c) ==> sealed(
                old(self)@.key,
                final(self)@.nonce_counter,
                plaintext@,
                aad@,
                c@,
            ),
    {
        self.seal(plaintext, aad)
    }

    /// Decrypt `ciphertext` with associated data `aad`.
    fn open(&self, ciphertext: &[u8], aad: &[u8]) -> (r: Result<Vec<u8>, CryptoError>)
        ensures
            match r {
                Ok(p) => opened(self@.key, ciphertext@, aad@) == Ok::<Seq<u8>, CryptoError>(p@),
                Err(e) => opened(self@.key, ciphertext@, aad@) == Err::<Seq<u8>, CryptoError>(e),
            },
    {
        proof {
            use_type_invariant(self);
        }
        if ciphertext.len() < NONCE_SIZE + TAG_SIZE {
            return Err(CryptoError::CiphertextTooShort);
        }
        let nonce = vstd::slice::slice_subrange(ciphertext, 0, NONCE_SIZE);
        let encrypted = vstd::slice::slice_subrange(ciphertext, NONCE_SIZE, ciphertext.len());
        match gcm_decrypt(self.key.as_slice(), nonce, encrypted, aad) {
            Ok(p) => Ok(p),
            Err(_) => Err(CryptoError::DecryptionFailed),
        }
    }

    /// Decrypt data laid out as nonce (12 bytes) || ciphertext || tag (16 bytes).
    pub fn decrypt(&self, ciphertext: &[u8]) -> (r: Result<Vec<u8>, CryptoError>)
        ensures
            match r {
                Ok(p) => opened(self@.key, ciphertext@, Seq::empty()) == Ok::<Seq<u8>, CryptoError>(p@),
                Err(e) => opened(self@.key, ciphertext@, Seq::empty()) == Err::<Seq<u8>, CryptoError>(e),
            },
    {
        let no_aad: Vec<u8> = Vec::new();
        assert(no_aad@ =~= Seq::empty());
        self.open(ciphertext, no_aad.as_slice())
    }

    /// Decrypt data with additional authenticated data (AAD).
    pub fn decrypt_with_aad(&self, ciphertext: &[u8], aad: &[u8]) -> (r: Result<Vec<u8>, CryptoError>)
        ensures
            match r {
                Ok(p) => opened(self@.key, ciphertext@, aad@) == Ok::<Seq<u8>, CryptoError>(p@),
                Err(e) => opened(self@.key, ciphertext@, aad@) == Err::<Seq<u8>, CryptoError>(e),
            },
    {
        self.open(ciphertext, aad)
    }
}

impl Clone for Cipher {
    /// A cipher with the same key and its counter back at zero.
    fn clone(&self) -> (r: Self)
        ensures
            r@.key == self@.key,
            r@.nonce_counter == 0,
    {
        proof {
            use_type_invariant(self);
        }
        Cipher { key: copy_bytes(self.key.as_slice()), nonce_counter: 0 }
    }
}

/// Generate a random encryption key: 32 bytes from the operating system's
/// random source, as `key_from_bytes` lays them out. Nothing is promised of
/// their values.
pub fn generate_key() -> (key: [u8; KEY_SIZE]) {
    let bytes = random_bytes(KEY_SIZE);
    key_from_bytes(&bytes)
}

/// The key made of exactly the given 32 bytes, in order.
pub fn key_from_bytes(bytes: &Vec<u8>) -> (key: [u8; KEY_SIZE])
    requires
        bytes@.len() == KEY_SIZE,
    ensures
        key@ == bytes@,
{
    let mut key = [0u8; 32];
    let mut i: usize = 0;
    while i < KEY_SIZE
        invariant
            bytes@.len() == KEY_SIZE,
            i <= KEY_SIZE,
            key@.len() == KEY_SIZE,
            forall|j: int| 0 <= j < i ==> #[trigger] key@[j] == bytes@[j],
        decreases KEY_SIZE - i,
    {
        key[i] = bytes[i];
        i = i + 1;
    }
    assert(key@ =~= bytes@);
    key
}

/// The key whose byte `i` is the low byte of `hashes[i]`.
pub fn key_from_hashes(hashes: &[u64; KEY_SIZE]) -> (key: [u8; KEY_SIZE])
    ensures
        forall|i: int| 0 <= i < KEY_SIZE ==> #[trigger] key@[i] == hashes@[i] % 256,
{
    let mut key = [0u8; 32];
    let mut i: usize = 0;
    while i < KEY_SIZE
        invariant
            i <= KEY_SIZE,
            key@.len() == KEY_SIZE,
            hashes@.len() == KEY_SIZE,
            forall|j: int| 0 <= j < i ==> #[trigger] key@[j] == hashes@[j] % 256,
        decreases KEY_SIZE - i,
    {
        let h = hashes[i];
        let b = (h & 0xFF) as u8;
        assert(h & 0xFF == h % 256) by (bit_vector);
        key[i] = b;
        i = i + 1;
    }
    key
}

/// Derive a key from a password with a simple hash-based derivation: byte
/// `i` is the low byte of the `DefaultHasher` hash of the password, the salt
/// and `i`. Not a real key-derivation function; the hashes, and so the key,
/// depend on the platform: what `Hash::hash` writes for the salt and the
/// index is native-endian and word-sized, so no statement of the bytes is
/// made here. `key_from_hashes` states the step from the hashes to the key.
pub fn derive_key_simple(password: &str, salt: &[u8]) -> (key: [u8; KEY_SIZE]) {
    let mut hashes = [0u64; 32];
    let mut i: usize = 0;
    while i < KEY_SIZE
        invariant
            i <= KEY_SIZE,
            hashes@.len() == KEY_SIZE,
        decreases KEY_SIZE - i,
    {
        let mut hasher = DefaultHasher::new();
        hash_str(password, &mut hasher);
        hash_bytes(salt, &mut hasher);
        hash_u64(i as u64, &mut hasher);
        hashes[i] = hasher.finish();
        i = i + 1;
    }
    key_from_hashes(&hashes)
}

/// Decryption under the key of an encryption gives the plaintext back.
pub proof fn law_decrypt_undoes_encrypt(key: Seq<u8>, counter: u64, msg: Seq<u8>, aad: Seq<u8>, out: Seq<u8>)
    requires
        sealed(key, counter, msg, aad, out),
    ensures
        opened(key, out, aad) == Ok::<Seq<u8>, CryptoError>(msg),
{
}

/// Encryptions with different counter values never give the same bytes,
/// whatever the messages: the same plaintext encrypted twice in a row
/// differs.
pub proof fn law_distinct_counters_distinct_output(
    key: Seq<u8>,
    c1: u64,
    c2: u64,
    msg1: Seq<u8>,
    msg2: Seq<u8>,
    aad1: Seq<u8>,
    aad2: Seq<u8>,
    out1: Seq<u8>,
    out2: Seq<u8>,
)
    requires
        c1 != c2,
        sealed(key, c1, msg1, aad1, out1),
        sealed(key, c2, msg2, aad2, out2),
    ensures
        out1 != out2,
{
    vstd::bytes::lemma_auto_spec_u64_to_from_le_bytes();
    if out1 == out2 {
        assert(spec_u64_to_le_bytes(c1) == spec_u64_to_le_bytes(c2));
    }
}

} // verus!
