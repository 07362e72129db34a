//! The encryption engine: key-exchange key pairs, shared-secret derivation,
//! and authenticated encryption of message bodies.
//!
//! The key exchange and the AEAD primitive come from outside crates and are
//! reached through trusted wrappers. Their results are named by
//! uninterpreted functions ([`pub_key_of`], [`dh_of`], [`cipher_of`]): the
//! primitives are deterministic functions of their inputs, and every
//! contract above them speaks of these names exactly.

use vstd::prelude::*;
use crate::errors::Error;

verus! {

/// The x25519 public key derived from a 32-byte secret key.
pub uninterp spec fn pub_key_of(sk: Seq<u8>) -> Seq<u8>;

/// The x25519 Diffie-Hellman shared secret of a secret key and a peer's
/// public key.
pub uninterp spec fn dh_of(sk: Seq<u8>, pk: Seq<u8>) -> Seq<u8>;

/// The AES-256-GCM ciphertext (with its 16-byte tag appended) of a plaintext
/// under a 32-byte key and a 12-byte nonce.
pub uninterp spec fn cipher_of(key: Seq<u8>, nonce: Seq<u8>, plaintext: Seq<u8>) -> Seq<u8>;

/// The largest plaintext AES-GCM seals: 2^36 bytes. Encryption is owed
/// success up to this bound.
pub const AEAD_PLAINTEXT_MAX: u64 = 0x10_0000_0000;

/// Relies on x25519_dalek::StaticSecret::random_from_rng: 32 random bytes
/// from the operating-system RNG. Nothing can be promised of a random value
/// beyond its length.
#[verifier::external_body]
fn x25519_fresh_secret() -> (r: Vec<u8>)
    ensures
        r@.len() == 32,
{
    let secret = x25519_dalek::StaticSecret::random_from_rng(rand::rngs::OsRng);
    secret.to_bytes().to_vec()
}

/// Relies on x25519_dalek: `PublicKey::from(&StaticSecret)` computes the
/// public key of a secret key, a deterministic function of its 32 bytes.
#[verifier::external_body]
fn x25519_public(sk: &Vec<u8>) -> (r: Vec<u8>)
    requires
        sk@.len() == 32,
    ensures
        r@ == pub_key_of(sk@),
        r@.len() == 32,
{
    let bytes: [u8; 32] = sk.as_slice().try_into().unwrap();
    let secret = x25519_dalek::StaticSecret::from(bytes);
    x25519_dalek::PublicKey::from(&secret).as_bytes().to_vec()
}

/// Relies on x25519_dalek::StaticSecret::diffie_hellman: the shared secret
/// is a deterministic function of the secret key and the peer's public key,
/// and the exchange is symmetric — both parties of a pair compute the same
/// 32 bytes (`a·(b·G) == b·(a·G)`), stated here as the final clause.
#[verifier::external_body]
fn x25519_shared(sk: &Vec<u8>, pk: &Vec<u8>) -> (r: Vec<u8>)
    requires
        sk@.len() == 32,
        pk@.len() == 32,
    ensures
        r@ == dh_of(sk@, pk@),
        r@.len() == 32,
        forall|sk2: Seq<u8>| pk@ == pub_key_of(sk2) ==> r@ == dh_of(sk2, pub_key_of(sk@)),
{
    let sk_bytes: [u8; 32] = sk.as_slice().try_into().unwrap();
    let pk_bytes: [u8; 32] = pk.as_slice().try_into().unwrap();
    let secret = x25519_dalek::StaticSecret::from(sk_bytes);
    let public = x25519_dalek::PublicKey::from(pk_bytes);
    secret.diffie_hellman(&public).as_bytes().to_vec()
}

/// Relies on rand::rngs::OsRng::fill_bytes: 12 random bytes, drawn fresh for
/// every encryption. Nothing can be promised of a random value beyond its
/// length.
#[verifier::external_body]
fn fresh_nonce_bytes() -> (r: Vec<u8>)
    ensures
        r@.len() == 12,
{
    let mut bytes = [0u8; 12];
    rand::RngCore::fill_bytes(&mut rand::rngs::OsRng, &mut bytes);
    bytes.to_vec()
}

/// Relies on aes_gcm::Aes256Gcm (the aead::Aead impl): encryption is a
/// deterministic function of key, nonce and plaintext, appends a 16-byte
/// authentication tag after the encrypted payload, and fails only for
/// plaintexts above 2^36 bytes.
#[verifier::external_body]
fn aead_encrypt(key: &Vec<u8>, nonce: &Vec<u8>, plaintext: &[u8]) -> (r: Option<Vec<u8>>)
    requires
        key@.len() == 32,
        nonce@.len() == 12,
    ensures
        r matches Some(c) ==> c@ == cipher_of(key@, nonce@, plaintext@),
        r matches Some(c) ==> c@.len() == plaintext@.len() + 16,
        plaintext@.len() <= AEAD_PLAINTEXT_MAX ==> r is Some,
{
    let cipher = match aes_gcm::aead::KeyInit::new_from_slice(key.as_slice()) {
        Ok(c) => c,
        Err(_) => return None,
    };
    let cipher: aes_gcm::Aes256Gcm = cipher;
    match aes_gcm::aead::Aead::encrypt(&cipher, aes_gcm::Nonce::from_slice(nonce.as_slice()), plaintext) {
        Ok(ct) => Some(ct),
        Err(_) => None,
    }
}

/// Relies on aes_gcm::Aes256Gcm (the aead::Aead impl): decryption succeeds
/// exactly on the ciphertexts that encryption under the same key and nonce
/// produces, and then returns the unique plaintext that produced them; on
/// every other input the tag check fails.
#[verifier::external_body]
fn aead_decrypt(key: &Vec<u8>, nonce: &Vec<u8>, ciphertext: &Vec<u8>) -> (r: Option<Vec<u8>>)
    requires
        key@.len() == 32,
        nonce@.len() == 12,
    ensures
        r matches Some(p) ==> ciphertext@ == cipher_of(key@, nonce@, p@),
        r matches Some(p) ==> forall|q: Seq<u8>| ciphertext@ == cipher_of(key@, nonce@, q)
            ==> q == p@,
        r is None ==> forall|q: Seq<u8>| ciphertext@ != cipher_of(key@, nonce@, q),
{
    let cipher = match aes_gcm::aead::KeyInit::new_from_slice(key.as_slice()) {
        Ok(c) => c,
        Err(_) => return None,
    };
    let cipher: aes_gcm::Aes256Gcm = cipher;
    match aes_gcm::aead::Aead::decrypt(&cipher, aes_gcm::Nonce::from_slice(nonce.as_slice()), ciphertext.as_slice()) {
        Ok(pt) => Some(pt),
        Err(_) => None,
    }
}

/// Relies on String::from_utf8 (std, no vstd specification): succeeds
/// exactly on valid UTF-8 and returns the character sequence whose encoding
/// is the input.
#[verifier::external_body]
pub(crate) fn string_from_utf8(bytes: Vec<u8>) -> (r: Option<String>)
    ensures
        r matches Some(s) ==> vstd::utf8::encode_utf8(s@) == bytes@,
        vstd::utf8::valid_utf8(bytes@) ==> r is Some,
{
    String::from_utf8(bytes).ok()
}

/// The public half of a key-exchange key pair: 32 bytes on the wire.
pub struct PublicKey {
    pub bytes: Vec<u8>,
}

impl PublicKey {
    pub open spec fn wf(&self) -> bool {
        self.bytes@.len() == 32
    }

    pub fn clone_key(&self) -> (r: Self)
        ensures
            r.bytes@ == self.bytes@,
    {
        let bytes = self.bytes.clone();
        proof {
            assert(bytes@ =~= self.bytes@);
        }
        PublicKey { bytes }
    }
}

/// The secret half of a key-exchange key pair.
pub struct PrivateKey {
    pub bytes: Vec<u8>,
}

impl PrivateKey {
    pub open spec fn wf(&self) -> bool {
        self.bytes@.len() == 32
    }

    pub fn clone_key(&self) -> (r: Self)
        ensures
            r.bytes@ == self.bytes@,
    {
        let bytes = self.bytes.clone();
        proof {
            assert(bytes@ =~= self.bytes@);
        }
        PrivateKey { bytes }
    }
}

/// A key-exchange key pair; the public half is the one derived from the
/// private half.
pub struct KeyPair {
    pub private_key: PrivateKey,
    pub public_key: PublicKey,
}

impl KeyPair {
    pub open spec fn wf(&self) -> bool {
        &&& self.private_key.wf()
        &&& self.public_key.wf()
        &&& self.public_key.bytes@ == pub_key_of(self.private_key.bytes@)
    }
}

/// A symmetric secret derived per (conversation, user) pair via the key
/// exchange, used as the AEAD key for that user's outgoing messages.
pub struct SharedSecret {
    pub bytes: Vec<u8>,
}

impl SharedSecret {
    pub open spec fn wf(&self) -> bool {
        self.bytes@.len() == 32
    }

    pub fn clone_secret(&self) -> (r: Self)
        ensures
            r.bytes@ == self.bytes@,
    {
        let bytes = self.bytes.clone();
        proof {
            assert(bytes@ =~= self.bytes@);
        }
        SharedSecret { bytes }
    }

    pub fn as_bytes(&self) -> (r: &Vec<u8>)
        ensures
            r@ == self.bytes@,
    {
        &self.bytes
    }
}

/// An encrypted message body: ciphertext with appended tag, plus the nonce
/// it was sealed under.
pub struct EncryptedMessage {
    pub ciphertext: Vec<u8>,
    pub nonce: Vec<u8>,
}

/// `e` is exactly the encryption of `plaintext` under `key`.
pub open spec fn is_encryption_of(e: EncryptedMessage, key: Seq<u8>, plaintext: Seq<char>) -> bool {
    &&& e.nonce@.len() == 12
    &&& e.ciphertext@ == cipher_of(key, e.nonce@, vstd::utf8::encode_utf8(plaintext))
}

/// The encryption engine. It holds no state of its own; the random source
/// lives behind the trusted wrappers.
pub struct Encryption {}

impl Encryption {
    pub fn new() -> Self {
        Encryption {}
    }

    /// Produces a fresh key pair from the secure random source. Never fails
    /// under normal operation; an unavailable RNG is fatal.
    pub fn generate_key_pair(&mut self) -> (r: Result<KeyPair, Error>)
        ensures
            r matches Ok(kp) && kp.wf(),
    {
        let private = x25519_fresh_secret();
        let public = x25519_public(&private);
        Ok(
            KeyPair {
                private_key: PrivateKey { bytes: private },
                public_key: PublicKey { bytes: public },
            },
        )
    }

    /// Performs the Diffie-Hellman exchange. The private key is consumed by
    /// this call; the exchange is symmetric, so the peer's derivation over
    /// the matching halves yields the same secret.
    pub fn derive_shared_secret(&self, private_key: PrivateKey, public_key: &PublicKey) -> (r:
        Result<SharedSecret, Error>)
        requires
            private_key.wf(),
            public_key.wf(),
        ensures
            r matches Ok(s) && s.wf() && s.bytes@ == dh_of(private_key.bytes@, public_key.bytes@),
            r matches Ok(s) ==> forall|sk2: Seq<u8>| public_key.bytes@ == pub_key_of(sk2)
                ==> s.bytes@ == dh_of(sk2, pub_key_of(private_key.bytes@)),
    {
        let bytes = x25519_shared(&private_key.bytes, &public_key.bytes);
        Ok(SharedSecret { bytes })
    }

    /// Authenticated encryption of a message body with a fresh 96-bit nonce.
    /// Empty plaintext is legal and still produces a non-empty ciphertext
    /// (the authentication tag alone). Success is owed for every body whose
    /// encoding is within the AEAD's size bound.
    pub fn encrypt_message(&mut self, plaintext: &str, shared_secret: &SharedSecret) -> (r: Result<
        EncryptedMessage,
        Error,
    >)
        requires
            shared_secret.wf(),
        ensures
            r matches Ok(e) ==> is_encryption_of(e, shared_secret.bytes@, plaintext@),
            r matches Ok(e) ==> e.ciphertext@.len() == vstd::utf8::encode_utf8(plaintext@).len()
                + 16,
            r matches Err(err) ==> err is Encrypt,
            vstd::utf8::encode_utf8(plaintext@).len() <= AEAD_PLAINTEXT_MAX ==> r is Ok,
    {
        let nonce = fresh_nonce_bytes();
        match aead_encrypt(&shared_secret.bytes, &nonce, plaintext.as_bytes()) {
            Some(ciphertext) => Ok(EncryptedMessage { ciphertext, nonce }),
            None => Err(Error::Encrypt(String::from_str("authenticated encryption failed"))),
        }
    }

    /// Authenticated decryption. Succeeds exactly on the ciphertexts that
    /// encryption under the same secret and nonce produces, and then returns
    /// the one plaintext that produced them — a tampered ciphertext or nonce
    /// makes the tag check fail, it never yields a wrong plaintext. A nonce
    /// that is not exactly 12 bytes is rejected up front.
    pub fn decrypt_message(&self, encrypted: &EncryptedMessage, shared_secret: &SharedSecret) -> (r:
        Result<String, Error>)
        requires
            shared_secret.wf(),
        ensures
            encrypted.nonce@.len() != 12 <==> (r matches Err(e) && e is InvalidNonce),
            r matches Ok(s) ==> is_encryption_of(*encrypted, shared_secret.bytes@, s@),
            r matches Ok(s) ==> forall|m: Seq<char>|
                is_encryption_of(*encrypted, shared_secret.bytes@, m) ==> m == s@,
            encrypted.nonce@.len() == 12 && (exists|m: Seq<char>|
                is_encryption_of(*encrypted, shared_secret.bytes@, m)) ==> r is Ok,
            r matches Err(e) ==> e is InvalidNonce || e is Decrypt,
    {
        if encrypted.nonce.len() != 12 {
            return Err(Error::InvalidNonce);
        }
        match aead_decrypt(&shared_secret.bytes, &encrypted.nonce, &encrypted.ciphertext) {
            Some(plain_bytes) => {
                let ghost pb = plain_bytes@;
                match string_from_utf8(plain_bytes) {
                    Some(s) => {
                        proof {
                            assert forall|m: Seq<char>|
                                is_encryption_of(*encrypted, shared_secret.bytes@, m)
                                implies m == s@ by {
                                let enc = vstd::utf8::encode_utf8(m);
                                assert(enc == pb);
                                vstd::utf8::encode_utf8_decode_utf8(m);
                                vstd::utf8::encode_utf8_decode_utf8(s@);
                            }
                        }
                        Ok(s)
                    },
                    None => {
                        proof {
                            assert forall|m: Seq<char>| !is_encryption_of(
                                *encrypted,
                                shared_secret.bytes@,
                                m,
                            ) by {
                                if is_encryption_of(*encrypted, shared_secret.bytes@, m) {
                                    assert(vstd::utf8::encode_utf8(m) == pb);
                                    vstd::utf8::encode_utf8_valid_utf8(m);
                                }
                            }
                        }
                        Err(Error::Decrypt(String::from_str("invalid message encoding")))
                    },
                }
            },
            None => Err(Error::Decrypt(String::from_str("authentication tag mismatch"))),
        }
    }
}

/// Round trip: decrypting an encryption of `plaintext` with the same secret
/// yields `plaintext` again, for any message including the empty one —
/// success owed up to the AEAD's size bound — and once encryption has
/// succeeded, decryption can neither fail nor change the message.
pub fn encrypt_then_decrypt(engine: &mut Encryption, plaintext: &str, secret: &SharedSecret) -> (r:
    Result<String, Error>)
    requires
        secret.wf(),
    ensures
        r matches Ok(s) ==> s@ == plaintext@,
        r matches Err(e) ==> e is Encrypt,
        vstd::utf8::encode_utf8(plaintext@).len() <= AEAD_PLAINTEXT_MAX ==> r is Ok,
{
    let encrypted = match engine.encrypt_message(plaintext, secret) {
        Ok(e) => e,
        Err(e) => {
            return Err(e);
        },
    };
    match engine.decrypt_message(&encrypted, secret) {
        Ok(s) => Ok(s),
        Err(e) => {
            proof {
                assert(false);
            }
            Err(e)
        },
    }
}

} // verus!

