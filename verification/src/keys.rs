//! Key management: the per-user key-pair cache and the per-(conversation,
//! user) session-key store.
//!
//! Derivation borrows the cached private key instead of consuming it, so one
//! long-lived public identity per user stays valid across any number of
//! pairwise exchanges.

use vstd::prelude::*;
use crate::crypto::{dh_of, pub_key_of, Encryption, EncryptedMessage, KeyPair, PublicKey,
    SharedSecret};
use crate::errors::Error;
use crate::strmap::StrMap;

verus! {

/// The session-key store: one shared secret per (conversation, user) pair,
/// the key each user encrypts with inside that conversation. Its abstract
/// view maps such a pair to the secret's 32 bytes.
pub struct SessionKeyStore {
    keys: StrMap<StrMap<SharedSecret>>,
}

impl View for SessionKeyStore {
    type V = Map<(Seq<char>, Seq<char>), Seq<u8>>;

    closed spec fn view(&self) -> Map<(Seq<char>, Seq<char>), Seq<u8>> {
        Map::new(
            |k: (Seq<char>, Seq<char>)|
                self.keys@.contains_key(k.0) && self.keys@[k.0]@.contains_key(k.1),
            |k: (Seq<char>, Seq<char>)| self.keys@[k.0]@[k.1].bytes@,
        )
    }
}

impl SessionKeyStore {
    pub closed spec fn wf(&self) -> bool {
        &&& self.keys.wf()
        &&& forall|c: Seq<char>| self.keys@.contains_key(c) ==> (#[trigger] self.keys@[c]).wf()
        &&& forall|c: Seq<char>, u: Seq<char>|
            self.keys@.contains_key(c) && self.keys@[c]@.contains_key(u)
                ==> (#[trigger] self.keys@[c]@[u]).wf()
    }

    /// Every stored secret has the 32 bytes of a derived key.
    pub proof fn lemma_stored_secret_wf(&self, k: (Seq<char>, Seq<char>))
        requires
            self.wf(),
            self@.contains_key(k),
        ensures
            self@[k].len() == 32,
    {
    }

    pub fn new() -> (r: Self)
        ensures
            r.wf(),
            r@ == Map::<(Seq<char>, Seq<char>), Seq<u8>>::empty(),
    {
        let r = SessionKeyStore { keys: StrMap::new() };
        proof {
            assert(r@ =~= Map::<(Seq<char>, Seq<char>), Seq<u8>>::empty());
        }
        r
    }

    /// Stores (or replaces) the secret for one (conversation, user) pair.
    pub fn store_key(&mut self, conversation_id: &String, user_id: &String, secret: SharedSecret)
        requires
            old(self).wf(),
            secret.wf(),
        ensures
            final(self).wf(),
            final(self)@ == old(self)@.insert((conversation_id@, user_id@), secret.bytes@),
    {
        let mut inner = match self.keys.take(conversation_id) {
            Some(m) => m,
            None => StrMap::new(),
        };
        inner.insert(user_id.clone(), secret);
        self.keys.insert(conversation_id.clone(), inner);
        proof {
            assert(final(self)@ =~= old(self)@.insert((conversation_id@, user_id@), secret.bytes@));
        }
    }

    /// The secret for one (conversation, user) pair, if one is stored.
    pub fn get_key(&self, conversation_id: &String, user_id: &String) -> (r: Option<&SharedSecret>)
        requires
            self.wf(),
        ensures
            match r {
                Some(s) => self@.contains_key((conversation_id@, user_id@)) && s.bytes@
                    == self@[(conversation_id@, user_id@)] && s.wf(),
                None => !self@.contains_key((conversation_id@, user_id@)),
            },
    {
        match self.keys.get(conversation_id) {
            Some(inner) => inner.get(user_id),
            None => None,
        }
    }

    /// Drops every secret of one conversation.
    pub fn remove_conversation_keys(&mut self, conversation_id: &String)
        requires
            old(self).wf(),
        ensures
            final(self).wf(),
            final(self)@ == old(self)@.remove_keys(
                Set::new(|k: (Seq<char>, Seq<char>)| k.0 == conversation_id@),
            ),
    {
        self.keys.remove(conversation_id);
        proof {
            assert(final(self)@ =~= old(self)@.remove_keys(
                Set::new(|k: (Seq<char>, Seq<char>)| k.0 == conversation_id@),
            ));
        }
    }

    /// Drops only one member's own secret in one conversation; nobody else's
    /// secrets rotate (a known forward-secrecy gap of the scheme).
    pub fn remove_user_keys(&mut self, conversation_id: &String, user_id: &String)
        requires
            old(self).wf(),
        ensures
            final(self).wf(),
            final(self)@ == old(self)@.remove((conversation_id@, user_id@)),
    {
        match self.keys.take(conversation_id) {
            Some(mut inner) => {
                inner.remove(user_id);
                self.keys.insert(conversation_id.clone(), inner);
            },
            None => {},
        }
        proof {
            assert(final(self)@ =~= old(self)@.remove((conversation_id@, user_id@)));
        }
    }
}

/// The per-user key-pair cache, lazily filled, together with the encryption
/// engine it drives.
pub struct KeyManager {
    encryption: Encryption,
    key_store: StrMap<KeyPair>,
}

impl View for KeyManager {
    type V = Map<Seq<char>, KeyPair>;

    closed spec fn view(&self) -> Map<Seq<char>, KeyPair> {
        self.key_store@
    }
}

impl KeyManager {
    pub closed spec fn wf(&self) -> bool {
        &&& self.key_store.wf()
        &&& forall|u: Seq<char>| self.key_store@.contains_key(u)
            ==> (#[trigger] self.key_store@[u]).wf()
    }

    /// Every cached key pair is well-formed: its public half is the one
    /// derived from its private half.
    pub proof fn lemma_cached_pair_wf(&self, u: Seq<char>)
        requires
            self.wf(),
            self@.contains_key(u),
        ensures
            self@[u].wf(),
            self@[u].public_key.bytes@ == pub_key_of(self@[u].private_key.bytes@),
    {
    }

    pub fn new() -> (r: Self)
        ensures
            r.wf(),
            r@ == Map::<Seq<char>, KeyPair>::empty(),
    {
        KeyManager { encryption: Encryption::new(), key_store: StrMap::new() }
    }

    /// Idempotent: returns the cached pair's public half if one exists,
    /// otherwise generates, caches and returns a fresh one. The flag says
    /// whether a pair was created.
    pub fn get_or_create_key_pair(&mut self, user_id: &String) -> (r: Result<
        (PublicKey, bool),
        Error,
    >)
        requires
            old(self).wf(),
        ensures
            final(self).wf(),
            r is Ok,
            final(self)@.contains_key(user_id@),
            r matches Ok(p) ==> p.0.wf() && p.0.bytes@ == final(self)@[user_id@].public_key.bytes@,
            old(self)@.contains_key(user_id@) ==> final(self)@ == old(self)@ && (
            r matches Ok(p) && p.1 == false),
            !old(self)@.contains_key(user_id@) ==> final(self)@ == old(self)@.insert(
                user_id@,
                final(self)@[user_id@],
            ) && (r matches Ok(p) && p.1 == true),
    {
        match self.key_store.get(user_id) {
            Some(pair) => {
                proof {
                    assert(self.key_store@[user_id@].wf());
                }
                let public = pair.public_key.clone_key();
                proof {
                    assert(old(self)@ =~= old(self)@.insert(user_id@, old(self)@[user_id@]));
                }
                Ok((public, false))
            },
            None => {
                let pair = match self.encryption.generate_key_pair() {
                    Ok(p) => p,
                    Err(e) => {
                        return Err(e);
                    },
                };
                let public = pair.public_key.clone_key();
                self.key_store.insert(user_id.clone(), pair);
                Ok((public, true))
            },
        }
    }

    /// Derives the shared secret of a cached user against a peer's public
    /// key. The cached pair is borrowed, not consumed: a later derivation for
    /// the same user sees the same private key.
    pub fn derive_shared_secret(&self, user_id: &String, peer_public_key: &PublicKey) -> (r: Result<
        SharedSecret,
        Error,
    >)
        requires
            self.wf(),
            peer_public_key.wf(),
        ensures
            self@.contains_key(user_id@) <==> r is Ok,
            r matches Ok(s) ==> s.wf() && s.bytes@ == dh_of(
                self@[user_id@].private_key.bytes@,
                peer_public_key.bytes@,
            ),
            r matches Ok(s) ==> forall|sk2: Seq<u8>| peer_public_key.bytes@ == pub_key_of(sk2)
                ==> s.bytes@ == dh_of(sk2, pub_key_of(self@[user_id@].private_key.bytes@)),
            r matches Err(e) ==> e is Internal,
    {
        match self.key_store.get(user_id) {
            Some(pair) => {
                proof {
                    assert(self.key_store@[user_id@].wf());
                }
                let private = pair.private_key.clone_key();
                self.encryption.derive_shared_secret(private, peer_public_key)
            },
            None => Err(Error::Internal(String::from_str("no key pair found for user"))),
        }
    }

    /// Encrypts a message body with a session secret; the key-pair cache is
    /// untouched, and success is owed up to the AEAD's size bound.
    pub fn encrypt_message(&mut self, content: &str, shared_secret: &SharedSecret) -> (r: Result<
        EncryptedMessage,
        Error,
    >)
        requires
            old(self).wf(),
            shared_secret.wf(),
        ensures
            final(self).wf(),
            final(self)@ == old(self)@,
            r matches Ok(e) ==> crate::crypto::is_encryption_of(e, shared_secret.bytes@, content@),
            r matches Ok(e) ==> e.ciphertext@.len() == vstd::utf8::encode_utf8(content@).len()
                + 16,
            r matches Err(err) ==> err is Encrypt,
            vstd::utf8::encode_utf8(content@).len() <= crate::crypto::AEAD_PLAINTEXT_MAX
                ==> r is Ok,
    {
        self.encryption.encrypt_message(content, shared_secret)
    }

    /// Decrypts a message body with a session secret; the key-pair cache is
    /// untouched.
    pub fn decrypt_message(&self, encrypted: &EncryptedMessage, shared_secret: &SharedSecret) -> (r:
        Result<String, Error>)
        requires
            self.wf(),
            shared_secret.wf(),
        ensures
            r matches Ok(s) ==> crate::crypto::is_encryption_of(
                *encrypted,
                shared_secret.bytes@,
                s@,
            ),
            r matches Ok(s) ==> forall|m: Seq<char>|
                crate::crypto::is_encryption_of(*encrypted, shared_secret.bytes@, m) ==> m == s@,
            encrypted.nonce@.len() == 12 && (exists|m: Seq<char>|
                crate::crypto::is_encryption_of(*encrypted, shared_secret.bytes@, m)) ==> r is Ok,
            r matches Err(e) ==> e is InvalidNonce || e is Decrypt,
    {
        self.encryption.decrypt_message(encrypted, shared_secret)
    }
}

} // verus!
