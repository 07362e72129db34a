//! The chat manager: conversation lifecycle, message flow and the
//! per-conversation key management that encrypts message bodies before they
//! reach the store.

use vstd::prelude::*;
use crate::errors::Error;
use crate::ids::{new_uuid, now_millis};
use crate::keys::{KeyManager, SessionKeyStore};
use crate::models::{Conversation, ConversationType, ConversationView, Message, MessageView, NewConversation, NewMessage};
use crate::store::{conv_at, conv_idx, has_conv, ChatStore};

verus! {

/// The session stores `m1` and `m2` agree on every key outside
/// conversation `cid`.
pub open spec fn sessions_agree_outside(
    m1: Map<(Seq<char>, Seq<char>), Seq<u8>>,
    m2: Map<(Seq<char>, Seq<char>), Seq<u8>>,
    cid: Seq<char>,
) -> bool {
    forall|k: (Seq<char>, Seq<char>)| k.0 != cid ==> (#[trigger] m1.contains_key(k)
        <==> m2.contains_key(k)) && (m2.contains_key(k) ==> m1[k] == m2[k])
}

pub proof fn lemma_agree_outside_trans(
    a: Map<(Seq<char>, Seq<char>), Seq<u8>>,
    b: Map<(Seq<char>, Seq<char>), Seq<u8>>,
    c: Map<(Seq<char>, Seq<char>), Seq<u8>>,
    cid: Seq<char>,
)
    requires
        sessions_agree_outside(a, b, cid),
        sessions_agree_outside(b, c, cid),
    ensures
        sessions_agree_outside(a, c, cid),
{
    assert forall|k: (Seq<char>, Seq<char>)| k.0 != cid implies (#[trigger] a.contains_key(k)
        <==> c.contains_key(k)) && (c.contains_key(k) ==> a[k] == c[k]) by {
        assert(b.contains_key(k) <==> c.contains_key(k));
        assert(a.contains_key(k) <==> b.contains_key(k));
    }
}

/// The chat session manager: the store, the key-pair cache, and the
/// session-key store, one instance per process.
pub struct ChatManager {
    store: ChatStore,
    key_manager: KeyManager,
    session_keys: SessionKeyStore,
}

impl ChatManager {
    pub closed spec fn wf(&self) -> bool {
        &&& self.store.wf()
        &&& self.key_manager.wf()
        &&& self.session_keys.wf()
    }

    /// The abstract conversation list.
    pub closed spec fn convs(&self) -> Seq<ConversationView> {
        self.store.convs()
    }

    /// The abstract message list.
    pub closed spec fn msgs(&self) -> Seq<MessageView> {
        self.store.msgs()
    }

    /// The session-key store: (conversation, user) to the 32 secret bytes.
    pub closed spec fn sessions(&self) -> Map<(Seq<char>, Seq<char>), Seq<u8>> {
        self.session_keys@
    }

    pub fn new(store: ChatStore) -> (r: Self)
        requires
            store.wf(),
        ensures
            r.wf(),
            r.convs() == store.convs(),
            r.msgs() == store.msgs(),
            r.sessions() == Map::<(Seq<char>, Seq<char>), Seq<u8>>::empty(),
    {
        ChatManager {
            store,
            key_manager: KeyManager::new(),
            session_keys: SessionKeyStore::new(),
        }
    }

    /// Establishes the pairwise channel of two users within one
    /// conversation: both users get a key pair if they lack one, and each
    /// gets a session secret stored under their own identity. The exchange
    /// is symmetric, so the two stored secrets are the same bytes: what one
    /// of the pair encrypts, the other's secret decrypts.
    pub fn establish_secure_channel(
        &mut self,
        user_a: &String,
        user_b: &String,
        conversation_id: &String,
    ) -> (r: Result<(), Error>)
        requires
            old(self).wf(),
        ensures
            final(self).wf(),
            r is Ok,
            final(self).convs() == old(self).convs(),
            final(self).msgs() == old(self).msgs(),
            exists|s: Seq<u8>|
                s.len() == 32 && final(self).sessions() == old(self).sessions().insert(
                    (conversation_id@, user_a@),
                    s,
                ).insert((conversation_id@, user_b@), s),
            final(self).sessions().contains_key((conversation_id@, user_a@)),
            final(self).sessions().contains_key((conversation_id@, user_b@)),
            final(self).sessions()[(conversation_id@, user_a@)] == final(self).sessions()[(
                conversation_id@,
                user_b@,
            )],
            forall|k: (Seq<char>, Seq<char>)|
                k != (conversation_id@, user_a@) && k != (conversation_id@, user_b@) ==> (
                final(self).sessions().contains_key(k) <==> old(self).sessions().contains_key(k))
                    && (old(self).sessions().contains_key(k) ==> final(self).sessions()[k] == old(self).sessions()[k]),
    {
        let public_a = match self.key_manager.get_or_create_key_pair(user_a) {
            Ok((p, _)) => p,
            Err(e) => {
                proof {
                    assert(false);
                }
                return Err(e);
            },
        };
        let public_b = match self.key_manager.get_or_create_key_pair(user_b) {
            Ok((p, _)) => p,
            Err(e) => {
                proof {
                    assert(false);
                }
                return Err(e);
            },
        };
        proof {
            self.key_manager.lemma_cached_pair_wf(user_a@);
            self.key_manager.lemma_cached_pair_wf(user_b@);
        }
        let secret_a = match self.key_manager.derive_shared_secret(user_a, &public_b) {
            Ok(s) => s,
            Err(e) => {
                proof {
                    assert(false);
                }
                return Err(e);
            },
        };
        let secret_b = match self.key_manager.derive_shared_secret(user_b, &public_a) {
            Ok(s) => s,
            Err(e) => {
                proof {
                    assert(false);
                }
                return Err(e);
            },
        };
        proof {
            let sk_a = self.key_manager@[user_a@].private_key.bytes@;
            let sk_b = self.key_manager@[user_b@].private_key.bytes@;
            assert(public_b.bytes@ == crate::crypto::pub_key_of(sk_b));
            assert(secret_a.bytes@ == crate::crypto::dh_of(sk_b, crate::crypto::pub_key_of(sk_a)));
            assert(public_a.bytes@ == crate::crypto::pub_key_of(sk_a));
            assert(secret_b.bytes@ == crate::crypto::dh_of(sk_b, crate::crypto::pub_key_of(sk_a)));
            assert(secret_a.bytes@ == secret_b.bytes@);
        }
        let ghost shared = secret_a.bytes@;
        self.session_keys.store_key(conversation_id, user_a, secret_a);
        self.session_keys.store_key(conversation_id, user_b, secret_b);
        proof {
            assert(final(self).sessions() == old(self).sessions().insert(
                (conversation_id@, user_a@),
                shared,
            ).insert((conversation_id@, user_b@), shared));
        }
        Ok(())
    }

    /// Establishes a pairwise channel for every unordered pair of the
    /// conversation's participants. With at least two participants, every
    /// participant ends up with a retrievable session secret; in a two-party
    /// conversation the two secrets are the same bytes, so either side
    /// decrypts what the other encrypted.
    ///
    /// The store keys one secret per (conversation, participant), so with
    /// three or more participants each later pair supersedes a participant's
    /// earlier secret: only the pair established last for a given user is
    /// retrievable. Callers treat channel establishment as best-effort and
    /// re-attempt on a decryption failure.
    pub fn initialize_conversation_keys(&mut self, conversation: &Conversation) -> (r: Result<
        (),
        Error,
    >)
        requires
            old(self).wf(),
        ensures
            final(self).wf(),
            r is Ok,
            final(self).convs() == old(self).convs(),
            final(self).msgs() == old(self).msgs(),
            conversation@.participants.len() >= 2 ==> forall|k: int|
                0 <= k < conversation@.participants.len() ==> final(self).sessions().contains_key(
                    (conversation.id@, #[trigger] conversation@.participants[k]),
                ),
            conversation@.participants.len() == 2 ==> final(self).sessions()[(
                conversation.id@,
                conversation@.participants[0],
            )] == final(self).sessions()[(conversation.id@, conversation@.participants[1])],
            sessions_agree_outside(final(self).sessions(), old(self).sessions(), conversation.id@),
    {
        let n = conversation.participants.len();
        let ghost cid = conversation.id@;
        let ghost dv = conversation@.participants;
        let mut i: usize = 0;
        while i < n
            invariant
                self.wf(),
                n == conversation.participants@.len(),
                dv == conversation@.participants,
                dv.len() == n,
                cid == conversation.id@,
                i <= n,
                self.convs() == old(self).convs(),
                self.msgs() == old(self).msgs(),
                i > 0 && n >= 2 ==> forall|k: int| 0 <= k < n
                    ==> self.sessions().contains_key((cid, #[trigger] dv[k])),
                n == 2 && i > 0 ==> self.sessions()[(cid, dv[0])] == self.sessions()[(cid, dv[1])],
                sessions_agree_outside(self.sessions(), old(self).sessions(), cid),
            decreases n - i,
        {
            let mut j: usize = i + 1;
            while j < n
                invariant
                    self.wf(),
                    n == conversation.participants@.len(),
                    dv == conversation@.participants,
                    dv.len() == n,
                    cid == conversation.id@,
                    i < n,
                    i + 1 <= j <= n,
                    self.convs() == old(self).convs(),
                    self.msgs() == old(self).msgs(),
                    i > 0 && n >= 2 ==> forall|k: int| 0 <= k < n
                        ==> self.sessions().contains_key((cid, #[trigger] dv[k])),
                    i == 0 && j > 1 ==> self.sessions().contains_key((cid, dv[0])) && forall|
                        m: int,
                    | 1 <= m < j ==> self.sessions().contains_key((cid, #[trigger] dv[m])),
                    n == 2 && (i > 0 || j > 1) ==> self.sessions()[(cid, dv[0])]
                        == self.sessions()[(cid, dv[1])],
                    sessions_agree_outside(self.sessions(), old(self).sessions(), cid),
                decreases n - j,
            {
                let user_a = &conversation.participants[i];
                let user_b = &conversation.participants[j];
                let ghost pre = self.sessions();
                match self.establish_secure_channel(user_a, user_b, &conversation.id) {
                    Ok(()) => {},
                    Err(e) => {
                        proof {
                            assert(false);
                        }
                        return Err(e);
                    },
                }
                proof {
                    assert(user_a@ == dv[i as int] && user_b@ == dv[j as int]);
                    assert forall|k: (Seq<char>, Seq<char>)| k.0 != cid implies (
                    #[trigger] self.sessions().contains_key(k) <==> pre.contains_key(k)) && (
                    pre.contains_key(k) ==> self.sessions()[k] == pre[k]) by {
                        assert(k != (cid, user_a@) && k != (cid, user_b@));
                    }
                    lemma_agree_outside_trans(self.sessions(), pre, old(self).sessions(), cid);
                }
                j = j + 1;
            }
            i = i + 1;
        }
        Ok(())
    }

    /// Creates a conversation: at least two participants are required, and
    /// when encryption is enabled a pairwise channel is established for
    /// every pair of participants.
    pub fn create_conversation(&mut self, new_conversation: NewConversation) -> (r: Result<
        Conversation,
        Error,
    >)
        requires
            old(self).wf(),
        ensures
            final(self).wf(),
            final(self).msgs() == old(self).msgs(),
            new_conversation.participants@.len() < 2 <==> (r matches Err(e) && e is Validation),
            r is Err ==> final(self).convs() == old(self).convs()
                && final(self).sessions() == old(self).sessions(),
            r matches Err(e) ==> e is Validation || e is Internal,
            r matches Ok(c) ==> ({
                &&& c@.participants == new_conversation.participants.deep_view()
                &&& c@.conversation_type == new_conversation.conversation_type
                &&& c@.name == new_conversation.name.deep_view()
                &&& c@.encryption_enabled == new_conversation.encryption_enabled
                &&& c@.last_message is None
                &&& c@.created_at == c@.updated_at
                &&& final(self).convs() == old(self).convs().push(c@)
                &&& (c@.encryption_enabled ==> forall|k: int|
                    0 <= k < c@.participants.len() ==> final(self).sessions().contains_key(
                        (c@.id, #[trigger] c@.participants[k]),
                    ))
                &&& (c@.encryption_enabled && c@.participants.len() == 2
                    ==> final(self).sessions()[(c@.id, c@.participants[0])]
                    == final(self).sessions()[(c@.id, c@.participants[1])])
            }),
    {
        if new_conversation.participants.len() < 2 {
            return Err(Error::Validation(String::from_str(
                "Conversation must have at least 2 participants",
            )));
        }
        let id = new_uuid();
        let now = now_millis();
        let conversation = match self.store.create_conversation(new_conversation, id, now) {
            Ok(c) => c,
            Err(e) => {
                return Err(e);
            },
        };
        if conversation.encryption_enabled {
            match self.initialize_conversation_keys(&conversation) {
                Ok(()) => {},
                Err(e) => {
                    proof {
                        assert(false);
                    }
                    return Err(e);
                },
            }
        }
        Ok(conversation)
    }

    /// Creates a group conversation from a member list, adding the creator
    /// when absent.
    pub fn create_group_chat(
        &mut self,
        name: &String,
        creator_id: &String,
        members: Vec<String>,
        encryption_enabled: bool,
    ) -> (r: Result<Conversation, Error>)
        requires
            old(self).wf(),
        ensures
            final(self).wf(),
            final(self).msgs() == old(self).msgs(),
            r matches Err(e) ==> e is Validation || e is Internal,
            ({
                let with_creator = if crate::models::seq_contains_str(members@, creator_id@) {
                    members.deep_view()
                } else {
                    members.deep_view().push(creator_id@)
                };
                &&& (with_creator.len() < 2 <==> (r matches Err(e) && e is Validation))
                &&& (with_creator.len() >= 2 ==> r is Ok || (r matches Err(e) && e is Internal))
            }),
            r matches Ok(c) ==> ({
                let with_creator = if crate::models::seq_contains_str(members@, creator_id@) {
                    members.deep_view()
                } else {
                    members.deep_view().push(creator_id@)
                };
                &&& c@.participants == with_creator
                &&& c@.conversation_type is Group
                &&& c@.name == Some(name@)
                &&& c@.encryption_enabled == encryption_enabled
                &&& final(self).convs() == old(self).convs().push(c@)
                &&& (encryption_enabled ==> forall|k: int|
                    0 <= k < c@.participants.len() ==> final(self).sessions().contains_key(
                        (c@.id, #[trigger] c@.participants[k]),
                    ))
            }),
    {
        let ghost members0 = members@;
        let ghost members0_dv = members.deep_view();
        let mut participants = members;
        if !crate::models::vec_contains_string(&participants, creator_id) {
            participants.push(creator_id.clone());
        }
        proof {
            assert(participants.deep_view() =~= (
            if crate::models::seq_contains_str(members0, creator_id@) {
                members0_dv
            } else {
                members0_dv.push(creator_id@)
            }));
        }
        let new_conversation = NewConversation {
            name: Some(name.clone()),
            conversation_type: ConversationType::Group,
            participants,
            encryption_enabled,
        };
        self.create_conversation(new_conversation)
    }

    /// The conversation with the given id, if any.
    pub fn get_conversation(&self, conversation_id: &String) -> (r: Option<Conversation>)
        requires
            self.wf(),
        ensures
            match r {
                Some(c) => has_conv(self.convs(), conversation_id@) && c@ == crate::store::conv_at(
                    self.convs(),
                    conversation_id@,
                ),
                None => !has_conv(self.convs(), conversation_id@),
            },
    {
        self.store.get_conversation(conversation_id)
    }

    /// Every conversation the user participates in.
    pub fn get_user_conversations(&self, user_id: &String) -> (r: Vec<Conversation>)
        requires
            self.wf(),
        ensures
            r@.map_values(|c: Conversation| c@) == self.convs().filter(
                |c: ConversationView| crate::models::is_participant(c, user_id@),
            ),
    {
        self.store.get_conversations_for_user(user_id)
    }

    /// Sends a message: the sender must be the authenticated user and a
    /// participant of an existing conversation. In an encrypted conversation
    /// the body is sealed under the sender's session secret and stored in
    /// its framed form; otherwise it is stored as composed. The stored
    /// message becomes the conversation's last message. On fully validated
    /// input the call is owed success, up to a fresh-id collision.
    pub fn send_message(&mut self, new_message: NewMessage, user_id: &String) -> (r: Result<
        Message,
        Error,
    >)
        requires
            old(self).wf(),
        ensures
            final(self).wf(),
            final(self).sessions() == old(self).sessions(),
            r is Err ==> final(self).convs() == old(self).convs() && final(self).msgs() == old(self).msgs(),
            new_message.sender_id@ != user_id@ ==> (r matches Err(e) && e is Authentication),
            new_message.sender_id@ == user_id@ && !has_conv(
                old(self).convs(),
                new_message.conversation_id@,
            ) ==> (r matches Err(e) && e is NotFound),
            ({
                let convs = old(self).convs();
                let cid = new_message.conversation_id@;
                &&& (new_message.sender_id@ == user_id@ && has_conv(convs, cid)
                    && !crate::models::is_participant(conv_at(convs, cid), user_id@) ==> (
                r matches Err(e) && e is Authentication))
                &&& (new_message.sender_id@ == user_id@ && has_conv(convs, cid)
                    && crate::models::is_participant(conv_at(convs, cid), user_id@) && conv_at(
                    convs,
                    cid,
                ).encryption_enabled && !old(self).sessions().contains_key((cid, user_id@)) ==> (
                r matches Err(e) && e is Encryption))
            }),
            r matches Err(e) ==> e is Authentication || e is NotFound || e is Encryption
                || e is Encrypt || e is Internal,
            ({
                let convs = old(self).convs();
                let cid = new_message.conversation_id@;
                new_message.sender_id@ == user_id@ && has_conv(convs, cid)
                    && crate::models::is_participant(conv_at(convs, cid), user_id@) && (conv_at(
                    convs,
                    cid,
                ).encryption_enabled ==> old(self).sessions().contains_key((cid, user_id@))
                    && vstd::utf8::encode_utf8(new_message.content@).len()
                    <= crate::crypto::AEAD_PLAINTEXT_MAX) ==> (r is Ok || (r matches Err(e)
                    && e is Internal))
            }),
            r matches Ok(m) ==> ({
                let convs = old(self).convs();
                let cid = new_message.conversation_id@;
                let conv = conv_at(convs, cid);
                &&& new_message.sender_id@ == user_id@
                &&& has_conv(convs, cid)
                &&& crate::models::is_participant(conv, user_id@)
                &&& m@.conversation_id == cid
                &&& m@.sender_id == user_id@
                &&& m@.status == Some(crate::models::MessageStatus::Sent)
                &&& m@.content_type == new_message.content_type
                &&& (!conv.encryption_enabled ==> m@.content == new_message.content@
                    && m@.encrypted == new_message.encrypted)
                &&& (conv.encryption_enabled ==> m@.encrypted && (exists|nonce: Seq<u8>|
                    nonce.len() == 12 && m@.content == crate::codec::frame_of(
                        nonce,
                        crate::crypto::cipher_of(
                            old(self).sessions()[(cid, user_id@)],
                            nonce,
                            vstd::utf8::encode_utf8(new_message.content@),
                        ),
                    )))
                &&& final(self).msgs() == old(self).msgs().push(m@)
                &&& final(self).convs() == convs.update(
                    conv_idx(convs, cid),
                    (ConversationView {
                        last_message: Some(m@),
                        updated_at: m@.timestamp,
                        ..conv
                    }),
                )
            }),
    {
        if new_message.sender_id != *user_id {
            return Err(Error::Authentication(String::from_str(
                "Sender ID does not match authenticated user",
            )));
        }
        let conversation = match self.store.get_conversation(&new_message.conversation_id) {
            Some(c) => c,
            None => {
                return Err(Error::NotFound(String::from_str("Conversation not found")));
            },
        };
        if !conversation.contains_participant(user_id) {
            return Err(Error::Authentication(String::from_str(
                "User is not a participant in conversation",
            )));
        }
        let processed = if conversation.encryption_enabled {
            let secret = match self.session_keys.get_key(&new_message.conversation_id, user_id) {
                Some(s) => s.clone_secret(),
                None => {
                    return Err(Error::Encryption(String::from_str(
                        "No session key found for user in conversation",
                    )));
                },
            };
            let encrypted = match self.key_manager.encrypt_message(
                new_message.content.as_str(),
                &secret,
            ) {
                Ok(e) => e,
                Err(e) => {
                    return Err(e);
                },
            };
            let content = crate::codec::encode_encrypted(&encrypted);
            NewMessage {
                conversation_id: new_message.conversation_id,
                sender_id: new_message.sender_id,
                content,
                content_type: new_message.content_type,
                media_url: new_message.media_url,
                encrypted: true,
            }
        } else {
            new_message
        };
        let id = new_uuid();
        let now = now_millis();
        let message = match self.store.save_message(processed, id, now) {
            Ok(m) => m,
            Err(e) => {
                return Err(e);
            },
        };
        self.store.update_conversation_last_message(&message.conversation_id, &message, now);
        Ok(message)
    }

    /// Replaces each encrypted body in `messages` by its plaintext under the
    /// reader's session secret; plaintext messages pass through unchanged.
    /// Success is owed whenever every encrypted body is a frame sealed under
    /// the reader's present secret.
    fn process_incoming_encrypted_messages(
        &self,
        messages: Vec<Message>,
        user_id: &String,
        conversation_id: &String,
    ) -> (r: Result<Vec<Message>, Error>)
        requires
            self.wf(),
        ensures
            r matches Ok(v) ==> v@.len() == messages@.len() && forall|i: int|
                0 <= i < v@.len() ==> reveals(
                    messages@[i]@,
                    self.sessions()[(conversation_id@, user_id@)],
                    #[trigger] v@[i]@,
                ),
            (exists|i: int| 0 <= i < messages@.len() && (#[trigger] messages@[i]@).encrypted)
                && !self.sessions().contains_key((conversation_id@, user_id@)) ==> (
            r matches Err(e) && e is Encryption),
            sealed_inputs(messages@, self.sessions(), conversation_id@, user_id@) ==> r is Ok,
            r matches Err(e) ==> e is Encryption || e is Internal || e is InvalidNonce
                || e is Decrypt,
    {
        let ghost stored = messages@.map_values(|m: Message| m@);
        let ghost key = self.sessions()[(conversation_id@, user_id@)];
        let mut v = messages;
        let mut i: usize = 0;
        while i < v.len()
            invariant
                self.wf(),
                i <= v@.len(),
                v@.len() == stored.len(),
                stored == messages@.map_values(|m: Message| m@),
                messages@.len() == stored.len(),
                key == self.sessions()[(conversation_id@, user_id@)],
                (exists|j: int| 0 <= j < i && (#[trigger] stored[j]).encrypted)
                    ==> self.sessions().contains_key((conversation_id@, user_id@)),
                forall|j: int| 0 <= j < i ==> reveals(stored[j], key, #[trigger] v@[j]@),
                forall|j: int| i <= j < v@.len() ==> v@[j]@ == stored[j],
            decreases v@.len() - i,
        {
            proof {
                if v@[i as int]@.encrypted {
                    assert(stored[i as int].encrypted);
                }
            }
            if v[i].encrypted {
                proof {
                    assert(messages@[i as int]@ == stored[i as int]);
                }
                let secret = match self.session_keys.get_key(conversation_id, user_id) {
                    Some(s) => s.clone_secret(),
                    None => {
                        proof {
                            if sealed_inputs(messages@, self.sessions(), conversation_id@, user_id@) {
                                assert(messages@[i as int]@.encrypted);
                                assert(false);
                            }
                        }
                        return Err(Error::Encryption(String::from_str(
                            "No session key found for user in conversation",
                        )));
                    },
                };
                let encrypted = match crate::codec::decode_encrypted(v[i].content.as_str()) {
                    Some(e) => e,
                    None => {
                        proof {
                            if sealed_inputs(messages@, self.sessions(), conversation_id@, user_id@) {
                                assert(messages@[i as int]@.encrypted);
                                assert(sealed_under(stored[i as int].content, key));
                                let (nonce, p) = choose|nonce: Seq<u8>, p: Seq<char>|
                                    nonce.len() == 12 && stored[i as int].content
                                        == crate::codec::frame_of(
                                        nonce,
                                        #[trigger] crate::crypto::cipher_of(
                                            key,
                                            nonce,
                                            vstd::utf8::encode_utf8(p),
                                        ),
                                    );
                                assert(v@[i as int]@.content == crate::codec::frame_of(
                                    nonce,
                                    crate::crypto::cipher_of(
                                        key,
                                        nonce,
                                        vstd::utf8::encode_utf8(p),
                                    ),
                                ));
                                assert(false);
                            }
                        }
                        return Err(Error::Internal(String::from_str(
                            "Failed to decode encrypted message",
                        )));
                    },
                };
                let plain = match self.key_manager.decrypt_message(&encrypted, &secret) {
                    Ok(p) => p,
                    Err(e) => {
                        proof {
                            if sealed_inputs(messages@, self.sessions(), conversation_id@, user_id@) {
                                assert(messages@[i as int]@.encrypted);
                                assert(sealed_under(stored[i as int].content, key));
                                let (nonce, p) = choose|nonce: Seq<u8>, p: Seq<char>|
                                    nonce.len() == 12 && stored[i as int].content
                                        == crate::codec::frame_of(
                                        nonce,
                                        #[trigger] crate::crypto::cipher_of(
                                            key,
                                            nonce,
                                            vstd::utf8::encode_utf8(p),
                                        ),
                                    );
                                crate::codec::lemma_frame_injective(
                                    nonce,
                                    crate::crypto::cipher_of(
                                        key,
                                        nonce,
                                        vstd::utf8::encode_utf8(p),
                                    ),
                                    encrypted.nonce@,
                                    encrypted.ciphertext@,
                                );
                                assert(crate::crypto::is_encryption_of(encrypted, key, p));
                                assert(false);
                            }
                        }
                        return Err(e);
                    },
                };
                let mut m = v[i].clone();
                m.content = plain;
                proof {
                    assert(stored[i as int].content == crate::codec::frame_of(
                        encrypted.nonce@,
                        encrypted.ciphertext@,
                    ));
                    assert(encrypted.ciphertext@ == crate::crypto::cipher_of(
                        key,
                        encrypted.nonce@,
                        vstd::utf8::encode_utf8(m.content@),
                    ));
                    assert forall|nonce: Seq<u8>, p: Seq<char>|
                        nonce.len() == 12 && stored[i as int].content == crate::codec::frame_of(
                            nonce,
                            #[trigger] crate::crypto::cipher_of(
                                key,
                                nonce,
                                vstd::utf8::encode_utf8(p),
                            ),
                        ) implies p == m.content@ by {
                        crate::codec::lemma_frame_injective(
                            nonce,
                            crate::crypto::cipher_of(key, nonce, vstd::utf8::encode_utf8(p)),
                            encrypted.nonce@,
                            encrypted.ciphertext@,
                        );
                        assert(crate::crypto::is_encryption_of(encrypted, key, p));
                    }
                    assert(reveals(stored[i as int], key, m@));
                }
                v.set(i, m);
            }
            i = i + 1;
        }
        proof {
            if !self.sessions().contains_key((conversation_id@, user_id@)) {
                assert forall|k: int| 0 <= k < stored.len() implies !(
                #[trigger] stored[k]).encrypted by {
                    if stored[k].encrypted {
                        assert(exists|j: int| 0 <= j < stored.len() && (
                        #[trigger] stored[j]).encrypted);
                        assert(false);
                    }
                }
                assert forall|k: int| 0 <= k < stored.len() implies !(
                #[trigger] v@[k]@).encrypted by {
                    assert(reveals(stored[k], key, v@[k]@));
                }
                assert forall|k: int| 0 <= k < messages@.len() implies !(
                #[trigger] messages@[k]@).encrypted by {
                    assert(messages@[k]@ == stored[k]);
                }
            }
        }
        Ok(v)
    }

    /// The conversation's message history for a reader: the newest messages
    /// in timestamp order, each encrypted body replaced by its plaintext
    /// under the reader's session secret. The reader must be a participant.
    /// Success is owed for a plaintext conversation, and for an encrypted
    /// one whenever its stored bodies are sealed under the reader's present
    /// secret — a tampered body or a superseded secret surfaces as a
    /// per-message crypto error, touching neither the store nor the keys.
    #[verifier::rlimit(100)]
    #[verifier::spinoff_prover]
    pub fn get_messages(
        &self,
        conversation_id: &String,
        user_id: &String,
        limit: Option<u32>,
        before_id: Option<&String>,
    ) -> (r: Result<Vec<Message>, Error>)
        requires
            self.wf(),
        ensures
            !has_conv(self.convs(), conversation_id@) ==> (r matches Err(e) && e is NotFound),
            has_conv(self.convs(), conversation_id@) && !crate::models::is_participant(
                conv_at(self.convs(), conversation_id@),
                user_id@,
            ) ==> (r matches Err(e) && e is Authentication),
            r matches Err(e) ==> e is NotFound || e is Authentication || e is Encryption
                || e is Internal || e is InvalidNonce || e is Decrypt,
            r is Ok ==> has_conv(self.convs(), conversation_id@)
                && crate::models::is_participant(conv_at(self.convs(), conversation_id@), user_id@)
                && (before_id matches Some(b) ==> crate::store::has_msg(self.msgs(), b@)),
            r matches Ok(v) ==> (!conv_at(self.convs(), conversation_id@).encryption_enabled
                ==> crate::store::history_result(
                crate::store::views_of(v@),
                self.msgs(),
                conversation_id@,
                before_view(self.msgs(), before_id),
                limit_val(limit),
            )),
            r matches Ok(v) ==> (conv_at(self.convs(), conversation_id@).encryption_enabled
                ==> exists|sel: Seq<MessageView>|
                #[trigger] crate::store::history_result(
                    sel,
                    self.msgs(),
                    conversation_id@,
                    before_view(self.msgs(), before_id),
                    limit_val(limit),
                ) && sel.len() == v@.len() && (forall|i: int|
                    0 <= i < v@.len() ==> reveals(
                        sel[i],
                        self.sessions()[(conversation_id@, user_id@)],
                        #[trigger] v@[i]@,
                    ))),
            has_conv(self.convs(), conversation_id@) && crate::models::is_participant(
                conv_at(self.convs(), conversation_id@),
                user_id@,
            ) && (match before_id {
                Some(b) => crate::store::has_msg(self.msgs(), b@),
                None => true,
            }) && !conv_at(self.convs(), conversation_id@).encryption_enabled ==> r is Ok,
            has_conv(self.convs(), conversation_id@) && crate::models::is_participant(
                conv_at(self.convs(), conversation_id@),
                user_id@,
            ) && (match before_id {
                Some(b) => crate::store::has_msg(self.msgs(), b@),
                None => true,
            }) && conv_at(self.convs(), conversation_id@).encryption_enabled
                && conversation_readable(
                self.msgs(),
                self.sessions(),
                conversation_id@,
                user_id@,
            ) ==> r is Ok,
    {
        let conversation = match self.store.get_conversation(conversation_id) {
            Some(c) => c,
            None => {
                return Err(Error::NotFound(String::from_str("Conversation not found")));
            },
        };
        if !conversation.contains_participant(user_id) {
            return Err(Error::Authentication(String::from_str(
                "User is not a participant in conversation",
            )));
        }
        let fetched = match self.store.get_messages(conversation_id, limit, before_id) {
            Ok(v) => v,
            Err(e) => {
                return Err(e);
            },
        };
        let ghost sel = crate::store::views_of(fetched@);
        let ghost before: Option<MessageView> = before_view(self.msgs(), before_id);
        let ghost lim: int = limit_val(limit);
        if conversation.encryption_enabled {
            match self.process_incoming_encrypted_messages(fetched, user_id, conversation_id) {
                Ok(v) => {
                    proof {
                        assert(crate::store::history_result(
                            sel,
                            self.msgs(),
                            conversation_id@,
                            before,
                            lim,
                        ));
                        assert(sel.len() == v@.len());
                        assert forall|i: int| 0 <= i < v@.len() implies reveals(
                            sel[i],
                            self.sessions()[(conversation_id@, user_id@)],
                            #[trigger] v@[i]@,
                        ) by {}
                        assert(exists|sel2: Seq<MessageView>|
                            #[trigger] crate::store::history_result(
                                sel2,
                                self.msgs(),
                                conversation_id@,
                                before_view(self.msgs(), before_id),
                                limit_val(limit),
                            ) && sel2.len() == v@.len() && (forall|i: int|
                                0 <= i < v@.len() ==> reveals(
                                    sel2[i],
                                    self.sessions()[(conversation_id@, user_id@)],
                                    #[trigger] v@[i]@,
                                )));
                    }
                    Ok(v)
                },
                Err(e) => {
                    proof {
                        if conversation_readable(
                            self.msgs(),
                            self.sessions(),
                            conversation_id@,
                            user_id@,
                        ) {
                            assert forall|k: int|
                                0 <= k < fetched@.len() && (#[trigger] fetched@[k]@).encrypted
                                implies self.sessions().contains_key(
                                (conversation_id@, user_id@),
                            ) && sealed_under(
                                fetched@[k]@.content,
                                self.sessions()[(conversation_id@, user_id@)],
                            ) by {
                                let pool = crate::store::history_pool(
                                    self.msgs(),
                                    conversation_id@,
                                    before,
                                );
                                assert(sel[k] == fetched@[k]@);
                                vstd::seq_lib::to_multiset_contains(sel, sel[k]);
                                assert(sel.to_multiset().count(sel[k]) > 0);
                                assert(sel.to_multiset().subset_of(pool.to_multiset()));
                                assert(pool.to_multiset().count(sel[k]) > 0);
                                vstd::seq_lib::to_multiset_contains(pool, sel[k]);
                                assert(pool.contains(sel[k]));
                                crate::store::lemma_history_pool_elem(
                                    self.msgs(),
                                    conversation_id@,
                                    before,
                                    sel[k],
                                );
                                let mi = choose|mi: int|
                                    0 <= mi < self.msgs().len() && self.msgs()[mi] == sel[k];
                                assert(self.msgs()[mi].conversation_id == conversation_id@
                                    && self.msgs()[mi].encrypted);
                            }
                            assert(sealed_inputs(
                                fetched@,
                                self.sessions(),
                                conversation_id@,
                                user_id@,
                            ));
                            assert(false);
                        }
                    }
                    Err(e)
                },
            }
        } else {
            proof {
                assert(crate::store::history_result(
                    crate::store::views_of(fetched@),
                    self.msgs(),
                    conversation_id@,
                    before,
                    lim,
                ));
            }
            Ok(fetched)
        }
    }

    /// Applies a delivery-status update on behalf of a user: the message and
    /// its conversation must exist, the actor must be a participant, and a
    /// sender may never mark its own message as read.
    pub fn update_message_status(
        &mut self,
        message_id: &String,
        user_id: &String,
        status: crate::models::MessageStatus,
    ) -> (r: Result<(), Error>)
        requires
            old(self).wf(),
        ensures
            final(self).wf(),
            final(self).convs() == old(self).convs(),
            final(self).sessions() == old(self).sessions(),
            ({
                let msgs = old(self).msgs();
                let convs = old(self).convs();
                if !crate::store::has_msg(msgs, message_id@) {
                    (r matches Err(e) && e is NotFound) && final(self).msgs() == msgs
                } else {
                    let m = crate::store::msg_at(msgs, message_id@);
                    if !has_conv(convs, m.conversation_id) {
                        (r matches Err(e) && e is NotFound) && final(self).msgs() == msgs
                    } else if !crate::models::is_participant(
                        conv_at(convs, m.conversation_id),
                        user_id@,
                    ) {
                        (r matches Err(e) && e is Authentication) && final(self).msgs() == msgs
                    } else if m.sender_id == user_id@ && status is Read {
                        (r matches Err(e) && e is Validation) && final(self).msgs() == msgs
                    } else {
                        r is Ok && final(self).msgs() == msgs.update(
                            crate::store::msg_idx(msgs, message_id@),
                            (MessageView { status: Some(status), ..m }),
                        )
                    }
                }
            }),
    {
        self.store.update_message_status(message_id, user_id, status)
    }

    /// Marks a message as read on behalf of a user; a sender marking its own
    /// message is rejected with a validation error.
    pub fn mark_message_read(&mut self, message_id: &String, user_id: &String) -> (r: Result<
        (),
        Error,
    >)
        requires
            old(self).wf(),
        ensures
            final(self).wf(),
            final(self).convs() == old(self).convs(),
            final(self).sessions() == old(self).sessions(),
            ({
                let msgs = old(self).msgs();
                let convs = old(self).convs();
                if !crate::store::has_msg(msgs, message_id@) {
                    (r matches Err(e) && e is NotFound) && final(self).msgs() == msgs
                } else {
                    let m = crate::store::msg_at(msgs, message_id@);
                    if !has_conv(convs, m.conversation_id) {
                        (r matches Err(e) && e is NotFound) && final(self).msgs() == msgs
                    } else if !crate::models::is_participant(
                        conv_at(convs, m.conversation_id),
                        user_id@,
                    ) {
                        (r matches Err(e) && e is Authentication) && final(self).msgs() == msgs
                    } else if m.sender_id == user_id@ {
                        (r matches Err(e) && e is Validation) && final(self).msgs() == msgs
                    } else {
                        r is Ok && final(self).msgs() == msgs.update(
                            crate::store::msg_idx(msgs, message_id@),
                            (MessageView {
                                status: Some(crate::models::MessageStatus::Read),
                                ..m
                            }),
                        )
                    }
                }
            }),
    {
        self.store.update_message_status(message_id, user_id, crate::models::MessageStatus::Read)
    }

    /// Marks every other sender's pending message of a conversation as read
    /// on behalf of a participant; returns how many changed.
    pub fn mark_conversation_read(&mut self, conversation_id: &String, user_id: &String) -> (r:
        Result<u64, Error>)
        requires
            old(self).wf(),
        ensures
            final(self).wf(),
            final(self).convs() == old(self).convs(),
            final(self).sessions() == old(self).sessions(),
            !has_conv(old(self).convs(), conversation_id@) ==> (r matches Err(e) && e is NotFound)
                && final(self).msgs() == old(self).msgs(),
            has_conv(old(self).convs(), conversation_id@) && !crate::models::is_participant(
                conv_at(old(self).convs(), conversation_id@),
                user_id@,
            ) ==> (r matches Err(e) && e is Authentication) && final(self).msgs() == old(self).msgs(),
            has_conv(old(self).convs(), conversation_id@) && crate::models::is_participant(
                conv_at(old(self).convs(), conversation_id@),
                user_id@,
            ) ==> ({
                &&& r is Ok
                &&& final(self).msgs().len() == old(self).msgs().len()
                &&& forall|i: int| 0 <= i < old(self).msgs().len() ==> final(self).msgs()[i]
                    == crate::store::read_flip(old(self).msgs()[i], conversation_id@, user_id@)
                &&& (r matches Ok(n) && n == old(self).msgs().filter(
                    |m: MessageView| crate::store::readable(m, conversation_id@, user_id@),
                ).len())
            }),
    {
        let conversation = match self.store.get_conversation(conversation_id) {
            Some(c) => c,
            None => {
                return Err(Error::NotFound(String::from_str("Conversation not found")));
            },
        };
        if !conversation.contains_participant(user_id) {
            return Err(Error::Authentication(String::from_str(
                "User is not a participant in conversation",
            )));
        }
        Ok(self.store.mark_messages_as_read(conversation_id, user_id))
    }

    /// Marks every other sender's `Sent` message of a conversation as
    /// delivered to this user; returns how many changed.
    pub fn mark_conversation_delivered(&mut self, conversation_id: &String, user_id: &String) -> (r:
        Result<u64, Error>)
        requires
            old(self).wf(),
        ensures
            final(self).wf(),
            final(self).convs() == old(self).convs(),
            final(self).sessions() == old(self).sessions(),
            r is Ok,
            final(self).msgs().len() == old(self).msgs().len(),
            forall|i: int| 0 <= i < old(self).msgs().len() ==> final(self).msgs()[i]
                == crate::store::deliver_flip(old(self).msgs()[i], conversation_id@, user_id@),
            r matches Ok(n) && n == old(self).msgs().filter(
                |m: MessageView| crate::store::deliverable(m, conversation_id@, user_id@),
            ).len(),
    {
        Ok(self.store.mark_messages_as_delivered(conversation_id, user_id))
    }

    /// How many messages addressed to the user are not yet read.
    pub fn get_unread_count(&self, user_id: &String) -> (r: u64)
        requires
            self.wf(),
        ensures
            r == self.msgs().filter(
                |m: MessageView| crate::store::unread_for(self.convs(), m, user_id@),
            ).len(),
    {
        self.store.get_unread_message_count(user_id)
    }

    /// Adds a member to a group conversation on behalf of a participant.
    /// When the conversation is encrypted, a pairwise channel is established
    /// between the new member and every existing member; nothing is re-keyed
    /// retroactively beyond those pairs.
    pub fn add_group_member(
        &mut self,
        conversation_id: &String,
        user_id: &String,
        new_member_id: &String,
    ) -> (r: Result<(), Error>)
        requires
            old(self).wf(),
        ensures
            final(self).wf(),
            final(self).msgs() == old(self).msgs(),
            r is Err ==> final(self).convs() == old(self).convs() && final(self).sessions() == old(self).sessions(),
            !has_conv(old(self).convs(), conversation_id@) ==> (r matches Err(e) && e is NotFound),
            has_conv(old(self).convs(), conversation_id@) && !(conv_at(
                old(self).convs(),
                conversation_id@,
            ).conversation_type is Group) ==> (r matches Err(e) && e is Validation),
            has_conv(old(self).convs(), conversation_id@) && conv_at(
                old(self).convs(),
                conversation_id@,
            ).conversation_type is Group && !crate::models::is_participant(
                conv_at(old(self).convs(), conversation_id@),
                user_id@,
            ) ==> (r matches Err(e) && e is Authentication),
            has_conv(old(self).convs(), conversation_id@) && conv_at(
                old(self).convs(),
                conversation_id@,
            ).conversation_type is Group && crate::models::is_participant(
                conv_at(old(self).convs(), conversation_id@),
                user_id@,
            ) && crate::models::is_participant(
                conv_at(old(self).convs(), conversation_id@),
                new_member_id@,
            ) ==> (r matches Err(e) && e is Validation),
            has_conv(old(self).convs(), conversation_id@) && conv_at(
                old(self).convs(),
                conversation_id@,
            ).conversation_type is Group && crate::models::is_participant(
                conv_at(old(self).convs(), conversation_id@),
                user_id@,
            ) && !crate::models::is_participant(
                conv_at(old(self).convs(), conversation_id@),
                new_member_id@,
            ) ==> r is Ok,
            r is Ok ==> ({
                let convs = old(self).convs();
                let conv = conv_at(convs, conversation_id@);
                &&& has_conv(convs, conversation_id@)
                &&& conv.conversation_type is Group
                &&& crate::models::is_participant(conv, user_id@)
                &&& !crate::models::is_participant(conv, new_member_id@)
                &&& final(self).convs() == convs.update(
                    conv_idx(convs, conversation_id@),
                    (ConversationView {
                        participants: conv.participants.push(new_member_id@),
                        updated_at: final(self).convs()[conv_idx(convs, conversation_id@)].updated_at,
                        ..conv
                    }),
                )
                &&& (conv.encryption_enabled ==> final(self).sessions().contains_key(
                    (conversation_id@, new_member_id@),
                ) && forall|k: int| 0 <= k < conv.participants.len() ==> final(self).sessions().contains_key((conversation_id@, #[trigger] conv.participants[k])))
                &&& (!conv.encryption_enabled ==> final(self).sessions() == old(self).sessions())
                &&& sessions_agree_outside(
                    final(self).sessions(),
                    old(self).sessions(),
                    conversation_id@,
                )
            }),
    {
        let conversation = match self.store.get_conversation(conversation_id) {
            Some(c) => c,
            None => {
                return Err(Error::NotFound(String::from_str("Conversation not found")));
            },
        };
        if conversation.conversation_type != ConversationType::Group {
            return Err(Error::Validation(String::from_str("Not a group conversation")));
        }
        if !conversation.contains_participant(user_id) {
            return Err(Error::Authentication(String::from_str(
                "User is not a participant in group",
            )));
        }
        if conversation.contains_participant(new_member_id) {
            return Err(Error::Validation(String::from_str(
                "User is already a member of group",
            )));
        }
        let now = now_millis();
        self.store.add_participant(conversation_id, new_member_id, now);
        if conversation.encryption_enabled {
            let n = conversation.participants.len();
            let ghost dv = conversation@.participants;
            let ghost cid = conversation_id@;
            let mut i: usize = 0;
            while i < n
                invariant
                    self.wf(),
                    n == conversation.participants@.len(),
                    dv == conversation@.participants,
                    dv.len() == n,
                    cid == conversation_id@,
                    i <= n,
                    self.convs() == old(self).convs().update(
                        conv_idx(old(self).convs(), cid),
                        (ConversationView {
                            participants: conv_at(old(self).convs(), cid).participants.push(
                                new_member_id@,
                            ),
                            updated_at: now,
                            ..conv_at(old(self).convs(), cid)
                        }),
                    ),
                    self.msgs() == old(self).msgs(),
                    i > 0 ==> self.sessions().contains_key((cid, new_member_id@)),
                    forall|k: int| 0 <= k < i ==> self.sessions().contains_key(
                        (cid, #[trigger] dv[k]),
                    ),
                    sessions_agree_outside(self.sessions(), old(self).sessions(), cid),
                decreases n - i,
            {
                let existing = &conversation.participants[i];
                let ghost pre = self.sessions();
                match self.establish_secure_channel(existing, new_member_id, conversation_id) {
                    Ok(()) => {},
                    Err(e) => {
                        proof {
                            assert(false);
                        }
                        return Err(e);
                    },
                }
                proof {
                    assert(existing@ == dv[i as int]);
                    assert(self.sessions().contains_key((cid, new_member_id@)));
                    assert(self.sessions().contains_key((cid, dv[i as int])));
                    assert forall|k0: int| 0 <= k0 < i implies self.sessions().contains_key(
                        (cid, #[trigger] dv[k0]),
                    ) by {
                        let key = (cid, dv[k0]);
                        if key != (cid, existing@) && key != (cid, new_member_id@) {
                            assert(self.sessions().contains_key(key) <==> pre.contains_key(key));
                        }
                    }
                    assert forall|k: (Seq<char>, Seq<char>)| k.0 != cid implies (
                    #[trigger] self.sessions().contains_key(k) <==> pre.contains_key(k)) && (
                    pre.contains_key(k) ==> self.sessions()[k] == pre[k]) by {
                        assert(k != (cid, existing@) && k != (cid, new_member_id@));
                    }
                    lemma_agree_outside_trans(self.sessions(), pre, old(self).sessions(), cid);
                }
                i = i + 1;
            }
            proof {
                if n == 0 {
                    assert(false) by {
                        assert(crate::models::is_participant(conversation@, user_id@));
                    }
                }
            }
        }
        Ok(())
    }

    /// Removes a member from a group conversation on behalf of a
    /// participant. In an encrypted conversation only the removed member's
    /// own session secret is deleted; no other participant's secret rotates.
    pub fn remove_group_member(
        &mut self,
        conversation_id: &String,
        user_id: &String,
        member_to_remove: &String,
    ) -> (r: Result<(), Error>)
        requires
            old(self).wf(),
        ensures
            final(self).wf(),
            final(self).msgs() == old(self).msgs(),
            r is Err ==> final(self).convs() == old(self).convs() && final(self).sessions() == old(self).sessions(),
            !has_conv(old(self).convs(), conversation_id@) ==> (r matches Err(e) && e is NotFound),
            has_conv(old(self).convs(), conversation_id@) && !(conv_at(
                old(self).convs(),
                conversation_id@,
            ).conversation_type is Group) ==> (r matches Err(e) && e is Validation),
            has_conv(old(self).convs(), conversation_id@) && conv_at(
                old(self).convs(),
                conversation_id@,
            ).conversation_type is Group && !crate::models::is_participant(
                conv_at(old(self).convs(), conversation_id@),
                user_id@,
            ) ==> (r matches Err(e) && e is Authentication),
            has_conv(old(self).convs(), conversation_id@) && conv_at(
                old(self).convs(),
                conversation_id@,
            ).conversation_type is Group && crate::models::is_participant(
                conv_at(old(self).convs(), conversation_id@),
                user_id@,
            ) && !crate::models::is_participant(
                conv_at(old(self).convs(), conversation_id@),
                member_to_remove@,
            ) ==> (r matches Err(e) && e is Validation),
            has_conv(old(self).convs(), conversation_id@) && conv_at(
                old(self).convs(),
                conversation_id@,
            ).conversation_type is Group && crate::models::is_participant(
                conv_at(old(self).convs(), conversation_id@),
                user_id@,
            ) && crate::models::is_participant(
                conv_at(old(self).convs(), conversation_id@),
                member_to_remove@,
            ) ==> r is Ok,
            r is Ok ==> ({
                let convs = old(self).convs();
                let conv = conv_at(convs, conversation_id@);
                &&& has_conv(convs, conversation_id@)
                &&& conv.conversation_type is Group
                &&& crate::models::is_participant(conv, user_id@)
                &&& crate::models::is_participant(conv, member_to_remove@)
                &&& final(self).convs() == convs.update(
                    conv_idx(convs, conversation_id@),
                    (ConversationView {
                        participants: conv.participants.filter(
                            |p: Seq<char>| p != member_to_remove@,
                        ),
                        updated_at: final(self).convs()[conv_idx(convs, conversation_id@)].updated_at,
                        ..conv
                    }),
                )
                &&& (conv.encryption_enabled ==> final(self).sessions() == old(self).sessions().remove((conversation_id@, member_to_remove@)))
                &&& (!conv.encryption_enabled ==> final(self).sessions() == old(self).sessions())
            }),
    {
        let conversation = match self.store.get_conversation(conversation_id) {
            Some(c) => c,
            None => {
                return Err(Error::NotFound(String::from_str("Conversation not found")));
            },
        };
        if conversation.conversation_type != ConversationType::Group {
            return Err(Error::Validation(String::from_str("Not a group conversation")));
        }
        if !conversation.contains_participant(user_id) {
            return Err(Error::Authentication(String::from_str(
                "User is not a participant in group",
            )));
        }
        if !conversation.contains_participant(member_to_remove) {
            return Err(Error::Validation(String::from_str("User is not a member of group")));
        }
        let now = now_millis();
        self.store.remove_participant(conversation_id, member_to_remove, now);
        if conversation.encryption_enabled {
            self.session_keys.remove_user_keys(conversation_id, member_to_remove);
        }
        Ok(())
    }

    /// The participants of a conversation, for a participant. Presence is
    /// not tracked here, so all participants are reported.
    pub fn get_online_participants(&self, conversation_id: &String, user_id: &String) -> (r: Result<
        Vec<String>,
        Error,
    >)
        requires
            self.wf(),
        ensures
            !has_conv(self.convs(), conversation_id@) ==> (r matches Err(e) && e is NotFound),
            has_conv(self.convs(), conversation_id@) && !crate::models::is_participant(
                conv_at(self.convs(), conversation_id@),
                user_id@,
            ) ==> (r matches Err(e) && e is Authentication),
            has_conv(self.convs(), conversation_id@) && crate::models::is_participant(
                conv_at(self.convs(), conversation_id@),
                user_id@,
            ) ==> (r matches Ok(v) && v.deep_view() == conv_at(
                self.convs(),
                conversation_id@,
            ).participants),
    {
        let conversation = match self.store.get_conversation(conversation_id) {
            Some(c) => c,
            None => {
                return Err(Error::NotFound(String::from_str("Conversation not found")));
            },
        };
        if !conversation.contains_participant(user_id) {
            return Err(Error::Authentication(String::from_str(
                "User is not a participant in conversation",
            )));
        }
        let r = crate::models::clone_string_vec(&conversation.participants);
        proof {
            assert(r.deep_view() =~= conversation.participants.deep_view());
        }
        Ok(r)
    }
}

/// The reference message of a history query, when one is named.
pub open spec fn before_view(msgs: Seq<MessageView>, before_id: Option<&String>) -> Option<
    MessageView,
> {
    match before_id {
        Some(b) => Some(crate::store::msg_at(msgs, b@)),
        None => None,
    }
}

/// The page size of a history query: the given limit, or 50.
pub open spec fn limit_val(limit: Option<u32>) -> int {
    match limit {
        Some(l) => l as int,
        None => 50,
    }
}

/// Every stored encrypted message of the conversation carries a frame
/// sealed under the reader's present session secret — the state in which a
/// history read is owed success.
pub open spec fn conversation_readable(
    msgs: Seq<MessageView>,
    sessions: Map<(Seq<char>, Seq<char>), Seq<u8>>,
    cid: Seq<char>,
    uid: Seq<char>,
) -> bool {
    forall|i: int|
        0 <= i < msgs.len() && (#[trigger] msgs[i]).conversation_id == cid && msgs[i].encrypted
            ==> sessions.contains_key((cid, uid)) && sealed_under(
            msgs[i].content,
            sessions[(cid, uid)],
        )
}

/// Every encrypted message of the batch carries a frame sealed under the
/// reader's session secret, which is present.
pub open spec fn sealed_inputs(
    messages: Seq<Message>,
    sessions: Map<(Seq<char>, Seq<char>), Seq<u8>>,
    cid: Seq<char>,
    uid: Seq<char>,
) -> bool {
    forall|i: int|
        0 <= i < messages.len() && (#[trigger] messages[i]@).encrypted ==> sessions.contains_key(
            (cid, uid),
        ) && sealed_under(messages[i]@.content, sessions[(cid, uid)])
}

/// `content` is the stored frame of some plaintext sealed under `key`.
pub open spec fn sealed_under(content: Seq<char>, key: Seq<u8>) -> bool {
    exists|nonce: Seq<u8>, p: Seq<char>|
        nonce.len() == 12 && content == crate::codec::frame_of(
            nonce,
            #[trigger] crate::crypto::cipher_of(key, nonce, vstd::utf8::encode_utf8(p)),
        )
}

/// `out` is `stored` as a reader sees it: identical in every routing and
/// bookkeeping field, with an encrypted body replaced by the one plaintext
/// whose sealing under `key` the stored frame carries — no other plaintext
/// seals into the same frame.
pub open spec fn reveals(stored: MessageView, key: Seq<u8>, out: MessageView) -> bool {
    if stored.encrypted {
        &&& out.id == stored.id
        &&& out.conversation_id == stored.conversation_id
        &&& out.sender_id == stored.sender_id
        &&& out.content_type == stored.content_type
        &&& out.timestamp == stored.timestamp
        &&& out.status == stored.status
        &&& out.media_url == stored.media_url
        &&& out.encrypted == stored.encrypted
        &&& exists|nonce: Seq<u8>|
            nonce.len() == 12 && stored.content == crate::codec::frame_of(
                nonce,
                crate::crypto::cipher_of(key, nonce, vstd::utf8::encode_utf8(out.content)),
            )
        &&& forall|nonce: Seq<u8>, p: Seq<char>|
            nonce.len() == 12 && stored.content == crate::codec::frame_of(
                nonce,
                #[trigger] crate::crypto::cipher_of(key, nonce, vstd::utf8::encode_utf8(p)),
            ) ==> p == out.content
    } else {
        out == stored
    }
}

} // verus!
