//! The in-memory chat store: conversations and messages, addressed by their
//! application-level string ids. It stands for the external document store,
//! which the core only reaches through create/read/update/delete operations
//! keyed by those ids; here every operation carries an exact contract.

use vstd::prelude::*;
use vstd::multiset::Multiset;
use crate::errors::Error;
use crate::models::{is_participant, Conversation, ConversationView, Message, MessageStatus,
    MessageView, NewConversation, NewMessage};

verus! {

/// Some conversation in `s` has id `id`.
pub open spec fn has_conv(s: Seq<ConversationView>, id: Seq<char>) -> bool {
    exists|i: int| 0 <= i < s.len() && s[i].id == id
}

/// The index of the conversation with id `id`.
pub open spec fn conv_idx(s: Seq<ConversationView>, id: Seq<char>) -> int {
    choose|i: int| 0 <= i < s.len() && s[i].id == id
}

/// The conversation with id `id`.
pub open spec fn conv_at(s: Seq<ConversationView>, id: Seq<char>) -> ConversationView {
    s[conv_idx(s, id)]
}

/// Some message in `s` has id `id`.
pub open spec fn has_msg(s: Seq<MessageView>, id: Seq<char>) -> bool {
    exists|i: int| 0 <= i < s.len() && s[i].id == id
}

/// The index of the message with id `id`.
pub open spec fn msg_idx(s: Seq<MessageView>, id: Seq<char>) -> int {
    choose|i: int| 0 <= i < s.len() && s[i].id == id
}

/// The message with id `id`.
pub open spec fn msg_at(s: Seq<MessageView>, id: Seq<char>) -> MessageView {
    s[msg_idx(s, id)]
}

pub open spec fn distinct_conv_ids(s: Seq<ConversationView>) -> bool {
    forall|i: int, j: int|
        #![trigger s[i].id, s[j].id]
        0 <= i < j < s.len() ==> s[i].id != s[j].id
}

pub open spec fn distinct_msg_ids(s: Seq<MessageView>) -> bool {
    forall|i: int, j: int|
        #![trigger s[i].id, s[j].id]
        0 <= i < j < s.len() ==> s[i].id != s[j].id
}

/// The in-memory store behind the chat manager.
pub struct ChatStore {
    conversations: Vec<Conversation>,
    messages: Vec<Message>,
}

impl ChatStore {
    /// The abstract conversation list.
    pub closed spec fn convs(&self) -> Seq<ConversationView> {
        self.conversations@.map_values(|c: Conversation| c@)
    }

    /// The abstract message list, in insertion order.
    pub closed spec fn msgs(&self) -> Seq<MessageView> {
        self.messages@.map_values(|m: Message| m@)
    }

    /// The internal invariant: ids are unique within each collection.
    pub closed spec fn wf(&self) -> bool {
        &&& distinct_conv_ids(self.convs())
        &&& distinct_msg_ids(self.msgs())
    }

    pub fn new() -> (r: Self)
        ensures
            r.wf(),
            r.convs() == Seq::<ConversationView>::empty(),
            r.msgs() == Seq::<MessageView>::empty(),
    {
        let r = ChatStore { conversations: Vec::new(), messages: Vec::new() };
        proof {
            assert(r.convs() =~= Seq::<ConversationView>::empty());
            assert(r.msgs() =~= Seq::<MessageView>::empty());
        }
        r
    }

    /// The index of the conversation with the given id, if any.
    fn find_conversation(&self, conversation_id: &String) -> (r: Option<usize>)
        requires
            self.wf(),
        ensures
            match r {
                Some(i) => i < self.convs().len() && self.convs()[i as int].id == conversation_id@
                    && conv_idx(self.convs(), conversation_id@) == i as int && has_conv(
                    self.convs(),
                    conversation_id@,
                ),
                None => !has_conv(self.convs(), conversation_id@),
            },
    {
        let mut i: usize = 0;
        while i < self.conversations.len()
            invariant
                self.wf(),
                i <= self.convs().len(),
                self.convs().len() == self.conversations@.len(),
                forall|j: int| 0 <= j < i ==> self.convs()[j].id != conversation_id@,
            decreases self.conversations@.len() - i,
        {
            if self.conversations[i].id == *conversation_id {
                proof {
                    let k = conv_idx(self.convs(), conversation_id@);
                    assert(self.convs()[i as int].id == conversation_id@);
                    assert(0 <= k < self.convs().len() && self.convs()[k].id == conversation_id@);
                    if k < i as int {
                        assert(self.convs()[k].id != self.convs()[i as int].id);
                    } else if k > i as int {
                        assert(self.convs()[i as int].id != self.convs()[k].id);
                    }
                }
                return Some(i);
            }
            i = i + 1;
        }
        None
    }

    /// The index of the message with the given id, if any.
    fn find_message(&self, message_id: &String) -> (r: Option<usize>)
        requires
            self.wf(),
        ensures
            match r {
                Some(i) => i < self.msgs().len() && self.msgs()[i as int].id == message_id@
                    && msg_idx(self.msgs(), message_id@) == i as int && has_msg(
                    self.msgs(),
                    message_id@,
                ),
                None => !has_msg(self.msgs(), message_id@),
            },
    {
        let mut i: usize = 0;
        while i < self.messages.len()
            invariant
                self.wf(),
                i <= self.msgs().len(),
                self.msgs().len() == self.messages@.len(),
                forall|j: int| 0 <= j < i ==> self.msgs()[j].id != message_id@,
            decreases self.messages@.len() - i,
        {
            if self.messages[i].id == *message_id {
                proof {
                    let k = msg_idx(self.msgs(), message_id@);
                    assert(self.msgs()[i as int].id == message_id@);
                    assert(0 <= k < self.msgs().len() && self.msgs()[k].id == message_id@);
                    if k < i as int {
                        assert(self.msgs()[k].id != self.msgs()[i as int].id);
                    } else if k > i as int {
                        assert(self.msgs()[i as int].id != self.msgs()[k].id);
                    }
                }
                return Some(i);
            }
            i = i + 1;
        }
        None
    }

    /// Creates a conversation under the given fresh id, created and updated
    /// at `now`, with no last message.
    pub fn create_conversation(
        &mut self,
        new_conversation: NewConversation,
        id: String,
        now: u64,
    ) -> (r: Result<Conversation, Error>)
        requires
            old(self).wf(),
        ensures
            final(self).wf(),
            final(self).msgs() == old(self).msgs(),
            has_conv(old(self).convs(), id@) ==> (r matches Err(e) && e is Internal)
                && final(self).convs() == old(self).convs(),
            !has_conv(old(self).convs(), id@) ==> r is Ok,
            r matches Ok(c) ==> c@ == (ConversationView {
                id: id@,
                name: new_conversation.name.deep_view(),
                conversation_type: new_conversation.conversation_type,
                participants: new_conversation.participants.deep_view(),
                created_at: now,
                updated_at: now,
                last_message: None,
                encryption_enabled: new_conversation.encryption_enabled,
            }),
            r matches Ok(c) ==> final(self).convs() == old(self).convs().push(c@),
    {
        if self.find_conversation(&id).is_some() {
            return Err(Error::Internal(String::from_str("conversation id already in use")));
        }
        let conversation = Conversation {
            id,
            name: new_conversation.name,
            conversation_type: new_conversation.conversation_type,
            participants: new_conversation.participants,
            created_at: now,
            updated_at: now,
            last_message: None,
            encryption_enabled: new_conversation.encryption_enabled,
        };
        let result = conversation.clone();
        proof {
            assert(self.conversations@.push(conversation).map_values(|c: Conversation| c@)
                =~= self.convs().push(conversation@));
        }
        self.conversations.push(conversation);
        Ok(result)
    }

    /// The conversation with the given id, if any.
    pub fn get_conversation(&self, conversation_id: &String) -> (r: Option<Conversation>)
        requires
            self.wf(),
        ensures
            match r {
                Some(c) => has_conv(self.convs(), conversation_id@) && c@ == conv_at(
                    self.convs(),
                    conversation_id@,
                ),
                None => !has_conv(self.convs(), conversation_id@),
            },
    {
        match self.find_conversation(conversation_id) {
            Some(i) => Some(self.conversations[i].clone()),
            None => None,
        }
    }

    /// Every conversation the user participates in, in store order.
    pub fn get_conversations_for_user(&self, user_id: &String) -> (r: Vec<Conversation>)
        requires
            self.wf(),
        ensures
            r@.map_values(|c: Conversation| c@) == self.convs().filter(
                |c: ConversationView| is_participant(c, user_id@),
            ),
    {
        let mut r: Vec<Conversation> = Vec::new();
        let mut i: usize = 0;
        proof {
            assert(self.convs().subrange(0, 0) =~= Seq::<ConversationView>::empty());
            assert(r@.map_values(|c: Conversation| c@) =~= Seq::<ConversationView>::empty()
                .filter(|c: ConversationView| is_participant(c, user_id@)));
        }
        while i < self.conversations.len()
            invariant
                self.wf(),
                i <= self.conversations@.len(),
                self.convs().len() == self.conversations@.len(),
                r@.map_values(|c: Conversation| c@) == self.convs().subrange(0, i as int).filter(
                    |c: ConversationView| is_participant(c, user_id@),
                ),
            decreases self.conversations@.len() - i,
        {
            let ghost prefix = self.convs().subrange(0, i as int);
            let ghost pred = |c: ConversationView| is_participant(c, user_id@);
            if self.conversations[i].contains_participant(user_id) {
                r.push(self.conversations[i].clone());
            }
            proof {
                prefix.lemma_filter_push(self.convs()[i as int], pred);
                assert(self.convs().subrange(0, i as int + 1) =~= prefix.push(
                    self.convs()[i as int],
                ));
                if pred(self.convs()[i as int]) {
                    assert(r@.map_values(|c: Conversation| c@) =~= prefix.filter(pred).push(
                        self.convs()[i as int],
                    ));
                } else {
                    assert(r@.map_values(|c: Conversation| c@) =~= prefix.filter(pred));
                }
            }
            i = i + 1;
        }
        proof {
            assert(self.convs().subrange(0, self.convs().len() as int) =~= self.convs());
        }
        r
    }

    /// Sets the conversation's last-message pointer and bumps its update
    /// time; a no-op when the conversation does not exist.
    pub fn update_conversation_last_message(
        &mut self,
        conversation_id: &String,
        message: &Message,
        now: u64,
    )
        requires
            old(self).wf(),
        ensures
            final(self).wf(),
            final(self).msgs() == old(self).msgs(),
            !has_conv(old(self).convs(), conversation_id@) ==> final(self).convs() == old(
                self,
            ).convs(),
            has_conv(old(self).convs(), conversation_id@) ==> final(self).convs() == old(
                self,
            ).convs().update(
                conv_idx(old(self).convs(), conversation_id@),
                ConversationView {
                    last_message: Some(message@),
                    updated_at: now,
                    ..conv_at(old(self).convs(), conversation_id@)
                },
            ),
    {
        match self.find_conversation(conversation_id) {
            Some(i) => {
                let mut c = self.conversations[i].clone();
                c.last_message = Some(message.clone());
                c.updated_at = now;
                proof {
                    assert(self.conversations@.update(i as int, c).map_values(
                        |x: Conversation| x@,
                    ) =~= self.convs().update(
                        i as int,
                        ConversationView {
                            last_message: Some(message@),
                            updated_at: now,
                            ..conv_at(self.convs(), conversation_id@)
                        },
                    ));
                }
                self.conversations.set(i, c);
            },
            None => {},
        }
    }

    /// Adds a participant to a conversation and bumps its update time; a
    /// no-op when the conversation does not exist. The caller checks
    /// membership rules.
    pub fn add_participant(&mut self, conversation_id: &String, member: &String, now: u64)
        requires
            old(self).wf(),
        ensures
            final(self).wf(),
            final(self).msgs() == old(self).msgs(),
            !has_conv(old(self).convs(), conversation_id@) ==> final(self).convs() == old(
                self,
            ).convs(),
            has_conv(old(self).convs(), conversation_id@) ==> final(self).convs() == old(
                self,
            ).convs().update(
                conv_idx(old(self).convs(), conversation_id@),
                ConversationView {
                    participants: conv_at(old(self).convs(), conversation_id@).participants.push(
                        member@,
                    ),
                    updated_at: now,
                    ..conv_at(old(self).convs(), conversation_id@)
                },
            ),
    {
        match self.find_conversation(conversation_id) {
            Some(i) => {
                let mut c = self.conversations[i].clone();
                c.participants.push(member.clone());
                c.updated_at = now;
                proof {
                    assert(c.participants.deep_view() =~= conv_at(
                        self.convs(),
                        conversation_id@,
                    ).participants.push(member@));
                    assert(self.conversations@.update(i as int, c).map_values(
                        |x: Conversation| x@,
                    ) =~= self.convs().update(
                        i as int,
                        ConversationView {
                            participants: conv_at(
                                self.convs(),
                                conversation_id@,
                            ).participants.push(member@),
                            updated_at: now,
                            ..conv_at(self.convs(), conversation_id@)
                        },
                    ));
                }
                self.conversations.set(i, c);
            },
            None => {},
        }
    }

    /// Removes every occurrence of a participant from a conversation and
    /// bumps its update time; a no-op when the conversation does not exist.
    pub fn remove_participant(&mut self, conversation_id: &String, member: &String, now: u64)
        requires
            old(self).wf(),
        ensures
            final(self).wf(),
            final(self).msgs() == old(self).msgs(),
            !has_conv(old(self).convs(), conversation_id@) ==> final(self).convs() == old(
                self,
            ).convs(),
            has_conv(old(self).convs(), conversation_id@) ==> final(self).convs() == old(
                self,
            ).convs().update(
                conv_idx(old(self).convs(), conversation_id@),
                ConversationView {
                    participants: conv_at(old(self).convs(), conversation_id@).participants.filter(
                        |p: Seq<char>| p != member@,
                    ),
                    updated_at: now,
                    ..conv_at(old(self).convs(), conversation_id@)
                },
            ),
    {
        match self.find_conversation(conversation_id) {
            Some(i) => {
                let c = &self.conversations[i];
                let mut kept: Vec<String> = Vec::new();
                let mut j: usize = 0;
                let ghost orig = c.participants.deep_view();
                proof {
                    assert(orig.subrange(0, 0) =~= Seq::<Seq<char>>::empty());
                    assert(kept.deep_view() =~= Seq::<Seq<char>>::empty().filter(
                        |p: Seq<char>| p != member@,
                    ));
                }
                while j < self.conversations[i].participants.len()
                    invariant
                        i < self.conversations@.len(),
                        j <= self.conversations@[i as int].participants@.len(),
                        orig == self.conversations@[i as int].participants.deep_view(),
                        orig.len() == self.conversations@[i as int].participants@.len(),
                        kept.deep_view() == orig.subrange(0, j as int).filter(
                            |p: Seq<char>| p != member@,
                        ),
                    decreases self.conversations@[i as int].participants@.len() - j,
                {
                    let ghost prefix = orig.subrange(0, j as int);
                    let ghost pred = |p: Seq<char>| p != member@;
                    let ghost old_kept = kept.deep_view();
                    if self.conversations[i].participants[j] != *member {
                        let p = self.conversations[i].participants[j].clone();
                        kept.push(p);
                    }
                    proof {
                        prefix.lemma_filter_push(orig[j as int], pred);
                        assert(orig.subrange(0, j as int + 1) =~= prefix.push(orig[j as int]));
                        if pred(orig[j as int]) {
                            assert(kept.deep_view() =~= old_kept.push(orig[j as int]));
                        } else {
                            assert(kept.deep_view() =~= old_kept);
                        }
                    }
                    j = j + 1;
                }
                proof {
                    assert(orig.subrange(0, orig.len() as int) =~= orig);
                }
                let mut c = self.conversations[i].clone();
                c.participants = kept;
                c.updated_at = now;
                proof {
                    assert(self.conversations@.update(i as int, c).map_values(
                        |x: Conversation| x@,
                    ) =~= self.convs().update(
                        i as int,
                        ConversationView {
                            participants: conv_at(
                                self.convs(),
                                conversation_id@,
                            ).participants.filter(|p: Seq<char>| p != member@),
                            updated_at: now,
                            ..conv_at(self.convs(), conversation_id@)
                        },
                    ));
                }
                self.conversations.set(i, c);
            },
            None => {},
        }
    }

    /// The message with the given id, if any.
    pub fn get_message(&self, message_id: &String) -> (r: Option<Message>)
        requires
            self.wf(),
        ensures
            match r {
                Some(m) => has_msg(self.msgs(), message_id@) && m@ == msg_at(
                    self.msgs(),
                    message_id@,
                ),
                None => !has_msg(self.msgs(), message_id@),
            },
    {
        match self.find_message(message_id) {
            Some(i) => Some(self.messages[i].clone()),
            None => None,
        }
    }

    /// Persists a message under the given fresh id at time `now`, with
    /// initial status `Sent`. The conversation must exist.
    pub fn save_message(&mut self, new_message: NewMessage, id: String, now: u64) -> (r: Result<
        Message,
        Error,
    >)
        requires
            old(self).wf(),
        ensures
            final(self).wf(),
            final(self).convs() == old(self).convs(),
            !has_conv(old(self).convs(), new_message.conversation_id@) ==> (r matches Err(e)
                && e is NotFound) && final(self).msgs() == old(self).msgs(),
            has_conv(old(self).convs(), new_message.conversation_id@) && has_msg(
                old(self).msgs(),
                id@,
            ) ==> (r matches Err(e) && e is Internal) && final(self).msgs() == old(self).msgs(),
            has_conv(old(self).convs(), new_message.conversation_id@) && !has_msg(
                old(self).msgs(),
                id@,
            ) ==> r is Ok,
            r matches Ok(m) ==> m@ == (MessageView {
                id: id@,
                conversation_id: new_message.conversation_id@,
                sender_id: new_message.sender_id@,
                content: new_message.content@,
                content_type: new_message.content_type,
                timestamp: now,
                status: Some(MessageStatus::Sent),
                encrypted: new_message.encrypted,
                media_url: new_message.media_url.deep_view(),
            }),
            r matches Ok(m) ==> final(self).msgs() == old(self).msgs().push(m@),
    {
        if self.find_conversation(&new_message.conversation_id).is_none() {
            return Err(Error::NotFound(String::from_str("conversation not found")));
        }
        if self.find_message(&id).is_some() {
            return Err(Error::Internal(String::from_str("message id already in use")));
        }
        let message = Message {
            id,
            conversation_id: new_message.conversation_id,
            sender_id: new_message.sender_id,
            content: new_message.content,
            content_type: new_message.content_type,
            timestamp: now,
            status: Some(MessageStatus::Sent),
            encrypted: new_message.encrypted,
            media_url: new_message.media_url,
        };
        let result = message.clone();
        proof {
            let pushed = self.msgs().push(message@);
            assert(self.messages@.push(message).map_values(|m: Message| m@) =~= pushed);
            assert forall|a: int, b: int|
                #![trigger pushed[a].id, pushed[b].id]
                0 <= a < b < pushed.len() implies pushed[a].id != pushed[b].id by {
                if b < pushed.len() - 1 {
                    assert(pushed[a] == self.msgs()[a] && pushed[b] == self.msgs()[b]);
                } else {
                    assert(pushed[a] == self.msgs()[a] && pushed[b] == message@);
                }
            }
        }
        self.messages.push(message);
        Ok(result)
    }

    /// Applies a delivery-status update on behalf of `user_id`. The message
    /// and its conversation must exist, the actor must be a participant, and
    /// a sender may never mark its own message as read.
    pub fn update_message_status(
        &mut self,
        message_id: &String,
        user_id: &String,
        status: MessageStatus,
    ) -> (r: Result<(), Error>)
        requires
            old(self).wf(),
        ensures
            final(self).wf(),
            final(self).convs() == old(self).convs(),
            ({
                let msgs = old(self).msgs();
                let convs = old(self).convs();
                if !has_msg(msgs, message_id@) {
                    (r matches Err(e) && e is NotFound) && final(self).msgs() == msgs
                } else {
                    let m = msg_at(msgs, message_id@);
                    if !has_conv(convs, m.conversation_id) {
                        (r matches Err(e) && e is NotFound) && final(self).msgs() == msgs
                    } else if !is_participant(conv_at(convs, m.conversation_id), user_id@) {
                        (r matches Err(e) && e is Authentication) && final(self).msgs() == msgs
                    } else if m.sender_id == user_id@ && status is Read {
                        (r matches Err(e) && e is Validation) && final(self).msgs() == msgs
                    } else {
                        r is Ok && final(self).msgs() == msgs.update(
                            msg_idx(msgs, message_id@),
                            (MessageView { status: Some(status), ..m }),
                        )
                    }
                }
            }),
    {
        let mi = match self.find_message(message_id) {
            Some(i) => i,
            None => {
                return Err(Error::NotFound(String::from_str("message not found")));
            },
        };
        let ci = match self.find_conversation(&self.messages[mi].conversation_id) {
            Some(i) => i,
            None => {
                return Err(Error::NotFound(String::from_str("conversation not found")));
            },
        };
        if !self.conversations[ci].contains_participant(user_id) {
            return Err(Error::Authentication(String::from_str(
                "user is not a participant in the message's conversation",
            )));
        }
        if self.messages[mi].sender_id == *user_id && status == MessageStatus::Read {
            return Err(Error::Validation(String::from_str(
                "Sender cannot mark their own message as read",
            )));
        }
        let mut m = self.messages[mi].clone();
        m.status = Some(status);
        proof {
            let target = self.msgs().update(
                mi as int,
                (MessageView { status: Some(status), ..msg_at(self.msgs(), message_id@) }),
            );
            assert(self.messages@.update(mi as int, m).map_values(|x: Message| x@) =~= target);
            assert forall|a: int, b: int|
                #![trigger target[a].id, target[b].id]
                0 <= a < b < target.len() implies target[a].id != target[b].id by {
                assert(target[a].id == self.msgs()[a].id && target[b].id == self.msgs()[b].id);
            }
        }
        self.messages.set(mi, m);
        Ok(())
    }

    /// Deletes the message with the given id.
    pub fn delete_message(&mut self, message_id: &String) -> (r: Result<(), Error>)
        requires
            old(self).wf(),
        ensures
            final(self).wf(),
            final(self).convs() == old(self).convs(),
            !has_msg(old(self).msgs(), message_id@) ==> (r matches Err(e) && e is NotFound)
                && final(self).msgs() == old(self).msgs(),
            has_msg(old(self).msgs(), message_id@) ==> r is Ok && final(self).msgs() == old(
                self,
            ).msgs().remove(msg_idx(old(self).msgs(), message_id@)),
    {
        match self.find_message(message_id) {
            Some(i) => {
                proof {
                    let rm = self.msgs().remove(i as int);
                    assert(self.messages@.remove(i as int).map_values(|x: Message| x@) =~= rm);
                    assert forall|a: int, b: int|
                        #![trigger rm[a].id, rm[b].id]
                        0 <= a < b < rm.len() implies rm[a].id != rm[b].id by {
                        let a0: int = if a < i as int { a } else { a + 1 };
                        let b0: int = if b < i as int { b } else { b + 1 };
                        assert(rm[a] == self.msgs()[a0] && rm[b] == self.msgs()[b0]);
                    }
                }
                self.messages.remove(i);
                Ok(())
            },
            None => Err(Error::NotFound(String::from_str("message not found"))),
        }
    }

    /// Marks as delivered every message of the conversation that was sent by
    /// someone else and still has status `Sent`; returns how many changed.
    pub fn mark_messages_as_delivered(&mut self, conversation_id: &String, user_id: &String) -> (r:
        u64)
        requires
            old(self).wf(),
        ensures
            final(self).wf(),
            final(self).convs() == old(self).convs(),
            final(self).msgs().len() == old(self).msgs().len(),
            forall|i: int| 0 <= i < old(self).msgs().len() ==> final(self).msgs()[i]
                == deliver_flip(old(self).msgs()[i], conversation_id@, user_id@),
            r == old(self).msgs().filter(
                |m: MessageView| deliverable(m, conversation_id@, user_id@),
            ).len(),
    {
        let mut count: u64 = 0;
        let mut i: usize = 0;
        proof {
            assert(old(self).msgs().subrange(0, 0) =~= Seq::<MessageView>::empty());
            assert(Seq::<MessageView>::empty().filter(
                |m: MessageView| deliverable(m, conversation_id@, user_id@),
            ) =~= Seq::<MessageView>::empty());
        }
        while i < self.messages.len()
            invariant
                self.wf(),
                i <= self.messages@.len(),
                self.messages@.len() == old(self).messages@.len(),
                self.convs() == old(self).convs(),
                self.msgs().len() == old(self).msgs().len(),
                forall|j: int| 0 <= j < i ==> self.msgs()[j] == deliver_flip(
                    old(self).msgs()[j],
                    conversation_id@,
                    user_id@,
                ),
                forall|j: int| i <= j < self.msgs().len() ==> self.msgs()[j] == old(self).msgs()[j],
                count == old(self).msgs().subrange(0, i as int).filter(
                    |m: MessageView| deliverable(m, conversation_id@, user_id@),
                ).len(),
                count <= i,
            decreases self.messages@.len() - i,
        {
            let ghost prefix = old(self).msgs().subrange(0, i as int);
            let ghost pred = |m: MessageView| deliverable(m, conversation_id@, user_id@);
            let is_sent = match self.messages[i].status {
                Some(MessageStatus::Sent) => true,
                _ => false,
            };
            if self.messages[i].conversation_id == *conversation_id && self.messages[i].sender_id
                != *user_id && is_sent {
                let mut m = self.messages[i].clone();
                m.status = Some(MessageStatus::Delivered);
                proof {
                    let updated = self.messages@.update(i as int, m).map_values(|x: Message| x@);
                    assert(updated =~= self.msgs().update(i as int, m@));
                    assert forall|a: int, b: int|
                        #![trigger updated[a].id, updated[b].id]
                        0 <= a < b < updated.len() implies updated[a].id != updated[b].id by {
                        assert(updated[a].id == self.msgs()[a].id && updated[b].id
                            == self.msgs()[b].id);
                    }
                }
                self.messages.set(i, m);
                count = count + 1;
            }
            proof {
                prefix.lemma_filter_push(old(self).msgs()[i as int], pred);
                assert(old(self).msgs().subrange(0, i as int + 1) =~= prefix.push(
                    old(self).msgs()[i as int],
                ));
            }
            i = i + 1;
        }
        proof {
            assert(old(self).msgs().subrange(0, old(self).msgs().len() as int)
                =~= old(self).msgs());
        }
        count
    }

    /// Marks as read every message of the conversation that was sent by
    /// someone else and is still `Sent` or `Delivered`; returns how many
    /// changed.
    pub fn mark_messages_as_read(&mut self, conversation_id: &String, user_id: &String) -> (r: u64)
        requires
            old(self).wf(),
        ensures
            final(self).wf(),
            final(self).convs() == old(self).convs(),
            final(self).msgs().len() == old(self).msgs().len(),
            forall|i: int| 0 <= i < old(self).msgs().len() ==> final(self).msgs()[i] == read_flip(
                old(self).msgs()[i],
                conversation_id@,
                user_id@,
            ),
            r == old(self).msgs().filter(
                |m: MessageView| readable(m, conversation_id@, user_id@),
            ).len(),
    {
        let mut count: u64 = 0;
        let mut i: usize = 0;
        proof {
            assert(old(self).msgs().subrange(0, 0) =~= Seq::<MessageView>::empty());
            assert(Seq::<MessageView>::empty().filter(
                |m: MessageView| readable(m, conversation_id@, user_id@),
            ) =~= Seq::<MessageView>::empty());
        }
        while i < self.messages.len()
            invariant
                self.wf(),
                i <= self.messages@.len(),
                self.messages@.len() == old(self).messages@.len(),
                self.convs() == old(self).convs(),
                self.msgs().len() == old(self).msgs().len(),
                forall|j: int| 0 <= j < i ==> self.msgs()[j] == read_flip(
                    old(self).msgs()[j],
                    conversation_id@,
                    user_id@,
                ),
                forall|j: int| i <= j < self.msgs().len() ==> self.msgs()[j] == old(self).msgs()[j],
                count == old(self).msgs().subrange(0, i as int).filter(
                    |m: MessageView| readable(m, conversation_id@, user_id@),
                ).len(),
                count <= i,
            decreases self.messages@.len() - i,
        {
            let ghost prefix = old(self).msgs().subrange(0, i as int);
            let ghost pred = |m: MessageView| readable(m, conversation_id@, user_id@);
            let is_pending = match self.messages[i].status {
                Some(MessageStatus::Sent) => true,
                Some(MessageStatus::Delivered) => true,
                _ => false,
            };
            if self.messages[i].conversation_id == *conversation_id && self.messages[i].sender_id
                != *user_id && is_pending {
                let mut m = self.messages[i].clone();
                m.status = Some(MessageStatus::Read);
                proof {
                    let updated = self.messages@.update(i as int, m).map_values(|x: Message| x@);
                    assert(updated =~= self.msgs().update(i as int, m@));
                    assert forall|a: int, b: int|
                        #![trigger updated[a].id, updated[b].id]
                        0 <= a < b < updated.len() implies updated[a].id != updated[b].id by {
                        assert(updated[a].id == self.msgs()[a].id && updated[b].id
                            == self.msgs()[b].id);
                    }
                }
                self.messages.set(i, m);
                count = count + 1;
            }
            proof {
                prefix.lemma_filter_push(old(self).msgs()[i as int], pred);
                assert(old(self).msgs().subrange(0, i as int + 1) =~= prefix.push(
                    old(self).msgs()[i as int],
                ));
            }
            i = i + 1;
        }
        proof {
            assert(old(self).msgs().subrange(0, old(self).msgs().len() as int)
                =~= old(self).msgs());
        }
        count
    }

    /// How many messages addressed to the user are not yet read: messages of
    /// conversations the user participates in, sent by someone else, whose
    /// status is not `Read`.
    pub fn get_unread_message_count(&self, user_id: &String) -> (r: u64)
        requires
            self.wf(),
        ensures
            r == self.msgs().filter(|m: MessageView| unread_for(self.convs(), m, user_id@)).len(),
    {
        let mut count: u64 = 0;
        let mut i: usize = 0;
        proof {
            assert(self.msgs().subrange(0, 0) =~= Seq::<MessageView>::empty());
            assert(Seq::<MessageView>::empty().filter(
                |m: MessageView| unread_for(self.convs(), m, user_id@),
            ) =~= Seq::<MessageView>::empty());
        }
        while i < self.messages.len()
            invariant
                self.wf(),
                i <= self.messages@.len(),
                self.msgs().len() == self.messages@.len(),
                count == self.msgs().subrange(0, i as int).filter(
                    |m: MessageView| unread_for(self.convs(), m, user_id@),
                ).len(),
                count <= i,
            decreases self.messages@.len() - i,
        {
            let ghost prefix = self.msgs().subrange(0, i as int);
            let ghost pred = |m: MessageView| unread_for(self.convs(), m, user_id@);
            let not_read = match self.messages[i].status {
                Some(MessageStatus::Read) => false,
                _ => true,
            };
            let mut counts = false;
            if not_read && self.messages[i].sender_id != *user_id {
                match self.find_conversation(&self.messages[i].conversation_id) {
                    Some(ci) => {
                        if self.conversations[ci].contains_participant(user_id) {
                            counts = true;
                        }
                    },
                    None => {},
                }
            }
            if counts {
                count = count + 1;
            }
            proof {
                prefix.lemma_filter_push(self.msgs()[i as int], pred);
                assert(self.msgs().subrange(0, i as int + 1) =~= prefix.push(
                    self.msgs()[i as int],
                ));
                assert(counts == pred(self.msgs()[i as int]));
            }
            i = i + 1;
        }
        proof {
            assert(self.msgs().subrange(0, self.msgs().len() as int) =~= self.msgs());
        }
        count
    }
}

/// A message of this conversation, from another sender, still merely sent.
pub open spec fn deliverable(m: MessageView, cid: Seq<char>, uid: Seq<char>) -> bool {
    m.conversation_id == cid && m.sender_id != uid && m.status == Some(MessageStatus::Sent)
}

/// The delivery flip applied by [`ChatStore::mark_messages_as_delivered`].
pub open spec fn deliver_flip(m: MessageView, cid: Seq<char>, uid: Seq<char>) -> MessageView {
    if deliverable(m, cid, uid) {
        MessageView { status: Some(MessageStatus::Delivered), ..m }
    } else {
        m
    }
}

/// A message of this conversation, from another sender, not yet read.
pub open spec fn readable(m: MessageView, cid: Seq<char>, uid: Seq<char>) -> bool {
    m.conversation_id == cid && m.sender_id != uid && (m.status == Some(MessageStatus::Sent)
        || m.status == Some(MessageStatus::Delivered))
}

/// The read flip applied by [`ChatStore::mark_messages_as_read`].
pub open spec fn read_flip(m: MessageView, cid: Seq<char>, uid: Seq<char>) -> MessageView {
    if readable(m, cid, uid) {
        MessageView { status: Some(MessageStatus::Read), ..m }
    } else {
        m
    }
}

/// A message that counts as unread for `uid`: it sits in a conversation the
/// user participates in, was sent by someone else, and is not yet read.
pub open spec fn unread_for(convs: Seq<ConversationView>, m: MessageView, uid: Seq<char>) -> bool {
    &&& has_conv(convs, m.conversation_id)
    &&& is_participant(conv_at(convs, m.conversation_id), uid)
    &&& m.sender_id != uid
    &&& m.status != Some(MessageStatus::Read)
}

} // verus!

verus! {

/// The views of a message list.
pub open spec fn views_of(s: Seq<Message>) -> Seq<MessageView> {
    s.map_values(|m: Message| m@)
}

/// Nondecreasing timestamp order.
pub open spec fn sorted_by_ts(s: Seq<MessageView>) -> bool {
    forall|i: int, j: int| 0 <= i < j < s.len() ==> s[i].timestamp <= s[j].timestamp
}

/// A message that a history query for `cid` considers: it belongs to the
/// conversation and is strictly older than the reference message when one
/// is given.
pub open spec fn in_history(m: MessageView, cid: Seq<char>, before: Option<MessageView>) -> bool {
    m.conversation_id == cid && (match before {
        Some(b) => m.timestamp < b.timestamp,
        None => true,
    })
}

/// The candidate pool of a history query, in store order.
pub open spec fn history_pool(
    msgs: Seq<MessageView>,
    cid: Seq<char>,
    before: Option<MessageView>,
) -> Seq<MessageView> {
    msgs.filter(|m: MessageView| in_history(m, cid, before))
}

/// An element of the candidate pool is a message of the list that the
/// query considers.
pub proof fn lemma_history_pool_elem(
    msgs: Seq<MessageView>,
    cid: Seq<char>,
    before: Option<MessageView>,
    x: MessageView,
)
    requires
        history_pool(msgs, cid, before).contains(x),
    ensures
        msgs.contains(x),
        in_history(x, cid, before),
    decreases msgs.len(),
{
    reveal(Seq::filter);
    let pool = history_pool(msgs, cid, before);
    if msgs.len() == 0 {
        assert(false);
    } else {
        let dl = msgs.drop_last();
        let sub = history_pool(dl, cid, before);
        if in_history(msgs.last(), cid, before) {
            assert(pool == sub.push(msgs.last()));
            if x == msgs.last() {
                assert(msgs[msgs.len() - 1] == x);
            } else {
                let j = choose|j: int| 0 <= j < pool.len() && pool[j] == x;
                assert(j < sub.len());
                assert(sub[j] == x);
                lemma_history_pool_elem(dl, cid, before, x);
                let i = choose|i: int| 0 <= i < dl.len() && dl[i] == x;
                assert(msgs[i] == x);
            }
        } else {
            assert(pool == sub);
            lemma_history_pool_elem(dl, cid, before, x);
            let i = choose|i: int| 0 <= i < dl.len() && dl[i] == x;
            assert(msgs[i] == x);
        }
    }
}

/// What a history query returns: a sub-multiset of the candidate pool,
/// sorted by nondecreasing timestamp, of the pool's size capped at `lim`,
/// such that any pool message left out is no newer than any returned one.
pub open spec fn history_result(
    sel: Seq<MessageView>,
    msgs: Seq<MessageView>,
    cid: Seq<char>,
    before: Option<MessageView>,
    lim: int,
) -> bool {
    let pool = history_pool(msgs, cid, before);
    &&& sorted_by_ts(sel)
    &&& sel.to_multiset().subset_of(pool.to_multiset())
    &&& sel.len() == (if pool.len() <= lim {
        pool.len() as int
    } else {
        lim
    })
    &&& forall|x: MessageView| pool.to_multiset().count(x) > sel.to_multiset().count(x)
        ==> forall|j: int| 0 <= j < sel.len() ==> x.timestamp <= sel[j].timestamp
}

/// Sorts messages by timestamp, nondecreasing; the multiset of messages is
/// unchanged.
fn sort_messages_by_timestamp(input: Vec<Message>) -> (r: Vec<Message>)
    ensures
        views_of(r@).to_multiset() == views_of(input@).to_multiset(),
        sorted_by_ts(views_of(r@)),
        r@.len() == input@.len(),
{
    let mut v = input;
    let mut out: Vec<Message> = Vec::new();
    proof {
        broadcast use vstd::multiset::group_multiset_axioms;

        assert(views_of(out@) =~= Seq::<MessageView>::empty());
        vstd::seq_lib::to_multiset_len(views_of(out@));
        vstd::multiset::lemma_multiset_empty_len(views_of(out@).to_multiset());
        assert(views_of(out@).to_multiset() =~= Multiset::<MessageView>::empty());
        assert(views_of(out@).to_multiset().add(views_of(v@).to_multiset()) =~= views_of(
            input@,
        ).to_multiset());
    }
    while v.len() > 0
        invariant
            out@.len() + v@.len() == input@.len(),
            views_of(out@).to_multiset().add(views_of(v@).to_multiset()) == views_of(
                input@,
            ).to_multiset(),
            sorted_by_ts(views_of(out@)),
            forall|a: int, b: int| 0 <= a < out@.len() && 0 <= b < v@.len()
                ==> out@[a].timestamp <= v@[b].timestamp,
        decreases v@.len(),
    {
        let mut mi: usize = 0;
        let mut k: usize = 1;
        while k < v.len()
            invariant
                mi < k <= v@.len(),
                v@.len() > 0,
                forall|j: int| 0 <= j < k ==> v@[mi as int].timestamp <= v@[j].timestamp,
            decreases v@.len() - k,
        {
            if v[k].timestamp < v[mi].timestamp {
                mi = k;
            }
            k = k + 1;
        }
        let ghost old_v = v@;
        let ghost old_out = out@;
        let m = v.remove(mi);
        proof {
            broadcast use vstd::multiset::group_multiset_axioms;

            assert(views_of(old_v.remove(mi as int)) =~= views_of(old_v).remove(mi as int));
            vstd::seq_lib::to_multiset_remove(views_of(old_v), mi as int);
            vstd::seq_lib::to_multiset_contains(views_of(old_v), m@);
            assert(views_of(old_v)[mi as int] == m@);
            assert(views_of(old_v).contains(m@));
            assert(views_of(old_out.push(m)) =~= views_of(old_out).push(m@));
            vstd::seq_lib::to_multiset_build(views_of(old_out), m@);
            assert(views_of(old_out).push(m@).to_multiset().add(
                views_of(old_v).remove(mi as int).to_multiset(),
            ) =~= views_of(old_out).to_multiset().add(views_of(old_v).to_multiset()));
        }
        out.push(m);
    }
    proof {
        broadcast use vstd::multiset::group_multiset_axioms;

        assert(views_of(v@) =~= Seq::<MessageView>::empty());
        vstd::seq_lib::to_multiset_len(views_of(v@));
        vstd::multiset::lemma_multiset_empty_len(views_of(v@).to_multiset());
        assert(views_of(v@).to_multiset() =~= Multiset::<MessageView>::empty());
        assert(views_of(out@).to_multiset() =~= views_of(input@).to_multiset());
        vstd::seq_lib::to_multiset_len(views_of(out@));
        vstd::seq_lib::to_multiset_len(views_of(input@));
    }
    out
}

impl ChatStore {
    /// The most recent messages of a conversation, in timestamp order.
    ///
    /// The result holds the newest `limit` messages (50 when no limit is
    /// given) of the conversation — restricted, when `before_id` names a
    /// reference message, to those strictly older than it — sorted by
    /// nondecreasing timestamp: it is a sub-multiset of the candidate pool,
    /// its length is the smaller of `limit` and the pool's size, and any
    /// pool message left out is no newer than any returned one.
    pub fn get_messages(
        &self,
        conversation_id: &String,
        limit: Option<u32>,
        before_id: Option<&String>,
    ) -> (r: Result<Vec<Message>, Error>)
        requires
            self.wf(),
        ensures
            (match before_id {
                Some(b) => has_msg(self.msgs(), b@),
                None => true,
            }) <==> r is Ok,
            r matches Err(e) ==> e is NotFound,
            r matches Ok(v) ==> ({
                let before = match before_id {
                    Some(b) => Some(msg_at(self.msgs(), b@)),
                    None => None,
                };
                let lim: int = match limit {
                    Some(l) => l as int,
                    None => 50,
                };
                history_result(views_of(v@), self.msgs(), conversation_id@, before, lim)
            }),
    {
        let mut before_ts: Option<u64> = None;
        let ghost before: Option<MessageView> = match before_id {
            Some(b) => Some(msg_at(self.msgs(), b@)),
            None => None,
        };
        match before_id {
            Some(bid) => {
                match self.find_message(bid) {
                    Some(bi) => {
                        before_ts = Some(self.messages[bi].timestamp);
                        proof {
                            assert(self.msgs()[bi as int] == msg_at(self.msgs(), bid@));
                        }
                    },
                    None => {
                        return Err(Error::NotFound(String::from_str(
                            "reference message not found",
                        )));
                    },
                }
            },
            None => {},
        }
        let mut pool: Vec<Message> = Vec::new();
        let mut i: usize = 0;
        proof {
            assert(self.msgs().subrange(0, 0) =~= Seq::<MessageView>::empty());
            assert(views_of(pool@) =~= history_pool(
                self.msgs().subrange(0, 0),
                conversation_id@,
                before,
            ));
        }
        while i < self.messages.len()
            invariant
                self.wf(),
                i <= self.messages@.len(),
                self.msgs().len() == self.messages@.len(),
                (match before_ts {
                    Some(t) => before matches Some(b) && b.timestamp == t,
                    None => before is None,
                }),
                views_of(pool@) == history_pool(
                    self.msgs().subrange(0, i as int),
                    conversation_id@,
                    before,
                ),
            decreases self.messages@.len() - i,
        {
            let ghost prefix = self.msgs().subrange(0, i as int);
            let ghost pred = |m: MessageView| in_history(m, conversation_id@, before);
            let older = match before_ts {
                Some(t) => self.messages[i].timestamp < t,
                None => true,
            };
            if self.messages[i].conversation_id == *conversation_id && older {
                pool.push(self.messages[i].clone());
                proof {
                    assert(views_of(pool@) =~= history_pool(prefix, conversation_id@, before).push(
                        self.msgs()[i as int],
                    ));
                }
            }
            proof {
                prefix.lemma_filter_push(self.msgs()[i as int], pred);
                assert(self.msgs().subrange(0, i as int + 1) =~= prefix.push(
                    self.msgs()[i as int],
                ));
            }
            i = i + 1;
        }
        proof {
            assert(self.msgs().subrange(0, self.msgs().len() as int) =~= self.msgs());
        }
        let ghost pool_views = history_pool(self.msgs(), conversation_id@, before);
        let mut sorted = sort_messages_by_timestamp(pool);
        let lim: usize = match limit {
            Some(l) => l as usize,
            None => 50,
        };
        if sorted.len() <= lim {
            proof {
                broadcast use vstd::multiset::group_multiset_axioms;

                vstd::seq_lib::to_multiset_len(views_of(sorted@));
                vstd::seq_lib::to_multiset_len(pool_views);
            }
            Ok(sorted)
        } else {
            let ghost whole = sorted@;
            let at = sorted.len() - lim;
            let result = sorted.split_off(at);
            proof {
                broadcast use vstd::multiset::group_multiset_axioms;

                let wv = views_of(whole);
                let head = views_of(whole.subrange(0, at as int));
                let tailv = views_of(result@);
                assert(whole =~= whole.subrange(0, at as int) + result@);
                assert(wv =~= head + tailv);
                vstd::seq_lib::lemma_multiset_commutative(head, tailv);
                vstd::seq_lib::to_multiset_len(wv);
                vstd::seq_lib::to_multiset_len(pool_views);
                vstd::seq_lib::to_multiset_len(tailv);
                assert(wv.to_multiset() == pool_views.to_multiset());
                assert forall|p: int, q: int| 0 <= p < q < tailv.len() implies tailv[p].timestamp
                    <= tailv[q].timestamp by {
                    assert(tailv[p] == wv[at as int + p]);
                    assert(tailv[q] == wv[at as int + q]);
                }
                assert(sorted_by_ts(tailv));
                assert forall|x: MessageView|
                    pool_views.to_multiset().count(x) > tailv.to_multiset().count(x)
                        implies forall|j: int| 0 <= j < result@.len() ==> x.timestamp
                        <= result@[j].timestamp by {
                    assert(wv.to_multiset().count(x) == head.to_multiset().count(x)
                        + tailv.to_multiset().count(x));
                    assert(head.to_multiset().count(x) > 0);
                    vstd::seq_lib::to_multiset_contains(head, x);
                    assert(head.contains(x));
                    let a = choose|a: int| 0 <= a < head.len() && head[a] == x;
                    assert forall|j: int| 0 <= j < result@.len() implies x.timestamp
                        <= result@[j].timestamp by {
                        assert(wv[a] == x);
                        assert(wv[at as int + j] == tailv[j]);
                        assert(tailv[j] == result@[j]@);
                        assert(wv[a].timestamp <= wv[at as int + j].timestamp);
                    }
                }
            }
            Ok(result)
        }
    }
}

} // verus!
