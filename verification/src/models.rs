//! The persisted chat entities: conversations, messages, and the request
//! shapes used to create or update them.

use vstd::prelude::*;

verus! {

/// The kind of content a message body carries.
#[derive(Clone, Copy, Debug, PartialEq, Eq, Structural)]
pub enum MessageType {
    Text,
    Image,
    File,
    Voice,
}

/// The single, monotonically forward-moving delivery status of a message.
#[derive(Clone, Copy, Debug, PartialEq, Eq, Structural)]
pub enum MessageStatus {
    Sent,
    Delivered,
    Read,
}

impl MessageStatus {
    /// The stored label of the status, in place of `Display`.
    pub fn label(&self) -> (r: String)
        ensures
            *self is Sent ==> r@ == "Sent"@,
            *self is Delivered ==> r@ == "Delivered"@,
            *self is Read ==> r@ == "Read"@,
    {
        match self {
            MessageStatus::Sent => String::from_str("Sent"),
            MessageStatus::Delivered => String::from_str("Delivered"),
            MessageStatus::Read => String::from_str("Read"),
        }
    }
}

#[derive(Clone, Copy, Debug, PartialEq, Eq, Structural)]
pub enum ConversationType {
    Direct,
    Group,
}

/// Clones a list of identifiers; the view is unchanged.
pub fn clone_string_vec(v: &Vec<String>) -> (r: Vec<String>)
    ensures
        r@ == v@,
{
    let mut r: Vec<String> = Vec::new();
    let mut i: usize = 0;
    while i < v.len()
        invariant
            i <= v@.len(),
            r@.len() == i,
            forall|j: int| 0 <= j < i ==> r@[j] == v@[j],
        decreases v@.len() - i,
    {
        r.push(v[i].clone());
        i = i + 1;
    }
    proof {
        assert(r@ =~= v@);
    }
    r
}

/// Clones an optional string; the value is unchanged.
pub fn clone_opt_string(v: &Option<String>) -> (r: Option<String>)
    ensures
        r == *v,
{
    match v {
        Some(s) => Some(s.clone()),
        None => None,
    }
}

/// The mathematical value of a [`Message`]: every string as its character
/// sequence.
pub struct MessageView {
    pub id: Seq<char>,
    pub conversation_id: Seq<char>,
    pub sender_id: Seq<char>,
    pub content: Seq<char>,
    pub content_type: MessageType,
    pub timestamp: u64,
    pub status: Option<MessageStatus>,
    pub encrypted: bool,
    pub media_url: Option<Seq<char>>,
}

/// A persisted message.
pub struct Message {
    pub id: String,
    pub conversation_id: String,
    pub sender_id: String,
    pub content: String,
    pub content_type: MessageType,
    pub timestamp: u64,
    pub status: Option<MessageStatus>,
    pub encrypted: bool,
    pub media_url: Option<String>,
}

impl View for Message {
    type V = MessageView;

    open spec fn view(&self) -> MessageView {
        MessageView {
            id: self.id@,
            conversation_id: self.conversation_id@,
            sender_id: self.sender_id@,
            content: self.content@,
            content_type: self.content_type,
            timestamp: self.timestamp,
            status: self.status,
            encrypted: self.encrypted,
            media_url: self.media_url.deep_view(),
        }
    }
}

impl Clone for Message {
    fn clone(&self) -> (r: Self)
        ensures
            r == *self,
    {
        Message {
            id: self.id.clone(),
            conversation_id: self.conversation_id.clone(),
            sender_id: self.sender_id.clone(),
            content: self.content.clone(),
            content_type: self.content_type,
            timestamp: self.timestamp,
            status: self.status,
            encrypted: self.encrypted,
            media_url: clone_opt_string(&self.media_url),
        }
    }
}

/// A persisted conversation: at least two participants, mutated only
/// through explicit add/remove operations.
pub struct Conversation {
    pub id: String,
    pub name: Option<String>,
    pub conversation_type: ConversationType,
    pub participants: Vec<String>,
    pub created_at: u64,
    pub updated_at: u64,
    pub last_message: Option<Message>,
    pub encryption_enabled: bool,
}

/// The mathematical value of a [`Conversation`].
pub struct ConversationView {
    pub id: Seq<char>,
    pub name: Option<Seq<char>>,
    pub conversation_type: ConversationType,
    pub participants: Seq<Seq<char>>,
    pub created_at: u64,
    pub updated_at: u64,
    pub last_message: Option<MessageView>,
    pub encryption_enabled: bool,
}

impl View for Conversation {
    type V = ConversationView;

    open spec fn view(&self) -> ConversationView {
        ConversationView {
            id: self.id@,
            name: self.name.deep_view(),
            conversation_type: self.conversation_type,
            participants: self.participants.deep_view(),
            created_at: self.created_at,
            updated_at: self.updated_at,
            last_message: match self.last_message {
                Some(m) => Some(m@),
                None => None,
            },
            encryption_enabled: self.encryption_enabled,
        }
    }
}

/// `u` is among the participants of `c`.
pub open spec fn is_participant(c: ConversationView, u: Seq<char>) -> bool {
    exists|i: int| 0 <= i < c.participants.len() && c.participants[i] == u
}

/// `u` occurs in the identifier list `s`.
pub open spec fn seq_contains_str(s: Seq<String>, u: Seq<char>) -> bool {
    exists|i: int| 0 <= i < s.len() && s[i]@ == u
}

/// Whether `u` occurs in the identifier list `v`.
pub fn vec_contains_string(v: &Vec<String>, u: &String) -> (r: bool)
    ensures
        r == seq_contains_str(v@, u@),
{
    let mut i: usize = 0;
    while i < v.len()
        invariant
            i <= v@.len(),
            forall|j: int| 0 <= j < i ==> v@[j]@ != u@,
        decreases v@.len() - i,
    {
        if v[i] == *u {
            return true;
        }
        i = i + 1;
    }
    false
}

impl Conversation {
    /// Whether `user` is one of this conversation's participants.
    pub fn contains_participant(&self, user: &String) -> (r: bool)
        ensures
            r == is_participant(self@, user@),
    {
        let r = vec_contains_string(&self.participants, user);
        proof {
            let dv = self.participants.deep_view();
            assert(dv.len() == self.participants@.len());
            assert(forall|i: int| 0 <= i < dv.len() ==> dv[i]
                == #[trigger] self.participants@[i]@);
            if seq_contains_str(self.participants@, user@) {
                let i = choose|i: int|
                    0 <= i < self.participants@.len() && self.participants@[i]@ == user@;
                assert(dv[i] == user@);
            }
            if is_participant(self@, user@) {
                let i = choose|i: int| 0 <= i < dv.len() && dv[i] == user@;
                assert(self.participants@[i]@ == user@);
            }
        }
        r
    }
}

impl Clone for Conversation {
    fn clone(&self) -> (r: Self)
        ensures
            r@ == self@,
            r.participants@ == self.participants@,
    {
        let r = Conversation {
            id: self.id.clone(),
            name: clone_opt_string(&self.name),
            conversation_type: self.conversation_type,
            participants: clone_string_vec(&self.participants),
            created_at: self.created_at,
            updated_at: self.updated_at,
            last_message: match &self.last_message {
                Some(m) => Some(m.clone()),
                None => None,
            },
            encryption_enabled: self.encryption_enabled,
        };
        proof {
            assert(r.participants@ =~= self.participants@);
            assert(r@ =~= self@);
        }
        r
    }
}

/// The request shape for sending a new message.
pub struct NewMessage {
    pub conversation_id: String,
    pub sender_id: String,
    pub content: String,
    pub content_type: MessageType,
    pub media_url: Option<String>,
    pub encrypted: bool,
}

/// The request shape for creating a new conversation.
pub struct NewConversation {
    pub name: Option<String>,
    pub conversation_type: ConversationType,
    pub participants: Vec<String>,
    pub encryption_enabled: bool,
}

/// The request shape for updating a message's delivery status.
pub struct MessageStatusUpdate {
    pub message_id: String,
    pub user_id: String,
    pub status: MessageStatus,
}

} // verus!
