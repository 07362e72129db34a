//! The wire envelope: the typed message wrapper exchanged over the relay
//! connection. Unknown message types decode to an explicit `Unrecognized`
//! variant rather than failing parse; the opaque payload rides along
//! untouched.

use vstd::prelude::*;

verus! {

/// The envelope's type tag, one variant per message kind.
#[derive(Clone, Copy, Debug, PartialEq, Eq, Structural)]
pub enum EnvelopeType {
    UserStatus,
    NewMessage,
    MessageStatusUpdate,
    WebRTCSignal,
    TypingIndicator,
    ConversationUpdated,
    GroupMemberAdded,
    GroupMemberRemoved,
    SystemNotification,
    Unrecognized,
}

/// The mathematical value of an [`Envelope`].
pub struct EnvelopeView {
    pub message_type: EnvelopeType,
    pub sender_id: Seq<char>,
    pub conversation_id: Option<Seq<char>>,
    pub recipient_id: Option<Seq<char>>,
    pub message_id: Option<Seq<char>>,
    pub recipients: Seq<Seq<char>>,
    pub participants: Seq<Seq<char>>,
    pub original_sender_id: Option<Seq<char>>,
    pub payload: Option<Seq<char>>,
    pub timestamp: Seq<char>,
}

/// A decoded wire envelope. The `recipients`, `participants` and
/// `original_sender_id` fields carry what the typed payload holds for the
/// kinds that use them; `payload` carries the rest of the payload verbatim.
pub struct Envelope {
    pub message_type: EnvelopeType,
    pub sender_id: String,
    pub conversation_id: Option<String>,
    pub recipient_id: Option<String>,
    pub message_id: Option<String>,
    pub recipients: Vec<String>,
    pub participants: Vec<String>,
    pub original_sender_id: Option<String>,
    pub payload: Option<String>,
    pub timestamp: String,
}

impl View for Envelope {
    type V = EnvelopeView;

    open spec fn view(&self) -> EnvelopeView {
        EnvelopeView {
            message_type: self.message_type,
            sender_id: self.sender_id@,
            conversation_id: self.conversation_id.deep_view(),
            recipient_id: self.recipient_id.deep_view(),
            message_id: self.message_id.deep_view(),
            recipients: self.recipients.deep_view(),
            participants: self.participants.deep_view(),
            original_sender_id: self.original_sender_id.deep_view(),
            payload: self.payload.deep_view(),
            timestamp: self.timestamp@,
        }
    }
}

impl Clone for Envelope {
    fn clone(&self) -> (r: Self)
        ensures
            r@ == self@,
    {
        let r = Envelope {
            message_type: self.message_type,
            sender_id: self.sender_id.clone(),
            conversation_id: crate::models::clone_opt_string(&self.conversation_id),
            recipient_id: crate::models::clone_opt_string(&self.recipient_id),
            message_id: crate::models::clone_opt_string(&self.message_id),
            recipients: crate::models::clone_string_vec(&self.recipients),
            participants: crate::models::clone_string_vec(&self.participants),
            original_sender_id: crate::models::clone_opt_string(&self.original_sender_id),
            payload: crate::models::clone_opt_string(&self.payload),
            timestamp: self.timestamp.clone(),
        };
        proof {
            assert(r.recipients.deep_view() =~= self.recipients.deep_view());
            assert(r.participants.deep_view() =~= self.participants.deep_view());
            assert(r@ =~= self@);
        }
        r
    }
}

} // verus!
