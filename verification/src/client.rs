//! The client reconnection state machine: one logical connection to the
//! relay, an authentication handshake, heartbeats, bounded reconnection
//! attempts, and a local buffer for messages composed while disconnected.
//!
//! The hosting layer owns the transport; it feeds connection events in and
//! performs the actions this core decides.

use vstd::prelude::*;
use crate::envelope::{Envelope, EnvelopeType};
use crate::errors::Error;
use crate::models::{Message, MessageView};

verus! {

/// The connection lifecycle of the client.
#[derive(Clone, Copy, Debug, PartialEq, Eq, Structural)]
pub enum ConnectionStatus {
    /// No connection, and no attempt scheduled.
    Disconnected,
    /// A transport connection is being opened.
    Connecting,
    /// Connected and authenticated.
    Connected,
    /// A reconnection attempt is scheduled after a failure.
    Reconnecting,
}

/// The client's configuration surface, consumed as plain values.
pub struct WebSocketConfig {
    /// The relay URL.
    pub server_url: String,
    /// The heartbeat interval in milliseconds.
    pub heartbeat_interval_ms: u64,
    /// How many automatic reconnection attempts are made before the client
    /// stays disconnected until a manual connect.
    pub max_reconnect_attempts: u32,
    /// The delay before a scheduled reconnection attempt, in milliseconds.
    pub reconnect_delay_ms: u64,
}

impl Default for WebSocketConfig {
    fn default() -> (r: Self)
        ensures
            r.heartbeat_interval_ms == 30000,
            r.max_reconnect_attempts == 5,
            r.reconnect_delay_ms == 3000,
    {
        WebSocketConfig {
            server_url: String::from_str("wss://smartlink-server-production.up.railway.app"),
            heartbeat_interval_ms: 30000,
            max_reconnect_attempts: 5,
            reconnect_delay_ms: 3000,
        }
    }
}

/// The local buffer of messages composed while not connected, awaiting an
/// explicit flush by the caller.
pub struct MessageCache {
    pending_messages: Vec<Message>,
}

impl View for MessageCache {
    type V = Seq<MessageView>;

    closed spec fn view(&self) -> Seq<MessageView> {
        self.pending_messages@.map_values(|m: Message| m@)
    }
}

impl MessageCache {
    pub fn new() -> (r: Self)
        ensures
            r@ == Seq::<MessageView>::empty(),
    {
        let r = MessageCache { pending_messages: Vec::new() };
        proof {
            assert(r@ =~= Seq::<MessageView>::empty());
        }
        r
    }

    /// Appends one message to the buffer.
    pub fn add_message(&mut self, message: Message)
        ensures
            final(self)@ == old(self)@.push(message@),
    {
        proof {
            assert(self.pending_messages@.push(message).map_values(|m: Message| m@)
                =~= self@.push(message@));
        }
        self.pending_messages.push(message);
    }

    /// Hands out everything buffered and leaves the buffer empty.
    pub fn take_pending_messages(&mut self) -> (r: Vec<Message>)
        ensures
            r@.map_values(|m: Message| m@) == old(self)@,
            final(self)@ == Seq::<MessageView>::empty(),
    {
        let mut taken: Vec<Message> = Vec::new();
        core::mem::swap(&mut taken, &mut self.pending_messages);
        proof {
            assert(final(self)@ =~= Seq::<MessageView>::empty());
        }
        taken
    }
}

/// The decision core of the client: status, identity, attempt budget, and
/// the local buffer. The transitions follow the reconnect design: connect
/// from `Disconnected` or `Reconnecting` only, bounded automatic retries,
/// and a heartbeat that stops as soon as the status leaves `Connected`.
pub struct ClientCore {
    status: ConnectionStatus,
    user_id: Option<String>,
    attempts: u32,
    max_attempts: u32,
    cache: MessageCache,
}

impl ClientCore {
    /// The current connection status.
    pub closed spec fn status(&self) -> ConnectionStatus {
        self.status
    }

    /// The identity this client connects as, once a connect was requested.
    pub closed spec fn user(&self) -> Option<Seq<char>> {
        match self.user_id {
            Some(u) => Some(u@),
            None => None,
        }
    }

    /// How many automatic reconnection attempts have been spent.
    pub closed spec fn attempts(&self) -> u32 {
        self.attempts
    }

    pub closed spec fn max_attempts(&self) -> u32 {
        self.max_attempts
    }

    /// The locally buffered messages.
    pub closed spec fn buffered(&self) -> Seq<MessageView> {
        self.cache@
    }

    pub fn new(max_reconnect_attempts: u32) -> (r: Self)
        ensures
            r.status() is Disconnected,
            r.user() is None,
            r.attempts() == 0,
            r.max_attempts() == max_reconnect_attempts,
            r.buffered() == Seq::<MessageView>::empty(),
    {
        ClientCore {
            status: ConnectionStatus::Disconnected,
            user_id: None,
            attempts: 0,
            max_attempts: max_reconnect_attempts,
            cache: MessageCache::new(),
        }
    }

    /// A manual connect request: valid only while `Disconnected` or
    /// `Reconnecting`; the client then starts opening the transport.
    pub fn connect(&mut self, user_id: String) -> (r: Result<(), Error>)
        ensures
            (old(self).status() is Disconnected || old(self).status() is Reconnecting) <==> r is Ok,
            r is Ok ==> final(self).status() is Connecting && final(self).user() == Some(user_id@)
                && final(self).attempts() == old(self).attempts(),
            r is Err ==> *final(self) == *old(self),
            r matches Err(e) ==> e is Validation,
            final(self).buffered() == old(self).buffered(),
            final(self).max_attempts() == old(self).max_attempts(),
    {
        match self.status {
            ConnectionStatus::Disconnected => {},
            ConnectionStatus::Reconnecting => {},
            _ => {
                return Err(Error::Validation(String::from_str(
                    "connect is valid only while disconnected",
                )));
            },
        }
        self.status = ConnectionStatus::Connecting;
        self.user_id = Some(user_id);
        Ok(())
    }

    /// The transport opened and the identity claim was sent: connected, and
    /// the attempt budget is reset.
    pub fn transport_opened(&mut self)
        requires
            old(self).status() is Connecting,
        ensures
            final(self).status() is Connected,
            final(self).attempts() == 0,
            final(self).user() == old(self).user(),
            final(self).buffered() == old(self).buffered(),
            final(self).max_attempts() == old(self).max_attempts(),
    {
        self.status = ConnectionStatus::Connected;
        self.attempts = 0;
    }

    /// Opening the transport failed. Within the attempt budget another
    /// attempt is scheduled; beyond it the client stays disconnected until a
    /// manual connect.
    pub fn transport_failed(&mut self) -> (retry: bool)
        requires
            old(self).status() is Connecting,
        ensures
            retry == (old(self).attempts() < old(self).max_attempts()),
            retry ==> final(self).status() is Reconnecting && final(self).attempts() == old(
                self,
            ).attempts() + 1,
            !retry ==> final(self).status() is Disconnected && final(self).attempts() == old(
                self,
            ).attempts(),
            final(self).user() == old(self).user(),
            final(self).buffered() == old(self).buffered(),
            final(self).max_attempts() == old(self).max_attempts(),
    {
        if self.attempts < self.max_attempts {
            self.attempts = self.attempts + 1;
            self.status = ConnectionStatus::Reconnecting;
            true
        } else {
            self.status = ConnectionStatus::Disconnected;
            false
        }
    }

    /// The transport closed or failed while connected. Within the attempt
    /// budget a reconnection is scheduled; beyond it the client stays
    /// disconnected until a manual connect.
    pub fn connection_lost(&mut self) -> (retry: bool)
        requires
            old(self).status() is Connected,
        ensures
            retry == (old(self).attempts() < old(self).max_attempts()),
            retry ==> final(self).status() is Reconnecting && final(self).attempts() == old(
                self,
            ).attempts() + 1,
            !retry ==> final(self).status() is Disconnected && final(self).attempts() == old(
                self,
            ).attempts(),
            final(self).user() == old(self).user(),
            final(self).buffered() == old(self).buffered(),
            final(self).max_attempts() == old(self).max_attempts(),
    {
        if self.attempts < self.max_attempts {
            self.attempts = self.attempts + 1;
            self.status = ConnectionStatus::Reconnecting;
            true
        } else {
            self.status = ConnectionStatus::Disconnected;
            false
        }
    }

    /// A heartbeat tick: a ping goes out exactly while connected; otherwise
    /// the heartbeat task exits.
    pub fn heartbeat_tick(&self) -> (send_ping: bool)
        ensures
            send_ping == (self.status() is Connected),
    {
        match self.status {
            ConnectionStatus::Connected => true,
            _ => false,
        }
    }

    /// A manual disconnect: valid from `Connected` or `Reconnecting`; stops
    /// the heartbeat and send tasks.
    pub fn disconnect(&mut self) -> (r: Result<(), Error>)
        ensures
            (old(self).status() is Connected || old(self).status() is Reconnecting) <==> r is Ok,
            r is Ok ==> final(self).status() is Disconnected,
            r is Err ==> *final(self) == *old(self),
            r matches Err(e) ==> e is Validation,
            final(self).user() == old(self).user(),
            final(self).buffered() == old(self).buffered(),
            final(self).max_attempts() == old(self).max_attempts(),
    {
        match self.status {
            ConnectionStatus::Connected => {},
            ConnectionStatus::Reconnecting => {},
            _ => {
                return Err(Error::Validation(String::from_str("Already disconnected")));
            },
        }
        self.status = ConnectionStatus::Disconnected;
        Ok(())
    }

    /// An outbound message composed by the application: while connected it
    /// is handed to the transport; otherwise it is buffered locally and not
    /// sent until the caller explicitly flushes.
    pub fn compose_message(&mut self, message: Message) -> (sent: bool)
        ensures
            sent == (old(self).status() is Connected),
            sent ==> final(self).buffered() == old(self).buffered(),
            !sent ==> final(self).buffered() == old(self).buffered().push(message@),
            final(self).status() == old(self).status(),
            final(self).user() == old(self).user(),
            final(self).attempts() == old(self).attempts(),
            final(self).max_attempts() == old(self).max_attempts(),
    {
        let connected = match self.status {
            ConnectionStatus::Connected => true,
            _ => false,
        };
        if connected {
            true
        } else {
            self.cache.add_message(message);
            false
        }
    }

    /// Hands out the locally buffered messages for an explicit flush.
    pub fn take_pending_messages(&mut self) -> (r: Vec<Message>)
        ensures
            r@.map_values(|m: Message| m@) == old(self).buffered(),
            final(self).buffered() == Seq::<MessageView>::empty(),
            final(self).status() == old(self).status(),
            final(self).user() == old(self).user(),
            final(self).attempts() == old(self).attempts(),
            final(self).max_attempts() == old(self).max_attempts(),
    {
        self.cache.take_pending_messages()
    }

    /// The current status, for the hosting UI.
    pub fn get_status(&self) -> (r: ConnectionStatus)
        ensures
            r == self.status(),
    {
        self.status
    }
}

/// The relay envelope announcing a composed chat message: the sender,
/// conversation and message id ride in the envelope's routing fields, the
/// body stays in the payload for the store to persist.
pub fn envelope_for_message(message: &Message, timestamp: String) -> (r: Envelope)
    ensures
        r@.message_type is NewMessage,
        r@.sender_id == message@.sender_id,
        r@.conversation_id == Some(message@.conversation_id),
        r@.message_id == Some(message@.id),
        r@.payload == Some(message@.content),
        r@.timestamp == timestamp@,
{
    Envelope {
        message_type: EnvelopeType::NewMessage,
        sender_id: message.sender_id.clone(),
        conversation_id: Some(message.conversation_id.clone()),
        recipient_id: None,
        message_id: Some(message.id.clone()),
        recipients: Vec::new(),
        participants: Vec::new(),
        original_sender_id: None,
        payload: Some(message.content.clone()),
        timestamp,
    }
}

/// The identity-claim envelope that binds a fresh connection to a user: the
/// mandatory first frame.
pub fn create_auth_message(user_id: &String, timestamp: String) -> (r: Envelope)
    ensures
        r@.message_type is UserStatus,
        r@.sender_id == user_id@,
        r@.payload matches Some(p) && p == "online"@,
        r@.timestamp == timestamp@,
{
    Envelope {
        message_type: EnvelopeType::UserStatus,
        sender_id: user_id.clone(),
        conversation_id: None,
        recipient_id: None,
        message_id: None,
        recipients: Vec::new(),
        participants: Vec::new(),
        original_sender_id: None,
        payload: Some(String::from_str("online")),
        timestamp,
    }
}

} // verus!
