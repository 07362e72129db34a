//! The message-routing engine: per-connection handshake, envelope
//! classification and recipient resolution, delivery to online recipients,
//! offline queueing, and replay on reconnect.
//!
//! The hosting layer performs the actual transport sends; this core decides,
//! for every inbound envelope, who receives what and what is queued.

use vstd::prelude::*;
use crate::envelope::{Envelope, EnvelopeType, EnvelopeView};
use crate::queue::{OfflineQueue, PendingOfflineEvent, PendingView};
use crate::registry::ConnectionRegistry;
use crate::strmap::StrMap;

verus! {

/// Two pointwise-equal predicates filter a sequence identically.
pub proof fn lemma_filter_equiv<A>(s: Seq<A>, p: spec_fn(A) -> bool, q: spec_fn(A) -> bool)
    requires
        forall|x: A| #[trigger] p(x) == q(x),
    ensures
        s.filter(p) == s.filter(q),
    decreases s.len(),
{
    reveal(Seq::filter);
    if s.len() > 0 {
        lemma_filter_equiv(s.drop_last(), p, q);
        assert(p(s.last()) == q(s.last()));
        assert(s.filter(p) =~= s.filter(q));
    } else {
        assert(s.filter(p) =~= s.filter(q));
    }
}

/// One decided delivery: this envelope goes to this recipient's handle.
pub struct Delivery {
    pub recipient: String,
    pub handle: u64,
    pub envelope: Envelope,
}

/// The targets an envelope addresses directly: the explicit recipient
/// first, else the payload's recipient list without the sender, else — when
/// a conversation is named and known — all its participants except the
/// sender.
pub open spec fn direct_targets(
    directory: Map<Seq<char>, Seq<Seq<char>>>,
    env: EnvelopeView,
) -> Seq<Seq<char>> {
    if env.recipient_id is Some {
        seq![env.recipient_id->0]
    } else if env.recipients.len() > 0 {
        env.recipients.filter(|r: Seq<char>| r != env.sender_id)
    } else {
        match env.conversation_id {
            Some(c) => if directory.contains_key(c) {
                directory[c].filter(|p: Seq<char>| p != env.sender_id)
            } else {
                Seq::empty()
            },
            None => Seq::empty(),
        }
    }
}

/// The recipients an envelope resolves to, by its type: the dispatch table
/// of the router.
pub open spec fn resolved_recipients(
    senders: Map<Seq<char>, Seq<char>>,
    directory: Map<Seq<char>, Seq<Seq<char>>>,
    env: EnvelopeView,
) -> Seq<Seq<char>> {
    match env.message_type {
        EnvelopeType::NewMessage => direct_targets(directory, env),
        EnvelopeType::MessageStatusUpdate => match env.original_sender_id {
            Some(o) => seq![o],
            None => match env.message_id {
                Some(mid) => if senders.contains_key(mid) {
                    seq![senders[mid]]
                } else {
                    Seq::empty()
                },
                None => Seq::empty(),
            },
        },
        EnvelopeType::WebRTCSignal => match env.recipient_id {
            Some(rid) => seq![rid],
            None => Seq::empty(),
        },
        EnvelopeType::TypingIndicator => env.recipients.filter(
            |r: Seq<char>| r != env.sender_id,
        ),
        EnvelopeType::ConversationUpdated => env.participants.filter(
            |p: Seq<char>| p != env.sender_id,
        ),
        EnvelopeType::GroupMemberAdded => env.participants.filter(
            |p: Seq<char>| p != env.sender_id,
        ),
        EnvelopeType::GroupMemberRemoved => env.participants.filter(
            |p: Seq<char>| p != env.sender_id,
        ),
        EnvelopeType::SystemNotification => match env.recipient_id {
            Some(rid) => seq![rid],
            None => Seq::empty(),
        },
        EnvelopeType::UserStatus => Seq::empty(),
        EnvelopeType::Unrecognized => Seq::empty(),
    }
}

/// An envelope type whose events are meaningful to replay after a
/// reconnect; transient signals are not queued.
pub open spec fn is_queueable(t: EnvelopeType) -> bool {
    match t {
        EnvelopeType::NewMessage => true,
        EnvelopeType::MessageStatusUpdate => true,
        EnvelopeType::ConversationUpdated => true,
        EnvelopeType::GroupMemberAdded => true,
        EnvelopeType::GroupMemberRemoved => true,
        EnvelopeType::SystemNotification => true,
        EnvelopeType::UserStatus => false,
        EnvelopeType::WebRTCSignal => false,
        EnvelopeType::TypingIndicator => false,
        EnvelopeType::Unrecognized => false,
    }
}

/// What a recipient receives: the envelope verbatim, except that a status
/// update carries the resolved target as its recipient.
pub open spec fn delivered_envelope(env: EnvelopeView, target: Seq<char>) -> EnvelopeView {
    if env.message_type is MessageStatusUpdate {
        EnvelopeView { recipient_id: Some(target), ..env }
    } else {
        env
    }
}

/// `u` participates in conversation `c` according to the directory.
pub open spec fn participates(
    directory: Map<Seq<char>, Seq<Seq<char>>>,
    u: Seq<char>,
    c: Seq<char>,
) -> bool {
    directory.contains_key(c) && directory[c].contains(u)
}

/// Routing determinism: a `NewMessage` envelope that names a known
/// conversation and no explicit recipients resolves to exactly the
/// conversation's participants other than the sender.
pub proof fn lemma_routing_determinism(
    senders: Map<Seq<char>, Seq<char>>,
    directory: Map<Seq<char>, Seq<Seq<char>>>,
    env: EnvelopeView,
)
    requires
        env.message_type is NewMessage,
        env.recipient_id is None,
        env.recipients.len() == 0,
        env.conversation_id matches Some(c) && directory.contains_key(c),
    ensures
        resolved_recipients(senders, directory, env) == directory[env.conversation_id->0].filter(
            |p: Seq<char>| p != env.sender_id,
        ),
{
}

/// Status routing: a `MessageStatusUpdate` that omits the original sender
/// still resolves to exactly the recorded sender of the message it
/// addresses, provided that message id was seen in an earlier `NewMessage`.
pub proof fn lemma_status_routing(
    senders: Map<Seq<char>, Seq<char>>,
    directory: Map<Seq<char>, Seq<Seq<char>>>,
    env: EnvelopeView,
)
    requires
        env.message_type is MessageStatusUpdate,
        env.original_sender_id is None,
        env.message_id matches Some(mid) && senders.contains_key(mid),
    ensures
        resolved_recipients(senders, directory, env) == seq![senders[env.message_id->0]],
{
}

/// The routing core: the connection registry, the (message id → sender)
/// record for status routing, the conversation directory, and the offline
/// backlog.
pub struct RouterCore {
    registry: ConnectionRegistry,
    senders: StrMap<String>,
    directory: StrMap<Vec<String>>,
    queue: OfflineQueue,
}

impl RouterCore {
    pub closed spec fn wf(&self) -> bool {
        &&& self.registry.wf()
        &&& self.senders.wf()
        &&& self.directory.wf()
        &&& self.queue.wf()
    }

    /// Who is online, and under which handle.
    pub closed spec fn online(&self) -> Map<Seq<char>, u64> {
        self.registry@
    }

    /// Which sender each seen message id belongs to.
    pub closed spec fn senders_view(&self) -> Map<Seq<char>, Seq<char>> {
        Map::new(
            |k: Seq<char>| self.senders@.contains_key(k),
            |k: Seq<char>| self.senders@[k]@,
        )
    }

    /// The participants of each known conversation.
    pub closed spec fn dir(&self) -> Map<Seq<char>, Seq<Seq<char>>> {
        Map::new(
            |k: Seq<char>| self.directory@.contains_key(k),
            |k: Seq<char>| self.directory@[k].deep_view(),
        )
    }

    /// The queued offline events, in arrival order.
    pub closed spec fn backlog(&self) -> Seq<PendingView> {
        self.queue@
    }

    /// The next offline-event id.
    pub closed spec fn backlog_next(&self) -> u64 {
        self.queue.next()
    }

    pub fn new() -> (r: Self)
        ensures
            r.wf(),
            r.online() == Map::<Seq<char>, u64>::empty(),
            r.senders_view() == Map::<Seq<char>, Seq<char>>::empty(),
            r.dir() == Map::<Seq<char>, Seq<Seq<char>>>::empty(),
            r.backlog() == Seq::<PendingView>::empty(),
            r.backlog_next() == 0,
    {
        let r = RouterCore {
            registry: ConnectionRegistry::new(),
            senders: StrMap::new(),
            directory: StrMap::new(),
            queue: OfflineQueue::new(),
        };
        proof {
            assert(r.senders_view() =~= Map::<Seq<char>, Seq<char>>::empty());
            assert(r.dir() =~= Map::<Seq<char>, Seq<Seq<char>>>::empty());
        }
        r
    }

    /// The next offline-event id, so the hosting layer can watch the
    /// counter's machine limit before asking for more routing.
    pub fn backlog_next_id(&self) -> (r: u64)
        ensures
            r == self.backlog_next(),
    {
        self.queue.next_event_id()
    }

    /// Makes a conversation's participant list known to the router, for
    /// conversation-wide recipient resolution and for replay on reconnect.
    pub fn register_conversation(&mut self, conversation_id: String, participants: Vec<String>)
        requires
            old(self).wf(),
        ensures
            final(self).wf(),
            final(self).dir() == old(self).dir().insert(
                conversation_id@,
                participants.deep_view(),
            ),
            final(self).online() == old(self).online(),
            final(self).senders_view() == old(self).senders_view(),
            final(self).backlog() == old(self).backlog(),
            final(self).backlog_next() == old(self).backlog_next(),
    {
        let ghost dv = participants.deep_view();
        self.directory.insert(conversation_id, participants);
        proof {
            assert(final(self).dir() =~= old(self).dir().insert(conversation_id@, dv));
            assert(final(self).senders_view() =~= old(self).senders_view());
        }
    }

    /// Registers a user's connection and hands back the backlog of every
    /// conversation the user participates in, for replay. Queued events are
    /// not deleted here: the hosting layer confirms each successful send
    /// through [`RouterCore::confirm_delivered`], so delivery is at least
    /// once.
    pub fn on_connect(&mut self, user_id: &String, handle: u64) -> (replay: Vec<
        PendingOfflineEvent,
    >)
        requires
            old(self).wf(),
        ensures
            final(self).wf(),
            final(self).online() == old(self).online().insert(user_id@, handle),
            final(self).senders_view() == old(self).senders_view(),
            final(self).dir() == old(self).dir(),
            final(self).backlog() == old(self).backlog(),
            final(self).backlog_next() == old(self).backlog_next(),
            replay@.map_values(|e: PendingOfflineEvent| e@) == old(self).backlog().filter(
                |e: PendingView| participates(old(self).dir(), user_id@, e.conversation_id),
            ),
    {
        self.registry.add_user_connection(user_id.clone(), handle);
        let mut replay: Vec<PendingOfflineEvent> = Vec::new();
        let mut i: usize = 0;
        let ghost pred = |e: PendingView| participates(self.dir(), user_id@, e.conversation_id);
        proof {
            assert(self.backlog().subrange(0, 0) =~= Seq::<PendingView>::empty());
            assert(replay@.map_values(|e: PendingOfflineEvent| e@) =~= Seq::<
                PendingView,
            >::empty().filter(pred));
        }
        while i < self.queue.len()
            invariant
                self.wf(),
                i <= self.backlog().len(),
                pred == (|e: PendingView| participates(
                    self.dir(),
                    user_id@,
                    e.conversation_id,
                )),
                replay@.map_values(|e: PendingOfflineEvent| e@) == self.backlog().subrange(
                    0,
                    i as int,
                ).filter(pred),
            decreases self.backlog().len() - i,
        {
            let ghost prefix = self.backlog().subrange(0, i as int);
            let event = self.queue.event_at(i);
            let mut keep = false;
            match self.directory.get(&event.conversation_id) {
                Some(participants) => {
                    if crate::models::vec_contains_string(participants, user_id) {
                        keep = true;
                    }
                    proof {
                        let c = event.conversation_id@;
                        assert(self.dir().contains_key(c));
                        assert(self.dir()[c] == self.directory@[c].deep_view());
                        let dv = self.directory@[c].deep_view();
                        if crate::models::seq_contains_str(self.directory@[c]@, user_id@) {
                            let w = choose|w: int|
                                0 <= w < self.directory@[c]@.len() && self.directory@[c]@[w]@
                                    == user_id@;
                            assert(dv[w] == user_id@);
                        }
                        if dv.contains(user_id@) {
                            let w = choose|w: int| 0 <= w < dv.len() && dv[w] == user_id@;
                            assert(self.directory@[c]@[w]@ == user_id@);
                        }
                        assert(keep == pred(self.backlog()[i as int]));
                    }
                },
                None => {
                    proof {
                        assert(!pred(self.backlog()[i as int]));
                    }
                },
            }
            if keep {
                let e = self.queue.event_at(i).clone();
                replay.push(e);
            }
            proof {
                prefix.lemma_filter_push(self.backlog()[i as int], pred);
                assert(self.backlog().subrange(0, i as int + 1) =~= prefix.push(
                    self.backlog()[i as int],
                ));
                if pred(self.backlog()[i as int]) {
                    assert(replay@.map_values(|e: PendingOfflineEvent| e@) =~= prefix.filter(
                        pred,
                    ).push(self.backlog()[i as int]));
                }
            }
            i = i + 1;
        }
        proof {
            assert(self.backlog().subrange(0, self.backlog().len() as int) =~= self.backlog());
            assert(final(self).senders_view() =~= old(self).senders_view());
            assert(final(self).dir() =~= old(self).dir());
        }
        replay
    }

    /// Removes a disconnected user from the registry; queued events and
    /// recorded senders are untouched, and no other connection is affected.
    pub fn on_disconnect(&mut self, user_id: &String)
        requires
            old(self).wf(),
        ensures
            final(self).wf(),
            final(self).online() == old(self).online().remove(user_id@),
            final(self).senders_view() == old(self).senders_view(),
            final(self).dir() == old(self).dir(),
            final(self).backlog() == old(self).backlog(),
            final(self).backlog_next() == old(self).backlog_next(),
    {
        self.registry.remove_user_connection(user_id);
        proof {
            assert(final(self).senders_view() =~= old(self).senders_view());
            assert(final(self).dir() =~= old(self).dir());
        }
    }

    /// Deletes the queued events whose delivery the hosting layer has
    /// confirmed.
    pub fn confirm_delivered(&mut self, event_ids: &Vec<u64>)
        requires
            old(self).wf(),
        ensures
            final(self).wf(),
            final(self).online() == old(self).online(),
            final(self).senders_view() == old(self).senders_view(),
            final(self).dir() == old(self).dir(),
            final(self).backlog() == old(self).backlog().filter(
                |e: PendingView| !event_ids@.contains(e.id),
            ),
            final(self).backlog_next() == old(self).backlog_next(),
    {
        self.queue.delete(event_ids);
        proof {
            assert(final(self).senders_view() =~= old(self).senders_view());
            assert(final(self).dir() =~= old(self).dir());
        }
    }

    /// The recipients the envelope resolves to, by the dispatch table.
    fn resolve(&self, env: &Envelope) -> (r: Vec<String>)
        requires
            self.wf(),
        ensures
            r.deep_view() == resolved_recipients(self.senders_view(), self.dir(), env@),
    {
        match env.message_type {
            EnvelopeType::NewMessage => self.resolve_direct(env),
            EnvelopeType::MessageStatusUpdate => {
                match &env.original_sender_id {
                    Some(o) => {
                        let mut r: Vec<String> = Vec::new();
                        r.push(o.clone());
                        proof {
                            assert(r.deep_view() =~= seq![o@]);
                        }
                        r
                    },
                    None => {
                        match &env.message_id {
                            Some(mid) => {
                                match self.senders.get(mid) {
                                    Some(sender) => {
                                        let mut r: Vec<String> = Vec::new();
                                        r.push(sender.clone());
                                        proof {
                                            assert(r.deep_view() =~= seq![
                                                self.senders_view()[mid@],
                                            ]);
                                        }
                                        r
                                    },
                                    None => {
                                        let r: Vec<String> = Vec::new();
                                        proof {
                                            assert(r.deep_view() =~= Seq::<Seq<char>>::empty());
                                        }
                                        r
                                    },
                                }
                            },
                            None => {
                                let r: Vec<String> = Vec::new();
                                proof {
                                    assert(r.deep_view() =~= Seq::<Seq<char>>::empty());
                                }
                                r
                            },
                        }
                    },
                }
            },
            EnvelopeType::WebRTCSignal => self.resolve_unicast(env),
            EnvelopeType::TypingIndicator => {
                let r = filter_out_sender(&env.recipients, &env.sender_id);
                proof {
                    lemma_filter_equiv(
                        env.recipients.deep_view(),
                        |u: Seq<char>| u != env.sender_id@,
                        |u: Seq<char>| u != env@.sender_id,
                    );
                }
                r
            },
            EnvelopeType::ConversationUpdated => {
                let r = filter_out_sender(&env.participants, &env.sender_id);
                proof {
                    lemma_filter_equiv(
                        env.participants.deep_view(),
                        |u: Seq<char>| u != env.sender_id@,
                        |u: Seq<char>| u != env@.sender_id,
                    );
                }
                r
            },
            EnvelopeType::GroupMemberAdded => {
                let r = filter_out_sender(&env.participants, &env.sender_id);
                proof {
                    lemma_filter_equiv(
                        env.participants.deep_view(),
                        |u: Seq<char>| u != env.sender_id@,
                        |u: Seq<char>| u != env@.sender_id,
                    );
                }
                r
            },
            EnvelopeType::GroupMemberRemoved => {
                let r = filter_out_sender(&env.participants, &env.sender_id);
                proof {
                    lemma_filter_equiv(
                        env.participants.deep_view(),
                        |u: Seq<char>| u != env.sender_id@,
                        |u: Seq<char>| u != env@.sender_id,
                    );
                }
                r
            },
            EnvelopeType::SystemNotification => self.resolve_unicast(env),
            EnvelopeType::UserStatus => {
                let r: Vec<String> = Vec::new();
                proof {
                    assert(r.deep_view() =~= Seq::<Seq<char>>::empty());
                }
                r
            },
            EnvelopeType::Unrecognized => {
                let r: Vec<String> = Vec::new();
                proof {
                    assert(r.deep_view() =~= Seq::<Seq<char>>::empty());
                }
                r
            },
        }
    }

    /// The explicit recipient, if the envelope names one.
    fn resolve_unicast(&self, env: &Envelope) -> (r: Vec<String>)
        ensures
            r.deep_view() == (match env@.recipient_id {
                Some(rid) => seq![rid],
                None => Seq::<Seq<char>>::empty(),
            }),
    {
        let mut r: Vec<String> = Vec::new();
        match &env.recipient_id {
            Some(rid) => {
                r.push(rid.clone());
                proof {
                    assert(r.deep_view() =~= seq![rid@]);
                }
            },
            None => {
                proof {
                    assert(r.deep_view() =~= Seq::<Seq<char>>::empty());
                }
            },
        }
        r
    }

    /// The direct targets of a `NewMessage`.
    fn resolve_direct(&self, env: &Envelope) -> (r: Vec<String>)
        requires
            self.wf(),
        ensures
            r.deep_view() == direct_targets(self.dir(), env@),
    {
        match &env.recipient_id {
            Some(rid) => {
                let mut r: Vec<String> = Vec::new();
                r.push(rid.clone());
                proof {
                    assert(r.deep_view() =~= seq![rid@]);
                }
                r
            },
            None => {
                if env.recipients.len() > 0 {
                    let r = filter_out_sender(&env.recipients, &env.sender_id);
                    proof {
                        lemma_filter_equiv(
                            env.recipients.deep_view(),
                            |u: Seq<char>| u != env.sender_id@,
                            |u: Seq<char>| u != env@.sender_id,
                        );
                    }
                    r
                } else {
                    match &env.conversation_id {
                        Some(cid) => {
                            match self.directory.get(cid) {
                                Some(participants) => {
                                    let r = filter_out_sender(participants, &env.sender_id);
                                    proof {
                                        assert(self.dir()[cid@] == self.directory@[cid@]
                                            .deep_view());
                                        lemma_filter_equiv(
                                            participants.deep_view(),
                                            |u: Seq<char>| u != env.sender_id@,
                                            |u: Seq<char>| u != env@.sender_id,
                                        );
                                    }
                                    r
                                },
                                None => {
                                    let r: Vec<String> = Vec::new();
                                    proof {
                                        assert(r.deep_view() =~= Seq::<Seq<char>>::empty());
                                    }
                                    r
                                },
                            }
                        },
                        None => {
                            let r: Vec<String> = Vec::new();
                            proof {
                                assert(r.deep_view() =~= Seq::<Seq<char>>::empty());
                            }
                            r
                        },
                    }
                }
            },
        }
    }

    /// Routes one inbound envelope: records the sender of a fresh message
    /// id, resolves the recipients, and splits them into deliveries for the
    /// online ones and — for replayable kinds scoped to a conversation —
    /// one queued event when anyone resolved is offline.
    pub fn route(&mut self, env: &Envelope, now: u64) -> (deliveries: Vec<Delivery>)
        requires
            old(self).wf(),
            old(self).backlog_next() < u64::MAX,
        ensures
            final(self).wf(),
            final(self).online() == old(self).online(),
            final(self).dir() == old(self).dir(),
            env@.message_type is NewMessage ==> (env@.message_id matches Some(mid)
                ==> final(self).senders_view() == old(self).senders_view().insert(
                mid,
                env@.sender_id,
            )),
            (!(env@.message_type is NewMessage && env@.message_id is Some) ==> final(self).senders_view() == old(self).senders_view()),
            ({
                let resolved = resolved_recipients(old(self).senders_view(), old(self).dir(), env@);
                let online = resolved.filter(|u: Seq<char>| old(self).online().contains_key(u));
                &&& deliveries@.map_values(|d: Delivery| d.recipient@) == online
                &&& (forall|i: int| 0 <= i < deliveries@.len() ==> (#[trigger] deliveries@[i]).handle
                    == old(self).online()[deliveries@[i].recipient@])
                &&& (forall|i: int| 0 <= i < deliveries@.len() ==> (#[trigger] deliveries@[i]).envelope@
                    == delivered_envelope(env@, deliveries@[i].recipient@))
            }),
            ({
                let resolved = resolved_recipients(old(self).senders_view(), old(self).dir(), env@);
                let any_offline = exists|i: int|
                    0 <= i < resolved.len() && !old(self).online().contains_key(#[trigger] resolved[i]);
                if is_queueable(env@.message_type) && env@.conversation_id is Some && any_offline {
                    &&& final(self).backlog().len() == old(self).backlog().len() + 1
                    &&& final(self).backlog().subrange(0, old(self).backlog().len() as int) == old(self).backlog()
                    &&& final(self).backlog().last().conversation_id == env@.conversation_id->0
                    &&& final(self).backlog().last().envelope == env@
                    &&& final(self).backlog().last().id == old(self).backlog_next()
                } else {
                    final(self).backlog() == old(self).backlog()
                }
            }),
            final(self).backlog_next() == old(self).backlog_next() + final(self).backlog().len()
                - old(self).backlog().len(),
    {
        let is_new_message = match env.message_type {
            EnvelopeType::NewMessage => true,
            _ => false,
        };
        if is_new_message {
            match &env.message_id {
                Some(mid) => {
                    self.senders.insert(mid.clone(), env.sender_id.clone());
                    proof {
                        assert(self.senders_view() =~= old(self).senders_view().insert(
                            mid@,
                            env@.sender_id,
                        ));
                        assert(self.dir() =~= old(self).dir());
                    }
                },
                None => {},
            }
        }
        let ghost resolved_spec = resolved_recipients(
            old(self).senders_view(),
            old(self).dir(),
            env@,
        );
        proof {
            assert(resolved_recipients(self.senders_view(), self.dir(), env@) == resolved_spec);
        }
        let resolved = self.resolve(env);
        let mut deliveries: Vec<Delivery> = Vec::new();
        let mut any_offline = false;
        let mut i: usize = 0;
        let ghost onl = old(self).online();
        let ghost online_pred = |u: Seq<char>| onl.contains_key(u);
        proof {
            assert(resolved.deep_view().subrange(0, 0) =~= Seq::<Seq<char>>::empty());
            assert(deliveries@.map_values(|d: Delivery| d.recipient@) =~= Seq::<
                Seq<char>,
            >::empty().filter(online_pred));
        }
        while i < resolved.len()
            invariant
                self.wf(),
                i <= resolved@.len(),
                resolved.deep_view().len() == resolved@.len(),
                resolved.deep_view() == resolved_spec,
                onl == old(self).online(),
                forall|u: Seq<char>| #[trigger] online_pred(u) == old(self).online().contains_key(
                    u,
                ),
                self.online() == old(self).online(),
                self.dir() == old(self).dir(),
                self.backlog() == old(self).backlog(),
                self.backlog_next() == old(self).backlog_next(),
                self.senders_view() == (if env@.message_type is NewMessage
                    && env@.message_id is Some {
                    old(self).senders_view().insert(env@.message_id->0, env@.sender_id)
                } else {
                    old(self).senders_view()
                }),
                deliveries@.map_values(|d: Delivery| d.recipient@) == resolved_spec.subrange(
                    0,
                    i as int,
                ).filter(online_pred),
                forall|k: int| 0 <= k < deliveries@.len() ==> (#[trigger] deliveries@[k]).handle
                    == old(self).online()[deliveries@[k].recipient@],
                forall|k: int| 0 <= k < deliveries@.len() ==> (#[trigger] deliveries@[k]).envelope@
                    == delivered_envelope(env@, deliveries@[k].recipient@),
                any_offline <==> exists|k: int|
                    0 <= k < i && !old(self).online().contains_key(#[trigger] resolved_spec[k]),
            decreases resolved@.len() - i,
        {
            let ghost prefix = resolved_spec.subrange(0, i as int);
            let target = &resolved[i];
            proof {
                assert(resolved.deep_view()[i as int] == target@);
            }
            match self.registry.resolve(target) {
                Some(handle) => {
                    let mut delivered = env.clone();
                    let is_status = match env.message_type {
                        EnvelopeType::MessageStatusUpdate => true,
                        _ => false,
                    };
                    if is_status {
                        delivered.recipient_id = Some(target.clone());
                    }
                    proof {
                        assert(delivered@ == delivered_envelope(env@, target@));
                    }
                    deliveries.push(Delivery { recipient: target.clone(), handle, envelope: delivered });
                    proof {
                        assert(deliveries@.map_values(|d: Delivery| d.recipient@) =~= prefix.filter(
                            online_pred,
                        ).push(target@));
                    }
                },
                None => {
                    any_offline = true;
                },
            }
            proof {
                prefix.lemma_filter_push(resolved_spec[i as int], online_pred);
                assert(resolved_spec.subrange(0, i as int + 1) =~= prefix.push(
                    resolved_spec[i as int],
                ));
                assert(resolved_spec[i as int] == target@);
                assert(online_pred(resolved_spec[i as int]) == old(self).online().contains_key(
                    target@,
                ));
            }
            i = i + 1;
        }
        proof {
            assert(resolved_spec.subrange(0, resolved_spec.len() as int) =~= resolved_spec);
        }
        let queueable = match env.message_type {
            EnvelopeType::NewMessage => true,
            EnvelopeType::MessageStatusUpdate => true,
            EnvelopeType::ConversationUpdated => true,
            EnvelopeType::GroupMemberAdded => true,
            EnvelopeType::GroupMemberRemoved => true,
            EnvelopeType::SystemNotification => true,
            _ => false,
        };
        if queueable && any_offline {
            match &env.conversation_id {
                Some(cid) => {
                    self.queue.store(cid, env, now);
                },
                None => {},
            }
        }
        deliveries
    }

    /// A delivery the hosting layer could not complete — the handle was
    /// concurrently removed or its channel closed. The recipient is treated
    /// as offline: for replayable kinds scoped to a conversation the
    /// envelope is queued; transient signals are dropped.
    pub fn on_send_failed(&mut self, env: &Envelope, now: u64)
        requires
            old(self).wf(),
            old(self).backlog_next() < u64::MAX,
        ensures
            final(self).wf(),
            final(self).online() == old(self).online(),
            final(self).senders_view() == old(self).senders_view(),
            final(self).dir() == old(self).dir(),
            if is_queueable(env@.message_type) && env@.conversation_id is Some {
                &&& final(self).backlog().len() == old(self).backlog().len() + 1
                &&& final(self).backlog().subrange(0, old(self).backlog().len() as int) == old(
                    self,
                ).backlog()
                &&& final(self).backlog().last().conversation_id == env@.conversation_id->0
                &&& final(self).backlog().last().envelope == env@
                &&& final(self).backlog().last().id == old(self).backlog_next()
            } else {
                final(self).backlog() == old(self).backlog()
            },
            final(self).backlog_next() == old(self).backlog_next() + final(self).backlog().len()
                - old(self).backlog().len(),
    {
        let queueable = match env.message_type {
            EnvelopeType::NewMessage => true,
            EnvelopeType::MessageStatusUpdate => true,
            EnvelopeType::ConversationUpdated => true,
            EnvelopeType::GroupMemberAdded => true,
            EnvelopeType::GroupMemberRemoved => true,
            EnvelopeType::SystemNotification => true,
            _ => false,
        };
        if queueable {
            match &env.conversation_id {
                Some(cid) => {
                    self.queue.store(cid, env, now);
                },
                None => {},
            }
        }
        proof {
            assert(final(self).senders_view() =~= old(self).senders_view());
            assert(final(self).dir() =~= old(self).dir());
        }
    }

}

/// The identifiers of `v` other than `sender`, in order.
pub fn filter_out_sender(v: &Vec<String>, sender: &String) -> (r: Vec<String>)
    ensures
        r.deep_view() == v.deep_view().filter(|u: Seq<char>| u != sender@),
{
    let mut r: Vec<String> = Vec::new();
    let mut i: usize = 0;
    let ghost dv = v.deep_view();
    proof {
        assert(dv.subrange(0, 0) =~= Seq::<Seq<char>>::empty());
        assert(r.deep_view() =~= Seq::<Seq<char>>::empty().filter(
            |u: Seq<char>| u != sender@,
        ));
    }
    while i < v.len()
        invariant
            i <= v@.len(),
            dv == v.deep_view(),
            dv.len() == v@.len(),
            r.deep_view() == dv.subrange(0, i as int).filter(|u: Seq<char>| u != sender@),
        decreases v@.len() - i,
    {
        let ghost prefix = dv.subrange(0, i as int);
        let ghost pred = |u: Seq<char>| u != sender@;
        if v[i] != *sender {
            r.push(v[i].clone());
            proof {
                assert(r.deep_view() =~= prefix.filter(pred).push(dv[i as int]));
            }
        }
        proof {
            prefix.lemma_filter_push(dv[i as int], pred);
            assert(dv.subrange(0, i as int + 1) =~= prefix.push(dv[i as int]));
            assert(pred(dv[i as int]) == (v@[i as int]@ != sender@));
        }
        i = i + 1;
    }
    proof {
        assert(dv.subrange(0, dv.len() as int) =~= dv);
    }
    r
}

} // verus!

verus! {

/// The lifecycle of one inbound connection: the first frame must be an
/// identity claim, then envelopes are routed, until the transport closes.
#[derive(Clone, Copy, Debug, PartialEq, Eq, Structural)]
pub enum ConnState {
    AwaitingIdentity,
    Routing,
    Closed,
}

/// The per-connection handshake state machine. A connection that presents
/// anything but an identity claim as its first frame is closed without ever
/// being registered.
pub struct Connection {
    pub state: ConnState,
    pub user_id: Option<String>,
}

impl Connection {
    pub fn new() -> (r: Self)
        ensures
            r.state is AwaitingIdentity,
            r.user_id is None,
    {
        Connection { state: ConnState::AwaitingIdentity, user_id: None }
    }

    /// Handles the mandatory first frame: `None` stands for a decode failure
    /// or a connection closed before any frame. Exactly an identity-claim
    /// envelope moves the connection to `Routing` and yields the claimed
    /// identity; anything else closes it.
    pub fn on_first_frame(&mut self, frame: Option<&Envelope>) -> (r: Option<String>)
        requires
            old(self).state is AwaitingIdentity,
        ensures
            (frame matches Some(env) && env@.message_type is UserStatus) <==> r is Some,
            r matches Some(u) ==> final(self).state is Routing && (
            final(self).user_id matches Some(x) && x@ == u@) && (frame matches Some(env) && u@
                == env@.sender_id),
            r is None ==> final(self).state is Closed && final(self).user_id is None,
    {
        match frame {
            Some(env) => {
                let is_claim = match env.message_type {
                    EnvelopeType::UserStatus => true,
                    _ => false,
                };
                if is_claim {
                    self.state = ConnState::Routing;
                    self.user_id = Some(env.sender_id.clone());
                    Some(env.sender_id.clone())
                } else {
                    self.state = ConnState::Closed;
                    self.user_id = None;
                    None
                }
            },
            None => {
                self.state = ConnState::Closed;
                self.user_id = None;
                None
            },
        }
    }

    /// A transport close or error ends the connection.
    pub fn on_close(&mut self)
        ensures
            final(self).state is Closed,
            final(self).user_id == old(self).user_id,
    {
        self.state = ConnState::Closed;
    }
}

} // verus!
