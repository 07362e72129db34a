//! Call signaling bookkeeping: ephemeral call sessions, created on
//! initiation and destroyed on hangup. The signaling envelopes themselves
//! are routed like any other unicast envelope; only the session state lives
//! here.

use vstd::prelude::*;
use crate::errors::Error;
use crate::ids::new_uuid;
use crate::strmap::StrMap;

verus! {

/// The kind of a call-signaling payload.
#[derive(Clone, Copy, Debug, PartialEq, Eq, Structural)]
pub enum RTCSignalType {
    Offer,
    Answer,
    IceCandidate,
    Hangup,
}

/// The lifecycle of a call.
#[derive(Clone, Copy, Debug, PartialEq, Eq, Structural)]
pub enum CallStatus {
    Ringing,
    Connected,
    Ended,
}

/// The mathematical value of a [`CallSession`].
pub struct CallSessionView {
    pub id: Seq<char>,
    pub initiator_id: Seq<char>,
    pub recipient_id: Seq<char>,
    pub conversation_id: Option<Seq<char>>,
    pub start_time: u64,
    pub status: CallStatus,
}

/// One active call: ephemeral, never persisted.
pub struct CallSession {
    pub id: String,
    pub initiator_id: String,
    pub recipient_id: String,
    pub conversation_id: Option<String>,
    pub start_time: u64,
    pub status: CallStatus,
}

impl View for CallSession {
    type V = CallSessionView;

    open spec fn view(&self) -> CallSessionView {
        CallSessionView {
            id: self.id@,
            initiator_id: self.initiator_id@,
            recipient_id: self.recipient_id@,
            conversation_id: self.conversation_id.deep_view(),
            start_time: self.start_time,
            status: self.status,
        }
    }
}

impl Clone for CallSession {
    fn clone(&self) -> (r: Self)
        ensures
            r@ == self@,
    {
        CallSession {
            id: self.id.clone(),
            initiator_id: self.initiator_id.clone(),
            recipient_id: self.recipient_id.clone(),
            conversation_id: crate::models::clone_opt_string(&self.conversation_id),
            start_time: self.start_time,
            status: self.status,
        }
    }
}

/// `u` is a party of the call.
pub open spec fn involves(s: CallSessionView, u: Seq<char>) -> bool {
    s.initiator_id == u || s.recipient_id == u
}

/// The table of active calls, keyed by call id.
pub struct RTCManager {
    active_calls: StrMap<CallSession>,
}

impl RTCManager {
    pub closed spec fn wf(&self) -> bool {
        &&& self.active_calls.wf()
        &&& forall|k: Seq<char>| self.active_calls@.contains_key(k)
            ==> (#[trigger] self.active_calls@[k])@.id == k
    }

    /// Every stored session sits under its own id.
    pub proof fn lemma_keyed_by_id(&self, k: Seq<char>)
        requires
            self.wf(),
            self.calls().contains_key(k),
        ensures
            self.calls()[k].id == k,
    {
    }

    /// The active calls: call id to session.
    pub closed spec fn calls(&self) -> Map<Seq<char>, CallSessionView> {
        Map::new(
            |k: Seq<char>| self.active_calls@.contains_key(k),
            |k: Seq<char>| self.active_calls@[k]@,
        )
    }

    pub fn new() -> (r: Self)
        ensures
            r.wf(),
            r.calls() == Map::<Seq<char>, CallSessionView>::empty(),
    {
        let r = RTCManager { active_calls: StrMap::new() };
        proof {
            assert(r.calls() =~= Map::<Seq<char>, CallSessionView>::empty());
        }
        r
    }

    /// Opens a ringing session under a fresh id between the two parties.
    pub fn create_call_session(
        &mut self,
        initiator_id: String,
        recipient_id: String,
        conversation_id: Option<String>,
        start_time: u64,
    ) -> (r: Result<CallSession, Error>)
        requires
            old(self).wf(),
        ensures
            final(self).wf(),
            r is Ok,
            r matches Ok(s) ==> ({
                &&& s@.initiator_id == initiator_id@
                &&& s@.recipient_id == recipient_id@
                &&& s@.conversation_id == conversation_id.deep_view()
                &&& s@.start_time == start_time
                &&& s@.status is Ringing
                &&& final(self).calls() == old(self).calls().insert(s@.id, s@)
            }),
    {
        let id = new_uuid();
        let session = CallSession {
            id,
            initiator_id,
            recipient_id,
            conversation_id,
            start_time,
            status: CallStatus::Ringing,
        };
        let result = session.clone();
        let key = session.id.clone();
        let ghost sid = session.id@;
        self.active_calls.insert(key, session);
        proof {
            assert(final(self).calls() =~= old(self).calls().insert(sid, result@));
        }
        Ok(result)
    }

    /// Moves an active call to a new lifecycle state.
    pub fn update_call_status(&mut self, call_id: &String, status: CallStatus) -> (r: Result<
        (),
        Error,
    >)
        requires
            old(self).wf(),
        ensures
            final(self).wf(),
            old(self).calls().contains_key(call_id@) <==> r is Ok,
            r is Ok ==> final(self).calls() == old(self).calls().insert(
                call_id@,
                (CallSessionView { status, ..old(self).calls()[call_id@] }),
            ),
            r is Err ==> final(self).calls() == old(self).calls(),
            r matches Err(e) ==> e is NotFound,
    {
        match self.active_calls.take(call_id) {
            Some(mut session) => {
                session.status = status;
                let ghost sv = session@;
                self.active_calls.insert(call_id.clone(), session);
                proof {
                    assert(final(self).calls() =~= old(self).calls().insert(call_id@, sv));
                }
                Ok(())
            },
            None => {
                proof {
                    assert(final(self).calls() =~= old(self).calls());
                }
                Err(Error::NotFound(String::from_str("Call session not found")))
            },
        }
    }

    /// Destroys a call session; a no-op when the call is unknown.
    pub fn end_call(&mut self, call_id: &String) -> (r: Result<(), Error>)
        requires
            old(self).wf(),
        ensures
            final(self).wf(),
            r is Ok,
            final(self).calls() == old(self).calls().remove(call_id@),
    {
        self.active_calls.remove(call_id);
        proof {
            assert(final(self).calls() =~= old(self).calls().remove(call_id@));
        }
        Ok(())
    }

    /// Some active call this user is a party of, if any.
    pub fn get_active_call(&self, user_id: &String) -> (r: Option<CallSession>)
        requires
            self.wf(),
        ensures
            r matches Some(s) ==> self.calls().contains_key(s@.id) && self.calls()[s@.id] == s@
                && involves(s@, user_id@),
            r is None ==> forall|k: Seq<char>| self.calls().contains_key(k) ==> !involves(
                #[trigger] self.calls()[k],
                user_id@,
            ),
    {
        let keys = self.active_calls.keys();
        let mut i: usize = 0;
        while i < keys.len()
            invariant
                self.wf(),
                i <= keys@.len(),
                forall|j: int| 0 <= j < keys@.len() ==> self.active_calls@.contains_key(
                    #[trigger] keys@[j]@,
                ),
                forall|k: Seq<char>| self.calls().contains_key(k) ==> exists|j: int|
                    0 <= j < keys@.len() && #[trigger] keys@[j]@ == k,
                forall|j: int| 0 <= j < i ==> !involves(
                    self.calls()[#[trigger] keys@[j]@],
                    user_id@,
                ),
            decreases keys@.len() - i,
        {
            match self.active_calls.get(&keys[i]) {
                Some(session) => {
                    let matches_user = session.initiator_id == *user_id || session.recipient_id
                        == *user_id;
                    if matches_user {
                        let r = session.clone();
                        proof {
                            assert(self.calls()[r@.id] == r@);
                        }
                        return Some(r);
                    }
                },
                None => {
                    proof {
                        assert(false);
                    }
                },
            }
            i = i + 1;
        }
        proof {
            assert forall|k: Seq<char>| self.calls().contains_key(k) implies !involves(
                #[trigger] self.calls()[k],
                user_id@,
            ) by {
                let j = choose|j: int| 0 <= j < keys@.len() && keys@[j]@ == k;
            }
        }
        None
    }
}

} // verus!
