use smartlink_core::envelope::{Envelope, EnvelopeType};
use smartlink_core::registry::ConnectionRegistry;
use smartlink_core::router::{ConnState, Connection, RouterCore};

fn envelope(message_type: EnvelopeType, sender: &str) -> Envelope {
    Envelope {
        message_type,
        sender_id: sender.to_string(),
        conversation_id: None,
        recipient_id: None,
        message_id: None,
        recipients: Vec::new(),
        participants: Vec::new(),
        original_sender_id: None,
        payload: None,
        timestamp: "2024-01-01T00:00:00Z".to_string(),
    }
}

#[test]
fn test_routing_determinism_conversation_fanout() {
    // Routing determinism: a NewMessage naming a conversation and no
    // explicit recipients goes to exactly the participants other than the
    // sender.
    let mut router = RouterCore::new();
    router.register_conversation(
        "c1".to_string(),
        vec!["A".to_string(), "B".to_string(), "C".to_string()],
    );
    router.on_connect(&"A".to_string(), 1);
    router.on_connect(&"B".to_string(), 2);
    router.on_connect(&"C".to_string(), 3);

    let mut env = envelope(EnvelopeType::NewMessage, "A");
    env.conversation_id = Some("c1".to_string());
    let deliveries = router.route(&env, 0);

    let mut recipients: Vec<String> = deliveries.iter().map(|d| d.recipient.clone()).collect();
    recipients.sort();
    assert_eq!(recipients, vec!["B".to_string(), "C".to_string()]);
    for d in &deliveries {
        assert_eq!(d.envelope.sender_id, "A");
        assert_eq!(d.envelope.conversation_id, Some("c1".to_string()));
    }
}

#[test]
fn test_explicit_recipient_list_wins() {
    let mut router = RouterCore::new();
    router.register_conversation(
        "c1".to_string(),
        vec!["A".to_string(), "B".to_string(), "C".to_string()],
    );
    router.on_connect(&"B".to_string(), 2);
    router.on_connect(&"C".to_string(), 3);

    let mut env = envelope(EnvelopeType::NewMessage, "A");
    env.conversation_id = Some("c1".to_string());
    env.recipients = vec!["B".to_string()];
    let deliveries = router.route(&env, 0);
    assert_eq!(deliveries.len(), 1);
    assert_eq!(deliveries[0].recipient, "B");
    assert_eq!(deliveries[0].handle, 2);
}

#[test]
fn test_offline_queuing_and_replay_exactly_once() {
    // Offline queuing: zero deliveries and exactly one queued event; on the
    // user's next connect the event is replayed once and then removed.
    let mut router = RouterCore::new();
    router.register_conversation("c1".to_string(), vec!["A".to_string(), "B".to_string()]);
    router.on_connect(&"A".to_string(), 1);

    assert_eq!(router.backlog_next_id(), 0, "no event id has been drawn yet");
    let mut env = envelope(EnvelopeType::NewMessage, "A");
    env.conversation_id = Some("c1".to_string());
    env.recipients = vec!["B".to_string()];
    let deliveries = router.route(&env, 7);
    assert_eq!(deliveries.len(), 0, "no registry sends for an offline user");
    assert_eq!(router.backlog_next_id(), 1, "one queued event drew one id");

    let replay = router.on_connect(&"B".to_string(), 2);
    assert_eq!(replay.len(), 1, "exactly one queued event is replayed");
    assert_eq!(replay[0].conversation_id, "c1");
    assert_eq!(replay[0].envelope.sender_id, "A");
    assert_eq!(replay[0].timestamp, 7);

    // The hosting layer confirms the successful send; the event is removed.
    let ids: Vec<u64> = replay.iter().map(|e| e.id).collect();
    router.confirm_delivered(&ids);

    router.on_disconnect(&"B".to_string());
    let replay_again = router.on_connect(&"B".to_string(), 3);
    assert_eq!(replay_again.len(), 0, "a delivered event is not replayed again");
}

#[test]
fn test_replay_is_at_least_once_until_confirmed() {
    // Without a delivery confirmation the event survives, so a crash between
    // send and delete can only cause a duplicate, never a loss.
    let mut router = RouterCore::new();
    router.register_conversation("c1".to_string(), vec!["A".to_string(), "B".to_string()]);

    let mut env = envelope(EnvelopeType::NewMessage, "A");
    env.conversation_id = Some("c1".to_string());
    env.recipients = vec!["B".to_string()];
    router.route(&env, 0);

    let replay = router.on_connect(&"B".to_string(), 2);
    assert_eq!(replay.len(), 1);
    // No confirmation: the next connect replays the same event again.
    router.on_disconnect(&"B".to_string());
    let replay_again = router.on_connect(&"B".to_string(), 3);
    assert_eq!(replay_again.len(), 1);
    assert_eq!(replay_again[0].id, replay[0].id);
}

#[test]
fn test_send_failure_queues_for_replay() {
    // A handle that rejects a send is treated as offline: the event is
    // queued and replayed on the next connect.
    let mut router = RouterCore::new();
    router.register_conversation("c1".to_string(), vec!["A".to_string(), "B".to_string()]);
    router.on_connect(&"B".to_string(), 2);

    let mut env = envelope(EnvelopeType::NewMessage, "A");
    env.conversation_id = Some("c1".to_string());
    env.recipients = vec!["B".to_string()];
    let deliveries = router.route(&env, 0);
    assert_eq!(deliveries.len(), 1, "B looked online");

    // The hosting layer reports that the channel rejected the send.
    router.on_send_failed(&env, 1);
    router.on_disconnect(&"B".to_string());
    let replay = router.on_connect(&"B".to_string(), 3);
    assert_eq!(replay.len(), 1);
    assert_eq!(replay[0].envelope.sender_id, "A");
}

#[test]
fn test_typing_indicator_not_queued() {
    let mut router = RouterCore::new();
    router.register_conversation("c1".to_string(), vec!["A".to_string(), "B".to_string()]);

    let mut env = envelope(EnvelopeType::TypingIndicator, "A");
    env.conversation_id = Some("c1".to_string());
    env.recipients = vec!["B".to_string()];
    let deliveries = router.route(&env, 0);
    assert_eq!(deliveries.len(), 0);

    let replay = router.on_connect(&"B".to_string(), 2);
    assert_eq!(replay.len(), 0, "transient signals are not queued");
}

#[test]
fn test_status_routing_via_recorded_sender() {
    // Status routing: a MessageStatusUpdate reaches the original sender even
    // when the payload omits the sender id, because the message id was seen
    // in an earlier NewMessage.
    let mut router = RouterCore::new();
    router.on_connect(&"A".to_string(), 1);
    router.on_connect(&"B".to_string(), 2);

    let mut msg = envelope(EnvelopeType::NewMessage, "A");
    msg.recipient_id = Some("B".to_string());
    msg.message_id = Some("m1".to_string());
    let deliveries = router.route(&msg, 0);
    assert_eq!(deliveries.len(), 1);
    assert_eq!(deliveries[0].recipient, "B");

    let mut status = envelope(EnvelopeType::MessageStatusUpdate, "B");
    status.message_id = Some("m1".to_string());
    let deliveries = router.route(&status, 0);
    assert_eq!(deliveries.len(), 1);
    assert_eq!(deliveries[0].recipient, "A");
    assert_eq!(
        deliveries[0].envelope.recipient_id,
        Some("A".to_string()),
        "the forwarded update names the original sender as its recipient"
    );
}

#[test]
fn test_status_routing_with_explicit_original_sender() {
    let mut router = RouterCore::new();
    router.on_connect(&"A".to_string(), 1);

    let mut status = envelope(EnvelopeType::MessageStatusUpdate, "B");
    status.original_sender_id = Some("A".to_string());
    let deliveries = router.route(&status, 0);
    assert_eq!(deliveries.len(), 1);
    assert_eq!(deliveries[0].recipient, "A");
}

#[test]
fn test_status_update_with_unknown_message_goes_nowhere() {
    let mut router = RouterCore::new();
    router.on_connect(&"A".to_string(), 1);

    let mut status = envelope(EnvelopeType::MessageStatusUpdate, "B");
    status.message_id = Some("unseen".to_string());
    let deliveries = router.route(&status, 0);
    assert_eq!(deliveries.len(), 0);
}

#[test]
fn test_webrtc_signal_unicast_no_persistence() {
    let mut router = RouterCore::new();
    router.register_conversation("c1".to_string(), vec!["A".to_string(), "B".to_string()]);

    let mut env = envelope(EnvelopeType::WebRTCSignal, "A");
    env.conversation_id = Some("c1".to_string());
    env.recipient_id = Some("B".to_string());
    let deliveries = router.route(&env, 0);
    assert_eq!(deliveries.len(), 0, "recipient offline, signal dropped");
    let replay = router.on_connect(&"B".to_string(), 2);
    assert_eq!(replay.len(), 0, "signals are never queued");
}

#[test]
fn test_group_member_update_fanout_excludes_sender() {
    let mut router = RouterCore::new();
    router.on_connect(&"A".to_string(), 1);
    router.on_connect(&"B".to_string(), 2);
    router.on_connect(&"C".to_string(), 3);

    let mut env = envelope(EnvelopeType::GroupMemberAdded, "A");
    env.participants = vec!["A".to_string(), "B".to_string(), "C".to_string()];
    let deliveries = router.route(&env, 0);
    let mut recipients: Vec<String> = deliveries.iter().map(|d| d.recipient.clone()).collect();
    recipients.sort();
    assert_eq!(recipients, vec!["B".to_string(), "C".to_string()]);
}

#[test]
fn test_unrecognized_envelope_is_dropped() {
    let mut router = RouterCore::new();
    router.on_connect(&"B".to_string(), 2);
    let mut env = envelope(EnvelopeType::Unrecognized, "A");
    env.recipient_id = Some("B".to_string());
    let deliveries = router.route(&env, 0);
    assert_eq!(deliveries.len(), 0);
}

#[test]
fn test_handshake_accepts_identity_claim_only() {
    let mut conn = Connection::new();
    assert!(matches!(conn.state, ConnState::AwaitingIdentity));
    let claim = envelope(EnvelopeType::UserStatus, "A");
    let user = conn.on_first_frame(Some(&claim));
    assert_eq!(user, Some("A".to_string()));
    assert!(matches!(conn.state, ConnState::Routing));

    let mut conn = Connection::new();
    let not_claim = envelope(EnvelopeType::NewMessage, "A");
    assert_eq!(conn.on_first_frame(Some(&not_claim)), None);
    assert!(matches!(conn.state, ConnState::Closed));

    let mut conn = Connection::new();
    assert_eq!(conn.on_first_frame(None), None);
    assert!(matches!(conn.state, ConnState::Closed));
}

#[test]
fn test_registry_replacement_last_writer_wins() {
    let mut registry = ConnectionRegistry::new();
    registry.add_user_connection("A".to_string(), 1);
    registry.add_user_connection("A".to_string(), 9);
    assert_eq!(registry.resolve(&"A".to_string()), Some(9));
    registry.remove_user_connection(&"A".to_string());
    assert_eq!(registry.resolve(&"A".to_string()), None);
    // removing again is a no-op
    registry.remove_user_connection(&"A".to_string());
    assert_eq!(registry.resolve(&"A".to_string()), None);
}

#[test]
fn test_registry_online_snapshot() {
    let mut registry = ConnectionRegistry::new();
    registry.add_user_connection("A".to_string(), 1);
    registry.add_user_connection("B".to_string(), 2);
    let mut online = registry.get_online_users();
    online.sort();
    assert_eq!(online, vec!["A".to_string(), "B".to_string()]);
}

#[test]
fn test_relay_scenario_online_delivery_verbatim() {
    // Scenario: A and B share conversation c1; A sends a NewMessage naming
    // c1 with recipients ["B"] while B is connected: B's connection receives
    // the forwarded envelope verbatim.
    let mut router = RouterCore::new();
    router.register_conversation("c1".to_string(), vec!["A".to_string(), "B".to_string()]);

    let mut conn_b = Connection::new();
    let claim = envelope(EnvelopeType::UserStatus, "B");
    let user = conn_b.on_first_frame(Some(&claim)).expect("identity accepted");
    let replay = router.on_connect(&user, 42);
    assert_eq!(replay.len(), 0);

    let mut env = envelope(EnvelopeType::NewMessage, "A");
    env.conversation_id = Some("c1".to_string());
    env.message_id = Some("m7".to_string());
    env.recipients = vec!["B".to_string()];
    env.payload = Some("{\"content\":\"hi\"}".to_string());

    let deliveries = router.route(&env, 5);
    assert_eq!(deliveries.len(), 1);
    let d = &deliveries[0];
    assert_eq!(d.recipient, "B");
    assert_eq!(d.handle, 42);
    assert_eq!(d.envelope.sender_id, env.sender_id);
    assert_eq!(d.envelope.conversation_id, env.conversation_id);
    assert_eq!(d.envelope.message_id, env.message_id);
    assert_eq!(d.envelope.payload, env.payload);
    assert_eq!(d.envelope.timestamp, env.timestamp);
}

#[test]
fn test_relay_scenario_offline_then_delivered_on_connect() {
    // The same scenario with B offline: the event is persisted and handed
    // over on B's next connect.
    let mut router = RouterCore::new();
    router.register_conversation("c1".to_string(), vec!["A".to_string(), "B".to_string()]);

    let mut env = envelope(EnvelopeType::NewMessage, "A");
    env.conversation_id = Some("c1".to_string());
    env.recipients = vec!["B".to_string()];
    env.payload = Some("{\"content\":\"hi\"}".to_string());

    let deliveries = router.route(&env, 5);
    assert_eq!(deliveries.len(), 0);

    let replay = router.on_connect(&"B".to_string(), 43);
    assert_eq!(replay.len(), 1);
    assert_eq!(replay[0].envelope.payload, env.payload);
    assert_eq!(replay[0].envelope.sender_id, "A");
}
