use smartlink_core::client::{
    create_auth_message, envelope_for_message, ClientCore, ConnectionStatus, MessageCache,
    WebSocketConfig,
};
use smartlink_core::codec::{decode_encrypted, encode_encrypted, hex_decode, hex_encode};
use smartlink_core::crypto::EncryptedMessage;
use smartlink_core::envelope::EnvelopeType;
use smartlink_core::errors::Error;
use smartlink_core::models::{Message, MessageStatus, MessageType};
use smartlink_core::rtc::{CallStatus, RTCManager};

#[test]
fn test_hex_encode_exact_values() {
    assert_eq!(hex_encode(&vec![]), "");
    assert_eq!(hex_encode(&vec![0x00]), "00");
    assert_eq!(hex_encode(&vec![0xff]), "ff");
    assert_eq!(hex_encode(&vec![0x01, 0x2a, 0xb0]), "012ab0");
}

#[test]
fn test_hex_decode_exact_values() {
    assert_eq!(hex_decode(""), Some(vec![]));
    assert_eq!(hex_decode("00"), Some(vec![0x00]));
    assert_eq!(hex_decode("012ab0"), Some(vec![0x01, 0x2a, 0xb0]));
    assert_eq!(hex_decode("0"), None, "odd length");
    assert_eq!(hex_decode("zz"), None, "not hex");
    assert_eq!(hex_decode("0G"), None, "upper-case digits are not produced");
}

#[test]
fn test_encrypted_frame_round_trip() {
    let e = EncryptedMessage {
        ciphertext: vec![1, 2, 3, 254],
        nonce: vec![9; 12],
    };
    let framed = encode_encrypted(&e);
    assert_eq!(framed, format!("{}:{}", hex_encode(&e.nonce), hex_encode(&e.ciphertext)));
    let back = decode_encrypted(&framed).expect("decode failed");
    assert_eq!(back.ciphertext, e.ciphertext);
    assert_eq!(back.nonce, e.nonce);
}

#[test]
fn test_encrypted_frame_rejects_malformed() {
    assert!(decode_encrypted("no separator").is_none());
    assert!(decode_encrypted("0102").is_none());
    assert!(decode_encrypted("01:zz").is_none());
    assert!(decode_encrypted("x:00").is_none());
    // An empty nonce and ciphertext still frame as just the separator.
    let empty = EncryptedMessage { ciphertext: vec![], nonce: vec![] };
    let framed = encode_encrypted(&empty);
    assert_eq!(framed, ":");
    let back = decode_encrypted(&framed).expect("decode failed");
    assert!(back.ciphertext.is_empty() && back.nonce.is_empty());
}

fn sample_message() -> Message {
    Message {
        id: "m1".to_string(),
        conversation_id: "c1".to_string(),
        sender_id: "A".to_string(),
        content: "hello".to_string(),
        content_type: MessageType::Text,
        timestamp: 7,
        status: Some(MessageStatus::Sent),
        encrypted: false,
        media_url: None,
    }
}

#[test]
fn test_message_cache_buffers_and_drains() {
    let mut cache = MessageCache::new();
    cache.add_message(sample_message());
    let mut second = sample_message();
    second.id = "m2".to_string();
    cache.add_message(second);

    let taken = cache.take_pending_messages();
    assert_eq!(taken.len(), 2);
    assert_eq!(taken[0].id, "m1");
    assert_eq!(taken[1].id, "m2");

    let again = cache.take_pending_messages();
    assert!(again.is_empty(), "the cache is drained");
}

#[test]
fn test_client_connect_lifecycle() {
    let mut client = ClientCore::new(2);
    assert!(matches!(client.get_status(), ConnectionStatus::Disconnected));

    client.connect("A".to_string()).expect("connect failed");
    assert!(matches!(client.get_status(), ConnectionStatus::Connecting));

    // connect is valid only while disconnected or reconnecting
    assert!(matches!(client.connect("A".to_string()), Err(Error::Validation(_))));

    client.transport_opened();
    assert!(matches!(client.get_status(), ConnectionStatus::Connected));
    assert!(client.heartbeat_tick(), "heartbeat pings while connected");

    client.disconnect().expect("disconnect failed");
    assert!(matches!(client.get_status(), ConnectionStatus::Disconnected));
    assert!(!client.heartbeat_tick(), "heartbeat stops after disconnect");
    assert!(matches!(client.disconnect(), Err(Error::Validation(_))));
}

#[test]
fn test_client_bounded_reconnection() {
    let mut client = ClientCore::new(2);
    client.connect("A".to_string()).expect("connect failed");

    // First failure: one attempt spent, retry scheduled.
    assert!(client.transport_failed());
    assert!(matches!(client.get_status(), ConnectionStatus::Reconnecting));
    client.connect("A".to_string()).expect("retry connect failed");

    // Second failure: budget of 2 used up after this retry.
    assert!(client.transport_failed());
    client.connect("A".to_string()).expect("retry connect failed");

    // Third failure exceeds the bound: permanently disconnected.
    assert!(!client.transport_failed());
    assert!(matches!(client.get_status(), ConnectionStatus::Disconnected));

    // A manual connect is still possible.
    client.connect("A".to_string()).expect("manual connect failed");
    client.transport_opened();
    assert!(matches!(client.get_status(), ConnectionStatus::Connected));

    // A drop while connected schedules a reconnect again (budget was reset).
    assert!(client.connection_lost());
    assert!(matches!(client.get_status(), ConnectionStatus::Reconnecting));
}

#[test]
fn test_client_buffers_while_not_connected() {
    let mut client = ClientCore::new(1);
    let sent = client.compose_message(sample_message());
    assert!(!sent, "not connected: buffered, not sent");

    client.connect("A".to_string()).expect("connect failed");
    let sent = client.compose_message(sample_message());
    assert!(!sent, "still connecting: buffered");

    client.transport_opened();
    let sent = client.compose_message(sample_message());
    assert!(sent, "connected: handed to the transport");

    let pending = client.take_pending_messages();
    assert_eq!(pending.len(), 2, "only the offline compositions are buffered");
    assert!(client.take_pending_messages().is_empty(), "no auto-reflush");
}

#[test]
fn test_message_envelope_shape() {
    let message = sample_message();
    let env = envelope_for_message(&message, "2024-01-01T00:00:00Z".to_string());
    assert!(matches!(env.message_type, EnvelopeType::NewMessage));
    assert_eq!(env.sender_id, "A");
    assert_eq!(env.conversation_id, Some("c1".to_string()));
    assert_eq!(env.message_id, Some("m1".to_string()));
    assert_eq!(env.payload, Some("hello".to_string()));
}

#[test]
fn test_auth_message_shape() {
    let env = create_auth_message(&"A".to_string(), "2024-01-01T00:00:00Z".to_string());
    assert!(matches!(env.message_type, EnvelopeType::UserStatus));
    assert_eq!(env.sender_id, "A");
    assert_eq!(env.payload, Some("online".to_string()));
    assert_eq!(env.timestamp, "2024-01-01T00:00:00Z");
}

#[test]
fn test_default_config() {
    let config = WebSocketConfig::default();
    assert_eq!(config.heartbeat_interval_ms, 30000);
    assert_eq!(config.max_reconnect_attempts, 5);
    assert_eq!(config.reconnect_delay_ms, 3000);
    assert!(config.server_url.starts_with("wss://"));
}

#[test]
fn test_status_labels() {
    assert_eq!(MessageStatus::Sent.label(), "Sent");
    assert_eq!(MessageStatus::Delivered.label(), "Delivered");
    assert_eq!(MessageStatus::Read.label(), "Read");
}

#[test]
fn test_call_session_lifecycle() {
    let mut rtc = RTCManager::new();
    let session = rtc
        .create_call_session("A".to_string(), "B".to_string(), Some("c1".to_string()), 11)
        .expect("creation failed");
    assert!(matches!(session.status, CallStatus::Ringing));
    assert_eq!(session.initiator_id, "A");
    assert_eq!(session.recipient_id, "B");
    assert_eq!(session.conversation_id, Some("c1".to_string()));
    assert_eq!(session.start_time, 11);
    assert_eq!(session.id.len(), 36);

    rtc.update_call_status(&session.id, CallStatus::Connected).expect("update failed");
    let active = rtc.get_active_call(&"B".to_string()).expect("call not found");
    assert!(matches!(active.status, CallStatus::Connected));
    assert_eq!(active.id, session.id);

    let result = rtc.update_call_status(&"missing".to_string(), CallStatus::Ended);
    assert!(matches!(result, Err(Error::NotFound(_))));

    rtc.end_call(&session.id).expect("end failed");
    assert!(rtc.get_active_call(&"A".to_string()).is_none());
    assert!(rtc.get_active_call(&"B".to_string()).is_none());
    // Ending an unknown call stays a no-op.
    rtc.end_call(&session.id).expect("end failed");
}

#[test]
fn test_get_active_call_by_either_party() {
    let mut rtc = RTCManager::new();
    let session = rtc
        .create_call_session("A".to_string(), "B".to_string(), None, 0)
        .expect("creation failed");
    assert_eq!(rtc.get_active_call(&"A".to_string()).expect("missing").id, session.id);
    assert_eq!(rtc.get_active_call(&"B".to_string()).expect("missing").id, session.id);
    assert!(rtc.get_active_call(&"C".to_string()).is_none());
}

#[test]
fn test_error_messages() {
    assert_eq!(
        Error::Database("down".to_string()).message(),
        "Database error: down"
    );
    assert_eq!(
        Error::Authentication("who".to_string()).message(),
        "Authentication error: who"
    );
    assert_eq!(Error::NotFound("x".to_string()).message(), "Not found: x");
    assert_eq!(
        Error::Validation("bad".to_string()).message(),
        "Validation error: bad"
    );
    assert_eq!(
        Error::Encryption("k".to_string()).message(),
        "Encryption error: k"
    );
    assert_eq!(Error::Internal("i".to_string()).message(), "Internal error: i");
    assert_eq!(Error::KeyGeneration.message(), "Key generation failed");
    assert_eq!(Error::Encrypt("e".to_string()).message(), "Encryption failed: e");
    assert_eq!(Error::Decrypt("d".to_string()).message(), "Decryption failed: d");
    assert_eq!(Error::InvalidNonce.message(), "Invalid nonce");
}
