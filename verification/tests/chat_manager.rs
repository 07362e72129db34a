use smartlink_core::chat::ChatManager;
use smartlink_core::errors::Error;
use smartlink_core::models::{
    ConversationType, MessageStatus, MessageStatusUpdate, MessageType, NewConversation, NewMessage,
};
use smartlink_core::store::ChatStore;

fn manager() -> ChatManager {
    ChatManager::new(ChatStore::new())
}

fn new_conversation(participants: &[&str], encrypted: bool) -> NewConversation {
    NewConversation {
        name: None,
        conversation_type: if participants.len() == 2 {
            ConversationType::Direct
        } else {
            ConversationType::Group
        },
        participants: participants.iter().map(|p| p.to_string()).collect(),
        encryption_enabled: encrypted,
    }
}

fn new_message(conversation_id: &str, sender: &str, content: &str) -> NewMessage {
    NewMessage {
        conversation_id: conversation_id.to_string(),
        sender_id: sender.to_string(),
        content: content.to_string(),
        content_type: MessageType::Text,
        media_url: None,
        encrypted: false,
    }
}

#[test]
fn test_conversation_requires_two_participants() {
    let mut m = manager();
    let result = m.create_conversation(new_conversation(&["A"], false));
    assert!(matches!(result, Err(Error::Validation(_))));
    let result = m.create_conversation(new_conversation(&[], false));
    assert!(matches!(result, Err(Error::Validation(_))));
    let result = m.create_conversation(new_conversation(&["A", "B"], false));
    assert!(result.is_ok());
}

#[test]
fn test_encrypted_conversation_end_to_end() {
    // Establishing channels for a two-party encrypted conversation yields a
    // retrievable secret for both; a message A sends is stored sealed and B
    // reads the original plaintext back.
    let mut m = manager();
    let conversation = m
        .create_conversation(new_conversation(&["A", "B"], true))
        .expect("creation failed");
    assert!(conversation.encryption_enabled);

    let plaintext = "pairwise secret message 你好";
    let sent = m
        .send_message(new_message(&conversation.id, "A", plaintext), &"A".to_string())
        .expect("send failed");
    assert!(sent.encrypted, "the stored message is sealed");
    assert_ne!(sent.content, plaintext, "the stored content is not the plaintext");

    let read_by_b = m
        .get_messages(&conversation.id, &"B".to_string(), None, None)
        .expect("read failed");
    assert_eq!(read_by_b.len(), 1);
    assert_eq!(read_by_b[0].content, plaintext, "B reads A's plaintext");

    let read_by_a = m
        .get_messages(&conversation.id, &"A".to_string(), None, None)
        .expect("read failed");
    assert_eq!(read_by_a[0].content, plaintext, "A reads its own plaintext");
}

#[test]
fn test_plaintext_conversation_stores_verbatim() {
    let mut m = manager();
    let conversation = m
        .create_conversation(new_conversation(&["A", "B"], false))
        .expect("creation failed");
    let sent = m
        .send_message(new_message(&conversation.id, "A", "hello"), &"A".to_string())
        .expect("send failed");
    assert!(!sent.encrypted);
    assert_eq!(sent.content, "hello");
    assert!(matches!(sent.status, Some(MessageStatus::Sent)));
}

#[test]
fn test_send_rejects_wrong_sender_and_outsiders() {
    let mut m = manager();
    let conversation = m
        .create_conversation(new_conversation(&["A", "B"], false))
        .expect("creation failed");

    let result = m.send_message(new_message(&conversation.id, "A", "x"), &"B".to_string());
    assert!(matches!(result, Err(Error::Authentication(_))));

    let result = m.send_message(new_message(&conversation.id, "C", "x"), &"C".to_string());
    assert!(matches!(result, Err(Error::Authentication(_))));

    let result = m.send_message(new_message("missing", "A", "x"), &"A".to_string());
    assert!(matches!(result, Err(Error::NotFound(_))));
}

#[test]
fn test_monotonic_status_sender_cannot_mark_own_read() {
    // Monotonic status: marking a message Read by its own sender is rejected
    // with a validation error.
    let mut m = manager();
    let conversation = m
        .create_conversation(new_conversation(&["A", "B"], false))
        .expect("creation failed");
    let sent = m
        .send_message(new_message(&conversation.id, "A", "hello"), &"A".to_string())
        .expect("send failed");

    let result = m.update_message_status(&sent.id, &"A".to_string(), MessageStatus::Read);
    assert!(matches!(result, Err(Error::Validation(_))));

    let result = m.mark_message_read(&sent.id, &"A".to_string());
    assert!(matches!(result, Err(Error::Validation(_))));

    // The recipient may mark it read.
    m.mark_message_read(&sent.id, &"B".to_string()).expect("recipient read failed");
    let messages = m
        .get_messages(&conversation.id, &"B".to_string(), None, None)
        .expect("read failed");
    assert!(matches!(messages[0].status, Some(MessageStatus::Read)));
}

#[test]
fn test_status_update_request_shape() {
    let mut m = manager();
    let conversation = m
        .create_conversation(new_conversation(&["A", "B"], false))
        .expect("creation failed");
    let sent = m
        .send_message(new_message(&conversation.id, "A", "hello"), &"A".to_string())
        .expect("send failed");
    let update = MessageStatusUpdate {
        message_id: sent.id.clone(),
        user_id: "B".to_string(),
        status: MessageStatus::Delivered,
    };
    m.update_message_status(&update.message_id, &update.user_id, update.status)
        .expect("update failed");
    let messages = m
        .get_messages(&conversation.id, &"B".to_string(), None, None)
        .expect("read failed");
    assert!(matches!(messages[0].status, Some(MessageStatus::Delivered)));
}

#[test]
fn test_update_status_unknown_message_and_outsider() {
    let mut m = manager();
    let conversation = m
        .create_conversation(new_conversation(&["A", "B"], false))
        .expect("creation failed");
    let sent = m
        .send_message(new_message(&conversation.id, "A", "hello"), &"A".to_string())
        .expect("send failed");

    let result = m.update_message_status(
        &"missing".to_string(),
        &"B".to_string(),
        MessageStatus::Delivered,
    );
    assert!(matches!(result, Err(Error::NotFound(_))));

    let result = m.update_message_status(&sent.id, &"C".to_string(), MessageStatus::Delivered);
    assert!(matches!(result, Err(Error::Authentication(_))));
}

#[test]
fn test_mark_conversation_delivered_and_read_counts() {
    let mut m = manager();
    let conversation = m
        .create_conversation(new_conversation(&["A", "B"], false))
        .expect("creation failed");
    for content in ["one", "two", "three"] {
        m.send_message(new_message(&conversation.id, "A", content), &"A".to_string())
            .expect("send failed");
    }
    m.send_message(new_message(&conversation.id, "B", "reply"), &"B".to_string())
        .expect("send failed");

    assert_eq!(m.get_unread_count(&"B".to_string()), 3);
    assert_eq!(m.get_unread_count(&"A".to_string()), 1);

    let delivered = m
        .mark_conversation_delivered(&conversation.id, &"B".to_string())
        .expect("delivered failed");
    assert_eq!(delivered, 3, "only the other sender's Sent messages flip");

    let read = m
        .mark_conversation_read(&conversation.id, &"B".to_string())
        .expect("read failed");
    assert_eq!(read, 3);
    assert_eq!(m.get_unread_count(&"B".to_string()), 0);

    let read_again = m
        .mark_conversation_read(&conversation.id, &"B".to_string())
        .expect("read failed");
    assert_eq!(read_again, 0, "nothing left to mark");
}

#[test]
fn test_get_messages_limit_and_order() {
    let mut m = manager();
    let conversation = m
        .create_conversation(new_conversation(&["A", "B"], false))
        .expect("creation failed");
    for i in 0..5 {
        m.send_message(
            new_message(&conversation.id, "A", &format!("m{}", i)),
            &"A".to_string(),
        )
        .expect("send failed");
    }
    let all = m
        .get_messages(&conversation.id, &"B".to_string(), None, None)
        .expect("read failed");
    assert_eq!(all.len(), 5);
    for pair in all.windows(2) {
        assert!(pair[0].timestamp <= pair[1].timestamp, "ascending by timestamp");
    }

    let last_two = m
        .get_messages(&conversation.id, &"B".to_string(), Some(2), None)
        .expect("read failed");
    assert_eq!(last_two.len(), 2, "the page size caps the result");
    let newest = all.iter().map(|x| x.timestamp).max().unwrap();
    assert_eq!(last_two[1].timestamp, newest, "the newest messages are kept");

    let result = m.get_messages(&conversation.id, &"C".to_string(), None, None);
    assert!(matches!(result, Err(Error::Authentication(_))));
    let result = m.get_messages(&"missing".to_string(), &"B".to_string(), None, None);
    assert!(matches!(result, Err(Error::NotFound(_))));
}

#[test]
fn test_get_messages_before_reference() {
    let mut m = manager();
    let conversation = m
        .create_conversation(new_conversation(&["A", "B"], false))
        .expect("creation failed");
    let mut ids = Vec::new();
    for i in 0..4 {
        let sent = m
            .send_message(
                new_message(&conversation.id, "A", &format!("m{}", i)),
                &"A".to_string(),
            )
            .expect("send failed");
        ids.push((sent.id, sent.timestamp));
    }
    let reference = &ids[3];
    let older = m
        .get_messages(&conversation.id, &"B".to_string(), None, Some(&reference.0))
        .expect("read failed");
    for msg in &older {
        assert!(msg.timestamp < reference.1, "only strictly older messages");
        assert_ne!(msg.id, reference.0);
    }

    let result = m.get_messages(
        &conversation.id,
        &"B".to_string(),
        None,
        Some(&"missing".to_string()),
    );
    assert!(matches!(result, Err(Error::NotFound(_))), "unknown reference message");
}

#[test]
fn test_group_membership_lifecycle() {
    let mut m = manager();
    let group = m
        .create_group_chat(
            &"the group".to_string(),
            &"A".to_string(),
            vec!["B".to_string(), "C".to_string()],
            false,
        )
        .expect("group creation failed");
    assert!(matches!(group.conversation_type, ConversationType::Group));
    assert_eq!(group.name, Some("the group".to_string()));
    let mut members = group.participants.clone();
    members.sort();
    assert_eq!(
        members,
        vec!["A".to_string(), "B".to_string(), "C".to_string()],
        "the creator joins the member list"
    );

    m.add_group_member(&group.id, &"A".to_string(), &"D".to_string())
        .expect("add failed");
    let result = m.add_group_member(&group.id, &"A".to_string(), &"D".to_string());
    assert!(matches!(result, Err(Error::Validation(_))), "already a member");
    let result = m.add_group_member(&group.id, &"Z".to_string(), &"E".to_string());
    assert!(matches!(result, Err(Error::Authentication(_))), "actor not a member");

    m.remove_group_member(&group.id, &"A".to_string(), &"D".to_string())
        .expect("remove failed");
    let result = m.remove_group_member(&group.id, &"A".to_string(), &"D".to_string());
    assert!(matches!(result, Err(Error::Validation(_))), "no longer a member");

    let direct = m
        .create_conversation(new_conversation(&["A", "B"], false))
        .expect("creation failed");
    let result = m.add_group_member(&direct.id, &"A".to_string(), &"D".to_string());
    assert!(matches!(result, Err(Error::Validation(_))), "not a group");
}

#[test]
fn test_encrypted_group_add_member_can_send() {
    let mut m = manager();
    let group = m
        .create_group_chat(
            &"secure".to_string(),
            &"A".to_string(),
            vec!["B".to_string()],
            true,
        )
        .expect("group creation failed");
    m.add_group_member(&group.id, &"A".to_string(), &"C".to_string())
        .expect("add failed");
    // The new member has a session secret of its own and can send.
    let sent = m
        .send_message(new_message(&group.id, "C", "hello all"), &"C".to_string())
        .expect("send failed");
    assert!(sent.encrypted);
    // The new member reads its own message back in plaintext.
    let read = m
        .get_messages(&group.id, &"C".to_string(), None, None)
        .expect("read failed");
    assert_eq!(read[0].content, "hello all");
}

#[test]
fn test_remove_member_drops_only_their_secret() {
    let mut m = manager();
    let group = m
        .create_group_chat(
            &"secure".to_string(),
            &"A".to_string(),
            vec!["B".to_string(), "C".to_string()],
            true,
        )
        .expect("group creation failed");
    m.remove_group_member(&group.id, &"A".to_string(), &"C".to_string())
        .expect("remove failed");
    // C can no longer send: no session secret, and no longer a participant.
    let result = m.send_message(new_message(&group.id, "C", "x"), &"C".to_string());
    assert!(result.is_err());
    // The others' secrets did not rotate: B still sends and reads.
    let sent = m
        .send_message(new_message(&group.id, "B", "still here"), &"B".to_string())
        .expect("send failed");
    assert!(sent.encrypted);
    let read = m
        .get_messages(&group.id, &"B".to_string(), None, None)
        .expect("read failed");
    assert_eq!(read[0].content, "still here");
}

#[test]
fn test_last_message_pointer_updates() {
    let mut m = manager();
    let conversation = m
        .create_conversation(new_conversation(&["A", "B"], false))
        .expect("creation failed");
    assert!(conversation.last_message.is_none());
    let sent = m
        .send_message(new_message(&conversation.id, "A", "latest"), &"A".to_string())
        .expect("send failed");
    let reloaded = m.get_conversation(&conversation.id).expect("lookup failed");
    let last = reloaded.last_message.expect("last message set");
    assert_eq!(last.id, sent.id);
    assert_eq!(last.content, "latest");
}

#[test]
fn test_get_user_conversations_filters_by_membership() {
    let mut m = manager();
    let c1 = m
        .create_conversation(new_conversation(&["A", "B"], false))
        .expect("creation failed");
    let _c2 = m
        .create_conversation(new_conversation(&["B", "C"], false))
        .expect("creation failed");
    let of_a = m.get_user_conversations(&"A".to_string());
    assert_eq!(of_a.len(), 1);
    assert_eq!(of_a[0].id, c1.id);
    let of_b = m.get_user_conversations(&"B".to_string());
    assert_eq!(of_b.len(), 2);
    let of_z = m.get_user_conversations(&"Z".to_string());
    assert_eq!(of_z.len(), 0);
}

#[test]
fn test_get_online_participants_reports_participants() {
    let mut m = manager();
    let conversation = m
        .create_conversation(new_conversation(&["A", "B"], false))
        .expect("creation failed");
    let participants = m
        .get_online_participants(&conversation.id, &"A".to_string())
        .expect("lookup failed");
    assert_eq!(participants, vec!["A".to_string(), "B".to_string()]);
    let result = m.get_online_participants(&conversation.id, &"Z".to_string());
    assert!(matches!(result, Err(Error::Authentication(_))));
}
