use smartlink_core::crypto::{encrypt_then_decrypt, EncryptedMessage, Encryption};

#[test]
fn test_end_to_end_encryption() {
    let mut encryption = Encryption::new();

    let alice_keys = encryption.generate_key_pair().expect("Alice key generation failed");
    let bob_keys = encryption.generate_key_pair().expect("Bob key generation failed");

    let alice_public = &alice_keys.public_key;
    let bob_public = &bob_keys.public_key;

    let alice_shared_secret = encryption
        .derive_shared_secret(alice_keys.private_key, bob_public)
        .expect("Alice shared secret derivation failed");
    let bob_shared_secret = encryption
        .derive_shared_secret(bob_keys.private_key, alice_public)
        .expect("Bob shared secret derivation failed");

    assert_eq!(
        alice_shared_secret.as_bytes(),
        bob_shared_secret.as_bytes(),
        "Shared secrets do not match"
    );

    let plaintext = "我的银行密码是123456";
    let encrypted_message = encryption
        .encrypt_message(plaintext, &alice_shared_secret)
        .expect("Encryption failed");

    assert_ne!(
        String::from_utf8_lossy(&encrypted_message.ciphertext),
        plaintext,
        "Ciphertext should not match plaintext"
    );

    let decrypted = encryption
        .decrypt_message(&encrypted_message, &bob_shared_secret)
        .expect("Decryption failed");

    assert_eq!(
        decrypted, plaintext,
        "Decrypted message does not match original"
    );
    println!("Decrypted message: {}", decrypted);
}

#[test]
fn test_decryption_with_wrong_key() {
    let mut encryption = Encryption::new();

    let alice_keys = encryption.generate_key_pair().expect("Alice key generation failed");
    let bob_keys = encryption.generate_key_pair().expect("Bob key generation failed");

    let plaintext = "我的银行密码是123456";
    let alice_shared_secret = encryption
        .derive_shared_secret(alice_keys.private_key, &bob_keys.public_key)
        .expect("Alice shared secret derivation failed");
    let encrypted_message = encryption
        .encrypt_message(plaintext, &alice_shared_secret)
        .expect("Encryption failed");

    let mut wrong_encryption = Encryption::new();
    let wrong_keys = wrong_encryption
        .generate_key_pair()
        .expect("Wrong key generation failed");
    let wrong_shared_secret = wrong_encryption
        .derive_shared_secret(wrong_keys.private_key, &alice_keys.public_key)
        .expect("Wrong shared secret derivation failed");

    let result = encryption.decrypt_message(&encrypted_message, &wrong_shared_secret);
    assert!(result.is_err(), "Decryption with wrong key should fail");
    if let Err(e) = result {
        println!("Expected error with wrong key: {}", e.message());
        assert!(
            e.message().contains("Decrypt"),
            "Error should be related to decryption failure"
        );
    }
}

#[test]
fn test_invalid_nonce() {
    let mut encryption = Encryption::new();

    let alice_keys = encryption.generate_key_pair().expect("Alice key generation failed");
    let bob_keys = encryption.generate_key_pair().expect("Bob key generation failed");
    let shared_secret = encryption
        .derive_shared_secret(alice_keys.private_key, &bob_keys.public_key)
        .expect("Shared secret derivation failed");

    let invalid_encrypted = EncryptedMessage {
        ciphertext: vec![0; 16],
        nonce: vec![0; 8],
    };

    let result = encryption.decrypt_message(&invalid_encrypted, &shared_secret);
    assert!(result.is_err(), "Decryption with invalid nonce should fail");
    if let Err(e) = result {
        assert_eq!(
            e.message(),
            "Invalid nonce",
            "Error should be InvalidNonce"
        );
        println!("Expected error with invalid nonce: {}", e.message());
    }
}

#[test]
fn test_empty_message() {
    let mut encryption = Encryption::new();

    let alice_keys = encryption.generate_key_pair().expect("Alice key generation failed");
    let bob_keys = encryption.generate_key_pair().expect("Bob key generation failed");
    let shared_secret = encryption
        .derive_shared_secret(alice_keys.private_key, &bob_keys.public_key)
        .expect("Shared secret derivation failed");

    let plaintext = "";
    let encrypted_message = encryption
        .encrypt_message(plaintext, &shared_secret)
        .expect("Encryption of empty message failed");

    assert!(!encrypted_message.ciphertext.is_empty(), "Ciphertext should not be empty even for empty plaintext");

    let decrypted = encryption
        .decrypt_message(&encrypted_message, &shared_secret)
        .expect("Decryption of empty message failed");

    assert_eq!(decrypted, plaintext, "Decrypted empty message should match original");
    println!("Decrypted empty message: '{}'", decrypted);
}

#[test]
fn test_long_message() {
    let mut encryption = Encryption::new();

    let alice_keys = encryption.generate_key_pair().expect("Alice key generation failed");
    let bob_keys = encryption.generate_key_pair().expect("Bob key generation failed");
    let shared_secret = encryption
        .derive_shared_secret(alice_keys.private_key, &bob_keys.public_key)
        .expect("Shared secret derivation failed");

    let plaintext = "A".repeat(10 * 1024);
    let encrypted_message = encryption
        .encrypt_message(&plaintext, &shared_secret)
        .expect("Encryption of long message failed");

    assert!(
        encrypted_message.ciphertext.len() >= plaintext.len(),
        "Ciphertext should be at least as long as plaintext plus tag"
    );

    let decrypted = encryption
        .decrypt_message(&encrypted_message, &shared_secret)
        .expect("Decryption of long message failed");

    assert_eq!(decrypted, plaintext, "Decrypted long message should match original");
    println!("Successfully decrypted long message of length: {}", decrypted.len());
}

#[test]
fn test_nonce_uniqueness() {
    let mut encryption = Encryption::new();

    let alice_keys = encryption.generate_key_pair().expect("Alice key generation failed");
    let bob_keys = encryption.generate_key_pair().expect("Bob key generation failed");
    let shared_secret = encryption
        .derive_shared_secret(alice_keys.private_key, &bob_keys.public_key)
        .expect("Shared secret derivation failed");

    let plaintext = "Test nonce uniqueness";
    let encrypted1 = encryption
        .encrypt_message(plaintext, &shared_secret)
        .expect("First encryption failed");
    let encrypted2 = encryption
        .encrypt_message(plaintext, &shared_secret)
        .expect("Second encryption failed");

    assert_ne!(
        encrypted1.nonce, encrypted2.nonce,
        "Nonces should be unique for each encryption"
    );

    let decrypted1 = encryption
        .decrypt_message(&encrypted1, &shared_secret)
        .expect("Decryption of first message failed");
    let decrypted2 = encryption
        .decrypt_message(&encrypted2, &shared_secret)
        .expect("Decryption of second message failed");

    assert_eq!(decrypted1, plaintext, "First decrypted message should match original");
    assert_eq!(decrypted2, plaintext, "Second decrypted message should match original");
}

#[test]
fn test_tampered_ciphertext() {
    let mut encryption = Encryption::new();

    let alice_keys = encryption.generate_key_pair().expect("Alice key generation failed");
    let bob_keys = encryption.generate_key_pair().expect("Bob key generation failed");
    let shared_secret = encryption
        .derive_shared_secret(alice_keys.private_key, &bob_keys.public_key)
        .expect("Shared secret derivation failed");

    let plaintext = "Sensitive data";
    let mut encrypted_message = encryption
        .encrypt_message(plaintext, &shared_secret)
        .expect("Encryption failed");

    if !encrypted_message.ciphertext.is_empty() {
        encrypted_message.ciphertext[0] ^= 0xFF;
    }

    let result = encryption.decrypt_message(&encrypted_message, &shared_secret);
    assert!(result.is_err(), "Decryption of tampered ciphertext should fail");
    if let Err(e) = result {
        println!("Expected error with tampered ciphertext: {}", e.message());
        assert!(
            e.message().contains("Decrypt"),
            "Error should be related to decryption failure"
        );
    }
}

#[test]
fn test_tampered_nonce() {
    let mut encryption = Encryption::new();

    let alice_keys = encryption.generate_key_pair().expect("Alice key generation failed");
    let bob_keys = encryption.generate_key_pair().expect("Bob key generation failed");
    let shared_secret = encryption
        .derive_shared_secret(alice_keys.private_key, &bob_keys.public_key)
        .expect("Shared secret derivation failed");

    let plaintext = "Sensitive data";
    let mut encrypted_message = encryption
        .encrypt_message(plaintext, &shared_secret)
        .expect("Encryption failed");

    if !encrypted_message.nonce.is_empty() {
        encrypted_message.nonce[0] ^= 0xFF;
    }

    let result = encryption.decrypt_message(&encrypted_message, &shared_secret);
    assert!(result.is_err(), "Decryption with tampered nonce should fail");
    if let Err(e) = result {
        println!("Expected error with tampered nonce: {}", e.message());
        assert!(
            e.message().contains("Decrypt"),
            "Error should be related to decryption failure"
        );
    }
}

#[test]
fn test_round_trip_helper() {
    let mut encryption = Encryption::new();
    let alice_keys = encryption.generate_key_pair().expect("key generation failed");
    let bob_keys = encryption.generate_key_pair().expect("key generation failed");
    let secret = encryption
        .derive_shared_secret(alice_keys.private_key, &bob_keys.public_key)
        .expect("derivation failed");

    for message in ["", "a", "hello world", "päivää 你好", "{\"k\":1}"] {
        let out = encrypt_then_decrypt(&mut encryption, message, &secret)
            .expect("round trip failed");
        assert_eq!(out, message);
    }
}

#[test]
fn test_tamper_every_bit_of_short_message() {
    let mut encryption = Encryption::new();
    let alice_keys = encryption.generate_key_pair().expect("key generation failed");
    let bob_keys = encryption.generate_key_pair().expect("key generation failed");
    let secret = encryption
        .derive_shared_secret(alice_keys.private_key, &bob_keys.public_key)
        .expect("derivation failed");

    let encrypted = encryption.encrypt_message("hi", &secret).expect("encryption failed");

    // Flipping any single bit of the ciphertext must make decryption fail,
    // never yield a wrong plaintext.
    for byte in 0..encrypted.ciphertext.len() {
        for bit in 0..8 {
            let mut tampered = EncryptedMessage {
                ciphertext: encrypted.ciphertext.clone(),
                nonce: encrypted.nonce.clone(),
            };
            tampered.ciphertext[byte] ^= 1 << bit;
            assert!(encryption.decrypt_message(&tampered, &secret).is_err());
        }
    }
    // The same for every bit of the nonce.
    for byte in 0..encrypted.nonce.len() {
        for bit in 0..8 {
            let mut tampered = EncryptedMessage {
                ciphertext: encrypted.ciphertext.clone(),
                nonce: encrypted.nonce.clone(),
            };
            tampered.nonce[byte] ^= 1 << bit;
            assert!(encryption.decrypt_message(&tampered, &secret).is_err());
        }
    }
}

#[test]
fn test_nonce_uniqueness_large_sample() {
    let mut encryption = Encryption::new();
    let alice_keys = encryption.generate_key_pair().expect("key generation failed");
    let bob_keys = encryption.generate_key_pair().expect("key generation failed");
    let secret = encryption
        .derive_shared_secret(alice_keys.private_key, &bob_keys.public_key)
        .expect("derivation failed");

    let mut nonces: Vec<Vec<u8>> = Vec::with_capacity(10_000);
    for _ in 0..10_000 {
        let encrypted = encryption.encrypt_message("x", &secret).expect("encryption failed");
        assert_eq!(encrypted.nonce.len(), 12);
        nonces.push(encrypted.nonce);
    }
    nonces.sort();
    for pair in nonces.windows(2) {
        assert_ne!(pair[0], pair[1], "two nonces in a sample of 10,000 collided");
    }
}
