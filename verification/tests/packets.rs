use videocall_client::connection::prepare_heartbeat_packet;
use videocall_client::crypto::Cipher;
use videocall_client::crypto::CryptoError;
use videocall_client::media_management_interface::prepare_media_management_packet;
use videocall_client::media_management_interface::send_command;
use videocall_client::media_management_interface::ManagementCommand;
use videocall_client::send_packet::PacketLog;
use videocall_client::wire::decode_management;
use videocall_client::wire::encode_heartbeat;
use videocall_client::wire::encode_management;
use videocall_client::wire::EventType;
use videocall_client::wire::MediaManagementPacket;
use videocall_client::wire::MediaPacket;
use videocall_client::wire::MediaType;
use videocall_client::wire::PacketType;

fn cipher() -> Cipher {
    Cipher::new(vec![0x5a, 0x13, 0xfe])
}

#[test]
fn cipher_round_trip() {
    let aes = cipher();
    let plain = vec![0u8, 1, 2, 3, 250, 255, 90];
    let encrypted = aes.encrypt(&plain).unwrap();
    assert_ne!(encrypted, plain);
    let decrypted = aes.decrypt(&encrypted).unwrap();
    assert_eq!(decrypted, plain);
}

#[test]
fn cipher_without_key_fails() {
    let aes = Cipher::new(Vec::new());
    assert!(!aes.has_key());
    assert!(aes.encrypt(&[1u8, 2]) == Err(CryptoError::MissingKey));
    assert!(aes.decrypt(&[1u8, 2]) == Err(CryptoError::MissingKey));
}

#[test]
fn management_encoding_exact_bytes() {
    let inner = MediaManagementPacket { event_type: EventType::Subscribe, email: "A".to_string() };
    let bytes = encode_management(&inner);
    assert_eq!(
        bytes,
        vec![1u8, 1, 0, 0, 0, 0, 0, 0, 0, 65, 0, 0, 0]
    );
}

#[test]
fn heartbeat_encoding_exact_bytes() {
    let inner = MediaPacket {
        media_type: MediaType::Heartbeat,
        email: "A".to_string(),
        timestamp: 0x0102_0304_0506_0708,
    };
    let bytes = encode_heartbeat(&inner);
    assert_eq!(
        bytes,
        vec![1u8, 8, 7, 6, 5, 4, 3, 2, 1, 1, 0, 0, 0, 0, 0, 0, 0, 65, 0, 0, 0]
    );
}

#[test]
fn management_decode_round_trip_multibyte() {
    let inner = MediaManagementPacket {
        event_type: EventType::Unsubscribe,
        email: "p\u{00e9}\u{1f600}".to_string(),
    };
    let bytes = encode_management(&inner);
    let back = decode_management(&bytes).unwrap();
    assert!(back.event_type == EventType::Unsubscribe);
    assert_eq!(back.email.as_str(), "p\u{00e9}\u{1f600}");
}

#[test]
fn decode_rejects_damaged_input() {
    assert!(decode_management(&[]).is_none());
    assert!(decode_management(&[1u8, 0, 0, 0, 0, 0, 0, 0]).is_none());
    // unknown event tag
    assert!(decode_management(&[9u8, 0, 0, 0, 0, 0, 0, 0, 0]).is_none());
    // length does not match the payload
    assert!(decode_management(&[1u8, 2, 0, 0, 0, 0, 0, 0, 0, 65, 0, 0, 0]).is_none());
    // a surrogate is not a scalar value
    assert!(decode_management(&[1u8, 1, 0, 0, 0, 0, 0, 0, 0, 0x00, 0xd8, 0, 0]).is_none());
}

#[test]
fn subscribe_packet_round_trip() {
    let aes = cipher();
    let mut log = PacketLog::new();
    send_command(
        &mut log,
        &aes,
        "bob".to_string(),
        ManagementCommand::SubscribeTo("alice".to_string()),
    );
    let sent = log.packets();
    assert_eq!(sent.len(), 1);
    assert_eq!(sent[0].email.as_str(), "bob");
    assert!(sent[0].packet_type == PacketType::MediaManagement);
    let plain = aes.decrypt(&sent[0].data).unwrap();
    let inner = decode_management(&plain).unwrap();
    assert!(inner.event_type == EventType::Subscribe);
    assert_eq!(inner.email.as_str(), "alice");
}

#[test]
fn unsubscribe_packet_names_the_peer() {
    let aes = cipher();
    let mut log = PacketLog::new();
    send_command(
        &mut log,
        &aes,
        "bob".to_string(),
        ManagementCommand::UnSubscribeFrom("alice".to_string()),
    );
    let plain = aes.decrypt(&log.packets()[0].data).unwrap();
    let inner = decode_management(&plain).unwrap();
    assert!(inner.event_type == EventType::Unsubscribe);
    assert_eq!(inner.email.as_str(), "alice");
}

#[test]
fn stream_notification_is_self_addressed() {
    let aes = cipher();
    let mut log = PacketLog::new();
    send_command(&mut log, &aes, "bob".to_string(), ManagementCommand::NotifyOngoinStream);
    let sent = log.packets();
    assert_eq!(sent.len(), 1);
    assert_eq!(sent[0].email.as_str(), "bob");
    let plain = aes.decrypt(&sent[0].data).unwrap();
    let inner = decode_management(&plain).unwrap();
    assert!(inner.event_type == EventType::OngoingStream);
    assert_eq!(inner.email.as_str(), "bob");
}

#[test]
fn management_build_fails_without_key() {
    let aes = Cipher::new(Vec::new());
    let r = prepare_media_management_packet(
        &aes,
        "bob".to_string(),
        "alice".to_string(),
        EventType::Subscribe,
    );
    assert!(r.is_err());
}

#[test]
fn heartbeat_packet_payload_is_the_encrypted_heartbeat() {
    let aes = cipher();
    let packet = prepare_heartbeat_packet(&aes, "bob".to_string(), 777).unwrap();
    assert!(packet.packet_type == PacketType::MediaMandatory);
    assert_eq!(packet.email.as_str(), "bob");
    let inner = MediaPacket {
        media_type: MediaType::Heartbeat,
        email: "bob".to_string(),
        timestamp: 777,
    };
    let expected = encode_heartbeat(&inner);
    assert_ne!(packet.data, expected);
    assert_eq!(aes.decrypt(&packet.data).unwrap(), expected);
}

#[test]
fn heartbeat_build_fails_without_key() {
    let aes = Cipher::new(Vec::new());
    assert!(prepare_heartbeat_packet(&aes, "bob".to_string(), 1).is_err());
}

#[test]
fn cloned_cipher_state_decrypts_the_original() {
    let aes = cipher();
    let copy = aes.clone_state();
    let plain = vec![9u8, 8, 7];
    let encrypted = aes.encrypt(&plain).unwrap();
    assert_eq!(copy.decrypt(&encrypted).unwrap(), plain);
}
