use videocall_client::crypto::Cipher;
use videocall_client::peer_subscribtion_manager::PeerSubscribtionManager;
use videocall_client::peer_subscribtion_manager::Reason;
use videocall_client::peer_subscribtion_manager::LIMIT;
use videocall_client::send_packet::PacketLog;
use videocall_client::wire::PacketType;

fn manager() -> PeerSubscribtionManager {
    PeerSubscribtionManager::new("bob".to_string(), Cipher::new(vec![42u8, 3, 17]))
}

#[test]
fn subscribe_inserts_and_sends_one_packet() {
    let mut m = manager();
    let mut log = PacketLog::new();
    m.subscribe(Reason::AutoSubscribe("alice".to_string()), &mut log);
    assert!(m.is_subscribed_to(&"alice".to_string()));
    let sent = log.packets();
    assert_eq!(sent.len(), 1);
    assert_eq!(sent[0].email.as_str(), "bob");
    assert!(sent[0].packet_type == PacketType::MediaManagement);
}

#[test]
fn duplicate_subscribe_is_rejected() {
    let mut m = manager();
    let mut log = PacketLog::new();
    m.subscribe(Reason::AutoSubscribe("alice".to_string()), &mut log);
    m.subscribe(Reason::AutoSubscribe("alice".to_string()), &mut log);
    assert!(m.is_subscribed_to(&"alice".to_string()));
    assert_eq!(log.packets().len(), 1);
    m.unsubscribe(&"alice".to_string());
    assert!(!m.is_subscribed_to(&"alice".to_string()));
}

#[test]
fn subscribe_beyond_capacity_is_rejected() {
    let mut m = manager();
    let mut log = PacketLog::new();
    for i in 0..LIMIT {
        m.subscribe(Reason::AutoSubscribe(format!("peer-{}", i)), &mut log);
    }
    assert_eq!(log.packets().len(), LIMIT);
    m.subscribe(Reason::AutoSubscribe("late-arrival".to_string()), &mut log);
    assert!(!m.is_subscribed_to(&"late-arrival".to_string()));
    assert_eq!(log.packets().len(), LIMIT);
    for i in 0..LIMIT {
        assert!(m.is_subscribed_to(&format!("peer-{}", i)));
    }
}

#[test]
fn duplicate_subscribe_at_capacity_changes_nothing() {
    let mut m = manager();
    let mut log = PacketLog::new();
    for i in 0..LIMIT {
        m.subscribe(Reason::AutoSubscribe(format!("peer-{}", i)), &mut log);
    }
    m.subscribe(Reason::AutoSubscribe("peer-0".to_string()), &mut log);
    assert!(m.is_subscribed_to(&"peer-0".to_string()));
    assert_eq!(log.packets().len(), LIMIT);
}

#[test]
fn unsubscribe_non_member_is_a_no_op() {
    let mut m = manager();
    assert!(!m.is_subscribed_to(&"ghost".to_string()));
    m.unsubscribe(&"ghost".to_string());
    assert!(!m.is_subscribed_to(&"ghost".to_string()));
}

#[test]
fn unsubscribe_frees_a_slot_and_sends_nothing() {
    let mut m = manager();
    let mut log = PacketLog::new();
    for i in 0..LIMIT {
        m.subscribe(Reason::AutoSubscribe(format!("peer-{}", i)), &mut log);
    }
    m.unsubscribe(&"peer-3".to_string());
    assert!(!m.is_subscribed_to(&"peer-3".to_string()));
    assert_eq!(log.packets().len(), LIMIT);
    m.subscribe(Reason::AutoSubscribe("replacement".to_string()), &mut log);
    assert!(m.is_subscribed_to(&"replacement".to_string()));
    assert_eq!(log.packets().len(), LIMIT + 1);
}
