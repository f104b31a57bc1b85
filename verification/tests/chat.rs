use gossip::bridge::BridgeCommand;
use gossip::chat::{last_part, ChatBook};

#[test]
fn last_part_follows_the_last_slash() {
    assert_eq!(last_part(&b"/ip4/1.2.3.4/tcp/5/p2p/Qm".to_vec()), b"Qm".to_vec());
    assert_eq!(last_part(&b"plain".to_vec()), b"plain".to_vec());
    assert_eq!(last_part(&b"ends/".to_vec()), Vec::<u8>::new());
    assert_eq!(last_part(&Vec::new()), Vec::<u8>::new());
}

#[test]
fn received_message_opens_a_chat_once() {
    let mut book = ChatBook::new();
    assert_eq!(book.record_received(b"alice".to_vec(), b"hi".to_vec()), 0);
    assert_eq!(book.record_received(b"bob".to_vec(), b"yo".to_vec()), 1);
    assert_eq!(book.record_received(b"alice".to_vec(), b"again".to_vec()), 0);
    assert_eq!(book.chats.len(), 2);
    assert_eq!(book.chats[0].chat_name, b"new".to_vec());
    assert_eq!(book.chats[0].chat_peer_id, b"alice".to_vec());
    assert_eq!(book.chats[0].messages.len(), 2);
    assert_eq!(book.chats[0].messages[1].text, b"again".to_vec());
    assert_eq!(book.chats[0].messages[1].sender, b"alice".to_vec());
    assert_eq!(book.chats[1].messages.len(), 1);
}

#[test]
fn added_peer_chat_is_named_by_the_last_part() {
    let mut book = ChatBook::new();
    book.add_peer_chat(&b"/ip4/1.2.3.4/tcp/5/p2p/Qm".to_vec());
    assert_eq!(book.chats[0].chat_peer_id, b"Qm".to_vec());
    assert!(book.chats[0].messages.is_empty());
    assert_eq!(book.record_received(b"Qm".to_vec(), b"hi".to_vec()), 0);
}

#[test]
fn sent_line_is_filed_under_me() {
    let mut book = ChatBook::new();
    assert!(book.record_sent(b"lost".to_vec()).is_none());
    book.add_peer_chat(&b"a".to_vec());
    book.add_peer_chat(&b"b".to_vec());
    book.select(1);
    book.select(7);
    assert_eq!(book.chat_index, 1);
    match book.record_sent(b"hello".to_vec()) {
        Some(BridgeCommand::Send { topic, payload }) => {
            assert_eq!(topic, b"new".to_vec());
            assert_eq!(payload, b"hello".to_vec());
        }
        _ => panic!("no command"),
    }
    assert_eq!(book.chats[1].messages[0].sender, b"me".to_vec());
    assert_eq!(book.chats[1].messages[0].text, b"hello".to_vec());
    assert!(book.chats[0].messages.is_empty());
}
