use p2pmessage::types::{
    AgentKey, ContentHash, MessageAndReceipt, MessageInput, P2pError, P2PFileBytes, P2PMessage,
    P2PMessageReceipt, P2PTypingDetailIO, Payload, PayloadInput, ReceiveMessageInput,
    RemoteCallFailure, Status, Timestamp,
};
use p2pmessage::hash::{content_hash, receipt_hash};
use p2pmessage::coordinator::{
    read_message, receive_message, receive_message_handler, send_message_outcome,
    send_message_request, typing, ReadReceiptInput,
};
use p2pmessage::signals::{Signal, SignalName};
use p2pmessage::policy::{init, AccessLevel, GrantTag, OperationName};
use p2pmessage::utils::address_deduper;

fn ts(secs: i64) -> Timestamp {
    Timestamp { secs, nanos: 0 }
}

fn text_input(receiver: u64, body: &str) -> MessageInput {
    MessageInput {
        receiver: AgentKey { raw: receiver },
        payload: PayloadInput::Text { payload: body.to_string() },
        reply_to: None,
    }
}

#[test]
fn content_hash_is_stable_and_content_only() {
    let x = AgentKey { raw: 1 };
    let input = text_input(2, "hello");
    let m = P2PMessage::from_input(input, x, ts(100));
    let h1 = content_hash(&m);
    let h2 = content_hash(&m);
    assert_eq!(h1, h2);
    // Creating and hashing an unrelated entity changes nothing.
    let other = P2PMessage::from_input(text_input(3, "unrelated"), x, ts(500));
    let _ = content_hash(&other);
    let h3 = content_hash(&m);
    assert_eq!(h1, h3);
}

#[test]
fn send_then_receive_round_trips_the_hash() {
    // Peer A builds and sends; peer B receives. The receipt B returns
    // references exactly the transmitted message's content hash.
    let a = AgentKey { raw: 1 };
    let (message, file) = send_message_request(text_input(2, "hi"), a, ts(100));
    assert!(file.is_none());
    let transmitted = message.clone();
    let log_b: Vec<P2PMessage> = Vec::new();
    let (receipt, _signal) = receive_message_handler(
        ReceiveMessageInput(transmitted, None),
        &log_b,
        ts(105),
    );
    assert_eq!(receipt.id, content_hash(&message));
    match receipt.status {
        Status::Delivered { timestamp } => assert!(timestamp.secs >= 100),
        _ => panic!("expected a delivered status"),
    }
    // Back on A, the successful outcome commits message and receipt.
    let out = send_message_outcome(message, Ok(receipt));
    let MessageAndReceipt(m, r) = out.expect("send succeeds");
    assert_eq!(r.id, content_hash(&m));
}

#[test]
fn receive_message_emits_arrival_signal_without_reply() {
    // Scenario: X sends a text message to Y at t=100 with no reply target.
    let x = AgentKey { raw: 1 };
    let message = P2PMessage::from_input(text_input(2, "hello y"), x, ts(100));
    let log_y: Vec<P2PMessage> = Vec::new();
    let (receipt, signal) = receive_message_handler(
        ReceiveMessageInput(message.clone(), None),
        &log_y,
        ts(100),
    );
    match receipt.status {
        Status::Delivered { timestamp } => assert!(timestamp.secs >= 100),
        _ => panic!("expected a delivered status"),
    }
    assert_eq!(signal.name, SignalName::ReceiveP2pMessage);
    match signal.payload {
        Signal::Message(ms) => {
            assert_eq!(ms.message.message_hash, content_hash(&message));
            assert!(ms.message.message.reply_to.is_none());
            assert_eq!(ms.message.receipt, receipt);
            assert_eq!(ms.message.receipt_hash, receipt_hash(&receipt));
        },
        _ => panic!("expected a message signal"),
    }
}

#[test]
fn receive_message_resolves_present_reply_target() {
    let x = AgentKey { raw: 1 };
    let parent = P2PMessage::from_input(text_input(2, "first"), x, ts(100));
    let parent_hash = content_hash(&parent);
    let mut reply_input = text_input(1, "answer");
    reply_input.reply_to = Some(parent_hash);
    let reply = P2PMessage::from_input(reply_input, AgentKey { raw: 2 }, ts(105));
    let log = vec![parent.clone()];
    let (_receipt, signal) = receive_message_handler(
        ReceiveMessageInput(reply, None),
        &log,
        ts(105),
    );
    match signal.payload {
        Signal::Message(ms) => {
            let ctx = ms.message.message.reply_to.expect("reply context resolved");
            assert_eq!(ctx.hash, parent_hash);
            assert_eq!(ctx.author.raw, 1);
            assert_eq!(ctx.receiver.raw, 2);
            assert_eq!(ctx.time_sent.secs, 100);
        },
        _ => panic!("expected a message signal"),
    }
}

#[test]
fn receive_message_leaves_unmatched_reply_unresolved() {
    let mut reply_input = text_input(1, "answer");
    reply_input.reply_to = Some(ContentHash { raw: 123_456 });
    let reply = P2PMessage::from_input(reply_input, AgentKey { raw: 2 }, ts(105));
    let log: Vec<P2PMessage> = Vec::new();
    let (_receipt, signal) = receive_message_handler(
        ReceiveMessageInput(reply, None),
        &log,
        ts(105),
    );
    match signal.payload {
        Signal::Message(ms) => assert!(ms.message.message.reply_to.is_none()),
        _ => panic!("expected a message signal"),
    }
}

#[test]
fn receive_message_plain_variant_builds_the_receipt() {
    let message = P2PMessage::from_input(text_input(2, "hi"), AgentKey { raw: 1 }, ts(100));
    let input = ReceiveMessageInput(message.clone(), None);
    let receipt = receive_message(&input, ts(101));
    assert_eq!(receipt.id, content_hash(&message));
    assert_eq!(receipt.status, Status::Delivered { timestamp: ts(101) });
}

#[test]
fn file_bytes_extraction() {
    let file_input = MessageInput {
        receiver: AgentKey { raw: 2 },
        payload: PayloadInput::File {
            file_name: "pic.png".to_string(),
            file_size: 3,
            file_type: p2pmessage::types::FileType::Image { thumbnail: vec![9, 9] },
            file_hash: "ff00".to_string(),
            bytes: vec![1, 2, 3],
        },
        reply_to: None,
    };
    let f = P2PFileBytes::from_input(file_input).expect("file payload has bytes");
    assert_eq!(f.0, vec![1, 2, 3]);
    // A text payload carries no bytes: that input is rejected.
    let e = P2PFileBytes::from_input(text_input(2, "words")).unwrap_err();
    assert_eq!(e, P2pError::InvalidInput);
}

#[test]
fn send_request_splits_file_bytes_off() {
    let file_input = MessageInput {
        receiver: AgentKey { raw: 2 },
        payload: PayloadInput::File {
            file_name: "clip.mp4".to_string(),
            file_size: 9,
            file_type: p2pmessage::types::FileType::Video { thumbnail: vec![7] },
            file_hash: "beef".to_string(),
            bytes: vec![4, 5, 6],
        },
        reply_to: None,
    };
    let (message, file) = send_message_request(file_input, AgentKey { raw: 1 }, ts(50));
    assert_eq!(file.expect("file present").0, vec![4, 5, 6]);
    match message.payload {
        Payload::File { metadata, .. } => {
            assert_eq!(metadata.file_name, "clip.mp4");
            assert_eq!(metadata.file_size, 9);
            assert_eq!(metadata.file_hash, "beef");
        },
        _ => panic!("expected a file payload"),
    }
}

#[test]
fn send_outcome_maps_transport_failures() {
    let m = P2PMessage::from_input(text_input(2, "x"), AgentKey { raw: 1 }, ts(1));
    let e = send_message_outcome(m.clone(), Err(RemoteCallFailure::Unreachable)).unwrap_err();
    assert_eq!(e, P2pError::NetworkUnreachable);
    let e = send_message_outcome(m.clone(), Err(RemoteCallFailure::Unauthorized)).unwrap_err();
    assert_eq!(e, P2pError::Unauthorized);
    let e = send_message_outcome(m, Err(RemoteCallFailure::Other)).unwrap_err();
    assert_eq!(e, P2pError::NetworkUnreachable);
}

#[test]
fn read_message_plans_commit_and_remote_call() {
    let receipt = P2PMessageReceipt {
        id: ContentHash { raw: 77 },
        status: Status::Read { timestamp: ts(500) },
    };
    let plan = read_message(ReadReceiptInput { receipt, sender: AgentKey { raw: 3 } });
    assert_eq!(plan.commit, receipt);
    assert_eq!(plan.payload, receipt);
    assert_eq!(plan.peer.raw, 3);
}

#[test]
fn read_receipt_builder_references_the_message_id() {
    let id = ContentHash { raw: 55 };
    let r = P2PMessageReceipt::read_receipt(id, ts(200));
    assert_eq!(r.id, id);
    assert_eq!(r.status, Status::Read { timestamp: ts(200) });
}

#[test]
fn typing_notice_goes_to_both_participants() {
    let me = AgentKey { raw: 1 };
    let peer = AgentKey { raw: 2 };
    let (signal, recipients) = typing(P2PTypingDetailIO { agent: peer, is_typing: true }, me);
    match signal {
        Signal::P2PTypingDetailSignal(ts_) => {
            assert_eq!(ts_.agent, me);
            assert!(ts_.is_typing);
        },
        _ => panic!("expected a typing signal"),
    }
    assert_eq!(recipients, vec![peer, me]);
}

#[test]
fn init_grants_open_the_receive_side() {
    let policy = init();
    let g = &policy.grants;
    assert_eq!(g.len(), 5);
    assert_eq!(g[0].tag, GrantTag::Receive);
    assert_eq!(g[0].operation, OperationName::ReceiveMessage);
    assert_eq!(g[1].tag, GrantTag::Notify);
    assert_eq!(g[1].operation, OperationName::NotifyDelivery);
    assert_eq!(g[2].tag, GrantTag::Untagged);
    assert_eq!(g[2].operation, OperationName::IsTyping);
    assert_eq!(g[3].tag, GrantTag::CreateGroupCapGrant);
    assert_eq!(g[3].operation, OperationName::RecvRemoteSignal);
    assert_eq!(g[4].tag, GrantTag::Receipt);
    assert_eq!(g[4].operation, OperationName::ReceiveReadReceipt);
    assert!(g.iter().all(|grant| grant.access == AccessLevel::Unrestricted));
}

#[test]
fn address_deduper_sorts_and_removes_duplicates() {
    let keys = vec![
        AgentKey { raw: 5 },
        AgentKey { raw: 3 },
        AgentKey { raw: 5 },
        AgentKey { raw: 1 },
    ];
    let out = address_deduper(keys);
    assert_eq!(out, vec![AgentKey { raw: 1 }, AgentKey { raw: 3 }, AgentKey { raw: 5 }]);
}
