use p2pmessage::types::{
    AgentKey, BatchSize, FileMetadata, FileType, P2PMessage, P2PMessageFilterAgentTimestamp,
    P2PMessageFilterBatch, P2PMessageReceipt, Payload, PayloadType, Status, Timestamp,
};
use p2pmessage::hash::content_hash;
use p2pmessage::tables::{AgentMessages, MessageContents};
use p2pmessage::assembly::{get_latest_messages, get_messages_by_agent_by_timestamp, get_next_batch_messages};
use p2pmessage::adjacent::get_adjacent_messages_handler;

fn ts(secs: i64) -> Timestamp {
    Timestamp { secs, nanos: 0 }
}

fn text_message(author: u64, receiver: u64, body: &str, secs: i64) -> P2PMessage {
    P2PMessage {
        author: AgentKey { raw: author },
        receiver: AgentKey { raw: receiver },
        payload: Payload::Text { payload: body.to_string() },
        time_sent: ts(secs),
        reply_to: None,
    }
}

fn file_message(author: u64, receiver: u64, file_type: FileType, secs: i64) -> P2PMessage {
    P2PMessage {
        author: AgentKey { raw: author },
        receiver: AgentKey { raw: receiver },
        payload: Payload::File {
            metadata: FileMetadata {
                file_name: "a.bin".to_string(),
                file_size: 4,
                file_type: file_type.clone(),
                file_hash: "abcd".to_string(),
            },
            file_type,
        },
        time_sent: ts(secs),
        reply_to: None,
    }
}

fn bucket_of(am: &AgentMessages, key: u64) -> Vec<u64> {
    for (k, hashes) in am.0.iter() {
        if k.raw == key {
            return hashes.iter().map(|h| h.raw).collect();
        }
    }
    panic!("no bucket for key {}", key);
}

fn has_bucket(am: &AgentMessages, key: u64) -> bool {
    am.0.iter().any(|(k, _)| k.raw == key)
}

fn contains_message(mc: &MessageContents, h: u64) -> bool {
    mc.0.iter().any(|(k, _)| k.raw == h)
}

#[test]
fn latest_messages_cap_per_bucket() {
    let me = AgentKey { raw: 1 };
    let log = vec![
        text_message(1, 2, "a", 100),
        text_message(2, 1, "b", 101),
        text_message(1, 2, "c", 102),
        text_message(1, 3, "d", 103),
    ];
    let receipts: Vec<P2PMessageReceipt> = Vec::new();
    let tables = get_latest_messages(&log, &receipts, me, BatchSize(2));
    // Conversant 2 saw three messages; the cap keeps the first two scanned.
    let b2 = bucket_of(&tables.0, 2);
    assert_eq!(b2.len(), 2);
    assert_eq!(b2[0], content_hash(&log[0]).raw);
    assert_eq!(b2[1], content_hash(&log[1]).raw);
    let b3 = bucket_of(&tables.0, 3);
    assert_eq!(b3, vec![content_hash(&log[3]).raw]);
    // Every bucketed id has its bundle.
    assert!(contains_message(&tables.1, content_hash(&log[0]).raw));
    assert!(contains_message(&tables.1, content_hash(&log[1]).raw));
    assert!(!contains_message(&tables.1, content_hash(&log[2]).raw));
}

#[test]
fn latest_messages_attaches_receipts() {
    let me = AgentKey { raw: 1 };
    let log = vec![text_message(1, 2, "hello", 100)];
    let mid = content_hash(&log[0]);
    let receipt = P2PMessageReceipt { id: mid, status: Status::Delivered { timestamp: ts(101) } };
    let unrelated = P2PMessageReceipt {
        id: p2pmessage::types::ContentHash { raw: 424242 },
        status: Status::Sent,
    };
    let receipts = vec![receipt, unrelated];
    let tables = get_latest_messages(&log, &receipts, me, BatchSize(5));
    let rh = p2pmessage::hash::receipt_hash(&receipt);
    let bundle = tables.1.get(mid).expect("bundle present");
    assert_eq!(bundle.1.len(), 1);
    assert_eq!(bundle.1[0].raw, rh.raw);
    let stored = tables.2.get(rh).expect("receipt stored");
    assert_eq!(*stored, receipt);
    assert_eq!(tables.2.len(), 1);
}

#[test]
fn day_window_is_inclusive_and_tight() {
    let conversant = AgentKey { raw: 7 };
    let day_start: i64 = 86400 * 10;
    let log = vec![
        text_message(7, 8, "before", day_start - 1),
        text_message(7, 8, "first", day_start),
        text_message(8, 7, "last", day_start + 86399),
        text_message(7, 8, "after", day_start + 86400),
    ];
    let receipts: Vec<P2PMessageReceipt> = Vec::new();
    let filter = P2PMessageFilterAgentTimestamp {
        conversant,
        date: ts(day_start + 500),
        payload_type: PayloadType::All,
    };
    let tables = get_messages_by_agent_by_timestamp(&log, &receipts, filter);
    let bucket = bucket_of(&tables.0, 7);
    assert_eq!(bucket, vec![content_hash(&log[1]).raw, content_hash(&log[2]).raw]);
    assert!(!contains_message(&tables.1, content_hash(&log[0]).raw));
    assert!(!contains_message(&tables.1, content_hash(&log[3]).raw));
}

#[test]
fn day_window_requires_conversant_match() {
    let conversant = AgentKey { raw: 7 };
    let log = vec![text_message(5, 6, "other conversation", 86400 * 10 + 5)];
    let receipts: Vec<P2PMessageReceipt> = Vec::new();
    let filter = P2PMessageFilterAgentTimestamp {
        conversant,
        date: ts(86400 * 10),
        payload_type: PayloadType::All,
    };
    let tables = get_messages_by_agent_by_timestamp(&log, &receipts, filter);
    assert_eq!(bucket_of(&tables.0, 7), Vec::<u64>::new());
    assert!(!contains_message(&tables.1, content_hash(&log[0]).raw));
}

#[test]
fn next_batch_stops_at_batch_size() {
    let conversant = AgentKey { raw: 2 };
    let log = vec![text_message(1, 2, "a", 100), text_message(1, 2, "b", 105)];
    let receipts: Vec<P2PMessageReceipt> = Vec::new();
    let filter = P2PMessageFilterBatch {
        conversant,
        batch_size: 1,
        payload_type: PayloadType::All,
        last_fetched_timestamp: None,
        last_fetched_message_id: None,
    };
    let tables = get_next_batch_messages(&log, &receipts, filter, ts(1000));
    // The scan exits early: only the first match is taken.
    assert_eq!(bucket_of(&tables.0, 2), vec![content_hash(&log[0]).raw]);
    assert!(!contains_message(&tables.1, content_hash(&log[1]).raw));
}

#[test]
fn next_batch_cursor_excludes_cursor_message() {
    let conversant = AgentKey { raw: 2 };
    let log = vec![text_message(1, 2, "a", 100), text_message(1, 2, "b", 102)];
    let receipts: Vec<P2PMessageReceipt> = Vec::new();
    let cursor_id = content_hash(&log[1]);
    let filter = P2PMessageFilterBatch {
        conversant,
        batch_size: 10,
        payload_type: PayloadType::All,
        last_fetched_timestamp: Some(ts(103)),
        last_fetched_message_id: Some(cursor_id),
    };
    let tables = get_next_batch_messages(&log, &receipts, filter, ts(1000));
    // With a cursor id set, the cursor message itself is excluded and the
    // earlier message (at or below the boundary) is taken.
    assert_eq!(bucket_of(&tables.0, 2), vec![content_hash(&log[0]).raw]);
}

#[test]
fn next_batch_media_filter_selects_image_and_video_only() {
    // The payload-type matrix is the same in every retrieval mode: Media
    // admits image and video files and excludes text and other files.
    let conversant = AgentKey { raw: 2 };
    let log = vec![
        text_message(1, 2, "text", 100),
        file_message(1, 2, FileType::Image { thumbnail: vec![1] }, 101),
        file_message(1, 2, FileType::Other, 102),
    ];
    let receipts: Vec<P2PMessageReceipt> = Vec::new();
    let filter = P2PMessageFilterBatch {
        conversant,
        batch_size: 10,
        payload_type: PayloadType::Media,
        last_fetched_timestamp: None,
        last_fetched_message_id: None,
    };
    let tables = get_next_batch_messages(&log, &receipts, filter, ts(1000));
    assert_eq!(bucket_of(&tables.0, 2), vec![content_hash(&log[1]).raw]);
}

#[test]
fn next_batch_defaults_boundary_to_now() {
    // With a cursor id but no cursor timestamp, the boundary is the current
    // time, so an already-logged message classifies as older and is taken.
    let conversant = AgentKey { raw: 2 };
    let log = vec![text_message(1, 2, "a", 100)];
    let receipts: Vec<P2PMessageReceipt> = Vec::new();
    let filter = P2PMessageFilterBatch {
        conversant,
        batch_size: 10,
        payload_type: PayloadType::All,
        last_fetched_timestamp: None,
        last_fetched_message_id: Some(content_hash(&text_message(9, 9, "elsewhere", 1))),
    };
    let tables = get_next_batch_messages(&log, &receipts, filter, ts(1000));
    assert_eq!(bucket_of(&tables.0, 2), vec![content_hash(&log[0]).raw]);
}

#[test]
fn adjacent_media_filter_matches_image_and_video_only() {
    let conversant = AgentKey { raw: 2 };
    let log = vec![
        text_message(1, 2, "text", 100),
        file_message(1, 2, FileType::Image { thumbnail: vec![1] }, 101),
        file_message(2, 1, FileType::Video { thumbnail: vec![2] }, 102),
        file_message(1, 2, FileType::Other, 103),
    ];
    let receipts: Vec<P2PMessageReceipt> = Vec::new();
    let filter = P2PMessageFilterBatch {
        conversant,
        batch_size: 10,
        payload_type: PayloadType::Media,
        last_fetched_timestamp: None,
        last_fetched_message_id: None,
    };
    let tables = get_adjacent_messages_handler(&log, &receipts, filter, ts(1000));
    // The log is reversed into chronological order first, so with the log
    // arriving newest-last here, the reversed scan sees 103,102,101,100.
    let bucket = bucket_of(&tables.0, 2);
    assert_eq!(
        bucket,
        vec![content_hash(&log[2]).raw, content_hash(&log[1]).raw],
    );
    assert!(!contains_message(&tables.1, content_hash(&log[0]).raw));
    assert!(!contains_message(&tables.1, content_hash(&log[3]).raw));
}

#[test]
fn adjacent_attaches_reply_to_parent_bundle() {
    // X sent a message at t=100; Y replied at t=105 referencing it. A page
    // including the original carries the reply id in its bundle.
    let x = 1u64;
    let y = 2u64;
    let m1 = text_message(x, y, "original", 100);
    let h1 = content_hash(&m1);
    let mut m2 = text_message(y, x, "the reply", 105);
    m2.reply_to = Some(h1);
    let h2 = content_hash(&m2);
    let log = vec![m1, m2];
    let receipts: Vec<P2PMessageReceipt> = Vec::new();
    let filter = P2PMessageFilterBatch {
        conversant: AgentKey { raw: y },
        batch_size: 10,
        payload_type: PayloadType::All,
        last_fetched_timestamp: None,
        last_fetched_message_id: None,
    };
    let tables = get_adjacent_messages_handler(&log, &receipts, filter, ts(1000));
    let bundle = tables.1.get(h1).expect("original assembled");
    assert!(bundle.1.iter().any(|a| a.raw == h2.raw));
}

#[test]
fn adjacent_unmatched_reply_is_dropped_silently() {
    let y = 2u64;
    let mut m = text_message(1, y, "reply to something absent", 100);
    m.reply_to = Some(p2pmessage::types::ContentHash { raw: 999_999 });
    let h = content_hash(&m);
    let log = vec![m];
    let receipts: Vec<P2PMessageReceipt> = Vec::new();
    let filter = P2PMessageFilterBatch {
        conversant: AgentKey { raw: y },
        batch_size: 10,
        payload_type: PayloadType::All,
        last_fetched_timestamp: None,
        last_fetched_message_id: None,
    };
    let tables = get_adjacent_messages_handler(&log, &receipts, filter, ts(1000));
    // The reply message itself is assembled; its unmatched parent causes no
    // attachment and no error.
    let bundle = tables.1.get(h).expect("reply assembled");
    assert_eq!(bundle.1.len(), 0);
}

#[test]
fn adjacent_truncates_newer_pool_to_most_recent() {
    // Three messages at or past the boundary, batch size two: only the two
    // most recent survive; the oldest of the pool is dropped from this call.
    let conversant = AgentKey { raw: 2 };
    let m_old = text_message(1, 2, "older", 50);
    let l1 = text_message(1, 2, "later one", 100);
    let l2 = text_message(2, 1, "later two", 110);
    let l3 = text_message(1, 2, "later three", 120);
    // Newest-first log order, as the adapter scans it.
    let log = vec![l3.clone(), l2.clone(), l1.clone(), m_old.clone()];
    let receipts: Vec<P2PMessageReceipt> = Vec::new();
    let filter = P2PMessageFilterBatch {
        conversant,
        batch_size: 2,
        payload_type: PayloadType::All,
        last_fetched_timestamp: Some(ts(100)),
        last_fetched_message_id: Some(content_hash(&text_message(9, 9, "elsewhere", 1))),
    };
    let tables = get_adjacent_messages_handler(&log, &receipts, filter, ts(1000));
    let bucket = bucket_of(&tables.0, 2);
    // The older message fills the older side; the kept suffix of the newer
    // pool follows, oldest first.
    assert_eq!(
        bucket,
        vec![
            content_hash(&m_old).raw,
            content_hash(&l2).raw,
            content_hash(&l3).raw,
        ],
    );
    assert!(!contains_message(&tables.1, content_hash(&l1).raw));
}

#[test]
fn latest_batch_zero_returns_no_ids() {
    // The cap is checked before inserting, so a batch of zero admits
    // nothing and no bucket is created.
    let me = AgentKey { raw: 1 };
    let log = vec![text_message(1, 2, "a", 100), text_message(1, 2, "b", 101)];
    let receipts: Vec<P2PMessageReceipt> = Vec::new();
    let tables = get_latest_messages(&log, &receipts, me, BatchSize(0));
    assert!(!has_bucket(&tables.0, 2));
    assert!(tables.1.0.is_empty());
}

#[test]
fn adjacent_batch_zero_returns_no_ids() {
    let conversant = AgentKey { raw: 2 };
    let log = vec![text_message(1, 2, "old", 100), text_message(1, 2, "new", 2000)];
    let receipts: Vec<P2PMessageReceipt> = Vec::new();
    let filter = P2PMessageFilterBatch {
        conversant,
        batch_size: 0,
        payload_type: PayloadType::All,
        last_fetched_timestamp: Some(ts(1000)),
        last_fetched_message_id: Some(content_hash(&text_message(9, 9, "elsewhere", 1))),
    };
    let tables = get_adjacent_messages_handler(&log, &receipts, filter, ts(5000));
    // Neither the older side nor the truncated newer pool admits anything.
    assert_eq!(bucket_of(&tables.0, 2), Vec::<u64>::new());
}

#[test]
fn day_media_filter_selects_image_and_video_only() {
    let conversant = AgentKey { raw: 7 };
    let day_start: i64 = 86400 * 4;
    let log = vec![
        text_message(7, 8, "words", day_start + 1),
        file_message(7, 8, FileType::Video { thumbnail: vec![3] }, day_start + 2),
        file_message(8, 7, FileType::Other, day_start + 3),
    ];
    let receipts: Vec<P2PMessageReceipt> = Vec::new();
    let filter = P2PMessageFilterAgentTimestamp {
        conversant,
        date: ts(day_start),
        payload_type: PayloadType::Media,
    };
    let tables = get_messages_by_agent_by_timestamp(&log, &receipts, filter);
    assert_eq!(bucket_of(&tables.0, 7), vec![content_hash(&log[1]).raw]);
}

#[test]
fn latest_keys_third_party_message_by_author() {
    // A message in which `me` appears on neither side still lands in a
    // bucket: the one keyed by its author.
    let me = AgentKey { raw: 1 };
    let log = vec![text_message(8, 9, "between others", 100)];
    let receipts: Vec<P2PMessageReceipt> = Vec::new();
    let tables = get_latest_messages(&log, &receipts, me, BatchSize(4));
    assert_eq!(bucket_of(&tables.0, 8), vec![content_hash(&log[0]).raw]);
    assert!(!has_bucket(&tables.0, 9));
}

#[test]
fn day_text_filter_excludes_file_payloads() {
    let conversant = AgentKey { raw: 7 };
    let day_start: i64 = 86400 * 3;
    let log = vec![
        text_message(7, 8, "words", day_start + 10),
        file_message(7, 8, FileType::Image { thumbnail: vec![1] }, day_start + 20),
    ];
    let receipts: Vec<P2PMessageReceipt> = Vec::new();
    let filter = P2PMessageFilterAgentTimestamp {
        conversant,
        date: ts(day_start),
        payload_type: PayloadType::Text,
    };
    let tables = get_messages_by_agent_by_timestamp(&log, &receipts, filter);
    assert_eq!(bucket_of(&tables.0, 7), vec![content_hash(&log[0]).raw]);
}

#[test]
fn has_bucket_only_for_seen_conversants() {
    let me = AgentKey { raw: 1 };
    let log = vec![text_message(1, 2, "a", 100)];
    let receipts: Vec<P2PMessageReceipt> = Vec::new();
    let tables = get_latest_messages(&log, &receipts, me, BatchSize(2));
    assert!(has_bucket(&tables.0, 2));
    assert!(!has_bucket(&tables.0, 3));
}
