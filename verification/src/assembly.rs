//! The conversation assembly engine: classifies every scanned message
//! against a filter, buckets accepted messages per conversant, and attaches
//! receipts. Three retrieval modes share the machinery:
//!
//! * full-batch retrieval caps every conversant's bucket independently, so
//!   one call pages several conversations at once;
//! * day retrieval returns one conversant's whole day, uncapped;
//! * next-batch retrieval resumes below a cursor and stops scanning as soon
//!   as the requested batch is full (an early exit, not a post-hoc cut).
//!
//! Design note: the cursor predicate of next-batch retrieval differs
//! deliberately from the one adjacency retrieval uses (see the `adjacent`
//! module); conversation continuity for existing clients depends on each
//! mode's exact predicate shape, so the two are specified separately and
//! must not be unified.

use vstd::prelude::*;
use crate::types::{
    AgentKey, BatchSize, ContentHash, MessageV, P2PMessage, P2PMessageFilterAgentTimestamp,
    P2PMessageFilterBatch, P2PMessageReceipt, PayloadType, PayloadV, Timestamp,
};
use crate::hash::{content_hash, spec_message_hash};
use crate::tables::{
    get_receipts, insert_message, old_bucket, receipts_scan, AgentMessages, BundleV,
    MessageContents, P2PMessageHashTables, ReceiptContents,
};

verus! {

/// The id a message will carry in the tables: its content hash.
pub open spec fn msg_id(m: MessageV) -> ContentHash {
    ContentHash { raw: spec_message_hash(m) }
}

/// The bucket map and contents map a scan accumulates.
#[verifier::ext_equal]
pub struct AssemblyAcc {
    pub buckets: Map<AgentKey, Seq<ContentHash>>,
    pub contents: Map<ContentHash, BundleV>,
}

/// Accepting a message: its id joins the bucket under `key` and its bundle
/// is recorded under its id.
pub open spec fn acc_insert(acc: AssemblyAcc, key: AgentKey, m: MessageV) -> AssemblyAcc {
    AssemblyAcc {
        buckets: acc.buckets.insert(key, old_bucket(acc.buckets, key).push(msg_id(m))),
        contents: acc.contents.insert(
            msg_id(m),
            BundleV { message: m, attachments: Seq::empty() },
        ),
    }
}

/// Which conversant's bucket a message belongs to in full-batch retrieval:
/// the other side of the conversation as seen from `me`.
pub open spec fn latest_key(m: MessageV, me: AgentKey) -> AgentKey {
    if m.author == me {
        m.receiver
    } else {
        m.author
    }
}

/// One step of full-batch retrieval: insert unless the message's bucket is
/// already at the cap. The cap is checked before inserting, whether or not
/// the bucket exists yet, so no bucket ever exceeds it and a cap of zero
/// admits nothing.
pub open spec fn latest_step(acc: AssemblyAcc, m: MessageV, me: AgentKey, cap: nat) -> AssemblyAcc {
    let k = latest_key(m, me);
    if old_bucket(acc.buckets, k).len() >= cap {
        acc
    } else {
        acc_insert(acc, k, m)
    }
}

/// Full-batch retrieval over a scanned log, front to back.
pub open spec fn latest_scan(log: Seq<MessageV>, me: AgentKey, cap: nat) -> AssemblyAcc
    decreases log.len(),
{
    if log.len() == 0 {
        AssemblyAcc { buckets: Map::empty(), contents: Map::empty() }
    } else {
        latest_step(latest_scan(log.drop_last(), me, cap), log.last(), me, cap)
    }
}

/// Batch cap: full-batch retrieval never grows any conversant's bucket past
/// the requested batch size, a zero batch included.
pub proof fn lemma_latest_batch_cap(log: Seq<MessageV>, me: AgentKey, cap: nat, k: AgentKey)
    ensures
        latest_scan(log, me, cap).buckets.contains_key(k) ==> latest_scan(
            log,
            me,
            cap,
        ).buckets[k].len() <= cap,
    decreases log.len(),
{
    if log.len() > 0 {
        lemma_latest_batch_cap(log.drop_last(), me, cap, k);
    }
}

/// The ids of one conversation's messages in scan order: every message
/// whose bucket key (as seen from `me`) is `k`, mapped to its content hash.
pub open spec fn conversation_ids(log: Seq<MessageV>, me: AgentKey, k: AgentKey) -> Seq<
    ContentHash,
>
    decreases log.len(),
{
    if log.len() == 0 {
        Seq::empty()
    } else {
        let prev = conversation_ids(log.drop_last(), me, k);
        if latest_key(log.last(), me) == k {
            prev.push(msg_id(log.last()))
        } else {
            prev
        }
    }
}

/// The shorter of a sequence's length and the cap.
pub open spec fn capped_len(len: int, cap: nat) -> int {
    if len < cap as int {
        len
    } else {
        cap as int
    }
}

/// A full-batch bucket, exactly: it exists when its conversation has a
/// message in the scan and the cap admits one, and it holds precisely the
/// first ids of that conversation in scan order, cut at the cap.
pub proof fn lemma_latest_bucket_exact(log: Seq<MessageV>, me: AgentKey, cap: nat, k: AgentKey)
    ensures
        latest_scan(log, me, cap).buckets.contains_key(k) <==> (conversation_ids(
            log,
            me,
            k,
        ).len() > 0 && cap >= 1),
        latest_scan(log, me, cap).buckets.contains_key(k) ==> latest_scan(log, me, cap).buckets[k]
            == conversation_ids(log, me, k).take(
            capped_len(conversation_ids(log, me, k).len() as int, cap),
        ),
    decreases log.len(),
{
    if log.len() > 0 {
        lemma_latest_bucket_exact(log.drop_last(), me, cap, k);
        let prev = latest_scan(log.drop_last(), me, cap);
        let cur = latest_scan(log, me, cap);
        let m = log.last();
        let kk = latest_key(m, me);
        let cid_prev = conversation_ids(log.drop_last(), me, k);
        let cid = conversation_ids(log, me, k);
        if kk == k {
            assert(cid =~= cid_prev.push(msg_id(m)));
            if old_bucket(prev.buckets, k).len() >= cap {
                if cap >= 1 {
                    // Skip: the bucket is full; the capped prefix does not
                    // move.
                    assert(prev.buckets.contains_key(k));
                    assert(cid_prev.len() > 0);
                    assert(prev.buckets[k].len() == capped_len(cid_prev.len() as int, cap));
                    assert(prev.buckets[k].len() == cap);
                    assert(cid.take(cap as int) =~= cid_prev.take(cap as int));
                    assert(cur.buckets[k] == cid.take(capped_len(cid.len() as int, cap)));
                } else {
                    assert(!prev.buckets.contains_key(k));
                    assert(cur == prev);
                }
            } else {
                if !prev.buckets.contains_key(k) {
                    assert(cid_prev.len() == 0 || cap == 0);
                    assert(cap >= 1);
                    assert(cid_prev.len() == 0);
                    assert(cid =~= seq![msg_id(m)]);
                    assert(old_bucket(prev.buckets, k).push(msg_id(m)) =~= cid.take(1));
                } else {
                    // Append below the cap: the bucket was the whole
                    // conversation so far, and stays so.
                    assert(capped_len(cid_prev.len() as int, cap) == cid_prev.len());
                    assert(cid_prev.take(cid_prev.len() as int) =~= cid_prev);
                    assert(old_bucket(prev.buckets, k).push(msg_id(m)) =~= cid);
                    assert(cid.take(capped_len(cid.len() as int, cap)) =~= cid);
                }
            }
        } else {
            assert(cid =~= cid_prev);
            if prev.buckets.contains_key(kk) && prev.buckets[kk].len() >= cap {
                assert(cur == prev);
            } else {
                assert(cur.buckets[k] == prev.buckets[k] || !prev.buckets.contains_key(k));
            }
        }
    } else {
        assert(conversation_ids(log, me, k).len() == 0);
    }
}

/// Co-indexing: every message id in a bucket has an entry in the contents
/// map.
pub proof fn lemma_latest_coindexed(log: Seq<MessageV>, me: AgentKey, cap: nat)
    ensures
        forall|k: AgentKey, h: ContentHash|
            latest_scan(log, me, cap).buckets.contains_key(k) && latest_scan(
                log,
                me,
                cap,
            ).buckets[k].contains(h) ==> latest_scan(log, me, cap).contents.contains_key(h),
    decreases log.len(),
{
    if log.len() > 0 {
        lemma_latest_coindexed(log.drop_last(), me, cap);
        let prev = latest_scan(log.drop_last(), me, cap);
        let cur = latest_scan(log, me, cap);
        assert forall|k: AgentKey, h: ContentHash|
            cur.buckets.contains_key(k) && cur.buckets[k].contains(h) implies cur
            .contents
            .contains_key(h) by {
            let kk = latest_key(log.last(), me);
            if old_bucket(prev.buckets, kk).len() >= cap {
                assert(cur == prev);
            } else {
                if k == kk && h != msg_id(log.last()) {
                    if cur.buckets[k].contains(h) {
                        let i = choose|i: int| 0 <= i < cur.buckets[k].len() && cur.buckets[k][i] == h;
                        assert(old_bucket(prev.buckets, kk).contains(h));
                    }
                }
            }
        }
    }
}

/// A scan attaches nothing itself: every bundle it assembles starts with an
/// empty attachment list.
pub proof fn lemma_latest_scan_fresh(log: Seq<MessageV>, me: AgentKey, cap: nat)
    ensures
        forall|h: ContentHash| #[trigger]
            latest_scan(log, me, cap).contents.contains_key(h) ==> latest_scan(
                log,
                me,
                cap,
            ).contents[h].attachments.len() == 0,
    decreases log.len(),
{
    if log.len() > 0 {
        lemma_latest_scan_fresh(log.drop_last(), me, cap);
    }
}

/// The three tables of a full-batch retrieval are co-indexed: every message
/// id in a bucket has a bundle under it in the contents table, and every
/// receipt id attached to a bundle has an entry in the receipt table.
pub proof fn lemma_latest_tables_coindexed(
    log: Seq<MessageV>,
    receipts: Seq<P2PMessageReceipt>,
    me: AgentKey,
    cap: nat,
)
    ensures
        ({
            let acc = latest_scan(log, me, cap);
            let pair = receipts_scan(receipts, acc.contents, Map::empty());
            &&& forall|k: AgentKey, h: ContentHash|
                acc.buckets.contains_key(k) && acc.buckets[k].contains(h) ==> pair.0.contains_key(
                    h,
                )
            &&& crate::tables::attachments_covered(pair.0, pair.1)
        }),
{
    let acc = latest_scan(log, me, cap);
    let rc0 = Map::<ContentHash, P2PMessageReceipt>::empty();
    lemma_latest_coindexed(log, me, cap);
    lemma_latest_scan_fresh(log, me, cap);
    crate::tables::lemma_receipts_scan_dom(receipts, acc.contents, rc0);
    crate::tables::lemma_receipts_scan_covered(receipts, acc.contents, rc0);
}

/// Retrieves the most recent messages of every conversation at once: every
/// scanned message joins the bucket of its conversant (as seen from `me`)
/// until that bucket holds `batch_size` ids, and every local receipt that
/// acknowledges an assembled message is attached to it.
pub fn get_latest_messages(
    message_log: &Vec<P2PMessage>,
    receipt_log: &Vec<P2PMessageReceipt>,
    me: AgentKey,
    batch_size: BatchSize,
) -> (r: P2PMessageHashTables)
    ensures
        r.0.wf() && r.1.wf() && r.2.wf(),
        ({
            let acc = latest_scan(message_log.deep_view(), me, batch_size.0 as nat);
            let pair = receipts_scan(receipt_log@, acc.contents, Map::empty());
            r.0@ == acc.buckets && r.1@ == pair.0 && r.2@ == pair.1
        }),
{
    let ghost logv = message_log.deep_view();
    let ghost cap = batch_size.0 as nat;
    let mut agent_messages = AgentMessages::new();
    let mut message_contents = MessageContents::new();
    let mut receipt_contents = ReceiptContents::new();
    let mut i: usize = 0;
    proof {
        assert(logv.take(0) =~= Seq::<MessageV>::empty());
    }
    while i < message_log.len()
        invariant
            i <= logv.len(),
            logv == message_log.deep_view(),
            logv.len() == message_log@.len(),
            cap == batch_size.0 as nat,
            agent_messages.wf(),
            message_contents.wf(),
            agent_messages@ == latest_scan(logv.take(i as int), me, cap).buckets,
            message_contents@ == latest_scan(logv.take(i as int), me, cap).contents,
        decreases logv.len() - i,
    {
        let message_entry = clone_message(&message_log[i]);
        let message_hash = content_hash(&message_entry);
        proof {
            assert(logv.take(i + 1).drop_last() =~= logv.take(i as int));
            assert(logv.take(i + 1).last() == logv[i as int]);
            assert(message_entry@ == logv[i as int]);
        }
        let key = if message_entry.author == me {
            message_entry.receiver
        } else {
            message_entry.author
        };
        // The cap is checked before inserting, whether or not the bucket
        // exists yet, so no bucket ever exceeds the batch size.
        let blen = agent_messages.bucket_len(key);
        if blen >= batch_size.0 as usize {
        } else {
            let _ = insert_message(
                &mut agent_messages,
                &mut message_contents,
                message_entry,
                message_hash,
                key,
            );
        }
        i = i + 1;
    }
    proof {
        assert(logv.take(logv.len() as int) =~= logv);
    }
    get_receipts(&mut message_contents, &mut receipt_contents, receipt_log);
    P2PMessageHashTables(agent_messages, message_contents, receipt_contents)
}

/// Whether a payload passes a retrieval filter, one matrix for every mode:
/// text matches `Text`; `Media` matches image and video files; `Other`
/// matches the remaining file kind; `File` matches any file regardless of
/// subtype; `All` matches everything.
pub open spec fn payload_type_match(pt: PayloadType, p: PayloadV) -> bool {
    match p {
        PayloadV::Text { .. } => pt == PayloadType::Text || pt == PayloadType::All,
        PayloadV::File { file_type, .. } => match file_type {
            crate::types::FileTypeV::Image { .. } | crate::types::FileTypeV::Video { .. } => pt
                == PayloadType::Media || pt == PayloadType::File || pt == PayloadType::All,
            crate::types::FileTypeV::Other => pt == PayloadType::Other || pt == PayloadType::File
                || pt == PayloadType::All,
        },
    }
}

/// Payload filter correctness: the `Media` filter accepts exactly the image
/// and video file payloads, and so excludes text and other-file payloads.
pub proof fn lemma_media_filter(p: PayloadV)
    ensures
        payload_type_match(PayloadType::Media, p) <==> (p matches PayloadV::File {
            file_type,
            ..
        } && (file_type matches crate::types::FileTypeV::Image { .. } || file_type
            matches crate::types::FileTypeV::Video { .. })),
{
}

/// Exec mirror of `payload_type_match`.
pub fn payload_type_match_exec(pt: PayloadType, p: &crate::types::Payload) -> (r: bool)
    ensures
        r == payload_type_match(pt, p@),
{
    match p {
        crate::types::Payload::Text { .. } => matches!(pt, PayloadType::Text | PayloadType::All),
        crate::types::Payload::File { file_type, .. } => match file_type {
            crate::types::FileType::Image { .. } | crate::types::FileType::Video { .. } => matches!(
                pt,
                PayloadType::Media | PayloadType::File | PayloadType::All,
            ),
            crate::types::FileType::Other => matches!(
                pt,
                PayloadType::Other | PayloadType::File | PayloadType::All,
            ),
        },
    }
}

/// The inclusive day window `[day_start, day_start + 86399]` around a date,
/// at second granularity.
pub open spec fn day_start_of(date: Timestamp) -> int {
    (date.secs / 86400) * 86400
}

/// Whether a message belongs to a day retrieval: sent within the day window,
/// part of the conversation with the conversant, and of the requested
/// payload kind.
pub open spec fn day_eligible(m: MessageV, f: P2PMessageFilterAgentTimestamp) -> bool {
    &&& m.time_sent.secs >= day_start_of(f.date)
    &&& m.time_sent.secs <= day_start_of(f.date) + 86399
    &&& (m.author == f.conversant || m.receiver == f.conversant)
    &&& payload_type_match(f.payload_type, m.payload)
}

/// Day retrieval over a scanned log: a fold that accepts exactly the
/// eligible messages, uncapped, into the conversant's bucket.
pub open spec fn day_scan(log: Seq<MessageV>, f: P2PMessageFilterAgentTimestamp) -> AssemblyAcc
    decreases log.len(),
{
    if log.len() == 0 {
        AssemblyAcc {
            buckets: Map::<AgentKey, Seq<ContentHash>>::empty().insert(f.conversant, Seq::empty()),
            contents: Map::empty(),
        }
    } else {
        let prev = day_scan(log.drop_last(), f);
        if day_eligible(log.last(), f) {
            acc_insert(prev, f.conversant, log.last())
        } else {
            prev
        }
    }
}

/// Day window: everything a day retrieval assembles was sent within the
/// day's inclusive window and belongs to the conversation; a message even
/// one second outside the window is excluded.
pub proof fn lemma_day_window(log: Seq<MessageV>, f: P2PMessageFilterAgentTimestamp, h: ContentHash)
    ensures
        day_scan(log, f).contents.contains_key(h) ==> day_eligible(
            day_scan(log, f).contents[h].message,
            f,
        ),
    decreases log.len(),
{
    if log.len() > 0 {
        lemma_day_window(log.drop_last(), f, h);
    }
}

/// The ids of the day's eligible messages, in scan order.
pub open spec fn day_ids(log: Seq<MessageV>, f: P2PMessageFilterAgentTimestamp) -> Seq<ContentHash>
    decreases log.len(),
{
    if log.len() == 0 {
        Seq::empty()
    } else {
        let prev = day_ids(log.drop_last(), f);
        if day_eligible(log.last(), f) {
            prev.push(msg_id(log.last()))
        } else {
            prev
        }
    }
}

/// A day retrieval's bucket, exactly: the ids of all eligible messages, in
/// scan order, uncapped — the whole day's matches and nothing else.
pub proof fn lemma_day_bucket_exact(log: Seq<MessageV>, f: P2PMessageFilterAgentTimestamp)
    ensures
        day_scan(log, f).buckets.contains_key(f.conversant),
        day_scan(log, f).buckets[f.conversant] == day_ids(log, f),
    decreases log.len(),
{
    if log.len() > 0 {
        lemma_day_bucket_exact(log.drop_last(), f);
    }
}

/// Day retrieval keeps its tables co-indexed: every id in the bucket has a
/// bundle under it in the contents map.
pub proof fn lemma_day_coindexed(log: Seq<MessageV>, f: P2PMessageFilterAgentTimestamp)
    ensures
        forall|h: ContentHash|
            day_scan(log, f).buckets.contains_key(f.conversant) && day_scan(
                log,
                f,
            ).buckets[f.conversant].contains(h) ==> day_scan(log, f).contents.contains_key(h),
    decreases log.len(),
{
    if log.len() > 0 {
        lemma_day_coindexed(log.drop_last(), f);
        let prev = day_scan(log.drop_last(), f);
        let cur = day_scan(log, f);
        assert forall|h: ContentHash|
            cur.buckets.contains_key(f.conversant) && cur.buckets[f.conversant].contains(
                h,
            ) implies cur.contents.contains_key(h) by {
            if day_eligible(log.last(), f) && h != msg_id(log.last()) {
                if cur.buckets[f.conversant].contains(h) {
                    let i = choose|i: int|
                        0 <= i < cur.buckets[f.conversant].len() && cur.buckets[f.conversant][i]
                            == h;
                    assert(old_bucket(prev.buckets, f.conversant).contains(h));
                }
            }
        }
    }
}

/// Retrieves one conversant's messages for one calendar day: the window is
/// `[day_start, day_start + 86399]` computed from the supplied date, with no
/// cursor and no cap.
pub fn get_messages_by_agent_by_timestamp(
    message_log: &Vec<P2PMessage>,
    receipt_log: &Vec<P2PMessageReceipt>,
    filter: P2PMessageFilterAgentTimestamp,
) -> (r: P2PMessageHashTables)
    requires
        0 <= filter.date.secs <= i64::MAX - 86400,
    ensures
        r.0.wf() && r.1.wf() && r.2.wf(),
        ({
            let acc = day_scan(message_log.deep_view(), filter);
            let pair = receipts_scan(receipt_log@, acc.contents, Map::empty());
            r.0@ == acc.buckets && r.1@ == pair.0 && r.2@ == pair.1
        }),
{
    let ghost logv = message_log.deep_view();
    let mut agent_messages = AgentMessages::new();
    let mut message_contents = MessageContents::new();
    let mut receipt_contents = ReceiptContents::new();
    agent_messages.seed(filter.conversant);
    let day_start: i64 = (filter.date.secs / 86400) * 86400;
    let day_end: i64 = day_start + 86399;
    let mut i: usize = 0;
    proof {
        assert(logv.take(0) =~= Seq::<MessageV>::empty());
        assert(day_start == day_start_of(filter.date));
    }
    while i < message_log.len()
        invariant
            i <= logv.len(),
            logv == message_log.deep_view(),
            logv.len() == message_log@.len(),
            day_start == day_start_of(filter.date),
            day_end == day_start_of(filter.date) + 86399,
            agent_messages.wf(),
            message_contents.wf(),
            agent_messages@ == day_scan(logv.take(i as int), filter).buckets,
            message_contents@ == day_scan(logv.take(i as int), filter).contents,
        decreases logv.len() - i,
    {
        let message_entry = clone_message(&message_log[i]);
        let message_hash = content_hash(&message_entry);
        proof {
            assert(logv.take(i + 1).drop_last() =~= logv.take(i as int));
            assert(logv.take(i + 1).last() == logv[i as int]);
            assert(message_entry@ == logv[i as int]);
        }
        if message_entry.time_sent.secs >= day_start && message_entry.time_sent.secs <= day_end
            && (message_entry.author == filter.conversant || message_entry.receiver
            == filter.conversant) && payload_type_match_exec(
            filter.payload_type,
            &message_entry.payload,
        ) {
            let _ = insert_message(
                &mut agent_messages,
                &mut message_contents,
                message_entry,
                message_hash,
                filter.conversant,
            );
        }
        i = i + 1;
    }
    proof {
        assert(logv.take(logv.len() as int) =~= logv);
    }
    get_receipts(&mut message_contents, &mut receipt_contents, receipt_log);
    P2PMessageHashTables(agent_messages, message_contents, receipt_contents)
}

/// The cursor boundary of next-batch retrieval: the cursor timestamp when
/// one was supplied, and otherwise the current time, so that every
/// already-logged message classifies as older than the cursor.
pub open spec fn batch_boundary(f: P2PMessageFilterBatch, now: Timestamp) -> Timestamp {
    match f.last_fetched_timestamp {
        Some(t) => t,
        None => now,
    }
}

/// The cursor predicate of next-batch retrieval: a message at or below the
/// boundary passes when it is not the cursor message itself; with no cursor
/// id, a message passes when it belongs to the conversation. This shape is
/// deliberately different from the adjacency predicate and must stay so.
pub open spec fn next_batch_eligible(
    m: MessageV,
    f: P2PMessageFilterBatch,
    boundary: Timestamp,
    mh: ContentHash,
) -> bool {
    (m.time_sent.secs <= boundary.secs && (match f.last_fetched_message_id {
        Some(id) => id != mh,
        None => false,
    })) || (f.last_fetched_message_id is None && (m.author == f.conversant || m.receiver
        == f.conversant))
}

/// One step of next-batch retrieval: an accepted message joins the bucket
/// only while the bucket is below the batch size — the cap is checked
/// before inserting, so the bucket never exceeds it — and the second
/// component says whether the batch is now full and the scan stops.
pub open spec fn batch_step(
    acc: AssemblyAcc,
    m: MessageV,
    f: P2PMessageFilterBatch,
    boundary: Timestamp,
) -> (AssemblyAcc, bool) {
    if next_batch_eligible(m, f, boundary, msg_id(m)) && payload_type_match(
        f.payload_type,
        m.payload,
    ) {
        if old_bucket(acc.buckets, f.conversant).len() >= f.batch_size as nat {
            (acc, true)
        } else {
            (
                acc_insert(acc, f.conversant, m),
                old_bucket(acc.buckets, f.conversant).push(msg_id(m)).len()
                    >= f.batch_size as nat,
            )
        }
    } else {
        (acc, false)
    }
}

/// Next-batch retrieval over a scanned log, front to back, with the early
/// exit that keeps large histories from being scanned whole.
pub open spec fn batch_scan(
    log: Seq<MessageV>,
    acc: AssemblyAcc,
    f: P2PMessageFilterBatch,
    boundary: Timestamp,
) -> AssemblyAcc
    decreases log.len(),
{
    if log.len() == 0 {
        acc
    } else {
        let sb = batch_step(acc, log[0], f, boundary);
        if sb.1 {
            sb.0
        } else {
            batch_scan(log.drop_first(), sb.0, f, boundary)
        }
    }
}

/// Every bucketed id of the accumulator has a bundle in its contents map.
pub open spec fn acc_coindexed(acc: AssemblyAcc) -> bool {
    forall|k: AgentKey, h: ContentHash|
        acc.buckets.contains_key(k) && #[trigger] acc.buckets[k].contains(h)
            ==> acc.contents.contains_key(h)
}

/// Next-batch retrieval keeps its tables co-indexed: starting from a
/// co-indexed accumulator, every id it buckets gets its bundle in the same
/// step.
pub proof fn lemma_batch_scan_coindexed(
    log: Seq<MessageV>,
    acc: AssemblyAcc,
    f: P2PMessageFilterBatch,
    boundary: Timestamp,
)
    requires
        acc_coindexed(acc),
    ensures
        acc_coindexed(batch_scan(log, acc, f, boundary)),
    decreases log.len(),
{
    if log.len() > 0 {
        let sb = batch_step(acc, log[0], f, boundary);
        assert forall|k: AgentKey, h: ContentHash|
            sb.0.buckets.contains_key(k) && #[trigger] sb.0.buckets[k].contains(h) implies sb
            .0
            .contents
            .contains_key(h) by {
            let m = log[0];
            if next_batch_eligible(m, f, boundary, msg_id(m)) && payload_type_match(
                f.payload_type,
                m.payload,
            ) && old_bucket(acc.buckets, f.conversant).len() < f.batch_size as nat {
                if k == f.conversant && h != msg_id(m) {
                    let i = choose|i: int|
                        0 <= i < sb.0.buckets[k].len() && sb.0.buckets[k][i] == h;
                    assert(old_bucket(acc.buckets, k).contains(h));
                }
            }
        }
        if !sb.1 {
            lemma_batch_scan_coindexed(log.drop_first(), sb.0, f, boundary);
        }
    }
}

/// The accumulator next-batch retrieval starts from: the conversant's bucket
/// pre-created empty.
pub open spec fn batch_init(f: P2PMessageFilterBatch) -> AssemblyAcc {
    AssemblyAcc {
        buckets: Map::<AgentKey, Seq<ContentHash>>::empty().insert(f.conversant, Seq::empty()),
        contents: Map::empty(),
    }
}

/// Retrieves the page below a cursor: scans the log in order, accepts
/// messages that pass the cursor predicate and the payload filter into the
/// conversant's bucket, and stops as soon as the bucket reaches the batch
/// size.
pub fn get_next_batch_messages(
    message_log: &Vec<P2PMessage>,
    receipt_log: &Vec<P2PMessageReceipt>,
    filter: P2PMessageFilterBatch,
    now: Timestamp,
) -> (r: P2PMessageHashTables)
    ensures
        r.0.wf() && r.1.wf() && r.2.wf(),
        ({
            let acc = batch_scan(
                message_log.deep_view(),
                batch_init(filter),
                filter,
                batch_boundary(filter, now),
            );
            let pair = receipts_scan(receipt_log@, acc.contents, Map::empty());
            r.0@ == acc.buckets && r.1@ == pair.0 && r.2@ == pair.1
        }),
{
    let ghost logv = message_log.deep_view();
    let ghost boundary_spec = batch_boundary(filter, now);
    let mut agent_messages = AgentMessages::new();
    let mut message_contents = MessageContents::new();
    let mut receipt_contents = ReceiptContents::new();
    agent_messages.seed(filter.conversant);
    let filter_timestamp: Timestamp = match filter.last_fetched_timestamp {
        Some(timestamp) => timestamp,
        None => now,
    };
    let ghost target = batch_scan(logv, batch_init(filter), filter, boundary_spec);
    proof {
        assert(filter_timestamp == boundary_spec);
        assert(agent_messages@ =~= batch_init(filter).buckets);
        assert(message_contents@ =~= batch_init(filter).contents);
        assert(logv.skip(0) =~= logv);
    }
    let mut i: usize = 0;
    while i < message_log.len()
        invariant_except_break
            i <= logv.len(),
            logv == message_log.deep_view(),
            logv.len() == message_log@.len(),
            filter_timestamp == boundary_spec,
            agent_messages.wf(),
            message_contents.wf(),
            batch_scan(
                logv.skip(i as int),
                AssemblyAcc { buckets: agent_messages@, contents: message_contents@ },
                filter,
                boundary_spec,
            ) == target,
        ensures
            agent_messages.wf(),
            message_contents.wf(),
            agent_messages@ == target.buckets,
            message_contents@ == target.contents,
        decreases logv.len() - i,
    {
        let message_entry = clone_message(&message_log[i]);
        let message_hash = content_hash(&message_entry);
        let ghost acc0 = AssemblyAcc { buckets: agent_messages@, contents: message_contents@ };
        proof {
            assert(logv.skip(i as int)[0] == logv[i as int]);
            assert(logv.skip(i as int).drop_first() =~= logv.skip(i as int + 1));
            assert(message_entry@ == logv[i as int]);
        }
        let eligible = (message_entry.time_sent.secs <= filter_timestamp.secs
            && (match &filter.last_fetched_message_id {
            Some(id) => *id != message_hash,
            None => false,
        })) || (filter.last_fetched_message_id.is_none() && (message_entry.author
            == filter.conversant || message_entry.receiver == filter.conversant));
        if eligible && payload_type_match_exec(filter.payload_type, &message_entry.payload) {
            // The cap is checked before inserting, so the bucket never
            // exceeds the batch size, a zero batch admitting nothing.
            let blen = agent_messages.bucket_len(filter.conversant);
            if blen >= filter.batch_size as usize {
                proof {
                    let sb = batch_step(acc0, logv[i as int], filter, boundary_spec);
                    assert(sb.1);
                    assert(sb.0 == acc0);
                }
                break;
            }
            let current_batch_size = insert_message(
                &mut agent_messages,
                &mut message_contents,
                message_entry,
                message_hash,
                filter.conversant,
            );
            proof {
                let sb = batch_step(acc0, logv[i as int], filter, boundary_spec);
                assert(AssemblyAcc { buckets: agent_messages@, contents: message_contents@ }
                    =~= sb.0);
            }
            if current_batch_size >= filter.batch_size as usize {
                break;
            }
        }
        i = i + 1;
    }
    proof {
        assert(logv.skip(logv.len() as int) =~= Seq::<MessageV>::empty());
    }
    get_receipts(&mut message_contents, &mut receipt_contents, receipt_log);
    P2PMessageHashTables(agent_messages, message_contents, receipt_contents)
}

/// A field-by-field copy of a message, with its view preserved.
pub fn clone_message(m: &P2PMessage) -> (r: P2PMessage)
    ensures
        r@ == m@,
{
    P2PMessage {
        author: m.author,
        receiver: m.receiver,
        payload: clone_payload(&m.payload),
        time_sent: m.time_sent,
        reply_to: m.reply_to,
    }
}

/// A field-by-field copy of a payload, with its view preserved.
pub fn clone_payload(p: &crate::types::Payload) -> (r: crate::types::Payload)
    ensures
        r@ == p@,
{
    match p {
        crate::types::Payload::Text { payload } => crate::types::Payload::Text {
            payload: clone_string(payload),
        },
        crate::types::Payload::File { metadata, file_type } => crate::types::Payload::File {
            metadata: crate::types::FileMetadata {
                file_name: clone_string(&metadata.file_name),
                file_size: metadata.file_size,
                file_type: clone_file_type(&metadata.file_type),
                file_hash: clone_string(&metadata.file_hash),
            },
            file_type: clone_file_type(file_type),
        },
    }
}

/// A copy of a file-kind tag, with its view preserved.
pub fn clone_file_type(f: &crate::types::FileType) -> (r: crate::types::FileType)
    ensures
        r@ == f@,
{
    match f {
        crate::types::FileType::Image { thumbnail } => crate::types::FileType::Image {
            thumbnail: copy_bytes(thumbnail),
        },
        crate::types::FileType::Video { thumbnail } => crate::types::FileType::Video {
            thumbnail: copy_bytes(thumbnail),
        },
        crate::types::FileType::Other => crate::types::FileType::Other,
    }
}

/// A copy of a string, with its view preserved.
pub fn clone_string(s: &String) -> (r: String)
    ensures
        r@ == s@,
{
    s.clone()
}

/// A copy of a byte vector, with its view preserved.
pub fn copy_bytes(src: &Vec<u8>) -> (r: Vec<u8>)
    ensures
        r@ == src@,
{
    let mut out: Vec<u8> = Vec::new();
    let mut i: usize = 0;
    while i < src.len()
        invariant
            i <= src@.len(),
            out@ == src@.take(i as int),
        decreases src@.len() - i,
    {
        out.push(src[i]);
        proof {
            assert(src@.take(i + 1) =~= src@.take(i as int).push(src@[i as int]));
        }
        i = i + 1;
    }
    proof {
        assert(src@.take(src@.len() as int) =~= src@);
    }
    out
}

} // verus!
