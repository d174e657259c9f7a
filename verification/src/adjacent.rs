//! Adjacency retrieval: the page around a cursor, in both directions.
//!
//! The scanned log is reversed into chronological order first. Messages at
//! or past the cursor boundary ("later" messages, those that arrived after
//! the cursor was taken) are collected without an early cutoff; messages
//! before the boundary accumulate into the result until the batch is full,
//! at which point scanning stops. If the later pool exceeds the batch size,
//! only its most recent `batch_size` messages — a suffix of the
//! chronologically ordered pool — are merged into the result; the caller
//! must re-page to reach the rest. Replies are registered for every message
//! the filter accepts and resolved against the assembled page at the end.
//!
//! Design note: this mode combines the cursor-id exclusion and the
//! conversant predicate as "(id differs, or no cursor id) and conversant
//! matches", whereas next-batch retrieval uses "(below boundary and id
//! differs) or (no cursor id and conversant matches)". The two shapes are
//! not equivalent; both are kept exactly as conversation continuity for
//! existing clients depends on them.

use vstd::prelude::*;
use crate::types::{
    micros_of, micros_at_least, AgentKey, ContentHash, MessageV, P2PMessage,
    P2PMessageFilterBatch, P2PMessageReceipt, PayloadType, PayloadV, Timestamp,
};
use crate::hash::{content_hash, spec_message_hash};
use crate::assembly::{
    acc_insert, clone_message, msg_id, payload_type_match, payload_type_match_exec, AssemblyAcc,
};
use crate::tables::{
    get_receipts, get_replies, insert_message, insert_reply, old_bucket, receipts_scan,
    replies_scan, AgentMessages, BundleV, MessageContents, P2PMessageHashTables, ReceiptContents,
    ReplyPairs,
};

verus! {

/// The cursor predicate of adjacency retrieval (see the module design note).
pub open spec fn adjacent_eligible(m: MessageV, f: P2PMessageFilterBatch, mh: ContentHash) -> bool {
    ((match f.last_fetched_message_id {
        Some(id) => id != mh,
        None => false,
    }) || f.last_fetched_message_id is None) && (m.author == f.conversant || m.receiver
        == f.conversant)
}

/// The boundary adjacency retrieval classifies against: the cursor timestamp
/// when one was supplied, and otherwise the clock reading, so that every
/// already-logged message counts as "older".
pub open spec fn adjacent_boundary(f: P2PMessageFilterBatch, now: Timestamp) -> Timestamp {
    match f.last_fetched_timestamp {
        Some(t) => t,
        None => now,
    }
}

/// Everything an adjacency scan accumulates: the assembled page, the
/// registered reply pairs, and the pool of messages later than the boundary
/// (each paired with its id).
#[verifier::ext_equal]
pub struct AdjacentAcc {
    pub assembly: AssemblyAcc,
    pub replies: Seq<(ContentHash, ContentHash)>,
    pub later: Seq<(ContentHash, MessageV)>,
}

/// Registers a reply pair when the message answers another.
pub open spec fn register_reply(acc: AdjacentAcc, m: MessageV, mh: ContentHash) -> AdjacentAcc {
    match m.reply_to {
        Some(parent) => AdjacentAcc { replies: acc.replies.push((parent, mh)), ..acc },
        None => acc,
    }
}

/// One step of the adjacency scan: an accepted older message joins the
/// bucket only while the bucket is below the batch size — the cap is
/// checked before inserting, so the older side never exceeds it — and the
/// second component says whether that batch is now full and the scan stops.
pub open spec fn adjacent_step(
    acc: AdjacentAcc,
    m: MessageV,
    f: P2PMessageFilterBatch,
    boundary: Timestamp,
) -> (AdjacentAcc, bool) {
    let mh = msg_id(m);
    if adjacent_eligible(m, f, mh) {
        if micros_of(m.time_sent) >= micros_of(boundary) {
            if payload_type_match(f.payload_type, m.payload) {
                let acc1 = register_reply(acc, m, mh);
                (AdjacentAcc { later: acc1.later.push((mh, m)), ..acc1 }, false)
            } else {
                (acc, false)
            }
        } else {
            if payload_type_match(f.payload_type, m.payload) {
                if old_bucket(acc.assembly.buckets, f.conversant).len() >= f.batch_size as nat {
                    (acc, true)
                } else {
                    let acc1 = register_reply(acc, m, mh);
                    (
                        AdjacentAcc {
                            assembly: acc_insert(acc1.assembly, f.conversant, m),
                            ..acc1
                        },
                        old_bucket(acc1.assembly.buckets, f.conversant).push(mh).len()
                            >= f.batch_size as nat,
                    )
                }
            } else {
                (acc, false)
            }
        }
    } else {
        (acc, false)
    }
}

/// The adjacency scan over the chronologically ordered log, with the early
/// exit once the older-side batch is full.
pub open spec fn adjacent_scan(
    log: Seq<MessageV>,
    acc: AdjacentAcc,
    f: P2PMessageFilterBatch,
    boundary: Timestamp,
) -> AdjacentAcc
    decreases log.len(),
{
    if log.len() == 0 {
        acc
    } else {
        let sb = adjacent_step(acc, log[0], f, boundary);
        if sb.1 {
            sb.0
        } else {
            adjacent_scan(log.drop_first(), sb.0, f, boundary)
        }
    }
}

/// The accumulator an adjacency scan starts from: the conversant's bucket
/// pre-created empty, nothing else.
pub open spec fn adjacent_init(f: P2PMessageFilterBatch) -> AdjacentAcc {
    AdjacentAcc {
        assembly: AssemblyAcc {
            buckets: Map::<AgentKey, Seq<ContentHash>>::empty().insert(
                f.conversant,
                Seq::empty(),
            ),
            contents: Map::empty(),
        },
        replies: Seq::empty(),
        later: Seq::empty(),
    }
}

/// Merging the kept suffix of the later pool into the page, oldest first,
/// without a cap.
pub open spec fn insert_laters(
    acc: AssemblyAcc,
    later: Seq<(ContentHash, MessageV)>,
    key: AgentKey,
) -> AssemblyAcc
    decreases later.len(),
{
    if later.len() == 0 {
        acc
    } else {
        let prev = insert_laters(acc, later.drop_last(), key);
        AssemblyAcc {
            buckets: prev.buckets.insert(
                key,
                old_bucket(prev.buckets, key).push(later.last().0),
            ),
            contents: prev.contents.insert(
                later.last().0,
                BundleV { message: later.last().1, attachments: Seq::empty() },
            ),
        }
    }
}

/// The suffix of the later pool that survives truncation: the most recent
/// `batch_size` messages when the pool overflows, the whole pool otherwise.
pub open spec fn later_kept(later: Seq<(ContentHash, MessageV)>, batch: nat) -> Seq<
    (ContentHash, MessageV),
> {
    if later.len() > batch {
        later.subrange(later.len() - batch, later.len() as int)
    } else {
        later
    }
}

/// The adjacency scan never grows the conversant's bucket past the batch
/// size: the cap is checked before every insertion.
proof fn lemma_adjacent_scan_bucket_cap(
    log: Seq<MessageV>,
    acc: AdjacentAcc,
    f: P2PMessageFilterBatch,
    boundary: Timestamp,
)
    requires
        acc.assembly.buckets.contains_key(f.conversant),
        acc.assembly.buckets[f.conversant].len() <= f.batch_size as nat,
    ensures
        adjacent_scan(log, acc, f, boundary).assembly.buckets.contains_key(f.conversant),
        adjacent_scan(log, acc, f, boundary).assembly.buckets[f.conversant].len()
            <= f.batch_size as nat,
    decreases log.len(),
{
    if log.len() > 0 {
        let sb = adjacent_step(acc, log[0], f, boundary);
        if !sb.1 {
            lemma_adjacent_scan_bucket_cap(log.drop_first(), sb.0, f, boundary);
        }
    }
}

/// Merging the later pool adds exactly its length to the bucket under `key`.
proof fn lemma_insert_laters_len(
    acc: AssemblyAcc,
    later: Seq<(ContentHash, MessageV)>,
    key: AgentKey,
)
    requires
        acc.buckets.contains_key(key),
    ensures
        insert_laters(acc, later, key).buckets.contains_key(key),
        insert_laters(acc, later, key).buckets[key].len() == acc.buckets[key].len() + later.len(),
    decreases later.len(),
{
    if later.len() > 0 {
        lemma_insert_laters_len(acc, later.drop_last(), key);
    }
}

/// Batch bound for the whole adjacency page: at most `batch_size` older
/// messages (the scan stops early at that cap) and at most `batch_size`
/// kept newer messages, so the conversant's bucket holds at most
/// `2 * batch_size` message ids in total.
pub proof fn lemma_adjacent_bucket_cap(
    log: Seq<MessageV>,
    f: P2PMessageFilterBatch,
    now: Timestamp,
)
    ensures
        ({
            let acc = adjacent_scan(
                log.reverse(),
                adjacent_init(f),
                f,
                adjacent_boundary(f, now),
            );
            let merged = insert_laters(
                acc.assembly,
                later_kept(acc.later, f.batch_size as nat),
                f.conversant,
            );
            merged.buckets.contains_key(f.conversant) && merged.buckets[f.conversant].len() <= 2
                * (f.batch_size as nat)
        }),
{
    let acc = adjacent_scan(log.reverse(), adjacent_init(f), f, adjacent_boundary(f, now));
    lemma_adjacent_scan_bucket_cap(
        log.reverse(),
        adjacent_init(f),
        f,
        adjacent_boundary(f, now),
    );
    lemma_insert_laters_len(
        acc.assembly,
        later_kept(acc.later, f.batch_size as nat),
        f.conversant,
    );
    assert(later_kept(acc.later, f.batch_size as nat).len() <= f.batch_size as nat);
}

/// The adjacency scan keeps its page co-indexed: every id it buckets gets
/// its bundle in the same step; the later pool is not yet in either table.
pub proof fn lemma_adjacent_scan_coindexed(
    log: Seq<MessageV>,
    acc: AdjacentAcc,
    f: P2PMessageFilterBatch,
    boundary: Timestamp,
)
    requires
        crate::assembly::acc_coindexed(acc.assembly),
    ensures
        crate::assembly::acc_coindexed(adjacent_scan(log, acc, f, boundary).assembly),
    decreases log.len(),
{
    if log.len() > 0 {
        let sb = adjacent_step(acc, log[0], f, boundary);
        assert forall|k: AgentKey, h: ContentHash|
            sb.0.assembly.buckets.contains_key(k) && #[trigger] sb.0.assembly.buckets[k].contains(
                h,
            ) implies sb.0.assembly.contents.contains_key(h) by {
            let m = log[0];
            if sb.0.assembly != acc.assembly {
                if k == f.conversant && h != msg_id(m) {
                    let i = choose|i: int|
                        0 <= i < sb.0.assembly.buckets[k].len() && sb.0.assembly.buckets[k][i]
                            == h;
                    assert(old_bucket(acc.assembly.buckets, k).contains(h));
                }
            }
        }
        if !sb.1 {
            lemma_adjacent_scan_coindexed(log.drop_first(), sb.0, f, boundary);
        }
    }
}

/// Merging the later pool keeps the page co-indexed: each kept message's id
/// and bundle are inserted together.
pub proof fn lemma_insert_laters_coindexed(
    acc: AssemblyAcc,
    later: Seq<(ContentHash, MessageV)>,
    key: AgentKey,
)
    requires
        crate::assembly::acc_coindexed(acc),
    ensures
        crate::assembly::acc_coindexed(insert_laters(acc, later, key)),
    decreases later.len(),
{
    if later.len() > 0 {
        lemma_insert_laters_coindexed(acc, later.drop_last(), key);
        let prev = insert_laters(acc, later.drop_last(), key);
        let cur = insert_laters(acc, later, key);
        assert forall|k: AgentKey, h: ContentHash|
            cur.buckets.contains_key(k) && #[trigger] cur.buckets[k].contains(h) implies cur
            .contents
            .contains_key(h) by {
            if k == key && h != later.last().0 {
                let i = choose|i: int| 0 <= i < cur.buckets[k].len() && cur.buckets[k][i] == h;
                assert(old_bucket(prev.buckets, k).contains(h));
            }
        }
    }
}

/// The whole adjacency result is co-indexed: every message id in a bucket
/// has a bundle under it, through truncation, receipt attachment and reply
/// resolution alike.
pub proof fn lemma_adjacent_tables_coindexed(
    log: Seq<MessageV>,
    receipts: Seq<P2PMessageReceipt>,
    f: P2PMessageFilterBatch,
    now: Timestamp,
)
    ensures
        ({
            let acc = adjacent_scan(
                log.reverse(),
                adjacent_init(f),
                f,
                adjacent_boundary(f, now),
            );
            let merged = insert_laters(acc.assembly, later_kept(acc.later, f.batch_size as nat), f.conversant);
            let pair = receipts_scan(receipts, merged.contents, Map::empty());
            let resolved = replies_scan(acc.replies, pair.0);
            forall|k: AgentKey, h: ContentHash|
                merged.buckets.contains_key(k) && #[trigger] merged.buckets[k].contains(h)
                    ==> resolved.contains_key(h)
        }),
{
    let acc = adjacent_scan(log.reverse(), adjacent_init(f), f, adjacent_boundary(f, now));
    let merged = insert_laters(acc.assembly, later_kept(acc.later, f.batch_size as nat), f.conversant);
    let pair = receipts_scan(receipts, merged.contents, Map::empty());
    lemma_adjacent_scan_coindexed(log.reverse(), adjacent_init(f), f, adjacent_boundary(f, now));
    lemma_insert_laters_coindexed(
        acc.assembly,
        later_kept(acc.later, f.batch_size as nat),
        f.conversant,
    );
    crate::tables::lemma_receipts_scan_dom(receipts, merged.contents, Map::empty());
    crate::tables::lemma_replies_scan_dom(acc.replies, pair.0);
}

/// Retrieves the page adjacent to a cursor: older messages up to the batch
/// size, the most recent `batch_size` of the newer pool, receipts attached
/// to every assembled message, and registered replies resolved into their
/// parents' bundles.
pub fn get_adjacent_messages_handler(
    message_log: &Vec<P2PMessage>,
    receipt_log: &Vec<P2PMessageReceipt>,
    filter: P2PMessageFilterBatch,
    now: Timestamp,
) -> (r: P2PMessageHashTables)
    ensures
        r.0.wf() && r.1.wf() && r.2.wf(),
        ({
            let acc = adjacent_scan(
                message_log.deep_view().reverse(),
                adjacent_init(filter),
                filter,
                adjacent_boundary(filter, now),
            );
            let merged = insert_laters(
                acc.assembly,
                later_kept(acc.later, filter.batch_size as nat),
                filter.conversant,
            );
            let pair = receipts_scan(receipt_log@, merged.contents, Map::empty());
            let resolved = replies_scan(acc.replies, pair.0);
            r.0@ == merged.buckets && r.1@ == resolved && r.2@ == pair.1
        }),
{
    let ghost logv = message_log.deep_view();
    let ghost boundary_spec = adjacent_boundary(filter, now);

    // Reverse the scan into chronological order before classifying.
    let mut queried_messages: Vec<P2PMessage> = Vec::new();
    let mut j: usize = message_log.len();
    while j > 0
        invariant
            j <= logv.len(),
            logv == message_log.deep_view(),
            logv.len() == message_log@.len(),
            queried_messages.deep_view() =~= logv.reverse().take(logv.len() - j),
        decreases j,
    {
        j = j - 1;
        let ghost prev = queried_messages.deep_view();
        queried_messages.push(clone_message(&message_log[j]));
        proof {
            assert(queried_messages.deep_view() =~= prev.push(logv[j as int]));
            assert(logv.reverse().len() == logv.len());
            assert(logv.reverse()[logv.len() - j - 1] == logv[j as int]);
            assert(logv.reverse().take(logv.len() - j) =~= logv.reverse().take(
                logv.len() - j - 1,
            ).push(logv.reverse()[logv.len() - j - 1]));
            assert(queried_messages.deep_view() =~= logv.reverse().take(logv.len() - j));
        }
    }
    proof {
        assert(logv.reverse().take(logv.reverse().len() as int) =~= logv.reverse());
        assert(queried_messages.deep_view() == logv.reverse());
    }
    let ghost rev = logv.reverse();

    let mut agent_messages = AgentMessages::new();
    let mut message_contents = MessageContents::new();
    let mut receipt_contents = ReceiptContents::new();
    let mut reply_pairs = ReplyPairs::new();
    let mut later: Vec<(ContentHash, P2PMessage)> = Vec::new();
    agent_messages.seed(filter.conversant);

    let filter_timestamp: Timestamp = match filter.last_fetched_timestamp {
        Some(timestamp) => timestamp,
        None => now,
    };
    let ghost target = adjacent_scan(rev, adjacent_init(filter), filter, boundary_spec);
    proof {
        assert(filter_timestamp == boundary_spec);
        assert((AdjacentAcc {
            assembly: AssemblyAcc { buckets: agent_messages@, contents: message_contents@ },
            replies: reply_pairs@,
            later: later_view(&later),
        }) =~= adjacent_init(filter));
        assert(rev.skip(0) =~= rev);
    }
    let mut i: usize = 0;
    while i < queried_messages.len()
        invariant_except_break
            i <= rev.len(),
            rev == queried_messages.deep_view(),
            rev.len() == queried_messages@.len(),
            filter_timestamp == boundary_spec,
            agent_messages.wf(),
            message_contents.wf(),
            later@.len() <= i,
            adjacent_scan(
                rev.skip(i as int),
                AdjacentAcc {
                    assembly: AssemblyAcc {
                        buckets: agent_messages@,
                        contents: message_contents@,
                    },
                    replies: reply_pairs@,
                    later: later_view(&later),
                },
                filter,
                boundary_spec,
            ) == target,
        ensures
            agent_messages.wf(),
            message_contents.wf(),
            (AssemblyAcc { buckets: agent_messages@, contents: message_contents@ })
                == target.assembly,
            reply_pairs@ == target.replies,
            later_view(&later) == target.later,
        decreases rev.len() - i,
    {
        let message_entry = clone_message(&queried_messages[i]);
        let message_hash = content_hash(&message_entry);
        let ghost acc0 = AdjacentAcc {
            assembly: AssemblyAcc { buckets: agent_messages@, contents: message_contents@ },
            replies: reply_pairs@,
            later: later_view(&later),
        };
        proof {
            assert(rev.skip(i as int)[0] == rev[i as int]);
            assert(rev.skip(i as int).drop_first() =~= rev.skip(i as int + 1));
            assert(message_entry@ == rev[i as int]);
        }
        let eligible = ((match &filter.last_fetched_message_id {
            Some(id) => *id != message_hash,
            None => false,
        }) || filter.last_fetched_message_id.is_none()) && (message_entry.author
            == filter.conversant || message_entry.receiver == filter.conversant);
        if eligible {
            if micros_at_least(message_entry.time_sent, filter_timestamp) {
                if payload_type_match_exec(filter.payload_type, &message_entry.payload) {
                    if message_entry.reply_to.is_some() {
                        insert_reply(&mut reply_pairs, &message_entry, message_hash);
                    }
                    later.push((message_hash, message_entry));
                    proof {
                        let sb = adjacent_step(acc0, rev[i as int], filter, boundary_spec);
                        assert(later_view(&later) =~= sb.0.later);
                        assert(AdjacentAcc {
                            assembly: AssemblyAcc {
                                buckets: agent_messages@,
                                contents: message_contents@,
                            },
                            replies: reply_pairs@,
                            later: later_view(&later),
                        } =~= sb.0);
                    }
                }
            } else {
                if payload_type_match_exec(filter.payload_type, &message_entry.payload) {
                    // The cap is checked before inserting, so the older side
                    // never exceeds the batch size, a zero batch admitting
                    // nothing.
                    let blen = agent_messages.bucket_len(filter.conversant);
                    if blen >= filter.batch_size as usize {
                        proof {
                            let sb = adjacent_step(acc0, rev[i as int], filter, boundary_spec);
                            assert(sb.1);
                            assert(sb.0 == acc0);
                        }
                        break;
                    }
                    if message_entry.reply_to.is_some() {
                        insert_reply(&mut reply_pairs, &message_entry, message_hash);
                    }
                    let current_batch_size = insert_message(
                        &mut agent_messages,
                        &mut message_contents,
                        message_entry,
                        message_hash,
                        filter.conversant,
                    );
                    proof {
                        let sb = adjacent_step(acc0, rev[i as int], filter, boundary_spec);
                        assert(later_view(&later) =~= sb.0.later);
                        assert(AdjacentAcc {
                            assembly: AssemblyAcc {
                                buckets: agent_messages@,
                                contents: message_contents@,
                            },
                            replies: reply_pairs@,
                            later: later_view(&later),
                        } =~= sb.0);
                    }
                    if current_batch_size >= filter.batch_size as usize {
                        break;
                    }
                }
            }
        }
        i = i + 1;
    }

    // Truncate the later pool to its most recent batch_size messages and
    // merge the kept suffix, oldest first.
    let mut start_index: usize = 0;
    if later.len() > filter.batch_size as usize {
        start_index = later.len() - filter.batch_size as usize;
    }
    let ghost kept = later_kept(target.later, filter.batch_size as nat);
    proof {
        assert(kept =~= later_view(&later).subrange(
            start_index as int,
            later@.len() as int,
        ));
        assert(later_view(&later).subrange(start_index as int, start_index as int)
            =~= Seq::<(ContentHash, MessageV)>::empty());
    }
    let mut index: usize = start_index;
    while index < later.len()
        invariant
            start_index <= index <= later@.len(),
            kept == later_view(&later).subrange(start_index as int, later@.len() as int),
            agent_messages.wf(),
            message_contents.wf(),
            (AssemblyAcc { buckets: agent_messages@, contents: message_contents@ }) == insert_laters(
                target.assembly,
                later_view(&later).subrange(start_index as int, index as int),
                filter.conversant,
            ),
        decreases later@.len() - index,
    {
        let message_entry = clone_message(&later[index].1);
        let message_hash = later[index].0;
        proof {
            let sub1 = later_view(&later).subrange(start_index as int, index as int + 1);
            assert(sub1.drop_last() =~= later_view(&later).subrange(
                start_index as int,
                index as int,
            ));
            assert(sub1.last() == later_view(&later)[index as int]);
        }
        let _ = insert_message(
            &mut agent_messages,
            &mut message_contents,
            message_entry,
            message_hash,
            filter.conversant,
        );
        index = index + 1;
    }
    proof {
        assert(later_view(&later).subrange(start_index as int, later@.len() as int) == kept);
        assert(AssemblyAcc { buckets: agent_messages@, contents: message_contents@ }
            == insert_laters(target.assembly, kept, filter.conversant));
    }

    get_receipts(&mut message_contents, &mut receipt_contents, receipt_log);
    get_replies(&reply_pairs, &mut message_contents);

    P2PMessageHashTables(agent_messages, message_contents, receipt_contents)
}

/// The later pool with its messages abstracted.
pub open spec fn later_view(v: &Vec<(ContentHash, P2PMessage)>) -> Seq<(ContentHash, MessageV)> {
    v@.map_values(|p: (ContentHash, P2PMessage)| (p.0, p.1@))
}

} // verus!
