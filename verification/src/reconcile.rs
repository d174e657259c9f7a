//! The receipt reconciliation engine.
//!
//! Incoming receipts are keyed by the message id they reference. The full
//! local receipt log is scanned once: an id that already carries a `Read`
//! receipt locally is dropped from the working set — a pending write is
//! superseded, and an already-read message is never downgraded. The scan
//! stops early once the working set empties. What remains is what the
//! caller must commit, keyed by referenced message id, and is also what the
//! caller reports as genuinely new.

use vstd::prelude::*;
use crate::types::{ContentHash, P2PMessageReceipt, Status};
use crate::tables::ReceiptContents;
use crate::signals::{ReceiptSignal, Signal, SignalDetails, SignalName};

verus! {

/// The working set the incoming receipts seed: each receipt under the id it
/// references, a later receipt for the same id replacing an earlier one.
pub open spec fn incoming_map(inc: Seq<P2PMessageReceipt>) -> Map<ContentHash, P2PMessageReceipt>
    decreases inc.len(),
{
    if inc.len() == 0 {
        Map::empty()
    } else {
        incoming_map(inc.drop_last()).insert(inc.last().id, inc.last())
    }
}

/// Whether the local log already holds a `Read` receipt for this id.
pub open spec fn has_local_read(local: Seq<P2PMessageReceipt>, id: ContentHash) -> bool {
    exists|i: int|
        0 <= i < local.len() && (#[trigger] local[i]).id == id && local[i].status is Read
}

/// What reconciliation returns: the incoming receipts, minus every id the
/// local log has already read.
pub open spec fn reconcile_model(
    inc: Seq<P2PMessageReceipt>,
    local: Seq<P2PMessageReceipt>,
) -> Map<ContentHash, P2PMessageReceipt> {
    Map::new(
        |k: ContentHash| incoming_map(inc).contains_key(k) && !has_local_read(local, k),
        |k: ContentHash| incoming_map(inc)[k],
    )
}

/// Extending the scanned prefix by one local receipt extends what counts as
/// already read in exactly one way.
proof fn lemma_read_extend(local: Seq<P2PMessageReceipt>, i: int, k: ContentHash)
    requires
        0 <= i < local.len(),
    ensures
        has_local_read(local.take(i + 1), k) <==> (has_local_read(local.take(i), k) || (local[i].id
            == k && local[i].status is Read)),
{
    if has_local_read(local.take(i + 1), k) {
        let j = choose|j: int|
            0 <= j < local.take(i + 1).len() && (#[trigger] local.take(i + 1)[j]).id == k
                && local.take(i + 1)[j].status is Read;
        if j < i {
            assert(local.take(i as int)[j] == local.take(i + 1)[j]);
        } else {
            assert(local.take(i + 1)[i] == local[i]);
        }
    }
    if has_local_read(local.take(i), k) {
        let j = choose|j: int|
            0 <= j < local.take(i).len() && (#[trigger] local.take(i as int)[j]).id == k
                && local.take(i as int)[j].status is Read;
        assert(local.take(i + 1)[j] == local.take(i as int)[j]);
    }
    if local[i].id == k && local[i].status is Read {
        assert(local.take(i + 1)[i] == local[i]);
    }
}

/// A read found in a prefix is a read found in the whole log.
proof fn lemma_read_mono(local: Seq<P2PMessageReceipt>, i: int, k: ContentHash)
    requires
        0 <= i <= local.len(),
        has_local_read(local.take(i), k),
    ensures
        has_local_read(local, k),
{
    let j = choose|j: int|
        0 <= j < local.take(i).len() && (#[trigger] local.take(i as int)[j]).id == k
            && local.take(i as int)[j].status is Read;
    assert(local[j] == local.take(i as int)[j]);
}

/// Merges incoming receipts against the full local receipt log and returns
/// what is genuinely new, keyed by referenced message id: every incoming
/// receipt whose id the local log has not yet read, and nothing else. The
/// caller commits exactly the returned receipts.
pub fn reconcile_receipts(receipts: Vec<P2PMessageReceipt>, local: &Vec<P2PMessageReceipt>) -> (r:
    ReceiptContents)
    ensures
        r.wf(),
        r@ == reconcile_model(receipts@, local@),
{
    let mut working = ReceiptContents::new();

    // Key the incoming receipts by the message id each references.
    let mut i: usize = 0;
    proof {
        assert(receipts@.take(0) =~= Seq::<P2PMessageReceipt>::empty());
    }
    while i < receipts.len()
        invariant
            i <= receipts@.len(),
            working.wf(),
            working@ == incoming_map(receipts@.take(i as int)),
        decreases receipts@.len() - i,
    {
        let receipt = receipts[i];
        proof {
            assert(receipts@.take(i + 1).drop_last() =~= receipts@.take(i as int));
            assert(receipts@.take(i + 1).last() == receipts@[i as int]);
        }
        working.insert(receipt.id, receipt);
        i = i + 1;
    }
    proof {
        assert(receipts@.take(receipts@.len() as int) =~= receipts@);
    }

    // Drop every id the local log has already read; stop once nothing is
    // left to commit.
    let mut j: usize = 0;
    proof {
        assert(local@.take(0) =~= Seq::<P2PMessageReceipt>::empty());
        assert(local@.take(local@.len() as int) =~= local@);
    }
    while j < local.len()
        invariant_except_break
            j <= local@.len(),
            local@.take(local@.len() as int) == local@,
            working.wf(),
            forall|k: ContentHash| #[trigger]
                working@.contains_key(k) <==> (incoming_map(receipts@).contains_key(k)
                    && !has_local_read(local@.take(j as int), k)),
            forall|k: ContentHash| #[trigger]
                working@.contains_key(k) ==> working@[k] == incoming_map(receipts@)[k],
        ensures
            working.wf(),
            forall|k: ContentHash| #[trigger]
                working@.contains_key(k) <==> (incoming_map(receipts@).contains_key(k)
                    && !has_local_read(local@, k)),
            forall|k: ContentHash| #[trigger]
                working@.contains_key(k) ==> working@[k] == incoming_map(receipts@)[k],
        decreases local@.len() - j,
    {
        let receipt = local[j];
        if working.contains_key(receipt.id) {
            if matches!(receipt.status, Status::Read { .. }) {
                working.remove(receipt.id);
            }
        }
        proof {
            assert forall|k: ContentHash| #[trigger]
                working@.contains_key(k) <==> (incoming_map(receipts@).contains_key(k)
                    && !has_local_read(local@.take(j + 1), k)) by {
                lemma_read_extend(local@, j as int, k);
            }
        }
        j = j + 1;
        if working.is_empty() {
            proof {
                assert forall|k: ContentHash| #[trigger]
                    working@.contains_key(k) <==> (incoming_map(receipts@).contains_key(k)
                        && !has_local_read(local@, k)) by {
                    if incoming_map(receipts@).contains_key(k) {
                        assert(!working@.contains_key(k));
                        lemma_read_mono(local@, j as int, k);
                    }
                }
            }
            break;
        }
    }
    proof {
        assert(working@ =~= reconcile_model(receipts@, local@));
    }
    working
}

/// Idempotence: reconciling a `Read` receipt a second time — once the local
/// log holds a `Read` receipt for its id, as it does after the first
/// reconciliation committed it — yields an empty newly-committed set.
pub proof fn lemma_reconcile_idempotent(r: P2PMessageReceipt, local: Seq<P2PMessageReceipt>)
    requires
        r.status is Read,
        has_local_read(local, r.id),
    ensures
        reconcile_model(seq![r], local) == Map::<ContentHash, P2PMessageReceipt>::empty(),
{
    assert(seq![r].len() == 1);
    assert(seq![r].last() == r);
    assert(seq![r].drop_last() =~= Seq::<P2PMessageReceipt>::empty());
    assert(incoming_map(Seq::<P2PMessageReceipt>::empty()) == Map::<
        ContentHash,
        P2PMessageReceipt,
    >::empty());
    assert(incoming_map(seq![r]) =~= Map::<ContentHash, P2PMessageReceipt>::empty().insert(
        r.id,
        r,
    ));
    assert forall|k: ContentHash| !reconcile_model(seq![r], local).contains_key(k) by {
        if incoming_map(seq![r]).contains_key(k) {
            assert(k == r.id);
        }
    }
    assert(reconcile_model(seq![r], local) =~= Map::<ContentHash, P2PMessageReceipt>::empty());
}

/// Monotonic status: once the local log has read a message, an incoming
/// `Delivered` receipt for the same id is not committed again — the result
/// set excludes it, so the status never moves backwards.
pub proof fn lemma_reconcile_monotonic(d: P2PMessageReceipt, local: Seq<P2PMessageReceipt>)
    requires
        d.status is Delivered,
        has_local_read(local, d.id),
    ensures
        !reconcile_model(seq![d], local).contains_key(d.id),
{
}

/// Handles a read receipt arriving from the peer that read the message:
/// reconciles it against the local receipt log and describes the
/// notification to emit. The caller commits the returned receipts to the
/// log and emits the notification.
pub fn receive_read_receipt_handler(
    receipt: P2PMessageReceipt,
    receipt_log: &Vec<P2PMessageReceipt>,
) -> (r: (ReceiptContents, SignalDetails))
    ensures
        r.0.wf(),
        r.0@ == reconcile_model(seq![receipt], receipt_log@),
        r.1.name == SignalName::ReceiveP2pReceipt,
        r.1.payload matches Signal::P2PMessageReceipt(rs) && rs.receipt@ == r.0@,
{
    let mut incoming: Vec<P2PMessageReceipt> = Vec::new();
    incoming.push(receipt);
    proof {
        assert(incoming@ =~= seq![receipt]);
    }
    let receipts = reconcile_receipts(incoming, receipt_log);
    let signal = Signal::P2PMessageReceipt(ReceiptSignal { receipt: receipts.duplicate() });
    let signal_details = SignalDetails { name: SignalName::ReceiveP2pReceipt, payload: signal };
    (receipts, signal_details)
}

/// Handles a receipt the transport delivered after the local log already
/// committed it under `committed_hash` (the identity the append returned):
/// describes the notification announcing it, keyed by that identity.
pub fn receive_receipt_handler(receipt: P2PMessageReceipt, committed_hash: ContentHash) -> (r: (
    ReceiptContents,
    SignalDetails,
))
    ensures
        r.0.wf(),
        r.0@ == Map::<ContentHash, P2PMessageReceipt>::empty().insert(committed_hash, receipt),
        r.1.name == SignalName::ReceiveP2pReceipt,
        r.1.payload matches Signal::P2PMessageReceipt(rs) && rs.receipt@ == r.0@,
{
    let mut receipt_contents = ReceiptContents::new();
    receipt_contents.insert(committed_hash, receipt);
    let signal = Signal::P2PMessageReceipt(
        ReceiptSignal { receipt: receipt_contents.duplicate() },
    );
    let signal_details = SignalDetails { name: SignalName::ReceiveP2pReceipt, payload: signal };
    (receipt_contents, signal_details)
}

} // verus!
