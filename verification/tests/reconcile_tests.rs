use p2pmessage::types::{ContentHash, P2PMessageReceipt, Status, Timestamp};
use p2pmessage::tables::ReceiptContents;
use p2pmessage::reconcile::{
    receive_read_receipt_handler, receive_receipt_handler, reconcile_receipts,
};
use p2pmessage::signals::{Signal, SignalName};

fn ts(secs: i64) -> Timestamp {
    Timestamp { secs, nanos: 0 }
}

fn delivered(id: u64, secs: i64) -> P2PMessageReceipt {
    P2PMessageReceipt {
        id: ContentHash { raw: id },
        status: Status::Delivered { timestamp: ts(secs) },
    }
}

fn read(id: u64, secs: i64) -> P2PMessageReceipt {
    P2PMessageReceipt { id: ContentHash { raw: id }, status: Status::Read { timestamp: ts(secs) } }
}

fn get(rc: &ReceiptContents, id: u64) -> Option<P2PMessageReceipt> {
    rc.0.iter().find(|(k, _)| k.raw == id).map(|(_, r)| *r)
}

#[test]
fn new_receipt_is_committed() {
    let local: Vec<P2PMessageReceipt> = vec![delivered(1, 100)];
    let incoming = read(2, 200);
    let out = reconcile_receipts(vec![incoming], &local);
    assert_eq!(out.len(), 1);
    assert_eq!(get(&out, 2), Some(incoming));
}

#[test]
fn reconcile_is_idempotent_for_read_receipts() {
    let r = read(7, 300);
    // First reconciliation: nothing read locally yet, so the receipt is new.
    let mut local: Vec<P2PMessageReceipt> = vec![delivered(7, 100)];
    let first = reconcile_receipts(vec![r], &local);
    assert_eq!(get(&first, 7), Some(r));
    // The caller commits what came back; reconciling the same receipt again
    // now yields an empty newly-committed set.
    for (_, receipt) in first.0.iter() {
        local.push(*receipt);
    }
    let second = reconcile_receipts(vec![r], &local);
    assert!(second.is_empty());
}

#[test]
fn read_status_is_never_downgraded() {
    // The local log already read message 5; an incoming Delivered for the
    // same id is dropped from the result set.
    let local: Vec<P2PMessageReceipt> = vec![delivered(5, 100), read(5, 150)];
    let out = reconcile_receipts(vec![delivered(5, 400)], &local);
    assert!(out.is_empty());
}

#[test]
fn reconcile_separates_read_and_pending_ids() {
    let local: Vec<P2PMessageReceipt> = vec![read(1, 100), delivered(2, 100)];
    let out = reconcile_receipts(vec![delivered(1, 200), delivered(3, 200)], &local);
    assert_eq!(out.len(), 1);
    assert!(get(&out, 1).is_none());
    assert_eq!(get(&out, 3), Some(delivered(3, 200)));
}

#[test]
fn later_incoming_receipt_for_one_id_wins() {
    let local: Vec<P2PMessageReceipt> = Vec::new();
    let early = delivered(4, 100);
    let late = read(4, 200);
    let out = reconcile_receipts(vec![early, late], &local);
    assert_eq!(out.len(), 1);
    assert_eq!(get(&out, 4), Some(late));
}

#[test]
fn receive_read_receipt_reports_and_signals_the_new_set() {
    let local: Vec<P2PMessageReceipt> = vec![delivered(9, 100)];
    let incoming = read(9, 300);
    let (set, signal) = receive_read_receipt_handler(incoming, &local);
    assert_eq!(get(&set, 9), Some(incoming));
    assert_eq!(signal.name, SignalName::ReceiveP2pReceipt);
    match signal.payload {
        Signal::P2PMessageReceipt(rs) => {
            assert_eq!(get(&rs.receipt, 9), Some(incoming));
            assert_eq!(rs.receipt.len(), 1);
        },
        _ => panic!("expected a receipt signal"),
    }
}

#[test]
fn receive_read_receipt_is_empty_when_already_read() {
    let incoming = read(9, 300);
    let local: Vec<P2PMessageReceipt> = vec![incoming];
    let (set, signal) = receive_read_receipt_handler(incoming, &local);
    assert!(set.is_empty());
    match signal.payload {
        Signal::P2PMessageReceipt(rs) => assert!(rs.receipt.is_empty()),
        _ => panic!("expected a receipt signal"),
    }
}

#[test]
fn receive_receipt_announces_the_committed_entry() {
    let receipt = delivered(11, 100);
    let committed = ContentHash { raw: 555 };
    let (set, signal) = receive_receipt_handler(receipt, committed);
    assert_eq!(set.len(), 1);
    assert_eq!(get(&set, 555), Some(receipt));
    assert_eq!(signal.name, SignalName::ReceiveP2pReceipt);
    match signal.payload {
        Signal::P2PMessageReceipt(rs) => assert_eq!(get(&rs.receipt, 555), Some(receipt)),
        _ => panic!("expected a receipt signal"),
    }
}

#[test]
fn empty_working_set_exits_scan_early() {
    // One incoming id, already read locally at the front of a long log: the
    // result is empty regardless of what follows.
    let mut local: Vec<P2PMessageReceipt> = vec![read(1, 50)];
    for i in 0..100u64 {
        local.push(delivered(1000 + i, 60));
    }
    let out = reconcile_receipts(vec![delivered(1, 70)], &local);
    assert!(out.is_empty());
}
