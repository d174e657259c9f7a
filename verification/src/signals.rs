//! The notification shapes this core emits to local subscribers: a message
//! arrival (with resolved reply context), a receipt arrival, and a typing
//! notice.

use vstd::prelude::*;
use crate::tables::ReceiptContents;
use crate::types::{MessageSignal, TypingSignal};

verus! {

/// The tag under which a notification is delivered.
#[derive(Clone, Copy, PartialEq, Eq, Structural, Debug)]
pub enum SignalName {
    ReceiveP2pMessage,
    ReceiveP2pReceipt,
}

/// Receipt-arrival notification payload: the newly committed receipts,
/// keyed by referenced message id.
#[derive(Clone, Debug)]
pub struct ReceiptSignal {
    pub receipt: ReceiptContents,
}

/// What a notification carries.
#[derive(Clone, Debug)]
pub enum Signal {
    Message(MessageSignal),
    P2PMessageReceipt(ReceiptSignal),
    P2PTypingDetailSignal(TypingSignal),
}

/// A notification as handed to the signal emitter.
#[derive(Clone, Debug)]
pub struct SignalDetails {
    pub name: SignalName,
    pub payload: Signal,
}

} // verus!
