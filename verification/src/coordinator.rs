//! The delivery and receipt coordinator: builds outbound messages, decides
//! what each outcome of the remote call means, synthesizes receipts on the
//! receiving side, resolves reply context, and describes the notifications
//! to emit.
//!
//! Every function here is pure: the clock reading, the author identity, the
//! scanned log and the outcome of the remote call arrive as arguments, and
//! the values to commit, send or emit are returned. The host adapter
//! performs the blocking remote call itself and the log appends; a network
//! failure is reported to the sender as a distinct error class, and no
//! retry is attempted.

use vstd::prelude::*;
use crate::types::{
    AgentKey, ContentHash, FileMetadata, MessageAndReceipt, MessageDataAndReceipt, MessageInput,
    MessageInputV, MessageSignal, MessageV, P2pError, P2PFileBytes, P2PMessage, P2PMessageData,
    P2PMessageReceipt, P2PMessageReplyTo, P2PTypingDetailIO, Payload, PayloadInput, PayloadInputV,
    PayloadV, ReceiveMessageInput, RemoteCallFailure, ReplyToV, Status, Timestamp, TypingSignal,
    MessageDataV, FileMetadataV,
};
use crate::hash::{content_hash, receipt_hash, spec_message_hash, spec_receipt_hash};
use crate::assembly::{clone_file_type, clone_payload, clone_string, copy_bytes, msg_id};
use crate::signals::{Signal, SignalDetails, SignalName};

verus! {

/// The message a given input, author and clock reading determine: the
/// payload is carried over (file bytes are split off into their own
/// entity), and `time_sent` is the moment of construction, so it reflects
/// send intent.
pub open spec fn spec_from_input(input: MessageInputV, author: AgentKey, now: Timestamp) -> MessageV {
    MessageV {
        author,
        receiver: input.receiver,
        payload: match input.payload {
            PayloadInputV::Text { payload } => PayloadV::Text { payload },
            PayloadInputV::File { file_name, file_size, file_type, file_hash, .. } => {
                PayloadV::File {
                    metadata: FileMetadataV { file_name, file_size, file_type, file_hash },
                    file_type,
                }
            },
        },
        time_sent: now,
        reply_to: input.reply_to,
    }
}

/// The `Delivered` receipt a message and a clock reading determine: it
/// references the message by content hash.
pub open spec fn spec_delivered_receipt(m: MessageV, now: Timestamp) -> P2PMessageReceipt {
    P2PMessageReceipt {
        id: ContentHash { raw: spec_message_hash(m) },
        status: Status::Delivered { timestamp: now },
    }
}

/// Round trip: the receipt the receiving peer synthesizes for a transmitted
/// message carries exactly the content hash of the message the sender built,
/// whatever the two clock readings were.
pub proof fn lemma_send_receive_round_trip(
    input: MessageInputV,
    author: AgentKey,
    sent: Timestamp,
    received: Timestamp,
)
    ensures
        spec_delivered_receipt(spec_from_input(input, author, sent), received).id == msg_id(
            spec_from_input(input, author, sent),
        ),
        spec_delivered_receipt(spec_from_input(input, author, sent), received).status
            == (Status::Delivered { timestamp: received }),
{
}

impl P2PMessage {
    /// Builds the outbound message. The author identity and the clock
    /// reading come from the host and are passed in.
    pub fn from_input(input: MessageInput, author: AgentKey, now: Timestamp) -> (m: P2PMessage)
        ensures
            m@ == spec_from_input(input@, author, now),
    {
        P2PMessage {
            author,
            receiver: input.receiver,
            payload: match input.payload {
                PayloadInput::Text { payload } => Payload::Text { payload },
                PayloadInput::File { file_name, file_size, file_type, file_hash, .. } => {
                    Payload::File {
                        metadata: FileMetadata {
                            file_name,
                            file_size,
                            file_type: clone_file_type(&file_type),
                            file_hash,
                        },
                        file_type,
                    }
                },
            },
            time_sent: now,
            reply_to: input.reply_to,
        }
    }
}

impl P2PMessageReceipt {
    /// Synthesizes the `Delivered` receipt for an arriving message,
    /// referencing it by content hash and stamped with the local clock.
    pub fn from_message(message: &P2PMessage, now: Timestamp) -> (r: P2PMessageReceipt)
        ensures
            r == spec_delivered_receipt(message@, now),
    {
        P2PMessageReceipt {
            id: content_hash(message),
            status: Status::Delivered { timestamp: now },
        }
    }

    /// Builds the `Read` receipt that marks a message read, referencing the
    /// same message id as its delivery receipt did.
    pub fn read_receipt(id: ContentHash, now: Timestamp) -> (r: P2PMessageReceipt)
        ensures
            r == (P2PMessageReceipt { id, status: Status::Read { timestamp: now } }),
    {
        P2PMessageReceipt { id, status: Status::Read { timestamp: now } }
    }
}

impl P2PFileBytes {
    /// Extracts the raw file bytes of a file payload into an entity of their
    /// own; a text payload has none, which is an input error.
    pub fn from_input(input: MessageInput) -> (r: Result<P2PFileBytes, P2pError>)
        ensures
            input@.payload matches PayloadInputV::File { bytes, .. } ==> (r matches Ok(f) && f@
                == bytes),
            input@.payload is Text ==> (r matches Err(e) && e == P2pError::InvalidInput),
    {
        match input.payload {
            PayloadInput::Text { .. } => Err(P2pError::InvalidInput),
            PayloadInput::File { bytes, .. } => Ok(P2PFileBytes(bytes)),
        }
    }
}

/// A field-by-field copy of a message input, with its view preserved.
pub fn clone_message_input(input: &MessageInput) -> (r: MessageInput)
    ensures
        r@ == input@,
{
    MessageInput {
        receiver: input.receiver,
        payload: match &input.payload {
            PayloadInput::Text { payload } => PayloadInput::Text {
                payload: clone_string(payload),
            },
            PayloadInput::File { file_name, file_size, file_type, file_hash, bytes } => {
                PayloadInput::File {
                    file_name: clone_string(file_name),
                    file_size: *file_size,
                    file_type: clone_file_type(file_type),
                    file_hash: clone_string(file_hash),
                    bytes: copy_bytes(bytes),
                }
            },
        },
        reply_to: input.reply_to,
    }
}

/// Builds everything a send needs before the remote call: the message, and
/// the file entity when the payload carries one. The host then invokes the
/// receiver with both.
pub fn send_message_request(message_input: MessageInput, author: AgentKey, now: Timestamp) -> (r: (
    P2PMessage,
    Option<P2PFileBytes>,
))
    ensures
        r.0@ == spec_from_input(message_input@, author, now),
        message_input@.payload matches PayloadInputV::File { bytes, .. } ==> (r.1 matches Some(f)
            && f@ == bytes),
        message_input@.payload is Text ==> r.1 is None,
{
    let message = P2PMessage::from_input(clone_message_input(&message_input), author, now);
    let file = match &message_input.payload {
        PayloadInput::File { .. } => {
            match P2PFileBytes::from_input(message_input) {
                Ok(f) => Some(f),
                Err(_) => None,
            }
        },
        _ => None,
    };
    (message, file)
}

/// Decides what a send returns for each outcome of the remote call. On
/// success, the caller commits the message, the received receipt, and the
/// file entity (when present) to its own log, in that order; a commit
/// failure after the successful handshake is a fatal inconsistency the host
/// surfaces as `PersistenceFailure`. On failure nothing is committed: an
/// unreachable peer — and any other transport failure, since no retry is
/// attempted — surfaces as `NetworkUnreachable`, and a remote capability
/// refusal as `Unauthorized`.
pub fn send_message_outcome(
    message: P2PMessage,
    remote: Result<P2PMessageReceipt, RemoteCallFailure>,
) -> (r: Result<MessageAndReceipt, P2pError>)
    ensures
        remote matches Ok(receipt) ==> (r matches Ok(mr) && mr.0@ == message@ && mr.1 == receipt),
        remote matches Err(RemoteCallFailure::Unreachable) ==> (r matches Err(e) && e
            == P2pError::NetworkUnreachable),
        remote matches Err(RemoteCallFailure::Unauthorized) ==> (r matches Err(e) && e
            == P2pError::Unauthorized),
        remote matches Err(RemoteCallFailure::Other) ==> (r matches Err(e) && e
            == P2pError::NetworkUnreachable),
{
    match remote {
        Ok(receipt) => Ok(MessageAndReceipt(message, receipt)),
        Err(RemoteCallFailure::Unreachable) => Err(P2pError::NetworkUnreachable),
        Err(RemoteCallFailure::Unauthorized) => Err(P2pError::Unauthorized),
        Err(RemoteCallFailure::Other) => Err(P2pError::NetworkUnreachable),
    }
}

/// Resolving a reply target against a scanned log: the enriched descriptor
/// of the last logged message whose content hash is the target, if any.
pub open spec fn resolve_scan(target: ContentHash, log: Seq<MessageV>) -> Option<ReplyToV>
    decreases log.len(),
{
    if log.len() == 0 {
        None
    } else {
        if msg_id(log.last()) == target {
            Some(
                ReplyToV {
                    hash: target,
                    author: log.last().author,
                    receiver: log.last().receiver,
                    payload: log.last().payload,
                    time_sent: log.last().time_sent,
                },
            )
        } else {
            resolve_scan(target, log.drop_last())
        }
    }
}

/// The reply context of an arriving message: resolved against the local
/// log when the message answers another, and absent otherwise.
pub open spec fn resolve_model(m: MessageV, log: Seq<MessageV>) -> Option<ReplyToV> {
    match m.reply_to {
        Some(target) => resolve_scan(target, log),
        None => None,
    }
}

/// Reply resolution: an arriving reply gets a descriptor exactly when its
/// target is present among the logged messages; an unmatched target yields
/// no descriptor and no error.
pub proof fn lemma_reply_resolution(m: MessageV, log: Seq<MessageV>)
    ensures
        (resolve_model(m, log) is Some) <==> (m.reply_to matches Some(target) && exists|i: int|
            0 <= i < log.len() && msg_id(#[trigger] log[i]) == target),
{
    match m.reply_to {
        Some(target) => {
            lemma_resolve_scan_found(target, log);
        },
        None => {},
    }
}

proof fn lemma_resolve_scan_found(target: ContentHash, log: Seq<MessageV>)
    ensures
        (resolve_scan(target, log) is Some) <==> (exists|i: int|
            0 <= i < log.len() && msg_id(#[trigger] log[i]) == target),
    decreases log.len(),
{
    if log.len() > 0 {
        lemma_resolve_scan_found(target, log.drop_last());
        if msg_id(log.last()) == target {
            assert(msg_id(log[log.len() - 1]) == target);
        } else {
            if exists|i: int| 0 <= i < log.drop_last().len() && msg_id(
                #[trigger] log.drop_last()[i],
            ) == target {
                let i = choose|i: int|
                    0 <= i < log.drop_last().len() && msg_id(#[trigger] log.drop_last()[i])
                        == target;
                assert(log[i] == log.drop_last()[i]);
            }
            if exists|i: int| 0 <= i < log.len() && msg_id(#[trigger] log[i]) == target {
                let i = choose|i: int| 0 <= i < log.len() && msg_id(#[trigger] log[i]) == target;
                assert(log.drop_last()[i] == log[i]);
            }
        }
    }
}

/// The view of an optional reply descriptor.
pub open spec fn reply_opt_view(o: Option<P2PMessageReplyTo>) -> Option<ReplyToV> {
    match o {
        Some(r) => Some(r@),
        None => None,
    }
}

/// Handles an arriving message on the receiving peer: synthesizes the
/// `Delivered` receipt, resolves the message's reply context against the
/// local message log, and describes the arrival notification. The caller
/// commits the message, the receipt and the file entity (when present) to
/// the local log, emits the notification, and returns the receipt to the
/// sender as the call's response.
pub fn receive_message_handler(
    input: ReceiveMessageInput,
    message_log: &Vec<P2PMessage>,
    now: Timestamp,
) -> (r: (P2PMessageReceipt, SignalDetails))
    ensures
        r.0 == spec_delivered_receipt(input.0@, now),
        r.1.name == SignalName::ReceiveP2pMessage,
        r.1.payload matches Signal::Message(ms) && ms.message.message_hash == msg_id(input.0@)
            && ms.message.message@ == (MessageDataV {
            author: input.0@.author,
            receiver: input.0@.receiver,
            payload: input.0@.payload,
            time_sent: input.0@.time_sent,
            reply_to: resolve_model(input.0@, message_log.deep_view()),
        }) && ms.message.receipt_hash.raw == spec_receipt_hash(r.0) && ms.message.receipt == r.0,
{
    let ghost logv = message_log.deep_view();
    let receipt = P2PMessageReceipt::from_message(&input.0, now);

    let mut reply_context: Option<P2PMessageReplyTo> = None;
    match &input.0.reply_to {
        Some(reply_to_hash) => {
            let target: ContentHash = *reply_to_hash;
            let mut i: usize = 0;
            proof {
                assert(logv.take(0) =~= Seq::<MessageV>::empty());
            }
            while i < message_log.len()
                invariant
                    i <= logv.len(),
                    logv == message_log.deep_view(),
                    logv.len() == message_log@.len(),
                    reply_opt_view(reply_context) == resolve_scan(target, logv.take(i as int)),
                decreases logv.len() - i,
            {
                let message_entry = &message_log[i];
                let message_hash = content_hash(message_entry);
                proof {
                    assert(logv.take(i + 1).drop_last() =~= logv.take(i as int));
                    assert(logv.take(i + 1).last() == logv[i as int]);
                    assert(message_entry@ == logv[i as int]);
                }
                if target == message_hash {
                    reply_context = Some(
                        P2PMessageReplyTo {
                            hash: message_hash,
                            author: message_entry.author,
                            receiver: message_entry.receiver,
                            payload: clone_payload(&message_entry.payload),
                            time_sent: message_entry.time_sent,
                        },
                    );
                }
                i = i + 1;
            }
            proof {
                assert(logv.take(logv.len() as int) =~= logv);
            }
        },
        None => {},
    }

    let message_return = P2PMessageData {
        author: input.0.author,
        receiver: input.0.receiver,
        payload: clone_payload(&input.0.payload),
        time_sent: input.0.time_sent,
        reply_to: reply_context,
    };
    let message_hash = content_hash(&input.0);
    let receipt_own_hash = receipt_hash(&receipt);
    let signal = Signal::Message(
        MessageSignal {
            message: MessageDataAndReceipt {
                message_hash,
                message: message_return,
                receipt_hash: receipt_own_hash,
                receipt,
            },
        },
    );
    let signal_details = SignalDetails { name: SignalName::ReceiveP2pMessage, payload: signal };
    (receipt, signal_details)
}

/// Handles an arriving message without building the notification: the
/// receipt alone. The caller commits the message, the receipt and the file
/// entity (when present), and returns the receipt to the sender.
pub fn receive_message(input: &ReceiveMessageInput, now: Timestamp) -> (r: P2PMessageReceipt)
    ensures
        r == spec_delivered_receipt(input.0@, now),
{
    P2PMessageReceipt::from_message(&input.0, now)
}

/// What a read action hands the coordinator: the `Read` receipt and the
/// original sender to notify.
#[derive(Clone, Copy, PartialEq, Eq, Structural, Debug)]
pub struct ReadReceiptInput {
    pub receipt: P2PMessageReceipt,
    pub sender: AgentKey,
}

/// What marking a message read requires of the host: commit the receipt
/// locally, then invoke the original sender's read-receipt operation with
/// the same receipt; the response is the sender's reconciliation result.
#[derive(Clone, Copy, PartialEq, Eq, Structural, Debug)]
pub struct ReadMessagePlan {
    pub commit: P2PMessageReceipt,
    pub peer: AgentKey,
    pub payload: P2PMessageReceipt,
}

/// Decides the read-receipt handshake: the receipt is committed locally and
/// carried unchanged to the original sender.
pub fn read_message(read_receipt_input: ReadReceiptInput) -> (p: ReadMessagePlan)
    ensures
        p.commit == read_receipt_input.receipt,
        p.peer == read_receipt_input.sender,
        p.payload == read_receipt_input.receipt,
{
    ReadMessagePlan {
        commit: read_receipt_input.receipt,
        peer: read_receipt_input.sender,
        payload: read_receipt_input.receipt,
    }
}

/// Builds the typing-presence notice: the flag is stamped with the local
/// agent as its subject and broadcast to both participants — the peer and
/// the local agent itself. No state is retained.
pub fn typing(typing_info: P2PTypingDetailIO, me: AgentKey) -> (r: (Signal, Vec<AgentKey>))
    ensures
        r.0 matches Signal::P2PTypingDetailSignal(ts) && ts.agent == me && ts.is_typing
            == typing_info.is_typing,
        r.1@ == seq![typing_info.agent, me],
{
    let payload = Signal::P2PTypingDetailSignal(
        TypingSignal { agent: me, is_typing: typing_info.is_typing },
    );
    let mut agents: Vec<AgentKey> = Vec::new();
    agents.push(typing_info.agent);
    agents.push(me);
    proof {
        assert(agents@ =~= seq![typing_info.agent, me]);
    }
    (payload, agents)
}

} // verus!
