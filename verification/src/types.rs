//! The entity and payload model: messages, receipts, file entities, filter
//! descriptors, signals and the error taxonomy.
//!
//! Identity is structural: agents and records are named by opaque key types
//! (`AgentKey`, `ContentHash`) with value equality, never by stringified
//! identifiers. A message's identity is its content hash, computed on demand
//! (see the `hash` module) and never stored as a field, so hash and content
//! cannot diverge.

use vstd::prelude::*;

verus! {

/// Opaque identity of an agent (a participant keypair), with value equality.
#[derive(Clone, Copy, PartialEq, Eq, Structural, Debug)]
pub struct AgentKey {
    pub raw: u64,
}

/// Deterministic digest of a record's serialized content, used as its
/// identity in the log and in every table the engine builds.
#[derive(Clone, Copy, PartialEq, Eq, Structural, Debug)]
pub struct ContentHash {
    pub raw: u64,
}

/// A point in time: whole seconds paired with a sub-second nanosecond part.
#[derive(Clone, Copy, PartialEq, Eq, Structural, Debug)]
pub struct Timestamp {
    pub secs: i64,
    pub nanos: u32,
}

/// A timestamp as a count of microseconds, the granularity used when the
/// assembly engine classifies a message against a cursor boundary.
pub open spec fn micros_of(t: Timestamp) -> int {
    t.secs * 1_000_000 + t.nanos / 1000
}

/// Compares two timestamps at microsecond granularity.
pub fn micros_at_least(a: Timestamp, b: Timestamp) -> (r: bool)
    ensures
        r == (micros_of(a) >= micros_of(b)),
{
    let am: i128 = (a.secs as i128) * 1_000_000 + (a.nanos / 1000) as i128;
    let bm: i128 = (b.secs as i128) * 1_000_000 + (b.nanos / 1000) as i128;
    am >= bm
}

/// The file-kind tag of a file payload; images and videos carry a thumbnail.
#[derive(Clone, Debug)]
pub enum FileType {
    Image { thumbnail: Vec<u8> },
    Video { thumbnail: Vec<u8> },
    Other,
}

/// Mathematical model of a `FileType`.
#[verifier::ext_equal]
pub enum FileTypeV {
    Image { thumbnail: Seq<u8> },
    Video { thumbnail: Seq<u8> },
    Other,
}

impl View for FileType {
    type V = FileTypeV;

    open spec fn view(&self) -> FileTypeV {
        match self {
            FileType::Image { thumbnail } => FileTypeV::Image { thumbnail: thumbnail@ },
            FileType::Video { thumbnail } => FileTypeV::Video { thumbnail: thumbnail@ },
            FileType::Other => FileTypeV::Other,
        }
    }
}

/// Descriptive fields of a file payload; the raw bytes live in a separate
/// `P2PFileBytes` entity to bound the message record's size.
#[derive(Clone, Debug)]
pub struct FileMetadata {
    pub file_name: String,
    pub file_size: u8,
    pub file_type: FileType,
    pub file_hash: String,
}

/// Mathematical model of `FileMetadata`.
#[verifier::ext_equal]
pub struct FileMetadataV {
    pub file_name: Seq<char>,
    pub file_size: u8,
    pub file_type: FileTypeV,
    pub file_hash: Seq<char>,
}

impl View for FileMetadata {
    type V = FileMetadataV;

    open spec fn view(&self) -> FileMetadataV {
        FileMetadataV {
            file_name: self.file_name@,
            file_size: self.file_size,
            file_type: self.file_type@,
            file_hash: self.file_hash@,
        }
    }
}

/// What a message carries: text, or a file described by its metadata.
#[derive(Clone, Debug)]
pub enum Payload {
    Text { payload: String },
    File { metadata: FileMetadata, file_type: FileType },
}

/// Mathematical model of a `Payload`.
#[verifier::ext_equal]
pub enum PayloadV {
    Text { payload: Seq<char> },
    File { metadata: FileMetadataV, file_type: FileTypeV },
}

impl View for Payload {
    type V = PayloadV;

    open spec fn view(&self) -> PayloadV {
        match self {
            Payload::Text { payload } => PayloadV::Text { payload: payload@ },
            Payload::File { metadata, file_type } => PayloadV::File {
                metadata: metadata@,
                file_type: file_type@,
            },
        }
    }
}

/// A direct message, immutable once committed to a log. Its identity is its
/// content hash; `reply_to` optionally names the message it answers.
#[derive(Clone, Debug)]
pub struct P2PMessage {
    pub author: AgentKey,
    pub receiver: AgentKey,
    pub payload: Payload,
    pub time_sent: Timestamp,
    pub reply_to: Option<ContentHash>,
}

/// Mathematical model of a `P2PMessage`.
#[verifier::ext_equal]
pub struct MessageV {
    pub author: AgentKey,
    pub receiver: AgentKey,
    pub payload: PayloadV,
    pub time_sent: Timestamp,
    pub reply_to: Option<ContentHash>,
}

impl View for P2PMessage {
    type V = MessageV;

    open spec fn view(&self) -> MessageV {
        MessageV {
            author: self.author,
            receiver: self.receiver,
            payload: self.payload@,
            time_sent: self.time_sent,
            reply_to: self.reply_to,
        }
    }
}

impl DeepView for P2PMessage {
    type V = MessageV;

    open spec fn deep_view(&self) -> MessageV {
        self.view()
    }
}

/// Delivery progression of a message: sent, then delivered, then read.
#[derive(Clone, Copy, PartialEq, Eq, Structural, Debug)]
pub enum Status {
    Sent,
    Delivered { timestamp: Timestamp },
    Read { timestamp: Timestamp },
}

/// An acknowledgement of one message. `id` is the content hash of the
/// acknowledged message, not of the receipt itself; the two must never be
/// conflated.
#[derive(Clone, Copy, PartialEq, Eq, Structural, Debug)]
pub struct P2PMessageReceipt {
    pub id: ContentHash,
    pub status: Status,
}

/// The raw bytes of a file payload, stored as an entity of its own.
#[derive(Clone, Debug)]
pub struct P2PFileBytes(pub Vec<u8>);

impl View for P2PFileBytes {
    type V = Seq<u8>;

    open spec fn view(&self) -> Seq<u8> {
        self.0@
    }
}

/// Author-supplied description of a file to send.
#[derive(Clone, Debug)]
pub enum PayloadInput {
    Text {
        payload: String,
    },
    File {
        file_name: String,
        file_size: u8,
        file_type: FileType,
        file_hash: String,
        bytes: Vec<u8>,
    },
}

/// Mathematical model of a `PayloadInput`.
#[verifier::ext_equal]
pub enum PayloadInputV {
    Text {
        payload: Seq<char>,
    },
    File {
        file_name: Seq<char>,
        file_size: u8,
        file_type: FileTypeV,
        file_hash: Seq<char>,
        bytes: Seq<u8>,
    },
}

impl View for PayloadInput {
    type V = PayloadInputV;

    open spec fn view(&self) -> PayloadInputV {
        match self {
            PayloadInput::Text { payload } => PayloadInputV::Text { payload: payload@ },
            PayloadInput::File { file_name, file_size, file_type, file_hash, bytes } => {
                PayloadInputV::File {
                    file_name: file_name@,
                    file_size: *file_size,
                    file_type: file_type@,
                    file_hash: file_hash@,
                    bytes: bytes@,
                }
            },
        }
    }
}

/// What a sender hands to the coordinator: whom to reach, what to say, and
/// optionally which message is being answered.
#[derive(Clone, Debug)]
pub struct MessageInput {
    pub receiver: AgentKey,
    pub payload: PayloadInput,
    pub reply_to: Option<ContentHash>,
}

/// Mathematical model of a `MessageInput`.
#[verifier::ext_equal]
pub struct MessageInputV {
    pub receiver: AgentKey,
    pub payload: PayloadInputV,
    pub reply_to: Option<ContentHash>,
}

impl View for MessageInput {
    type V = MessageInputV;

    open spec fn view(&self) -> MessageInputV {
        MessageInputV { receiver: self.receiver, payload: self.payload@, reply_to: self.reply_to }
    }
}

/// What the receiving peer is handed: the message and its optional file.
#[derive(Clone, Debug)]
pub struct ReceiveMessageInput(pub P2PMessage, pub Option<P2PFileBytes>);

/// A message paired with the receipt acknowledging it.
#[derive(Clone, Debug)]
pub struct MessageAndReceipt(pub P2PMessage, pub P2PMessageReceipt);

/// A boolean carried across the call boundary.
#[derive(Clone, Copy, PartialEq, Eq, Structural, Debug)]
pub struct BooleanWrapper(pub bool);

/// A receipt's own content hash carried across the call boundary.
#[derive(Clone, Copy, PartialEq, Eq, Structural, Debug)]
pub struct ReceiptHash(pub ContentHash);

/// A message's content hash carried across the call boundary.
#[derive(Clone, Copy, PartialEq, Eq, Structural, Debug)]
pub struct MessageHash(pub ContentHash);

/// A requested batch size for latest-messages retrieval.
#[derive(Clone, Copy, PartialEq, Eq, Structural, Debug)]
pub struct BatchSize(pub u8);

/// Which payloads a retrieval is interested in. `Media` matches image and
/// video files, `File` matches any file payload regardless of subtype, and
/// `All` bypasses the predicate.
#[derive(Clone, Copy, PartialEq, Eq, Structural, Debug)]
pub enum PayloadType {
    Text,
    Media,
    File,
    Other,
    All,
}

/// Cursor-based filter for paginated retrieval. The cursor pair — the
/// timestamp and the id of the last message a previous page returned —
/// means "resume strictly past this point"; absence means "start from the
/// most recent".
#[derive(Clone, Copy, PartialEq, Eq, Structural, Debug)]
pub struct P2PMessageFilterBatch {
    pub conversant: AgentKey,
    pub batch_size: u8,
    pub payload_type: PayloadType,
    pub last_fetched_timestamp: Option<Timestamp>,
    pub last_fetched_message_id: Option<ContentHash>,
}

/// Filter for one conversant's messages within a single calendar day.
#[derive(Clone, Copy, PartialEq, Eq, Structural, Debug)]
pub struct P2PMessageFilterAgentTimestamp {
    pub conversant: AgentKey,
    pub date: Timestamp,
    pub payload_type: PayloadType,
}

/// A typing-presence notice exchanged between the two participants.
#[derive(Clone, Copy, PartialEq, Eq, Structural, Debug)]
pub struct P2PTypingDetailIO {
    pub agent: AgentKey,
    pub is_typing: bool,
}

/// The error taxonomy of this core. No operation panics; every failure path
/// returns one of these to the caller.
#[derive(Clone, Copy, PartialEq, Eq, Structural, Debug)]
pub enum P2pError {
    /// Malformed filter or a payload missing its required bytes.
    InvalidInput,
    /// The remote peer was unreachable or the call timed out.
    NetworkUnreachable,
    /// A capability check failed on the remote side.
    Unauthorized,
    /// The local log refused an append or a read.
    PersistenceFailure,
    /// A reference could not be resolved.
    NotFound,
}

/// How the remote-invocation transport reports a failed call.
#[derive(Clone, Copy, PartialEq, Eq, Structural, Debug)]
pub enum RemoteCallFailure {
    Unreachable,
    Unauthorized,
    Other,
}

/// Enriched view of a replied-to message, attached to an arriving reply for
/// display purposes.
#[derive(Clone, Debug)]
pub struct P2PMessageReplyTo {
    pub hash: ContentHash,
    pub author: AgentKey,
    pub receiver: AgentKey,
    pub payload: Payload,
    pub time_sent: Timestamp,
}

/// Mathematical model of a `P2PMessageReplyTo`.
#[verifier::ext_equal]
pub struct ReplyToV {
    pub hash: ContentHash,
    pub author: AgentKey,
    pub receiver: AgentKey,
    pub payload: PayloadV,
    pub time_sent: Timestamp,
}

impl View for P2PMessageReplyTo {
    type V = ReplyToV;

    open spec fn view(&self) -> ReplyToV {
        ReplyToV {
            hash: self.hash,
            author: self.author,
            receiver: self.receiver,
            payload: self.payload@,
            time_sent: self.time_sent,
        }
    }
}

/// A message as announced to local subscribers, with its reply context
/// resolved against the local log.
#[derive(Clone, Debug)]
pub struct P2PMessageData {
    pub author: AgentKey,
    pub receiver: AgentKey,
    pub payload: Payload,
    pub time_sent: Timestamp,
    pub reply_to: Option<P2PMessageReplyTo>,
}

/// Mathematical model of a `P2PMessageData`.
#[verifier::ext_equal]
pub struct MessageDataV {
    pub author: AgentKey,
    pub receiver: AgentKey,
    pub payload: PayloadV,
    pub time_sent: Timestamp,
    pub reply_to: Option<ReplyToV>,
}

impl View for P2PMessageData {
    type V = MessageDataV;

    open spec fn view(&self) -> MessageDataV {
        MessageDataV {
            author: self.author,
            receiver: self.receiver,
            payload: self.payload@,
            time_sent: self.time_sent,
            reply_to: match &self.reply_to {
                Some(r) => Some(r@),
                None => None,
            },
        }
    }
}

/// The resolved message and its receipt, each paired with its content hash,
/// as carried by an arrival notification.
#[derive(Clone, Debug)]
pub struct MessageDataAndReceipt {
    pub message_hash: ContentHash,
    pub message: P2PMessageData,
    pub receipt_hash: ContentHash,
    pub receipt: P2PMessageReceipt,
}

/// Arrival notification payload: the message (with resolved reply context)
/// and the delivery receipt synthesized for it.
#[derive(Clone, Debug)]
pub struct MessageSignal {
    pub message: MessageDataAndReceipt,
}

/// Typing-presence notification payload.
#[derive(Clone, Copy, PartialEq, Eq, Structural, Debug)]
pub struct TypingSignal {
    pub agent: AgentKey,
    pub is_typing: bool,
}

} // verus!
