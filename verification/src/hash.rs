//! Content addressing: the deterministic digest that names every record.
//!
//! A record's hash is a pure function of its own serialized fields and of
//! nothing else, so it is stable across repeated calls and cannot change
//! when unrelated entities change. The digest is a 64-bit
//! Fowler–Noll–Vo fold over a canonical token encoding of the record.

use vstd::prelude::*;
use vstd::utf8::encode_utf8;
use crate::types::{
    ContentHash, FileType, FileTypeV, MessageV, P2PMessage, P2PMessageReceipt, Payload, PayloadV,
    Status,
};

verus! {

pub const FNV_OFFSET: u64 = 0xcbf2_9ce4_8422_2325;

pub const FNV_PRIME: u64 = 0x0000_0100_0000_01b3;

/// One step of the digest: absorb one token into the running state.
pub open spec fn fnv_step(h: u64, x: u64) -> u64 {
    ((((h ^ x) as int) * (FNV_PRIME as int)) % 0x1_0000_0000_0000_0000) as u64
}

/// Absorb a sequence of tokens, front to back.
pub open spec fn fnv_seq(h: u64, s: Seq<u64>) -> u64
    decreases s.len(),
{
    if s.len() == 0 {
        h
    } else {
        fnv_seq(fnv_step(h, s[0]), s.drop_first())
    }
}

/// Token encoding of raw bytes: one token per byte.
pub open spec fn enc_bytes(s: Seq<u8>) -> Seq<u64> {
    s.map_values(|b: u8| b as u64)
}

/// Token encoding of text: the tokens of its UTF-8 bytes.
pub open spec fn enc_str(s: Seq<char>) -> Seq<u64> {
    enc_bytes(encode_utf8(s))
}

/// Token encoding of a file-kind tag and its thumbnail, if any.
pub open spec fn enc_file_type(f: FileTypeV) -> Seq<u64> {
    match f {
        FileTypeV::Image { thumbnail } => seq![1u64] + enc_bytes(thumbnail),
        FileTypeV::Video { thumbnail } => seq![2u64] + enc_bytes(thumbnail),
        FileTypeV::Other => seq![3u64],
    }
}

/// Token encoding of a payload.
pub open spec fn enc_payload(p: PayloadV) -> Seq<u64> {
    match p {
        PayloadV::Text { payload } => seq![1u64] + enc_str(payload),
        PayloadV::File { metadata, file_type } => seq![2u64] + enc_str(metadata.file_name)
            + seq![metadata.file_size as u64] + enc_file_type(metadata.file_type) + enc_str(
            metadata.file_hash,
        ) + enc_file_type(file_type),
    }
}

/// Token encoding of a whole message: all of its own fields, nothing else.
pub open spec fn enc_message(m: MessageV) -> Seq<u64> {
    seq![m.author.raw, m.receiver.raw] + enc_payload(m.payload) + seq![
        m.time_sent.secs as u64,
        m.time_sent.nanos as u64,
    ] + (match m.reply_to {
        Option::None => seq![0u64],
        Option::Some(h) => seq![1u64, h.raw],
    })
}

/// Token encoding of a delivery status.
pub open spec fn enc_status(s: Status) -> Seq<u64> {
    match s {
        Status::Sent => seq![0u64],
        Status::Delivered { timestamp } => seq![1u64, timestamp.secs as u64, timestamp.nanos as u64],
        Status::Read { timestamp } => seq![2u64, timestamp.secs as u64, timestamp.nanos as u64],
    }
}

/// Token encoding of a receipt: the referenced id and the status.
pub open spec fn enc_receipt(r: P2PMessageReceipt) -> Seq<u64> {
    seq![r.id.raw] + enc_status(r.status)
}

/// The content hash of a message, as a mathematical function of its fields.
pub open spec fn spec_message_hash(m: MessageV) -> u64 {
    fnv_seq(FNV_OFFSET, enc_message(m))
}

/// The content hash of a receipt (the receipt's own identity, distinct from
/// the message id the receipt carries).
pub open spec fn spec_receipt_hash(r: P2PMessageReceipt) -> u64 {
    fnv_seq(FNV_OFFSET, enc_receipt(r))
}

/// The content hash of a message names it: equal content, equal hash, on
/// every call. The digest takes the message alone, so no change to any other
/// entity can alter it.
pub proof fn lemma_content_hash_stable(m1: MessageV, m2: MessageV)
    requires
        m1 == m2,
    ensures
        spec_message_hash(m1) == spec_message_hash(m2),
{
}

fn fnv_step_exec(h: u64, x: u64) -> (r: u64)
    ensures
        r == fnv_step(h, x),
{
    let y: u64 = h ^ x;
    let wide: u128 = (y as u128) * (FNV_PRIME as u128);
    (wide % 0x1_0000_0000_0000_0000u128) as u64
}

fn fnv_fold(h0: u64, v: &Vec<u64>) -> (r: u64)
    ensures
        r == fnv_seq(h0, v@),
{
    let mut h: u64 = h0;
    let mut i: usize = 0;
    proof {
        assert(v@.skip(0) =~= v@);
    }
    while i < v.len()
        invariant
            i <= v@.len(),
            fnv_seq(h0, v@) == fnv_seq(h, v@.skip(i as int)),
        decreases v@.len() - i,
    {
        proof {
            assert(v@.skip(i as int)[0] == v@[i as int]);
            assert(v@.skip(i as int).drop_first() =~= v@.skip(i as int + 1));
        }
        h = fnv_step_exec(h, v[i]);
        i = i + 1;
    }
    h
}

fn push_bytes(v: &mut Vec<u64>, s: &[u8])
    ensures
        final(v)@ == old(v)@ + enc_bytes(s@),
{
    let ghost orig = v@;
    let mut i: usize = 0;
    while i < s.len()
        invariant
            i <= s@.len(),
            v@ == orig + enc_bytes(s@.take(i as int)),
        decreases s@.len() - i,
    {
        v.push(s[i] as u64);
        proof {
            assert(enc_bytes(s@.take(i + 1)) =~= enc_bytes(s@.take(i as int)).push(
                s@[i as int] as u64,
            ));
            assert(v@ =~= orig + enc_bytes(s@.take(i + 1)));
        }
        i = i + 1;
    }
    proof {
        assert(s@.take(s@.len() as int) =~= s@);
    }
}

fn push_str(v: &mut Vec<u64>, s: &str)
    ensures
        final(v)@ == old(v)@ + enc_str(s@),
{
    push_bytes(v, s.as_bytes());
}

fn push_file_type(v: &mut Vec<u64>, f: &FileType)
    ensures
        final(v)@ == old(v)@ + enc_file_type(f@),
{
    let ghost orig = v@;
    match f {
        FileType::Image { thumbnail } => {
            v.push(1u64);
            push_bytes(v, thumbnail.as_slice());
            proof {
                assert(v@ =~= orig + enc_file_type(f@));
            }
        },
        FileType::Video { thumbnail } => {
            v.push(2u64);
            push_bytes(v, thumbnail.as_slice());
            proof {
                assert(v@ =~= orig + enc_file_type(f@));
            }
        },
        FileType::Other => {
            v.push(3u64);
            proof {
                assert(v@ =~= orig + enc_file_type(f@));
            }
        },
    }
}

fn push_payload(v: &mut Vec<u64>, p: &Payload)
    ensures
        final(v)@ == old(v)@ + enc_payload(p@),
{
    let ghost orig = v@;
    match p {
        Payload::Text { payload } => {
            v.push(1u64);
            push_str(v, payload.as_str());
            proof {
                assert(v@ =~= orig + enc_payload(p@));
            }
        },
        Payload::File { metadata, file_type } => {
            v.push(2u64);
            push_str(v, metadata.file_name.as_str());
            v.push(metadata.file_size as u64);
            push_file_type(v, &metadata.file_type);
            push_str(v, metadata.file_hash.as_str());
            push_file_type(v, file_type);
            proof {
                assert(v@ =~= orig + enc_payload(p@));
            }
        },
    }
}

/// The content hash of a message: the record's identity in the log, a pure
/// function of the message's own fields.
pub fn content_hash(m: &P2PMessage) -> (r: ContentHash)
    ensures
        r.raw == spec_message_hash(m@),
{
    let mut v: Vec<u64> = Vec::new();
    v.push(m.author.raw);
    v.push(m.receiver.raw);
    push_payload(&mut v, &m.payload);
    v.push(m.time_sent.secs as u64);
    v.push(m.time_sent.nanos as u64);
    match &m.reply_to {
        Option::None => v.push(0u64),
        Option::Some(h) => {
            v.push(1u64);
            v.push(h.raw);
        },
    }
    proof {
        assert(v@ =~= enc_message(m@));
    }
    let h = fnv_fold(FNV_OFFSET, &v);
    ContentHash { raw: h }
}

/// The content hash of a receipt entry: the receipt's own identity, used to
/// key receipt tables; it differs from the message id the receipt carries.
pub fn receipt_hash(r: &P2PMessageReceipt) -> (h: ContentHash)
    ensures
        h.raw == spec_receipt_hash(*r),
{
    let mut v: Vec<u64> = Vec::new();
    v.push(r.id.raw);
    match r.status {
        Status::Sent => v.push(0u64),
        Status::Delivered { timestamp } => {
            v.push(1u64);
            v.push(timestamp.secs as u64);
            v.push(timestamp.nanos as u64);
        },
        Status::Read { timestamp } => {
            v.push(2u64);
            v.push(timestamp.secs as u64);
            v.push(timestamp.nanos as u64);
        },
    }
    proof {
        assert(v@ =~= enc_receipt(*r));
    }
    let h = fnv_fold(FNV_OFFSET, &v);
    ContentHash { raw: h }
}

} // verus!
