//! The mathematical model of a DNS query message.
//!
//! A domain name is a sequence of bytes; its labels are the runs between
//! dots. A query message is a fixed header, the labels each behind a length
//! byte, a zero byte, and the type and class codes.

use crate::buffer::{be16, MAX_MESSAGE_BYTES};
use vstd::prelude::*;

verus! {

/// The byte that separates labels in a written domain name: `.`.
pub const DOT: u8 = 0x2e;

/// The identifier that [`crate::encode_query`] gives every query.
pub const DEFAULT_QUERY_ID: u16 = 0x0809;

/// Length of the message header in bytes.
pub const HEADER_BYTES: usize = 12;

/// Bytes of a message beyond those of the written name: the header, one
/// length byte more than there are dots, the terminator, type and class.
pub const OVERHEAD_BYTES: usize = 18;

/// The longest written name that is encoded: its message then stays within
/// [`MAX_MESSAGE_BYTES`].
pub const MAX_NAME_BYTES: usize = MAX_MESSAGE_BYTES - OVERHEAD_BYTES;

/// The labels of a written name: the runs of bytes between its dots, in
/// order. A name without a dot is one label; the empty name is one empty
/// label; a dot at either end leaves an empty label there.
pub open spec fn split_labels(name: Seq<u8>) -> Seq<Seq<u8>>
    decreases name.len(),
{
    if name.len() == 0 {
        seq![Seq::<u8>::empty()]
    } else {
        let before = split_labels(name.drop_last());
        if name.last() == DOT {
            before.push(Seq::<u8>::empty())
        } else {
            before.drop_last().push(before.last().push(name.last()))
        }
    }
}

/// The labels written out again with a dot between neighbours.
pub open spec fn join_labels(labels: Seq<Seq<u8>>) -> Seq<u8>
    decreases labels.len(),
{
    if labels.len() == 0 {
        Seq::<u8>::empty()
    } else if labels.len() == 1 {
        labels[0]
    } else {
        join_labels(labels.drop_last()).push(DOT) + labels.last()
    }
}

/// A label that can be encoded: not empty, and its length fits in one byte.
pub open spec fn label_ok(label: Seq<u8>) -> bool {
    1 <= label.len() <= 255
}

/// At least two labels, each of them encodable.
pub open spec fn valid_labels(labels: Seq<Seq<u8>>) -> bool {
    &&& labels.len() >= 2
    &&& forall|i: int| 0 <= i < labels.len() ==> label_ok(#[trigger] labels[i])
}

/// The written names that are accepted.
pub open spec fn valid_domain(name: Seq<u8>) -> bool {
    valid_labels(split_labels(name))
}

/// Each label behind its length byte, in order.
pub open spec fn encode_labels(labels: Seq<Seq<u8>>) -> Seq<u8>
    decreases labels.len(),
{
    if labels.len() == 0 {
        Seq::<u8>::empty()
    } else {
        encode_labels(labels.drop_last()).push(labels.last().len() as u8) + labels.last()
    }
}

/// The labels read back from encoded bytes: a length byte, that many bytes,
/// and so on up to a zero length byte or the end of the input.
pub open spec fn decode_labels(wire: Seq<u8>) -> Seq<Seq<u8>>
    decreases wire.len(),
{
    if wire.len() == 0 || wire[0] == 0 || wire.len() < 1 + wire[0] as int {
        Seq::<Seq<u8>>::empty()
    } else {
        seq![wire.subrange(1, 1 + wire[0] as int)] + decode_labels(wire.skip(1 + wire[0] as int))
    }
}

/// The twelve header bytes of a query: the identifier, the flags with
/// recursion desired and checking disabled set, one question, and no other
/// records.
pub open spec fn header(id: u16) -> Seq<u8> {
    be16(id) + seq![0x01u8, 0x10u8, 0u8, 1u8, 0u8, 0u8, 0u8, 0u8, 0u8, 0u8]
}

/// The whole query message for a written name and the codes of its type and
/// class.
pub open spec fn query_message(id: u16, name: Seq<u8>, qtype: u16, qclass: u16) -> Seq<u8> {
    header(id) + encode_labels(split_labels(name)).push(0u8) + be16(qtype) + be16(qclass)
}

} // verus!
