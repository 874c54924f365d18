//! What holds of the model for every name: how a name and its labels
//! determine each other, and that a reader of the encoded name gets the
//! labels back.

use crate::buffer::be16;
use crate::wire::{
    decode_labels, encode_labels, header, join_labels, label_ok, query_message, split_labels,
    valid_domain, DOT, HEADER_BYTES, OVERHEAD_BYTES,
};
use crate::encoder::{encoding, outcome, DNSClass, DNSType, EncodeError};
use vstd::prelude::*;
use vstd::utf8::encode_utf8;

verus! {

/// Splitting loses nothing: a name has at least one label, and its labels
/// joined by dots are the name again.
pub proof fn lemma_split_join(name: Seq<u8>)
    ensures
        split_labels(name).len() >= 1,
        join_labels(split_labels(name)) == name,
    decreases name.len(),
{
    if name.len() > 0 {
        let shorter = name.drop_last();
        lemma_split_join(shorter);
        let before = split_labels(shorter);
        assert(shorter.push(name.last()) =~= name);
        if name.last() == DOT {
            let after = before.push(Seq::<u8>::empty());
            assert(after.drop_last() =~= before);
            assert(join_labels(after) =~= shorter.push(DOT));
        } else {
            let after = before.drop_last().push(before.last().push(name.last()));
            assert(after.drop_last() =~= before.drop_last());
            assert(join_labels(after) =~= join_labels(before).push(name.last()));
        }
    }
}

/// No label holds a dot.
pub proof fn lemma_labels_hold_no_dot(name: Seq<u8>)
    ensures
        forall|i: int, j: int|
            0 <= i < split_labels(name).len() && 0 <= j < split_labels(name)[i].len()
                ==> split_labels(name)[i][j] != DOT,
    decreases name.len(),
{
    if name.len() > 0 {
        lemma_labels_hold_no_dot(name.drop_last());
        lemma_split_join(name.drop_last());
    }
}

/// A name without a dot is a single label, so it is never valid.
pub proof fn lemma_no_dot_one_label(name: Seq<u8>)
    requires
        forall|i: int| 0 <= i < name.len() ==> name[i] != DOT,
    ensures
        split_labels(name) == seq![name],
        !valid_domain(name),
    decreases name.len(),
{
    if name.len() == 0 {
        assert(name =~= Seq::<u8>::empty());
    } else {
        lemma_no_dot_one_label(name.drop_last());
        let before = seq![name.drop_last()];
        let grown = before.drop_last().push(before.last().push(name.last()));
        assert(name.drop_last().push(name.last()) =~= name);
        assert(grown.len() == 1 && grown[0] == name);
        assert(grown =~= seq![name]);
    }
}

/// The encoded labels of a name take one byte more than the name.
pub proof fn lemma_encoded_len(name: Seq<u8>)
    ensures
        split_labels(name).len() >= 1,
        encode_labels(split_labels(name)).len() == name.len() + 1,
    decreases name.len(),
{
    if name.len() == 0 {
        let one = seq![Seq::<u8>::empty()];
        assert(one.drop_last() =~= Seq::<Seq<u8>>::empty());
        assert(encode_labels(one.drop_last()).len() == 0);
    } else {
        lemma_encoded_len(name.drop_last());
        let before = split_labels(name.drop_last());
        if name.last() == DOT {
            assert(before.push(Seq::<u8>::empty()).drop_last() =~= before);
        } else {
            let grown = before.drop_last().push(before.last().push(name.last()));
            assert(grown.drop_last() =~= before.drop_last());
        }
    }
}

/// Every message is 18 bytes longer than the written name: each dot gives
/// way to a length byte, and the header, the first length byte, the
/// terminator, type and class come on top.
pub proof fn lemma_message_len(id: u16, name: Seq<u8>, qtype: u16, qclass: u16)
    ensures
        query_message(id, name, qtype, qclass).len() == name.len() + OVERHEAD_BYTES,
{
    lemma_encoded_len(name);
}

/// Encoded labels begin with the first label behind its length byte; the
/// other labels follow.
pub proof fn lemma_encode_first(labels: Seq<Seq<u8>>)
    requires
        labels.len() > 0,
    ensures
        encode_labels(labels) == seq![labels[0].len() as u8] + labels[0] + encode_labels(
            labels.skip(1),
        ),
    decreases labels.len(),
{
    let rest = labels.skip(1);
    if labels.len() == 1 {
        assert(labels.drop_last() =~= Seq::<Seq<u8>>::empty());
        assert(encode_labels(labels.drop_last()) =~= Seq::<u8>::empty());
        assert(encode_labels(rest) =~= Seq::<u8>::empty());
        assert(encode_labels(labels) =~= seq![labels[0].len() as u8] + labels[0]
            + encode_labels(rest));
    } else {
        lemma_encode_first(labels.drop_last());
        assert(rest.drop_last() =~= labels.drop_last().skip(1));
        assert(rest.last() == labels.last());
        assert(labels.drop_last()[0] == labels[0]);
        assert(encode_labels(labels) =~= seq![labels[0].len() as u8] + labels[0]
            + encode_labels(rest));
    }
}

/// Reading encoded labels back gives the labels, whatever follows the zero
/// byte that ends them, provided that each label has 1 to 255 bytes.
pub proof fn lemma_decode_encode(labels: Seq<Seq<u8>>, rest: Seq<u8>)
    requires
        forall|i: int| 0 <= i < labels.len() ==> label_ok(#[trigger] labels[i]),
    ensures
        decode_labels(encode_labels(labels).push(0u8) + rest) == labels,
    decreases labels.len(),
{
    let wire = encode_labels(labels).push(0u8) + rest;
    if labels.len() == 0 {
        assert(wire[0] == 0);
        assert(labels =~= Seq::<Seq<u8>>::empty());
    } else {
        let first = labels[0];
        let others = labels.skip(1);
        lemma_encode_first(labels);
        assert(label_ok(first));
        assert forall|i: int| 0 <= i < others.len() implies label_ok(#[trigger] others[i]) by {
            assert(others[i] == labels[i + 1]);
        }
        lemma_decode_encode(others, rest);
        let k = first.len() as int;
        assert(wire =~= seq![first.len() as u8] + first + (encode_labels(others).push(0u8)
            + rest));
        assert(wire[0] as int == k);
        assert(wire.subrange(1, 1 + k) =~= first);
        assert(wire.skip(1 + k) =~= encode_labels(others).push(0u8) + rest);
        assert(seq![first] + others =~= labels);
    }
}

/// The labels of a valid name can be read back from its query message:
/// what follows the header decodes to the name's labels, byte for byte.
pub proof fn lemma_qname_round_trip(id: u16, name: Seq<u8>, qtype: u16, qclass: u16)
    requires
        valid_domain(name),
    ensures
        decode_labels(query_message(id, name, qtype, qclass).skip(HEADER_BYTES as int))
            == split_labels(name),
        join_labels(
            decode_labels(query_message(id, name, qtype, qclass).skip(HEADER_BYTES as int)),
        ) == name,
{
    let labels = split_labels(name);
    let tail = be16(qtype) + be16(qclass);
    lemma_decode_encode(labels, tail);
    lemma_split_join(name);
    assert(header(id).len() == 12);
    assert(query_message(id, name, qtype, qclass).skip(HEADER_BYTES as int) =~= encode_labels(
        labels,
    ).push(0u8) + tail);
}

/// Encoding is a function of its inputs: two results of the encoder for the
/// same identifier, name, type and class agree, in the bytes of the message
/// or in the name refused.
pub proof fn lemma_encoding_repeatable(
    id: u16,
    name: Seq<char>,
    t: DNSType,
    c: DNSClass,
    first: Result<bytes::Bytes, EncodeError>,
    second: Result<bytes::Bytes, EncodeError>,
)
    requires
        outcome(first) == encoding(id, name, t, c),
        outcome(second) == encoding(id, name, t, c),
    ensures
        outcome(first) == outcome(second),
        first is Ok <==> second is Ok,
        first is Ok <==> valid_domain(encode_utf8(name)),
{
}

} // verus!
