//! The message encoder: from a written domain name, a record type and a
//! record class to the bytes of a DNS query.

use crate::buffer::{
    buffer_freeze, buffer_new, buffer_put_slice, buffer_put_u16, buffer_put_u8, bytes_content,
    bytes_mut_content,
};
use crate::wire::{
    encode_labels, header, label_ok, query_message, split_labels, valid_domain,
    DEFAULT_QUERY_ID, DOT, HEADER_BYTES, MAX_NAME_BYTES,
};
use vstd::prelude::*;
use vstd::slice::slice_subrange;
use vstd::string::{StringExecFns, StringSliceAdditionalSpecFns};
use vstd::utf8::encode_utf8;

verus! {

/// The record types that can be asked for.
#[allow(clippy::upper_case_acronyms)]
#[derive(Clone, Copy, Debug, PartialEq, Eq, Structural)]
pub enum DNSType {
    A,
    AAAA,
    CNAME,
    PTR,
    SOA,
    NS,
}

/// The record classes that can be asked for.
#[derive(Clone, Copy, Debug, PartialEq, Eq, Structural)]
pub enum DNSClass {
    IN,
}

impl DNSType {
    /// The type's number on the wire.
    pub open spec fn code_spec(self) -> u16 {
        match self {
            DNSType::A => 1,
            DNSType::NS => 2,
            DNSType::CNAME => 5,
            DNSType::SOA => 6,
            DNSType::PTR => 12,
            DNSType::AAAA => 28,
        }
    }

    /// The type's number on the wire.
    pub fn code(self) -> (n: u16)
        ensures
            n == self.code_spec(),
    {
        match self {
            DNSType::A => 1,
            DNSType::NS => 2,
            DNSType::CNAME => 5,
            DNSType::SOA => 6,
            DNSType::PTR => 12,
            DNSType::AAAA => 28,
        }
    }
}

impl DNSClass {
    /// The class's number on the wire.
    pub open spec fn code_spec(self) -> u16 {
        match self {
            DNSClass::IN => 1,
        }
    }

    /// The class's number on the wire.
    pub fn code(self) -> (n: u16)
        ensures
            n == self.code_spec(),
    {
        match self {
            DNSClass::IN => 1,
        }
    }
}

/// Why a query could not be encoded.
#[derive(Debug)]
pub enum EncodeError {
    /// The name has fewer than two labels, an empty label, or a label of
    /// more than 255 bytes. Carries the name as it was given.
    InvalidDomainName(String),
}

impl EncodeError {
    /// The error in words, with the offending name between backticks.
    pub fn message(&self) -> (text: String)
        ensures
            self matches EncodeError::InvalidDomainName(name) && text@ == "invalid domain name: `"@
                + name@ + "`"@,
    {
        match self {
            EncodeError::InvalidDomainName(name) => {
                String::from_str("invalid domain name: `").concat(name.as_str()).concat("`")
            },
        }
    }
}

/// What encoding yields, as plain values: for a name that [`valid_domain`]
/// accepts, the bytes of its [`query_message`]; for any other name, the
/// name itself, refused.
pub open spec fn encoding(id: u16, name: Seq<char>, t: DNSType, c: DNSClass) -> Result<
    Seq<u8>,
    Seq<char>,
> {
    if valid_domain(encode_utf8(name)) {
        Ok(query_message(id, encode_utf8(name), t.code_spec(), c.code_spec()))
    } else {
        Err(name)
    }
}

/// A result of the encoder as plain values: the bytes of the message, or
/// the name that the error carries.
pub open spec fn outcome(r: Result<bytes::Bytes, EncodeError>) -> Result<Seq<u8>, Seq<char>> {
    match r {
        Ok(msg) => Ok(bytes_content(msg)),
        Err(EncodeError::InvalidDomainName(name)) => Err(name@),
    }
}

/// Encodes a query under the identifier [`DEFAULT_QUERY_ID`].
///
/// Succeeds exactly on the names that [`valid_domain`] accepts, and then
/// returns the bytes of [`query_message`]; every other name comes back inside
/// [`EncodeError::InvalidDomainName`].
///
/// The name's length in bytes, `fqdn.as_bytes().len()`, must leave room for
/// the message in memory.
pub fn encode_query(fqdn: &str, t: DNSType, c: DNSClass) -> (r: Result<bytes::Bytes, EncodeError>)
    requires
        fqdn.spec_bytes().len() <= MAX_NAME_BYTES,
    ensures
        outcome(r) == encoding(DEFAULT_QUERY_ID, fqdn@, t, c),
{
    encode_query_with_id(DEFAULT_QUERY_ID, fqdn, t, c)
}

/// Encodes a query under an identifier of the caller's choice.
///
/// The name is split at its dots. With two or more labels, each of 1 to 255
/// bytes, the result is the header, each label behind its length byte, a
/// zero byte, and the type and class codes, high byte first. Any other name
/// is refused and handed back in the error.
///
/// The buffer is filled while the name is read: a label is written as soon
/// as the dot behind it is met, and the buffer is dropped where a label
/// turns out empty or too long.
pub fn encode_query_with_id(id: u16, fqdn: &str, t: DNSType, c: DNSClass) -> (r: Result<
    bytes::Bytes,
    EncodeError,
>)
    requires
        fqdn.spec_bytes().len() <= MAX_NAME_BYTES,
    ensures
        outcome(r) == encoding(id, fqdn@, t, c),
{
    let name = fqdn.as_bytes();
    let n: usize = name.len();
    let mut buf = buffer_new();
    buffer_put_u16(&mut buf, id);
    buffer_put_u8(&mut buf, 0x01);
    buffer_put_u8(&mut buf, 0x10);
    buffer_put_u16(&mut buf, 1);
    buffer_put_u16(&mut buf, 0);
    buffer_put_u16(&mut buf, 0);
    buffer_put_u16(&mut buf, 0);
    assert(bytes_mut_content(buf) =~= header(id));

    let mut start: usize = 0;
    let mut dots: usize = 0;
    let mut ok = true;
    let mut i: usize = 0;
    while i < n
        invariant
            n == name@.len(),
            n <= MAX_NAME_BYTES,
            start <= i <= n,
            dots <= i,
            split_labels(name@.subrange(0, i as int)).len() == dots + 1,
            split_labels(name@.subrange(0, i as int)).last() == name@.subrange(
                start as int,
                i as int,
            ),
            ok <==> forall|j: int|
                0 <= j < dots ==> label_ok(#[trigger] split_labels(name@.subrange(0, i as int))[j]),
            ok ==> bytes_mut_content(buf) == header(id) + encode_labels(
                split_labels(name@.subrange(0, i as int)).drop_last(),
            ),
            bytes_mut_content(buf).len() <= HEADER_BYTES + start,
        decreases n - i,
    {
        let ghost before = split_labels(name@.subrange(0, i as int));
        let ghost after = split_labels(name@.subrange(0, i + 1));
        proof {
            assert(name@.subrange(0, i + 1).drop_last() =~= name@.subrange(0, i as int));
        }
        if name[i] == DOT {
            let len: usize = i - start;
            proof {
                assert(after.drop_last() =~= before);
                assert(name@.subrange(i + 1, i + 1) =~= Seq::<u8>::empty());
            }
            if ok && 1 <= len && len <= 255 {
                buffer_put_u8(&mut buf, len as u8);
                buffer_put_slice(&mut buf, slice_subrange(name, start, i));
                assert(bytes_mut_content(buf) =~= header(id) + encode_labels(after.drop_last()));
            } else {
                ok = false;
            }
            dots = dots + 1;
            start = i + 1;
        } else {
            proof {
                assert(after.drop_last() =~= before.drop_last());
                assert(name@.subrange(start as int, i + 1) =~= name@.subrange(
                    start as int,
                    i as int,
                ).push(name@[i as int]));
                assert(forall|j: int| 0 <= j < dots ==> after[j] == before[j]);
            }
        }
        i = i + 1;
    }
    let last_len: usize = n - start;
    let ghost labels = split_labels(name@);
    proof {
        assert(name@.subrange(0, n as int) =~= name@);
    }
    if ok && dots >= 1 && 1 <= last_len && last_len <= 255 {
        buffer_put_u8(&mut buf, last_len as u8);
        buffer_put_slice(&mut buf, slice_subrange(name, start, n));
        assert(bytes_mut_content(buf) =~= header(id) + encode_labels(labels));
        buffer_put_u8(&mut buf, 0);
        buffer_put_u16(&mut buf, t.code());
        buffer_put_u16(&mut buf, c.code());
        Ok(buffer_freeze(buf))
    } else {
        Err(EncodeError::InvalidDomainName(fqdn.to_owned()))
    }
}

} // verus!
