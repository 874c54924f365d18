use base64::Engine;
use bytes::Bytes;
use doh_cli::wire::{DEFAULT_QUERY_ID, MAX_NAME_BYTES};
use doh_cli::{
    bytes_to_base64_encode, encode_query, encode_query_with_id, DNSClass, DNSType, EncodeError,
};

const DEFAULT_DOMAIN_NAME: &str = "example.com";

fn labels_of(msg: &[u8]) -> (Vec<Vec<u8>>, usize) {
    let mut out = Vec::new();
    let mut at = 12;
    while msg[at] != 0 {
        let len = msg[at] as usize;
        out.push(msg[at + 1..at + 1 + len].to_vec());
        at += 1 + len;
    }
    (out, at)
}

#[test]
fn test_encode_query() {
    let b = encode_query("baidu.com", DNSType::A, DNSClass::IN);
    assert!(b.is_ok());
    assert_eq!(
        "CAkBEAABAAAAAAAABWJhaWR1A2NvbQAAAQAB",
        bytes_to_base64_encode(&b.unwrap())
    );

    let b = encode_query(DEFAULT_DOMAIN_NAME, DNSType::AAAA, DNSClass::IN);
    assert!(b.is_ok());
    assert_eq!(
        "CAkBEAABAAAAAAAAB2V4YW1wbGUDY29tAAAcAAE",
        bytes_to_base64_encode(&b.unwrap())
    );

    let b = encode_query(DEFAULT_DOMAIN_NAME, DNSType::A, DNSClass::IN);
    assert!(b.is_ok());
    assert_eq!(
        "CAkBEAABAAAAAAAAB2V4YW1wbGUDY29tAAABAAE",
        bytes_to_base64_encode(&b.unwrap())
    );

    // invalid domain name
    let b = encode_query("baidu", DNSType::A, DNSClass::IN);
    assert!(b.is_err());
}

#[test]
fn exact_bytes_of_a_query() {
    let msg = encode_query("baidu.com", DNSType::A, DNSClass::IN).unwrap();
    let expected: Vec<u8> = vec![
        0x08, 0x09, 0x01, 0x10, 0, 1, 0, 0, 0, 0, 0, 0, 5, b'b', b'a', b'i', b'd', b'u', 3, b'c',
        b'o', b'm', 0, 0, 1, 0, 1,
    ];
    assert_eq!(&msg[..], &expected[..]);
}

#[test]
fn message_is_eighteen_bytes_longer_than_the_name() {
    for name in ["a.b", "example.com", "www.example.co.uk"] {
        let msg = encode_query(name, DNSType::NS, DNSClass::IN).unwrap();
        assert_eq!(msg.len(), name.len() + 18);
    }
}

#[test]
fn every_type_has_its_code() {
    let cases = [
        (DNSType::A, 1u16),
        (DNSType::NS, 2),
        (DNSType::CNAME, 5),
        (DNSType::SOA, 6),
        (DNSType::PTR, 12),
        (DNSType::AAAA, 28),
    ];
    for (t, code) in cases {
        assert_eq!(t.code(), code);
        let msg = encode_query("a.bc", t, DNSClass::IN).unwrap();
        let n = msg.len();
        assert_eq!(&msg[n - 4..], &[0, code as u8, 0, 1][..]);
    }
    assert_eq!(DNSClass::IN.code(), 1);
}

#[test]
fn default_identifier_leads_the_header() {
    assert_eq!(DEFAULT_QUERY_ID, 0x0809);
    let msg = encode_query("a.b", DNSType::A, DNSClass::IN).unwrap();
    assert_eq!(&msg[..12], &[0x08, 0x09, 0x01, 0x10, 0, 1, 0, 0, 0, 0, 0, 0][..]);
}

#[test]
fn chosen_identifier_is_written_high_byte_first() {
    let msg = encode_query_with_id(0xBEEF, "a.b", DNSType::A, DNSClass::IN).unwrap();
    assert_eq!(&msg[..2], &[0xBE, 0xEF][..]);
    let same = encode_query("a.b", DNSType::A, DNSClass::IN).unwrap();
    assert_eq!(&msg[2..], &same[2..]);
}

#[test]
fn encoding_is_repeatable() {
    let first = encode_query("example.com", DNSType::A, DNSClass::IN).unwrap();
    let second = encode_query("example.com", DNSType::A, DNSClass::IN).unwrap();
    assert_eq!(first, second);
}

#[test]
fn labels_read_back_as_written() {
    for name in ["example.com", "WWW.Example.COM", "a.b.c.d.e", "x-1.y_2.z"] {
        let msg = encode_query(name, DNSType::A, DNSClass::IN).unwrap();
        let (labels, end) = labels_of(&msg);
        let written: Vec<Vec<u8>> = name.split('.').map(|l| l.as_bytes().to_vec()).collect();
        assert_eq!(labels, written);
        assert_eq!(end + 5, msg.len());
    }
}

#[test]
fn labels_of_a_name_beyond_ascii_are_its_utf8_bytes() {
    let msg = encode_query("b\u{fc}cher.de", DNSType::A, DNSClass::IN).unwrap();
    let (labels, _) = labels_of(&msg);
    assert_eq!(labels, vec!["b\u{fc}cher".as_bytes().to_vec(), b"de".to_vec()]);
    assert_eq!(msg[12], 7);
}

#[test]
fn names_without_two_labels_are_refused() {
    for name in ["baidu", "", "localhost"] {
        match encode_query(name, DNSType::A, DNSClass::IN) {
            Err(EncodeError::InvalidDomainName(given)) => assert_eq!(given, name),
            Ok(_) => panic!("accepted"),
        }
    }
}

#[test]
fn empty_labels_are_refused() {
    for name in [".", "a.", ".a", "a..b", "example.com."] {
        assert!(encode_query(name, DNSType::A, DNSClass::IN).is_err());
    }
}

#[test]
fn label_length_must_fit_one_byte() {
    let longest = format!("{}.com", "a".repeat(255));
    let msg = encode_query(&longest, DNSType::A, DNSClass::IN).unwrap();
    assert_eq!(msg[12], 255);
    let (labels, _) = labels_of(&msg);
    assert_eq!(labels[0].len(), 255);

    let too_long = format!("{}.com", "a".repeat(256));
    assert!(encode_query(&too_long, DNSType::A, DNSClass::IN).is_err());
    let too_long_last = format!("com.{}", "a".repeat(256));
    assert!(encode_query(&too_long_last, DNSType::A, DNSClass::IN).is_err());
}

#[test]
fn error_names_the_input() {
    let e = encode_query("baidu", DNSType::A, DNSClass::IN).unwrap_err();
    assert_eq!(e.message(), "invalid domain name: `baidu`");
}

#[test]
fn base64_text_uses_the_url_safe_alphabet_without_padding() {
    assert_eq!(bytes_to_base64_encode(&Bytes::from(vec![0xfb, 0xff])), "-_8");
    assert_eq!(bytes_to_base64_encode(&Bytes::from(vec![0u8])), "AA");
    assert_eq!(bytes_to_base64_encode(&Bytes::new()), "");
    let text = bytes_to_base64_encode(&Bytes::from_static(b"hello"));
    let back = base64::engine::general_purpose::URL_SAFE_NO_PAD.decode(text).unwrap();
    assert_eq!(back, b"hello");
}

#[test]
fn name_limit_leaves_room_for_the_message() {
    assert_eq!(MAX_NAME_BYTES, usize::MAX / 4 - 18);
}
