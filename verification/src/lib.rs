//! DNS queries in wire format, and their two DNS-over-HTTPS request forms.
//!
//! [`encode_query`] turns a domain name, a record type and a record class into
//! the bytes of a DNS message; [`build_request`] describes the HTTP request
//! that carries such a message. Nothing here touches the network: sending a
//! [`QueryRequest`] is the caller's part.

pub mod buffer;
pub mod encoder;
pub mod laws;
pub mod request;
pub mod wire;

pub use encoder::{encode_query, encode_query_with_id, DNSClass, DNSType, EncodeError};
pub use request::{
    build_request, bytes_to_base64_encode, get_args, run, try_build_request, Args, QueryRequest,
    RequestError,
};
