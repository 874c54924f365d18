//! The query dispatcher's pure half: the options of one run, and the HTTP
//! request that carries an encoded query. Sending is left to the caller.

use crate::buffer::{buffer_len, bytes_content, MAX_MESSAGE_BYTES};
use crate::encoder::{encode_query, DNSClass, DNSType, EncodeError};
use crate::laws::lemma_message_len;
use crate::wire::{query_message, valid_domain, DEFAULT_QUERY_ID, MAX_NAME_BYTES};
use base64::Engine;
use vstd::prelude::*;
use vstd::string::StringExecFns;
use vstd::utf8::encode_utf8;

verus! {

/// The name that is asked for where none is given.
pub const DEFAULT_DOMAIN_NAME: &'static str = "example.com";

/// The endpoint that is asked where none is given.
pub const DEFAULT_QUERY_URL: &'static str = "https://localhost:8443/dns-query";

/// The content type of every request, whichever its method.
pub const CONTENT_TYPE: &'static str = "application/dns-message";

/// The options of one run.
#[derive(Debug)]
pub struct Args {
    /// Send the query with GET; otherwise with POST.
    pub get: bool,
    /// The domain name to ask for.
    pub domain_name: String,
    /// The record type to ask for.
    pub domain_type: DNSType,
    /// The record class to ask for.
    pub domain_class: DNSClass,
    /// Print the body of the response.
    pub show_resp_body: bool,
    /// Print the headers of the response.
    pub show_resp_header: bool,
    /// The DNS-over-HTTPS endpoint.
    pub url: String,
}

/// An HTTP request, described and not yet sent. Either form goes out with
/// the header `Content-Type:` [`CONTENT_TYPE`].
#[derive(Debug)]
pub enum QueryRequest {
    /// A GET request to `url`, which already carries the message.
    Get { url: String },
    /// A POST request to `url` with the message as its body.
    Post { url: String, body: bytes::Bytes },
}

/// Why no request could be described.
#[derive(Debug)]
pub enum RequestError {
    /// The name was refused by the encoder. Carries the name.
    InvalidDomainName(String),
    /// The address of the request is no absolute URL. Carries the address.
    InvalidUrl(String),
}

/// The unpadded base64 text of a byte sequence in the URL-safe alphabet, as
/// the `base64` crate writes it.
pub uninterp spec fn base64url_text(data: Seq<u8>) -> Seq<char>;

/// Whether the `url` crate, through which `reqwest` reads addresses, parses
/// the text as an absolute URL.
pub uninterp spec fn url_parses(text: Seq<char>) -> bool;

/// The address of a GET request: the endpoint, `?dns=`, and the message's
/// text form.
pub open spec fn get_url(endpoint: Seq<char>, dns_text: Seq<char>) -> Seq<char> {
    endpoint + seq!['?', 'd', 'n', 's', '='] + dns_text
}

/// The address that a request for `msg` goes to.
pub open spec fn request_url(get: bool, endpoint: Seq<char>, msg: Seq<u8>) -> Seq<char> {
    if get {
        get_url(endpoint, base64url_text(msg))
    } else {
        endpoint
    }
}

/// Whether `req` is the request that carries `msg` to `endpoint` by the
/// chosen method.
pub open spec fn carries(req: QueryRequest, get: bool, endpoint: Seq<char>, msg: Seq<u8>) -> bool {
    if get {
        req matches QueryRequest::Get { url } && url@ == get_url(endpoint, base64url_text(msg))
    } else {
        req matches QueryRequest::Post { url, body } && url@ == endpoint && bytes_content(body)
            == msg
    }
}

/// The body of a POST request; a GET request has none.
pub open spec fn post_body(req: QueryRequest) -> Option<bytes::Bytes> {
    match req {
        QueryRequest::Get { .. } => None,
        QueryRequest::Post { body, .. } => Some(body),
    }
}

impl QueryRequest {
    /// The address that the request goes to.
    pub open spec fn url_spec(self) -> Seq<char> {
        match self {
            QueryRequest::Get { url } => url@,
            QueryRequest::Post { url, .. } => url@,
        }
    }

    /// The address that the request goes to.
    pub fn url(&self) -> (text: &str)
        ensures
            text@ == self.url_spec(),
    {
        match self {
            QueryRequest::Get { url } => url.as_str(),
            QueryRequest::Post { url, .. } => url.as_str(),
        }
    }

    /// The value of the request's `Content-Type` header.
    pub fn content_type(&self) -> (value: &'static str)
        ensures
            value@ == CONTENT_TYPE@,
    {
        CONTENT_TYPE
    }
}

impl RequestError {
    /// The error in words, with the offending input between backticks.
    pub fn message(&self) -> (text: String)
        ensures
            text@ == (match *self {
                RequestError::InvalidDomainName(name) => "invalid domain name: `"@ + name@ + "`"@,
                RequestError::InvalidUrl(url) => "invalid url: `"@ + url@ + "`"@,
            }),
    {
        match self {
            RequestError::InvalidDomainName(name) => {
                String::from_str("invalid domain name: `").concat(name.as_str()).concat("`")
            },
            RequestError::InvalidUrl(url) => {
                String::from_str("invalid url: `").concat(url.as_str()).concat("`")
            },
        }
    }
}

/// `Engine::encode` of `base64`, on the engine `URL_SAFE_NO_PAD`: the text
/// depends on the bytes alone. The call panics where the text's length,
/// four thirds of the input's, overflows or passes `isize::MAX`, which the
/// precondition excludes.
#[verifier::external_body]
fn base64_encode(bytes: &bytes::Bytes) -> (text: String)
    requires
        bytes_content(*bytes).len() <= MAX_MESSAGE_BYTES,
    ensures
        text@ == base64url_text(bytes_content(*bytes)),
{
    base64::engine::general_purpose::URL_SAFE_NO_PAD.encode(bytes)
}

/// `Url::parse` of `url`, under the name that `reqwest` gives it: whether
/// the text parses as an absolute URL depends on the text alone. The parsed
/// value is dropped.
#[verifier::external_body]
fn url_is_parsed(text: &str) -> (ok: bool)
    ensures
        ok == url_parses(text@),
{
    reqwest::Url::parse(text).is_ok()
}

/// The message as unpadded base64 text in the URL-safe alphabet.
pub fn bytes_to_base64_encode(b: &bytes::Bytes) -> (text: String)
    requires
        bytes_content(*b).len() <= MAX_MESSAGE_BYTES,
    ensures
        text@ == base64url_text(bytes_content(*b)),
{
    base64_encode(b)
}

/// The GET request that carries a message, given in its text form, to an
/// endpoint: the address is the endpoint, `?dns=`, and the text.
pub fn get_request(endpoint: &str, dns_text: &str) -> (req: QueryRequest)
    ensures
        req is Get,
        req.url_spec() == get_url(endpoint@, dns_text@),
{
    proof {
        reveal_strlit("?dns=");
        assert("?dns="@ =~= seq!['?', 'd', 'n', 's', '=']);
    }
    let url = String::from_str(endpoint).concat("?dns=").concat(dns_text);
    QueryRequest::Get { url }
}

/// The POST request that carries a message to an endpoint: the address is
/// the endpoint, the body is the message, untouched.
pub fn post_request(endpoint: &str, dns_msg: bytes::Bytes) -> (req: QueryRequest)
    ensures
        req.url_spec() == endpoint@,
        post_body(req) == Some(dns_msg),
{
    QueryRequest::Post { url: String::from_str(endpoint), body: dns_msg }
}

/// Lets a described request pass where its address was found to parse, and
/// turns it into [`RequestError::InvalidUrl`] with that address where not.
pub fn checked_request(req: QueryRequest, url_ok: bool) -> (r: Result<QueryRequest, RequestError>)
    ensures
        url_ok ==> r == Ok::<QueryRequest, RequestError>(req),
        !url_ok ==> (r matches Err(RequestError::InvalidUrl(url)) && url@ == req.url_spec()),
{
    if url_ok {
        Ok(req)
    } else {
        let url = String::from_str(req.url());
        Err(RequestError::InvalidUrl(url))
    }
}

/// The options of a run from what the command line gave: each option that
/// was left out takes its default.
pub fn get_args(
    get: bool,
    domain_name: Option<String>,
    domain_type: Option<DNSType>,
    domain_class: Option<DNSClass>,
    show_resp_body: bool,
    show_resp_header: Option<bool>,
    url: Option<String>,
) -> (args: Args)
    ensures
        args.get == get,
        args.domain_name@ == (match domain_name {
            Some(name) => name@,
            None => DEFAULT_DOMAIN_NAME@,
        }),
        args.domain_type == (match domain_type {
            Some(t) => t,
            None => DNSType::A,
        }),
        args.domain_class == (match domain_class {
            Some(c) => c,
            None => DNSClass::IN,
        }),
        args.show_resp_body == show_resp_body,
        args.show_resp_header == (match show_resp_header {
            Some(show) => show,
            None => true,
        }),
        args.url@ == (match url {
            Some(u) => u@,
            None => DEFAULT_QUERY_URL@,
        }),
{
    Args {
        get,
        domain_name: match domain_name {
            Some(name) => name,
            None => String::from_str(DEFAULT_DOMAIN_NAME),
        },
        domain_type: match domain_type {
            Some(t) => t,
            None => DNSType::A,
        },
        domain_class: match domain_class {
            Some(c) => c,
            None => DNSClass::IN,
        },
        show_resp_body,
        show_resp_header: match show_resp_header {
            Some(show) => show,
            None => true,
        },
        url: match url {
            Some(u) => u,
            None => String::from_str(DEFAULT_QUERY_URL),
        },
    }
}

/// Whether a message can be carried by the chosen method on this machine:
/// a POST carries any message; a GET needs room for the message's text
/// form.
pub open spec fn can_carry(get: bool, msg: Seq<u8>) -> bool {
    !get || msg.len() <= MAX_MESSAGE_BYTES
}

/// What [`build_request`] returns for `args` and `dns_msg`: the request
/// that carries the message, exactly where its address parses as an
/// absolute URL; else that address, refused.
pub open spec fn describes(
    r: Result<QueryRequest, RequestError>,
    args: Args,
    dns_msg: bytes::Bytes,
) -> bool {
    let address = request_url(args.get, args.url@, bytes_content(dns_msg));
    match r {
        Ok(req) => {
            &&& url_parses(address)
            &&& carries(req, args.get, args.url@, bytes_content(dns_msg))
            &&& !args.get ==> post_body(req) == Some(dns_msg)
        },
        Err(RequestError::InvalidUrl(url)) => !url_parses(address) && url@ == address,
        Err(RequestError::InvalidDomainName(_)) => false,
    }
}

/// Whether the message is short enough to be written as text.
pub fn fits_as_text(dns_msg: &bytes::Bytes) -> (ok: bool)
    ensures
        ok == (bytes_content(*dns_msg).len() <= MAX_MESSAGE_BYTES),
{
    buffer_len(dns_msg) <= MAX_MESSAGE_BYTES
}

/// Describes the request that carries `dns_msg` to `args.url`.
///
/// With `args.get` the message travels in the address, as the query
/// parameter `dns` in base64 text; otherwise it is the body of a POST,
/// byte for byte. An address that is no absolute URL is refused.
pub fn build_request(args: &Args, dns_msg: bytes::Bytes) -> (r: Result<
    QueryRequest,
    RequestError,
>)
    requires
        can_carry(args.get, bytes_content(dns_msg)),
    ensures
        describes(r, *args, dns_msg),
{
    let req = if args.get {
        let text = bytes_to_base64_encode(&dns_msg);
        get_request(args.url.as_str(), text.as_str())
    } else {
        post_request(args.url.as_str(), dns_msg)
    };
    let url_ok = url_is_parsed(req.url());
    checked_request(req, url_ok)
}

/// As [`build_request`], for a message of any length: `None` where the
/// message is to travel in the address and is too long to be written as
/// text.
pub fn try_build_request(args: &Args, dns_msg: bytes::Bytes) -> (r: Option<
    Result<QueryRequest, RequestError>,
>)
    ensures
        r is Some <==> can_carry(args.get, bytes_content(dns_msg)),
        r matches Some(built) ==> describes(built, *args, dns_msg),
{
    if !args.get || fits_as_text(&dns_msg) {
        Some(build_request(args, dns_msg))
    } else {
        None
    }
}

/// What a run is to send, as plain values: how the name encodes, and the
/// address that the message then goes to.
pub open spec fn planned_url(args: Args) -> Seq<char> {
    request_url(
        args.get,
        args.url@,
        query_message(
            DEFAULT_QUERY_ID,
            encode_utf8(args.domain_name@),
            args.domain_type.code_spec(),
            args.domain_class.code_spec(),
        ),
    )
}

/// Plans one run: encodes the query that `args` asks for and describes the
/// request that carries it. A name that the encoder refuses comes back as
/// [`RequestError::InvalidDomainName`]; for a valid name, an address that
/// is no absolute URL comes back as [`RequestError::InvalidUrl`].
pub fn run(args: &Args) -> (r: Result<QueryRequest, RequestError>)
    requires
        encode_utf8(args.domain_name@).len() <= MAX_NAME_BYTES,
    ensures
        r is Ok <==> valid_domain(encode_utf8(args.domain_name@)) && url_parses(
            planned_url(*args),
        ),
        r matches Ok(req) ==> carries(
            req,
            args.get,
            args.url@,
            query_message(
                DEFAULT_QUERY_ID,
                encode_utf8(args.domain_name@),
                args.domain_type.code_spec(),
                args.domain_class.code_spec(),
            ),
        ),
        r matches Err(RequestError::InvalidDomainName(name)) ==> name@ == args.domain_name@
            && !valid_domain(encode_utf8(args.domain_name@)),
        r matches Err(RequestError::InvalidUrl(url)) ==> url@ == planned_url(*args)
            && valid_domain(encode_utf8(args.domain_name@)),
{
    match encode_query(args.domain_name.as_str(), args.domain_type, args.domain_class) {
        Ok(msg) => {
            proof {
                lemma_message_len(
                    DEFAULT_QUERY_ID,
                    encode_utf8(args.domain_name@),
                    args.domain_type.code_spec(),
                    args.domain_class.code_spec(),
                );
            }
            build_request(args, msg)
        },
        Err(EncodeError::InvalidDomainName(name)) => Err(RequestError::InvalidDomainName(name)),
    }
}

} // verus!
