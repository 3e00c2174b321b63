//! The decisions around a call of a server function: which function the
//! request names, which bytes it is given, and what the reply carries.

use crate::assembler::{ResponseHead, ResponseHeadView};
use crate::headers::{lookup, with_set, Headers};
use crate::request::{last_segment, text_of, RequestParts, RequestPartsView, Url, UrlView};
use crate::response::{effective_status, ResponseOptions, ResponseOptionsView};
use crate::text::{fold, is_name, is_value};
use vstd::prelude::*;
use vstd::utf8::encode_utf8;

verus! {

/// How a server function takes its arguments.
#[derive(Clone, Copy, Debug, PartialEq, Eq, Structural)]
pub enum Encoding {
    /// URL-encoded, in the body.
    Url,
    /// CBOR, in the body.
    Cbor,
    /// URL-encoded, in the query, for a reply in JSON.
    GetJSON,
    /// URL-encoded, in the query, for a reply in CBOR.
    GetCBOR,
}

/// What a server function hands back.
#[derive(Clone, Debug, PartialEq, Eq)]
pub enum Payload {
    Binary(Vec<u8>),
    Url(String),
    Json(String),
}

/// A payload as mathematics.
pub enum PayloadView {
    Binary(Seq<u8>),
    Url(Seq<char>),
    Json(Seq<char>),
}

impl View for Payload {
    type V = PayloadView;

    open spec fn view(&self) -> PayloadView {
        match self {
            Payload::Binary(b) => PayloadView::Binary(b@),
            Payload::Url(s) => PayloadView::Url(s@),
            Payload::Json(s) => PayloadView::Json(s@),
        }
    }
}

/// A reply with a body of bytes.
#[derive(Clone, Debug, PartialEq, Eq)]
pub struct BinaryResponse {
    pub head: ResponseHead,
    pub body: Vec<u8>,
}

/// A reply with a body of bytes as mathematics.
pub struct BinaryResponseView {
    pub head: ResponseHeadView,
    pub body: Seq<u8>,
}

impl View for BinaryResponse {
    type V = BinaryResponseView;

    open spec fn view(&self) -> BinaryResponseView {
        BinaryResponseView { head: self.head@, body: self.body@ }
    }
}

/// The status of a reply to a request that names no server function.
pub const MISSING_STATUS: u16 = 400;

/// The status of a reply that reports a failure on the server's side.
pub const ERROR_STATUS: u16 = 500;

/// The name of the server function that a request for `url` asks for: the
/// last segment of the path.
pub open spec fn named_function(url: UrlView) -> Option<Seq<char>> {
    last_segment(url.path)
}

/// The bytes that a server function of the given encoding is called with:
/// the body, or the query where the arguments travel in the URL.
pub open spec fn input_of(encoding: Encoding, request: RequestPartsView) -> Seq<u8> {
    match encoding {
        Encoding::Url | Encoding::Cbor => request.body,
        Encoding::GetJSON | Encoding::GetCBOR => match request.url.query {
            Some(q) => encode_utf8(q),
            None => Seq::empty(),
        },
    }
}

/// Whether a client that accepts `accept` has asked for data: JSON,
/// URL-encoded text or CBOR, and nothing else.
pub open spec fn wants_data(accept: Option<Seq<char>>) -> bool {
    accept == Some("application/json"@) || accept == Some("application/x-www-form-urlencoded"@)
        || accept == Some("application/cbor"@)
}

/// Where a client that has not asked for data is sent back to: the page it
/// came from, or the root.
pub open spec fn way_back(referer: Option<Seq<char>>) -> Seq<char> {
    match referer {
        Some(r) => r,
        None => "/"@,
    }
}

/// The media type of a payload.
pub open spec fn media_type(payload: PayloadView) -> Seq<char> {
    match payload {
        PayloadView::Binary(_) => "application/cbor"@,
        PayloadView::Url(_) => "application/x-www-form-urlencoded"@,
        PayloadView::Json(_) => "application/json"@,
    }
}

/// The bytes of a payload.
pub open spec fn bytes_of(payload: PayloadView) -> Seq<u8> {
    match payload {
        PayloadView::Binary(b) => b,
        PayloadView::Url(s) => encode_utf8(s),
        PayloadView::Json(s) => encode_utf8(s),
    }
}

/// The reply that says why nothing was called or sent, without headers.
pub open spec fn bare_error(message: Seq<char>) -> BinaryResponseView {
    BinaryResponseView {
        head: ResponseHeadView { status: ERROR_STATUS, headers: Seq::empty() },
        body: encode_utf8(message),
    }
}

/// The reply that carries `text` as a body of unnamed bytes.
pub open spec fn octets(status: u16, text: Seq<char>) -> BinaryResponseView {
    BinaryResponseView {
        head: ResponseHeadView {
            status,
            headers: seq![("content-type"@, "application/octet-stream"@)],
        },
        body: encode_utf8(text),
    }
}

/// The reply to a call that returned `payload`: the status and the headers
/// that the function set, a `Location` header back to the referring page
/// where the client has not asked for data, and the payload under its media
/// type.
pub open spec fn reply_to(
    payload: PayloadView,
    request: RequestPartsView,
    options: ResponseOptionsView,
) -> BinaryResponseView {
    let back = way_back(lookup(request.headers, "referer"@));
    if wants_data(lookup(request.headers, "accept"@)) {
        BinaryResponseView {
            head: ResponseHeadView {
                status: effective_status(options),
                headers: options.headers.push(("content-type"@, media_type(payload))),
            },
            body: bytes_of(payload),
        }
    } else if is_value(back) {
        BinaryResponseView {
            head: ResponseHeadView {
                status: effective_status(options),
                headers: with_set(options.headers, "location"@, back).push(
                    ("content-type"@, media_type(payload)),
                ),
            },
            body: bytes_of(payload),
        }
    } else {
        bare_error("Failed to set Location header"@)
    }
}

/// The reply to a call of a server function: to one that returned a payload
/// as `reply_to` says, and to one that failed the description of the failure
/// under status 500.
pub open spec fn reply_of(
    outcome: Result<PayloadView, Seq<char>>,
    request: RequestPartsView,
    options: ResponseOptionsView,
) -> BinaryResponseView {
    match outcome {
        Ok(payload) => reply_to(payload, request, options),
        Err(description) => octets(ERROR_STATUS, description),
    }
}

/// The text that tells a client that no server function is registered under
/// `name`.
pub open spec fn missing_text(name: Seq<char>) -> Seq<char> {
    "Could not find a server function at the route "@ + name
        + ". \n\nIt's likely that either \n                 1. The API prefix you specify in the `#[server]` macro doesn't match the prefix at which your server function handler is mounted, or \n2. You are on a platform that doesn't support automatic server function registration and you need to call ServerFn::register_explicit() on the server function type, somewhere in your `main` function."@
}

/// The views of an outcome's two sides.
pub open spec fn outcome_view(outcome: Result<Payload, String>) -> Result<PayloadView, Seq<char>> {
    match outcome {
        Ok(p) => Ok(p@),
        Err(d) => Err(d@),
    }
}

/// The names and media types that replies are built from are header names
/// and values.
pub proof fn lemma_reply_lines()
    ensures
        is_name("content-type"@),
        fold("content-type"@) == "content-type"@,
        is_name("location"@),
        fold("location"@) == "location"@,
        fold("accept"@) == "accept"@,
        fold("referer"@) == "referer"@,
        is_value("application/cbor"@),
        is_value("application/json"@),
        is_value("application/x-www-form-urlencoded"@),
        is_value("application/octet-stream"@),
{
    crate::assembler::lemma_media_type_lines();
    crate::response::lemma_location_is_name();
    reveal_strlit("accept");
    reveal_strlit("referer");
    reveal_strlit("application/cbor");
    reveal_strlit("application/json");
    reveal_strlit("application/x-www-form-urlencoded");
    reveal_strlit("application/octet-stream");
    assert(fold("accept"@) =~= "accept"@);
    assert(fold("referer"@) =~= "referer"@);
}

/// The name of the server function that a request for `url` asks for, where
/// the URL has a path that can name one.
pub fn server_fn_name(url: &Url) -> (name: Option<String>)
    ensures
        text_of(name) == named_function(url@),
{
    url.last_path_segment()
}

/// The bytes that a server function of the given encoding is called with.
pub fn server_fn_input(encoding: Encoding, request: &RequestParts) -> (data: Vec<u8>)
    ensures
        data@ == input_of(encoding, request@),
{
    match encoding {
        Encoding::Url | Encoding::Cbor => request.body.clone(),
        Encoding::GetJSON | Encoding::GetCBOR => match request.url.query() {
            Some(q) => q.as_bytes_vec(),
            None => Vec::new(),
        },
    }
}

/// Whether a client that accepts `accept` has asked for data.
pub fn accepts_data(accept: &Option<String>) -> (b: bool)
    ensures
        b == wants_data(text_of(*accept)),
{
    match accept {
        Some(a) => {
            let json = "application/json".to_owned();
            let form = "application/x-www-form-urlencoded".to_owned();
            let cbor = "application/cbor".to_owned();
            *a == json || *a == form || *a == cbor
        },
        None => {
            proof {
                assert(!wants_data(None));
            }
            false
        },
    }
}

/// The reply that says why nothing was called or sent, without headers.
pub fn error_reply(message: &str) -> (r: BinaryResponse)
    ensures
        r@ == bare_error(message@),
{
    BinaryResponse {
        head: ResponseHead { status: ERROR_STATUS, headers: Headers::new() },
        body: message.as_bytes_vec(),
    }
}

/// The reply that carries `text` as a body of unnamed bytes.
pub fn octet_reply(status: u16, text: &str) -> (r: BinaryResponse)
    ensures
        r@ == octets(status, text@),
{
    let mut headers = Headers::new();
    proof {
        lemma_reply_lines();
    }
    let placed = headers.append("content-type", "application/octet-stream");
    assert(placed is Ok);
    assert(headers@ =~= seq![("content-type"@, "application/octet-stream"@)]);
    BinaryResponse { head: ResponseHead { status, headers }, body: text.as_bytes_vec() }
}

/// The reply to a request whose URL cannot name a server function.
pub fn unhosted_reply() -> (r: BinaryResponse)
    ensures
        r@ == bare_error("Server functions cannot be hosted at root /"@),
{
    error_reply("Server functions cannot be hosted at root /")
}

/// The reply to a request that names a server function that is not
/// registered: status 400 and a text that says what may be wrong.
pub fn missing_reply(name: &str) -> (r: BinaryResponse)
    ensures
        r@ == octets(MISSING_STATUS, missing_text(name@)),
{
    let mut text = String::new();
    text.append("Could not find a server function at the route ");
    text.append(name);
    text.append(
        ". \n\nIt's likely that either \n                 1. The API prefix you specify in the `#[server]` macro doesn't match the prefix at which your server function handler is mounted, or \n2. You are on a platform that doesn't support automatic server function registration and you need to call ServerFn::register_explicit() on the server function type, somewhere in your `main` function.",
    );
    assert(text@ =~= missing_text(name@));
    octet_reply(MISSING_STATUS, text.as_str())
}

fn payload_reply(payload: Payload, status: u16, headers: Headers) -> (r: BinaryResponse)
    ensures
        r@ == (BinaryResponseView {
            head: ResponseHeadView {
                status,
                headers: headers@.push(("content-type"@, media_type(payload@))),
            },
            body: bytes_of(payload@),
        }),
{
    let mut headers = headers;
    proof {
        lemma_reply_lines();
    }
    match payload {
        Payload::Binary(data) => {
            let placed = headers.append("content-type", "application/cbor");
            assert(placed is Ok);
            BinaryResponse { head: ResponseHead { status, headers }, body: data }
        },
        Payload::Url(data) => {
            let placed = headers.append("content-type", "application/x-www-form-urlencoded");
            assert(placed is Ok);
            BinaryResponse {
                head: ResponseHead { status, headers },
                body: data.as_str().as_bytes_vec(),
            }
        },
        Payload::Json(data) => {
            let placed = headers.append("content-type", "application/json");
            assert(placed is Ok);
            BinaryResponse {
                head: ResponseHead { status, headers },
                body: data.as_str().as_bytes_vec(),
            }
        },
    }
}

/// The reply to a call of a server function that returned or failed, for the
/// request that asked for it and the response metadata that the function
/// left.
pub fn server_fn_reply(
    outcome: Result<Payload, String>,
    request: &RequestParts,
    options: &ResponseOptions,
) -> (r: BinaryResponse)
    ensures
        r@ == reply_of(outcome_view(outcome), request@, options@),
{
    proof {
        lemma_reply_lines();
    }
    match outcome {
        Ok(payload) => {
            let accept = request.headers.get("Accept");
            proof {
                reveal_strlit("Accept");
                reveal_strlit("accept");
                assert(fold("Accept"@) =~= "accept"@);
            }
            let mut headers = options.headers.duplicate();
            if !accepts_data(&accept) {
                let referer = request.headers.get("Referer");
                proof {
                    reveal_strlit("Referer");
                    reveal_strlit("referer");
                    assert(fold("Referer"@) =~= "referer"@);
                    reveal_strlit("Location");
                    reveal_strlit("location");
                    assert(fold("Location"@) =~= "location"@);
                    assert(is_name("Location"@));
                }
                let back = match referer {
                    Some(r) => r,
                    None => "/".to_owned(),
                };
                match headers.set("Location", back.as_str()) {
                    Ok(()) => {},
                    Err(_) => {
                        return error_reply("Failed to set Location header");
                    },
                }
            }
            payload_reply(payload, options.status_or_default(), headers)
        },
        Err(description) => octet_reply(ERROR_STATUS, description.as_str()),
    }
}

} // verus!
