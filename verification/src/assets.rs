//! Replies for static assets: the media type that an asset's name suggests,
//! and the reply for an asset that was or was not found.

use crate::assembler::{ResponseHead, ResponseHeadView};
use crate::headers::{HeaderError, Headers};
use crate::request::text_of;
use crate::server_fn::{BinaryResponse, BinaryResponseView};
use crate::text::is_value;
use vstd::prelude::*;
use vstd::utf8::encode_utf8;

verus! {

/// The status of the reply for an asset that is not in the store.
pub const NOT_FOUND_STATUS: u16 = 404;

/// The status of the reply for an asset of no known media type.
pub const UNSUPPORTED_STATUS: u16 = 415;

/// Whether `i` is the place of the last `.` of `name`.
pub open spec fn is_last_dot(name: Seq<char>, i: int) -> bool {
    &&& 0 <= i < name.len()
    &&& name[i] == '.'
    &&& forall|j: int| i < j < name.len() ==> name[j] != '.'
}

/// The extension of a file name: what stands behind its last `.`, unless
/// that `.` is the first character of the name or the name has none.
pub open spec fn extension(name: Seq<char>) -> Option<Seq<char>> {
    if exists|i: int| i > 0 && is_last_dot(name, i) {
        Some(name.skip((choose|i: int| is_last_dot(name, i)) + 1))
    } else {
        None
    }
}

/// The first media type that `mime_guess::from_ext` lists for the extension
/// `ext`, if it lists any.
pub uninterp spec fn first_media_type(ext: Seq<char>) -> Option<Seq<char>>;

/// Calls `mime_guess::from_ext` and reads the first entry of the guess with
/// `first_raw`. The lookup goes by the extension alone, in a table that is
/// part of that crate; the contract names what comes back
/// [`first_media_type`] and claims nothing of which extensions are listed.
#[verifier::external_body]
fn guess_by_extension(ext: &str) -> (r: Option<String>)
    ensures
        text_of(r) == first_media_type(ext@),
{
    mime_guess::from_ext(ext).first_raw().map(str::to_owned)
}

/// The media type that the name of an asset suggests: the first one listed
/// for its extension.
pub open spec fn media_type_of(name: Seq<char>) -> Option<Seq<char>> {
    match extension(name) {
        Some(ext) => first_media_type(ext),
        None => None,
    }
}

/// The reply that carries nothing but a message, without headers.
pub open spec fn refusal(status: u16, message: Seq<char>) -> BinaryResponseView {
    BinaryResponseView {
        head: ResponseHeadView { status, headers: Seq::empty() },
        body: encode_utf8(message),
    }
}

/// The reply for an asset: its content under its media type, with status
/// 200; status 404 for an asset that is not in the store; status 415 for one
/// whose media type is not known.
pub open spec fn asset_reply_of(content: Option<Seq<u8>>, media_type: Option<Seq<char>>) -> Result<
    BinaryResponseView,
    HeaderError,
> {
    match content {
        None => Ok(refusal(NOT_FOUND_STATUS, "Not found"@)),
        Some(bytes) => match media_type {
            None => Ok(refusal(UNSUPPORTED_STATUS, "Unsupported file type"@)),
            Some(t) => if is_value(t) {
                Ok(
                    BinaryResponseView {
                        head: ResponseHeadView { status: 200, headers: seq![("content-type"@, t)] },
                        body: bytes,
                    },
                )
            } else {
                Err(HeaderError::InvalidValue)
            },
        },
    }
}

/// The bytes of a content that may be absent.
pub open spec fn bytes_in(content: Option<Vec<u8>>) -> Option<Seq<u8>> {
    match content {
        Some(bytes) => Some(bytes@),
        None => None,
    }
}

/// The view of a reply or of the error in its place.
pub open spec fn reply_view(r: Result<BinaryResponse, HeaderError>) -> Result<
    BinaryResponseView,
    HeaderError,
> {
    match r {
        Ok(reply) => Ok(reply@),
        Err(e) => Err(e),
    }
}

/// The extension of a file name.
pub fn asset_extension(name: &str) -> (ext: Option<String>)
    ensures
        text_of(ext) == extension(name@),
{
    let n: usize = name.unicode_len();
    let mut i: usize = n;
    while i > 0 && name.get_char(i - 1) != '.'
        invariant
            n == name@.len(),
            i <= n,
            forall|j: int| i <= j < n ==> name@[j] != '.',
        decreases i,
    {
        i = i - 1;
    }
    if i <= 1 {
        proof {
            if exists|k: int| k > 0 && is_last_dot(name@, k) {
                let k = choose|k: int| k > 0 && is_last_dot(name@, k);
                assert(name@[k] == '.');
            }
        }
        return None;
    }
    proof {
        let at = i - 1;
        assert(is_last_dot(name@, at));
        let c = choose|c: int| is_last_dot(name@, c);
        assert(is_last_dot(name@, c));
        assert(c == at);
        assert(name@.subrange(i as int, n as int) =~= name@.skip(at + 1));
    }
    Some(name.substring_char(i, n).to_owned())
}

/// The media type that the name of an asset suggests, if any.
pub fn asset_media_type(name: &str) -> (t: Option<String>)
    ensures
        text_of(t) == media_type_of(name@),
{
    match asset_extension(name) {
        Some(ext) => guess_by_extension(ext.as_str()),
        None => None,
    }
}

fn refuse(status: u16, message: &str) -> (r: BinaryResponse)
    ensures
        r@ == refusal(status, message@),
{
    BinaryResponse {
        head: ResponseHead { status, headers: Headers::new() },
        body: message.as_bytes_vec(),
    }
}

/// The reply for an asset with the given content, if it was found, and the
/// given media type, if one is known. Fails where the media type is no
/// header value.
pub fn asset_reply(content: Option<Vec<u8>>, media_type: Option<String>) -> (r: Result<
    BinaryResponse,
    HeaderError,
>)
    ensures
        reply_view(r) == asset_reply_of(bytes_in(content), text_of(media_type)),
{
    match content {
        None => Ok(refuse(NOT_FOUND_STATUS, "Not found")),
        Some(body) => match media_type {
            None => Ok(refuse(UNSUPPORTED_STATUS, "Unsupported file type")),
            Some(t) => {
                let mut headers = Headers::new();
                proof {
                    crate::assembler::lemma_media_type_lines();
                }
                match headers.set("content-type", t.as_str()) {
                    Ok(()) => {
                        assert(headers@ =~= seq![("content-type"@, t@)]);
                        Ok(BinaryResponse { head: ResponseHead { status: 200, headers }, body })
                    },
                    Err(e) => Err(e),
                }
            },
        },
    }
}

/// The reply for the asset called `name` with the given content, if it was
/// found, under the media type that its name suggests.
pub fn serve_asset(name: &str, content: Option<Vec<u8>>) -> (r: Result<
    BinaryResponse,
    HeaderError,
>)
    ensures
        reply_view(r) == asset_reply_of(bytes_in(content), media_type_of(name@)),
{
    asset_reply(content, asset_media_type(name))
}

} // verus!
