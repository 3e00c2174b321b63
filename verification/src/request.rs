//! The snapshot of the inbound request and the render context that is built
//! around it.

use crate::headers::{HeaderError, Headers, Line};
use crate::mode::Method;
use crate::response::{redirect, redirected, untouched, ResponseOptions, ResponseOptionsView};
use crate::text::is_value;
use vstd::prelude::*;

verus! {

/// The error of `url::Url::parse`, carried as it comes.
#[verifier::external_type_specification]
#[verifier::external_body]
pub struct ExParseError(url::ParseError);

/// A parsed absolute URL: its serialization and the parts that were read
/// from it.
#[derive(Clone, Debug, PartialEq, Eq)]
pub struct Url {
    href: String,
    scheme: String,
    host: Option<String>,
    path: String,
    query: Option<String>,
}

/// A parsed URL as mathematics.
pub struct UrlView {
    pub href: Seq<char>,
    pub scheme: Seq<char>,
    pub host: Option<Seq<char>>,
    pub path: Seq<char>,
    pub query: Option<Seq<char>>,
}

/// The text of a string that may be absent.
pub open spec fn text_of(s: Option<String>) -> Option<Seq<char>> {
    match s {
        Some(t) => Some(t@),
        None => None,
    }
}

impl View for Url {
    type V = UrlView;

    closed spec fn view(&self) -> UrlView {
        UrlView {
            href: self.href@,
            scheme: self.scheme@,
            host: text_of(self.host),
            path: self.path@,
            query: text_of(self.query),
        }
    }
}

/// What `url::Url::parse` makes of `input`: nothing where it refuses the
/// text, else the URL's serialization, scheme, host, path and query as the
/// parsed URL gives them.
pub uninterp spec fn url_parse(input: Seq<char>) -> Option<UrlView>;

/// Calls `url::Url::parse` and reads the result through `as_str`, `scheme`,
/// `host_str`, `path` and `query`. The contract names what comes back
/// [`url_parse`]: the parser is a function of the text alone, and nothing is
/// claimed of which texts it accepts or what the parts are.
#[verifier::external_body]
fn parse_url(input: &str) -> (r: Result<Url, url::ParseError>)
    ensures
        match r {
            Ok(u) => url_parse(input@) == Some(u@),
            Err(_) => url_parse(input@).is_none(),
        },
{
    let u = url::Url::parse(input)?;
    Ok(
        Url {
            href: u.as_str().to_owned(),
            scheme: u.scheme().to_owned(),
            host: u.host_str().map(str::to_owned),
            path: u.path().to_owned(),
            query: u.query().map(str::to_owned),
        },
    )
}

/// Whether `i` is the place of the last `/` of `path`.
pub open spec fn is_last_slash(path: Seq<char>, i: int) -> bool {
    &&& 0 <= i < path.len()
    &&& path[i] == '/'
    &&& forall|j: int| i < j < path.len() ==> path[j] != '/'
}

/// The last segment of `path`: what stands behind its last `/`, where the
/// path begins with one; nothing for a path that does not.
pub open spec fn last_segment(path: Seq<char>) -> Option<Seq<char>> {
    if path.len() > 0 && path[0] == '/' {
        Some(path.skip((choose|i: int| is_last_slash(path, i)) + 1))
    } else {
        None
    }
}

impl Url {
    /// Parses an absolute URL.
    pub fn parse(input: &str) -> (r: Option<Url>)
        ensures
            match r {
                Some(u) => url_parse(input@) == Some(u@),
                None => url_parse(input@).is_none(),
            },
    {
        match parse_url(input) {
            Ok(u) => Some(u),
            Err(_) => None,
        }
    }

    /// The serialization of the URL.
    pub fn as_str(&self) -> (s: &str)
        ensures
            s@ == self@.href,
    {
        self.href.as_str()
    }

    /// The scheme, without the `:`.
    pub fn scheme(&self) -> (s: &str)
        ensures
            s@ == self@.scheme,
    {
        self.scheme.as_str()
    }

    /// The host, if the URL has one.
    pub fn host_str(&self) -> (s: Option<&str>)
        ensures
            match s {
                Some(t) => self@.host == Some(t@),
                None => self@.host.is_none(),
            },
    {
        match &self.host {
            Some(h) => Some(h.as_str()),
            None => None,
        }
    }

    /// The path.
    pub fn path(&self) -> (s: &str)
        ensures
            s@ == self@.path,
    {
        self.path.as_str()
    }

    /// The query, without the `?`, if the URL has one.
    pub fn query(&self) -> (s: Option<&str>)
        ensures
            match s {
                Some(t) => self@.query == Some(t@),
                None => self@.query.is_none(),
            },
    {
        match &self.query {
            Some(q) => Some(q.as_str()),
            None => None,
        }
    }

    /// The last segment of the path, where the path begins with `/`.
    pub fn last_path_segment(&self) -> (s: Option<String>)
        ensures
            text_of(s) == last_segment(self@.path),
    {
        let path = self.path.as_str();
        let n: usize = path.unicode_len();
        if n == 0 || path.get_char(0) != '/' {
            return None;
        }
        let mut i: usize = n - 1;
        while path.get_char(i) != '/'
            invariant
                n == path@.len(),
                path@[0] == '/',
                i < n,
                forall|j: int| i < j < n ==> path@[j] != '/',
            decreases i,
        {
            i = i - 1;
        }
        proof {
            let c = choose|c: int| is_last_slash(path@, c);
            assert(is_last_slash(path@, i as int));
            assert(is_last_slash(path@, c));
            assert(c == i);
            assert(path@.subrange(i + 1, n as int) =~= path@.skip(i + 1));
        }
        Some(path.substring_char(i + 1, n).to_owned())
    }
}

/// Why no request snapshot could be built.
#[derive(Clone, Copy, Debug, PartialEq, Eq, Structural)]
pub enum RequestError {
    /// The request's URL is no absolute URL.
    MalformedUrl,
}

/// The snapshot of the inbound request that rendering code reads.
#[derive(Clone, Debug, PartialEq, Eq)]
pub struct RequestParts {
    pub body: Vec<u8>,
    pub method: Method,
    pub headers: Headers,
    pub url: Url,
}

/// A request snapshot as mathematics.
pub struct RequestPartsView {
    pub body: Seq<u8>,
    pub method: Method,
    pub headers: Seq<Line>,
    pub url: UrlView,
}

impl View for RequestParts {
    type V = RequestPartsView;

    open spec fn view(&self) -> RequestPartsView {
        RequestPartsView {
            body: self.body@,
            method: self.method,
            headers: self.headers@,
            url: self.url@,
        }
    }
}

/// The bytes of a body that may have been unreadable: none in that case.
pub open spec fn body_or_empty(body: Option<Vec<u8>>) -> Seq<u8> {
    match body {
        Some(bytes) => bytes@,
        None => Seq::empty(),
    }
}

/// The snapshot of a request whose URL has been parsed. A body that could
/// not be read counts as empty; a URL that could not be parsed fails the
/// request.
pub fn request_parts_from(
    method: Method,
    url: Option<Url>,
    headers: Headers,
    body: Option<Vec<u8>>,
) -> (r: Result<RequestParts, RequestError>)
    ensures
        match url {
            Some(u) => r is Ok && r.unwrap()@ == (RequestPartsView {
                body: body_or_empty(body),
                method,
                headers: headers@,
                url: u@,
            }),
            None => r == Err::<RequestParts, RequestError>(RequestError::MalformedUrl),
        },
{
    match url {
        Some(url) => {
            let body = match body {
                Some(bytes) => bytes,
                None => Vec::new(),
            };
            Ok(RequestParts { body, method, headers, url })
        },
        None => Err(RequestError::MalformedUrl),
    }
}

/// The snapshot of a request from its method, the text of its URL, its
/// headers and its buffered body. A body that could not be read counts as
/// empty. Fails exactly where the URL cannot be parsed.
pub fn generate_request_parts(
    method: Method,
    url: &str,
    headers: Headers,
    body: Option<Vec<u8>>,
) -> (r: Result<RequestParts, RequestError>)
    ensures
        match url_parse(url@) {
            Some(u) => r is Ok && r.unwrap()@ == (RequestPartsView {
                body: body_or_empty(body),
                method,
                headers: headers@,
                url: u,
            }),
            None => r == Err::<RequestParts, RequestError>(RequestError::MalformedUrl),
        },
{
    request_parts_from(method, Url::parse(url), headers, body)
}

/// What rendering code is given for one request: the request snapshot, the
/// path that the application's router starts from, and the response metadata
/// that it may change.
#[derive(Clone, Debug, PartialEq, Eq)]
pub struct RenderContext {
    pub path: String,
    pub request: RequestParts,
    pub response: ResponseOptions,
}

/// A render context as mathematics.
pub struct RenderContextView {
    pub path: Seq<char>,
    pub request: RequestPartsView,
    pub response: ResponseOptionsView,
}

impl View for RenderContext {
    type V = RenderContextView;

    open spec fn view(&self) -> RenderContextView {
        RenderContextView { path: self.path@, request: self.request@, response: self.response@ }
    }
}

/// The render context of a request: the router starts from the request's
/// URL, and the response metadata is the one handed in.
pub fn provide_contexts(path: String, request: RequestParts, response: ResponseOptions) -> (c:
    RenderContext)
    ensures
        c@ == (RenderContextView { path: path@, request: request@, response: response@ }),
{
    RenderContext { path, request, response }
}

impl RenderContext {
    /// The render context of a request whose snapshot is in hand: the router
    /// starts from the request's URL, and the response metadata is untouched,
    /// with status 200 and no headers.
    pub fn new(request: RequestParts) -> (c: RenderContext)
        ensures
            c@ == (RenderContextView {
                path: request@.url.href,
                request: request@,
                response: untouched(),
            }),
    {
        let path = request.url.as_str().to_owned();
        provide_contexts(path, request, ResponseOptions::default())
    }

    /// The render context of a fresh request, from its method, the text of
    /// its URL, its headers and its buffered body: the snapshot of the
    /// request and untouched response metadata. A body that could not be
    /// read counts as empty. Fails exactly where the URL cannot be parsed.
    pub fn build(method: Method, url: &str, headers: Headers, body: Option<Vec<u8>>) -> (r: Result<
        RenderContext,
        RequestError,
    >)
        ensures
            match url_parse(url@) {
                Some(u) => r is Ok && r.unwrap()@ == (RenderContextView {
                    path: u.href,
                    request: RequestPartsView {
                        body: body_or_empty(body),
                        method,
                        headers: headers@,
                        url: u,
                    },
                    response: untouched(),
                }),
                None => r == Err::<RenderContext, RequestError>(RequestError::MalformedUrl),
            },
    {
        match generate_request_parts(method, url, headers, body) {
            Ok(request) => Ok(RenderContext::new(request)),
            Err(e) => Err(e),
        }
    }

    /// Turns the response of this request into a redirect to `path`.
    pub fn redirect(&mut self, path: &str) -> (r: Result<(), HeaderError>)
        ensures
            is_value(path@) ==> r is Ok,
            !is_value(path@) ==> r == Err::<(), HeaderError>(HeaderError::InvalidValue),
            r is Ok ==> final(self)@ == (RenderContextView {
                response: redirected(old(self)@.response, path@),
                ..old(self)@
            }),
            r is Err ==> final(self)@ == old(self)@,
    {
        redirect(&mut self.response, path)
    }
}

} // verus!
