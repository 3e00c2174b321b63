//! The response metadata that rendering code may change while the body is
//! being produced.

use crate::headers::{
    lemma_set_overwrites, lookup, well_formed, with_appended, with_set, HeaderError, Headers, Line,
};
use crate::text::{fold, is_name, is_value};
use vstd::prelude::*;

verus! {

/// The status that a response carries where none was set.
pub const DEFAULT_STATUS: u16 = 200;

/// The status of a redirect.
pub const REDIRECT_STATUS: u16 = 302;

/// Status and headers that rendering code sets for the response of the
/// request at hand.
#[derive(Clone, Debug, PartialEq, Eq)]
pub struct ResponseOptions {
    pub status: Option<u16>,
    pub headers: Headers,
}

/// Response metadata as mathematics.
pub struct ResponseOptionsView {
    pub status: Option<u16>,
    pub headers: Seq<Line>,
}

impl View for ResponseOptions {
    type V = ResponseOptionsView;

    open spec fn view(&self) -> ResponseOptionsView {
        ResponseOptionsView { status: self.status, headers: self.headers@ }
    }
}

/// The metadata of a request that nothing has touched yet.
pub open spec fn untouched() -> ResponseOptionsView {
    ResponseOptionsView { status: Some(DEFAULT_STATUS), headers: Seq::empty() }
}

/// The status that goes out for `m`.
pub open spec fn effective_status(m: ResponseOptionsView) -> u16 {
    match m.status {
        Some(code) => code,
        None => DEFAULT_STATUS,
    }
}

/// `m` after a redirect to `path`.
pub open spec fn redirected(m: ResponseOptionsView, path: Seq<char>) -> ResponseOptionsView {
    ResponseOptionsView {
        status: Some(REDIRECT_STATUS),
        headers: with_set(m.headers, "location"@, path),
    }
}

impl Default for ResponseOptions {
    /// Status 200 and no headers.
    fn default() -> (r: ResponseOptions)
        ensures
            r@ == untouched(),
    {
        ResponseOptions { status: Some(DEFAULT_STATUS), headers: Headers::new() }
    }
}

impl ResponseOptions {
    /// Insert a header, overwriting any previous value with the same key.
    pub fn insert_header(&mut self, key: &str, value: &str) -> (r: Result<(), HeaderError>)
        ensures
            !is_name(key@) ==> r == Err::<(), HeaderError>(HeaderError::InvalidName),
            is_name(key@) && !is_value(value@) ==> r == Err::<(), HeaderError>(
                HeaderError::InvalidValue,
            ),
            is_name(key@) && is_value(value@) ==> r is Ok,
            r is Ok ==> final(self).headers@ == with_set(old(self).headers@, fold(key@), value@),
            r is Err ==> final(self).headers@ == old(self).headers@,
            final(self).status == old(self).status,
            well_formed(final(self).headers@),
    {
        self.headers.set(key, value)
    }

    /// Append a header, leaving any header with the same key intact.
    pub fn append_header(&mut self, key: &str, value: &str) -> (r: Result<(), HeaderError>)
        ensures
            !is_name(key@) ==> r == Err::<(), HeaderError>(HeaderError::InvalidName),
            is_name(key@) && !is_value(value@) ==> r == Err::<(), HeaderError>(
                HeaderError::InvalidValue,
            ),
            is_name(key@) && is_value(value@) ==> r is Ok,
            r is Ok ==> final(self).headers@ == with_appended(
                old(self).headers@,
                fold(key@),
                value@,
            ),
            r is Err ==> final(self).headers@ == old(self).headers@,
            final(self).status == old(self).status,
            well_formed(final(self).headers@),
    {
        self.headers.append(key, value)
    }

    /// The status that goes out: the one that was set, else 200.
    pub fn status_or_default(&self) -> (code: u16)
        ensures
            code == effective_status(self@),
    {
        match self.status {
            Some(code) => code,
            None => DEFAULT_STATUS,
        }
    }

    /// A copy with the same status and headers.
    pub fn duplicate(&self) -> (r: ResponseOptions)
        ensures
            r@ == self@,
    {
        ResponseOptions { status: self.status, headers: self.headers.duplicate() }
    }
}

/// Turns the response into a redirect to `path`: status 302 and a `Location`
/// header that replaces any earlier one. Refuses a `path` that is no header
/// value and then changes nothing.
pub fn redirect(options: &mut ResponseOptions, path: &str) -> (r: Result<(), HeaderError>)
    ensures
        is_value(path@) ==> r is Ok,
        !is_value(path@) ==> r == Err::<(), HeaderError>(HeaderError::InvalidValue),
        r is Ok ==> final(options)@ == redirected(old(options)@, path@),
        r is Err ==> final(options)@ == old(options)@,
{
    proof {
        reveal_strlit("location");
        lemma_location_is_name();
    }
    match options.headers.set("location", path) {
        Ok(()) => {
            options.status = Some(REDIRECT_STATUS);
            Ok(())
        },
        Err(e) => Err(e),
    }
}

/// `location` is a header name, and already in lower case.
pub proof fn lemma_location_is_name()
    ensures
        is_name("location"@),
        fold("location"@) == "location"@,
{
    reveal_strlit("location");
    let s = "location"@;
    assert(s =~= seq!['l', 'o', 'c', 'a', 't', 'i', 'o', 'n']);
    assert(fold(s) =~= s);
}

/// After a redirect the status is 302 and a lookup of `Location` reads the
/// target, whatever the metadata held before.
pub proof fn lemma_redirected(m: ResponseOptionsView, path: Seq<char>)
    ensures
        effective_status(redirected(m, path)) == REDIRECT_STATUS,
        lookup(redirected(m, path).headers, "location"@) == Some(path),
{
    lemma_set_overwrites(m.headers, "location"@, path);
}

} // verus!
