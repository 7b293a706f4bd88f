//! Absolute URLs, held by their serialization. Parsing and resolving are the
//! `url` crate's work; what this module proves is stated over the two names
//! `parsed_url` and `joined_url` for what that crate returns.

use crate::text::{chars_of, find, position_of, string_of};
use url::Url;
use vstd::prelude::*;
use vstd::slice::slice_subrange;

verus! {

/// What `Url::parse` makes of `input`: the serialization of the URL it
/// returns, or `None` where it returns an error.
pub uninterp spec fn parsed_url(input: Seq<char>) -> Option<Seq<char>>;

/// What `Url::join` makes of `reference` on the URL that `Url::parse` returns
/// for `base`: the serialization of the resolved URL, or `None` where either
/// of the two returns an error.
pub uninterp spec fn joined_url(base: Seq<char>, reference: Seq<char>) -> Option<Seq<char>>;

/// The scheme of a serialized URL: what stands before its first colon. A
/// serialization is the scheme, a colon, and the rest, and a scheme holds no
/// colon.
pub open spec fn scheme_of(url: Seq<char>) -> Seq<char> {
    url.take(position_of(url, ':'))
}

/// `Url::parse` of the `url` crate, whose result is handed back as its
/// serialization (`String::from`), or as `None` where the parser returns an
/// error. Believed, not proved: that the parser returns the same for the same
/// input, which is all that equating its result with `parsed_url` says.
#[verifier::external_body]
fn url_parse(input: &str) -> (serialization: Option<String>)
    ensures
        serialization matches Some(text) ==> parsed_url(input@) == Some(text@),
        serialization is None ==> parsed_url(input@) is None,
{
    match Url::parse(input) {
        Ok(url) => Some(String::from(url)),
        Err(_) => None,
    }
}

/// `Url::join` of the `url` crate, called on the URL that `Url::parse` makes
/// of `base`; the result is handed back as its serialization, or as `None`
/// where one of the two returns an error. Believed, not proved: that the two
/// calls return the same for the same arguments, which is all that equating
/// the result with `joined_url` says.
#[verifier::external_body]
fn url_join(base: &str, reference: &str) -> (serialization: Option<String>)
    ensures
        serialization matches Some(text) ==> joined_url(base@, reference@) == Some(text@),
        serialization is None ==> joined_url(base@, reference@) is None,
{
    match Url::parse(base) {
        Ok(url) => match url.join(reference) {
            Ok(resolved) => Some(String::from(resolved)),
            Err(_) => None,
        },
        Err(_) => None,
    }
}

/// Reads the scheme off a serialized URL.
pub fn scheme_in(serialization: &str) -> (scheme: String)
    ensures
        scheme@ == scheme_of(serialization@),
{
    let chars = chars_of(serialization);
    let end = find(chars.as_slice(), ':');
    let scheme = string_of(slice_subrange(chars.as_slice(), 0, end));
    assert(chars@.subrange(0, end as int) =~= chars@.take(end as int));
    scheme
}

/// An absolute URL as the parser serialized it, with its scheme.
#[derive(Debug, PartialEq, Eq)]
pub struct AbsoluteUrl {
    text: String,
    scheme: String,
}

impl View for AbsoluteUrl {
    type V = Seq<char>;

    /// The serialization.
    closed spec fn view(&self) -> Seq<char> {
        self.text@
    }
}

impl Clone for AbsoluteUrl {
    fn clone(&self) -> (copy: Self)
        ensures
            copy@ == self@,
    {
        proof {
            use_type_invariant(self);
        }
        AbsoluteUrl { text: self.text.clone(), scheme: self.scheme.clone() }
    }
}

impl AbsoluteUrl {
    #[verifier::type_invariant]
    spec fn scheme_is_kept(self) -> bool {
        self.scheme@ == scheme_of(self.text@)
    }

    fn from_serialization(text: String) -> (url: AbsoluteUrl)
        ensures
            url@ == text@,
    {
        let scheme = scheme_in(text.as_str());
        AbsoluteUrl { text, scheme }
    }

    /// Parses `input` as an absolute URL. `None` where the parser rejects it.
    pub fn parse(input: &str) -> (url: Option<AbsoluteUrl>)
        ensures
            url matches Some(u) ==> parsed_url(input@) == Some(u@),
            url is None ==> parsed_url(input@) is None,
    {
        match url_parse(input) {
            Some(text) => Some(AbsoluteUrl::from_serialization(text)),
            None => None,
        }
    }

    /// Resolves `reference` against this URL. `None` where the parser
    /// rejects the reference on this base.
    pub fn join(&self, reference: &str) -> (url: Option<AbsoluteUrl>)
        ensures
            url matches Some(u) ==> joined_url(self@, reference@) == Some(u@),
            url is None ==> joined_url(self@, reference@) is None,
    {
        match url_join(self.text.as_str(), reference) {
            Some(text) => Some(AbsoluteUrl::from_serialization(text)),
            None => None,
        }
    }

    /// The serialization.
    pub fn as_str(&self) -> (text: &str)
        ensures
            text@ == self@,
    {
        self.text.as_str()
    }

    /// Whether `scheme` is the scheme of this URL.
    pub fn has_scheme(&self, scheme: &String) -> (same: bool)
        ensures
            same == (scheme@ == scheme_of(self@)),
    {
        proof {
            use_type_invariant(self);
        }
        self.scheme == *scheme
    }

    /// The scheme, without the colon.
    pub fn scheme(&self) -> (scheme: &str)
        ensures
            scheme@ == scheme_of(self@),
    {
        proof {
            use_type_invariant(self);
        }
        self.scheme.as_str()
    }
}

} // verus!
