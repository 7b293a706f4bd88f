//! A candidate mirror: its URL, the URL to probe for speed, and a country.

use crate::absolute_url::{joined_url, AbsoluteUrl};
use crate::config::FetchError;
use crate::text::option_text;
use vstd::prelude::*;

verus! {

/// What a `Mirror` holds, as plain text.
pub struct MirrorView {
    pub country: Option<Seq<char>>,
    pub url: Seq<char>,
    pub url_to_test: Seq<char>,
}

/// A mirror. It is built once and read afterwards; two mirrors are the same
/// where their fields are.
#[derive(Debug, PartialEq, Eq)]
pub struct Mirror {
    country: Option<String>,
    url: AbsoluteUrl,
    url_to_test: AbsoluteUrl,
}

impl View for Mirror {
    type V = MirrorView;

    closed spec fn view(&self) -> MirrorView {
        MirrorView {
            country: option_text(self.country),
            url: self.url@,
            url_to_test: self.url_to_test@,
        }
    }
}

impl Clone for Mirror {
    fn clone(&self) -> (copy: Self)
        ensures
            copy@ == self@,
    {
        let country = match &self.country {
            Some(name) => Some(name.clone()),
            None => None,
        };
        Mirror { country, url: self.url.clone(), url_to_test: self.url_to_test.clone() }
    }
}

/// The views of a sequence of mirrors.
pub open spec fn mirror_views(mirrors: Seq<Mirror>) -> Seq<MirrorView> {
    mirrors.map_values(|m: Mirror| m@)
}

impl MirrorView {
    /// The URL to test is what `test_path` resolves to against the mirror's
    /// URL.
    pub open spec fn is_derived(self, test_path: Seq<char>) -> bool {
        joined_url(self.url, test_path) == Some(self.url_to_test)
    }
}

impl Mirror {
    /// The mirror at `url`, with the URL to test that `test_path` resolves to
    /// against it. Where `test_path` does not resolve, the configuration is
    /// at fault.
    pub fn new(country: Option<String>, url: AbsoluteUrl, test_path: &str) -> (mirror: Result<
        Mirror,
        FetchError,
    >)
        ensures
            mirror is Ok <==> joined_url(url@, test_path@) is Some,
            mirror matches Ok(m) ==> m@ == (MirrorView {
                country: option_text(country),
                url: url@,
                url_to_test: joined_url(url@, test_path@)->0,
            }),
            mirror matches Err(e) ==> e == FetchError::ConfigurationError,
    {
        let resolved = url.join(test_path);
        Mirror::from_resolution(country, url, resolved)
    }

    /// The mirror at `url` where the URL to test has been resolved already:
    /// `resolved` is what the resolution gave.
    pub fn from_resolution(
        country: Option<String>,
        url: AbsoluteUrl,
        resolved: Option<AbsoluteUrl>,
    ) -> (mirror: Result<Mirror, FetchError>)
        ensures
            mirror is Ok <==> resolved is Some,
            mirror matches Ok(m) ==> m@ == (MirrorView {
                country: option_text(country),
                url: url@,
                url_to_test: resolved->0@,
            }),
            mirror matches Err(e) ==> e == FetchError::ConfigurationError,
    {
        match resolved {
            Some(url_to_test) => Ok(Mirror { country, url, url_to_test }),
            None => Err(FetchError::ConfigurationError),
        }
    }

    /// The country, where the source of the mirror names one.
    pub fn country(&self) -> (country: &Option<String>)
        ensures
            option_text(*country) == self@.country,
    {
        &self.country
    }

    /// The mirror's URL.
    pub fn url(&self) -> (url: &AbsoluteUrl)
        ensures
            url@ == self@.url,
    {
        &self.url
    }

    /// The URL to fetch when the mirror's speed is measured.
    pub fn url_to_test(&self) -> (url: &AbsoluteUrl)
        ensures
            url@ == self@.url_to_test,
    {
        &self.url_to_test
    }
}

} // verus!
