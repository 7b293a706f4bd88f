//! What every target shares: the settings of a run, the errors of a fetch,
//! and the two capabilities that a target offers.

use crate::absolute_url::{scheme_of, AbsoluteUrl};
use crate::mirror::{mirror_views, Mirror, MirrorView};
use vstd::prelude::*;
use vstd::utf8::{decode_utf8, encode_utf8, encode_utf8_decode_utf8, valid_utf8};

verus! {

/// Why a fetch gave no mirrors.
#[derive(Debug, Clone, Copy, PartialEq, Eq, Structural)]
pub enum FetchError {
    /// The list could not be had: no connection, or the timeout ran out.
    NetworkError,
    /// The list is not UTF-8 text.
    DecodeError,
    /// The target's test path does not resolve against a mirror's URL.
    ConfigurationError,
}

/// The schemes in `protocols`.
pub open spec fn protocol_set(protocols: Seq<String>) -> Set<Seq<char>> {
    protocols.map_values(|p: String| p@).to_set()
}

/// The settings of a run, read by every target and changed by none. Its view
/// is the set of URL schemes that a mirror may have.
pub struct Config {
    protocols: Vec<String>,
}

impl View for Config {
    type V = Set<Seq<char>>;

    closed spec fn view(&self) -> Set<Seq<char>> {
        protocol_set(self.protocols@)
    }
}

impl Config {
    /// Settings that allow the schemes in `protocols` and no other.
    pub fn new(protocols: Vec<String>) -> (config: Config)
        ensures
            config@ == protocol_set(protocols@),
    {
        Config { protocols }
    }

    /// Whether a mirror at `url` is allowed: its scheme is among the allowed
    /// ones.
    pub open spec fn allows(&self, url: Seq<char>) -> bool {
        self@.contains(scheme_of(url))
    }

    /// Tells whether the scheme of `url` is allowed.
    pub fn is_protocol_allowed_for_url(&self, url: &AbsoluteUrl) -> (allowed: bool)
        ensures
            allowed == self.allows(url@),
    {
        let ghost schemes = self.protocols@.map_values(|p: String| p@);
        let mut i: usize = 0;
        while i < self.protocols.len()
            invariant
                i <= self.protocols.len(),
                schemes == self.protocols@.map_values(|p: String| p@),
                forall|j: int| 0 <= j < i ==> schemes[j] != scheme_of(url@),
            decreases self.protocols.len() - i,
        {
            if url.has_scheme(&self.protocols[i]) {
                assert(schemes[i as int] == scheme_of(url@));
                return true;
            }
            i += 1;
        }
        false
    }
}

/// What a target asks of the transport: one GET of `url`, given up after
/// `timeout_ms` milliseconds.
#[derive(Debug, PartialEq, Eq)]
pub struct ListRequest {
    pub url: String,
    pub timeout_ms: u64,
}

/// What the transport brought back.
#[derive(Debug, PartialEq, Eq)]
pub enum ListResponse {
    /// No connection, or no answer within the timeout.
    Failed,
    /// The bytes of the response body.
    Body(Vec<u8>),
}

/// `String::from_utf8` of std, with `None` in place of its error. Believed,
/// not proved: that it succeeds on the byte sequences that are UTF-8 and on
/// no other, and that the string it returns is made of the bytes it was
/// given.
#[verifier::external_body]
fn string_from_utf8(bytes: Vec<u8>) -> (text: Option<String>)
    ensures
        text is Some <==> valid_utf8(bytes@),
        text matches Some(s) ==> encode_utf8(s@) == bytes@,
{
    match String::from_utf8(bytes) {
        Ok(text) => Some(text),
        Err(_) => None,
    }
}

/// The view of a text or the error in its place.
pub open spec fn text_outcome(text: Result<String, FetchError>) -> Result<Seq<char>, FetchError> {
    match text {
        Ok(t) => Ok(t@),
        Err(e) => Err(e),
    }
}

/// The views of the mirrors of a fetch, or its error.
pub open spec fn fetched(result: Result<Vec<Mirror>, FetchError>) -> Result<
    Seq<MirrorView>,
    FetchError,
> {
    match result {
        Ok(mirrors) => Ok(mirror_views(mirrors@)),
        Err(e) => Err(e),
    }
}

impl ListResponse {
    /// The text of the list: a body that is UTF-8 decodes to its characters.
    /// A failed transfer is a `NetworkError`, any other body a `DecodeError`.
    pub open spec fn text(self) -> Result<Seq<char>, FetchError> {
        match self {
            ListResponse::Failed => Err(FetchError::NetworkError),
            ListResponse::Body(bytes) => if valid_utf8(bytes@) {
                Ok(decode_utf8(bytes@))
            } else {
                Err(FetchError::DecodeError)
            },
        }
    }

    /// Decodes the response.
    pub fn decode(self) -> (text: Result<String, FetchError>)
        ensures
            text_outcome(text) == self.text(),
    {
        match self {
            ListResponse::Failed => Err(FetchError::NetworkError),
            ListResponse::Body(bytes) => match string_from_utf8(bytes) {
                Some(text) => {
                    proof {
                        encode_utf8_decode_utf8(text@);
                    }
                    Ok(text)
                },
                None => Err(FetchError::DecodeError),
            },
        }
    }
}

/// A source of mirrors: a target that knows where its distribution publishes
/// the list of mirrors and how to read it. The transfer itself is left to the
/// caller, who performs `list_request` and hands the response to
/// `fetch_mirrors`.
pub trait FetchMirrors {
    /// Where the list is published.
    spec fn list_url(&self) -> Seq<char>;

    /// After how many milliseconds the transfer is given up.
    spec fn fetch_timeout(&self) -> u64;

    /// The relative reference that leads from a mirror's URL to the file to
    /// fetch when its speed is measured.
    spec fn test_path(&self) -> Seq<char>;

    /// The mirrors that the target reads from the list `text` when the
    /// schemes in `allowed` are allowed.
    spec fn mirrors_in(&self, text: Seq<char>, allowed: Set<Seq<char>>) -> Result<
        Seq<MirrorView>,
        FetchError,
    >;

    /// The transfer to make.
    fn list_request(&self) -> (request: ListRequest)
        ensures
            request.url@ == self.list_url(),
            request.timeout_ms == self.fetch_timeout(),
    ;

    /// The mirrors in the response. A response without text is the error
    /// that `ListResponse::text` names. Every mirror handed out has an
    /// allowed scheme, and its URL to test is the target's test path
    /// resolved against its URL.
    fn fetch_mirrors(&self, config: &Config, response: ListResponse) -> (result: Result<
        Vec<Mirror>,
        FetchError,
    >)
        ensures
            response.text() matches Err(e) ==> fetched(result) == Err::<Seq<MirrorView>, FetchError>(e),
            response.text() matches Ok(text) ==> fetched(result) == self.mirrors_in(text, config@),
            result matches Ok(mirrors) ==> forall|i: int|
                0 <= i < mirrors.len() ==> config.allows(#[trigger] mirrors[i]@.url)
                    && mirrors[i]@.is_derived(self.test_path()),
    ;
}

/// A target's way of writing its list: each distribution has its own syntax
/// for a comment and for a mirror.
pub trait LogFormatter {
    /// The line that carries `message` as a comment.
    spec fn comment_line(&self, message: Seq<char>) -> Seq<char>;

    /// The line that names `mirror`.
    spec fn mirror_line(&self, mirror: MirrorView) -> Seq<char>;

    /// Writes `message` as a comment.
    fn format_comment(&self, message: &str) -> (line: String)
        ensures
            line@ == self.comment_line(message@),
    ;

    /// Writes the line for `mirror`.
    fn format_mirror(&self, mirror: &Mirror) -> (line: String)
        ensures
            line@ == self.mirror_line(mirror@),
    ;
}

} // verus!
