//! The ArcoLinux target: how its list of mirrors is read and how a list is
//! written for it.

use crate::absolute_url::{joined_url, parsed_url, scheme_of, AbsoluteUrl};
use crate::config::{
    fetched, Config, FetchError, FetchMirrors, ListRequest, ListResponse, LogFormatter,
};
use crate::mirror::{mirror_views, Mirror, MirrorView};
use crate::target_configs::arcolinux::{ArcoLinuxTarget, AUTO_ARCH};
use crate::text::{
    chars_of, lines, option_text, remove_all, slice_views, split_lines, starts_with, without,
};
use lemmas::{lemma_accepted_in_push, lemma_mirror_list_sound};
use vstd::prelude::*;
use vstd::slice::slice_subrange;

pub mod lemmas;

verus! {

/// Where ArcoLinux publishes its list of mirrors.
pub const MIRROR_LIST_URL: &'static str =
    "https://raw.githubusercontent.com/arcolinux/arcolinux-mirrorlist/refs/heads/master/etc/pacman.d/arcolinux-mirrorlist";

/// What a line that names a mirror begins with.
pub const SERVER_PREFIX: &'static str = "Server = ";

/// What a line begins with that names a mirror and is commented out.
pub const COMMENTED_SERVER_PREFIX: &'static str = "#Server = ";

/// What stands in a listed URL for the repository and the architecture.
pub const REPO_ARCH_PLACEHOLDER: &'static str = "$repo/$arch";

/// What stands in a written URL for the repository.
pub const REPO_PLACEHOLDER: &'static str = "$repo/";

/// What stands in a written URL for an architecture that the reader of the
/// list is to choose.
pub const ARCH_PLACEHOLDER: &'static str = "$arch";

/// What a line says after its prefix, where it names a mirror. Lines that are
/// commented out name a mirror as the others do.
pub open spec fn entry_of(line: Seq<char>) -> Option<Seq<char>> {
    if SERVER_PREFIX@.is_prefix_of(line) {
        Some(line.skip(SERVER_PREFIX@.len() as int))
    } else if COMMENTED_SERVER_PREFIX@.is_prefix_of(line) {
        Some(line.skip(COMMENTED_SERVER_PREFIX@.len() as int))
    } else {
        None
    }
}

/// The text of the URL that a line names: its entry without the placeholder,
/// where anything is left of it.
pub open spec fn url_text_of(line: Seq<char>) -> Option<Seq<char>> {
    match entry_of(line) {
        Some(entry) => {
            let text = without(entry, REPO_ARCH_PLACEHOLDER@);
            if text.len() > 0 {
                Some(text)
            } else {
                None
            }
        },
        None => None,
    }
}

/// The URL that a line contributes where the schemes in `allowed` are
/// allowed: the one that its text parses to, if it parses and has such a
/// scheme.
pub open spec fn url_of(line: Seq<char>, allowed: Set<Seq<char>>) -> Option<Seq<char>> {
    match url_text_of(line) {
        Some(text) => match parsed_url(text) {
            Some(url) => if allowed.contains(scheme_of(url)) {
                Some(url)
            } else {
                None
            },
            None => None,
        },
        None => None,
    }
}

/// The URLs that `lines` contribute, in the order of the lines.
pub open spec fn accepted_in(lines: Seq<Seq<char>>, allowed: Set<Seq<char>>) -> Seq<Seq<char>> {
    lines.filter_map(|line: Seq<char>| url_of(line, allowed))
}

/// The URLs of the mirrors in the list `text`.
pub open spec fn accepted_urls(text: Seq<char>, allowed: Set<Seq<char>>) -> Seq<Seq<char>> {
    accepted_in(lines(text), allowed)
}

/// The mirror at `url`, as this target hands it out: no country, and what
/// `test_path` resolves to as the URL to test.
pub open spec fn mirror_at(url: Seq<char>, test_path: Seq<char>) -> MirrorView {
    MirrorView { country: None, url, url_to_test: joined_url(url, test_path)->0 }
}

/// The mirrors at `urls`. One URL against which `test_path` does not resolve
/// makes the whole a `ConfigurationError`.
pub open spec fn mirrors_at(urls: Seq<Seq<char>>, test_path: Seq<char>) -> Result<
    Seq<MirrorView>,
    FetchError,
> {
    if forall|i: int| 0 <= i < urls.len() ==> joined_url(#[trigger] urls[i], test_path) is Some {
        Ok(urls.map_values(|url: Seq<char>| mirror_at(url, test_path)))
    } else {
        Err(FetchError::ConfigurationError)
    }
}

/// The mirrors in the list `text`.
pub open spec fn mirror_list(text: Seq<char>, test_path: Seq<char>, allowed: Set<Seq<char>>) -> Result<
    Seq<MirrorView>,
    FetchError,
> {
    mirrors_at(accepted_urls(text, allowed), test_path)
}

/// The views of a sequence of URLs.
pub open spec fn url_views(urls: Seq<AbsoluteUrl>) -> Seq<Seq<char>> {
    urls.map_values(|url: AbsoluteUrl| url@)
}

/// The literals of the list's syntax, as characters.
struct Tokens {
    server: Vec<char>,
    commented_server: Vec<char>,
    placeholder: Vec<char>,
}

impl Tokens {
    spec fn wf(&self) -> bool {
        &&& self.server@ == SERVER_PREFIX@
        &&& self.commented_server@ == COMMENTED_SERVER_PREFIX@
        &&& self.placeholder@ == REPO_ARCH_PLACEHOLDER@
    }

    fn new() -> (tokens: Tokens)
        ensures
            tokens.wf(),
    {
        Tokens {
            server: chars_of(SERVER_PREFIX),
            commented_server: chars_of(COMMENTED_SERVER_PREFIX),
            placeholder: chars_of(REPO_ARCH_PLACEHOLDER),
        }
    }
}

fn url_text_in(line: &[char], tokens: &Tokens) -> (text: Option<String>)
    requires
        tokens.wf(),
    ensures
        option_text(text) == url_text_of(line@),
{
    let skipped = if starts_with(line, tokens.server.as_slice()) {
        tokens.server.len()
    } else if starts_with(line, tokens.commented_server.as_slice()) {
        tokens.commented_server.len()
    } else {
        return None;
    };
    let entry = slice_subrange(line, skipped, line.len());
    assert(entry@ =~= line@.skip(skipped as int));
    let text = remove_all(entry, tokens.placeholder.as_slice());
    if text.as_str().is_empty() {
        None
    } else {
        Some(text)
    }
}

/// The text of the URL that `line` names, if it names one.
pub fn candidate_url_text(line: &str) -> (text: Option<String>)
    ensures
        option_text(text) == url_text_of(line@),
{
    let tokens = Tokens::new();
    let chars = chars_of(line);
    url_text_in(chars.as_slice(), &tokens)
}

/// Reads the list `text` and hands out the URLs of its mirrors, those with an
/// allowed scheme, in the order of the list.
pub fn read_urls(config: &Config, text: &str) -> (urls: Vec<AbsoluteUrl>)
    ensures
        url_views(urls@) == accepted_urls(text@, config@),
{
    let tokens = Tokens::new();
    let chars = chars_of(text);
    let list = split_lines(chars.as_slice());
    let mut urls: Vec<AbsoluteUrl> = Vec::new();
    let mut i: usize = 0;
    assert(url_views(urls@) =~= accepted_in(slice_views(list@).take(0), config@));
    while i < list.len()
        invariant
            i <= list.len(),
            tokens.wf(),
            url_views(urls@) == accepted_in(slice_views(list@).take(i as int), config@),
        decreases list.len() - i,
    {
        let ghost before = urls@;
        proof {
            let seen = slice_views(list@).take(i as int);
            assert(slice_views(list@).take(i + 1) =~= seen.push(list@[i as int]@));
            lemma_accepted_in_push(seen, list@[i as int]@, config@);
        }
        match url_text_in(list[i], &tokens) {
            Some(text) => match AbsoluteUrl::parse(text.as_str()) {
                Some(url) => if config.is_protocol_allowed_for_url(&url) {
                    urls.push(url);
                    assert(url_views(urls@) =~= url_views(before).push(url@));
                },
                None => {},
            },
            None => {},
        }
        i += 1;
    }
    assert(slice_views(list@).take(i as int) =~= slice_views(list@));
    urls
}

/// Makes the mirrors at `urls`, each with the URL to test that `test_path`
/// resolves to.
pub fn make_mirrors(urls: Vec<AbsoluteUrl>, test_path: &str) -> (result: Result<
    Vec<Mirror>,
    FetchError,
>)
    ensures
        fetched(result) == mirrors_at(url_views(urls@), test_path@),
{
    let mut mirrors: Vec<Mirror> = Vec::new();
    let ghost all = url_views(urls@);
    for url in it: urls
        invariant
            all == url_views(it.seq()),
            mirror_views(mirrors@) == all.take(it.index() as int).map_values(
                |url: Seq<char>| mirror_at(url, test_path@),
            ),
            forall|i: int| 0 <= i < it.index() ==> joined_url(#[trigger] all[i], test_path@) is Some,
    {
        let ghost before = mirrors@;
        let ghost at = it.index() as int;
        assert(all[at] == url@);
        match Mirror::new(None, url, test_path) {
            Ok(mirror) => {
                mirrors.push(mirror);
                assert(mirror_views(mirrors@) =~= mirror_views(before).push(mirror@));
                assert(all.take(at + 1) =~= all.take(at).push(all[at]));
                assert(mirror_views(mirrors@) =~= all.take(at + 1).map_values(
                    |url: Seq<char>| mirror_at(url, test_path@),
                ));
            },
            Err(error) => {
                return Err(error);
            },
        }
    }
    assert(all.take(all.len() as int) =~= all);
    Ok(mirrors)
}

impl ArcoLinuxTarget {
    /// What stands for the architecture in a written line: the configured
    /// architecture, or the placeholder where the choice is left to the
    /// reader of the list.
    pub open spec fn arch_token(&self) -> Seq<char> {
        if self.arch@ == AUTO_ARCH@ {
            ARCH_PLACEHOLDER@
        } else {
            self.arch@
        }
    }

    /// Reads the mirrors from the list `text`.
    pub fn parse_mirror_list(&self, config: &Config, text: &str) -> (result: Result<
        Vec<Mirror>,
        FetchError,
    >)
        ensures
            fetched(result) == mirror_list(text@, self.path_to_test@, config@),
            result matches Ok(mirrors) ==> forall|i: int|
                0 <= i < mirrors.len() ==> config.allows(#[trigger] mirrors[i]@.url)
                    && mirrors[i]@.is_derived(self.path_to_test@),
    {
        let urls = read_urls(config, text);
        let result = make_mirrors(urls, self.path_to_test.as_str());
        proof {
            lemma_mirror_list_sound(text@, self.path_to_test@, config@);
            if result is Ok {
                let mirrors = result->Ok_0;
                assert forall|i: int| 0 <= i < mirrors.len() implies config.allows(
                    #[trigger] mirrors[i]@.url,
                ) && mirrors[i]@.is_derived(self.path_to_test@) by {
                    assert(mirrors[i]@ == mirror_views(mirrors@)[i]);
                }
            }
        }
        result
    }
}

impl FetchMirrors for ArcoLinuxTarget {
    open spec fn list_url(&self) -> Seq<char> {
        MIRROR_LIST_URL@
    }

    open spec fn fetch_timeout(&self) -> u64 {
        self.fetch_mirrors_timeout
    }

    open spec fn test_path(&self) -> Seq<char> {
        self.path_to_test@
    }

    open spec fn mirrors_in(&self, text: Seq<char>, allowed: Set<Seq<char>>) -> Result<
        Seq<MirrorView>,
        FetchError,
    > {
        mirror_list(text, self.path_to_test@, allowed)
    }

    fn list_request(&self) -> (request: ListRequest)
        ensures
            request.url@ == MIRROR_LIST_URL@,
            request.timeout_ms == self.fetch_mirrors_timeout,
    {
        ListRequest { url: MIRROR_LIST_URL.to_owned(), timeout_ms: self.fetch_mirrors_timeout }
    }

    fn fetch_mirrors(&self, config: &Config, response: ListResponse) -> (result: Result<
        Vec<Mirror>,
        FetchError,
    >)
        ensures
            fetched(result) == match response.text() {
                Ok(text) => mirror_list(text, self.path_to_test@, config@),
                Err(error) => Err(error),
            },
    {
        match response.decode() {
            Ok(text) => self.parse_mirror_list(config, text.as_str()),
            Err(error) => Err(error),
        }
    }
}

impl LogFormatter for ArcoLinuxTarget {
    /// The comment prefix, then the message.
    open spec fn comment_line(&self, message: Seq<char>) -> Seq<char> {
        self.comment_prefix@ + message
    }

    /// `Server = `, the mirror's URL, the placeholder of the repository, and
    /// what stands for the architecture.
    open spec fn mirror_line(&self, mirror: MirrorView) -> Seq<char> {
        SERVER_PREFIX@ + mirror.url + REPO_PLACEHOLDER@ + self.arch_token()
    }

    fn format_comment(&self, message: &str) -> (line: String)
        ensures
            line@ == self.comment_prefix@ + message@,
    {
        let mut line = self.comment_prefix.clone();
        line.append(message);
        line
    }

    fn format_mirror(&self, mirror: &Mirror) -> (line: String)
        ensures
            line@ == SERVER_PREFIX@ + mirror@.url + REPO_PLACEHOLDER@ + self.arch_token(),
    {
        let auto = AUTO_ARCH.to_owned();
        let mut line = SERVER_PREFIX.to_owned();
        line.append(mirror.url().as_str());
        line.append(REPO_PLACEHOLDER);
        if self.arch == auto {
            line.append(ARCH_PLACEHOLDER);
        } else {
            line.append(self.arch.as_str());
        }
        line
    }
}

} // verus!
