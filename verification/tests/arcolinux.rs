use rate_mirrors::config::{Config, FetchError, FetchMirrors, ListResponse, LogFormatter};
use rate_mirrors::mirror::Mirror;
use rate_mirrors::target_configs::arcolinux::ArcoLinuxTarget;
use rate_mirrors::targets::arcolinux::{candidate_url_text, make_mirrors, read_urls};

const TEST_PATH: &str = "arcolinux_repo_3party/x86_64/arcolinux_repo_3party.files";

fn web() -> Config {
    Config::new(vec![String::from("http"), String::from("https")])
}

fn only(protocol: &str) -> Config {
    Config::new(vec![String::from(protocol)])
}

fn read(text: &str) -> Vec<Mirror> {
    ArcoLinuxTarget::default().parse_mirror_list(&web(), text).unwrap()
}

fn urls(mirrors: &[Mirror]) -> Vec<String> {
    mirrors.iter().map(|m| String::from(m.url().as_str())).collect()
}

fn target(arch: &str, comment_prefix: &str) -> ArcoLinuxTarget {
    ArcoLinuxTarget {
        fetch_mirrors_timeout: 15000,
        path_to_test: String::from(TEST_PATH),
        arch: String::from(arch),
        comment_prefix: String::from(comment_prefix),
    }
}

#[test]
fn default_settings() {
    let target = ArcoLinuxTarget::default();
    assert_eq!(target.fetch_mirrors_timeout, 15000);
    assert_eq!(target.path_to_test, TEST_PATH);
    assert_eq!(target.arch, "auto");
    assert_eq!(target.comment_prefix, "# ");
}

#[test]
fn clone_keeps_the_settings() {
    let target = target("aarch64", "; ");
    assert_eq!(target.clone(), target);
}

#[test]
fn list_request_names_the_published_list_and_the_timeout() {
    let mut target = ArcoLinuxTarget::default();
    target.fetch_mirrors_timeout = 2500;
    let request = target.list_request();
    assert_eq!(
        request.url,
        "https://raw.githubusercontent.com/arcolinux/arcolinux-mirrorlist/refs/heads/master/etc/pacman.d/arcolinux-mirrorlist"
    );
    assert_eq!(request.timeout_ms, 2500);
}

#[test]
fn one_server_line_yields_one_mirror() {
    let mirrors = read("Server = https://example.com/repo/$repo/$arch");
    assert_eq!(mirrors.len(), 1);
    assert_eq!(mirrors[0].url().as_str(), "https://example.com/repo/");
    assert_eq!(
        mirrors[0].url_to_test().as_str(),
        "https://example.com/repo/arcolinux_repo_3party/x86_64/arcolinux_repo_3party.files"
    );
    assert_eq!(mirrors[0].country(), &None);
}

#[test]
fn url_to_test_is_the_test_path_resolved_against_the_url() {
    let mut target = ArcoLinuxTarget::default();
    target.path_to_test = String::from("../probe.db");
    let mirrors = target
        .parse_mirror_list(&web(), "Server = https://example.com/a/b/$repo/$arch\n")
        .unwrap();
    assert_eq!(mirrors.len(), 1);
    assert_eq!(mirrors[0].url().as_str(), "https://example.com/a/b/");
    assert_eq!(mirrors[0].url_to_test().as_str(), "https://example.com/a/probe.db");
    let expected = url::Url::parse("https://example.com/a/b/").unwrap().join("../probe.db").unwrap();
    assert_eq!(mirrors[0].url_to_test().as_str(), expected.as_str());
}

#[test]
fn a_url_without_a_trailing_slash_loses_its_last_segment_in_the_url_to_test() {
    let mirrors = read("Server = https://foo/bar");
    assert_eq!(mirrors.len(), 1);
    assert_eq!(mirrors[0].url().as_str(), "https://foo/bar");
    assert_eq!(
        mirrors[0].url_to_test().as_str(),
        "https://foo/arcolinux_repo_3party/x86_64/arcolinux_repo_3party.files"
    );
}

#[test]
fn a_commented_line_yields_the_same_mirror_as_an_active_one() {
    let commented = read("#Server = https://foo/bar");
    let active = read("Server = https://foo/bar");
    assert_eq!(commented.len(), 1);
    assert_eq!(commented, active);
    assert_eq!(
        candidate_url_text("#Server = https://foo/bar"),
        candidate_url_text("Server = https://foo/bar")
    );
}

#[test]
fn mirrors_come_in_the_order_of_the_list() {
    let text = "# ArcoLinux mirrors\n\
                Server = https://one.example/$repo/$arch\n\
                #Server = https://two.example/$repo/$arch\r\n\
                \n\
                Server = http://three.example/x/$repo/$arch\n";
    assert_eq!(
        urls(&read(text)),
        vec!["https://one.example/", "https://two.example/", "http://three.example/x/"]
    );
}

#[test]
fn lines_without_either_prefix_are_left_out() {
    let lines = [
        "## comment",
        "server = https://lower.example/",
        " Server = https://indented.example/",
        "##Server = https://twice.example/",
        "# Server = https://spaced.example/",
        "Server=https://tight.example/",
        "https://bare.example/",
        "Server = https://kept.example/",
    ];
    assert_eq!(urls(&read(&lines.join("\n"))), vec!["https://kept.example/"]);
}

#[test]
fn lines_that_are_empty_after_stripping_are_left_out() {
    let text = "Server = \n#Server = \nServer = $repo/$arch\nServer = https://kept.example/\n";
    assert_eq!(urls(&read(text)), vec!["https://kept.example/"]);
}

#[test]
fn lines_that_do_not_parse_as_urls_are_left_out() {
    let text = "Server = not a url\n\
                Server = /just/a/path\n\
                Server = https://\n\
                Server = https://kept.example/\n";
    assert_eq!(urls(&read(text)), vec!["https://kept.example/"]);
}

#[test]
fn a_list_without_mirrors_is_no_failure() {
    assert_eq!(read(""), Vec::<Mirror>::new());
    assert_eq!(read("\n\n# nothing here\nServer = \n"), Vec::<Mirror>::new());
}

#[test]
fn only_the_prefix_is_stripped_from_a_line() {
    assert_eq!(
        candidate_url_text("Server = https://a/?q=Server = x"),
        Some(String::from("https://a/?q=Server = x"))
    );
    assert_eq!(candidate_url_text("Server = #Server = x"), Some(String::from("#Server = x")));
    assert_eq!(candidate_url_text("#Server = #x"), Some(String::from("#x")));
}

#[test]
fn the_placeholder_is_taken_out_wherever_it_stands() {
    assert_eq!(
        candidate_url_text("Server = https://a/$repo/$arch/b/$repo/$arch"),
        Some(String::from("https://a//b/"))
    );
    assert_eq!(
        candidate_url_text("Server = https://a/$repo/x"),
        Some(String::from("https://a/$repo/x"))
    );
}

#[test]
fn candidate_url_text_is_none_for_other_lines() {
    assert_eq!(candidate_url_text(""), None);
    assert_eq!(candidate_url_text("Server ="), None);
    assert_eq!(candidate_url_text("Server = "), None);
    assert_eq!(candidate_url_text("#Server = $repo/$arch"), None);
    assert_eq!(candidate_url_text("# Server = https://a/"), None);
}

#[test]
fn every_mirror_has_an_allowed_scheme() {
    let text = "Server = http://plain.example/$repo/$arch\n\
                Server = https://secure.example/$repo/$arch\n\
                Server = ftp://files.example/$repo/$arch\n\
                Server = rsync://sync.example/$repo/$arch\n";
    let target = ArcoLinuxTarget::default();
    let https = target.parse_mirror_list(&only("https"), text).unwrap();
    assert_eq!(urls(&https), vec!["https://secure.example/"]);
    let http = target.parse_mirror_list(&only("http"), text).unwrap();
    assert_eq!(urls(&http), vec!["http://plain.example/"]);
    let both = target.parse_mirror_list(&web(), text).unwrap();
    assert_eq!(urls(&both), vec!["http://plain.example/", "https://secure.example/"]);
    for mirror in both {
        assert!(web().is_protocol_allowed_for_url(mirror.url()));
    }
    let none = target.parse_mirror_list(&Config::new(Vec::new()), text).unwrap();
    assert_eq!(none, Vec::<Mirror>::new());
}

#[test]
fn a_test_path_that_does_not_resolve_is_a_configuration_error() {
    let mut target = ArcoLinuxTarget::default();
    target.path_to_test = String::from("//[::1");
    assert_eq!(
        target.parse_mirror_list(&web(), "Server = https://example.com/$repo/$arch\n"),
        Err(FetchError::ConfigurationError)
    );
}

#[test]
fn a_url_that_is_no_base_is_a_configuration_error() {
    let text = "Server = https://example.com/$repo/$arch\nServer = mailto:someone@example.com\n";
    let target = ArcoLinuxTarget::default();
    assert_eq!(
        target.parse_mirror_list(&only("mailto"), text),
        Err(FetchError::ConfigurationError)
    );
    assert_eq!(urls(&target.parse_mirror_list(&web(), text).unwrap()), vec!["https://example.com/"]);
}

#[test]
fn a_test_path_that_does_not_resolve_is_no_error_without_mirrors() {
    let mut target = ArcoLinuxTarget::default();
    target.path_to_test = String::from("//[::1");
    assert_eq!(target.parse_mirror_list(&web(), "# no mirrors\n"), Ok(Vec::new()));
}

#[test]
fn read_urls_gives_the_urls_of_the_allowed_mirrors() {
    let text = "Server = https://a.example/$repo/$arch\nServer = ftp://b.example/\nServer = ???\n";
    let found = read_urls(&web(), text);
    assert_eq!(found.len(), 1);
    assert_eq!(found[0].as_str(), "https://a.example/");
}

#[test]
fn make_mirrors_makes_one_mirror_for_each_url() {
    let found = read_urls(&web(), "Server = https://a.example/\nServer = http://b.example/c/\n");
    let mirrors = make_mirrors(found, "f.db").unwrap();
    assert_eq!(urls(&mirrors), vec!["https://a.example/", "http://b.example/c/"]);
    assert_eq!(mirrors[0].url_to_test().as_str(), "https://a.example/f.db");
    assert_eq!(mirrors[1].url_to_test().as_str(), "http://b.example/c/f.db");
}

#[test]
fn make_mirrors_fails_on_a_test_path_that_does_not_resolve() {
    let found = read_urls(&web(), "Server = https://a.example/\n");
    assert_eq!(make_mirrors(found, "//[::1"), Err(FetchError::ConfigurationError));
    assert_eq!(make_mirrors(Vec::new(), "//[::1"), Ok(Vec::new()));
}

#[test]
fn fetch_mirrors_reads_the_body_of_the_response() {
    let body = "Server = https://example.com/repo/$repo/$arch\n".as_bytes().to_vec();
    let mirrors =
        ArcoLinuxTarget::default().fetch_mirrors(&web(), ListResponse::Body(body)).unwrap();
    assert_eq!(mirrors.len(), 1);
    assert_eq!(mirrors[0].url().as_str(), "https://example.com/repo/");
    assert_eq!(
        mirrors[0].url_to_test().as_str(),
        "https://example.com/repo/arcolinux_repo_3party/x86_64/arcolinux_repo_3party.files"
    );
}

#[test]
fn fetch_mirrors_of_a_failed_transfer_is_a_network_error() {
    assert_eq!(
        ArcoLinuxTarget::default().fetch_mirrors(&web(), ListResponse::Failed),
        Err(FetchError::NetworkError)
    );
}

#[test]
fn fetch_mirrors_of_a_body_that_is_not_utf8_is_a_decode_error() {
    let mut body = "Server = https://example.com/".as_bytes().to_vec();
    body.push(0xff);
    assert_eq!(
        ArcoLinuxTarget::default().fetch_mirrors(&web(), ListResponse::Body(body)),
        Err(FetchError::DecodeError)
    );
}

#[test]
fn fetch_mirrors_with_a_broken_test_path_is_a_configuration_error() {
    let mut target = ArcoLinuxTarget::default();
    target.path_to_test = String::from("//[::1");
    let body = "Server = https://example.com/".as_bytes().to_vec();
    assert_eq!(
        target.fetch_mirrors(&web(), ListResponse::Body(body)),
        Err(FetchError::ConfigurationError)
    );
}

#[test]
fn two_fetches_do_not_touch_each_other() {
    let first = ArcoLinuxTarget::default();
    let mut second = ArcoLinuxTarget::default();
    second.path_to_test = String::from("other.db");
    let a = "Server = https://a.example/$repo/$arch\n".as_bytes().to_vec();
    let b = "Server = https://b.example/$repo/$arch\n".as_bytes().to_vec();
    let from_a = first.fetch_mirrors(&web(), ListResponse::Body(a.clone())).unwrap();
    let from_b = second.fetch_mirrors(&web(), ListResponse::Body(b)).unwrap();
    let again = first.fetch_mirrors(&web(), ListResponse::Body(a)).unwrap();
    assert_eq!(urls(&from_a), vec!["https://a.example/"]);
    assert_eq!(urls(&from_b), vec!["https://b.example/"]);
    assert_eq!(from_b[0].url_to_test().as_str(), "https://b.example/other.db");
    assert_eq!(again, from_a);
}

#[test]
fn format_comment_puts_the_prefix_before_the_message() {
    assert_eq!(target("auto", "# ").format_comment("hello"), "# hello");
    assert_eq!(target("auto", "// ").format_comment("a = b"), "// a = b");
    assert_eq!(target("auto", "").format_comment("bare"), "bare");
    assert_eq!(target("auto", "# ").format_comment(""), "# ");
}

#[test]
fn format_mirror_with_auto_arch_leaves_the_architecture_to_the_reader() {
    let mirrors = read("Server = https://example.com/repo/$repo/$arch");
    assert_eq!(
        target("auto", "# ").format_mirror(&mirrors[0]),
        "Server = https://example.com/repo/$repo/$arch"
    );
}

#[test]
fn format_mirror_with_an_architecture_writes_it() {
    let mirrors = read("Server = https://example.com/repo/$repo/$arch");
    let line = target("x86_64", "# ").format_mirror(&mirrors[0]);
    assert_eq!(line, "Server = https://example.com/repo/$repo/x86_64");
    assert!(!line.contains("$arch"));
    assert_eq!(
        target("aarch64", "# ").format_mirror(&mirrors[0]),
        "Server = https://example.com/repo/$repo/aarch64"
    );
}

#[test]
fn format_mirror_compares_the_whole_architecture_with_auto() {
    let mirrors = read("Server = https://example.com/");
    assert_eq!(target("Auto", "").format_mirror(&mirrors[0]), "Server = https://example.com/$repo/Auto");
    assert_eq!(target("autos", "").format_mirror(&mirrors[0]), "Server = https://example.com/$repo/autos");
    assert_eq!(target("", "").format_mirror(&mirrors[0]), "Server = https://example.com/$repo/");
}

#[test]
fn a_written_line_reads_back_as_the_same_mirror() {
    let mirrors = read("Server = https://example.com/repo/$repo/$arch");
    let line = target("auto", "# ").format_mirror(&mirrors[0]);
    assert_eq!(read(&line), mirrors);
}
