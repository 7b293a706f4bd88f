//! What holds of the reading of the ArcoLinux list.

use crate::absolute_url::{joined_url, parsed_url, scheme_of};
use crate::targets::arcolinux::{
    accepted_in, accepted_urls, entry_of, mirror_at, mirror_list, url_of, url_text_of,
    COMMENTED_SERVER_PREFIX, SERVER_PREFIX,
};
use crate::text::{
    ends_a_line, lemma_lines_concat, lemma_lines_of_one, lemma_lines_of_unended, lines,
    without_carriage_return,
};
use vstd::prelude::*;

verus! {

/// One more line adds its URL, if it has one, behind those of the lines
/// before it.
pub proof fn lemma_accepted_in_push(lines: Seq<Seq<char>>, line: Seq<char>, allowed: Set<Seq<char>>)
    ensures
        accepted_in(lines.push(line), allowed) == match url_of(line, allowed) {
            Some(url) => accepted_in(lines, allowed).push(url),
            None => accepted_in(lines, allowed),
        },
{
    assert(lines.push(line).drop_last() =~= lines);
    match url_of(line, allowed) {
        Some(url) => {
            assert(accepted_in(lines, allowed) + seq![url] =~= accepted_in(lines, allowed).push(
                url,
            ));
        },
        None => {},
    }
}

/// Each of the URLs that `lines` contribute has an allowed scheme.
pub proof fn lemma_accepted_in_allowed(lines: Seq<Seq<char>>, allowed: Set<Seq<char>>)
    ensures
        forall|i: int|
            0 <= i < accepted_in(lines, allowed).len() ==> allowed.contains(
                scheme_of(#[trigger] accepted_in(lines, allowed)[i]),
            ),
    decreases lines.len(),
{
    if lines.len() > 0 {
        lemma_accepted_in_allowed(lines.drop_last(), allowed);
        assert(lines.drop_last().push(lines.last()) =~= lines);
        lemma_accepted_in_push(lines.drop_last(), lines.last(), allowed);
    }
}

/// Every mirror of a list that was read has an allowed scheme, and its URL to
/// test is what the test path resolves to against its URL.
pub proof fn lemma_mirror_list_sound(
    text: Seq<char>,
    test_path: Seq<char>,
    allowed: Set<Seq<char>>,
)
    ensures
        mirror_list(text, test_path, allowed) matches Ok(mirrors) ==> forall|i: int|
            0 <= i < mirrors.len() ==> allowed.contains(scheme_of(#[trigger] mirrors[i].url))
                && mirrors[i].is_derived(test_path) && mirrors[i].country is None,
{
    let urls = accepted_urls(text, allowed);
    lemma_accepted_in_allowed(lines(text), allowed);
    if let Ok(mirrors) = mirror_list(text, test_path, allowed) {
        assert forall|i: int| 0 <= i < mirrors.len() implies allowed.contains(
            scheme_of(#[trigger] mirrors[i].url),
        ) && mirrors[i].is_derived(test_path) && mirrors[i].country is None by {
            assert(mirrors[i] == mirror_at(urls[i], test_path));
            assert(joined_url(urls[i], test_path) is Some);
        }
    }
}

/// The URLs of two runs of lines are those of the first, then those of the
/// second.
pub proof fn lemma_accepted_in_concat(
    a: Seq<Seq<char>>,
    b: Seq<Seq<char>>,
    allowed: Set<Seq<char>>,
)
    ensures
        accepted_in(a + b, allowed) == accepted_in(a, allowed) + accepted_in(b, allowed),
    decreases b.len(),
{
    if b.len() == 0 {
        assert(a + b =~= a);
        assert(accepted_in(a, allowed) + accepted_in(b, allowed) =~= accepted_in(a, allowed));
    } else {
        let front = b.drop_last();
        lemma_accepted_in_concat(a, front, allowed);
        assert(a + b =~= (a + front).push(b.last()));
        assert(b =~= front.push(b.last()));
        lemma_accepted_in_push(a + front, b.last(), allowed);
        lemma_accepted_in_push(front, b.last(), allowed);
        assert(accepted_in(a + b, allowed) =~= accepted_in(a, allowed) + accepted_in(b, allowed));
    }
}

/// A line names no URL where it has neither prefix, where nothing is left of
/// it once the prefix and the placeholder are taken away, and where what is
/// left does not parse as a URL.
pub open spec fn names_no_url(line: Seq<char>) -> bool {
    ||| entry_of(line) is None
    ||| url_text_of(line) is None
    ||| parsed_url(url_text_of(line)->0) is None
}

/// Lines that name no URL are passed over: a list reads the same with them
/// as without them, as to the mirrors and as to whether it fails. `skipped`
/// is a run of such lines between `before` and `after`.
pub proof fn lemma_lines_without_url_change_nothing(
    before: Seq<char>,
    skipped: Seq<char>,
    after: Seq<char>,
    test_path: Seq<char>,
    allowed: Set<Seq<char>>,
)
    requires
        ends_a_line(before),
        ends_a_line(skipped) || after.len() == 0,
        forall|i: int| 0 <= i < lines(skipped).len() ==> names_no_url(#[trigger] lines(skipped)[i]),
    ensures
        mirror_list(before + skipped + after, test_path, allowed) == mirror_list(
            before + after,
            test_path,
            allowed,
        ),
{
    lemma_lines_concat(before, skipped + after);
    lemma_lines_concat(before, after);
    if ends_a_line(skipped) {
        lemma_lines_concat(skipped, after);
    } else {
        assert(skipped + after =~= skipped);
        assert(lines(skipped) + lines(after) =~= lines(skipped));
    }
    assert(before + skipped + after =~= before + (skipped + after));
    lemma_accepted_in_concat(lines(before), lines(skipped) + lines(after), allowed);
    lemma_accepted_in_concat(lines(skipped), lines(after), allowed);
    lemma_accepted_in_concat(lines(before), lines(after), allowed);
    lemma_accepted_in_none(lines(skipped), allowed);
    assert(accepted_urls(before + skipped + after, allowed) =~= accepted_urls(
        before + after,
        allowed,
    ));
}

/// Lines that have no URL contribute none.
proof fn lemma_accepted_in_none(lines: Seq<Seq<char>>, allowed: Set<Seq<char>>)
    requires
        forall|i: int| 0 <= i < lines.len() ==> url_of(#[trigger] lines[i], allowed) is None,
    ensures
        accepted_in(lines, allowed) == Seq::<Seq<char>>::empty(),
    decreases lines.len(),
{
    if lines.len() > 0 {
        let front = lines.drop_last();
        assert forall|i: int| 0 <= i < front.len() implies url_of(
            #[trigger] front[i],
            allowed,
        ) is None by {
            assert(front[i] == lines[i]);
        }
        lemma_accepted_in_none(front, allowed);
        assert(front.push(lines.last()) =~= lines);
        lemma_accepted_in_push(front, lines.last(), allowed);
    }
}

/// A line that is commented out has the entry of the line without the `#`,
/// and so the same URL.
pub proof fn lemma_commented_line(rest: Seq<char>, allowed: Set<Seq<char>>)
    ensures
        entry_of(COMMENTED_SERVER_PREFIX@ + rest) == Some(rest),
        entry_of(SERVER_PREFIX@ + rest) == Some(rest),
        url_of(COMMENTED_SERVER_PREFIX@ + rest, allowed) == url_of(SERVER_PREFIX@ + rest, allowed),
{
    reveal_strlit("Server = ");
    reveal_strlit("#Server = ");
    let active = SERVER_PREFIX@ + rest;
    let commented = COMMENTED_SERVER_PREFIX@ + rest;
    assert(active.subrange(0, SERVER_PREFIX@.len() as int) =~= SERVER_PREFIX@);
    assert(active.skip(SERVER_PREFIX@.len() as int) =~= rest);
    assert(commented.subrange(0, COMMENTED_SERVER_PREFIX@.len() as int)
        =~= COMMENTED_SERVER_PREFIX@);
    assert(commented.skip(COMMENTED_SERVER_PREFIX@.len() as int) =~= rest);
    assert(!SERVER_PREFIX@.is_prefix_of(commented)) by {
        assert(commented[0] == '#');
        assert(SERVER_PREFIX@[0] == 'S');
        if SERVER_PREFIX@.is_prefix_of(commented) {
            assert(commented.subrange(0, SERVER_PREFIX@.len() as int)[0] == SERVER_PREFIX@[0]);
        }
    }
}

/// A list in which a line is commented out reads as the list in which it is
/// not: `rest` is what the line says after its prefix, `before` and `after`
/// are the lines around it.
pub proof fn lemma_commented_line_in_list(
    before: Seq<char>,
    rest: Seq<char>,
    after: Seq<char>,
    test_path: Seq<char>,
    allowed: Set<Seq<char>>,
)
    requires
        ends_a_line(before),
        !rest.contains('\n'),
    ensures
        mirror_list(
            before + (COMMENTED_SERVER_PREFIX@ + rest).push('\n') + after,
            test_path,
            allowed,
        ) == mirror_list(before + (SERVER_PREFIX@ + rest).push('\n') + after, test_path, allowed),
{
    let kept = without_carriage_return(rest);
    lemma_prefixed_line(COMMENTED_SERVER_PREFIX@, rest);
    lemma_prefixed_line(SERVER_PREFIX@, rest);
    lemma_commented_line(kept, allowed);
    lemma_accepted_around(before, (COMMENTED_SERVER_PREFIX@ + rest).push('\n'), after, allowed);
    lemma_accepted_around(before, (SERVER_PREFIX@ + rest).push('\n'), after, allowed);
    lemma_accepted_in_push(Seq::empty(), COMMENTED_SERVER_PREFIX@ + kept, allowed);
    lemma_accepted_in_push(Seq::empty(), SERVER_PREFIX@ + kept, allowed);
    assert(Seq::<Seq<char>>::empty().push(COMMENTED_SERVER_PREFIX@ + kept) =~= seq![
        COMMENTED_SERVER_PREFIX@ + kept,
    ]);
    assert(Seq::<Seq<char>>::empty().push(SERVER_PREFIX@ + kept) =~= seq![SERVER_PREFIX@ + kept]);
}

/// A list of one line that is commented out reads as the list of that line
/// without the `#`.
pub proof fn lemma_commented_line_alone(
    rest: Seq<char>,
    test_path: Seq<char>,
    allowed: Set<Seq<char>>,
)
    requires
        !rest.contains('\n'),
    ensures
        mirror_list(COMMENTED_SERVER_PREFIX@ + rest, test_path, allowed) == mirror_list(
            SERVER_PREFIX@ + rest,
            test_path,
            allowed,
        ),
{
    reveal_strlit("Server = ");
    reveal_strlit("#Server = ");
    let active = SERVER_PREFIX@ + rest;
    let commented = COMMENTED_SERVER_PREFIX@ + rest;
    lemma_no_line_feed_in_prefixed(COMMENTED_SERVER_PREFIX@, rest);
    lemma_no_line_feed_in_prefixed(SERVER_PREFIX@, rest);
    lemma_lines_of_unended(active);
    lemma_lines_of_unended(commented);
    lemma_commented_line(rest, allowed);
    lemma_accepted_in_push(Seq::empty(), commented, allowed);
    lemma_accepted_in_push(Seq::empty(), active, allowed);
    assert(Seq::<Seq<char>>::empty().push(commented) =~= seq![commented]);
    assert(Seq::<Seq<char>>::empty().push(active) =~= seq![active]);
}

/// Neither prefix holds a line feed, so a prefix before a text without one
/// gives a text without one.
proof fn lemma_no_line_feed_in_prefixed(prefix: Seq<char>, rest: Seq<char>)
    requires
        prefix == SERVER_PREFIX@ || prefix == COMMENTED_SERVER_PREFIX@,
        !rest.contains('\n'),
    ensures
        !(prefix + rest).contains('\n'),
        prefix.len() > 0,
        prefix.last() != '\r',
{
    reveal_strlit("Server = ");
    reveal_strlit("#Server = ");
    let whole = prefix + rest;
    assert forall|j: int| 0 <= j < whole.len() implies whole[j] != '\n' by {
        if j >= prefix.len() {
            assert(rest.contains(rest[j - prefix.len()]));
        }
    }
}

/// A line that begins with one of the prefixes and is ended by a line feed
/// is read as the prefix and what follows it, without the carriage return.
proof fn lemma_prefixed_line(prefix: Seq<char>, rest: Seq<char>)
    requires
        prefix == SERVER_PREFIX@ || prefix == COMMENTED_SERVER_PREFIX@,
        !rest.contains('\n'),
    ensures
        lines((prefix + rest).push('\n')) == seq![prefix + without_carriage_return(rest)],
{
    lemma_no_line_feed_in_prefixed(prefix, rest);
    lemma_lines_of_one(prefix + rest);
    if rest.len() > 0 && rest.last() == '\r' {
        assert((prefix + rest).drop_last() =~= prefix + rest.drop_last());
    } else if rest.len() == 0 {
        assert(prefix + rest =~= prefix);
    }
}

/// The URLs of a list are those of the lines before a run of whole lines,
/// those of the run, and those of the lines after it.
proof fn lemma_accepted_around(
    before: Seq<char>,
    middle: Seq<char>,
    after: Seq<char>,
    allowed: Set<Seq<char>>,
)
    requires
        ends_a_line(before),
        ends_a_line(middle),
    ensures
        accepted_urls(before + middle + after, allowed) == accepted_urls(before, allowed)
            + accepted_in(lines(middle), allowed) + accepted_urls(after, allowed),
{
    assert(before + middle + after =~= before + (middle + after));
    lemma_lines_concat(before, middle + after);
    lemma_lines_concat(middle, after);
    lemma_accepted_in_concat(lines(before), lines(middle) + lines(after), allowed);
    lemma_accepted_in_concat(lines(middle), lines(after), allowed);
    assert(accepted_urls(before + middle + after, allowed) =~= accepted_urls(before, allowed)
        + accepted_in(lines(middle), allowed) + accepted_urls(after, allowed));
}

} // verus!
