//! Text as a sequence of characters: lines, prefixes and the removal of a
//! pattern, each with the executable function that computes it.

use vstd::prelude::*;
use vstd::slice::slice_subrange;

verus! {

/// Index of the first occurrence of `c` in `text`, or `text.len()` where `c`
/// does not occur.
pub open spec fn position_of(text: Seq<char>, c: char) -> int {
    match text.index_of_first(c) {
        Some(index) => index,
        None => text.len() as int,
    }
}

/// `position_of` lies within `text`, nothing before it is `c`, and where it is
/// an index of `text` the character there is `c`.
pub proof fn lemma_position_of(text: Seq<char>, c: char)
    ensures
        0 <= position_of(text, c) <= text.len(),
        forall|j: int| 0 <= j < position_of(text, c) ==> text[j] != c,
        position_of(text, c) < text.len() ==> text[position_of(text, c)] == c,
{
    text.index_of_first_ensures(c);
}

/// The three facts of `lemma_position_of` determine `position_of`.
pub proof fn lemma_position_is(text: Seq<char>, c: char, n: int)
    requires
        0 <= n <= text.len(),
        forall|j: int| 0 <= j < n ==> text[j] != c,
        n < text.len() ==> text[n] == c,
    ensures
        position_of(text, c) == n,
{
    lemma_position_of(text, c);
    let p = position_of(text, c);
    if p < n {
        assert(text[p] == c);
    } else if n < p {
        assert(text[n] == c);
    }
}

/// `line` without one carriage return at its end, if it has one there.
pub open spec fn without_carriage_return(line: Seq<char>) -> Seq<char> {
    if line.len() > 0 && line.last() == '\r' {
        line.drop_last()
    } else {
        line
    }
}

/// The lines of `text`. A line ends at a line feed; the line feed, and a
/// carriage return directly before it, belong to no line. What follows the
/// last line feed is a line of its own unless it is empty.
pub open spec fn lines(text: Seq<char>) -> Seq<Seq<char>>
    decreases text.len(),
{
    let n = position_of(text, '\n');
    if text.len() == 0 {
        Seq::empty()
    } else if 0 <= n < text.len() {
        seq![without_carriage_return(text.take(n))] + lines(text.skip(n + 1))
    } else {
        seq![text]
    }
}

/// `text` with every occurrence of `pattern` taken out, the occurrences found
/// from left to right and never overlapping. What is left is not searched
/// again. An empty pattern occurs nowhere.
pub open spec fn without(text: Seq<char>, pattern: Seq<char>) -> Seq<char>
    decreases text.len(),
{
    if text.len() == 0 {
        text
    } else if pattern.len() > 0 && pattern.is_prefix_of(text) {
        without(text.skip(pattern.len() as int), pattern)
    } else {
        seq![text[0]] + without(text.drop_first(), pattern)
    }
}

/// Whether `text` is made of whole lines: it is empty or ends with a line
/// feed.
pub open spec fn ends_a_line(text: Seq<char>) -> bool {
    text.len() == 0 || text.last() == '\n'
}

/// Where `c` occurs in `a`, its first occurrence in `a + b` is the one in
/// `a`; where it does not, it is the first one in `b`.
pub proof fn lemma_position_of_concat(a: Seq<char>, b: Seq<char>, c: char)
    ensures
        position_of(a + b, c) == if position_of(a, c) < a.len() {
            position_of(a, c)
        } else {
            a.len() + position_of(b, c)
        },
{
    lemma_position_of(a, c);
    lemma_position_of(b, c);
    let n = if position_of(a, c) < a.len() {
        position_of(a, c)
    } else {
        a.len() + position_of(b, c)
    };
    assert forall|j: int| 0 <= j < n implies (a + b)[j] != c by {
        if j >= a.len() {
            assert((a + b)[j] == b[j - a.len()]);
        }
    }
    lemma_position_is(a + b, c, n);
}

/// The lines of a text that begins with whole lines are those lines, then
/// the lines of the rest.
pub proof fn lemma_lines_concat(a: Seq<char>, b: Seq<char>)
    requires
        ends_a_line(a),
    ensures
        lines(a + b) == lines(a) + lines(b),
    decreases a.len(),
{
    if a.len() == 0 {
        assert(a + b =~= b);
        assert(lines(a) + lines(b) =~= lines(b));
    } else {
        lemma_position_of(a, '\n');
        lemma_position_of_concat(a, b, '\n');
        let n = position_of(a, '\n');
        assert(n < a.len()) by {
            if n == a.len() {
                assert(a[a.len() - 1] != '\n');
            }
        }
        let rest = a.skip(n + 1);
        assert(ends_a_line(rest)) by {
            if rest.len() > 0 {
                assert(rest.last() == a.last());
            }
        }
        lemma_lines_concat(rest, b);
        assert((a + b).take(n) =~= a.take(n));
        assert((a + b).skip(n + 1) =~= rest + b);
        assert(lines(a + b) =~= lines(a) + lines(b));
    }
}

/// A text without a line feed, ended by one, is one line.
pub proof fn lemma_lines_of_one(line: Seq<char>)
    requires
        !line.contains('\n'),
    ensures
        lines(line.push('\n')) == seq![without_carriage_return(line)],
{
    let text = line.push('\n');
    assert forall|j: int| 0 <= j < line.len() implies text[j] != '\n' by {
        assert(line.contains(line[j]));
    }
    lemma_position_is(text, '\n', line.len() as int);
    assert(text.take(line.len() as int) =~= line);
    assert(text.skip(line.len() as int + 1) =~= Seq::<char>::empty());
    assert(lines(Seq::<char>::empty()) =~= Seq::<Seq<char>>::empty());
    assert(lines(text) =~= seq![without_carriage_return(line)]);
}

/// A text without a line feed is one line, or none where it is empty.
pub proof fn lemma_lines_of_unended(line: Seq<char>)
    requires
        !line.contains('\n'),
    ensures
        lines(line) == if line.len() == 0 {
            Seq::<Seq<char>>::empty()
        } else {
            seq![line]
        },
{
    assert forall|j: int| 0 <= j < line.len() implies line[j] != '\n' by {
        assert(line.contains(line[j]));
    }
    lemma_position_is(line, '\n', line.len() as int);
}

/// The view of an optional string.
pub open spec fn option_text(text: Option<String>) -> Option<Seq<char>> {
    match text {
        Some(t) => Some(t@),
        None => None,
    }
}

/// The views of a sequence of character slices.
pub open spec fn slice_views(slices: Seq<&[char]>) -> Seq<Seq<char>> {
    slices.map_values(|s: &[char]| s@)
}

/// `String::push` of std. Believed, not proved: that the character is
/// appended and what stood before it stays.
#[verifier::external_body]
pub(crate) fn push_char(text: &mut String, c: char)
    ensures
        final(text)@ == old(text)@.push(c),
{
    text.push(c)
}

/// The characters of `text`, in order.
pub fn chars_of(text: &str) -> (chars: Vec<char>)
    ensures
        chars@ == text@,
{
    let mut chars: Vec<char> = Vec::new();
    for c in it: text.chars()
        invariant
            chars@ == it.seq().take(it.index()),
    {
        chars.push(c);
    }
    chars
}

/// The string made of `chars`, in order.
pub fn string_of(chars: &[char]) -> (text: String)
    ensures
        text@ == chars@,
{
    let mut text = String::new();
    let mut i: usize = 0;
    while i < chars.len()
        invariant
            i <= chars.len(),
            text@ == chars@.take(i as int),
        decreases chars.len() - i,
    {
        push_char(&mut text, chars[i]);
        i += 1;
    }
    text
}

/// Finds the first `c` in `text`.
pub fn find(text: &[char], c: char) -> (at: usize)
    ensures
        at == position_of(text@, c),
        at <= text@.len(),
{
    let mut i: usize = 0;
    while i < text.len() && text[i] != c
        invariant
            i <= text.len(),
            forall|j: int| 0 <= j < i ==> text@[j] != c,
        decreases text.len() - i,
    {
        i += 1;
    }
    proof {
        lemma_position_is(text@, c, i as int);
    }
    i
}

/// Whether `text` begins with `prefix`.
pub fn starts_with(text: &[char], prefix: &[char]) -> (b: bool)
    ensures
        b == prefix@.is_prefix_of(text@),
{
    if prefix.len() > text.len() {
        return false;
    }
    let mut i: usize = 0;
    while i < prefix.len()
        invariant
            i <= prefix.len() <= text.len(),
            forall|j: int| 0 <= j < i ==> prefix@[j] == text@[j],
        decreases prefix.len() - i,
    {
        if prefix[i] != text[i] {
            assert(text@.subrange(0, prefix@.len() as int)[i as int] != prefix@[i as int]);
            return false;
        }
        i += 1;
    }
    assert(prefix@ =~= text@.subrange(0, prefix@.len() as int));
    true
}

/// Splits `text` into its lines, which borrow from it.
pub fn split_lines(text: &[char]) -> (result: Vec<&[char]>)
    ensures
        slice_views(result@) == lines(text@),
{
    let mut result: Vec<&[char]> = Vec::new();
    let mut start: usize = 0;
    assert(text@.skip(0) =~= text@);
    while start < text.len()
        invariant
            start <= text.len(),
            lines(text@) == slice_views(result@) + lines(text@.skip(start as int)),
        decreases text.len() - start,
    {
        let rest = slice_subrange(text, start, text.len());
        let n = find(rest, '\n');
        let ghost before = result@;
        assert(rest@ =~= text@.skip(start as int));
        if n < rest.len() {
            let whole = slice_subrange(rest, 0, n);
            let line = if n > 0 && whole[n - 1] == '\r' {
                slice_subrange(whole, 0, n - 1)
            } else {
                whole
            };
            assert(whole@ =~= rest@.take(n as int));
            assert(line@ =~= without_carriage_return(whole@));
            result.push(line);
            start = start + n + 1;
            assert(rest@.skip(n + 1) =~= text@.skip(start as int));
            assert(slice_views(result@) =~= slice_views(before) + seq![line@]);
        } else {
            result.push(rest);
            start = text.len();
            assert(slice_views(result@) =~= slice_views(before) + seq![rest@]);
            assert(lines(text@.skip(start as int)) =~= Seq::empty());
        }
    }
    assert(lines(text@.skip(start as int)) =~= Seq::empty());
    result
}

/// Copies `text` without the occurrences of `pattern`.
pub fn remove_all(text: &[char], pattern: &[char]) -> (result: String)
    ensures
        result@ == without(text@, pattern@),
{
    let mut result = String::new();
    let mut i: usize = 0;
    assert(text@.skip(0) =~= text@);
    while i < text.len()
        invariant
            i <= text.len(),
            without(text@, pattern@) == result@ + without(text@.skip(i as int), pattern@),
        decreases text.len() - i,
    {
        let rest = slice_subrange(text, i, text.len());
        assert(rest@ =~= text@.skip(i as int));
        if pattern.len() > 0 && starts_with(rest, pattern) {
            assert(rest@.skip(pattern@.len() as int) =~= text@.skip(i + pattern@.len()));
            i += pattern.len();
        } else {
            let ghost before = result@;
            push_char(&mut result, text[i]);
            assert(rest@.drop_first() =~= text@.skip(i + 1));
            assert(before + (seq![rest@[0]] + without(rest@.drop_first(), pattern@))
                =~= before.push(text@[i as int]) + without(rest@.drop_first(), pattern@));
            i += 1;
        }
    }
    result
}

} // verus!
