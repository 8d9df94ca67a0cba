//! Strings as sequences of characters: the std calls on text and paths that
//! the engine makes, and the joining of output lines.

use vstd::prelude::*;

verus! {

/// How many characters stand before the first newline of `content`, or in
/// all of it where it has none.
pub open spec fn first_line_len(content: Seq<char>) -> nat
    decreases content.len(),
{
    if content.len() == 0 || content[0] == '\n' {
        0
    } else {
        1 + first_line_len(content.skip(1))
    }
}

/// `line` without the carriage return at its end, if it has one.
pub open spec fn without_carriage_return(line: Seq<char>) -> Seq<char> {
    if line.len() > 0 && line.last() == '\r' {
        line.drop_last()
    } else {
        line
    }
}

/// The lines of `content`. A line ends with a newline, or with a carriage
/// return and a newline; neither belongs to the line. What follows the last
/// newline is a line of its own, unless it is empty.
pub open spec fn text_lines(content: Seq<char>) -> Seq<Seq<char>>
    decreases content.len(),
{
    let first = first_line_len(content);
    if content.len() == 0 {
        Seq::empty()
    } else if first >= content.len() {
        seq![content]
    } else {
        seq![without_carriage_return(content.take(first as int))] + text_lines(
            content.skip(first as int + 1),
        )
    }
}

/// The path that joining `path` onto the directory `dir` gives, as
/// `Path::join` of std computes it for the platform, read back as text.
pub uninterp spec fn joined_path(dir: Seq<char>, path: Seq<char>) -> Seq<char>;

/// The character sequences that a sequence of strings stands for.
pub open spec fn views(strings: Seq<String>) -> Seq<Seq<char>> {
    Seq::new(strings.len(), |i: int| strings[i]@)
}

/// The lines written one after another, with one newline between each two.
/// Nothing follows the last line.
pub open spec fn join_lines(lines: Seq<Seq<char>>) -> Seq<char>
    decreases lines.len(),
{
    if lines.len() == 0 {
        Seq::empty()
    } else if lines.len() == 1 {
        lines[0]
    } else {
        join_lines(lines.drop_last()) + seq!['\n'] + lines.last()
    }
}

/// Calls `str::lines` and copies each line into a `String` of its own.
/// Trusted: the lines that come back are those that `text_lines` describes,
/// which is how std documents the call: lines end with `\n` or `\r\n`, the
/// last line may go without an ending, and a carriage return that no newline
/// follows stays in its line.
#[verifier::external_body]
pub(crate) fn split_lines(content: &str) -> (lines: Vec<String>)
    ensures
        views(lines@) == text_lines(content@),
{
    content.lines().map(str::to_string).collect()
}

/// Calls `Path::join` of std on `dir` and `path` and reads the joined path
/// back as text with `Path::to_string_lossy`.
/// Trusted: the text that comes back is what `joined_path` names.
#[verifier::external_body]
pub(crate) fn join_path(dir: &str, path: &str) -> (joined: String)
    ensures
        joined@ == joined_path(dir@, path@),
{
    std::path::Path::new(dir).join(path).to_string_lossy().into_owned()
}

/// Calls `str::strip_prefix` with a string as the pattern.
/// Trusted: the call answers `Some` exactly when `text` starts with
/// `prefix`, and then with what follows the prefix in `text`.
#[verifier::external_body]
pub(crate) fn strip_prefix<'a>(text: &'a str, prefix: &str) -> (rest: Option<&'a str>)
    ensures
        rest is Some <==> prefix@.is_prefix_of(text@),
        rest matches Some(tail) ==> tail@ == text@.skip(prefix@.len() as int),
{
    text.strip_prefix(prefix)
}

/// Calls `str::split_once` with a character as the delimiter.
/// Trusted: the call answers `None` exactly when `text` does not hold the
/// delimiter, and else with what stands before its first occurrence and what
/// stands after it.
#[verifier::external_body]
pub(crate) fn split_once<'a>(text: &'a str, delimiter: char) -> (parts: Option<(&'a str, &'a str)>)
    ensures
        match parts {
            Some((before, after)) => text@ == before@ + seq![delimiter] + after@
                && !before@.contains(delimiter),
            None => !text@.contains(delimiter),
        },
{
    text.split_once(delimiter)
}

/// Calls `String::push_str`.
/// Trusted: afterwards the buffer holds what it held, followed by `tail`.
#[verifier::external_body]
pub(crate) fn push_str(buffer: &mut String, tail: &str)
    ensures
        final(buffer)@ == old(buffer)@ + tail@,
{
    buffer.push_str(tail)
}

/// `first` followed by `second`, in a new string.
pub fn concat_text(first: &str, second: &str) -> (both: String)
    ensures
        both@ == first@ + second@,
{
    let mut both = String::new();
    push_str(&mut both, first);
    push_str(&mut both, second);
    assert(both@ =~= first@ + second@);
    both
}

/// Joins the lines with one newline between each two and none at the end.
pub fn join_with_newlines(lines: &Vec<String>) -> (joined: String)
    ensures
        joined@ == join_lines(views(lines@)),
{
    let mut joined = String::new();
    let mut i: usize = 0;
    while i < lines.len()
        invariant
            i <= lines.len(),
            joined@ == join_lines(views(lines@).take(i as int)),
        decreases lines.len() - i,
    {
        let ghost before = views(lines@).take(i as int);
        let ghost after = views(lines@).take(i + 1);
        proof {
            assert(after.drop_last() =~= before);
            assert(after.last() == lines@[i as int]@);
        }
        if i > 0 {
            proof {
                reveal_strlit("\n");
                assert("\n"@ =~= seq!['\n']);
            }
            push_str(&mut joined, "\n");
        } else {
            assert(joined@ + lines@[0]@ =~= lines@[0]@);
        }
        push_str(&mut joined, lines[i].as_str());
        i += 1;
    }
    assert(views(lines@).take(lines.len() as int) =~= views(lines@));
    joined
}

/// Splitting `content` into lines and joining them again loses nothing: the
/// text does not end with a newline and has no carriage return before a
/// newline.
pub open spec fn survives_splitting(content: Seq<char>) -> bool {
    &&& content.len() > 0 ==> content.last() != '\n'
    &&& forall|i: int|
        0 <= i < content.len() - 1 ==> !(#[trigger] content[i] == '\r' && content[i + 1] == '\n')
}

/// The first line of `content` holds no newline, and a newline follows it
/// unless it goes to the end of `content`.
pub proof fn first_line_ends_at_newline(content: Seq<char>)
    ensures
        first_line_len(content) <= content.len(),
        forall|i: int| 0 <= i < first_line_len(content) ==> content[i] != '\n',
        first_line_len(content) < content.len() ==> content[first_line_len(content) as int]
            == '\n',
    decreases content.len(),
{
    if content.len() > 0 && content[0] != '\n' {
        let rest = content.skip(1);
        first_line_ends_at_newline(rest);
        assert forall|i: int| 0 <= i < first_line_len(content) implies content[i] != '\n' by {
            if i > 0 {
                assert(content[i] == rest[i - 1]);
            }
        }
        if first_line_len(content) < content.len() {
            assert(content[first_line_len(content) as int] == rest[first_line_len(rest) as int]);
        }
    }
}

/// A text that is not empty has at least one line.
pub proof fn text_has_lines(content: Seq<char>)
    requires
        content.len() > 0,
    ensures
        text_lines(content).len() > 0,
{
}

/// Joining a line with the lines after it puts one newline between them.
pub proof fn join_lines_from_front(first: Seq<char>, rest: Seq<Seq<char>>)
    requires
        rest.len() > 0,
    ensures
        join_lines(seq![first] + rest) == first + seq!['\n'] + join_lines(rest),
    decreases rest.len(),
{
    let all = seq![first] + rest;
    if rest.len() == 1 {
        assert(all.drop_last() =~= seq![first]);
        assert(join_lines(all.drop_last()) == first);
        assert(all.last() == rest[0]);
    } else {
        assert(all.drop_last() =~= seq![first] + rest.drop_last());
        join_lines_from_front(first, rest.drop_last());
        assert(all.last() == rest.last());
        assert(join_lines(all) =~= first + seq!['\n'] + join_lines(rest));
    }
}

/// A text that does not end with a newline and has no carriage return
/// before a newline is the join of its lines.
pub proof fn join_of_lines_is_content(content: Seq<char>)
    requires
        survives_splitting(content),
    ensures
        join_lines(text_lines(content)) == content,
    decreases content.len(),
{
    let first = first_line_len(content) as int;
    first_line_ends_at_newline(content);
    if content.len() == 0 {
        assert(join_lines(text_lines(content)) =~= content);
    } else if first < content.len() {
        let head = content.take(first);
        let rest = content.skip(first + 1);
        assert(rest.len() > 0);
        assert(rest.last() == content.last());
        assert forall|i: int| 0 <= i < rest.len() - 1 implies !(#[trigger] rest[i] == '\r' && rest[i
            + 1] == '\n') by {
            assert(rest[i] == content[first + 1 + i]);
            assert(rest[i + 1] == content[first + 1 + i + 1]);
        }
        if head.len() > 0 {
            assert(head.last() == content[first - 1]);
        }
        assert(without_carriage_return(head) == head);
        join_of_lines_is_content(rest);
        text_has_lines(rest);
        join_lines_from_front(head, text_lines(rest));
        assert(head + seq!['\n'] + rest =~= content);
    }
}

} // verus!
