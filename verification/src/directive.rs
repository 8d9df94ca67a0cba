//! Recognising a quoted include directive in one line.

use vstd::prelude::*;

verus! {

/// The regular expression of a quoted directive. Its three groups are the
/// text up to and with the opening quote, the path, and the rest of the line
/// from the closing quote on.
pub const DIRECTIVE_PATTERN: &'static str = "^(\\s*#include\\s*\")([^\"]+)(\".*)$";

/// What matching `pattern` against `haystack` captures, as `Regex::captures`
/// of the regex crate finds it: `None` where the pattern does not compile or
/// does not match, else one entry per group of the pattern, the whole match
/// first, with `None` for a group that took no part in the match.
pub uninterp spec fn regex_captures(pattern: Seq<char>, haystack: Seq<char>) -> Option<
    Seq<Option<Seq<char>>>,
>;

/// The three parts of a line that holds a quoted directive.
#[derive(Debug, PartialEq, Eq)]
pub struct IncludeReference {
    pub leading_text: String,
    pub referenced_path: String,
    pub trailing_text: String,
}

/// The parts of a directive as character sequences.
pub ghost struct DirectiveParts {
    pub leading: Seq<char>,
    pub path: Seq<char>,
    pub trailing: Seq<char>,
}

impl View for IncludeReference {
    type V = DirectiveParts;

    open spec fn view(&self) -> DirectiveParts {
        DirectiveParts {
            leading: self.leading_text@,
            path: self.referenced_path@,
            trailing: self.trailing_text@,
        }
    }
}

/// The captured groups as character sequences.
pub open spec fn group_views(groups: Seq<Option<String>>) -> Seq<Option<Seq<char>>> {
    Seq::new(
        groups.len(),
        |i: int|
            match groups[i] {
                Some(text) => Some(text@),
                None => None,
            },
    )
}

/// The outcome of a match as character sequences.
pub open spec fn captures_view(captures: Option<Vec<Option<String>>>) -> Option<
    Seq<Option<Seq<char>>>,
> {
    match captures {
        Some(groups) => Some(group_views(groups@)),
        None => None,
    }
}

/// The parts that a match gives: groups one to three of a match with exactly
/// three groups that all took part in it.
pub open spec fn parts_of(captures: Option<Seq<Option<Seq<char>>>>) -> Option<DirectiveParts> {
    match captures {
        Some(groups) => if groups.len() == 4 && groups[1] is Some && groups[2] is Some
            && groups[3] is Some {
            Some(
                DirectiveParts {
                    leading: groups[1]->0,
                    path: groups[2]->0,
                    trailing: groups[3]->0,
                },
            )
        } else {
            None
        },
        None => None,
    }
}

/// The parts of `line` if it holds a quoted directive, else `None`.
pub open spec fn directive_parts(line: Seq<char>) -> Option<DirectiveParts> {
    parts_of(regex_captures(DIRECTIVE_PATTERN@, line))
}

/// The parts of an optional reference as character sequences.
pub open spec fn reference_view(reference: Option<IncludeReference>) -> Option<DirectiveParts> {
    match reference {
        Some(found) => Some(found@),
        None => None,
    }
}

/// Compiles `pattern` with `Regex::new` and matches it against `haystack`
/// with `Regex::captures`, copying the text of each group.
/// Trusted: what comes back is what `regex_captures` names.
#[verifier::external_body]
pub(crate) fn capture_groups(pattern: &str, haystack: &str) -> (captures: Option<
    Vec<Option<String>>,
>)
    ensures
        captures_view(captures) == regex_captures(pattern@, haystack@),
{
    match regex::Regex::new(pattern) {
        Ok(compiled) => compiled.captures(haystack).map(
            |found| found.iter().map(|group| group.map(|m| m.as_str().to_string())).collect(),
        ),
        Err(_) => None,
    }
}

/// Picks the three parts of a directive out of the groups of a match.
pub fn select_parts(captures: &Option<Vec<Option<String>>>) -> (reference: Option<
    IncludeReference,
>)
    ensures
        reference_view(reference) == parts_of(captures_view(*captures)),
{
    match captures {
        Some(groups) => {
            if groups.len() != 4 {
                return None;
            }
            match (&groups[1], &groups[2], &groups[3]) {
                (Some(leading), Some(path), Some(trailing)) => Some(
                    IncludeReference {
                        leading_text: leading.clone(),
                        referenced_path: path.clone(),
                        trailing_text: trailing.clone(),
                    },
                ),
                _ => None,
            }
        },
        None => None,
    }
}

/// Recognises a quoted directive in `line` and splits the line into its
/// three parts.
pub fn parse_directive(line: &str) -> (reference: Option<IncludeReference>)
    ensures
        reference_view(reference) == directive_parts(line@),
{
    let captures = capture_groups(DIRECTIVE_PATTERN, line);
    select_parts(&captures)
}

} // verus!
