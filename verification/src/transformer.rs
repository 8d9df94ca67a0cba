//! The path engine and the line scanner: resolving a referenced path against
//! the search directories, renaming it by the mapping rules, and rewriting
//! the directives of a text line by line.

use vstd::prelude::*;
use crate::text::{
    concat_text, join_lines, join_of_lines_is_content, join_path, join_with_newlines, joined_path,
    split_lines, split_once, strip_prefix, survives_splitting, text_lines, views,
};
use crate::directive::{directive_parts, parse_directive, DirectiveParts, IncludeReference};
use crate::laws::{first_candidate_from, unmatched_content_is_kept, unmatched_lines_are_kept};

verus! {

/// A mapping rule: a resolved path that starts with `src` is renamed to
/// start with `dst`.
#[derive(Debug, PartialEq, Eq)]
pub struct MapFile {
    pub src: String,
    pub dst: String,
}

/// The failure of a probe that could not carry out its check.
#[derive(Debug, PartialEq, Eq)]
pub struct ProbeError {
    pub message: String,
}

/// A mapping argument without a colon.
#[derive(Debug, PartialEq, Eq)]
pub struct ConfigError {
    pub argument: String,
}

/// Why a transformation failed.
#[derive(Debug, PartialEq, Eq)]
pub enum TransformError {
    /// No search directory holds the referenced path.
    Unresolved { path: String },
    /// The probe could not say whether a candidate exists.
    Probe(ProbeError),
}

/// A failure as plain data.
pub ghost enum Failure {
    Unresolved(Seq<char>),
    Probe(Seq<char>),
}

impl View for TransformError {
    type V = Failure;

    open spec fn view(&self) -> Failure {
        match self {
            TransformError::Unresolved { path } => Failure::Unresolved(path@),
            TransformError::Probe(error) => Failure::Probe(error.message@),
        }
    }
}

/// A text or a failure as plain data.
pub open spec fn outcome_view(outcome: Result<String, TransformError>) -> Result<
    Seq<char>,
    Failure,
> {
    match outcome {
        Ok(text) => Ok(text@),
        Err(error) => Err(error@),
    }
}

/// A sequence of lines or a failure as plain data.
pub open spec fn lines_outcome_view(outcome: Result<Vec<String>, TransformError>) -> Result<
    Seq<Seq<char>>,
    Failure,
> {
    match outcome {
        Ok(lines) => Ok(views(lines@)),
        Err(error) => Err(error@),
    }
}

/// Says whether a path exists on the backing store. "Not found" is the
/// answer `Ok(false)`; an error says that the check could not be made.
pub trait FileExistsCheck {
    /// Whether the probe can give `answer` when asked about `path`. A probe
    /// that says nothing of itself can give any answer, and need not answer
    /// the same question twice the same way.
    open spec fn may_answer(&self, path: Seq<char>, answer: Result<bool, Seq<char>>) -> bool {
        true
    }

    fn file_exists(&self, path: &str) -> (found: Result<bool, ProbeError>)
        ensures
            self.may_answer(path@, answer_view(found)),
    ;
}

/// The answer of a probe as plain data.
pub open spec fn answer_view(answer: Result<bool, ProbeError>) -> Result<bool, Seq<char>> {
    match answer {
        Ok(found) => Ok(found),
        Err(error) => Err(error.message@),
    }
}

/// A probe over a fixed list of paths: a path exists where the list holds
/// it, character for character, and the check never fails.
pub struct FixedFiles {
    pub files: Vec<String>,
}

impl FileExistsCheck for FixedFiles {
    open spec fn may_answer(&self, path: Seq<char>, answer: Result<bool, Seq<char>>) -> bool {
        answer == Ok::<bool, Seq<char>>(views(self.files@).contains(path))
    }

    fn file_exists(&self, path: &str) -> (found: Result<bool, ProbeError>) {
        let wanted = path.to_owned();
        let mut i: usize = 0;
        while i < self.files.len()
            invariant
                i <= self.files.len(),
                wanted@ == path@,
                forall|j: int| 0 <= j < i ==> views(self.files@)[j] != path@,
            decreases self.files.len() - i,
        {
            if self.files[i] == wanted {
                assert(views(self.files@)[i as int] == path@);
                return Ok(true);
            }
            i += 1;
        }
        Ok(false)
    }
}

impl MapFile {
    /// The rule is what the argument `argument` says: the source prefix up
    /// to the first colon, the destination prefix after it.
    pub open spec fn is_parsed_from(&self, argument: Seq<char>) -> bool {
        argument == self.src@ + seq![':'] + self.dst@ && !self.src@.contains(':')
    }

    /// Reads a rule from an argument of the form `src:dst`. An argument
    /// without a colon is refused and handed back.
    pub fn parse(argument: &str) -> (rule: Result<MapFile, ConfigError>)
        ensures
            rule is Ok <==> argument@.contains(':'),
            rule matches Ok(parsed) ==> parsed.is_parsed_from(argument@),
            rule matches Err(refused) ==> refused.argument@ == argument@,
    {
        match split_once(argument, ':') {
            Some((src, dst)) => {
                assert(argument@[src@.len() as int] == ':');
                Ok(MapFile { src: src.to_owned(), dst: dst.to_owned() })
            },
            None => Err(ConfigError { argument: argument.to_owned() }),
        }
    }

    /// Reads the rules from the arguments, in their order. The first
    /// argument without a colon is refused, and no rule is given out.
    pub fn parse_all(arguments: &Vec<String>) -> (rules: Result<Vec<MapFile>, ConfigError>)
        ensures
            match rules {
                Ok(parsed) => parsed@.len() == arguments@.len() && forall|i: int|
                    0 <= i < parsed@.len() ==> (#[trigger] parsed@[i]).is_parsed_from(
                        arguments@[i]@,
                    ),
                Err(refused) => exists|i: int|
                    0 <= i < arguments@.len() && refused.argument@ == (#[trigger] arguments@[i])@
                        && !arguments@[i]@.contains(':') && forall|j: int|
                        0 <= j < i ==> (#[trigger] arguments@[j])@.contains(':'),
            },
    {
        let mut parsed: Vec<MapFile> = Vec::new();
        let mut i: usize = 0;
        while i < arguments.len()
            invariant
                i <= arguments.len(),
                parsed@.len() == i,
                forall|j: int|
                    0 <= j < i ==> (#[trigger] parsed@[j]).is_parsed_from(arguments@[j]@),
                forall|j: int| 0 <= j < i ==> (#[trigger] arguments@[j])@.contains(':'),
            decreases arguments.len() - i,
        {
            match MapFile::parse(arguments[i].as_str()) {
                Ok(rule) => {
                    parsed.push(rule);
                },
                Err(refused) => {
                    return Err(refused);
                },
            }
            i += 1;
        }
        Ok(parsed)
    }

    /// The rule applies to the paths that start with its source prefix.
    pub open spec fn applies_to(&self, resolved: Seq<char>) -> bool {
        self.src@.is_prefix_of(resolved)
    }

    /// The destination prefix, followed by what comes after the source
    /// prefix in `resolved`.
    pub open spec fn renamed(&self, resolved: Seq<char>) -> Seq<char> {
        self.dst@ + resolved.skip(self.src@.len() as int)
    }

    /// The renamed path where the rule applies to `resolved`, else `None`.
    pub fn apply(&self, resolved: &str) -> (candidate: Option<String>)
        ensures
            candidate is Some <==> self.applies_to(resolved@),
            candidate matches Some(text) ==> text@ == self.renamed(resolved@),
    {
        match strip_prefix(resolved, self.src.as_str()) {
            Some(suffix) => Some(concat_text(self.dst.as_str(), suffix)),
            None => None,
        }
    }
}

/// What one answer of the probe means for a search: with `Ok(true)` the
/// candidate is the resolved path, with `Ok(false)` the search goes on, and
/// a failure of the probe ends it.
pub fn settle(candidate: String, answer: Result<bool, ProbeError>) -> (verdict: Option<
    Result<String, TransformError>,
>)
    ensures
        match answer {
            Ok(found) => if found {
                verdict == Some(Ok::<String, TransformError>(candidate))
            } else {
                verdict is None
            },
            Err(error) => verdict == Some(
                Err::<String, TransformError>(TransformError::Probe(error)),
            ),
        },
{
    match answer {
        Ok(found) => if found {
            Some(Ok(candidate))
        } else {
            None
        },
        Err(error) => Some(Err(TransformError::Probe(error))),
    }
}

/// The engine with its configuration: the search directories and the mapping
/// rules, both in order of priority, the policy for paths that no directory
/// holds, and the probe.
pub struct Transformer {
    pub keep_going: bool,
    pub search_dirs: Vec<String>,
    pub map: Vec<MapFile>,
    pub checker: Box<dyn FileExistsCheck>,
}

impl Transformer {
    /// The path that `path` would have under the search directory at `i`.
    pub open spec fn candidate(&self, i: int, path: Seq<char>) -> Seq<char> {
        joined_path(self.search_dirs@[i]@, path)
    }

    /// The probe can give `answer` when asked about `path` under the search
    /// directory at `i`.
    pub open spec fn probed(&self, i: int, path: Seq<char>, answer: Result<bool, Seq<char>>)
        -> bool {
        self.checker.may_answer(self.candidate(i, path), answer)
    }

    /// The probe can find `path` absent under each of the first `count`
    /// search directories.
    pub open spec fn may_miss(&self, path: Seq<char>, count: int) -> bool {
        forall|j: int| 0 <= j < count ==> #[trigger] self.probed(j, path, Ok(false))
    }

    /// The search for `path` can come to the directory at `i` and get
    /// `answer` there: the probe can find `path` absent under every
    /// directory before it.
    pub open spec fn decided_at(&self, path: Seq<char>, i: int, answer: Result<bool, Seq<char>>)
        -> bool {
        0 <= i < self.search_dirs@.len() && self.may_miss(path, i) && self.probed(i, path, answer)
    }

    /// The search for `path` can end with `resolved`: it is the candidate
    /// of a directory to which the search can come and under which the probe
    /// can find `path`.
    pub open spec fn can_resolve_to(&self, path: Seq<char>, resolved: Seq<char>) -> bool {
        exists|i: int| #[trigger]
            self.decided_at(path, i, Ok(true)) && resolved == self.candidate(i, path)
    }

    /// The search for `path` can end with the probe's failure `message`.
    pub open spec fn can_fail_with(&self, path: Seq<char>, message: Seq<char>) -> bool {
        exists|i: int| #[trigger] self.decided_at(path, i, Err(message))
    }

    /// The outcomes that resolving `path` can have: the candidate of the
    /// first directory under which the probe finds it, or the failure of the
    /// probe where that comes first; unresolved, with `path` itself, where
    /// the probe finds it absent under every directory.
    pub open spec fn possible_resolution(
        &self,
        path: Seq<char>,
        outcome: Result<Seq<char>, Failure>,
    ) -> bool {
        match outcome {
            Ok(resolved) => self.can_resolve_to(path, resolved),
            Err(Failure::Unresolved(missing)) => missing == path && self.may_miss(
                path,
                self.search_dirs@.len() as int,
            ),
            Err(Failure::Probe(message)) => self.can_fail_with(path, message),
        }
    }

    /// Under no search directory can the probe answer anything for `path`
    /// but that it is absent.
    pub open spec fn never_found(&self, path: Seq<char>) -> bool {
        forall|i: int, answer: Result<bool, Seq<char>>|
            0 <= i < self.search_dirs@.len() && #[trigger] self.probed(i, path, answer) ==> answer
                == Ok::<bool, Seq<char>>(false)
    }

    /// The probe has one answer for each path.
    pub open spec fn probe_is_settled(&self) -> bool {
        forall|path: Seq<char>, one: Result<bool, Seq<char>>, other: Result<bool, Seq<char>>|
            #[trigger] self.checker.may_answer(path, one) && #[trigger] self.checker.may_answer(
                path,
                other,
            ) ==> one == other
    }

    /// Mapping over the rules from `start` on: the renaming by the first rule
    /// that applies to `resolved`, and `path` itself where none does.
    pub open spec fn map_from(&self, path: Seq<char>, resolved: Seq<char>, start: int) -> Seq<char>
        decreases self.map@.len() - start,
    {
        if start < 0 || start >= self.map@.len() {
            path
        } else if self.map@[start].applies_to(resolved) {
            self.map@[start].renamed(resolved)
        } else {
            self.map_from(path, resolved, start + 1)
        }
    }

    /// The renamings of `resolved` by the rules from `start` on that apply to
    /// it, in the order of the rules.
    pub open spec fn candidates_from(&self, resolved: Seq<char>, start: int) -> Seq<Seq<char>>
        decreases self.map@.len() - start,
    {
        if start < 0 || start >= self.map@.len() {
            Seq::empty()
        } else if self.map@[start].applies_to(resolved) {
            seq![self.map@[start].renamed(resolved)] + self.candidates_from(resolved, start + 1)
        } else {
            self.candidates_from(resolved, start + 1)
        }
    }

    /// Every renaming of `resolved` that a rule gives, in the order of the
    /// rules: the first is the one that counts, the others are alternatives
    /// worth a warning.
    pub open spec fn candidates(&self, resolved: Seq<char>) -> Seq<Seq<char>> {
        self.candidates_from(resolved, 0)
    }

    /// What the reference `path` is rewritten to, given what it resolved to.
    pub open spec fn mapped(&self, path: Seq<char>, resolved: Seq<char>) -> Seq<char> {
        self.map_from(path, resolved, 0)
    }

    /// What the reference `path` is rewritten to, given how its resolution
    /// ended.
    pub open spec fn rewritten(&self, path: Seq<char>, resolution: Result<Seq<char>, Failure>)
        -> Result<Seq<char>, Failure> {
        match resolution {
            Ok(resolved) => Ok(self.mapped(path, resolved)),
            Err(failure) => Err(failure),
        }
    }

    /// The outcomes that rewriting the reference `path` can have.
    pub open spec fn possible_rewrite(&self, path: Seq<char>, outcome: Result<Seq<char>, Failure>)
        -> bool {
        exists|resolution: Result<Seq<char>, Failure>|
            self.possible_resolution(path, resolution) && outcome == #[trigger] self.rewritten(
                path,
                resolution,
            )
    }

    /// What becomes of a line with the directive `parts`, given how the
    /// rewriting of its path ended. An unresolved path leaves the line as it
    /// is under `keep_going`; a failure of the probe is never passed over.
    pub open spec fn finished(
        &self,
        line: Seq<char>,
        parts: DirectiveParts,
        rewrite: Result<Seq<char>, Failure>,
    ) -> Result<Seq<char>, Failure> {
        match rewrite {
            Ok(new_path) => Ok(parts.leading + new_path + parts.trailing),
            Err(Failure::Unresolved(path)) => if self.keep_going {
                Ok(line)
            } else {
                Err(Failure::Unresolved(path))
            },
            Err(Failure::Probe(message)) => Err(Failure::Probe(message)),
        }
    }

    /// The outcomes that rewriting `line` can have: a line without a quoted
    /// directive stays as it is.
    pub open spec fn possible_line(&self, line: Seq<char>, outcome: Result<Seq<char>, Failure>)
        -> bool {
        match directive_parts(line) {
            None => outcome == Ok::<Seq<char>, Failure>(line),
            Some(parts) => exists|rewrite: Result<Seq<char>, Failure>|
                self.possible_rewrite(parts.path, rewrite) && outcome == #[trigger] self.finished(
                    line,
                    parts,
                    rewrite,
                ),
        }
    }

    /// Each of `new_lines` is a possible outcome of the line in its place.
    pub open spec fn passes(&self, lines: Seq<Seq<char>>, new_lines: Seq<Seq<char>>) -> bool {
        new_lines.len() == lines.len() && forall|i: int|
            0 <= i < lines.len() ==> #[trigger] self.possible_line(lines[i], Ok(new_lines[i]))
    }

    /// Every one of `lines` has a possible outcome that is no failure.
    pub open spec fn can_pass(&self, lines: Seq<Seq<char>>) -> bool {
        exists|new_lines: Seq<Seq<char>>| #[trigger] self.passes(lines, new_lines)
    }

    /// The outcomes that rewriting `lines` can have: as many lines, each a
    /// possible outcome of the line in its place, or a possible failure of
    /// one line, where every line before it has an outcome that is none.
    pub open spec fn possible_lines(
        &self,
        lines: Seq<Seq<char>>,
        outcome: Result<Seq<Seq<char>>, Failure>,
    ) -> bool {
        match outcome {
            Ok(new_lines) => self.passes(lines, new_lines),
            Err(failure) => exists|i: int|
                0 <= i < lines.len() && #[trigger] self.possible_line(lines[i], Err(failure))
                    && self.can_pass(lines.take(i)),
        }
    }

    /// The outcomes that rewriting a whole text can have.
    pub open spec fn possible_content(&self, content: Seq<char>, outcome: Result<Seq<char>, Failure>)
        -> bool {
        match outcome {
            Ok(text) => exists|new_lines: Seq<Seq<char>>| #[trigger]
                self.possible_lines(text_lines(content), Ok(new_lines)) && text == join_lines(
                    new_lines,
                ),
            Err(failure) => self.possible_lines(text_lines(content), Err(failure)),
        }
    }

    /// Resolves `path` against the search directories in order. The first
    /// directory under which the probe finds the path decides, and no later
    /// one is asked about; a failure of the probe ends the search at once.
    /// With no directory left the path is unresolved.
    pub fn resolve_path(&self, path: &str) -> (resolved: Result<String, TransformError>)
        ensures
            self.possible_resolution(path@, outcome_view(resolved)),
            self.search_dirs@.len() == 0 ==> outcome_view(resolved) == Err::<Seq<char>, Failure>(
                Failure::Unresolved(path@),
            ),
    {
        let mut i: usize = 0;
        while i < self.search_dirs.len()
            invariant
                i <= self.search_dirs.len(),
                self.may_miss(path@, i as int),
            decreases self.search_dirs.len() - i,
        {
            let candidate = join_path(self.search_dirs[i].as_str(), path);
            let answer = self.checker.file_exists(candidate.as_str());
            let ghost answered = answer_view(answer);
            assert(self.decided_at(path@, i as int, answered));
            match settle(candidate, answer) {
                Some(verdict) => {
                    return verdict;
                },
                None => {},
            }
            i += 1;
        }
        Err(TransformError::Unresolved { path: path.to_owned() })
    }

    /// Collects the renamings of `resolved` by all the rules that apply to
    /// it, in the order of the rules.
    pub fn map_candidates(&self, resolved: &str) -> (found: Vec<String>)
        ensures
            views(found@) == self.candidates(resolved@),
            found@.len() == self.candidates(resolved@).len(),
    {
        let mut found: Vec<String> = Vec::new();
        let mut i: usize = 0;
        assert(views(found@) + self.candidates_from(resolved@, 0) =~= self.candidates(resolved@));
        while i < self.map.len()
            invariant
                i <= self.map.len(),
                self.candidates(resolved@) == views(found@) + self.candidates_from(
                    resolved@,
                    i as int,
                ),
            decreases self.map.len() - i,
        {
            let ghost before = views(found@);
            match self.map[i].apply(resolved) {
                Some(candidate) => {
                    found.push(candidate);
                    assert(views(found@) =~= before.push(candidate@));
                    assert(views(found@) + self.candidates_from(resolved@, i + 1) =~= before
                        + self.candidates_from(resolved@, i as int));
                },
                None => {},
            }
            i += 1;
        }
        assert(views(found@) + Seq::<Seq<char>>::empty() =~= views(found@));
        found
    }

    /// Renames `resolved` by the first mapping rule that applies to it,
    /// whatever other rules apply as well. Where none applies, the reference
    /// keeps its spelling `path`.
    pub fn map_resolved(&self, path: &str, resolved: &str) -> (new_path: String)
        ensures
            new_path@ == self.mapped(path@, resolved@),
    {
        let found = self.map_candidates(resolved);
        proof {
            first_candidate_from(self, path@, resolved@, 0);
        }
        if found.len() == 0 {
            path.to_owned()
        } else {
            assert(views(found@)[0] == found@[0]@);
            found[0].clone()
        }
    }

    /// Resolves the referenced `path` and renames what it resolved to.
    /// Fails only where the resolution fails.
    pub fn transform_path(&self, path: &str) -> (new_path: Result<String, TransformError>)
        ensures
            self.possible_rewrite(path@, outcome_view(new_path)),
            self.search_dirs@.len() == 0 ==> outcome_view(new_path) == Err::<Seq<char>, Failure>(
                Failure::Unresolved(path@),
            ),
    {
        let resolution = self.resolve_path(path);
        let ghost before = outcome_view(resolution);
        let new_path = match resolution {
            Ok(resolved) => Ok(self.map_resolved(path, resolved.as_str())),
            Err(error) => Err(error),
        };
        assert(outcome_view(new_path) == self.rewritten(path@, before));
        new_path
    }

    /// Puts a line with a directive together again, given how the rewriting
    /// of its path ended.
    pub fn finish_line(
        &self,
        line: &str,
        reference: &IncludeReference,
        rewrite: Result<String, TransformError>,
    ) -> (new_line: Result<String, TransformError>)
        ensures
            outcome_view(new_line) == self.finished(line@, reference@, outcome_view(rewrite)),
    {
        match rewrite {
            Ok(new_path) => {
                let head = concat_text(reference.leading_text.as_str(), new_path.as_str());
                Ok(concat_text(head.as_str(), reference.trailing_text.as_str()))
            },
            Err(TransformError::Unresolved { path }) => {
                if self.keep_going {
                    Ok(line.to_owned())
                } else {
                    Err(TransformError::Unresolved { path })
                }
            },
            Err(TransformError::Probe(error)) => Err(TransformError::Probe(error)),
        }
    }

    /// Rewrites one line: a line without a quoted directive comes back as it
    /// is, one with a directive has the path between its quotes rewritten.
    pub fn transform_line(&self, line: &str) -> (new_line: Result<String, TransformError>)
        ensures
            self.possible_line(line@, outcome_view(new_line)),
            directive_parts(line@) is None ==> outcome_view(new_line) == Ok::<Seq<char>, Failure>(
                line@,
            ),
    {
        match parse_directive(line) {
            None => Ok(line.to_owned()),
            Some(reference) => {
                let rewrite = self.transform_path(reference.referenced_path.as_str());
                let ghost before = outcome_view(rewrite);
                let new_line = self.finish_line(line, &reference, rewrite);
                assert(outcome_view(new_line) == self.finished(line@, reference@, before));
                new_line
            },
        }
    }

    /// Rewrites the lines in order. The first line that fails ends the work,
    /// and nothing is given out.
    pub fn transform_lines(&self, lines: &Vec<String>) -> (new_lines: Result<
        Vec<String>,
        TransformError,
    >)
        ensures
            self.possible_lines(views(lines@), lines_outcome_view(new_lines)),
            new_lines matches Ok(rewritten) ==> rewritten@.len() == lines@.len(),
            (forall|i: int| 0 <= i < lines@.len() ==> directive_parts(#[trigger] lines@[i]@) is None)
                ==> lines_outcome_view(new_lines) == Ok::<Seq<Seq<char>>, Failure>(views(lines@)),
    {
        let mut new_lines: Vec<String> = Vec::new();
        let mut i: usize = 0;
        while i < lines.len()
            invariant
                i <= lines.len(),
                self.possible_lines(
                    views(lines@).take(i as int),
                    Ok::<Seq<Seq<char>>, Failure>(views(new_lines@)),
                ),
            decreases lines.len() - i,
        {
            let ghost done = views(new_lines@);
            assert(self.passes(views(lines@).take(i as int), done));
            match self.transform_line(lines[i].as_str()) {
                Ok(new_line) => {
                    new_lines.push(new_line);
                    proof {
                        let before = views(lines@).take(i as int);
                        let after = views(lines@).take(i + 1);
                        let now = views(new_lines@);
                        assert(now =~= done.push(new_line@));
                        assert forall|j: int| 0 <= j < after.len() implies #[trigger]
                            self.possible_line(after[j], Ok(now[j])) by {
                            if j < i {
                                assert(self.possible_line(before[j], Ok(done[j])));
                            }
                        }
                    }
                },
                Err(error) => {
                    proof {
                        let all = views(lines@);
                        assert(self.possible_line(all[i as int], Err(error@)));
                        assert(self.possible_lines(all, Err(error@)));
                        if forall|j: int| 0 <= j < all.len() ==> directive_parts(#[trigger] all[j])
                            is None {
                            unmatched_lines_are_kept(self, all, Err(error@));
                        }
                    }
                    return Err(error);
                },
            }
            i += 1;
        }
        proof {
            let all = views(lines@);
            assert(all.take(lines.len() as int) =~= all);
            if forall|j: int| 0 <= j < all.len() ==> directive_parts(#[trigger] all[j]) is None {
                unmatched_lines_are_kept(self, all, Ok(views(new_lines@)));
            }
        }
        Ok(new_lines)
    }

    /// Rewrites the quoted directives of `content`, line by line, and joins
    /// the lines with one newline between each two.
    pub fn transform(&self, content: &str) -> (new_content: Result<String, TransformError>)
        ensures
            self.possible_content(content@, outcome_view(new_content)),
            (forall|i: int|
                0 <= i < text_lines(content@).len() ==> directive_parts(
                    #[trigger] text_lines(content@)[i],
                ) is None) ==> outcome_view(new_content) == Ok::<Seq<char>, Failure>(
                join_lines(text_lines(content@)),
            ) && (survives_splitting(content@) ==> outcome_view(new_content) == Ok::<
                Seq<char>,
                Failure,
            >(content@)),
    {
        let lines = split_lines(content);
        let new_content = match self.transform_lines(&lines) {
            Ok(new_lines) => {
                assert(self.possible_lines(text_lines(content@), Ok(views(new_lines@))));
                Ok(join_with_newlines(&new_lines))
            },
            Err(error) => Err(error),
        };
        proof {
            if forall|i: int|
                0 <= i < text_lines(content@).len() ==> directive_parts(
                    #[trigger] text_lines(content@)[i],
                ) is None {
                unmatched_content_is_kept(self, content@, outcome_view(new_content));
                if survives_splitting(content@) {
                    join_of_lines_is_content(content@);
                }
            }
        }
        new_content
    }
}

} // verus!
