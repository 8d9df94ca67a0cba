//! What holds of the engine for every configuration and every input.

use vstd::prelude::*;
use crate::text::{join_lines, join_of_lines_is_content, survives_splitting, text_lines};
use crate::directive::{directive_parts, DirectiveParts};
use crate::transformer::{Failure, Transformer};

verus! {

/// A line without a quoted directive has one possible outcome: the line
/// itself.
pub proof fn unmatched_line_is_kept(
    engine: &Transformer,
    line: Seq<char>,
    outcome: Result<Seq<char>, Failure>,
)
    requires
        directive_parts(line) is None,
        engine.possible_line(line, outcome),
    ensures
        outcome == Ok::<Seq<char>, Failure>(line),
{
}

/// Lines of which none has a quoted directive have one possible outcome:
/// the same lines.
pub proof fn unmatched_lines_are_kept(
    engine: &Transformer,
    lines: Seq<Seq<char>>,
    outcome: Result<Seq<Seq<char>>, Failure>,
)
    requires
        forall|i: int| 0 <= i < lines.len() ==> directive_parts(#[trigger] lines[i]) is None,
        engine.possible_lines(lines, outcome),
    ensures
        outcome == Ok::<Seq<Seq<char>>, Failure>(lines),
{
    match outcome {
        Ok(new_lines) => {
            assert forall|i: int| 0 <= i < lines.len() implies new_lines[i] == lines[i] by {
                assert(engine.possible_line(lines[i], Ok(new_lines[i])));
            }
            assert(new_lines =~= lines);
        },
        Err(failure) => {
            let i = choose|i: int|
                0 <= i < lines.len() && #[trigger] engine.possible_line(lines[i], Err(failure));
            assert(directive_parts(lines[i]) is None);
        },
    }
}

/// A text of which no line has a quoted directive has one possible outcome:
/// its lines, joined by newlines.
pub proof fn unmatched_content_is_kept(
    engine: &Transformer,
    content: Seq<char>,
    outcome: Result<Seq<char>, Failure>,
)
    requires
        forall|i: int|
            0 <= i < text_lines(content).len() ==> directive_parts(
                #[trigger] text_lines(content)[i],
            ) is None,
        engine.possible_content(content, outcome),
    ensures
        outcome == Ok::<Seq<char>, Failure>(join_lines(text_lines(content))),
{
    let lines = text_lines(content);
    match outcome {
        Ok(text) => {
            let new_lines = choose|new_lines: Seq<Seq<char>>| #[trigger]
                engine.possible_lines(lines, Ok(new_lines)) && text == join_lines(new_lines);
            unmatched_lines_are_kept(engine, lines, Ok(new_lines));
        },
        Err(failure) => {
            unmatched_lines_are_kept(engine, lines, Err(failure));
        },
    }
}

/// Rewriting a text of which no line has a quoted directive, which does not
/// end with a newline and has no carriage return before a newline, gives the
/// text back.
pub proof fn unmatched_content_round_trip(
    engine: &Transformer,
    content: Seq<char>,
    outcome: Result<Seq<char>, Failure>,
)
    requires
        forall|i: int|
            0 <= i < text_lines(content).len() ==> directive_parts(
                #[trigger] text_lines(content)[i],
            ) is None,
        survives_splitting(content),
        engine.possible_content(content, outcome),
    ensures
        outcome == Ok::<Seq<char>, Failure>(content),
{
    unmatched_content_is_kept(engine, content, outcome);
    join_of_lines_is_content(content);
}

/// Where no rule from `start` on applies to the resolved path, mapping from
/// there gives the reference back in its own spelling.
pub proof fn unmapped_from(engine: &Transformer, path: Seq<char>, resolved: Seq<char>, start: int)
    requires
        0 <= start,
        forall|i: int| start <= i < engine.map@.len() ==> !(#[trigger] engine.map@[i]).applies_to(
            resolved,
        ),
    ensures
        engine.map_from(path, resolved, start) == path,
    decreases engine.map@.len() - start,
{
    if start < engine.map@.len() {
        unmapped_from(engine, path, resolved, start + 1);
    }
}

/// A reference whose resolved path no mapping rule applies to is rewritten
/// to itself, character for character.
pub proof fn unmapped_path_is_kept(engine: &Transformer, path: Seq<char>, resolved: Seq<char>)
    requires
        forall|i: int| 0 <= i < engine.map@.len() ==> !(#[trigger] engine.map@[i]).applies_to(
            resolved,
        ),
    ensures
        engine.mapped(path, resolved) == path,
{
    unmapped_from(engine, path, resolved, 0);
}

/// Mapping from `start` on is decided by the rule at `first`, where that
/// rule applies and none between the two does.
pub proof fn first_applicable_from(
    engine: &Transformer,
    path: Seq<char>,
    resolved: Seq<char>,
    start: int,
    first: int,
)
    requires
        0 <= start <= first < engine.map@.len(),
        engine.map@[first].applies_to(resolved),
        forall|i: int| start <= i < first ==> !(#[trigger] engine.map@[i]).applies_to(resolved),
    ensures
        engine.map_from(path, resolved, start) == engine.map@[first].renamed(resolved),
    decreases first - start,
{
    if start < first {
        first_applicable_from(engine, path, resolved, start + 1, first);
    }
}

/// Of the rules that apply to a resolved path the one listed first decides,
/// however many apply after it: the reference is rewritten to that rule's
/// destination prefix, followed by what comes after its source prefix in the
/// resolved path.
pub proof fn first_applicable_rule_decides(
    engine: &Transformer,
    path: Seq<char>,
    resolved: Seq<char>,
    first: int,
)
    requires
        0 <= first < engine.map@.len(),
        engine.map@[first].applies_to(resolved),
        forall|i: int| 0 <= i < first ==> !(#[trigger] engine.map@[i]).applies_to(resolved),
    ensures
        engine.mapped(path, resolved) == engine.map@[first].dst@ + resolved.skip(
            engine.map@[first].src@.len() as int,
        ),
{
    first_applicable_from(engine, path, resolved, 0, first);
}

/// Where exactly one rule applies to a resolved path, the reference is
/// rewritten to that rule's destination prefix, followed by what comes after
/// its source prefix in the resolved path.
pub proof fn single_applicable_rule_decides(
    engine: &Transformer,
    path: Seq<char>,
    resolved: Seq<char>,
    only: int,
)
    requires
        0 <= only < engine.map@.len(),
        forall|i: int|
            0 <= i < engine.map@.len() ==> ((#[trigger] engine.map@[i]).applies_to(resolved) <==> i
                == only),
    ensures
        engine.mapped(path, resolved) == engine.map@[only].dst@ + resolved.skip(
            engine.map@[only].src@.len() as int,
        ),
{
    first_applicable_rule_decides(engine, path, resolved, only);
}

/// Mapping from `start` on gives the first of the candidates from there
/// on, and the reference itself where there is none.
pub proof fn first_candidate_from(
    engine: &Transformer,
    path: Seq<char>,
    resolved: Seq<char>,
    start: int,
)
    requires
        0 <= start,
    ensures
        engine.map_from(path, resolved, start) == if engine.candidates_from(resolved, start).len()
            == 0 {
            path
        } else {
            engine.candidates_from(resolved, start)[0]
        },
    decreases engine.map@.len() - start,
{
    if start < engine.map@.len() {
        first_candidate_from(engine, path, resolved, start + 1);
    }
}

/// Of all the candidates that the rules give for a resolved path, the first
/// is what the reference is rewritten to; the others change nothing.
pub proof fn first_candidate_decides(engine: &Transformer, path: Seq<char>, resolved: Seq<char>)
    ensures
        engine.mapped(path, resolved) == if engine.candidates(resolved).len() == 0 {
            path
        } else {
            engine.candidates(resolved)[0]
        },
{
    first_candidate_from(engine, path, resolved, 0);
}

/// Under `keep_going` a line whose path is unresolved comes out as it went
/// in.
pub proof fn unresolved_line_is_kept(
    engine: &Transformer,
    line: Seq<char>,
    parts: DirectiveParts,
    path: Seq<char>,
)
    requires
        engine.keep_going,
    ensures
        engine.finished(line, parts, Err(Failure::Unresolved(path))) == Ok::<Seq<char>, Failure>(
            line,
        ),
{
}

/// Under `keep_going` no unresolved path ends the work on a sequence of
/// lines: only a failure of the probe can.
pub proof fn unresolved_never_ends_the_work(
    engine: &Transformer,
    lines: Seq<Seq<char>>,
    outcome: Result<Seq<Seq<char>>, Failure>,
)
    requires
        engine.keep_going,
        engine.possible_lines(lines, outcome),
    ensures
        outcome is Ok || outcome matches Err(Failure::Probe(_)),
{
}

/// Without `keep_going` a line whose path is unresolved fails with that
/// path, and no line is given out for it.
pub proof fn unresolved_line_fails(
    engine: &Transformer,
    line: Seq<char>,
    parts: DirectiveParts,
    path: Seq<char>,
)
    requires
        !engine.keep_going,
    ensures
        engine.finished(line, parts, Err(Failure::Unresolved(path))) == Err::<Seq<char>, Failure>(
            Failure::Unresolved(path),
        ),
{
}

/// A path that the probe can find under no search directory has one
/// possible resolution: unresolved.
pub proof fn never_found_is_unresolved(
    engine: &Transformer,
    path: Seq<char>,
    outcome: Result<Seq<char>, Failure>,
)
    requires
        engine.never_found(path),
        engine.possible_resolution(path, outcome),
    ensures
        outcome == Err::<Seq<char>, Failure>(Failure::Unresolved(path)),
{
    let end = decisive(engine, path, outcome);
}

/// A line whose directive names a path that the probe can find under no
/// search directory has one possible outcome: under `keep_going` the line
/// as it is, else the failure that carries the path.
pub proof fn unresolvable_line_outcome(
    engine: &Transformer,
    line: Seq<char>,
    outcome: Result<Seq<char>, Failure>,
)
    requires
        directive_parts(line) is Some,
        engine.never_found(directive_parts(line)->0.path),
        engine.possible_line(line, outcome),
    ensures
        outcome == if engine.keep_going {
            Ok::<Seq<char>, Failure>(line)
        } else {
            Err(Failure::Unresolved(directive_parts(line)->0.path))
        },
{
    let parts = directive_parts(line)->0;
    let rewrite = choose|rewrite: Result<Seq<char>, Failure>|
        engine.possible_rewrite(parts.path, rewrite) && outcome == #[trigger] engine.finished(
            line,
            parts,
            rewrite,
        );
    let resolution = choose|resolution: Result<Seq<char>, Failure>|
        engine.possible_resolution(parts.path, resolution) && rewrite
            == #[trigger] engine.rewritten(parts.path, resolution);
    never_found_is_unresolved(engine, parts.path, resolution);
}

/// Under `keep_going`, where the lines are rewritten, a line whose path
/// cannot be resolved stands in its place unchanged.
pub proof fn unresolvable_line_is_kept(
    engine: &Transformer,
    lines: Seq<Seq<char>>,
    new_lines: Seq<Seq<char>>,
    at: int,
)
    requires
        engine.keep_going,
        0 <= at < lines.len(),
        directive_parts(lines[at]) is Some,
        engine.never_found(directive_parts(lines[at])->0.path),
        engine.possible_lines(lines, Ok(new_lines)),
    ensures
        new_lines.len() == lines.len(),
        new_lines[at] == lines[at],
{
    assert(engine.possible_line(lines[at], Ok(new_lines[at])));
    unresolvable_line_outcome(engine, lines[at], Ok(new_lines[at]));
}

/// Without `keep_going`, lines of which one has a path that cannot be
/// resolved have no outcome but a failure: no line is given out.
pub proof fn unresolvable_directive_fails(
    engine: &Transformer,
    lines: Seq<Seq<char>>,
    outcome: Result<Seq<Seq<char>>, Failure>,
    at: int,
)
    requires
        !engine.keep_going,
        0 <= at < lines.len(),
        directive_parts(lines[at]) is Some,
        engine.never_found(directive_parts(lines[at])->0.path),
        engine.possible_lines(lines, outcome),
    ensures
        outcome is Err,
{
    if let Ok(new_lines) = outcome {
        assert(engine.possible_line(lines[at], Ok(new_lines[at])));
        unresolvable_line_outcome(engine, lines[at], Ok(new_lines[at]));
    }
}

/// A reference that resolves, and to whose possible resolved paths no
/// mapping rule applies, is rewritten to itself.
pub proof fn resolved_unmapped_reference_is_kept(
    engine: &Transformer,
    path: Seq<char>,
    new_path: Seq<char>,
)
    requires
        engine.possible_rewrite(path, Ok(new_path)),
        forall|d: int, i: int|
            0 <= d < engine.search_dirs@.len() && 0 <= i < engine.map@.len() ==> !(
            #[trigger] engine.map@[i]).applies_to(#[trigger] engine.candidate(d, path)),
    ensures
        new_path == path,
{
    let resolution = choose|resolution: Result<Seq<char>, Failure>|
        engine.possible_resolution(path, resolution) && Ok::<Seq<char>, Failure>(new_path)
            == #[trigger] engine.rewritten(path, resolution);
    let resolved = resolution->Ok_0;
    let end = decisive(engine, path, resolution);
    unmapped_path_is_kept(engine, path, resolved);
}

/// With a probe that has one answer for each path, resolving a path has
/// one outcome: the first directory for which the probe does not answer
/// "absent" decides.
pub proof fn resolution_is_determined(
    engine: &Transformer,
    path: Seq<char>,
    one: Result<Seq<char>, Failure>,
    other: Result<Seq<char>, Failure>,
)
    requires
        engine.probe_is_settled(),
        engine.possible_resolution(path, one),
        engine.possible_resolution(path, other),
    ensures
        one == other,
{
    let (i, a) = decisive(engine, path, one);
    let (j, b) = decisive(engine, path, other);
    if i < j {
        assert(engine.probed(i, path, Ok(false)));
    } else if j < i {
        assert(engine.probed(j, path, Ok(false)));
    }
}

/// Where a resolution ends: the directory that decided it with the probe's
/// answer there, or the number of directories, with "absent", where none
/// did.
pub proof fn decisive(engine: &Transformer, path: Seq<char>, outcome: Result<Seq<char>, Failure>)
    -> (end: (int, Result<bool, Seq<char>>))
    requires
        engine.possible_resolution(path, outcome),
    ensures
        0 <= end.0 <= engine.search_dirs@.len(),
        engine.may_miss(path, end.0),
        end.0 < engine.search_dirs@.len() ==> engine.probed(end.0, path, end.1) && end.1 != Ok::<
            bool,
            Seq<char>,
        >(false),
        outcome == match end.1 {
            Ok(found) => if end.0 < engine.search_dirs@.len() {
                Ok::<Seq<char>, Failure>(engine.candidate(end.0, path))
            } else {
                Err(Failure::Unresolved(path))
            },
            Err(message) => Err(Failure::Probe(message)),
        },
        end.0 == engine.search_dirs@.len() ==> end.1 == Ok::<bool, Seq<char>>(false),
{
    match outcome {
        Ok(resolved) => {
            let i = choose|i: int| #[trigger]
                engine.decided_at(path, i, Ok(true)) && resolved == engine.candidate(i, path);
            (i, Ok(true))
        },
        Err(Failure::Unresolved(missing)) => (engine.search_dirs@.len() as int, Ok(false)),
        Err(Failure::Probe(message)) => {
            let i = choose|i: int| #[trigger] engine.decided_at(path, i, Err(message));
            (i, Err(message))
        },
    }
}

/// With a probe that has one answer for each path, rewriting a line has one
/// outcome.
pub proof fn line_is_determined(
    engine: &Transformer,
    line: Seq<char>,
    one: Result<Seq<char>, Failure>,
    other: Result<Seq<char>, Failure>,
)
    requires
        engine.probe_is_settled(),
        engine.possible_line(line, one),
        engine.possible_line(line, other),
    ensures
        one == other,
{
    if let Some(parts) = directive_parts(line) {
        let first = choose|rewrite: Result<Seq<char>, Failure>|
            engine.possible_rewrite(parts.path, rewrite) && one == #[trigger] engine.finished(
                line,
                parts,
                rewrite,
            );
        let second = choose|rewrite: Result<Seq<char>, Failure>|
            engine.possible_rewrite(parts.path, rewrite) && other == #[trigger] engine.finished(
                line,
                parts,
                rewrite,
            );
        let found = choose|resolution: Result<Seq<char>, Failure>|
            engine.possible_resolution(parts.path, resolution) && first
                == #[trigger] engine.rewritten(parts.path, resolution);
        let again = choose|resolution: Result<Seq<char>, Failure>|
            engine.possible_resolution(parts.path, resolution) && second
                == #[trigger] engine.rewritten(parts.path, resolution);
        resolution_is_determined(engine, parts.path, found, again);
    }
}

/// With a probe that has one answer for each path, rewriting a sequence of
/// lines has one outcome: every line rewritten, or the failure of the first
/// line that fails.
pub proof fn lines_are_determined(
    engine: &Transformer,
    lines: Seq<Seq<char>>,
    one: Result<Seq<Seq<char>>, Failure>,
    other: Result<Seq<Seq<char>>, Failure>,
)
    requires
        engine.probe_is_settled(),
        engine.possible_lines(lines, one),
        engine.possible_lines(lines, other),
    ensures
        one == other,
{
    match (one, other) {
        (Ok(first), Ok(second)) => {
            assert forall|i: int| 0 <= i < lines.len() implies first[i] == second[i] by {
                line_is_determined(engine, lines[i], Ok(first[i]), Ok(second[i]));
            }
            assert(first =~= second);
        },
        (Ok(first), Err(failure)) => {
            let i = failing_line(engine, lines, failure);
            line_is_determined(engine, lines[i], Ok(first[i]), Err(failure));
        },
        (Err(failure), Ok(second)) => {
            let i = failing_line(engine, lines, failure);
            line_is_determined(engine, lines[i], Ok(second[i]), Err(failure));
        },
        (Err(first), Err(second)) => {
            let i = failing_line(engine, lines, first);
            let j = failing_line(engine, lines, second);
            if i < j {
                let passed = choose|passed: Seq<Seq<char>>| #[trigger]
                    engine.passes(lines.take(j), passed);
                assert(lines.take(j)[i] == lines[i]);
                line_is_determined(engine, lines[i], Ok(passed[i]), Err(first));
            } else if j < i {
                let passed = choose|passed: Seq<Seq<char>>| #[trigger]
                    engine.passes(lines.take(i), passed);
                assert(lines.take(i)[j] == lines[j]);
                line_is_determined(engine, lines[j], Ok(passed[j]), Err(second));
            } else {
                line_is_determined(engine, lines[i], Err(first), Err(second));
            }
        },
    }
}

/// A line at which rewriting `lines` can fail with `failure`.
pub proof fn failing_line(engine: &Transformer, lines: Seq<Seq<char>>, failure: Failure) -> (at:
    int)
    requires
        engine.possible_lines(lines, Err(failure)),
    ensures
        0 <= at < lines.len(),
        engine.possible_line(lines[at], Err(failure)),
        engine.can_pass(lines.take(at)),
{
    choose|i: int|
        0 <= i < lines.len() && #[trigger] engine.possible_line(lines[i], Err(failure))
            && engine.can_pass(lines.take(i))
}

/// With a probe that has one answer for each path, rewriting a text has one
/// outcome.
pub proof fn content_is_determined(
    engine: &Transformer,
    content: Seq<char>,
    one: Result<Seq<char>, Failure>,
    other: Result<Seq<char>, Failure>,
)
    requires
        engine.probe_is_settled(),
        engine.possible_content(content, one),
        engine.possible_content(content, other),
    ensures
        one == other,
{
    let lines = text_lines(content);
    let first = lines_behind(engine, content, one);
    let second = lines_behind(engine, content, other);
    lines_are_determined(engine, lines, first, second);
}

/// An outcome of the lines of `content` that gives the outcome `outcome` of
/// the text.
pub proof fn lines_behind(engine: &Transformer, content: Seq<char>, outcome: Result<Seq<char>, Failure>)
    -> (lines: Result<Seq<Seq<char>>, Failure>)
    requires
        engine.possible_content(content, outcome),
    ensures
        engine.possible_lines(text_lines(content), lines),
        outcome == match lines {
            Ok(new_lines) => Ok::<Seq<char>, Failure>(join_lines(new_lines)),
            Err(failure) => Err(failure),
        },
{
    match outcome {
        Ok(text) => {
            let new_lines = choose|new_lines: Seq<Seq<char>>| #[trigger]
                engine.possible_lines(text_lines(content), Ok(new_lines)) && text == join_lines(
                    new_lines,
                );
            Ok(new_lines)
        },
        Err(failure) => Err(failure),
    }
}

} // verus!
