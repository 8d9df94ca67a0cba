use std::cell::RefCell;
use std::path::{Path, PathBuf};
use transform_include::directive::{parse_directive, select_parts, IncludeReference};
use transform_include::text::{concat_text, join_with_newlines};
use transform_include::transformer::{
    settle, ConfigError, FileExistsCheck, FixedFiles, MapFile, ProbeError, TransformError,
    Transformer,
};

#[derive(Debug)]
struct FileExistsCheckFake {
    files: Vec<PathBuf>,
}

impl FileExistsCheck for FileExistsCheckFake {
    fn file_exists(&self, path: &str) -> Result<bool, ProbeError> {
        for i in self.files.iter() {
            if i == Path::new(path) {
                return Ok(true);
            }
        }

        Ok(false)
    }
}

/// Fails on one path and finds every other one.
struct Failing {
    on: String,
}

impl FileExistsCheck for Failing {
    fn file_exists(&self, path: &str) -> Result<bool, ProbeError> {
        if path == self.on {
            Err(ProbeError { message: "permission denied".to_string() })
        } else {
            Ok(false)
        }
    }
}

/// Finds every path and keeps a list of what it was asked.
struct Recording {
    asked: std::rc::Rc<RefCell<Vec<String>>>,
}

impl FileExistsCheck for Recording {
    fn file_exists(&self, path: &str) -> Result<bool, ProbeError> {
        self.asked.borrow_mut().push(path.to_string());
        Ok(true)
    }
}

fn rule(src: &str, dst: &str) -> MapFile {
    MapFile { src: src.to_string(), dst: dst.to_string() }
}

fn engine(dirs: &[&str], files: &[&str], map: Vec<MapFile>, keep_going: bool) -> Transformer {
    Transformer {
        keep_going,
        search_dirs: dirs.iter().map(|d| d.to_string()).collect(),
        map,
        checker: Box::new(FileExistsCheckFake {
            files: files.iter().map(PathBuf::from).collect(),
        }),
    }
}

fn a_and_b(keep_going: bool) -> Transformer {
    engine(&["/a", "/b"], &["/a/foo.h"], vec![rule("/a", "X")], keep_going)
}

#[test]
fn resolves_and_maps() {
    let content = r#"
            // comment
            #include "foo.h"
            #include "sub/bar.h"

            #ifdef WHATEVER
                #include "baz.h"
            #endif

            int main(void) { return 0; }
        "#;

    let expected = r#"
            // comment
            #include "project/a/foo.h"
            #include "project/a/sub/bar.h"

            #ifdef WHATEVER
                #include "project/b/baz.h"
            #endif

            int main(void) { return 0; }
        "#;

    let transformer = Transformer {
        keep_going: true,
        search_dirs: vec![
            "/path/to/project/a".to_string(),
            "/path/to/project/b".to_string(),
        ],
        map: vec![
            MapFile {
                src: "/path/to/project/a".to_string(),
                dst: "project/a".to_string(),
            },
            MapFile {
                src: "/path/to/project/b".to_string(),
                dst: "project/b".to_string(),
            },
        ],
        checker: Box::new(FileExistsCheckFake {
            files: vec![
                "/path/to/project/a/foo.h".into(),
                "/path/to/project/a/sub/bar.h".into(),
                "/path/to/project/b/baz.h".into(),
            ],
        }),
    };

    let actual = transformer.transform(content).unwrap();

    assert_eq!(actual, expected);
}

#[test]
fn rewrites_a_found_and_mapped_path() {
    let t = a_and_b(false);
    assert_eq!(t.transform("#include \"foo.h\"").unwrap(), "#include \"X/foo.h\"");
    assert_eq!(t.transform_line("#include \"foo.h\"").unwrap(), "#include \"X/foo.h\"");
}

#[test]
fn fails_on_a_path_that_no_directory_holds() {
    let t = a_and_b(false);
    assert_eq!(
        t.transform("#include \"bar.h\""),
        Err(TransformError::Unresolved { path: "bar.h".to_string() })
    );
}

#[test]
fn first_of_two_rules_wins() {
    let t = engine(&["/a"], &["/a/foo.h"], vec![rule("/a", "X"), rule("/a", "Y")], false);
    assert_eq!(t.map_resolved("foo.h", "/a/foo.h"), "X/foo.h");
    assert_eq!(t.transform("#include \"foo.h\"").unwrap(), "#include \"X/foo.h\"");
    let swapped = engine(&["/a"], &["/a/foo.h"], vec![rule("/a", "Y"), rule("/a", "X")], false);
    assert_eq!(swapped.map_resolved("foo.h", "/a/foo.h"), "Y/foo.h");
}

#[test]
fn later_broader_rule_does_not_override() {
    let map = vec![rule("/nope", "N"), rule("/a/sub", "S"), rule("/a", "X"), rule("/", "R/")];
    let t = engine(&["/a"], &[], map, false);
    assert_eq!(t.map_resolved("sub/bar.h", "/a/sub/bar.h"), "S/bar.h");
    assert_eq!(t.map_resolved("foo.h", "/a/foo.h"), "X/foo.h");
    assert_eq!(t.map_resolved("c.h", "/c/c.h"), "R/c/c.h");
}

#[test]
fn angle_brackets_are_left_alone() {
    let t = a_and_b(false);
    assert_eq!(t.transform("#include <stdio.h>").unwrap(), "#include <stdio.h>");
    assert_eq!(t.transform_line("#include <foo.h>").unwrap(), "#include <foo.h>");
    assert_eq!(parse_directive("#include <stdio.h>"), None);
}

#[test]
fn lines_without_directive_are_unchanged() {
    let t = engine(&[], &[], vec![rule("/a", "X")], false);
    for line in ["", "int x;", "// #include \"foo.h\"", "#include", "#include \"", "#include \"\"",
        "#include \"foo.h", "x #include \"foo.h\"", "#define A \"foo.h\""] {
        assert_eq!(t.transform_line(line).unwrap(), line);
    }
}

#[test]
fn content_without_directive_is_unchanged() {
    let t = engine(&[], &[], vec![], false);
    let content = "int a;\n\n  // note\nint main(void) { return 0; }";
    assert_eq!(t.transform(content).unwrap(), content);
    assert_eq!(t.transform("").unwrap(), "");
}

#[test]
fn last_newline_is_not_kept() {
    let t = engine(&[], &[], vec![], false);
    assert_eq!(t.transform("a\nb\n").unwrap(), "a\nb");
    assert_eq!(t.transform("a\r\nb\r\n").unwrap(), "a\nb");
    assert_eq!(t.transform("a\n\nb\n\n").unwrap(), "a\n\nb\n");
    assert_eq!(t.transform("\n").unwrap(), "");
}

#[test]
fn unmapped_path_keeps_its_spelling() {
    let t = engine(&["/b", "/a"], &["/a/sub/../foo.h"], vec![rule("/c", "X")], false);
    assert_eq!(t.transform_path("sub/../foo.h").unwrap(), "sub/../foo.h");
    assert_eq!(t.map_resolved("sub/../foo.h", "/a/sub/../foo.h"), "sub/../foo.h");
    assert_eq!(
        t.transform("  #include \"sub/../foo.h\" // x").unwrap(),
        "  #include \"sub/../foo.h\" // x"
    );
    let no_rules = engine(&["/a"], &["/a/foo.h"], vec![], false);
    assert_eq!(no_rules.transform_path("foo.h").unwrap(), "foo.h");
}

#[test]
fn mapped_path_is_destination_and_rest() {
    let t = engine(&["/src/inc"], &["/src/inc/net/tcp.h"], vec![rule("/src/inc/", "lib/")], false);
    assert_eq!(t.transform_path("net/tcp.h").unwrap(), "lib/net/tcp.h");
    let whole = rule("/src/inc/net/tcp.h", "tcp.h");
    assert_eq!(whole.apply("/src/inc/net/tcp.h"), Some("tcp.h".to_string()));
    assert_eq!(rule("", "pre").apply("/x"), Some("pre/x".to_string()));
    assert_eq!(rule("/a", "X").apply("/b/a"), None);
    assert_eq!(rule("/a/long", "X").apply("/a"), None);
    assert_eq!(rule("/a", "X").apply("/ab.h"), Some("Xb.h".to_string()));
}

#[test]
fn keep_going_keeps_the_line_and_goes_on() {
    let t = a_and_b(true);
    let content = "#include \"bar.h\"\n  #include \"foo.h\" // here\n#include \"baz.h\"";
    let expected = "#include \"bar.h\"\n  #include \"X/foo.h\" // here\n#include \"baz.h\"";
    assert_eq!(t.transform(content).unwrap(), expected);
    assert_eq!(t.transform_line("#include \"bar.h\"").unwrap(), "#include \"bar.h\"");
}

#[test]
fn without_keep_going_nothing_comes_out() {
    let t = a_and_b(false);
    let content = "#include \"foo.h\"\n#include \"bar.h\"\n#include \"baz.h\"";
    assert_eq!(
        t.transform(content),
        Err(TransformError::Unresolved { path: "bar.h".to_string() })
    );
    let lines: Vec<String> = content.lines().map(str::to_string).collect();
    assert_eq!(
        t.transform_lines(&lines),
        Err(TransformError::Unresolved { path: "bar.h".to_string() })
    );
}

#[test]
fn no_directories_means_unresolved() {
    let t = engine(&[], &["/a/foo.h"], vec![rule("/a", "X")], false);
    assert_eq!(
        t.resolve_path("foo.h"),
        Err(TransformError::Unresolved { path: "foo.h".to_string() })
    );
    assert_eq!(
        t.transform_path("foo.h"),
        Err(TransformError::Unresolved { path: "foo.h".to_string() })
    );
}

#[test]
fn probe_failure_is_never_passed_over() {
    let failure = TransformError::Probe(ProbeError { message: "permission denied".to_string() });
    for keep_going in [false, true] {
        let t = Transformer {
            keep_going,
            search_dirs: vec!["/a".to_string(), "/b".to_string()],
            map: vec![],
            checker: Box::new(Failing { on: "/b/foo.h".to_string() }),
        };
        assert_eq!(t.resolve_path("foo.h"), Err(failure_copy(&failure)));
        assert_eq!(t.transform("int x;\n#include \"foo.h\""), Err(failure_copy(&failure)));
        assert_eq!(
            t.resolve_path("other.h"),
            Err(TransformError::Unresolved { path: "other.h".to_string() })
        );
    }
}

fn failure_copy(failure: &TransformError) -> TransformError {
    match failure {
        TransformError::Unresolved { path } => TransformError::Unresolved { path: path.clone() },
        TransformError::Probe(e) => TransformError::Probe(ProbeError { message: e.message.clone() }),
    }
}

#[test]
fn first_directory_that_holds_the_path_wins() {
    let t = engine(&["/a", "/b", "/c"], &["/b/foo.h", "/c/foo.h"], vec![], false);
    assert_eq!(t.resolve_path("foo.h").unwrap(), "/b/foo.h");
    let asked = std::rc::Rc::new(RefCell::new(Vec::new()));
    let recording = Transformer {
        keep_going: false,
        search_dirs: vec!["/a".to_string(), "/b".to_string()],
        map: vec![],
        checker: Box::new(Recording { asked: asked.clone() }),
    };
    assert_eq!(recording.resolve_path("foo.h").unwrap(), "/a/foo.h");
    assert_eq!(*asked.borrow(), vec!["/a/foo.h".to_string()]);
}

#[test]
fn candidate_is_directory_joined_with_path() {
    let t = engine(&["/a/", "rel"], &[], vec![], false);
    let asked = std::rc::Rc::new(RefCell::new(Vec::new()));
    let recording = Transformer { checker: Box::new(Recording { asked: asked.clone() }), ..t };
    assert_eq!(recording.resolve_path("sub/foo.h").unwrap(), "/a/sub/foo.h");
    let second = Transformer {
        keep_going: false,
        search_dirs: vec!["rel".to_string()],
        map: vec![],
        checker: Box::new(Recording { asked: asked.clone() }),
    };
    assert_eq!(second.resolve_path("foo.h").unwrap(), "rel/foo.h");
}

#[test]
fn directive_is_split_in_three() {
    assert_eq!(
        parse_directive("  \t#include  \"a/b.h\" // \"c\""),
        Some(IncludeReference {
            leading_text: "  \t#include  \"".to_string(),
            referenced_path: "a/b.h".to_string(),
            trailing_text: "\" // \"c\"".to_string(),
        })
    );
    assert_eq!(
        parse_directive("#include\"x\""),
        Some(IncludeReference {
            leading_text: "#include\"".to_string(),
            referenced_path: "x".to_string(),
            trailing_text: "\"".to_string(),
        })
    );
    assert_eq!(parse_directive("#include \"\""), None);
    assert_eq!(parse_directive("# include \"x\""), None);
    assert_eq!(parse_directive("int x; #include \"x\""), None);
}

#[test]
fn parts_come_from_three_groups() {
    let s = |t: &str| Some(t.to_string());
    let full = Some(vec![s("abc"), s("a"), s("b"), s("c")]);
    assert_eq!(
        select_parts(&full),
        Some(IncludeReference {
            leading_text: "a".to_string(),
            referenced_path: "b".to_string(),
            trailing_text: "c".to_string(),
        })
    );
    assert_eq!(select_parts(&None), None);
    assert_eq!(select_parts(&Some(vec![s("abc"), s("a"), s("b")])), None);
    assert_eq!(select_parts(&Some(vec![s("abc"), s("a"), None, s("c")])), None);
    assert_eq!(select_parts(&Some(vec![s("abc"), s("a"), s("b"), s("c"), s("d")])), None);
}

#[test]
fn answer_of_the_probe_settles_a_candidate() {
    assert_eq!(settle("/a/x".to_string(), Ok(true)), Some(Ok("/a/x".to_string())));
    assert_eq!(settle("/a/x".to_string(), Ok(false)), None);
    assert_eq!(
        settle("/a/x".to_string(), Err(ProbeError { message: "io".to_string() })),
        Some(Err(TransformError::Probe(ProbeError { message: "io".to_string() })))
    );
}

#[test]
fn line_is_put_together_again() {
    let reference = IncludeReference {
        leading_text: "#include \"".to_string(),
        referenced_path: "foo.h".to_string(),
        trailing_text: "\" // c".to_string(),
    };
    let line = "#include \"foo.h\" // c";
    let keep = a_and_b(true);
    let stop = a_and_b(false);
    assert_eq!(
        stop.finish_line(line, &reference, Ok("X/foo.h".to_string())).unwrap(),
        "#include \"X/foo.h\" // c"
    );
    let unresolved = || Err(TransformError::Unresolved { path: "foo.h".to_string() });
    assert_eq!(keep.finish_line(line, &reference, unresolved()).unwrap(), line);
    assert_eq!(stop.finish_line(line, &reference, unresolved()), unresolved());
    let failed = || Err(TransformError::Probe(ProbeError { message: "io".to_string() }));
    assert_eq!(keep.finish_line(line, &reference, failed()), failed());
    assert_eq!(stop.finish_line(line, &reference, failed()), failed());
}

#[test]
fn lines_are_joined_by_single_newlines() {
    let lines = |v: &[&str]| v.iter().map(|l| l.to_string()).collect::<Vec<String>>();
    assert_eq!(join_with_newlines(&lines(&[])), "");
    assert_eq!(join_with_newlines(&lines(&["a"])), "a");
    assert_eq!(join_with_newlines(&lines(&["a", "b"])), "a\nb");
    assert_eq!(join_with_newlines(&lines(&["", "a", "", ""])), "\na\n\n");
    assert_eq!(concat_text("ab", "cd"), "abcd");
    assert_eq!(concat_text("", ""), "");
}

#[test]
fn rule_is_read_from_an_argument() {
    assert_eq!(MapFile::parse("/path/to/old:/path/to/new"), Ok(rule("/path/to/old", "/path/to/new")));
    assert_eq!(MapFile::parse("a:b:c"), Ok(rule("a", "b:c")));
    assert_eq!(MapFile::parse(":"), Ok(rule("", "")));
    assert_eq!(MapFile::parse("a:"), Ok(rule("a", "")));
    assert_eq!(MapFile::parse(":b"), Ok(rule("", "b")));
    assert_eq!(MapFile::parse("ab"), Err(ConfigError { argument: "ab".to_string() }));
    assert_eq!(MapFile::parse(""), Err(ConfigError { argument: "".to_string() }));
}

#[test]
fn rules_are_read_in_order() {
    let arguments = |v: &[&str]| v.iter().map(|a| a.to_string()).collect::<Vec<String>>();
    assert_eq!(
        MapFile::parse_all(&arguments(&["/a:X", "/b:Y", "/a:Z"])),
        Ok(vec![rule("/a", "X"), rule("/b", "Y"), rule("/a", "Z")])
    );
    assert_eq!(MapFile::parse_all(&arguments(&[])), Ok(vec![]));
    assert_eq!(
        MapFile::parse_all(&arguments(&["/a:X", "bad", "/b:Y", "worse"])),
        Err(ConfigError { argument: "bad".to_string() })
    );
}

#[test]
fn fixed_files_are_found_by_their_exact_text() {
    let probe = FixedFiles { files: vec!["/a/foo.h".to_string(), "/b/bar.h".to_string()] };
    assert_eq!(probe.file_exists("/a/foo.h"), Ok(true));
    assert_eq!(probe.file_exists("/b/bar.h"), Ok(true));
    assert_eq!(probe.file_exists("/a/bar.h"), Ok(false));
    assert_eq!(probe.file_exists("/a/foo.h/"), Ok(false));
    assert_eq!(probe.file_exists(""), Ok(false));
    let t = Transformer {
        keep_going: false,
        search_dirs: vec!["/a".to_string(), "/b".to_string()],
        map: vec![rule("/b", "Y")],
        checker: Box::new(probe),
    };
    assert_eq!(t.transform("#include \"bar.h\" // b").unwrap(), "#include \"Y/bar.h\" // b");
    assert_eq!(t.transform_path("foo.h").unwrap(), "foo.h");
}

#[test]
fn lone_carriage_return_stays_in_the_line() {
    let t = engine(&[], &[], vec![], false);
    assert_eq!(t.transform("a\rb\nc\r").unwrap(), "a\rb\nc\r");
}

#[test]
fn every_applicable_rule_gives_a_candidate() {
    let t = engine(&["/a"], &["/a/foo.h"], vec![rule("/a", "X"), rule("/b", "N"), rule("/a", "Y"), rule("/a/f", "Z/")], false);
    assert_eq!(
        t.map_candidates("/a/foo.h"),
        vec!["X/foo.h".to_string(), "Y/foo.h".to_string(), "Z/oo.h".to_string()]
    );
    assert_eq!(t.map_candidates("/c/foo.h"), Vec::<String>::new());
    assert_eq!(t.map_resolved("foo.h", "/a/foo.h"), "X/foo.h");
    assert_eq!(t.map_resolved("foo.h", "/c/foo.h"), "foo.h");
}
