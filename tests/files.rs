use ghcount::files::{add_file_lines, classify_file, compile_test_patterns, file_line_stats, is_source_file, is_test_path, language_test_patterns, FileRole};
use ghcount::language::get_language_config;
use ghcount::scanner::LineStats;
use ghcount::stats::CodeStats;

fn role(path: &str, language: &str) -> FileRole {
    let (extensions, _) = get_language_config(language);
    let patterns = language_test_patterns(language);
    classify_file(path, &extensions, &patterns)
}

#[test]
fn java_test_and_main_paths() {
    assert_eq!(role("src/test/java/Foo.java", "java"), FileRole::Test);
    assert_eq!(role("src/main/java/Foo.java", "java"), FileRole::Production);
    let patterns = language_test_patterns("java");
    assert!(is_test_path(&patterns, "src/test/java/foo.java"));
    assert!(!is_test_path(&patterns, "src/main/java/foo.java"));
}

#[test]
fn all_patterns_compile() {
    for lang in ["rust", "javascript", "python", "java", "go", "c", "other"] {
        let (_, p) = get_language_config(lang);
        assert_eq!(language_test_patterns(lang).len(), p.len());
    }
}

#[test]
fn roles_by_language() {
    assert_eq!(role("/tmp/x/src/lib.rs", "Rust"), FileRole::Production);
    assert_eq!(role("/tmp/x/src/parser_test.rs", "Rust"), FileRole::Test);
    assert_eq!(role("/tmp/x/README.md", "Rust"), FileRole::Ignored);
    assert_eq!(role("/tmp/x/MAIN.RS", "rust"), FileRole::Production);
    assert_eq!(role("/tmp/x/pkg/server_test.go", "go"), FileRole::Test);
    assert_eq!(role("/tmp/x/pkg/server.go", "go"), FileRole::Production);
    assert_eq!(role("/tmp/x/web/App.spec.tsx", "TypeScript"), FileRole::Test);
    assert_eq!(role("/tmp/x/web/App.tsx", "TypeScript"), FileRole::Production);
    assert_eq!(role("/tmp/x/notes.txt", "Haskell"), FileRole::Production);
    assert_eq!(role("/tmp/x/Main.hs", "Haskell"), FileRole::Ignored);
}

#[test]
fn source_file_by_suffix() {
    let exts = vec![".c", ".h"];
    assert!(is_source_file("a/b.c", &exts));
    assert!(is_source_file("a/b.h", &exts));
    assert!(!is_source_file("a/b.cpp", &exts));
    assert!(!is_source_file("c", &exts));
    assert!(!is_source_file("a/b.c", &vec![]));
}

#[test]
fn line_stats_by_mode() {
    let content = "// a\nfn f() { \"s\" }\n\n";
    let d = file_line_stats(content, "rust", true);
    assert_eq!(d, LineStats { code_lines: 1, comment_lines: 1, empty_lines: 1, string_lines: 1 });
    let p = file_line_stats(content, "rust", false);
    assert_eq!(p, LineStats { code_lines: 1, comment_lines: 0, empty_lines: 0, string_lines: 0 });
}

#[test]
fn file_lines_go_to_test_or_production() {
    let mut stats = CodeStats::zero();
    let l = LineStats { code_lines: 10, comment_lines: 2, empty_lines: 3, string_lines: 4 };
    assert!(add_file_lines(&mut stats, &l, true, true));
    assert!(add_file_lines(&mut stats, &l, false, false));
    assert_eq!(
        stats,
        CodeStats { production_lines: 10, test_lines: 10, comment_lines: 2, empty_lines: 3, string_lines: 4 }
    );
    let huge = LineStats { code_lines: u64::MAX, comment_lines: 0, empty_lines: 0, string_lines: 0 };
    assert!(!add_file_lines(&mut stats, &huge, true, false));
    assert_eq!(stats.test_lines, 10);
}

#[test]
fn patterns_that_do_not_compile_are_dropped() {
    let ps = compile_test_patterns(&vec!["spec/", "foo(", "_it\\.rs$"]);
    assert_eq!(ps.len(), 2);
    assert_eq!(ps[0].as_str(), "spec/");
    assert_eq!(ps[1].as_str(), "_it\\.rs$");
    assert!(is_test_path(&ps, "a/b_it.rs"));
    assert!(!is_test_path(&ps, "a/b.rs"));
}
