use ghcount::scanner::{count_code_lines, count_lines_detailed, count_plain_code, LineStats};

fn stats(code: u64, comment: u64, empty: u64, string: u64) -> LineStats {
    LineStats { code_lines: code, comment_lines: comment, empty_lines: empty, string_lines: string }
}

#[test]
fn test_count_code_lines() {
    let sample_code = r#"// This is a comment
fn main() {
    println!("Hello, world!");
    
    // Another comment
    let x = 5;
}
"#;
    let count = count_code_lines(sample_code);
    assert_eq!(count, 4); // Should exclude comment lines and empty lines
}

#[test]
fn test_count_lines_detailed_rust() {
    let sample_code = r#"// Comment
fn main() {
    println!("Hello");
    /* Block comment */
    let x = 5;
    
    let s = "string literal";
}
"#;
    let stats = count_lines_detailed(sample_code, "rust");
    assert_eq!(stats.code_lines, 5); // fn main, {, println, let x, let s, }
    assert_eq!(stats.comment_lines, 2); // // comment and /* comment */
    assert_eq!(stats.empty_lines, 1);
    assert_eq!(stats.string_lines, 2); // println and let s lines
}

#[test]
fn test_count_lines_detailed_java() {
    let sample_code = r#"// Java comment
public class Test {
    public static void main(String[] args) {
        System.out.println("Hello");
        /* Multi-line
           comment */
        int x = 5;
    }
}
"#;
    let stats = count_lines_detailed(sample_code, "java");
    assert!(stats.code_lines >= 5); // class, method, println, int, closing braces
    assert!(stats.comment_lines >= 3); // Single comment + multi-line comment
}

#[test]
fn java_sample_exact_counts() {
    let sample_code = "// Java comment\npublic class Test {\n    public static void main(String[] args) {\n        System.out.println(\"Hello\");\n        /* Multi-line\n           comment */\n        int x = 5;\n    }\n}\n";
    assert_eq!(count_lines_detailed(sample_code, "java"), stats(6, 3, 0, 1));
}

#[test]
fn short_rust_file() {
    // One comment, two code lines (one holding a string) and one blank line.
    let content = "// c\nfn main(){println!(\"hi\");}\n\nlet x=5;\n";
    assert_eq!(count_lines_detailed(content, "rust"), stats(2, 1, 1, 1));
}

#[test]
fn blank_file_is_all_empty() {
    for lang in ["rust", "python", "java", "c", "go", "typescript", "unknown"] {
        let s = count_lines_detailed("\n   \n\t\n  \t  \n", lang);
        assert_eq!(s, stats(0, 0, 4, 0));
    }
    assert_eq!(count_lines_detailed("", "rust"), stats(0, 0, 0, 0));
    assert_eq!(count_code_lines("\n\n"), 0);
}

#[test]
fn scanning_twice_gives_the_same_counts() {
    // The first scan ends inside a block comment; the second starts afresh.
    let content = "int a;\n/* open\nstill open\n";
    let first = count_lines_detailed(content, "c");
    let second = count_lines_detailed(content, "c");
    assert_eq!(first, second);
    assert_eq!(first, stats(1, 2, 0, 0));
    assert_eq!(count_lines_detailed("x = 1\n", "c"), stats(1, 0, 0, 0));
}

#[test]
fn block_comment_spans_lines() {
    let content = "/* start\n   middle\n   end */\nint x = 1;\n/* one line */\nint y;\n";
    assert_eq!(count_lines_detailed(content, "Go"), stats(2, 4, 0, 0));
}

#[test]
fn blank_line_inside_block_comment_stays_empty() {
    let content = "/* a\n\n b */\ncode();\n";
    assert_eq!(count_lines_detailed(content, "javascript"), stats(1, 2, 1, 0));
}

#[test]
fn c_preprocessor_lines_are_comments() {
    let content = "#include <stdio.h>\nint main() { printf(\"x\"); }\n";
    assert_eq!(count_lines_detailed(content, "C"), stats(1, 1, 0, 1));
}

#[test]
fn backtick_marks_a_string_in_go_and_script() {
    assert_eq!(count_lines_detailed("x := `raw`\n", "go"), stats(1, 0, 0, 1));
    assert_eq!(count_lines_detailed("let s = `t`;\n", "TypeScript"), stats(1, 0, 0, 1));
    assert_eq!(count_lines_detailed("let s = `t`;\n", "java"), stats(1, 0, 0, 0));
}

#[test]
fn python_docstrings_are_string_code_lines() {
    let content = "# comment\ndef f():\n    \"\"\"Doc\n    more\n    \"\"\"\n    x = 'a'\n    '''one line'''\n    return x\n";
    // def, three docstring lines, x = 'a', the one-line docstring, return
    assert_eq!(count_lines_detailed(content, "python"), stats(7, 1, 0, 5));
}

#[test]
fn fallback_comment_prefixes() {
    let content = "-- sql comment\n# hash\n// slashes\nselect 'a';\n/* not a block here */\n";
    assert_eq!(count_lines_detailed(content, "SQL"), stats(2, 3, 0, 1));
}

#[test]
fn plain_count_skips_hash_and_slash_comments() {
    assert_eq!(count_code_lines("# a\n  // b\nc\n  d  \n\n"), 2);
    assert_eq!(count_code_lines("/* block */\n"), 1);
}

#[test]
fn counts_add_up_to_lines() {
    let content = "a\n\n// b\n/* c\nd */\n\"e\"\n";
    let s = count_lines_detailed(content, "rust");
    assert_eq!(s.code_lines + s.comment_lines + s.empty_lines, 6);
    assert!(s.string_lines <= s.code_lines);
}

#[test]
fn crlf_line_endings() {
    let content = "// a\r\nfn x() {}\r\n\r\n";
    assert_eq!(count_lines_detailed(content, "rust"), stats(1, 1, 1, 0));
}

#[test]
fn plain_count_of_trimmed_lines() {
    let ts: Vec<Vec<char>> = vec!["a".chars().collect(), vec![], "//x".chars().collect(), "#y".chars().collect(), "b #".chars().collect()];
    assert_eq!(count_plain_code(&ts), 2);
}

#[test]
fn line_splitting() {
    let ls = ghcount::text::lines("a\r\nb\n\nc\r");
    let expect: Vec<Vec<char>> = vec![vec!['a'], vec!['b'], vec![], vec!['c', '\r']];
    assert_eq!(ls, expect);
    assert!(ghcount::text::lines("").is_empty());
    assert_eq!(ghcount::text::lines("x\n"), vec![vec!['x']]);
    assert_eq!(ghcount::text::lines("\n"), vec![Vec::<char>::new()]);
}
