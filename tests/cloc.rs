use ghcount::cloc::{
    calculate_test_lines, cloc_result_of, convert_cloc_to_code_stats, count_value, displayed_totals,
    header_line, json_field, parse_cloc_json, sum_matching, ClocError, ClocLanguageResult, ClocResult,
    ClocTestResult, ClocTotals, Json,
};

fn entry(language: &str, files: u64, blank: u64, comment: u64, code: u64) -> ClocLanguageResult {
    ClocLanguageResult {
        language: language.to_string(),
        files,
        blank_lines: blank,
        comment_lines: comment,
        code_lines: code,
    }
}

fn report(entries: Vec<ClocLanguageResult>) -> ClocResult {
    ClocResult { header: "report".to_string(), languages: entries }
}

#[test]
fn test_parse_cloc_json() {
    let sample_json = r#"{
            "header": {
                "cloc_version": "1.98"
            },
            "Rust": {
                "nFiles": 1,
                "blank": 10,
                "comment": 5,
                "code": 100
            },
            "SUM": {
                "blank": 10,
                "comment": 5,
                "code": 100,
                "nFiles": 1
            }
        }"#;

    let result = parse_cloc_json(sample_json).unwrap();
    assert!(result.header.contains("cloc version 1.98"));
    assert_eq!(result.languages.len(), 1);

    let rust_lang = &result.languages[0];
    assert_eq!(rust_lang.language, "Rust");
    assert_eq!(rust_lang.files, 1);
    assert_eq!(rust_lang.blank_lines, 10);
    assert_eq!(rust_lang.comment_lines, 5);
    assert_eq!(rust_lang.code_lines, 100);
}

#[test]
fn test_convert_cloc_to_code_stats() {
    let cloc_result = ClocResult {
        header: "test".to_string(),
        languages: vec![
            ClocLanguageResult {
                language: "Java".to_string(),
                files: 10,
                blank_lines: 100,
                comment_lines: 50,
                code_lines: 1000,
            },
            ClocLanguageResult {
                language: "JavaScript".to_string(),
                files: 5,
                blank_lines: 50,
                comment_lines: 25,
                code_lines: 500,
            },
        ],
    };

    let test_result = ClocTestResult {
        test_code_lines: 200,
        test_comment_lines: 20,
        test_blank_lines: 30,
    };

    // Test for Java (should only count Java lines)
    let stats = convert_cloc_to_code_stats(&cloc_result, &test_result, "Java").unwrap();
    assert_eq!(stats.production_lines, 800); // 1000 - 200
    assert_eq!(stats.test_lines, 200);
    assert_eq!(stats.comment_lines, 50); // Only Java comments
    assert_eq!(stats.empty_lines, 100); // Only Java blank lines

    // Test for JavaScript (should only count JavaScript lines)
    let stats = convert_cloc_to_code_stats(&cloc_result, &test_result, "JavaScript").unwrap();
    assert_eq!(stats.production_lines, 300); // 500 - 200
    assert_eq!(stats.test_lines, 200);
    assert_eq!(stats.comment_lines, 25); // Only JavaScript comments
    assert_eq!(stats.empty_lines, 50); // Only JavaScript blank lines
}

#[test]
fn test_calculate_test_lines() {
    let total_result = ClocResult {
        header: "total".to_string(),
        languages: vec![ClocLanguageResult {
            language: "Java".to_string(),
            files: 20,
            blank_lines: 200,
            comment_lines: 100,
            code_lines: 2000,
        }],
    };

    let production_result = ClocResult {
        header: "production".to_string(),
        languages: vec![ClocLanguageResult {
            language: "Java".to_string(),
            files: 15,
            blank_lines: 150,
            comment_lines: 80,
            code_lines: 1500,
        }],
    };

    let test_result = calculate_test_lines(&total_result, &production_result, "Java").unwrap();
    assert_eq!(test_result.test_code_lines, 500); // 2000 - 1500
    assert_eq!(test_result.test_comment_lines, 20); // 100 - 80
    assert_eq!(test_result.test_blank_lines, 50); // 200 - 150
}

#[test]
fn java_total_and_production_give_test_and_production_lines() {
    let total = report(vec![entry("Java", 0, 0, 0, 2000)]);
    let production = report(vec![entry("Java", 0, 0, 0, 1500)]);
    let delta = calculate_test_lines(&total, &production, "Java").unwrap();
    let stats = convert_cloc_to_code_stats(&total, &delta, "Java").unwrap();
    assert_eq!(stats.test_lines, 500);
    assert_eq!(stats.production_lines, 1500);
}

#[test]
fn delta_clamps_at_zero() {
    let total = report(vec![entry("Rust", 1, 10, 5, 100)]);
    let production = report(vec![entry("Rust", 1, 20, 9, 150)]);
    let delta = calculate_test_lines(&total, &production, "rust").unwrap();
    assert_eq!(
        delta,
        ClocTestResult { test_code_lines: 0, test_comment_lines: 0, test_blank_lines: 0 }
    );
}

#[test]
fn delta_sums_entries_of_the_language_ignoring_case() {
    let total = report(vec![
        entry("C++", 1, 10, 10, 300),
        entry("C/C++ Header", 1, 1, 1, 50),
        entry("c++", 1, 5, 5, 100),
        entry("Python", 1, 7, 7, 70),
    ]);
    let production = report(vec![entry("C++", 1, 3, 4, 250)]);
    let delta = calculate_test_lines(&total, &production, "C++").unwrap();
    assert_eq!(
        delta,
        ClocTestResult { test_code_lines: 150, test_comment_lines: 11, test_blank_lines: 12 }
    );
    let stats = convert_cloc_to_code_stats(&total, &delta, "c++").unwrap();
    assert_eq!(stats.production_lines, 250);
    assert_eq!(stats.test_lines, 150);
    assert_eq!(stats.comment_lines, 15);
    assert_eq!(stats.empty_lines, 15);
    assert_eq!(stats.string_lines, 0);
}

#[test]
fn missing_language_gives_zero() {
    let total = report(vec![entry("Go", 1, 1, 1, 10)]);
    let delta = calculate_test_lines(&total, &total, "Rust").unwrap();
    assert_eq!(delta.test_code_lines, 0);
    let stats = convert_cloc_to_code_stats(&total, &delta, "Rust").unwrap();
    assert_eq!(stats.production_lines, 0);
}

#[test]
fn production_clamps_when_test_exceeds_total() {
    let total = report(vec![entry("Go", 1, 1, 1, 10)]);
    let delta = ClocTestResult { test_code_lines: 25, test_comment_lines: 0, test_blank_lines: 0 };
    let stats = convert_cloc_to_code_stats(&total, &delta, "Go").unwrap();
    assert_eq!(stats.production_lines, 0);
    assert_eq!(stats.test_lines, 25);
}

#[test]
fn overflowing_sums_are_reported() {
    let total = report(vec![entry("Go", 1, 1, 1, u64::MAX), entry("go", 1, 1, 1, 1)]);
    let production = report(vec![]);
    assert_eq!(calculate_test_lines(&total, &production, "Go"), Err(ClocError::CountOverflow));
    let delta = ClocTestResult { test_code_lines: 0, test_comment_lines: 0, test_blank_lines: 0 };
    assert_eq!(convert_cloc_to_code_stats(&total, &delta, "GO"), Err(ClocError::CountOverflow));
    // The other language is unaffected.
    assert!(calculate_test_lines(&total, &production, "Rust").is_ok());
}

#[test]
fn parse_rejects_text_that_is_not_json() {
    assert!(matches!(parse_cloc_json("invalid json content"), Err(ClocError::InvalidJson)));
}

#[test]
fn parse_defaults_and_skips() {
    let text = r#"{"Go": {"code": 7}, "Notes": "text", "SUM": {"code": 7}, "Rust": {"nFiles": 2, "blank": 1, "comment": 3, "code": 4}}"#;
    let r = parse_cloc_json(text).unwrap();
    assert_eq!(r.header, "cloc output");
    assert_eq!(r.languages.len(), 2);
    let go = r.languages.iter().find(|e| e.language == "Go").unwrap();
    assert_eq!((go.files, go.blank_lines, go.comment_lines, go.code_lines), (0, 0, 0, 7));
    let rust = r.languages.iter().find(|e| e.language == "Rust").unwrap();
    assert_eq!((rust.files, rust.blank_lines, rust.comment_lines, rust.code_lines), (2, 1, 3, 4));
}

#[test]
fn parse_header_without_string_version() {
    let r = parse_cloc_json(r#"{"header": {"cloc_version": 2}}"#).unwrap();
    assert_eq!(r.header, "cloc version unknown");
    assert!(r.languages.is_empty());
    let r = parse_cloc_json(r#"{"header": {"n_files": 2}}"#).unwrap();
    assert_eq!(r.header, "cloc output");
    let r = parse_cloc_json("[1, 2]").unwrap();
    assert_eq!(r.header, "cloc output");
    assert!(r.languages.is_empty());
}

#[test]
fn header_lines() {
    assert_eq!(header_line(None), "cloc output");
    assert_eq!(header_line(Some(None)), "cloc version unknown");
    assert_eq!(header_line(Some(Some("2.00".to_string()))), "cloc version 2.00");
}

fn obj(members: Vec<(&str, Json)>) -> Json {
    Json::Object(members.into_iter().map(|(k, v)| (k.to_string(), v)).collect())
}

fn num(n: u64) -> Json {
    Json::Number(Some(n))
}

#[test]
fn report_from_parsed_value() {
    let v = obj(vec![
        ("header", obj(vec![("cloc_version", Json::Text("1.98".to_string()))])),
        ("Go", obj(vec![("code", num(7)), ("blank", Json::Number(None))])),
        ("Notes", Json::Text("x".to_string())),
        ("SUM", obj(vec![("code", num(7))])),
        ("Rust", obj(vec![("nFiles", num(2)), ("blank", num(1)), ("comment", num(3)), ("code", num(4))])),
    ]);
    let r = cloc_result_of(&v);
    assert_eq!(r.header, "cloc version 1.98");
    assert_eq!(r.languages.len(), 2);
    assert_eq!(r.languages[0].language, "Go");
    assert_eq!(
        (r.languages[0].files, r.languages[0].blank_lines, r.languages[0].comment_lines, r.languages[0].code_lines),
        (0, 0, 0, 7)
    );
    assert_eq!(r.languages[1].language, "Rust");
    assert_eq!(
        (r.languages[1].files, r.languages[1].blank_lines, r.languages[1].comment_lines, r.languages[1].code_lines),
        (2, 1, 3, 4)
    );
}

#[test]
fn report_from_value_that_is_not_an_object() {
    let r = cloc_result_of(&Json::Array(vec![num(1)]));
    assert_eq!(r.header, "cloc output");
    assert!(r.languages.is_empty());
    let r = cloc_result_of(&obj(vec![("header", Json::Null)]));
    assert_eq!(r.header, "cloc output");
    assert!(r.languages.is_empty());
}

#[test]
fn json_fields_and_counts() {
    let v = obj(vec![("a", num(1)), ("b", Json::Bool(true)), ("a", num(2))]);
    assert_eq!(count_value(json_field(&v, "a")), 1);
    assert_eq!(count_value(json_field(&v, "b")), 0);
    assert_eq!(count_value(json_field(&v, "c")), 0);
    assert!(json_field(&num(3), "a").is_none());
}

#[test]
fn sums_over_lowered_names() {
    let es = vec![entry("Java", 1, 2, 3, 4), entry("Rust", 1, 1, 1, 1), entry("JAVA", 1, 10, 20, 30)];
    let lowered = vec!["java".to_string(), "rust".to_string(), "java".to_string()];
    assert_eq!(sum_matching(&es, &lowered, &"java".to_string()), Some((34, 23, 12)));
    assert_eq!(sum_matching(&es, &lowered, &"go".to_string()), Some((0, 0, 0)));
    let big = vec![entry("a", 0, 0, 0, u64::MAX), entry("a", 0, 0, 0, 1)];
    let names = vec!["a".to_string(), "a".to_string()];
    assert_eq!(sum_matching(&big, &names, &"a".to_string()), None);
}

#[test]
fn displayed_totals_follow_the_filter() {
    let r = report(vec![entry("Java", 2, 10, 20, 30), entry("Rust", 1, 1, 2, 3), entry("JAVA", 1, 1, 1, 1)]);
    assert_eq!(
        displayed_totals(&r, &None),
        Some(ClocTotals { files: 4, blank_lines: 12, comment_lines: 23, code_lines: 34, languages: 3 })
    );
    assert_eq!(
        displayed_totals(&r, &Some(vec!["java".to_string()])),
        Some(ClocTotals { files: 3, blank_lines: 11, comment_lines: 21, code_lines: 31, languages: 2 })
    );
    assert_eq!(
        displayed_totals(&r, &Some(vec!["Go".to_string()])),
        Some(ClocTotals { files: 0, blank_lines: 0, comment_lines: 0, code_lines: 0, languages: 0 })
    );
    let big = report(vec![entry("Go", u64::MAX, 0, 0, 0), entry("Go", 1, 0, 0, 0)]);
    assert_eq!(displayed_totals(&big, &None), None);
}
