//! Whole-file attribution: which files of a working tree are source files
//! of the repository's language, which of those are test files, and how a
//! file's line counts are folded into the repository's statistics.
use vstd::prelude::*;

use crate::language::{family_of, test_patterns_of, views_of};
use crate::scanner::{count_code_lines, count_lines_detailed, detailed_stats, plain_code_count, rules_of, trimmed_lines, LineCounts, LineStats};
use crate::stats::{sum, sum_fits, CodeStats};
use crate::text::{chars_of, lower_of, lowercase};

verus! {

#[verifier::external_type_specification]
#[verifier::external_body]
pub struct ExRegex(regex::Regex);

/// What `regex::Regex::is_match` reports for the pattern `pattern` on
/// `haystack`: whether it matches anywhere in it.
pub uninterp spec fn regex_matches(pattern: Seq<char>, haystack: Seq<char>) -> bool;

/// Whether `regex::Regex::new` accepts the pattern: it is valid and within
/// the default size limit.
pub uninterp spec fn regex_compiles(pattern: Seq<char>) -> bool;

/// A compiled test-path pattern, with the text it was compiled from.
pub struct TestPattern {
    source: String,
    compiled: regex::Regex,
}

impl TestPattern {
    /// The text the pattern was compiled from.
    pub closed spec fn source(&self) -> Seq<char> {
        self.source@
    }

    /// The text the pattern was compiled from.
    pub fn as_str(&self) -> (r: &str)
        ensures
            r@ == self.source(),
    {
        self.source.as_str()
    }
}

/// Relies on `regex::Regex::new`: compiles `pattern`, or reports that it is
/// not a valid pattern (or too large); which of the two depends on the
/// pattern alone.
#[verifier::external_body]
fn compile_pattern(pattern: &str) -> (r: Option<TestPattern>)
    ensures
        r is Some <==> regex_compiles(pattern@),
        r matches Some(p) ==> p.source() == pattern@,
{
    match regex::Regex::new(pattern) {
        Ok(compiled) => Some(TestPattern { source: pattern.to_string(), compiled }),
        Err(_) => None,
    }
}

/// Relies on `regex::Regex::is_match`: whether the pattern matches anywhere
/// in `haystack`.
#[verifier::external_body]
fn pattern_matches(p: &TestPattern, haystack: &str) -> (r: bool)
    ensures
        r == regex_matches(p.source(), haystack@),
{
    p.compiled.is_match(haystack)
}

/// The sources of a list of compiled patterns.
pub open spec fn sources_of(ps: Seq<TestPattern>) -> Seq<Seq<char>> {
    ps.map_values(|p: TestPattern| p.source())
}

/// The patterns of `ps` that compile, in order.
pub open spec fn compiling(ps: Seq<Seq<char>>) -> Seq<Seq<char>> {
    ps.filter(|p: Seq<char>| regex_compiles(p))
}

/// Compiles each pattern, dropping any that does not compile; the rest keep
/// their order.
pub fn compile_test_patterns(patterns: &Vec<&str>) -> (r: Vec<TestPattern>)
    ensures
        sources_of(r@) == compiling(views_of(patterns@)),
{
    let ghost ps = views_of(patterns@);
    let mut out: Vec<TestPattern> = Vec::new();
    let mut i: usize = 0;
    proof {
        reveal(Seq::filter);
        assert(sources_of(out@) =~= compiling(ps.take(0)));
    }
    while i < patterns.len()
        invariant
            i <= patterns.len(),
            ps == views_of(patterns@),
            sources_of(out@) == compiling(ps.take(i as int)),
        decreases patterns.len() - i,
    {
        proof {
            assert(ps.take(i + 1).drop_last() =~= ps.take(i as int));
            assert(ps.take(i + 1).last() == patterns@[i as int]@);
        }
        let ghost before = out@;
        match compile_pattern(patterns[i]) {
            Some(p) => {
                out.push(p);
                proof {
                    assert(sources_of(out@) =~= sources_of(before).push(p.source()));
                }
            },
            None => {},
        }
        proof {
            let t = ps.take(i + 1);
            reveal(Seq::filter);
            assert(compiling(t) == if regex_compiles(t.last()) {
                compiling(t.drop_last()).push(t.last())
            } else {
                compiling(t.drop_last())
            });
        }
        i = i + 1;
    }
    proof {
        assert(ps.take(i as int) =~= ps);
    }
    out
}

/// The test patterns of `language` that compile, in table order.
pub fn language_test_patterns(language: &str) -> (r: Vec<TestPattern>)
    ensures
        sources_of(r@) == compiling(test_patterns_of(family_of(language@))),
{
    let (_, patterns) = crate::language::get_language_config(language);
    compile_test_patterns(&patterns)
}

/// Some pattern of `ps` matches `path`.
pub open spec fn any_matches(ps: Seq<Seq<char>>, path: Seq<char>) -> bool {
    exists|i: int| 0 <= i < ps.len() && regex_matches(#[trigger] ps[i], path)
}

/// Whether some pattern matches the (already lower-cased) path; the order
/// of the patterns does not matter.
pub fn is_test_path(patterns: &Vec<TestPattern>, path: &str) -> (r: bool)
    ensures
        r == any_matches(sources_of(patterns@), path@),
{
    let mut i: usize = 0;
    while i < patterns.len()
        invariant
            forall|k: int|
                0 <= k < i ==> !regex_matches(#[trigger] sources_of(patterns@)[k], path@),
        decreases patterns.len() - i,
    {
        if pattern_matches(&patterns[i], path) {
            proof {
                assert(sources_of(patterns@)[i as int] == patterns@[i as int].source());
            }
            return true;
        }
        i = i + 1;
    }
    false
}

/// `s` ends with `suffix`.
pub open spec fn has_suffix(s: Seq<char>, suffix: Seq<char>) -> bool {
    suffix.len() <= s.len() && s.subrange(s.len() - suffix.len(), s.len() as int) == suffix
}

/// `s` ends with one of `suffixes`.
pub open spec fn ends_with_any(s: Seq<char>, suffixes: Seq<Seq<char>>) -> bool {
    exists|i: int| 0 <= i < suffixes.len() && has_suffix(s, #[trigger] suffixes[i])
}

/// Whether `s` ends with `suffix`.
fn ends_with(s: &[char], suffix: &[char]) -> (r: bool)
    ensures
        r == has_suffix(s@, suffix@),
{
    if suffix.len() > s.len() {
        return false;
    }
    let start = s.len() - suffix.len();
    let mut k: usize = 0;
    while k < suffix.len()
        invariant
            start + suffix.len() == s.len(),
            k <= suffix.len(),
            forall|j: int| 0 <= j < k ==> s@[start + j] == suffix@[j],
        decreases suffix.len() - k,
    {
        if s[start + k] != suffix[k] {
            proof {
                assert(s@.subrange(start as int, s.len() as int)[k as int] != suffix@[k as int]);
            }
            return false;
        }
        k = k + 1;
    }
    proof {
        assert(s@.subrange(start as int, s.len() as int) =~= suffix@);
    }
    true
}

/// Whether the (already lower-cased) path ends with one of the extensions.
pub fn is_source_file(path: &str, extensions: &Vec<&str>) -> (r: bool)
    ensures
        r == ends_with_any(path@, views_of(extensions@)),
{
    let p = chars_of(path);
    let mut i: usize = 0;
    while i < extensions.len()
        invariant
            p@ == path@,
            forall|k: int|
                0 <= k < i ==> !has_suffix(path@, #[trigger] views_of(extensions@)[k]),
        decreases extensions.len() - i,
    {
        let e = chars_of(extensions[i]);
        proof {
            assert(views_of(extensions@)[i as int] == e@);
        }
        if ends_with(p.as_slice(), e.as_slice()) {
            return true;
        }
        i = i + 1;
    }
    false
}

/// How a file of the working tree counts.
#[derive(Clone, Copy, Debug, PartialEq, Eq, Structural)]
pub enum FileRole {
    /// Not a source file of the language: not counted.
    Ignored,
    Production,
    Test,
}

/// The role of a file whose path, lower-cased, is `lower`: a source file
/// when it ends with one of `extensions`, and then a test file when one of
/// `patterns` matches it.
pub open spec fn role_of(
    lower: Seq<char>,
    extensions: Seq<Seq<char>>,
    patterns: Seq<Seq<char>>,
) -> FileRole {
    if !ends_with_any(lower, extensions) {
        FileRole::Ignored
    } else if any_matches(patterns, lower) {
        FileRole::Test
    } else {
        FileRole::Production
    }
}

/// The role of the file at `path`, which is lower-cased before it is
/// matched against the extensions and the test patterns.
pub fn classify_file(path: &str, extensions: &Vec<&str>, patterns: &Vec<TestPattern>) -> (r:
    FileRole)
    ensures
        r == role_of(lower_of(path@), views_of(extensions@), sources_of(patterns@)),
{
    let lower = lowercase(path);
    if !is_source_file(lower.as_str(), extensions) {
        FileRole::Ignored
    } else if is_test_path(patterns, lower.as_str()) {
        FileRole::Test
    } else {
        FileRole::Production
    }
}

/// The line counts of one file: in detailed mode the full scan of
/// `language`; otherwise only the plain code-line count, the rest zero.
pub fn file_line_stats(content: &str, language: &str, detailed: bool) -> (r: LineStats)
    ensures
        detailed ==> r@ == detailed_stats(rules_of(family_of(language@)), content@),
        !detailed ==> r@ == (LineCounts {
            code: plain_code_count(trimmed_lines(content@)),
            comment: 0,
            empty: 0,
            string: 0,
        }),
{
    if detailed {
        count_lines_detailed(content, language)
    } else {
        LineStats {
            code_lines: count_code_lines(content),
            comment_lines: 0,
            empty_lines: 0,
            string_lines: 0,
        }
    }
}

/// What a file adds to its repository's statistics: its code lines as test
/// or production lines by its role, and in detailed mode its comment, empty
/// and string lines.
pub open spec fn file_contribution(l: LineStats, test: bool, detailed: bool) -> CodeStats {
    CodeStats {
        production_lines: if test {
            0
        } else {
            l.code_lines
        },
        test_lines: if test {
            l.code_lines
        } else {
            0
        },
        comment_lines: if detailed {
            l.comment_lines
        } else {
            0
        },
        empty_lines: if detailed {
            l.empty_lines
        } else {
            0
        },
        string_lines: if detailed {
            l.string_lines
        } else {
            0
        },
    }
}

/// Adds a file's lines to the repository's statistics, whole-file: all its
/// code lines go to test when `test` is set, else to production. Returns
/// false, and changes nothing, where a sum would not fit in a `u64`.
pub fn add_file_lines(stats: &mut CodeStats, lines: &LineStats, test: bool, detailed: bool) -> (r:
    bool)
    ensures
        r == sum_fits(*old(stats), file_contribution(*lines, test, detailed)),
        r ==> *final(stats) == sum(*old(stats), file_contribution(*lines, test, detailed)),
        !r ==> *final(stats) == *old(stats),
{
    let c = CodeStats {
        production_lines: if test {
            0
        } else {
            lines.code_lines
        },
        test_lines: if test {
            lines.code_lines
        } else {
            0
        },
        comment_lines: if detailed {
            lines.comment_lines
        } else {
            0
        },
        empty_lines: if detailed {
            lines.empty_lines
        } else {
            0
        },
        string_lines: if detailed {
            lines.string_lines
        } else {
            0
        },
    };
    match stats.checked_add(&c) {
        Some(total) => {
            *stats = total;
            true
        },
        None => false,
    }
}

} // verus!
