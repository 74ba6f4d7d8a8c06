//! The per-language table: which files count as source files, which paths
//! mark a test file, and how the scanner reads each line.
use vstd::prelude::*;

use crate::text::{chars_of, lower_of, lowercase};

verus! {

/// The languages the table knows, after case-insensitive lookup; `Other`
/// covers every unrecognised name.
#[derive(Clone, Copy, Debug, PartialEq, Eq, Structural)]
pub enum Family {
    Rust,
    Script,
    Python,
    Java,
    Go,
    CLike,
    Other,
}

/// The family of a language name that is already lower case.
pub open spec fn family_of_lower(l: Seq<char>) -> Family {
    if l == "rust"@ {
        Family::Rust
    } else if l == "javascript"@ || l == "typescript"@ {
        Family::Script
    } else if l == "python"@ {
        Family::Python
    } else if l == "java"@ {
        Family::Java
    } else if l == "go"@ {
        Family::Go
    } else if l == "c"@ || l == "c++"@ {
        Family::CLike
    } else {
        Family::Other
    }
}

/// The family of a language name, matched without regard to case.
pub open spec fn family_of(language: Seq<char>) -> Family {
    family_of_lower(lower_of(language))
}

/// The file extensions of a family's source files.
pub open spec fn extensions_of(f: Family) -> Seq<Seq<char>> {
    match f {
        Family::Rust => seq![".rs"@],
        Family::Script => seq![".js"@, ".ts"@, ".jsx"@, ".tsx"@],
        Family::Python => seq![".py"@],
        Family::Java => seq![".java"@],
        Family::Go => seq![".go"@],
        Family::CLike => seq![".c"@, ".cpp"@, ".cc"@, ".cxx"@, ".h"@, ".hpp"@],
        Family::Other => seq![".txt"@],
    }
}

/// The regular expressions whose match on a lower-cased path marks a test
/// file of the family; any one of them suffices.
pub open spec fn test_patterns_of(f: Family) -> Seq<Seq<char>> {
    match f {
        Family::Rust => seq!["test"@, "tests/"@, "_test\\.rs$"@, "test_.*\\.rs$"@],
        Family::Script => seq![
            "test"@,
            "tests/"@,
            "spec/"@,
            "__tests__/"@,
            "\\.test\\."@,
            "\\.spec\\."@,
        ],
        Family::Python => seq!["test"@, "tests/"@, "test_.*\\.py$"@, ".*_test\\.py$"@],
        Family::Java => seq![
            "src/test/"@,
            "/test/"@,
            "/tests/"@,
            "Test[^/]*\\.java$"@,
            "[^/]*Test\\.java$"@,
            "[^/]*Tests\\.java$"@,
        ],
        Family::Go => seq!["_test\\.go$"@],
        Family::CLike => seq!["test"@, "tests/"@],
        Family::Other => seq!["test"@],
    }
}

/// The views of a list of string slices.
pub open spec fn views_of(v: Seq<&str>) -> Seq<Seq<char>> {
    v.map_values(|s: &str| s@)
}

/// Whether two character sequences are equal.
pub fn same_chars(a: &[char], b: &[char]) -> (r: bool)
    ensures
        r == (a@ == b@),
{
    if a.len() != b.len() {
        return false;
    }
    let mut i: usize = 0;
    while i < a.len()
        invariant
            a.len() == b.len(),
            forall|j: int| 0 <= j < i ==> a@[j] == b@[j],
        decreases a.len() - i,
    {
        if a[i] != b[i] {
            return false;
        }
        i = i + 1;
    }
    proof {
        assert(a@ =~= b@);
    }
    true
}

/// Whether the text `s` spells the literal `lit`.
fn is_text(s: &[char], lit: &str) -> (r: bool)
    ensures
        r == (s@ == lit@),
{
    let l = chars_of(lit);
    same_chars(s, l.as_slice())
}

/// The family of a language name, matched without regard to case.
pub fn language_family(language: &str) -> (f: Family)
    ensures
        f == family_of(language@),
{
    let lower = lowercase(language);
    family_of_lowercase(lower.as_str())
}

/// The family of a language name that is already lower case.
pub fn family_of_lowercase(l: &str) -> (f: Family)
    ensures
        f == family_of_lower(l@),
{
    let c = chars_of(l);
    let s = c.as_slice();
    if is_text(s, "rust") {
        Family::Rust
    } else if is_text(s, "javascript") || is_text(s, "typescript") {
        Family::Script
    } else if is_text(s, "python") {
        Family::Python
    } else if is_text(s, "java") {
        Family::Java
    } else if is_text(s, "go") {
        Family::Go
    } else if is_text(s, "c") || is_text(s, "c++") {
        Family::CLike
    } else {
        Family::Other
    }
}

/// The source-file extensions and the test-path patterns of a language,
/// looked up without regard to case; unknown names get the fallback entry.
pub fn get_language_config(language: &str) -> (r: (Vec<&'static str>, Vec<&'static str>))
    ensures
        views_of(r.0@) == extensions_of(family_of(language@)),
        views_of(r.1@) == test_patterns_of(family_of(language@)),
{
    let f = language_family(language);
    let r: (Vec<&'static str>, Vec<&'static str>) = match f {
        Family::Rust => (vec![".rs"], vec!["test", "tests/", "_test\\.rs$", "test_.*\\.rs$"]),
        Family::Script => (
            vec![".js", ".ts", ".jsx", ".tsx"],
            vec!["test", "tests/", "spec/", "__tests__/", "\\.test\\.", "\\.spec\\."],
        ),
        Family::Python => (vec![".py"], vec!["test", "tests/", "test_.*\\.py$", ".*_test\\.py$"]),
        Family::Java => (
            vec![".java"],
            vec![
                "src/test/",
                "/test/",
                "/tests/",
                "Test[^/]*\\.java$",
                "[^/]*Test\\.java$",
                "[^/]*Tests\\.java$",
            ],
        ),
        Family::Go => (vec![".go"], vec!["_test\\.go$"]),
        Family::CLike => (vec![".c", ".cpp", ".cc", ".cxx", ".h", ".hpp"], vec!["test", "tests/"]),
        Family::Other => (vec![".txt"], vec!["test"]),
    };
    proof {
        assert(views_of(r.0@) =~= extensions_of(f));
        assert(views_of(r.1@) =~= test_patterns_of(f));
    }
    r
}

/// Every language name, known or not, has at least one source extension and
/// at least one test pattern.
pub proof fn lemma_config_nonempty(language: Seq<char>)
    ensures
        extensions_of(family_of(language)).len() > 0,
        test_patterns_of(family_of(language)).len() > 0,
{
}

/// The entry depends on the name alone, and not on its case: names with the
/// same lower-case form, in particular equal names, get the same entry.
pub proof fn lemma_config_deterministic(a: Seq<char>, b: Seq<char>)
    requires
        lower_of(a) == lower_of(b),
    ensures
        extensions_of(family_of(a)) == extensions_of(family_of(b)),
        test_patterns_of(family_of(a)) == test_patterns_of(family_of(b)),
{
}

/// `language` passes the filter: there is none, or it names the language,
/// ignoring case.
pub open spec fn selected(filter: Option<Seq<Seq<char>>>, language: Seq<char>) -> bool {
    match filter {
        None => true,
        Some(names) => names_language(names, language),
    }
}

/// One of `names` is `language`, ignoring case.
pub open spec fn names_language(names: Seq<Seq<char>>, language: Seq<char>) -> bool {
    exists|i: int| 0 <= i < names.len() && lower_of(#[trigger] names[i]) == lower_of(language)
}

/// The views of an optional list of strings.
pub open spec fn filter_view(filter: Option<Vec<String>>) -> Option<Seq<Seq<char>>> {
    match filter {
        None => None,
        Some(v) => Some(v@.map_values(|s: String| s@)),
    }
}

/// Whether `language` passes the optional language filter, ignoring case.
pub fn language_selected(filter: &Option<Vec<String>>, language: &str) -> (r: bool)
    ensures
        r == selected(filter_view(*filter), language@),
{
    match filter {
        None => true,
        Some(names) => {
            let want = lowercase(language);
            let ghost nv = names@.map_values(|s: String| s@);
            proof {
                assert(filter_view(*filter) == Some(nv));
            }
            let mut i: usize = 0;
            while i < names.len()
                invariant
                    want@ == lower_of(language@),
                    nv == names@.map_values(|s: String| s@),
                    filter_view(*filter) == Some(nv),
                    forall|k: int| 0 <= k < i ==> lower_of(#[trigger] nv[k]) != lower_of(language@),
                decreases names.len() - i,
            {
                let name = lowercase(names[i].as_str());
                proof {
                    assert(nv[i as int] == names@[i as int]@);
                }
                if name == want {
                    proof {
                        assert(0 <= i < nv.len() && lower_of(nv[i as int]) == lower_of(language@));
                    }
                    return true;
                }
                i = i + 1;
            }
            false
        },
    }
}

} // verus!
