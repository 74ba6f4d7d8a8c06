//! Differential attribution: an external line counter knows nothing of
//! tests, so it is run once over the whole tree and once with test paths
//! excluded, and the test lines of a language are the difference.
use vstd::prelude::*;

use crate::language::{filter_view, language_selected, same_chars, selected};
use crate::stats::CodeStats;
use crate::text::{chars_of, concat_chars, lower_of, lowercase, string_from_chars};

verus! {

/// One language entry of an aggregate report.
#[derive(Clone, Debug)]
pub struct ClocLanguageResult {
    pub language: String,
    pub files: u64,
    pub blank_lines: u64,
    pub comment_lines: u64,
    pub code_lines: u64,
}

/// An aggregate report: the counter's header line and its language entries.
#[derive(Clone, Debug)]
pub struct ClocResult {
    pub header: String,
    pub languages: Vec<ClocLanguageResult>,
}

/// The test lines of one language: the whole tree less its production part.
#[derive(Clone, Copy, Debug, PartialEq, Eq, Structural)]
pub struct ClocTestResult {
    pub test_code_lines: u64,
    pub test_comment_lines: u64,
    pub test_blank_lines: u64,
}

/// Why a report could not be reduced to counts.
#[derive(Clone, Copy, Debug, PartialEq, Eq, Structural)]
pub enum ClocError {
    /// A language's summed counts do not fit in 64 bits.
    CountOverflow,
    /// The counter's output is not JSON.
    InvalidJson,
}

/// Summed counts of a language.
pub ghost struct Totals {
    pub code: nat,
    pub comment: nat,
    pub blank: nat,
}

/// An entry's language is the target language, ignoring case.
pub open spec fn same_language(name: Seq<char>, target: Seq<char>) -> bool {
    lower_of(name) == lower_of(target)
}

/// The code, comment and blank lines of every entry of `es` whose language
/// is `target`, summed.
pub open spec fn language_totals(es: Seq<ClocLanguageResult>, target: Seq<char>) -> Totals
    decreases es.len(),
{
    if es.len() == 0 {
        Totals { code: 0, comment: 0, blank: 0 }
    } else {
        let t = language_totals(es.drop_last(), target);
        let e = es.last();
        if same_language(e.language@, target) {
            Totals {
                code: t.code + e.code_lines as nat,
                comment: t.comment + e.comment_lines as nat,
                blank: t.blank + e.blank_lines as nat,
            }
        } else {
            t
        }
    }
}

/// Each sum fits in a `u64`.
pub open spec fn totals_fit(t: Totals) -> bool {
    t.code <= u64::MAX && t.comment <= u64::MAX && t.blank <= u64::MAX
}

/// `a - b`, or zero where `b` is the larger.
pub open spec fn sat_sub(a: nat, b: nat) -> nat {
    if a >= b {
        (a - b) as nat
    } else {
        0
    }
}

/// The test lines of `target`: each count of the whole tree less that of its
/// production part, clamped at zero.
pub open spec fn test_delta(
    total: Seq<ClocLanguageResult>,
    production: Seq<ClocLanguageResult>,
    target: Seq<char>,
) -> Totals {
    let t = language_totals(total, target);
    let p = language_totals(production, target);
    Totals {
        code: sat_sub(t.code, p.code),
        comment: sat_sub(t.comment, p.comment),
        blank: sat_sub(t.blank, p.blank),
    }
}

/// The code, comment and blank lines of the entries of `es` whose
/// lower-cased name, given as `lowered[i]` for entry `i`, is `want`, summed.
pub open spec fn totals_where(
    es: Seq<ClocLanguageResult>,
    lowered: Seq<Seq<char>>,
    want: Seq<char>,
) -> Totals
    decreases es.len(),
{
    if es.len() == 0 {
        Totals { code: 0, comment: 0, blank: 0 }
    } else {
        let t = totals_where(es.drop_last(), lowered.drop_last(), want);
        let e = es.last();
        if lowered.last() == want {
            Totals {
                code: t.code + e.code_lines as nat,
                comment: t.comment + e.comment_lines as nat,
                blank: t.blank + e.blank_lines as nat,
            }
        } else {
            t
        }
    }
}

/// Given each entry's lower-cased name, the sums over the names equal to
/// the lower-cased target are the language's totals.
proof fn lemma_totals_lowered(es: Seq<ClocLanguageResult>, lowered: Seq<Seq<char>>, target: Seq<char>)
    requires
        lowered.len() == es.len(),
        forall|k: int| 0 <= k < es.len() ==> lowered[k] == lower_of(#[trigger] es[k].language@),
    ensures
        totals_where(es, lowered, lower_of(target)) == language_totals(es, target),
    decreases es.len(),
{
    if es.len() > 0 {
        let (e2, l2) = (es.drop_last(), lowered.drop_last());
        assert forall|k: int| 0 <= k < e2.len() implies l2[k] == lower_of(
            #[trigger] e2[k].language@,
        ) by {
            assert(e2[k] == es[k]);
        }
        lemma_totals_lowered(e2, l2, target);
        assert(lowered.last() == lower_of(es[es.len() - 1].language@));
    }
}

/// Totals over a prefix of the entries never exceed those over a longer one.
proof fn lemma_totals_grow(es: Seq<ClocLanguageResult>, lowered: Seq<Seq<char>>, want: Seq<char>, i: int, j: int)
    requires
        0 <= i <= j <= es.len(),
        lowered.len() == es.len(),
    ensures
        totals_where(es.take(i), lowered.take(i), want).code <= totals_where(es.take(j), lowered.take(j), want).code,
        totals_where(es.take(i), lowered.take(i), want).comment <= totals_where(es.take(j), lowered.take(j), want).comment,
        totals_where(es.take(i), lowered.take(i), want).blank <= totals_where(es.take(j), lowered.take(j), want).blank,
    decreases j - i,
{
    if i < j {
        lemma_totals_grow(es, lowered, want, i, j - 1);
        assert(es.take(j).drop_last() =~= es.take(j - 1));
        assert(lowered.take(j).drop_last() =~= lowered.take(j - 1));
    }
}

/// The summed counts of the entries whose lower-cased name, given as
/// `lowered[i]` for entry `i`, is `want`; `None` where a sum does not fit in
/// a `u64`.
pub fn sum_matching(entries: &Vec<ClocLanguageResult>, lowered: &Vec<String>, want: &String) -> (r:
    Option<(u64, u64, u64)>)
    requires
        lowered@.len() == entries@.len(),
    ensures
        ({
            let t = totals_where(entries@, lowered@.map_values(|s: String| s@), want@);
            match r {
                Some((code, comment, blank)) => totals_fit(t) && code == t.code && comment
                    == t.comment && blank == t.blank,
                None => !totals_fit(t),
            }
        }),
{
    let ghost ls = lowered@.map_values(|s: String| s@);
    let mut code: u64 = 0;
    let mut comment: u64 = 0;
    let mut blank: u64 = 0;
    let mut i: usize = 0;
    while i < entries.len()
        invariant
            i <= entries.len(),
            lowered@.len() == entries@.len(),
            ls == lowered@.map_values(|s: String| s@),
            totals_where(entries@.take(i as int), ls.take(i as int), want@) == (Totals {
                code: code as nat,
                comment: comment as nat,
                blank: blank as nat,
            }),
        decreases entries.len() - i,
    {
        proof {
            assert(entries@.take(i + 1).drop_last() =~= entries@.take(i as int));
            assert(ls.take(i + 1).drop_last() =~= ls.take(i as int));
            assert(ls.take(i + 1).last() == lowered@[i as int]@);
        }
        let e = &entries[i];
        if lowered[i] == *want {
            proof {
                lemma_totals_grow(entries@, ls, want@, i + 1, entries@.len() as int);
                assert(entries@.take(entries@.len() as int) =~= entries@);
                assert(ls.take(entries@.len() as int) =~= ls);
            }
            match (code.checked_add(e.code_lines), comment.checked_add(e.comment_lines)) {
                (Some(c), Some(m)) => match blank.checked_add(e.blank_lines) {
                    Some(b) => {
                        code = c;
                        comment = m;
                        blank = b;
                    },
                    None => {
                        return None;
                    },
                },
                _ => {
                    return None;
                },
            }
        }
        i = i + 1;
    }
    proof {
        assert(entries@.take(i as int) =~= entries@);
        assert(ls.take(i as int) =~= ls);
    }
    Some((code, comment, blank))
}

/// The summed counts of `target` in `entries`, or `None` where a sum does not
/// fit in a `u64`.
fn sum_language(entries: &Vec<ClocLanguageResult>, target: &str) -> (r: Option<(u64, u64, u64)>)
    ensures
        match r {
            Some((code, comment, blank)) => {
                let t = language_totals(entries@, target@);
                totals_fit(t) && code == t.code && comment == t.comment && blank == t.blank
            },
            None => !totals_fit(language_totals(entries@, target@)),
        },
{
    let want = lowercase(target);
    let mut lowered: Vec<String> = Vec::new();
    let mut i: usize = 0;
    while i < entries.len()
        invariant
            i <= entries.len(),
            lowered@.len() == i,
            forall|k: int| 0 <= k < i ==> (#[trigger] lowered@[k])@ == lower_of(entries@[k].language@),
        decreases entries.len() - i,
    {
        lowered.push(lowercase(entries[i].language.as_str()));
        i = i + 1;
    }
    proof {
        let ls = lowered@.map_values(|s: String| s@);
        assert forall|k: int| 0 <= k < entries@.len() implies ls[k] == lower_of(
            #[trigger] entries@[k].language@,
        ) by {
            assert(ls[k] == lowered@[k]@);
        }
        lemma_totals_lowered(entries@, ls, target@);
    }
    sum_matching(entries, &lowered, &want)
}

/// The test lines of `target_language`: for code, comment and blank lines,
/// the count over the whole tree less the count over its production part,
/// clamped at zero. Entries are summed over every language name that equals
/// the target ignoring case. Fails only where a sum does not fit in 64 bits.
pub fn calculate_test_lines(
    total_result: &ClocResult,
    production_result: &ClocResult,
    target_language: &str,
) -> (r: Result<ClocTestResult, ClocError>)
    ensures
        match r {
            Ok(t) => {
                &&& totals_fit(language_totals(total_result.languages@, target_language@))
                &&& totals_fit(language_totals(production_result.languages@, target_language@))
                &&& test_delta(
                    total_result.languages@,
                    production_result.languages@,
                    target_language@,
                ) == (Totals {
                    code: t.test_code_lines as nat,
                    comment: t.test_comment_lines as nat,
                    blank: t.test_blank_lines as nat,
                })
            },
            Err(e) => {
                &&& e == ClocError::CountOverflow
                &&& !(totals_fit(language_totals(total_result.languages@, target_language@))
                    && totals_fit(
                    language_totals(production_result.languages@, target_language@),
                ))
            },
        },
{
    let total = sum_language(&total_result.languages, target_language);
    let production = sum_language(&production_result.languages, target_language);
    match (total, production) {
        (Some((tc, tm, tb)), Some((pc, pm, pb))) => Ok(
            ClocTestResult {
                test_code_lines: tc.saturating_sub(pc),
                test_comment_lines: tm.saturating_sub(pm),
                test_blank_lines: tb.saturating_sub(pb),
            },
        ),
        _ => Err(ClocError::CountOverflow),
    }
}

/// The code statistics of `target_language`: its test lines are those
/// measured by `test_result`, its production lines the rest of its code
/// (clamped at zero), and its comment and empty lines those of the whole
/// tree. Fails only where a sum does not fit in 64 bits.
pub fn convert_cloc_to_code_stats(
    cloc_result: &ClocResult,
    test_result: &ClocTestResult,
    target_language: &str,
) -> (r: Result<CodeStats, ClocError>)
    ensures
        match r {
            Ok(s) => {
                let t = language_totals(cloc_result.languages@, target_language@);
                &&& totals_fit(t)
                &&& s.test_lines == test_result.test_code_lines
                &&& s.production_lines == sat_sub(t.code, test_result.test_code_lines as nat)
                &&& s.comment_lines == t.comment
                &&& s.empty_lines == t.blank
                &&& s.string_lines == 0
            },
            Err(e) => e == ClocError::CountOverflow && !totals_fit(
                language_totals(cloc_result.languages@, target_language@),
            ),
        },
{
    match sum_language(&cloc_result.languages, target_language) {
        Some((code, comment, blank)) => Ok(
            CodeStats {
                production_lines: code.saturating_sub(test_result.test_code_lines),
                test_lines: test_result.test_code_lines,
                comment_lines: comment,
                empty_lines: blank,
                string_lines: 0,
            },
        ),
        None => Err(ClocError::CountOverflow),
    }
}

/// The test lines never go below zero: where the production part reports
/// more code than the whole tree, the test code is zero, and otherwise it is
/// exactly the difference.
pub proof fn lemma_delta_clamps(
    total: Seq<ClocLanguageResult>,
    production: Seq<ClocLanguageResult>,
    target: Seq<char>,
)
    ensures
        test_delta(total, production, target).code >= 0,
        test_delta(total, production, target).comment >= 0,
        test_delta(total, production, target).blank >= 0,
        language_totals(production, target).code > language_totals(total, target).code
            ==> test_delta(total, production, target).code == 0,
        language_totals(production, target).code <= language_totals(total, target).code
            ==> test_delta(total, production, target).code + language_totals(
            production,
            target,
        ).code == language_totals(total, target).code,
        test_delta(total, production, target).code <= language_totals(total, target).code,
{
}

/// Column sums of the entries of a report that are displayed, and how many
/// entries that is.
#[derive(Clone, Copy, Debug, PartialEq, Eq, Structural)]
pub struct ClocTotals {
    pub files: u64,
    pub blank_lines: u64,
    pub comment_lines: u64,
    pub code_lines: u64,
    pub languages: u64,
}

/// The column sums, as unbounded numbers, of the entries of `es` that pass
/// the language filter.
pub ghost struct ShownTotals {
    pub files: nat,
    pub blank: nat,
    pub comment: nat,
    pub code: nat,
    pub count: nat,
}

pub open spec fn shown_totals(es: Seq<ClocLanguageResult>, filter: Option<Seq<Seq<char>>>) -> ShownTotals
    decreases es.len(),
{
    if es.len() == 0 {
        ShownTotals { files: 0, blank: 0, comment: 0, code: 0, count: 0 }
    } else {
        let t = shown_totals(es.drop_last(), filter);
        let e = es.last();
        if selected(filter, e.language@) {
            ShownTotals {
                files: t.files + e.files as nat,
                blank: t.blank + e.blank_lines as nat,
                comment: t.comment + e.comment_lines as nat,
                code: t.code + e.code_lines as nat,
                count: t.count + 1,
            }
        } else {
            t
        }
    }
}

/// Every sum fits in a `u64`.
pub open spec fn shown_fits(t: ShownTotals) -> bool {
    t.files <= u64::MAX && t.blank <= u64::MAX && t.comment <= u64::MAX && t.code <= u64::MAX
}

proof fn lemma_shown_grow(es: Seq<ClocLanguageResult>, filter: Option<Seq<Seq<char>>>, i: int, j: int)
    requires
        0 <= i <= j <= es.len(),
    ensures
        shown_totals(es.take(i), filter).files <= shown_totals(es.take(j), filter).files,
        shown_totals(es.take(i), filter).blank <= shown_totals(es.take(j), filter).blank,
        shown_totals(es.take(i), filter).comment <= shown_totals(es.take(j), filter).comment,
        shown_totals(es.take(i), filter).code <= shown_totals(es.take(j), filter).code,
    decreases j - i,
{
    if i < j {
        lemma_shown_grow(es, filter, i, j - 1);
        assert(es.take(j).drop_last() =~= es.take(j - 1));
    }
}

/// The column sums of the entries that pass the language filter (all of
/// them where there is none), or `None` where a sum does not fit in a `u64`.
pub fn displayed_totals(result: &ClocResult, filter: &Option<Vec<String>>) -> (r: Option<
    ClocTotals,
>)
    ensures
        ({
            let t = shown_totals(result.languages@, filter_view(*filter));
            match r {
                Some(s) => shown_fits(t) && s.files == t.files && s.blank_lines == t.blank
                    && s.comment_lines == t.comment && s.code_lines == t.code && s.languages
                    == t.count,
                None => !shown_fits(t),
            }
        }),
{
    let ghost fv = filter_view(*filter);
    let es = &result.languages;
    let mut tot = ClocTotals { files: 0, blank_lines: 0, comment_lines: 0, code_lines: 0, languages: 0 };
    let mut i: usize = 0;
    while i < es.len()
        invariant
            i <= es.len(),
            es@ == result.languages@,
            fv == filter_view(*filter),
            shown_totals(es@.take(i as int), fv) == (ShownTotals {
                files: tot.files as nat,
                blank: tot.blank_lines as nat,
                comment: tot.comment_lines as nat,
                code: tot.code_lines as nat,
                count: tot.languages as nat,
            }),
            tot.languages <= i,
        decreases es.len() - i,
    {
        proof {
            assert(es@.take(i + 1).drop_last() =~= es@.take(i as int));
            lemma_shown_grow(es@, fv, i + 1, es@.len() as int);
            assert(es@.take(es@.len() as int) =~= es@);
        }
        let e = &es[i];
        if language_selected(filter, e.language.as_str()) {
            let f = tot.files.checked_add(e.files);
            let b = tot.blank_lines.checked_add(e.blank_lines);
            let c = tot.comment_lines.checked_add(e.comment_lines);
            let d = tot.code_lines.checked_add(e.code_lines);
            match (f, b, c, d) {
                (Some(f), Some(b), Some(c), Some(d)) => {
                    tot = ClocTotals {
                        files: f,
                        blank_lines: b,
                        comment_lines: c,
                        code_lines: d,
                        languages: tot.languages + 1,
                    };
                },
                _ => {
                    return None;
                },
            }
        }
        i = i + 1;
    }
    proof {
        assert(es@.take(i as int) =~= es@);
    }
    Some(tot)
}

/// A JSON value, as far as reports are read: numbers keep only their value
/// as a `u64`, where they have one, and objects keep their members in order.
#[derive(Debug)]
pub enum Json {
    Null,
    Bool(bool),
    Number(Option<u64>),
    Text(String),
    Array(Vec<Json>),
    Object(Vec<(String, Json)>),
}

#[verifier::external_type_specification]
#[verifier::external_body]
pub struct ExJsonValue(serde_json::Value);

/// What `serde_json::from_str` makes of a text, as a [`Json`]: `None` where
/// the text is not one JSON document.
pub uninterp spec fn json_of(text: Seq<char>) -> Option<Json>;

/// Copies a `serde_json::Value` into a [`Json`], one value for one, with
/// each number as `serde_json::Number::as_u64` gives it and each object's
/// members in the map's iteration order.
#[verifier::external_body]
fn json_from_value(v: &serde_json::Value) -> (r: Json) {
    match v {
        serde_json::Value::Null => Json::Null,
        serde_json::Value::Bool(b) => Json::Bool(*b),
        serde_json::Value::Number(n) => Json::Number(n.as_u64()),
        serde_json::Value::String(t) => Json::Text(t.clone()),
        serde_json::Value::Array(a) => Json::Array(a.iter().map(json_from_value).collect()),
        serde_json::Value::Object(m) => Json::Object(
            m.iter().map(|(k, x)| (k.clone(), json_from_value(x))).collect(),
        ),
    }
}

/// Relies on `serde_json::from_str` (into a `serde_json::Value`): parses the
/// text as one JSON document; the result depends on the text alone.
#[verifier::external_body]
fn parse_json(text: &str) -> (r: Option<Json>)
    ensures
        r == json_of(text@),
{
    match serde_json::from_str::<serde_json::Value>(text) {
        Ok(v) => Some(json_from_value(&v)),
        Err(_) => None,
    }
}

/// The first member named `key` of the members `ms`.
pub open spec fn member_get(ms: Seq<(String, Json)>, key: Seq<char>) -> Option<Json>
    decreases ms.len(),
{
    if ms.len() == 0 {
        None
    } else if ms[0].0@ == key {
        Some(ms[0].1)
    } else {
        member_get(ms.drop_first(), key)
    }
}

/// The member `key` of an object; `None` for any other value.
pub open spec fn field(x: Json, key: Seq<char>) -> Option<Json> {
    match x {
        Json::Object(ms) => member_get(ms@, key),
        _ => None,
    }
}

/// A count field's value: its number where it is a `u64`, else zero.
pub open spec fn count_of(x: Option<Json>) -> u64 {
    match x {
        Some(Json::Number(Some(n))) => n,
        _ => 0,
    }
}

/// The text of a string value.
pub open spec fn text_of(x: Json) -> Option<Seq<char>> {
    match x {
        Json::Text(t) => Some(t@),
        _ => None,
    }
}

/// A language entry, as plain values.
pub ghost struct LangEntry {
    pub language: Seq<char>,
    pub files: u64,
    pub blank: u64,
    pub comment: u64,
    pub code: u64,
}

pub open spec fn entry_view(e: ClocLanguageResult) -> LangEntry {
    LangEntry {
        language: e.language@,
        files: e.files,
        blank: e.blank_lines,
        comment: e.comment_lines,
        code: e.code_lines,
    }
}

/// The language entries of a report's members, in order: every member other
/// than `header` and `SUM` whose value is an object, with its `nFiles`,
/// `blank`, `comment` and `code` fields (zero where missing or not a `u64`).
pub open spec fn language_entries(ms: Seq<(String, Json)>) -> Seq<LangEntry>
    decreases ms.len(),
{
    if ms.len() == 0 {
        seq![]
    } else {
        let prev = language_entries(ms.drop_last());
        let k = ms.last().0@;
        let x = ms.last().1;
        if k != "header"@ && k != "SUM"@ && x is Object {
            prev.push(
                LangEntry {
                    language: k,
                    files: count_of(field(x, "nFiles"@)),
                    blank: count_of(field(x, "blank"@)),
                    comment: count_of(field(x, "comment"@)),
                    code: count_of(field(x, "code"@)),
                },
            )
        } else {
            prev
        }
    }
}

/// The version entry of a report's members: from the last `header` member
/// that has a `cloc_version` field, its text if it is a string.
pub open spec fn report_version(ms: Seq<(String, Json)>) -> Option<Option<Seq<char>>>
    decreases ms.len(),
{
    if ms.len() == 0 {
        None
    } else if ms.last().0@ == "header"@ && field(ms.last().1, "cloc_version"@) is Some {
        Some(text_of(field(ms.last().1, "cloc_version"@)->0))
    } else {
        report_version(ms.drop_last())
    }
}

/// The language entries and header line of a parsed report; a value that
/// is not an object has no entries and the default header.
pub open spec fn report_of(j: Json) -> (Seq<LangEntry>, Seq<char>) {
    match j {
        Json::Object(ms) => (language_entries(ms@), header_text(report_version(ms@))),
        _ => (seq![], header_text(None)),
    }
}

/// A report's entries and header line, as plain values.
pub open spec fn result_view(c: ClocResult) -> (Seq<LangEntry>, Seq<char>) {
    (c.languages@.map_values(|e: ClocLanguageResult| entry_view(e)), c.header@)
}

/// The header line of a report: `cloc output` where the report has no
/// version, else `cloc version ` followed by the version, or by `unknown`
/// where the version is not a string.
pub open spec fn header_text(version: Option<Option<Seq<char>>>) -> Seq<char> {
    match version {
        None => "cloc output"@,
        Some(None) => "cloc version unknown"@,
        Some(Some(v)) => "cloc version "@ + v,
    }
}

/// The views of an optional optional string.
pub open spec fn version_view(version: Option<Option<String>>) -> Option<Option<Seq<char>>> {
    match version {
        None => None,
        Some(None) => Some(None),
        Some(Some(v)) => Some(Some(v@)),
    }
}

/// The header line of a report with the given version entry.
pub fn header_line(version: Option<Option<String>>) -> (r: String)
    ensures
        r@ == header_text(version_view(version)),
{
    match version {
        None => "cloc output".to_string(),
        Some(None) => "cloc version unknown".to_string(),
        Some(Some(v)) => {
            let head = chars_of("cloc version ");
            let tail = chars_of(v.as_str());
            string_from_chars(&concat_chars(&head, &tail))
        },
    }
}

/// Whether two texts are equal.
fn same_text(a: &str, b: &str) -> (r: bool)
    ensures
        r == (a@ == b@),
{
    let x = chars_of(a);
    let y = chars_of(b);
    same_chars(x.as_slice(), y.as_slice())
}

/// The member `key` of `x`, where `x` is an object that has one.
pub fn json_field<'a>(x: &'a Json, key: &str) -> (r: Option<&'a Json>)
    ensures
        field(*x, key@) == match r {
            Some(y) => Some(*y),
            None => None,
        },
{
    match x {
        Json::Object(ms) => {
            let mut i: usize = 0;
            proof {
                assert(ms@.skip(0) =~= ms@);
                assert(field(*x, key@) == member_get(ms@, key@));
            }
            while i < ms.len()
                invariant
                    i <= ms.len(),
                    field(*x, key@) == member_get(ms@.skip(i as int), key@),
                decreases ms.len() - i,
            {
                proof {
                    assert(ms@.skip(i as int)[0] == ms@[i as int]);
                    assert(ms@.skip(i as int).drop_first() =~= ms@.skip(i + 1));
                }
                if same_text(ms[i].0.as_str(), key) {
                    return Some(&ms[i].1);
                }
                i = i + 1;
            }
            None
        },
        _ => None,
    }
}

/// The value of a count field: its number where it is a `u64`, else zero.
pub fn count_value(x: Option<&Json>) -> (r: u64)
    ensures
        r == count_of(
            match x {
                Some(y) => Some(*y),
                None => None,
            },
        ),
{
    match x {
        Some(Json::Number(Some(n))) => *n,
        _ => 0,
    }
}

/// The text of a string value.
fn text_value(x: &Json) -> (r: Option<String>)
    ensures
        match r {
            Some(t) => text_of(*x) == Some(t@),
            None => text_of(*x) is None,
        },
{
    match x {
        Json::Text(t) => Some(t.clone()),
        _ => None,
    }
}

/// Reads a parsed report in the counter's JSON shape: one member per
/// language with `nFiles`, `blank`, `comment` and `code`, a `header` member
/// whose `cloc_version` gives the header line, and a `SUM` member that is
/// skipped. Members whose value is not an object are skipped too.
pub fn cloc_result_of(v: &Json) -> (r: ClocResult)
    ensures
        result_view(r) == report_of(*v),
{
    let mut languages: Vec<ClocLanguageResult> = Vec::new();
    let mut version: Option<Option<String>> = None;
    match v {
        Json::Object(ms) => {
            let mut i: usize = 0;
            proof {
                assert(ms@.take(0) =~= Seq::<(String, Json)>::empty());
                assert(languages@.map_values(|e: ClocLanguageResult| entry_view(e)) =~= seq![]);
            }
            while i < ms.len()
                invariant
                    i <= ms.len(),
                    languages@.map_values(|e: ClocLanguageResult| entry_view(e))
                        == language_entries(ms@.take(i as int)),
                    version_view(version) == report_version(ms@.take(i as int)),
                decreases ms.len() - i,
            {
                let ghost t = ms@.take(i + 1);
                proof {
                    assert(t.drop_last() =~= ms@.take(i as int));
                    assert(t.last() == ms@[i as int]);
                }
                let key = &ms[i].0;
                let value = &ms[i].1;
                let is_header = same_text(key.as_str(), "header");
                let is_sum = same_text(key.as_str(), "SUM");
                if is_header {
                    match json_field(value, "cloc_version") {
                        Some(ver) => {
                            version = Some(text_value(ver));
                        },
                        None => {},
                    }
                }
                let is_object = match value {
                    Json::Object(_) => true,
                    _ => false,
                };
                if !is_header && !is_sum && is_object {
                    let ghost before = languages@;
                    let e = ClocLanguageResult {
                        language: key.clone(),
                        files: count_value(json_field(value, "nFiles")),
                        blank_lines: count_value(json_field(value, "blank")),
                        comment_lines: count_value(json_field(value, "comment")),
                        code_lines: count_value(json_field(value, "code")),
                    };
                    languages.push(e);
                    proof {
                        assert(languages@.map_values(|e: ClocLanguageResult| entry_view(e))
                            =~= before.map_values(|e: ClocLanguageResult| entry_view(e)).push(
                            entry_view(e),
                        ));
                    }
                }
                i = i + 1;
            }
            proof {
                assert(ms@.take(i as int) =~= ms@);
            }
        },
        _ => {},
    }
    let header = header_line(version);
    ClocResult { header, languages }
}

/// Reads an aggregate report from the counter's JSON output: fails exactly
/// where the text is not JSON, and otherwise reads it as [`cloc_result_of`]
/// does.
pub fn parse_cloc_json(json_str: &str) -> (r: Result<ClocResult, ClocError>)
    ensures
        match json_of(json_str@) {
            None => r == Err::<ClocResult, ClocError>(ClocError::InvalidJson),
            Some(j) => r matches Ok(c) && result_view(c) == report_of(j),
        },
{
    match parse_json(json_str) {
        Some(j) => Ok(cloc_result_of(&j)),
        None => Err(ClocError::InvalidJson),
    }
}

} // verus!
