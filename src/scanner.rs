//! The per-line scanner: one forward pass over a file's lines that sorts
//! each into empty, comment or code, flags code lines that hold a string,
//! and carries the two multi-line flags from one line to the next.
use vstd::prelude::*;

use crate::language::{family_of, language_family, Family};
use crate::text::{
    chars_of, contains, contains_char, count_occurrences, has_infix, has_prefix, lines, lines_of,
    occurrences, starts_with, string_from_chars, trim, trimmed_of,
};

verus! {

/// The flags carried from one line of a file to the next. A scan starts with
/// both cleared.
#[derive(Clone, Copy, Debug, PartialEq, Eq, Structural)]
pub struct ScannerState {
    pub in_multiline_comment: bool,
    pub in_multiline_string: bool,
}

/// How one line is counted.
#[derive(Clone, Copy, Debug, PartialEq, Eq, Structural)]
pub enum LineKind {
    Empty,
    Comment,
    /// A code line; `string` is set when it holds a string literal.
    Code { string: bool },
}

/// Per-file line counts. Every line is counted in exactly one of
/// code, comment and empty; `string_lines` counts code lines that hold a string.
#[derive(Clone, Copy, Debug, PartialEq, Eq, Structural)]
pub struct LineStats {
    pub code_lines: u64,
    pub comment_lines: u64,
    pub empty_lines: u64,
    pub string_lines: u64,
}

/// The mathematical content of a [`LineStats`].
pub ghost struct LineCounts {
    pub code: nat,
    pub comment: nat,
    pub empty: nat,
    pub string: nat,
}

impl View for LineStats {
    type V = LineCounts;

    open spec fn view(&self) -> LineCounts {
        LineCounts {
            code: self.code_lines as nat,
            comment: self.comment_lines as nat,
            empty: self.empty_lines as nat,
            string: self.string_lines as nat,
        }
    }
}

/// How a language marks comments and strings.
pub struct LineRules {
    /// A trimmed line that starts with one of these is a comment.
    pub comment_prefixes: Vec<Vec<char>>,
    /// Whether `/*` ... `*/` block comments are recognised.
    pub block_comments: bool,
    /// Whether `"""` / `'''` multi-line strings are recognised.
    pub triple_quoted_strings: bool,
    /// A code line that holds one of these is a string line.
    pub quote_chars: Vec<char>,
}

/// The mathematical content of a [`LineRules`].
pub ghost struct RulesModel {
    pub prefixes: Seq<Seq<char>>,
    pub block_comments: bool,
    pub triple_quoted_strings: bool,
    pub quotes: Seq<char>,
}

impl View for LineRules {
    type V = RulesModel;

    open spec fn view(&self) -> RulesModel {
        RulesModel {
            prefixes: self.comment_prefixes@.map_values(|p: Vec<char>| p@),
            block_comments: self.block_comments,
            triple_quoted_strings: self.triple_quoted_strings,
            quotes: self.quote_chars@,
        }
    }
}

pub open spec fn block_open() -> Seq<char> {
    seq!['/', '*']
}

pub open spec fn block_close() -> Seq<char> {
    seq!['*', '/']
}

pub open spec fn triple_double() -> Seq<char> {
    seq!['"', '"', '"']
}

pub open spec fn triple_single() -> Seq<char> {
    seq!['\'', '\'', '\'']
}

/// The line-comment prefixes of a family.
pub open spec fn comment_prefixes_of(f: Family) -> Seq<Seq<char>> {
    match f {
        Family::Python => seq![seq!['#']],
        Family::CLike => seq![seq!['/', '/'], seq!['#']],
        Family::Other => seq![seq!['/', '/'], seq!['#'], seq!['-', '-']],
        _ => seq![seq!['/', '/']],
    }
}

/// The characters that mark a string on a code line of a family.
pub open spec fn quote_chars_of(f: Family) -> Seq<char> {
    match f {
        Family::Script | Family::Go => seq!['"', '\'', '`'],
        _ => seq!['"', '\''],
    }
}

/// The rule descriptor of a family.
pub open spec fn rules_of(f: Family) -> RulesModel {
    RulesModel {
        prefixes: comment_prefixes_of(f),
        block_comments: !(f == Family::Python || f == Family::Other),
        triple_quoted_strings: f == Family::Python,
        quotes: quote_chars_of(f),
    }
}

/// `t` starts with one of the prefixes `ps`.
pub open spec fn starts_with_any(t: Seq<char>, ps: Seq<Seq<char>>) -> bool {
    exists|i: int| 0 <= i < ps.len() && has_prefix(t, #[trigger] ps[i])
}

/// `t` holds one of the characters `qs`.
pub open spec fn holds_any(t: Seq<char>, qs: Seq<char>) -> bool {
    exists|i: int| 0 <= i < qs.len() && t.contains(#[trigger] qs[i])
}

/// `t` holds a triple-quote marker.
pub open spec fn holds_triple(t: Seq<char>) -> bool {
    has_infix(t, triple_double()) || has_infix(t, triple_single())
}

/// How a non-empty trimmed line `t` is counted, and the state after it.
pub open spec fn classify(r: RulesModel, st: ScannerState, t: Seq<char>) -> (LineKind, ScannerState) {
    if r.triple_quoted_strings && st.in_multiline_string {
        (
            LineKind::Code { string: true },
            ScannerState { in_multiline_string: !holds_triple(t), ..st },
        )
    } else if r.block_comments && st.in_multiline_comment {
        (
            LineKind::Comment,
            ScannerState { in_multiline_comment: !has_infix(t, block_close()), ..st },
        )
    } else if starts_with_any(t, r.prefixes) {
        (LineKind::Comment, st)
    } else if r.block_comments && has_prefix(t, block_open()) {
        (
            LineKind::Comment,
            ScannerState { in_multiline_comment: !has_infix(t, block_close()), ..st },
        )
    } else if r.triple_quoted_strings && holds_triple(t) {
        (
            LineKind::Code { string: true },
            ScannerState {
                in_multiline_string: occurrences(t, triple_double()) == 1 || occurrences(
                    t,
                    triple_single(),
                ) == 1,
                ..st
            },
        )
    } else {
        (LineKind::Code { string: holds_any(t, r.quotes) }, st)
    }
}

/// How a trimmed line `t` is counted, and the state after it.
pub open spec fn step(r: RulesModel, st: ScannerState, t: Seq<char>) -> (LineKind, ScannerState) {
    if t.len() == 0 {
        (LineKind::Empty, st)
    } else {
        classify(r, st, t)
    }
}

pub open spec fn zero_counts() -> LineCounts {
    LineCounts { code: 0, comment: 0, empty: 0, string: 0 }
}

pub open spec fn fresh_state() -> ScannerState {
    ScannerState { in_multiline_comment: false, in_multiline_string: false }
}

/// The counts after one more line of kind `k`.
pub open spec fn tally(s: LineCounts, k: LineKind) -> LineCounts {
    match k {
        LineKind::Empty => LineCounts { empty: s.empty + 1, ..s },
        LineKind::Comment => LineCounts { comment: s.comment + 1, ..s },
        LineKind::Code { string } => LineCounts {
            code: s.code + 1,
            string: if string {
                s.string + 1
            } else {
                s.string
            },
            ..s
        },
    }
}

/// The counts and the state after scanning the trimmed lines `ts` from a
/// fresh state.
pub open spec fn scan(r: RulesModel, ts: Seq<Seq<char>>) -> (LineCounts, ScannerState)
    decreases ts.len(),
{
    if ts.len() == 0 {
        (zero_counts(), fresh_state())
    } else {
        let prev = scan(r, ts.drop_last());
        let next = step(r, prev.1, ts.last());
        (tally(prev.0, next.0), next.1)
    }
}

/// The trimmed lines of a text.
pub open spec fn trimmed_lines(content: Seq<char>) -> Seq<Seq<char>> {
    lines_of(content).map_values(|l: Seq<char>| trimmed_of(l))
}

/// The line counts of `content` scanned under the rules `r`.
pub open spec fn detailed_stats(r: RulesModel, content: Seq<char>) -> LineCounts {
    scan(r, trimmed_lines(content)).0
}

/// The counts add up to the number of lines scanned, and string lines are
/// code lines.
pub open spec fn stats_consistent(s: LineCounts, n: int) -> bool {
    &&& s.code + s.comment + s.empty == n
    &&& s.string <= s.code
}

/// Each line scanned is counted once, in one of code, comment and empty,
/// and only code lines are string lines.
pub proof fn lemma_scan_counts_each_line(r: RulesModel, ts: Seq<Seq<char>>)
    ensures
        stats_consistent(scan(r, ts).0, ts.len() as int),
    decreases ts.len(),
{
    if ts.len() > 0 {
        lemma_scan_counts_each_line(r, ts.drop_last());
    }
}

/// Lines that are blank after trimming are all counted as empty, and leave
/// the state fresh.
pub proof fn lemma_blank_lines_are_empty(r: RulesModel, ts: Seq<Seq<char>>)
    requires
        forall|i: int| 0 <= i < ts.len() ==> (#[trigger] ts[i]).len() == 0,
    ensures
        scan(r, ts).0 == (LineCounts { code: 0, comment: 0, empty: ts.len(), string: 0 }),
        scan(r, ts).1 == fresh_state(),
    decreases ts.len(),
{
    if ts.len() > 0 {
        let p = ts.drop_last();
        assert forall|i: int| 0 <= i < p.len() implies (#[trigger] p[i]).len() == 0 by {
            assert(p[i] == ts[i]);
        }
        lemma_blank_lines_are_empty(r, p);
    }
}

/// A file whose every line is blank has no code, comment or string lines,
/// and one empty line per line, whatever the language.
pub proof fn lemma_blank_file(content: Seq<char>, language: Seq<char>)
    requires
        forall|i: int|
            0 <= i < lines_of(content).len() ==> (#[trigger] trimmed_of(lines_of(content)[i])).len()
                == 0,
    ensures
        detailed_stats(rules_of(family_of(language)), content) == (LineCounts {
            code: 0,
            comment: 0,
            empty: lines_of(content).len(),
            string: 0,
        }),
{
    let ts = trimmed_lines(content);
    assert forall|i: int| 0 <= i < ts.len() implies (#[trigger] ts[i]).len() == 0 by {
        assert(ts[i] == trimmed_of(lines_of(content)[i]));
    }
    lemma_blank_lines_are_empty(rules_of(family_of(language)), ts);
}

/// Scanning is a function of the content and the language alone: nothing
/// from an earlier scan carries over, so scanning the same content twice
/// gives the same counts.
pub proof fn lemma_scan_repeatable(content: Seq<char>, language: Seq<char>, again: Seq<char>)
    requires
        again == content,
    ensures
        detailed_stats(rules_of(family_of(language)), content) == detailed_stats(
            rules_of(family_of(language)),
            again,
        ),
        scan(rules_of(family_of(language)), seq![]).1 == fresh_state(),
{
}

impl LineRules {
    /// The rule descriptor of a family.
    pub fn for_family(f: Family) -> (r: LineRules)
        ensures
            r@ == rules_of(f),
    {
        let slash = vec!['/', '/'];
        let hash = vec!['#'];
        let dash = vec!['-', '-'];
        let ghost (sl, ha, da) = (slash@, hash@, dash@);
        let comment_prefixes: Vec<Vec<char>> = match f {
            Family::Python => vec![hash],
            Family::CLike => vec![slash, hash],
            Family::Other => vec![slash, hash, dash],
            _ => vec![slash],
        };
        proof {
            let ps = comment_prefixes@.map_values(|p: Vec<char>| p@);
            assert(sl == seq!['/', '/'] && ha == seq!['#'] && da == seq!['-', '-']);
            assert(ps =~= comment_prefixes_of(f));
        }
        let quote_chars: Vec<char> = match f {
            Family::Script | Family::Go => vec!['"', '\'', '`'],
            _ => vec!['"', '\''],
        };
        let block_comments = match f {
            Family::Python | Family::Other => false,
            _ => true,
        };
        let r = LineRules {
            comment_prefixes,
            block_comments,
            triple_quoted_strings: f == Family::Python,
            quote_chars,
        };
        proof {
            assert(r@.prefixes =~= comment_prefixes_of(f));
            assert(r@.quotes =~= quote_chars_of(f));
        }
        r
    }

    /// The rule descriptor of a language, looked up without regard to case.
    pub fn for_language(language: &str) -> (r: LineRules)
        ensures
            r@ == rules_of(family_of(language@)),
    {
        LineRules::for_family(language_family(language))
    }
}

/// Whether `t` starts with one of the rules' comment prefixes.
fn starts_with_comment(rules: &LineRules, t: &[char]) -> (b: bool)
    ensures
        b == starts_with_any(t@, rules@.prefixes),
{
    let mut i: usize = 0;
    while i < rules.comment_prefixes.len()
        invariant
            forall|j: int| 0 <= j < i ==> !has_prefix(t@, #[trigger] rules@.prefixes[j]),
        decreases rules.comment_prefixes.len() - i,
    {
        proof {
            assert(rules@.prefixes[i as int] == rules.comment_prefixes@[i as int]@);
        }
        if starts_with(t, rules.comment_prefixes[i].as_slice()) {
            return true;
        }
        i = i + 1;
    }
    false
}

/// Whether `t` holds one of the rules' quote characters.
fn holds_quote(rules: &LineRules, t: &[char]) -> (b: bool)
    ensures
        b == holds_any(t@, rules@.quotes),
{
    let mut i: usize = 0;
    while i < rules.quote_chars.len()
        invariant
            forall|j: int| 0 <= j < i ==> !t@.contains(#[trigger] rules.quote_chars@[j]),
        decreases rules.quote_chars.len() - i,
    {
        if contains_char(t, rules.quote_chars[i]) {
            return true;
        }
        i = i + 1;
    }
    false
}

/// Whether `t` holds a triple-quote marker.
fn has_triple_quote(t: &[char]) -> (b: bool)
    ensures
        b == holds_triple(t@),
{
    let dq = vec!['"', '"', '"'];
    let sq = vec!['\'', '\'', '\''];
    contains(t, dq.as_slice()) || contains(t, sq.as_slice())
}

/// How the trimmed line `t` is counted when the scan is in `state`, and the
/// state that the next line sees.
pub fn classify_line(rules: &LineRules, state: ScannerState, t: &[char]) -> (r: (
    LineKind,
    ScannerState,
))
    ensures
        r == step(rules@, state, t@),
{
    if t.len() == 0 {
        return (LineKind::Empty, state);
    }
    let close = vec!['*', '/'];
    if rules.triple_quoted_strings && state.in_multiline_string {
        let closed = has_triple_quote(t);
        (LineKind::Code { string: true }, ScannerState { in_multiline_string: !closed, ..state })
    } else if rules.block_comments && state.in_multiline_comment {
        let closed = contains(t, close.as_slice());
        (LineKind::Comment, ScannerState { in_multiline_comment: !closed, ..state })
    } else if starts_with_comment(rules, t) {
        (LineKind::Comment, state)
    } else if rules.block_comments && starts_with(t, vec!['/', '*'].as_slice()) {
        let closed = contains(t, close.as_slice());
        (LineKind::Comment, ScannerState { in_multiline_comment: !closed, ..state })
    } else if rules.triple_quoted_strings && has_triple_quote(t) {
        let dq = vec!['"', '"', '"'];
        let sq = vec!['\'', '\'', '\''];
        let opens = count_occurrences(t, dq.as_slice()) == 1 || count_occurrences(t, sq.as_slice())
            == 1;
        (LineKind::Code { string: true }, ScannerState { in_multiline_string: opens, ..state })
    } else {
        (LineKind::Code { string: holds_quote(rules, t) }, state)
    }
}

/// `s` counted with one more line of kind `k`.
fn add_line(s: LineStats, k: LineKind, n: Ghost<int>) -> (r: LineStats)
    requires
        stats_consistent(s@, n@),
        n@ < u64::MAX,
    ensures
        r@ == tally(s@, k),
        stats_consistent(r@, n@ + 1),
{
    match k {
        LineKind::Empty => LineStats { empty_lines: s.empty_lines + 1, ..s },
        LineKind::Comment => LineStats { comment_lines: s.comment_lines + 1, ..s },
        LineKind::Code { string } => LineStats {
            code_lines: s.code_lines + 1,
            string_lines: if string {
                s.string_lines + 1
            } else {
                s.string_lines
            },
            ..s
        },
    }
}

/// Scans already-trimmed lines in order from a fresh state.
pub fn scan_lines(rules: &LineRules, trimmed: &Vec<Vec<char>>) -> (r: LineStats)
    ensures
        r@ == scan(rules@, trimmed@.map_values(|t: Vec<char>| t@)).0,
        stats_consistent(r@, trimmed@.len() as int),
{
    let ghost ts = trimmed@.map_values(|t: Vec<char>| t@);
    let mut stats = LineStats { code_lines: 0, comment_lines: 0, empty_lines: 0, string_lines: 0 };
    let mut state = ScannerState { in_multiline_comment: false, in_multiline_string: false };
    let mut i: usize = 0;
    while i < trimmed.len()
        invariant
            i <= trimmed.len(),
            ts == trimmed@.map_values(|t: Vec<char>| t@),
            (stats@, state) == scan(rules@, ts.take(i as int)),
            stats_consistent(stats@, i as int),
        decreases trimmed.len() - i,
    {
        proof {
            assert(ts.take(i + 1).drop_last() =~= ts.take(i as int));
        }
        let (k, next) = classify_line(rules, state, trimmed[i].as_slice());
        stats = add_line(stats, k, Ghost(i as int));
        state = next;
        i = i + 1;
    }
    proof {
        assert(ts.take(i as int) =~= ts);
    }
    stats
}

/// The trimmed characters of each line of `content`.
fn trimmed_line_chars(content: &str) -> (r: Vec<Vec<char>>)
    ensures
        r@.map_values(|t: Vec<char>| t@) == trimmed_lines(content@),
{
    let ls = lines(content);
    let mut out: Vec<Vec<char>> = Vec::new();
    let mut i: usize = 0;
    while i < ls.len()
        invariant
            i <= ls.len(),
            ls@.map_values(|l: Vec<char>| l@) == lines_of(content@),
            out@.len() == i,
            forall|j: int| 0 <= j < i ==> (#[trigger] out@[j])@ == trimmed_of(lines_of(content@)[j]),
        decreases ls.len() - i,
    {
        proof {
            assert(ls@.map_values(|l: Vec<char>| l@)[i as int] == ls@[i as int]@);
        }
        let line = string_from_chars(&ls[i]);
        let t = trim(line.as_str());
        out.push(chars_of(t));
        i = i + 1;
    }
    proof {
        assert(out@.map_values(|t: Vec<char>| t@) =~= trimmed_lines(content@));
    }
    out
}

/// Counts the code, comment, empty and string lines of `content` read as
/// source code in `language` (looked up without regard to case).
pub fn count_lines_detailed(content: &str, language: &str) -> (r: LineStats)
    ensures
        r@ == detailed_stats(rules_of(family_of(language@)), content@),
        stats_consistent(r@, lines_of(content@).len() as int),
{
    let rules = LineRules::for_language(language);
    let ts = trimmed_line_chars(content);
    let r = scan_lines(&rules, &ts);
    proof {
        assert(ts@.len() == trimmed_lines(content@).len());
    }
    r
}

/// A trimmed line that the plain count takes for code: not empty, and not
/// starting with `//` or `#`.
pub open spec fn is_plain_code(t: Seq<char>) -> bool {
    t.len() > 0 && !has_prefix(t, seq!['/', '/']) && !has_prefix(t, seq!['#'])
}

/// The number of trimmed lines in `ts` that the plain count takes for code.
pub open spec fn plain_code_count(ts: Seq<Seq<char>>) -> nat
    decreases ts.len(),
{
    if ts.len() == 0 {
        0
    } else {
        plain_code_count(ts.drop_last()) + if is_plain_code(ts.last()) {
            1nat
        } else {
            0nat
        }
    }
}

/// Counts the lines of `content` that are neither blank nor start, once
/// trimmed, with `//` or `#`.
pub fn count_code_lines(content: &str) -> (r: u64)
    ensures
        r == plain_code_count(trimmed_lines(content@)),
{
    let ts = trimmed_line_chars(content);
    count_plain_code(&ts)
}

/// Counts the already-trimmed lines that are neither empty nor start with
/// `//` or `#`.
pub fn count_plain_code(ts: &Vec<Vec<char>>) -> (r: u64)
    ensures
        r == plain_code_count(ts@.map_values(|t: Vec<char>| t@)),
{
    let ghost tv = ts@.map_values(|t: Vec<char>| t@);
    let slash = vec!['/', '/'];
    let hash = vec!['#'];
    let mut n: u64 = 0;
    let mut i: usize = 0;
    while i < ts.len()
        invariant
            i <= ts.len(),
            tv == ts@.map_values(|t: Vec<char>| t@),
            slash@ == seq!['/', '/'],
            hash@ == seq!['#'],
            n == plain_code_count(tv.take(i as int)),
            n <= i,
        decreases ts.len() - i,
    {
        proof {
            assert(tv.take(i + 1).drop_last() =~= tv.take(i as int));
        }
        let t = ts[i].as_slice();
        if t.len() > 0 && !starts_with(t, slash.as_slice()) && !starts_with(t, hash.as_slice()) {
            n = n + 1;
        }
        i = i + 1;
    }
    proof {
        assert(tv.take(i as int) =~= tv);
    }
    n
}

} // verus!
