//! Search functionality: matchers, the line search engine, and output
//! formatting.

use vstd::prelude::*;

use crate::cli::Config;
use crate::text::{
    contains_pattern, contains_substring, dec_digits, lower_of, lowercase, usize_to_string,
};

verus! {

/// Literal matching: the pattern occurs in the line as a substring.
pub open spec fn literal_match(pattern: Seq<char>, line: Seq<char>) -> bool {
    contains_substring(line, pattern)
}

/// Case-insensitive matching: the folded pattern occurs in the folded line.
pub open spec fn case_fold_match(pattern: Seq<char>, line: Seq<char>) -> bool {
    contains_substring(lower_of(line), lower_of(pattern))
}

/// What a configuration asks a line to be matched against.
pub open spec fn config_matches(config: Config, line: Seq<char>) -> bool {
    if config.ignore_case {
        case_fold_match(config.pattern@, line)
    } else {
        literal_match(config.pattern@, line)
    }
}

/// Case-insensitive matching is literal matching on folded inputs.
pub proof fn lemma_case_fold_is_literal_on_folded(pattern: Seq<char>, line: Seq<char>)
    ensures
        case_fold_match(pattern, line) == literal_match(lower_of(pattern), lower_of(line)),
{
}

/// A matcher that can check if a line matches the pattern.
pub trait Matcher: Sized {
    /// What the matcher decides, as a predicate on the line's characters.
    spec fn spec_matches(&self, line: Seq<char>) -> bool;

    /// Check if the given line matches.
    fn matches(&self, line: &str) -> (r: bool)
        ensures
            r == self.spec_matches(line@),
    ;
}

/// Case-sensitive literal matcher.
pub struct LiteralMatcher {
    pub pattern: String,
}

impl LiteralMatcher {
    /// A matcher for exact substring containment of `pattern`.
    pub fn new(pattern: String) -> (m: Self)
        ensures
            m.pattern == pattern,
    {
        LiteralMatcher { pattern }
    }
}

impl Matcher for LiteralMatcher {
    open spec fn spec_matches(&self, line: Seq<char>) -> bool {
        literal_match(self.pattern@, line)
    }

    fn matches(&self, line: &str) -> (r: bool) {
        contains_pattern(line, self.pattern.as_str())
    }
}

/// Case-insensitive literal matcher, holding the pattern folded once.
pub struct CaseInsensitiveMatcher {
    pub pattern_lower: String,
}

impl CaseInsensitiveMatcher {
    /// A matcher for substring containment under lowercase folding.
    pub fn new(pattern: String) -> (m: Self)
        ensures
            m.pattern_lower@ == lower_of(pattern@),
    {
        CaseInsensitiveMatcher { pattern_lower: lowercase(pattern.as_str()) }
    }
}

impl Matcher for CaseInsensitiveMatcher {
    open spec fn spec_matches(&self, line: Seq<char>) -> bool {
        contains_substring(lower_of(line), self.pattern_lower@)
    }

    fn matches(&self, line: &str) -> (r: bool) {
        let folded = lowercase(line);
        contains_pattern(folded.as_str(), self.pattern_lower.as_str())
    }
}

/// The closed set of matchers a configuration can ask for.
pub enum AnyMatcher {
    Literal(LiteralMatcher),
    CaseFold(CaseInsensitiveMatcher),
}

impl Matcher for AnyMatcher {
    open spec fn spec_matches(&self, line: Seq<char>) -> bool {
        match self {
            AnyMatcher::Literal(m) => m.spec_matches(line),
            AnyMatcher::CaseFold(m) => m.spec_matches(line),
        }
    }

    fn matches(&self, line: &str) -> (r: bool) {
        match self {
            AnyMatcher::Literal(m) => m.matches(line),
            AnyMatcher::CaseFold(m) => m.matches(line),
        }
    }
}

/// Create the appropriate matcher based on configuration.
pub fn create_matcher(config: &Config) -> (m: AnyMatcher)
    ensures
        forall|l: Seq<char>| #[trigger] m.spec_matches(l) == config_matches(*config, l),
{
    if config.ignore_case {
        AnyMatcher::CaseFold(CaseInsensitiveMatcher::new(config.pattern.clone()))
    } else {
        AnyMatcher::Literal(LiteralMatcher::new(config.pattern.clone()))
    }
}

/// Result of a line match.
pub struct MatchResult {
    /// The original line content.
    pub line: String,
    /// Line number (1-based).
    pub line_number: usize,
    /// Whether this line matched the pattern.
    pub matched: bool,
}

/// The mathematical value of a `MatchResult`.
pub ghost struct MatchResultView {
    pub line: Seq<char>,
    pub line_number: int,
    pub matched: bool,
}

impl View for MatchResult {
    type V = MatchResultView;

    open spec fn view(&self) -> MatchResultView {
        MatchResultView {
            line: self.line@,
            line_number: self.line_number as int,
            matched: self.matched,
        }
    }
}

/// The records the search engine emits for a source whose lines start at
/// ordinal `start`: one record per readable line, carrying the line's true
/// ordinal position and whether the predicate `p` holds of it; unreadable
/// lines (`None`) yield no record but still advance the position.
pub open spec fn search_spec(
    p: spec_fn(Seq<char>) -> bool,
    lines: Seq<Option<Seq<char>>>,
    start: int,
) -> Seq<MatchResultView>
    decreases lines.len(),
{
    if lines.len() == 0 {
        Seq::empty()
    } else {
        let rest = search_spec(p, lines.drop_first(), start + 1);
        match lines[0] {
            Some(l) => seq![
                MatchResultView { line: l, line_number: start, matched: p(l) },
            ] + rest,
            None => rest,
        }
    }
}

/// The record (or nothing) one line contributes at position `pos`.
pub open spec fn record_of(p: spec_fn(Seq<char>) -> bool, x: Option<Seq<char>>, pos: int) -> Seq<
    MatchResultView,
> {
    match x {
        Some(l) => seq![MatchResultView { line: l, line_number: pos, matched: p(l) }],
        None => Seq::empty(),
    }
}

/// Appending one line to a source appends that line's record.
pub proof fn lemma_search_spec_snoc(
    p: spec_fn(Seq<char>) -> bool,
    lines: Seq<Option<Seq<char>>>,
    x: Option<Seq<char>>,
    start: int,
)
    ensures
        search_spec(p, lines.push(x), start) == search_spec(p, lines, start) + record_of(
            p,
            x,
            start + lines.len(),
        ),
    decreases lines.len(),
{
    if lines.len() == 0 {
        reveal_with_fuel(search_spec, 2);
        assert(lines.push(x).drop_first() =~= Seq::<Option<Seq<char>>>::empty());
        assert(lines.push(x)[0] == x);
        assert(search_spec(p, lines.push(x), start) =~= record_of(p, x, start));
        assert(search_spec(p, lines, start) + record_of(p, x, start) =~= record_of(p, x, start));
    } else {
        assert(lines.push(x).drop_first() =~= lines.drop_first().push(x));
        lemma_search_spec_snoc(p, lines.drop_first(), x, start + 1);
        assert(lines.push(x)[0] == lines[0]);
        let head = record_of(p, lines[0], start);
        let rest = search_spec(p, lines.drop_first(), start + 1);
        let tail_rec = record_of(p, x, start + lines.len());
        assert(search_spec(p, lines, start) =~= head + rest);
        assert(search_spec(p, lines.push(x), start) =~= head + (rest + tail_rec));
        assert(head + (rest + tail_rec) =~= (head + rest) + tail_rec);
    }
}

/// The predicate a matcher decides, as a value.
pub open spec fn matcher_pred<M: Matcher>(m: &M) -> spec_fn(Seq<char>) -> bool {
    |l: Seq<char>| m.spec_matches(l)
}

/// Search through the lines of one source and yield one match record per
/// readable line, numbered by its true ordinal position.
pub fn search_lines<M: Matcher>(lines: &Vec<Option<String>>, matcher: &M) -> (res: Vec<MatchResult>)
    ensures
        res@.map_values(|r: MatchResult| r@) == search_spec(
            matcher_pred(matcher),
            lines.deep_view(),
            1,
        ),
{
    let ghost p = matcher_pred(matcher);
    let ghost dv = lines.deep_view();
    let mut out: Vec<MatchResult> = Vec::new();
    let n = lines.len();
    proof {
        assert(out@.map_values(|r: MatchResult| r@) =~= search_spec(p, dv.take(0), 1));
    }
    for k in 0..n
        invariant
            n == lines.len(),
            dv == lines.deep_view(),
            p == matcher_pred(matcher),
            out@.map_values(|r: MatchResult| r@) == search_spec(p, dv.take(k as int), 1),
    {
        proof {
            assert(dv.len() == lines@.len());
            assert(dv[k as int] == lines@[k as int].deep_view());
        }
        let ghost prev_v = out@;
        match &lines[k] {
            Some(l) => {
                let matched = matcher.matches(l.as_str());
                let record = MatchResult { line: l.clone(), line_number: k + 1, matched };
                proof {
                    assert(lines@[k as int] == Some(*l));
                    assert(record@ == (MatchResultView {
                        line: l@,
                        line_number: k + 1,
                        matched: p(l@),
                    }));
                }
                out.push(record);
            },
            None => {
                proof {
                    assert(lines@[k as int] is None);
                }
            },
        }
        proof {
            lemma_search_spec_snoc(p, dv.take(k as int), dv[k as int], 1);
            assert(dv.take(k as int).push(dv[k as int]) =~= dv.take(k + 1));
            assert(out@.map_values(|r: MatchResult| r@) =~= search_spec(p, dv.take(k as int), 1)
                + record_of(p, dv[k as int], k + 1));
        }
    }
    proof {
        assert(dv.take(n as int) =~= dv);
    }
    out
}

/// Each emitted record carries the true ordinal position of its line in the
/// source, the records come in source order, and every readable line is
/// recorded — whether or not it matched, and however many lines failed to
/// read.
pub proof fn lemma_search_positions(
    p: spec_fn(Seq<char>) -> bool,
    lines: Seq<Option<Seq<char>>>,
    start: int,
)
    ensures
        forall|k: int| 0 <= k < search_spec(p, lines, start).len() ==> {
            let r = #[trigger] search_spec(p, lines, start)[k];
            &&& start <= r.line_number < start + lines.len()
            &&& lines[r.line_number - start] == Some(r.line)
            &&& r.matched == p(r.line)
        },
        forall|k1: int, k2: int|
            0 <= k1 < k2 < search_spec(p, lines, start).len() ==> #[trigger] search_spec(
                p,
                lines,
                start,
            )[k1].line_number < #[trigger] search_spec(p, lines, start)[k2].line_number,
    decreases lines.len(),
{
    if lines.len() != 0 {
        lemma_search_positions(p, lines.drop_first(), start + 1);
        let rest = search_spec(p, lines.drop_first(), start + 1);
        assert forall|j: int| 0 <= j < lines.drop_first().len() implies lines.drop_first()[j]
            == lines[j + 1] by {}
    }
}

/// Line numbering: a source of N readable lines yields exactly N records,
/// numbered 1 through N in order, one per line in source order, however many
/// lines matched.
pub proof fn lemma_search_line_numbering(p: spec_fn(Seq<char>) -> bool, lines: Seq<Option<Seq<char>>>)
    requires
        forall|i: int| 0 <= i < lines.len() ==> lines[i] is Some,
    ensures
        search_spec(p, lines, 1).len() == lines.len(),
        forall|k: int| 0 <= k < lines.len() ==> {
            let r = #[trigger] search_spec(p, lines, 1)[k];
            &&& r.line_number == k + 1
            &&& lines[k] == Some(r.line)
            &&& r.matched == p(r.line)
        },
{
    lemma_search_numbering_from(p, lines, 1);
}

/// The display line for a match record: an optional `name:` prefix, an
/// optional `number:` prefix, then the raw line content.
pub open spec fn format_spec(
    line: Seq<char>,
    line_number: int,
    name: Option<Seq<char>>,
    show_filename: bool,
    show_line_numbers: bool,
) -> Seq<char> {
    (if show_filename && name is Some {
        name->0 + seq![':']
    } else {
        Seq::empty()
    }) + (if show_line_numbers {
        dec_digits(line_number) + seq![':']
    } else {
        Seq::empty()
    }) + line
}

/// Formatting is a pure function of its inputs: two renderings of the same
/// record, name and flags are identical.
pub proof fn lemma_format_deterministic(
    r1: Seq<char>,
    r2: Seq<char>,
    line: Seq<char>,
    line_number: int,
    name: Option<Seq<char>>,
    show_filename: bool,
    show_line_numbers: bool,
)
    requires
        r1 == format_spec(line, line_number, name, show_filename, show_line_numbers),
        r2 == format_spec(line, line_number, name, show_filename, show_line_numbers),
    ensures
        r1 == r2,
{
}

/// Format output for a match.
pub fn format_match(
    match_result: &MatchResult,
    source_name: Option<&str>,
    show_filename: bool,
    show_line_numbers: bool,
) -> (r: String)
    ensures
        r@ == format_spec(
            match_result.line@,
            match_result.line_number as int,
            source_name.deep_view(),
            show_filename,
            show_line_numbers,
        ),
{
    proof {
        reveal_strlit(":");
        assert(":"@ =~= seq![':']);
    }
    let mut out = String::new();
    if show_filename {
        if let Some(name) = source_name {
            out.append(name);
            out.append(":");
        }
    }
    if show_line_numbers {
        let num = usize_to_string(match_result.line_number);
        out.append(num.as_str());
        out.append(":");
    }
    out.append(match_result.line.as_str());
    proof {
        assert(out@ =~= format_spec(
            match_result.line@,
            match_result.line_number as int,
            source_name.deep_view(),
            show_filename,
            show_line_numbers,
        ));
    }
    out
}

proof fn lemma_search_numbering_from(
    p: spec_fn(Seq<char>) -> bool,
    lines: Seq<Option<Seq<char>>>,
    start: int,
)
    requires
        forall|i: int| 0 <= i < lines.len() ==> lines[i] is Some,
    ensures
        search_spec(p, lines, start).len() == lines.len(),
        forall|k: int| 0 <= k < lines.len() ==> {
            let r = #[trigger] search_spec(p, lines, start)[k];
            &&& r.line_number == start + k
            &&& lines[k] == Some(r.line)
            &&& r.matched == p(r.line)
        },
    decreases lines.len(),
{
    if lines.len() != 0 {
        lemma_search_numbering_from(p, lines.drop_first(), start + 1);
        assert forall|j: int| 0 <= j < lines.drop_first().len() implies lines.drop_first()[j]
            == lines[j + 1] by {}
    }
}

} // verus!
