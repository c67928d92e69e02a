//! Orchestration: drive the matcher across the opened sources, format the
//! matching lines, and aggregate the overall outcome.

use vstd::prelude::*;

use crate::cli::Config;
use crate::errors::ExitCode;
use crate::io::InputSource;
use crate::search::{
    config_matches, create_matcher, format_match, format_spec, matcher_pred, search_lines,
    search_spec, MatchResult, MatchResultView, Matcher,
};

verus! {

/// The matching predicate a configuration stands for, as a value.
pub open spec fn config_pred(config: Config) -> spec_fn(Seq<char>) -> bool {
    |l: Seq<char>| config_matches(config, l)
}

/// The records the search yields for one source under predicate `p`.
pub open spec fn source_records(p: spec_fn(Seq<char>) -> bool, source: InputSource) -> Seq<
    MatchResultView,
> {
    search_spec(p, source.lines.deep_view(), 1)
}

/// Whether any record in a sequence of search records matched.
pub open spec fn any_matched(records: Seq<MatchResultView>) -> bool {
    exists|k: int| 0 <= k < records.len() && records[k].matched
}

/// The display lines for the matched records of one source, in order.
pub open spec fn matched_lines_spec(
    records: Seq<MatchResultView>,
    name: Option<Seq<char>>,
    show_filename: bool,
    show_line_numbers: bool,
) -> Seq<Seq<char>>
    decreases records.len(),
{
    if records.len() == 0 {
        Seq::empty()
    } else {
        let rest = matched_lines_spec(records.drop_first(), name, show_filename, show_line_numbers);
        if records[0].matched {
            seq![
                format_spec(
                    records[0].line,
                    records[0].line_number,
                    name,
                    show_filename,
                    show_line_numbers,
                ),
            ] + rest
        } else {
            rest
        }
    }
}

/// Appending one record appends its display line when it matched.
proof fn lemma_matched_lines_snoc(
    records: Seq<MatchResultView>,
    x: MatchResultView,
    name: Option<Seq<char>>,
    show_filename: bool,
    show_line_numbers: bool,
)
    ensures
        matched_lines_spec(records.push(x), name, show_filename, show_line_numbers)
            == matched_lines_spec(records, name, show_filename, show_line_numbers) + (if x.matched {
            seq![format_spec(x.line, x.line_number, name, show_filename, show_line_numbers)]
        } else {
            Seq::empty()
        }),
    decreases records.len(),
{
    let tail = if x.matched {
        seq![format_spec(x.line, x.line_number, name, show_filename, show_line_numbers)]
    } else {
        Seq::<Seq<char>>::empty()
    };
    if records.len() == 0 {
        reveal_with_fuel(matched_lines_spec, 2);
        assert(records.push(x).drop_first() =~= Seq::<MatchResultView>::empty());
        assert(records.push(x)[0] == x);
        assert(matched_lines_spec(records.push(x), name, show_filename, show_line_numbers)
            =~= tail);
        assert(matched_lines_spec(records, name, show_filename, show_line_numbers) + tail =~= tail);
    } else {
        assert(records.push(x).drop_first() =~= records.drop_first().push(x));
        lemma_matched_lines_snoc(records.drop_first(), x, name, show_filename, show_line_numbers);
        assert(records.push(x)[0] == records[0]);
        let head = if records[0].matched {
            seq![
                format_spec(
                    records[0].line,
                    records[0].line_number,
                    name,
                    show_filename,
                    show_line_numbers,
                ),
            ]
        } else {
            Seq::<Seq<char>>::empty()
        };
        let rest = matched_lines_spec(records.drop_first(), name, show_filename, show_line_numbers);
        assert(matched_lines_spec(records, name, show_filename, show_line_numbers) =~= head + rest);
        assert(matched_lines_spec(records.push(x), name, show_filename, show_line_numbers) =~= head
            + (rest + tail));
        assert(head + (rest + tail) =~= (head + rest) + tail);
    }
}

/// Search one source: the display lines of its matching records, in order,
/// and whether any of its lines matched.
pub fn process_source<M: Matcher>(
    matcher: &M,
    source: &InputSource,
    show_filename: bool,
    show_line_numbers: bool,
) -> (r: (Vec<String>, bool))
    ensures
        r.0.deep_view() == matched_lines_spec(
            source_records(matcher_pred(matcher), *source),
            source.name.deep_view(),
            show_filename,
            show_line_numbers,
        ),
        r.1 == any_matched(source_records(matcher_pred(matcher), *source)),
{
    let records = search_lines(&source.lines, matcher);
    let ghost recs = source_records(matcher_pred(matcher), *source);
    proof {
        assert(records@.map_values(|r: MatchResult| r@) == recs);
    }
    let source_name: Option<&str> = match &source.name {
        Some(n) => Some(n.as_str()),
        None => None,
    };
    let ghost name_v = source.name.deep_view();
    proof {
        assert(source_name.deep_view() == name_v);
    }
    let mut out: Vec<String> = Vec::new();
    let mut any = false;
    let n = records.len();
    proof {
        assert(out.deep_view() =~= matched_lines_spec(
            recs.take(0),
            name_v,
            show_filename,
            show_line_numbers,
        ));
    }
    for k in 0..n
        invariant
            n == records@.len(),
            recs == records@.map_values(|r: MatchResult| r@),
            name_v == source_name.deep_view(),
            out.deep_view() == matched_lines_spec(
                recs.take(k as int),
                name_v,
                show_filename,
                show_line_numbers,
            ),
            any == any_matched(recs.take(k as int)),
    {
        proof {
            assert(recs.len() == records@.len());
            assert(recs[k as int] == records@[k as int]@);
        }
        let ghost prev = out.deep_view();
        let ghost prev_v = out@;
        let record = &records[k];
        if record.matched {
            any = true;
            let line = format_match(record, source_name, show_filename, show_line_numbers);
            out.push(line);
        }
        proof {
            lemma_matched_lines_snoc(
                recs.take(k as int),
                recs[k as int],
                name_v,
                show_filename,
                show_line_numbers,
            );
            assert(recs.take(k as int).push(recs[k as int]) =~= recs.take(k + 1));
            if record.matched {
                assert(out@.len() == prev_v.len() + 1);
                assert forall|i: int| 0 <= i < out@.len() implies out.deep_view()[i]
                    == (prev + seq![
                    format_spec(
                        recs[k as int].line,
                        recs[k as int].line_number,
                        name_v,
                        show_filename,
                        show_line_numbers,
                    ),
                ])[i] by {
                    if i < prev_v.len() {
                        assert(out@[i] == prev_v[i]);
                        assert(out.deep_view()[i] == prev[i]);
                    }
                }
                assert(out.deep_view() =~= matched_lines_spec(
                    recs.take(k + 1),
                    name_v,
                    show_filename,
                    show_line_numbers,
                ));
                assert(recs.take(k + 1)[k as int].matched);
                assert(any_matched(recs.take(k + 1)));
            } else {
                assert(out.deep_view() =~= matched_lines_spec(
                    recs.take(k + 1),
                    name_v,
                    show_filename,
                    show_line_numbers,
                ));
                assert forall|j: int| 0 <= j < k + 1 implies recs.take(k + 1)[j] == recs.take(
                    k as int,
                ).push(recs[k as int])[j] by {}
                assert(any_matched(recs.take(k + 1)) == any_matched(recs.take(k as int))) by {
                    if any_matched(recs.take(k + 1)) {
                        let j = choose|j: int|
                            0 <= j < recs.take(k + 1).len() && #[trigger] recs.take(k + 1)[j].matched;
                        if j < k {
                            assert(recs.take(k as int)[j].matched);
                        }
                    }
                    if any_matched(recs.take(k as int)) {
                        let j = choose|j: int|
                            0 <= j < recs.take(k as int).len() && #[trigger] recs.take(
                                k as int,
                            )[j].matched;
                        assert(recs.take(k + 1)[j].matched);
                    }
                }
            }
        }
    }
    proof {
        assert(recs.take(n as int) =~= recs);
    }
    (out, any)
}


/// The display lines of a whole run, across the sources in order.
pub open spec fn run_output_spec(
    p: spec_fn(Seq<char>) -> bool,
    sources: Seq<InputSource>,
    show_filename: bool,
    show_line_numbers: bool,
) -> Seq<Seq<char>>
    decreases sources.len(),
{
    if sources.len() == 0 {
        Seq::empty()
    } else {
        matched_lines_spec(
            source_records(p, sources[0]),
            sources[0].name.deep_view(),
            show_filename,
            show_line_numbers,
        ) + run_output_spec(p, sources.drop_first(), show_filename, show_line_numbers)
    }
}

/// Whether at least one line of any source matched: the union of the
/// per-source match flags holds a true value.
pub open spec fn run_any_match(p: spec_fn(Seq<char>) -> bool, sources: Seq<InputSource>) -> bool {
    exists|i: int| 0 <= i < sources.len() && any_matched(source_records(p, sources[i]))
}

/// Whether the filename prefix is shown: more than one file target was
/// specified; a standard-input run never shows one.
pub open spec fn spec_show_filename(config: Config) -> bool {
    !config.spec_use_stdin() && config.files@.len() > 1
}

/// Appending one source to a run appends that source's display lines.
proof fn lemma_run_output_snoc(
    p: spec_fn(Seq<char>) -> bool,
    sources: Seq<InputSource>,
    x: InputSource,
    show_filename: bool,
    show_line_numbers: bool,
)
    ensures
        run_output_spec(p, sources.push(x), show_filename, show_line_numbers) == run_output_spec(
            p,
            sources,
            show_filename,
            show_line_numbers,
        ) + matched_lines_spec(
            source_records(p, x),
            x.name.deep_view(),
            show_filename,
            show_line_numbers,
        ),
    decreases sources.len(),
{
    let tail = matched_lines_spec(
        source_records(p, x),
        x.name.deep_view(),
        show_filename,
        show_line_numbers,
    );
    if sources.len() == 0 {
        reveal_with_fuel(run_output_spec, 2);
        assert(sources.push(x).drop_first() =~= Seq::<InputSource>::empty());
        assert(sources.push(x)[0] == x);
        assert(run_output_spec(p, sources.push(x), show_filename, show_line_numbers) =~= tail);
        assert(run_output_spec(p, sources, show_filename, show_line_numbers) + tail =~= tail);
    } else {
        assert(sources.push(x).drop_first() =~= sources.drop_first().push(x));
        lemma_run_output_snoc(p, sources.drop_first(), x, show_filename, show_line_numbers);
        assert(sources.push(x)[0] == sources[0]);
        let head = matched_lines_spec(
            source_records(p, sources[0]),
            sources[0].name.deep_view(),
            show_filename,
            show_line_numbers,
        );
        let rest = run_output_spec(p, sources.drop_first(), show_filename, show_line_numbers);
        assert(run_output_spec(p, sources, show_filename, show_line_numbers) =~= head + rest);
        assert(run_output_spec(p, sources.push(x), show_filename, show_line_numbers) =~= head + (
        rest + tail));
        assert(head + (rest + tail) =~= (head + rest) + tail);
    }
}

/// The outcome of one whole run over the opened sources.
pub struct SearchOutcome {
    /// The display lines to print, across all sources in order.
    pub printed: Vec<String>,
    /// Whether at least one line of any source matched.
    pub any_match: bool,
    /// Success when a match was found, no-matches otherwise.
    pub exit_code: ExitCode,
}

/// Execute the search over the opened sources: search each source in order
/// with the configured matcher, render every matching line, and aggregate
/// whether any match occurred anywhere. The run succeeds exactly when the
/// union of the per-source match flags holds at least one true value.
pub fn execute_search(config: &Config, sources: &Vec<InputSource>) -> (out: SearchOutcome)
    ensures
        out.printed.deep_view() == run_output_spec(
            config_pred(*config),
            sources@,
            spec_show_filename(*config),
            config.line_number,
        ),
        out.any_match == run_any_match(config_pred(*config), sources@),
        out.exit_code == (if out.any_match {
            ExitCode::Success
        } else {
            ExitCode::NoMatches
        }),
{
    let ghost cp = config_pred(*config);
    let matcher = create_matcher(config);
    proof {
        assert(matcher_pred(&matcher) =~= cp);
    }
    let show_filename = config.actual_files().len() > 1;
    let show_line_numbers = config.line_number;
    let mut printed: Vec<String> = Vec::new();
    let mut any = false;
    let n = sources.len();
    proof {
        assert(printed.deep_view() =~= run_output_spec(
            cp,
            sources@.take(0),
            spec_show_filename(*config),
            show_line_numbers,
        ));
    }
    for i in 0..n
        invariant
            n == sources@.len(),
            cp == config_pred(*config),
            matcher_pred(&matcher) == cp,
            show_filename == spec_show_filename(*config),
            show_line_numbers == config.line_number,
            printed.deep_view() == run_output_spec(
                cp,
                sources@.take(i as int),
                show_filename,
                show_line_numbers,
            ),
            any == run_any_match(cp, sources@.take(i as int)),
    {
        let source = &sources[i];
        let (mut lines_out, matched) = process_source(
            &matcher,
            source,
            show_filename,
            show_line_numbers,
        );
        let ghost prev = printed.deep_view();
        let ghost prev_v = printed@;
        let ghost lines_v = lines_out.deep_view();
        let ghost lines_ev = lines_out@;
        printed.append(&mut lines_out);
        if matched {
            any = true;
        }
        proof {
            lemma_run_output_snoc(
                cp,
                sources@.take(i as int),
                sources@[i as int],
                show_filename,
                show_line_numbers,
            );
            assert(sources@.take(i as int).push(sources@[i as int]) =~= sources@.take(i + 1));
            assert(printed@ == prev_v + lines_ev);
            assert forall|j: int| 0 <= j < printed@.len() implies printed.deep_view()[j] == (prev
                + lines_v)[j] by {
                if j < prev_v.len() {
                    assert(printed@[j] == prev_v[j]);
                } else {
                    assert(printed@[j] == lines_ev[j - prev_v.len()]);
                    assert(lines_v[j - prev_v.len()] == lines_ev[j - prev_v.len()].deep_view());
                }
            }
            assert(printed.deep_view() =~= prev + lines_v);
            assert(printed.deep_view() =~= run_output_spec(
                cp,
                sources@.take(i + 1),
                show_filename,
                show_line_numbers,
            ));
            if matched {
                assert(any_matched(source_records(cp, sources@.take(i + 1)[i as int])));
                assert(run_any_match(cp, sources@.take(i + 1)));
            } else {
                assert forall|j: int| 0 <= j < i + 1 implies sources@.take(i + 1)[j] == sources@.take(
                    i as int,
                ).push(sources@[i as int])[j] by {}
                assert(run_any_match(cp, sources@.take(i + 1)) == run_any_match(
                    cp,
                    sources@.take(i as int),
                )) by {
                    if run_any_match(cp, sources@.take(i + 1)) {
                        let j = choose|j: int|
                            0 <= j < sources@.take(i + 1).len() && any_matched(
                                #[trigger] source_records(cp, sources@.take(i + 1)[j]),
                            );
                        if j < i {
                            assert(any_matched(source_records(cp, sources@.take(i as int)[j])));
                        }
                    }
                    if run_any_match(cp, sources@.take(i as int)) {
                        let j = choose|j: int|
                            0 <= j < sources@.take(i as int).len() && any_matched(
                                #[trigger] source_records(cp, sources@.take(i as int)[j]),
                            );
                        assert(any_matched(source_records(cp, sources@.take(i + 1)[j])));
                    }
                }
            }
        }
    }
    proof {
        assert(sources@.take(n as int) =~= sources@);
    }
    let exit_code = if any {
        ExitCode::Success
    } else {
        ExitCode::NoMatches
    };
    SearchOutcome { printed, any_match: any, exit_code }
}

} // verus!
