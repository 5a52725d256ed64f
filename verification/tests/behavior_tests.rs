//! Scenario tests for the engine's documented behaviors: classification,
//! pipe splitting, case folding, span finding and merging, match counting,
//! context clamping, determinism, and the error paths.
use minigrep::{
    classify, count_actual_matches, is_hidden_file, literal_spans, merge_spans, search, Config,
    ConfigError, ContextFlag, QueryKind, SearchStats,
};

fn plain_config(query: &str, ignore_case: bool) -> Config {
    Config {
        query: query.to_string(),
        file_path_1: String::new(),
        file_path_2: String::new(),
        ignore_case,
        context_flag: ContextFlag::After,
        context_count: 0,
        show_stats: false,
        recursive: false,
    }
}

#[test]
fn single_literal_gives_exact_lines_and_tags() {
    // a single-pattern literal query with no context returns exactly the
    // containing lines, ascending, each tagged with the pattern
    let results = search("row", "row one\nnothing\nthird row\nrow again", "", None, false)
        .unwrap();
    assert_eq!(results.len(), 3);
    assert_eq!(results[0].get_line_number(), 0);
    assert_eq!(results[1].get_line_number(), 2);
    assert_eq!(results[2].get_line_number(), 3);
    for r in &results {
        assert_eq!(r.get_matching_patterns(), &vec!["row".to_string()]);
    }
}

#[test]
fn search_is_deterministic() {
    let contents = "alpha\nbeta\ngamma\nalpha beta";
    let first = search("alpha|beta", contents, "context", Some(1), true).unwrap();
    let second = search("alpha|beta", contents, "context", Some(1), true).unwrap();
    assert_eq!(first.len(), second.len());
    for (a, b) in first.iter().zip(second.iter()) {
        assert_eq!(a.get_line_number(), b.get_line_number());
        assert_eq!(a.get_line_content(), b.get_line_content());
        assert_eq!(a.get_matching_patterns(), b.get_matching_patterns());
    }
}

#[test]
fn after_context_clamps_at_last_line() {
    // requesting far more after-context than remains stops at the last line
    let results = search("Line 2", "Line 1\nLine 2\nLine 3", "after", Some(250), true).unwrap();
    assert_eq!(results.len(), 2);
    assert_eq!(results[0].get_line_number(), 1);
    assert_eq!(results[1].get_line_number(), 2);
}

#[test]
fn pipe_splits_literal_queries() {
    let results = search("sun|moon", "the sun rises\ncloudy\nthe moon sets", "", None, false)
        .unwrap();
    assert_eq!(results.len(), 2);
    assert_eq!(results[0].get_line_number(), 0);
    assert_eq!(results[0].get_matching_patterns(), &vec!["sun".to_string()]);
    assert_eq!(results[1].get_line_number(), 2);
    assert_eq!(results[1].get_matching_patterns(), &vec!["moon".to_string()]);
}

#[test]
fn pipe_parts_are_trimmed() {
    match classify("sun | moon") {
        QueryKind::Literal(pats) => {
            assert_eq!(pats, vec!["sun".to_string(), "moon".to_string()]);
        }
        QueryKind::Regex(_) => panic!("a query without indicator characters is literal"),
    }
}

#[test]
fn indicator_characters_force_regex() {
    match classify("a.b") {
        QueryKind::Regex(p) => assert_eq!(p, "a.b"),
        QueryKind::Literal(_) => panic!("'.' marks a query as a regex"),
    }
    let results = search("a.b", "axb\nab\na.b", "", None, false).unwrap();
    // regex semantics: "a", any character, "b" — so "axb" and "a.b", not "ab"
    assert_eq!(results.len(), 2);
    assert_eq!(results[0].get_line_number(), 0);
    assert_eq!(results[1].get_line_number(), 2);
}

#[test]
fn spans_merge_overlapping_and_keep_separated() {
    let merged = merge_spans(vec![(0, 2), (1, 4), (6, 8)]);
    assert_eq!(merged, vec![(0, 4), (6, 8)]);
}

#[test]
fn spans_merge_touching() {
    let merged = merge_spans(vec![(3, 5), (0, 3), (7, 9)]);
    assert_eq!(merged, vec![(0, 5), (7, 9)]);
}

#[test]
fn context_window_around_middle_match() {
    let results = search(
        "Line 3",
        "Line 1\nLine 2\nLine 3\nLine 4\nLine 5",
        "context",
        Some(1),
        false,
    )
    .unwrap();
    assert_eq!(results.len(), 3);
    assert_eq!(results[0].get_line_number(), 1);
    assert!(results[0].get_matching_patterns().is_empty());
    assert_eq!(results[1].get_line_number(), 2);
    assert_eq!(results[1].get_matching_patterns(), &vec!["Line 3".to_string()]);
    assert_eq!(results[2].get_line_number(), 3);
    assert!(results[2].get_matching_patterns().is_empty());
}

#[test]
fn two_occurrences_on_one_line_give_one_result() {
    let results = search("match", "match in a match line\nother line", "context", Some(1), true)
        .unwrap();
    assert_eq!(results.len(), 2);
}

#[test]
fn zero_count_behaves_as_no_context() {
    let contents = "Line 1\nLine 2\nLine 3";
    let zero = search("Line 2", contents, "context", Some(0), true).unwrap();
    assert_eq!(zero.len(), 1);
    assert_eq!(zero[0].get_line_number(), 1);
    let missing = search("Line 2", contents, "after", None, true).unwrap();
    assert_eq!(missing.len(), 1);
}

#[test]
fn empty_text_gives_no_results() {
    assert_eq!(search("x", "", "", None, false).unwrap().len(), 0);
    assert_eq!(search("a|b", "", "context", Some(3), true).unwrap().len(), 0);
    assert_eq!(search("x+", "", "before", Some(2), false).unwrap().len(), 0);
}

#[test]
fn empty_query_matches_every_line() {
    let results = search("", "one\ntwo", "", None, false).unwrap();
    assert_eq!(results.len(), 2);
    assert_eq!(results[0].get_matching_patterns(), &vec![String::new()]);
}

#[test]
fn case_folding_reaches_both_sides() {
    // the query is folded down to match a lower-case line...
    let up_query = search("LINE", "line one\nother", "", None, true).unwrap();
    assert_eq!(up_query.len(), 1);
    assert_eq!(
        up_query[0].get_matching_patterns(),
        &vec!["line".to_string()]
    );
    // ...and the line is folded down to match a lower-case pattern
    let up_line = search("line", "LINE ONE\nother", "", None, true).unwrap();
    assert_eq!(up_line.len(), 1);
    // without folding neither side matches
    assert_eq!(search("LINE", "line one\nother", "", None, false).unwrap().len(), 0);
}

#[test]
fn regex_context_lines_carry_no_patterns() {
    let results = search("Line \\d", "Header\nLine 1\nFooter", "context", Some(1), true).unwrap();
    assert_eq!(results.len(), 3);
    assert!(results[0].get_matching_patterns().is_empty());
    assert_eq!(results[1].get_matching_patterns(), &vec!["Line \\d".to_string()]);
    assert!(results[2].get_matching_patterns().is_empty());
}

#[test]
fn trailing_newline_and_carriage_returns() {
    let results = search("x", "x\n", "", None, false).unwrap();
    assert_eq!(results.len(), 1);
    assert_eq!(results[0].get_line_content(), "x");

    let crlf = search("one", "one\r\ntwo", "", None, false).unwrap();
    assert_eq!(crlf.len(), 1);
    assert_eq!(crlf[0].get_line_content(), "one");
}

#[test]
fn literal_spans_record_every_occurrence() {
    // overlapping occurrences of the same pattern are all recorded
    assert_eq!(literal_spans("aaa", "aa"), vec![(0, 2), (1, 3)]);
    assert_eq!(literal_spans("match in a match line", "match"), vec![(0, 5), (11, 16)]);
    assert_eq!(literal_spans("abc", "z"), vec![]);
    assert_eq!(literal_spans("abc", ""), vec![]);
}

#[test]
fn count_actual_matches_counts_every_occurrence() {
    let results = search("match", "match in a match line\nother line", "", None, false).unwrap();
    assert_eq!(results.len(), 1);
    assert_eq!(count_actual_matches(&results, false), 2);

    // non-overlapping counting: "aa" occurs once in "aaa"
    let overlapping = search("aa", "aaa", "", None, false).unwrap();
    assert_eq!(count_actual_matches(&overlapping, false), 1);
}

#[test]
fn stats_accumulate_literal_matches() {
    let config = plain_config("match", false);
    let mut stats = SearchStats::init_stats(&config);
    assert_eq!(stats.query, "match");
    assert_eq!(stats.total_matches, 0);
    let results = search("match", "match in a match line\nother line", "", None, false).unwrap();
    stats.update_match_count(&results, &config);
    assert_eq!(stats.total_matches, 2);
    stats.update_match_count(&results, &config);
    assert_eq!(stats.total_matches, 4);
}

#[test]
fn stats_accumulate_regex_matches() {
    let config = plain_config("Line \\d", true);
    let mut stats = SearchStats::init_stats(&config);
    let results = search("Line \\d", "Line 1 Line 2\nLine 3\nnothing", "", None, true).unwrap();
    assert_eq!(results.len(), 2);
    stats.update_match_count(&results, &config);
    assert_eq!(stats.total_matches, 3);
}

#[test]
fn invalid_regex_reports_pattern_and_message() {
    let err = search("Line [", "Line 1", "", None, false).unwrap_err();
    assert_eq!(err.pattern(), "Line [");
    assert!(err.message().starts_with("Invalid regex pattern: "));
}

#[test]
fn config_error_messages() {
    assert_eq!(ConfigError::NotEnoughArguments.message(), "Not enough arguments");
    assert_eq!(ConfigError::TooManyArguments.message(), "Too many arguments");
    assert_eq!(
        ConfigError::InvalidCaseFlag("-x".to_string()).message(),
        "Invalid case flag: '-x'"
    );
    assert_eq!(
        ConfigError::InvalidContextFlag("--k".to_string()).message(),
        "Invalid context flag: '--k'"
    );
    assert_eq!(
        ConfigError::InvalidContextCount("many".to_string()).message(),
        "Invalid context count: 'many'"
    );
    assert_eq!(
        ConfigError::InvalidArgument("--oops".to_string()).message(),
        "Invalid argument: '--oops'"
    );
    assert_eq!(
        ConfigError::NotADirectory("a.txt".to_string()).message(),
        "Path provided is not a directory: 'a.txt'"
    );
}

#[test]
fn context_flag_round_trip() {
    assert_eq!(ContextFlag::new("before").as_str(), "before");
    assert_eq!(ContextFlag::new("after").as_str(), "after");
    assert_eq!(ContextFlag::new("context").as_str(), "context");
    assert_eq!(ContextFlag::new("stats").as_str(), "stats");
}

#[test]
fn hidden_files_start_with_a_dot() {
    assert!(is_hidden_file(".gitignore"));
    assert!(!is_hidden_file("notes.txt"));
    assert!(!is_hidden_file(""));
}
