//! The search engine's behavior over whole queries: literal and regex
//! matching, context windows, and their edge cases.
use minigrep::search;
use minigrep::ContextFlag;

#[test]
fn test_search_no_matches() {
    let query = "nonexistent";
    let contents = "Line 1\nLine 2\nLine 3";
    let context_flag = ContextFlag::After.as_str();

    let results = search(query, contents, context_flag, Some(1), true).unwrap();
    assert_eq!(results.len(), 0);
}

#[test]
fn test_search_single_match_no_context() {
    let query = "Line 2";
    let contents = "Line 1\nLine 2\nLine 3";

    let results = search(query, contents, "", None, true).unwrap();

    assert_eq!(results.len(), 1);
    assert_eq!(results[0].get_line_number() + 1, 2);
    assert_eq!(results[0].get_line_content(), "Line 2");
}

#[test]
fn test_search_case_insensitive() {
    let query = "line 2";
    let contents = "Line 1\nline 2\nLine 3";

    let results = search(query, contents, "", None, false).unwrap();

    // Print formatted results for inspection
    println!("Results: {:#?}, length: {}", results, results.len());

    assert_eq!(results.len(), 1);
    assert_eq!(results[0].get_line_number() + 1, 2);
    assert_eq!(results[0].get_line_content(), "line 2");
}

#[test]
fn test_search_before_only() {
    let query = "Line 3";
    let contents = "Line 1\nLine 2\nLine 3\nLine 4";
    let context_flag = ContextFlag::Before.as_str();

    let results = search(query, contents, context_flag, Some(3), true).unwrap();
    assert_eq!(results.len(), 3);

    // Sort by line number to ensure consistent order
    let mut results_sorted = results.clone();
    results_sorted.sort_by_key(|r| r.get_line_number());

    assert_eq!(results_sorted[0].get_line_number() + 1, 1);
    assert_eq!(results_sorted[1].get_line_number() + 1, 2);
    assert_eq!(results_sorted[2].get_line_number() + 1, 3);
}

#[test]
fn test_search_after_only() {
    let query = "Line 2";
    let contents = "Line 1\nLine 2\nLine 3\nLine 4";
    let context_flag = ContextFlag::After.as_str();

    let results = search(query, contents, context_flag, Some(3), true).unwrap();
    assert_eq!(results.len(), 3);

    let mut results_sorted = results.clone();
    results_sorted.sort_by_key(|r| r.get_line_number());

    assert_eq!(results_sorted[0].get_line_number() + 1, 2);
    assert_eq!(results_sorted[1].get_line_number() + 1, 3);
    assert_eq!(results_sorted[2].get_line_number() + 1, 4);
}

#[test]
fn test_search_before_and_after() {
    let query = "Line 3";
    let contents = "Line 1\nLine 2\nLine 3\nLine 4\nLine 5";
    let context_flag = ContextFlag::Context.as_str();

    let results = search(query, contents, context_flag, Some(1), true).unwrap();
    assert_eq!(results.len(), 3);

    let mut results_sorted = results.clone();
    results_sorted.sort_by_key(|r| r.get_line_number());

    assert_eq!(results_sorted[0].get_line_number() + 1, 2); // Line 2
    assert_eq!(results_sorted[1].get_line_number() + 1, 3); // Line 3 (match)
    assert_eq!(results_sorted[2].get_line_number() + 1, 4); // Line 4
}

#[test]
fn test_search_at_beginning() {
    let query = "Line 1";
    let contents = "Line 1\nLine 2\nLine 3";
    let context_flag = ContextFlag::Context.as_str();

    let results = search(query, contents, context_flag, Some(1), true).unwrap();
    assert_eq!(results.len(), 2);

    let mut results_sorted = results.clone();
    results_sorted.sort_by_key(|r| r.get_line_number());

    assert_eq!(results_sorted[0].get_line_number() + 1, 1); // Line 1 (match)
    assert_eq!(results_sorted[1].get_line_number() + 1, 2); // Line 2
}

#[test]
fn test_search_at_end() {
    let query = "Line 3";
    let contents = "Line 1\nLine 2\nLine 3";
    let context_flag = ContextFlag::Context.as_str();

    let results = search(query, contents, context_flag, Some(1), true).unwrap();
    assert_eq!(results.len(), 2);

    let mut results_sorted = results.clone();
    results_sorted.sort_by_key(|r| r.get_line_number());

    assert_eq!(results_sorted[0].get_line_number() + 1, 2); // Line 2
    assert_eq!(results_sorted[1].get_line_number() + 1, 3); // Line 3 (match)
}

#[test]
fn test_search_multiple_matches() {
    let query = "Line";
    let contents = "Line 1\nLine 2\nLine 3\nLine 4\nLine 5";
    let context_flag = ContextFlag::After.as_str();

    let results = search(query, contents, context_flag, Some(1), true).unwrap();

    // All lines should be included due to overlapping contexts
    assert_eq!(results.len(), 5);
}

#[test]
fn test_search_overlapping() {
    let query = "match";
    let contents = "Line 1\nLine 2\nmatch 3\nLine 4\nmatch 5\nLine 6";
    let context_flag = ContextFlag::Context.as_str();

    let results = search(query, contents, context_flag, Some(1), true).unwrap();

    // Should include all lines from 1-6 due to overlapping contexts
    assert_eq!(results.len(), 5);

    let mut results_sorted = results.clone();
    results_sorted.sort_by_key(|r| r.get_line_number());

    assert_eq!(results_sorted[0].get_line_number() + 1, 2); // Line 2
    assert_eq!(results_sorted[1].get_line_number() + 1, 3); // match 3
    assert_eq!(results_sorted[2].get_line_number() + 1, 4); // Line 4
    assert_eq!(results_sorted[3].get_line_number() + 1, 5); // match 5
    assert_eq!(results_sorted[4].get_line_number() + 1, 6); // Line 6
}

#[test]
fn test_search_non_overlapping() {
    let query = "match";
    let contents = "Line 1\nmatch 2\nLine 3\nLine 4\nmatch 5\nLine 6";
    let context_flag = ContextFlag::Context.as_str();

    let results = search(query, contents, context_flag, Some(1), true).unwrap();

    // Should have two separate groups: [0,1,2] and [3,4,5]
    assert_eq!(results.len(), 6);

    let mut results_sorted = results.clone();
    results_sorted.sort_by_key(|r| r.get_line_number());

    assert_eq!(results_sorted[0].get_line_number() + 1, 1); // Line 1
    assert_eq!(results_sorted[1].get_line_number() + 1, 2); // match 2
    assert_eq!(results_sorted[2].get_line_number() + 1, 3); // Line 3
    assert_eq!(results_sorted[3].get_line_number() + 1, 4); // Line 4
    assert_eq!(results_sorted[4].get_line_number() + 1, 5); // match 5
    assert_eq!(results_sorted[5].get_line_number() + 1, 6); // Line 6
}

#[test]
fn test_search_large_ranges() {
    let query = "unique";
    let contents = "Line 1\nLine 2\nLine 3\nLine 4\nunique line\nLine 6\nLine 7";
    let context_flag = ContextFlag::Context.as_str();

    let results = search(query, contents, context_flag, Some(10), true).unwrap();

    // Should include all lines despite requesting more context than exists
    assert_eq!(results.len(), 7);
}

#[test]
fn test_search_empty_file() {
    let query = "anything";
    let contents = "";
    let context_flag = ContextFlag::After.as_str();

    let results = search(query, contents, context_flag, Some(1), true).unwrap();
    assert_eq!(results.len(), 0);
}

#[test]
fn test_search_multiple_matches_same_line() {
    let query = "match";
    let contents = "match in a match line\nother line";
    let context_flag = ContextFlag::Context.as_str();

    let results = search(query, contents, context_flag, Some(1), true).unwrap();

    // Should include lines 0 and 1 without duplicates
    assert_eq!(results.len(), 2);
}

#[test]
fn test_search_with_regex() {
    let query = "Line \\d"; // Regex pattern matching "Line" followed by a digit
    let contents = "Line 1\nLine 2\nLine 3\nNo match";

    let results = search(query, contents, "", None, true).unwrap();

    assert_eq!(results.len(), 3);
    let line_numbers: Vec<usize> = results.iter().map(|r| r.get_line_number()).collect();
    assert!(line_numbers.contains(&0)); // Line 1
    assert!(line_numbers.contains(&1)); // Line 2
    assert!(line_numbers.contains(&2)); // Line 3
}

#[test]
fn test_regex_case_sensitivity() {
    let query = "[Ll]ine \\d";
    let contents = "Line 1\nline 2\nLINE 3";

    // Case-sensitive search should match only the first line
    let results_sensitive = search(query, contents, "", None, false).unwrap();
    assert_eq!(results_sensitive.len(), 2);

    // Case-insensitive search should match all three lines
    let results_insensitive = search(query, contents, "", None, true).unwrap();
    assert_eq!(results_insensitive.len(), 3);
}

#[test]
fn test_invalid_regex() {
    let query = "Line ["; // Invalid regex pattern (unclosed character class)
    let contents = "Line 1\nLine 2";

    let result = search(query, contents, "", None, true);
    assert!(result.is_err());
}

#[test]
fn test_regex_with_context() {
    let query = "Line \\d";
    let contents = "Header\nLine 1\nMiddle\nLine 3\nFooter";
    let context_flag = ContextFlag::Context.as_str();

    let results = search(query, contents, context_flag, Some(1), true).unwrap();

    // Should include: Header, Line 1, Middle, Line 3, Footer (all 5 lines)
    assert_eq!(results.len(), 5);
}

#[test]
fn test_pipe_chars_in_regex() {
    let query = "Line|Header";
    let contents = "Header\nLine 1\nMiddle\nLine 3\nFooter";

    let results = search(query, contents, "", None, true).unwrap();

    // Should match lines with "Line" or "Header"
    assert_eq!(results.len(), 3);
}
