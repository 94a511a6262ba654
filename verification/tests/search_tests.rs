use agent_host::pattern::Pattern;
use agent_host::search::{
    extension_allowed, fuzzy_match, fuzzy_matches, grep_file, rank_matches, is_skipped_entry, matches_any, search_limits,
    split_list, FuzzyMatch, GrepHit,
};

#[test]
fn skipped_entries() {
    assert!(is_skipped_entry(".git"));
    assert!(is_skipped_entry("target"));
    assert!(is_skipped_entry("node_modules"));
    assert!(!is_skipped_entry("src"));
    assert!(!is_skipped_entry("targets"));
}

#[test]
fn globs_match_names() {
    assert!(matches_any("main.rs", &["*.rs"]));
    assert!(!matches_any("main.rsx", &["*.rs"]));
    assert!(matches_any("Cargo.toml", &["*.lua", "Cargo"]));
    assert!(!matches_any("README.md", &["*.rs", "Cargo"]));
    assert!(!matches_any("x.rs", &[]));
}

#[test]
fn lists_are_split() {
    assert_eq!(split_list(" *.rs, ,*.toml ,"), vec!["*.rs".to_string(), "*.toml".to_string()]);
    assert!(split_list("").is_empty());
    assert_eq!(split_list("a"), vec!["a".to_string()]);
}

#[test]
fn extensions_filter() {
    let exts = vec!["rs".to_string(), "lua".to_string()];
    assert!(extension_allowed(&exts, "lua"));
    assert!(!extension_allowed(&exts, "md"));
    assert!(extension_allowed(&vec![], "md"));
}

#[test]
fn limits_are_at_least_one() {
    assert_eq!(search_limits(0, 0), (1, 1));
    assert_eq!(search_limits(3, 50), (3, 50));
}

#[test]
fn grep_reports_hits_with_context() {
    let re = Pattern::new("fn \\w+").unwrap();
    let content = "use x;\nfn main() {\n    helper();\n}\nfn helper() {}\n";
    let mut results: Vec<GrepHit> = Vec::new();
    let mut total = 0usize;
    grep_file("src/main.rs", content, &re, 1, 10, &mut results, &mut total);
    assert_eq!(total, 2);
    assert_eq!(results.len(), 2);
    let h = &results[0];
    assert_eq!(h.file, "src/main.rs");
    assert_eq!(h.line, 2);
    assert_eq!(h.column, 1);
    assert_eq!(h.text, "fn main() {");
    assert_eq!(h.before, vec!["use x;".to_string()]);
    assert_eq!(h.after, vec!["    helper();".to_string()]);
    let h2 = &results[1];
    assert_eq!(h2.line, 5);
    assert_eq!(h2.after, Vec::<String>::new());
}

#[test]
fn grep_stops_at_limit() {
    let re = Pattern::new("a").unwrap();
    let mut results: Vec<GrepHit> = Vec::new();
    let mut total = 1usize;
    grep_file("f", "a\na\na\n", &re, 1, 2, &mut results, &mut total);
    assert_eq!(total, 2);
    assert_eq!(results.len(), 1);
    let mut more = 0usize;
    grep_file("f", "xa\n", &re, 1, 5, &mut results, &mut more);
    assert_eq!(results[1].column, 2);
}

#[test]
fn invalid_pattern_is_refused() {
    assert!(Pattern::new("(unclosed").is_err());
}

#[test]
fn fuzzy_matching() {
    assert!(matches!(fuzzy_match("main", "src/main.rs"), FuzzyMatch::Substring));
    assert!(matches!(fuzzy_match("", "anything"), FuzzyMatch::Substring));
    // positions 1 and 2 agree after a mismatch at 0
    assert!(matches!(fuzzy_match("abc", "xbcd"), FuzzyMatch::Positional(2)));
    assert!(matches!(fuzzy_match("sxc", "src/lib.rs"), FuzzyMatch::Positional(1)));
    assert!(matches!(fuzzy_match("zzz", "abc"), FuzzyMatch::NoMatch));
}

#[test]
fn fuzzy_matching_ignores_case() {
    let paths = vec!["src/Main.rs".to_string(), "README.md".to_string(), "zz".to_string()];
    let ms = fuzzy_matches("MAIN", &paths);
    assert_eq!(ms.len(), 3);
    assert!(matches!(ms[0], FuzzyMatch::Substring));
    assert!(matches!(ms[1], FuzzyMatch::NoMatch));
    assert!(matches!(ms[2], FuzzyMatch::NoMatch));
}

#[test]
fn ranking_puts_substrings_first() {
    let ms = vec![
        FuzzyMatch::Positional(2),
        FuzzyMatch::NoMatch,
        FuzzyMatch::Substring,
        FuzzyMatch::Positional(3),
        FuzzyMatch::Positional(2),
        FuzzyMatch::Substring,
        FuzzyMatch::Positional(0),
    ];
    assert_eq!(rank_matches(&ms, 10), vec![2, 5, 3, 0, 4]);
    assert_eq!(rank_matches(&ms, 3), vec![2, 5, 3]);
    assert_eq!(rank_matches(&ms, 0), Vec::<usize>::new());
    assert_eq!(rank_matches(&vec![FuzzyMatch::NoMatch], 5), Vec::<usize>::new());
}
