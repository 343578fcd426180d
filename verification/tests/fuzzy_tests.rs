use fuzzy_matcher::skim::SkimMatcherV2;
use fuzzy_matcher::FuzzyMatcher;
use ghosttype::fuzzy::{fuzzy_rank, query_fits, FuzzyHistoryModel, MAX_QUERY_CHARS};
use ghosttype::suggestion::SuggestModel;

fn lines(items: &[&str]) -> Vec<String> {
    items.iter().map(|s| s.to_string()).collect()
}

#[test]
fn scores_are_the_matcher_scores_in_thousandths() {
    let corpus = lines(&["git status", "git stash", "cargo test", "ls"]);
    let matcher = SkimMatcherV2::default();
    let ranked = fuzzy_rank(&corpus, "gs");
    assert!(!ranked.is_empty());
    for s in &ranked {
        let direct = matcher.fuzzy_match(&s.text, "gs").unwrap();
        assert_eq!(s.score, direct * 1000);
        assert_eq!(s.source.as_deref(), Some("history"));
    }
    let matching = corpus.iter().filter(|l| matcher.fuzzy_match(l, "gs").is_some()).count();
    assert_eq!(ranked.len(), matching);
    assert!(ranked.iter().all(|s| s.text != "ls"));
    for pair in ranked.windows(2) {
        assert!(pair[0].score >= pair[1].score);
    }
}

#[test]
fn equal_scores_keep_corpus_order() {
    let corpus = lines(&["abc", "xbc", "abc"]);
    let ranked = fuzzy_rank(&corpus, "abc");
    let texts: Vec<&str> = ranked.iter().map(|s| s.text.as_str()).collect();
    assert_eq!(texts, vec!["abc", "abc"]);
}

#[test]
fn blank_and_overlong_queries() {
    let model = FuzzyHistoryModel::new(lines(&["git status"]));
    assert!(model.predict("  ").unwrap().is_empty());
    assert_eq!(model.weight(), 1000);
    assert_eq!(MAX_QUERY_CHARS, 67_108_863);
    let long = "g".repeat(MAX_QUERY_CHARS + 1);
    assert!(!query_fits(&long));
    assert!(query_fits(&long[1..]));
    assert!(model.predict(&long).is_err());
}

#[test]
fn long_queries_and_long_lines_are_matched() {
    let matcher = SkimMatcherV2::default();
    let query = "ab".repeat(1_500);
    let line = format!("{}{}", "x".repeat(70_000), "ab".repeat(1_600));
    let model = FuzzyHistoryModel::new(vec![line.clone(), "ab".to_string()]);
    let found = model.predict(&query).unwrap();
    assert_eq!(found.len(), 1);
    assert_eq!(found[0].text, line);
    assert_eq!(found[0].score, matcher.fuzzy_match(&line, &query).unwrap() * 1000);
    let ranked = fuzzy_rank(&vec!["g".repeat(100_000), "g".repeat(8)], "g");
    assert_eq!(ranked.len(), 2);
}
