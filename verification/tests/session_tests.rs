use ghosttype::ensemble::{Ensemble, SharedModel};
use ghosttype::fuzzy::FuzzyHistoryModel;
use ghosttype::ensemble::EnsembleError;
use ghosttype::session::{
    clamp_selection, merge_ranking, ranking_or_fallback, App, HeavyBatch, HeavyDispatch,
    DEBOUNCE_MS,
};
use ghosttype::suggestion::{ModelError, SuggestModel, Suggestion};
use std::sync::Arc;

struct Fixed {
    items: Vec<(String, i64)>,
}

impl SuggestModel for Fixed {
    fn predict(&self, _input: &str) -> Result<Vec<Suggestion>, ModelError> {
        Ok(self.items.iter().map(|(t, s)| Suggestion::with_source(t, *s, "fixed")).collect())
    }
}

struct Broken;

impl SuggestModel for Broken {
    fn predict(&self, _input: &str) -> Result<Vec<Suggestion>, ModelError> {
        Err(ModelError { message: "down".to_string() })
    }
}

fn fixed(items: Vec<(&str, i64)>) -> SharedModel {
    Arc::new(Fixed { items: items.into_iter().map(|(t, s)| (t.to_string(), s)).collect() })
}

fn corpus() -> Vec<String> {
    vec!["git status".to_string(), "git commit".to_string(), "ls -la".to_string()]
}

fn app_with(light: Vec<SharedModel>, heavy: Vec<SharedModel>, top: usize) -> App {
    App::new(corpus(), top, Vec::new(), Ensemble::new(light, heavy))
}

fn batch(query: &str, items: Vec<(&str, i64)>) -> HeavyBatch {
    HeavyBatch {
        query: query.to_string(),
        suggestions: items.into_iter().map(|(t, s)| Suggestion::with_source(t, s, "heavy")).collect(),
    }
}

#[test]
fn new_session_is_at_rest() {
    let app = app_with(vec![], vec![], 5);
    assert!(app.input.is_empty());
    assert!(app.suggestions.is_empty());
    assert_eq!(app.selected, 0);
    assert_eq!(app.max_suggestions, 5);
    assert_eq!(app.corpus, corpus());
    assert!(!app.pending_refresh);
    assert!(app.last_input_time.is_none());
    assert!(!app.should_refresh_suggestions(10_000));
}

#[test]
fn two_edits_within_the_window_refresh_once() {
    let mut app = app_with(vec![fixed(vec![("git status", 1000)])], vec![], 5);
    app.input = "g".to_string();
    app.mark_input_changed(1_000);
    assert!(!app.should_refresh_suggestions(1_100));
    app.input = "gi".to_string();
    app.mark_input_changed(1_200);
    let mut refreshes = 0;
    for now in [1_250u64, 1_299, 1_300, 1_400, 1_499, 1_500, 1_600, 2_000, 9_000] {
        if app.should_refresh_suggestions(now) {
            assert!(now >= 1_200 + DEBOUNCE_MS);
            app.refresh_suggestions();
            refreshes += 1;
        }
    }
    assert_eq!(refreshes, 1);
    assert!(!app.pending_refresh);
}

#[test]
fn an_edit_that_rested_refreshes_exactly_once() {
    let mut app = app_with(vec![fixed(vec![("git status", 1000)])], vec![], 5);
    app.input = "g".to_string();
    app.mark_input_changed(500);
    assert!(!app.should_refresh_suggestions(799));
    assert!(app.should_refresh_suggestions(800));
    assert!(!app.should_refresh_suggestions(100));
    app.refresh_suggestions();
    assert_eq!(app.suggestions, vec!["git status".to_string()]);
    assert!(!app.should_refresh_suggestions(800));
    assert!(!app.should_refresh_suggestions(100_000));
}

#[test]
fn tick_refreshes_when_due() {
    let mut app = app_with(vec![fixed(vec![("git status", 1000)])], vec![], 5);
    app.input = "g".to_string();
    app.mark_input_changed(0);
    assert!(app.tick(299, &Vec::new()).is_none());
    assert!(app.suggestions.is_empty());
    assert!(matches!(app.tick(300, &Vec::new()), Some(HeavyDispatch::CancelOnly)));
    assert_eq!(app.suggestions, vec!["git status".to_string()]);
    assert!(app.tick(301, &Vec::new()).is_none());
}

#[test]
fn only_the_top_two_are_shown() {
    let mut app = app_with(vec![fixed(vec![("low", 1000), ("high", 3000), ("mid", 2000)])], vec![], 2);
    app.input = "x".to_string();
    app.refresh_suggestions();
    assert_eq!(app.suggestions, vec!["high".to_string(), "mid".to_string()]);
}

#[test]
fn zero_maximum_shows_nothing() {
    let mut app = app_with(vec![fixed(vec![("a", 1000)])], vec![], 0);
    app.input = "x".to_string();
    app.selected = 4;
    app.refresh_suggestions();
    assert!(app.suggestions.is_empty());
    assert_eq!(app.selected, 0);
}

#[test]
fn blank_input_clears_what_is_shown() {
    let mut app = app_with(vec![fixed(vec![("a", 1000)])], vec![fixed(vec![("h", 1000)])], 5);
    app.input = "x".to_string();
    assert!(matches!(app.refresh_suggestions(), HeavyDispatch::Restart(q) if q == "x"));
    assert_eq!(app.suggestions.len(), 1);
    app.input = "   ".to_string();
    app.mark_input_changed(10);
    assert!(matches!(app.refresh_suggestions(), HeavyDispatch::CancelOnly));
    assert!(app.suggestions.is_empty());
    assert_eq!(app.selected, 0);
    assert!(!app.pending_refresh);
    assert!(app.pending_heavy_model_query.is_none());
}

#[test]
fn selection_is_brought_back_into_the_list() {
    let mut app = app_with(vec![fixed(vec![("a", 3000), ("b", 2000)])], vec![], 5);
    app.input = "x".to_string();
    app.selected = 7;
    app.refresh_suggestions();
    assert_eq!(app.selected, 1);
    assert_eq!(clamp_selection(0, 0), 0);
    assert_eq!(clamp_selection(9, 0), 0);
    assert_eq!(clamp_selection(2, 3), 2);
    assert_eq!(clamp_selection(3, 3), 2);
}

#[test]
fn falls_back_to_fuzzy_matching_of_the_corpus() {
    let mut app = app_with(vec![Arc::new(Broken)], vec![], 5);
    app.input = "gst".to_string();
    app.refresh_suggestions();
    assert_eq!(app.suggestions[0], "git status");
    assert!(!app.suggestions.contains(&"ls -la".to_string()));
    let mut none = app_with(vec![], vec![], 5);
    none.input = "git".to_string();
    none.refresh_suggestions();
    assert_eq!(none.suggestions.len(), 2);
}

#[test]
fn baseline_fuzzy_ranks_git_status_first() {
    let model = FuzzyHistoryModel::new(corpus());
    let result = model.predict("gst").unwrap();
    assert_eq!(result[0].text, "git status");
    assert_eq!(result[0].source.as_deref(), Some("history"));
    assert!(result.iter().all(|s| s.text != "ls -la"));
    if let Some(at) = result.iter().position(|s| s.text == "git commit") {
        assert!(at > 0);
    }
}

#[test]
fn late_result_for_a_superseded_query_is_dropped() {
    let heavy = fixed(vec![("slow", 9000)]);
    let mut app = app_with(vec![fixed(vec![("git status", 2000), ("git stash", 1000)])], vec![heavy], 5);
    app.input = "A".to_string();
    assert!(matches!(app.refresh_suggestions(), HeavyDispatch::Restart(q) if q == "A"));
    app.input = "B".to_string();
    app.mark_input_changed(0);
    assert!(matches!(app.refresh_suggestions(), HeavyDispatch::Restart(q) if q == "B"));
    let before = app.suggestions.clone();
    let merged = app.offer_heavy_batch(&batch("A", vec![("from a", 50_000)]));
    assert!(!merged);
    assert_eq!(app.suggestions, before);
    assert!(!app.suggestions.contains(&"from a".to_string()));
    app.poll_heavy_model_results(&vec![batch("A", vec![("from a", 50_000)])]);
    assert_eq!(app.suggestions, before);
    let merged = app.offer_heavy_batch(&batch("B", vec![("from b", 50_000)]));
    assert!(merged);
    assert_eq!(app.suggestions[0], "from b");
}

#[test]
fn result_is_dropped_once_the_input_has_moved_on() {
    let heavy = fixed(vec![("slow", 9000)]);
    let mut app = app_with(vec![fixed(vec![("git status", 2000)])], vec![heavy], 5);
    app.input = "git".to_string();
    app.refresh_suggestions();
    app.input = "git s".to_string();
    app.mark_input_changed(0);
    assert!(!app.offer_heavy_batch(&batch("git", vec![("late", 9000)])));
    assert_eq!(app.suggestions, vec!["git status".to_string()]);
}

#[test]
fn heavy_results_merge_by_position() {
    let visible = vec!["a".to_string(), "b".to_string(), "c".to_string()];
    let heavy = vec![
        Suggestion::with_source("c", 2500, "heavy"),
        Suggestion::with_source("new", 500, "heavy"),
    ];
    let ranking = merge_ranking(&visible, &heavy);
    let got: Vec<(&str, i64)> = ranking.iter().map(|s| (s.text.as_str(), s.score)).collect();
    assert_eq!(got, vec![("c", 3500), ("a", 3000), ("b", 2000), ("new", 500)]);
    assert_eq!(ranking[0].source.as_deref(), Some("heavy"));
    assert_eq!(ranking[1].source, None);
}

#[test]
fn merge_truncates_and_clamps() {
    let heavy_model = fixed(vec![]);
    let mut app = app_with(vec![fixed(vec![("a", 3000), ("b", 2000)])], vec![heavy_model], 2);
    app.input = "q".to_string();
    app.refresh_suggestions();
    app.selected = 1;
    app.merge_heavy_model_suggestions(&vec![Suggestion::with_source("z", 9000, "heavy")]);
    assert_eq!(app.suggestions, vec!["z".to_string(), "a".to_string()]);
    assert_eq!(app.selected, 1);
    let mut polled = app_with(vec![fixed(vec![("a", 3000), ("b", 2000)])], vec![fixed(vec![])], 2);
    polled.input = "q".to_string();
    polled.refresh_suggestions();
    polled.poll_heavy_model_results(&vec![
        batch("q", vec![("z", 9000)]),
        batch("other", vec![("y", 90_000)]),
        batch("q", vec![("b", 9000)]),
    ]);
    assert_eq!(polled.suggestions, vec!["b".to_string(), "z".to_string()]);
}

#[test]
fn repeated_visible_text_counts_once_with_its_last_place() {
    let visible = vec!["a".to_string(), "b".to_string(), "a".to_string()];
    let ranking = merge_ranking(&visible, &Vec::new());
    let got: Vec<(&str, i64)> = ranking.iter().map(|s| (s.text.as_str(), s.score)).collect();
    assert_eq!(got, vec![("b", 2000), ("a", 1000)]);
}

#[test]
fn restoring_an_input_refreshes_unless_blank() {
    let mut app = app_with(vec![fixed(vec![("git status", 1000)])], vec![], 5);
    assert!(app.restore_input("  ".to_string()).is_none());
    assert_eq!(app.cursor, 2);
    assert!(app.suggestions.is_empty());
    assert!(app.restore_input("gité".to_string()).is_some());
    assert_eq!(app.cursor, 4);
    assert_eq!(app.suggestions.len(), 1);
}

#[test]
fn the_query_is_recorded_whether_or_not_there_are_heavy_strategies() {
    let mut app = app_with(vec![fixed(vec![("git status", 2000)])], vec![], 5);
    app.input = "git".to_string();
    assert!(matches!(app.refresh_suggestions(), HeavyDispatch::CancelOnly));
    assert_eq!(app.pending_heavy_model_query, Some("git".to_string()));
    assert!(app.offer_heavy_batch(&batch("git", vec![("late", 9000)])));
    assert_eq!(app.suggestions, vec!["late".to_string(), "git status".to_string()]);
    let mut heavy = app_with(vec![fixed(vec![("a", 1000)])], vec![fixed(vec![])], 5);
    heavy.input = "q".to_string();
    assert!(matches!(heavy.refresh_suggestions(), HeavyDispatch::Restart(q) if q == "q"));
    assert_eq!(heavy.pending_heavy_model_query, Some("q".to_string()));
}

#[test]
fn the_ranking_of_the_strategies_is_kept_and_their_failure_falls_back() {
    let given = vec![Suggestion::with_source("from strategies", 1, "s")];
    let kept = ranking_or_fallback(Ok(given.clone()), &corpus(), "git");
    assert_eq!(kept, given);
    let empty = ranking_or_fallback(Ok(Vec::new()), &corpus(), "git");
    assert!(empty.is_empty());
    let fallen = ranking_or_fallback(Err(EnsembleError::NoStrategyAnswered), &corpus(), "git");
    let texts: Vec<&str> = fallen.iter().map(|s| s.text.as_str()).collect();
    assert_eq!(texts.len(), 2);
    assert!(texts.contains(&"git status") && texts.contains(&"git commit"));
    assert!(fallen.iter().all(|s| s.source.as_deref() == Some("history")));
}
