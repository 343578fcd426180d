use ghosttype::ensemble::{
    add_answer, aggregate, best_of, gather, join_answers, run_search, Contribution, Ensemble,
    EnsembleBuilder, EnsembleError, SharedModel,
};
use ghosttype::suggestion::{add_scores, weigh, ModelError, SuggestModel, Suggestion};
use std::sync::atomic::{AtomicUsize, Ordering};
use std::sync::Arc;

#[derive(Debug)]
struct StaticModel {
    suggestions: Vec<Suggestion>,
    weight: u32,
}

impl StaticModel {
    fn new(weight: u32, suggestions: Vec<Suggestion>) -> Self {
        Self { suggestions, weight }
    }
}

impl SuggestModel for StaticModel {
    fn predict(&self, _input: &str) -> Result<Vec<Suggestion>, ModelError> {
        Ok(self.suggestions.clone())
    }

    fn weight(&self) -> u32 {
        self.weight
    }
}

struct CountingModel {
    calls: Arc<AtomicUsize>,
}

impl SuggestModel for CountingModel {
    fn predict(&self, _input: &str) -> Result<Vec<Suggestion>, ModelError> {
        self.calls.fetch_add(1, Ordering::SeqCst);
        Ok(vec![Suggestion::with_source("counted", 1000, "spy")])
    }
}

struct FailingModel;

impl SuggestModel for FailingModel {
    fn predict(&self, _input: &str) -> Result<Vec<Suggestion>, ModelError> {
        Err(ModelError { message: "backend unreachable".to_string() })
    }
}

fn shared(weight: u32, items: Vec<(&str, i64, &str)>) -> SharedModel {
    let suggestions = items
        .into_iter()
        .map(|(text, score, source)| Suggestion::with_source(text, score, source))
        .collect();
    Arc::new(StaticModel::new(weight, suggestions))
}

fn as_float(score: i64) -> f64 {
    score as f64 / 1000.0
}

#[test]
fn aggregates_scores_across_models() {
    let first = Arc::new(StaticModel::new(
        1000,
        vec![Suggestion::with_source("git status", 2000, "freq")],
    )) as SharedModel;
    let second = Arc::new(StaticModel::new(
        500,
        vec![Suggestion::with_source("git status", 4000, "llm")],
    )) as SharedModel;

    // Test with both light and heavy models
    let ensemble = Ensemble::new(vec![first.clone()], vec![second.clone()]);

    let result = ensemble.predict("git").unwrap();

    assert_eq!(result.len(), 1);
    assert_eq!(result[0].text, "git status");
    assert!((as_float(result[0].score) - 4.0).abs() < f64::EPSILON);
}

#[test]
fn ensemble_aggregates_scores_across_models() {
    let first = Arc::new(StaticModel::new(
        1000,
        vec![Suggestion::with_source("git status", 2000, "freq")],
    )) as SharedModel;
    let second = Arc::new(StaticModel::new(
        500,
        vec![Suggestion::with_source("git status", 4000, "llm")],
    )) as SharedModel;

    let ensemble = Ensemble::new(vec![first, second], vec![]);

    let result = ensemble.predict("git").unwrap();

    assert_eq!(result.len(), 1);
    assert_eq!(result[0].text, "git status");
    assert!((as_float(result[0].score) - 4.0).abs() < f64::EPSILON);
}

#[test]
fn light_models_only() {
    let first = Arc::new(StaticModel::new(
        1000,
        vec![Suggestion::with_source("git status", 2000, "freq")],
    )) as SharedModel;
    let second = Arc::new(StaticModel::new(
        500,
        vec![Suggestion::with_source("git commit", 3000, "prefix")],
    )) as SharedModel;

    let ensemble = Ensemble::new(vec![first, second], vec![]);

    let result = ensemble.predict_light_models("git").unwrap();

    assert_eq!(result.len(), 2);
}

#[test]
fn prefix_and_freq_sum_to_eight() {
    let prefix = shared(800, vec![("git status", 5000, "prefix")]);
    let freq = shared(500, vec![("git status", 8000, "freq")]);
    let ensemble = Ensemble::new(vec![prefix, freq], vec![]);
    let result = ensemble.predict_light_models("git").unwrap();
    assert_eq!(result.len(), 1);
    assert_eq!(result[0].text, "git status");
    assert_eq!(result[0].score, 8000);
    assert_eq!(as_float(result[0].score), 8.0);
    assert_eq!(result[0].source.as_deref(), Some("prefix"));
}

#[test]
fn disjoint_texts_keep_weighted_scores() {
    let first = shared(800, vec![("git status", 5000, "prefix"), ("git stash", 2000, "prefix")]);
    let second = shared(500, vec![("ls -la", 3000, "freq")]);
    let ensemble = Ensemble::new(vec![first, second], vec![]);
    let result = ensemble.predict_light_models("x").unwrap();
    assert_eq!(result.len(), 3);
    let find = |text: &str| result.iter().find(|s| s.text == text).unwrap();
    assert_eq!(find("git status").score, 4000);
    assert_eq!(find("git stash").score, 1600);
    assert_eq!(find("ls -la").score, 1500);
    assert_eq!(find("ls -la").source.as_deref(), Some("freq"));
}

#[test]
fn ranking_is_sorted_and_ties_keep_first_proposed_order() {
    let first = shared(1000, vec![("b", 1000, "one"), ("a", 1000, "one"), ("z", 500, "one")]);
    let second = shared(1000, vec![("top", 9000, "two"), ("c", 1000, "two")]);
    let ensemble = Ensemble::new(vec![first, second], vec![]);
    let result = ensemble.predict_light_models("x").unwrap();
    let texts: Vec<&str> = result.iter().map(|s| s.text.as_str()).collect();
    assert_eq!(texts, vec!["top", "b", "a", "c", "z"]);
    for pair in result.windows(2) {
        assert!(pair[0].score >= pair[1].score);
    }
}

#[test]
fn source_is_the_first_one_recorded() {
    let first = StaticModel::new(
        1000,
        vec![Suggestion { text: "make".to_string(), source: None, score: 1000 }],
    );
    let second = shared(1000, vec![("make", 1000, "late")]);
    let third = shared(1000, vec![("make", 1000, "later")]);
    let ensemble = Ensemble::new(vec![Arc::new(first), second, third], vec![]);
    let result = ensemble.predict_light_models("m").unwrap();
    assert_eq!(result.len(), 1);
    assert_eq!(result[0].score, 3000);
    assert_eq!(result[0].source.as_deref(), Some("late"));
}

#[test]
fn blank_input_reaches_no_strategy() {
    let calls = Arc::new(AtomicUsize::new(0));
    let spy: SharedModel = Arc::new(CountingModel { calls: calls.clone() });
    let heavy: SharedModel = Arc::new(CountingModel { calls: calls.clone() });
    let ensemble = Ensemble::new(vec![spy], vec![heavy]);
    assert!(ensemble.predict_light_models("").unwrap().is_empty());
    assert!(ensemble.predict_light_models("  \t\n").unwrap().is_empty());
    assert!(ensemble.predict("   ").unwrap().is_empty());
    assert_eq!(calls.load(Ordering::SeqCst), 0);
    assert_eq!(ensemble.predict_light_models("x").unwrap().len(), 1);
    assert_eq!(calls.load(Ordering::SeqCst), 1);
    assert_eq!(ensemble.predict("x").unwrap().len(), 1);
    assert_eq!(calls.load(Ordering::SeqCst), 3);
}

#[test]
fn default_weight_is_one() {
    let calls = Arc::new(AtomicUsize::new(0));
    let model = CountingModel { calls };
    assert_eq!(model.weight(), 1000);
    let ensemble = Ensemble::new(vec![Arc::new(model)], vec![]);
    let result = ensemble.predict_light_models("x").unwrap();
    assert_eq!(result[0].score, 1000);
}

#[test]
fn failing_strategy_does_not_stop_the_others() {
    let good = shared(1000, vec![("git status", 2000, "freq")]);
    let ensemble = Ensemble::new(vec![Arc::new(FailingModel), good], vec![]);
    let result = ensemble.predict_light_models("git").unwrap();
    assert_eq!(result.len(), 1);
    assert_eq!(result[0].score, 2000);
}

#[test]
fn no_answer_at_all_is_an_error() {
    let ensemble = Ensemble::new(vec![Arc::new(FailingModel)], vec![]);
    assert_eq!(
        ensemble.predict_light_models("git").unwrap_err(),
        EnsembleError::NoStrategyAnswered
    );
    let empty = Ensemble::new(vec![], vec![]);
    assert_eq!(empty.predict("git").unwrap_err(), EnsembleError::NoStrategyAnswered);
    assert!(empty.predict_light_models("").unwrap().is_empty());
}

#[test]
fn aggregate_merges_contributions_directly() {
    let batches = vec![
        Contribution {
            weight: 1000,
            suggestions: vec![
                Suggestion::with_source("a", 1000, "x"),
                Suggestion::with_source("a", 2000, "y"),
            ],
        },
        Contribution { weight: 250, suggestions: vec![Suggestion::with_source("b", 10, "z")] },
    ];
    let out = aggregate(&batches);
    assert_eq!(out.len(), 2);
    assert_eq!(out[0].text, "a");
    assert_eq!(out[0].score, 3000);
    assert_eq!(out[0].source.as_deref(), Some("x"));
    assert_eq!(out[1].text, "b");
    assert_eq!(out[1].score, 2);
    assert!(aggregate(&Vec::new()).is_empty());
}

#[test]
fn weighing_rounds_down_and_saturates() {
    assert_eq!(weigh(5000, 800), 4000);
    assert_eq!(weigh(1, 999), 0);
    assert_eq!(weigh(-1, 500), -1);
    assert_eq!(weigh(-2000, 500), -1000);
    assert_eq!(weigh(-1999, 500), -1000);
    assert_eq!(weigh(7, 0), 0);
    assert_eq!(weigh(i64::MAX, 2000), i64::MAX);
    assert_eq!(weigh(i64::MIN, 2000), i64::MIN);
    assert_eq!(weigh(i64::MIN, 1000), i64::MIN);
    assert_eq!(add_scores(i64::MAX, 1), i64::MAX);
    assert_eq!(add_scores(i64::MIN, -1), i64::MIN);
    assert_eq!(add_scores(-5, 7), 2);
}

#[test]
fn builder_collects_light_and_heavy() {
    let ensemble = EnsembleBuilder::new()
        .with_light_model(shared(1000, vec![("light", 1000, "l")]))
        .with_heavy_model(shared(1000, vec![("heavy", 3000, "h")]))
        .build();
    assert_eq!(ensemble.get_heavy_models().len(), 1);
    assert!(ensemble.has_heavy_models());
    assert_eq!(ensemble.predict_light_models("x").unwrap().len(), 1);
    let all = ensemble.predict("x").unwrap();
    assert_eq!(all.len(), 2);
    assert_eq!(all[0].text, "heavy");
    let heavy = ensemble.get_heavy_models();
    assert_eq!(heavy[0].predict("x").unwrap()[0].text, "heavy");
}

#[test]
fn search_returns_the_best_texts() {
    let ensemble = Ensemble::new(
        vec![shared(1000, vec![("c", 1000, "s"), ("a", 3000, "s"), ("b", 2000, "s")])],
        vec![],
    );
    assert_eq!(run_search(&ensemble, "x", 2).unwrap(), vec!["a".to_string(), "b".to_string()]);
    assert_eq!(run_search(&ensemble, "x", 0).unwrap(), Vec::<String>::new());
    assert_eq!(run_search(&ensemble, "x", 9).unwrap().len(), 3);
    assert!(run_search(&ensemble, " ", 9).unwrap().is_empty());
}

#[test]
fn an_answer_becomes_a_contribution_and_a_failure_is_passed_over() {
    let mut batches = Vec::new();
    add_answer(&mut batches, 800, Ok(vec![Suggestion::with_source("git status", 5000, "prefix")]));
    add_answer(&mut batches, 500, Err(ModelError { message: "down".to_string() }));
    add_answer(&mut batches, 500, Ok(Vec::new()));
    assert_eq!(batches.len(), 2);
    assert_eq!(batches[0].weight, 800);
    assert_eq!(batches[0].suggestions[0].text, "git status");
    assert_eq!(batches[1].weight, 500);
    assert!(batches[1].suggestions.is_empty());
}

#[test]
fn gathering_keeps_strategy_order_and_skips_failures() {
    let models: Vec<SharedModel> = vec![
        shared(800, vec![("a", 1000, "one")]),
        Arc::new(FailingModel),
        shared(500, vec![("b", 2000, "three")]),
    ];
    let batches = gather(&models, "x");
    assert_eq!(batches.len(), 2);
    assert_eq!((batches[0].weight, batches[0].suggestions[0].text.as_str()), (800, "a"));
    assert_eq!((batches[1].weight, batches[1].suggestions[0].text.as_str()), (500, "b"));
    let ensemble = Ensemble::new(models, vec![]);
    let result = ensemble.predict_light_models("x").unwrap();
    let got: Vec<(&str, i64)> = result.iter().map(|s| (s.text.as_str(), s.score)).collect();
    assert_eq!(got, vec![("b", 1000), ("a", 800)]);
}

#[test]
fn light_contributions_come_before_heavy_ones() {
    let light = vec![Contribution { weight: 1, suggestions: Vec::new() }];
    let heavy = vec![
        Contribution { weight: 2, suggestions: Vec::new() },
        Contribution { weight: 3, suggestions: Vec::new() },
    ];
    let weights: Vec<u32> = join_answers(light, heavy).iter().map(|c| c.weight).collect();
    assert_eq!(weights, vec![1, 2, 3]);
    let ensemble = Ensemble::new(
        vec![shared(1000, vec![("git status", 2000, "freq")])],
        vec![shared(500, vec![("git status", 4000, "llm")])],
    );
    let result = ensemble.predict("git").unwrap();
    assert_eq!(result[0].source.as_deref(), Some("freq"));
    let swapped = Ensemble::new(
        vec![shared(500, vec![("git status", 4000, "llm")])],
        vec![shared(1000, vec![("git status", 2000, "freq")])],
    );
    assert_eq!(swapped.predict("git").unwrap()[0].source.as_deref(), Some("llm"));
}

#[test]
fn the_best_of_a_ranking_or_its_failure() {
    let ranking = vec![
        Suggestion::with_source("a", 3, "s"),
        Suggestion::with_source("b", 2, "s"),
        Suggestion::with_source("c", 1, "s"),
    ];
    assert_eq!(best_of(Ok(ranking), 2).unwrap(), vec!["a".to_string(), "b".to_string()]);
    assert_eq!(
        best_of(Err(EnsembleError::NoStrategyAnswered), 2).unwrap_err(),
        EnsembleError::NoStrategyAnswered
    );
}

#[test]
fn the_order_of_the_strategies_keeps_the_scores() {
    let items_a = vec![("x", 1500, "a"), ("y", -700, "a")];
    let items_b = vec![("y", 900, "b"), ("z", 40, "b")];
    let items_c = vec![("x", 10, "c"), ("y", 5, "c")];
    let one = Ensemble::new(
        vec![shared(800, items_a.clone()), shared(500, items_b.clone()), shared(1000, items_c.clone())],
        vec![],
    );
    let other = Ensemble::new(
        vec![shared(500, items_b), shared(800, items_a), shared(1000, items_c)],
        vec![],
    );
    let first = one.predict_light_models("q").unwrap();
    let second = other.predict_light_models("q").unwrap();
    assert_eq!(first.len(), second.len());
    for s in &first {
        let twin = second.iter().find(|t| t.text == s.text).unwrap();
        assert_eq!(twin.score, s.score);
    }
    let y = first.iter().find(|s| s.text == "y").unwrap();
    assert_eq!(y.score, -560 + 450 + 5);
    assert_eq!(y.source.as_deref(), Some("a"));
    assert_eq!(second.iter().find(|s| s.text == "y").unwrap().source.as_deref(), Some("b"));
}
