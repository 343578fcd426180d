//! The ensemble: weighted-sum aggregation of what several strategies
//! propose, merged by text equality and ranked by score.

use crate::handle::{append_to, clone_handles, pushed};
use crate::rank::{distinct_texts, is_ranked, rank_suggestions, ranked, texts_of, top_texts};
use crate::suggestion::{
    add_scores, clone_opt, score_sum, views_of, weigh, weighted, ModelError, SuggestModel,
    Suggestion, SuggestionView,
};
use crate::text::{is_blank, is_blank_str, texts};
use std::sync::Arc;
use vstd::prelude::*;

verus! {

/// What one strategy contributed: its weight and the suggestions it returned.
pub struct Contribution {
    pub weight: u32,
    pub suggestions: Vec<Suggestion>,
}

/// What a [`Contribution`] stands for.
pub struct ContributionView {
    pub weight: int,
    pub suggestions: Seq<SuggestionView>,
}

impl View for Contribution {
    type V = ContributionView;

    open spec fn view(&self) -> ContributionView {
        ContributionView { weight: self.weight as int, suggestions: views_of(self.suggestions@) }
    }
}

/// The views of a list of contributions, in order.
pub open spec fn contribution_views(v: Seq<Contribution>) -> Seq<ContributionView> {
    Seq::new(v.len(), |i: int| v[i]@)
}

/// The index of the first entry that carries `text`, or the length of
/// `entries` if none does.
pub open spec fn index_of_text(entries: Seq<SuggestionView>, text: Seq<char>) -> int
    decreases entries.len(),
{
    if entries.len() == 0 {
        0
    } else if entries[0].text == text {
        0
    } else {
        1 + index_of_text(entries.drop_first(), text)
    }
}

/// Some entry carries `text`.
pub open spec fn has_text(entries: Seq<SuggestionView>, text: Seq<char>) -> bool {
    index_of_text(entries, text) < entries.len()
}

/// The first entry that carries `text`.
pub open spec fn entry_for(entries: Seq<SuggestionView>, text: Seq<char>) -> SuggestionView {
    entries[index_of_text(entries, text)]
}

/// The score recorded for `text`, zero if there is none.
pub open spec fn score_for(entries: Seq<SuggestionView>, text: Seq<char>) -> int {
    if has_text(entries, text) {
        entry_for(entries, text).score
    } else {
        0
    }
}

/// The source recorded for `text`, if any.
pub open spec fn source_for(entries: Seq<SuggestionView>, text: Seq<char>) -> Option<Seq<char>> {
    if has_text(entries, text) {
        entry_for(entries, text).source
    } else {
        None
    }
}

/// One suggestion merged into the accumulated entries: its weighted score
/// is added to the entry of the same text, which keeps its source if it has
/// one; a text seen for the first time gets an entry of its own at the end.
pub open spec fn absorb(entries: Seq<SuggestionView>, s: SuggestionView, weight: int) -> Seq<
    SuggestionView,
> {
    let k = index_of_text(entries, s.text);
    let gain = weighted(s.score, weight);
    if k < entries.len() {
        entries.update(
            k,
            SuggestionView {
                text: s.text,
                source: if entries[k].source is Some {
                    entries[k].source
                } else {
                    s.source
                },
                score: score_sum(entries[k].score, gain),
            },
        )
    } else {
        entries.push(SuggestionView { text: s.text, source: s.source, score: gain })
    }
}

/// All suggestions of one strategy merged into the entries, in the order
/// in which the strategy returned them.
pub open spec fn absorb_batch(
    entries: Seq<SuggestionView>,
    batch: Seq<SuggestionView>,
    weight: int,
) -> Seq<SuggestionView>
    decreases batch.len(),
{
    if batch.len() == 0 {
        entries
    } else {
        absorb(absorb_batch(entries, batch.drop_last(), weight), batch.last(), weight)
    }
}

/// The entries after every contribution was merged, strategy by strategy.
pub open spec fn accumulated(batches: Seq<ContributionView>) -> Seq<SuggestionView>
    decreases batches.len(),
{
    if batches.len() == 0 {
        Seq::empty()
    } else {
        absorb_batch(
            accumulated(batches.drop_last()),
            batches.last().suggestions,
            batches.last().weight,
        )
    }
}

/// The aggregated ranking: one entry per text, scored with the sum of its
/// weighted contributions, highest score first; equal scores stand in the
/// order in which their texts were first proposed.
pub open spec fn aggregated(batches: Seq<ContributionView>) -> Seq<SuggestionView> {
    ranked(accumulated(batches))
}

/// What `index_of_text` finds: no entry before the index carries the text,
/// and the entry at the index, if there is one, does.
pub proof fn lemma_index_of_text(entries: Seq<SuggestionView>, text: Seq<char>)
    ensures
        0 <= index_of_text(entries, text) <= entries.len(),
        forall|j: int| 0 <= j < index_of_text(entries, text) ==> entries[j].text != text,
        has_text(entries, text) ==> entry_for(entries, text).text == text,
    decreases entries.len(),
{
    if entries.len() > 0 && entries[0].text != text {
        let rest = entries.drop_first();
        lemma_index_of_text(rest, text);
        assert forall|j: int| 0 <= j < index_of_text(entries, text) implies entries[j].text
            != text by {
            if j > 0 {
                assert(entries[j] == rest[j - 1]);
            }
        }
        if has_text(entries, text) {
            assert(entries[index_of_text(entries, text)] == rest[index_of_text(rest, text)]);
        }
    }
}

/// An index is the one `index_of_text` finds as soon as it has its two
/// properties.
pub proof fn lemma_index_of_text_is(entries: Seq<SuggestionView>, text: Seq<char>, k: int)
    requires
        0 <= k <= entries.len(),
        forall|j: int| 0 <= j < k ==> entries[j].text != text,
        k < entries.len() ==> entries[k].text == text,
    ensures
        index_of_text(entries, text) == k,
{
    lemma_index_of_text(entries, text);
    let r = index_of_text(entries, text);
    if r < k {
        assert(entries[r].text == text);
    } else if k < r {
        assert(entries[k].text != text);
    }
}

/// Merging a suggestion keeps the texts of the entries distinct.
pub proof fn lemma_absorb_distinct(entries: Seq<SuggestionView>, s: SuggestionView, weight: int)
    requires
        distinct_texts(entries),
    ensures
        distinct_texts(absorb(entries, s, weight)),
{
    lemma_index_of_text(entries, s.text);
    let k = index_of_text(entries, s.text);
    let out = absorb(entries, s, weight);
    assert forall|i: int, j: int| 0 <= i < j < out.len() implies out[i].text != out[j].text by {
        if k < entries.len() {
            assert(out[i].text == entries[i].text && out[j].text == entries[j].text);
        } else {
            if j < entries.len() {
                assert(out[i] == entries[i] && out[j] == entries[j]);
            } else {
                assert(out[i] == entries[i]);
            }
        }
    }
}

/// Merging a whole batch keeps the texts of the entries distinct.
pub proof fn lemma_absorb_batch_distinct(
    entries: Seq<SuggestionView>,
    batch: Seq<SuggestionView>,
    weight: int,
)
    requires
        distinct_texts(entries),
    ensures
        distinct_texts(absorb_batch(entries, batch, weight)),
    decreases batch.len(),
{
    if batch.len() > 0 {
        lemma_absorb_batch_distinct(entries, batch.drop_last(), weight);
        lemma_absorb_distinct(absorb_batch(entries, batch.drop_last(), weight), batch.last(), weight);
    }
}

/// The accumulated entries never hold a text twice.
pub proof fn lemma_accumulated_distinct(batches: Seq<ContributionView>)
    ensures
        distinct_texts(accumulated(batches)),
    decreases batches.len(),
{
    if batches.len() > 0 {
        lemma_accumulated_distinct(batches.drop_last());
        lemma_absorb_batch_distinct(
            accumulated(batches.drop_last()),
            batches.last().suggestions,
            batches.last().weight,
        );
    }
}

/// Where `text` stands among the entries, or their number if it is new.
pub fn find_text(entries: &Vec<Suggestion>, text: &String) -> (k: usize)
    ensures
        k == index_of_text(views_of(entries@), text@),
        k <= entries.len(),
{
    let mut k: usize = 0;
    while k < entries.len()
        invariant
            k <= entries.len(),
            forall|j: int| 0 <= j < k ==> (#[trigger] views_of(entries@)[j]).text != text@,
        decreases entries.len() - k,
    {
        if entries[k].text == *text {
            proof {
                lemma_index_of_text_is(views_of(entries@), text@, k as int);
            }
            return k;
        }
        k = k + 1;
    }
    proof {
        lemma_index_of_text_is(views_of(entries@), text@, k as int);
    }
    k
}

/// Merges one suggestion, weighted, into the entries.
pub fn absorb_into(entries: &mut Vec<Suggestion>, s: &Suggestion, weight: u32)
    ensures
        views_of(final(entries)@) == absorb(views_of(old(entries)@), s@, weight as int),
{
    let ghost before = views_of(entries@);
    let gain: i64 = weigh(s.score, weight);
    let k = find_text(entries, &s.text);
    if k < entries.len() {
        let source = if entries[k].source.is_some() {
            clone_opt(&entries[k].source)
        } else {
            clone_opt(&s.source)
        };
        let merged = Suggestion {
            text: s.text.clone(),
            source,
            score: add_scores(entries[k].score, gain),
        };
        entries.set(k, merged);
        assert(views_of(entries@) =~= absorb(before, s@, weight as int));
    } else {
        let fresh = Suggestion { text: s.text.clone(), source: clone_opt(&s.source), score: gain };
        entries.push(fresh);
        assert(views_of(entries@) =~= absorb(before, s@, weight as int));
    }
}

/// Merges every contribution and ranks the result.
pub fn aggregate(batches: &Vec<Contribution>) -> (out: Vec<Suggestion>)
    ensures
        views_of(out@) == aggregated(contribution_views(batches@)),
        is_ranked(views_of(out@)),
        distinct_texts(views_of(out@)),
{
    let ghost all = contribution_views(batches@);
    let mut entries: Vec<Suggestion> = Vec::new();
    let mut b: usize = 0;
    assert(views_of(entries@) =~= accumulated(all.take(0)));
    while b < batches.len()
        invariant
            b <= batches.len(),
            all == contribution_views(batches@),
            views_of(entries@) == accumulated(all.take(b as int)),
        decreases batches.len() - b,
    {
        let batch = &batches[b];
        let ghost start = views_of(entries@);
        let ghost items = batch@.suggestions;
        let mut j: usize = 0;
        assert(items.take(0) =~= Seq::<SuggestionView>::empty());
        while j < batch.suggestions.len()
            invariant
                j <= batch.suggestions.len(),
                items == views_of(batch.suggestions@),
                views_of(entries@) == absorb_batch(start, items.take(j as int), batch.weight as int),
            decreases batch.suggestions.len() - j,
        {
            absorb_into(&mut entries, &batch.suggestions[j], batch.weight);
            proof {
                assert(items.take(j + 1).drop_last() =~= items.take(j as int));
                assert(items.take(j + 1).last() == batch.suggestions@[j as int]@);
            }
            j = j + 1;
        }
        proof {
            assert(items.take(batch.suggestions.len() as int) =~= items);
            assert(all.take(b + 1).drop_last() =~= all.take(b as int));
            assert(all.take(b + 1).last() == batch@);
        }
        b = b + 1;
    }
    proof {
        assert(all.take(batches.len() as int) =~= all);
        lemma_accumulated_distinct(all);
        crate::rank::lemma_ranked_distinct(accumulated(all));
    }
    rank_suggestions(&entries)
}

/// A strategy handle: shared, read-only once the ensemble is built.
pub type SharedModel = Arc<dyn SuggestModel>;

/// Why an ensemble has no ranking to offer.
#[derive(Debug, Clone, Copy, PartialEq, Eq, Structural)]
pub enum EnsembleError {
    /// The input was not blank and not one strategy answered.
    NoStrategyAnswered,
}

/// Collects strategies, light and heavy, and builds an [`Ensemble`].
pub struct EnsembleBuilder {
    light_models: Vec<SharedModel>,
    heavy_models: Vec<SharedModel>,
}

impl EnsembleBuilder {
    /// The light strategies collected so far, in order.
    pub closed spec fn light(&self) -> Seq<SharedModel> {
        self.light_models@
    }

    /// The heavy strategies collected so far, in order.
    pub closed spec fn heavy(&self) -> Seq<SharedModel> {
        self.heavy_models@
    }

    /// Number of light strategies collected so far.
    pub open spec fn light_count(&self) -> nat {
        self.light().len()
    }

    /// Number of heavy strategies collected so far.
    pub open spec fn heavy_count(&self) -> nat {
        self.heavy().len()
    }

    /// A builder without strategies.
    pub fn new() -> (r: Self)
        ensures
            r.light() == Seq::<SharedModel>::empty(),
            r.heavy() == Seq::<SharedModel>::empty(),
    {
        EnsembleBuilder { light_models: Vec::new(), heavy_models: Vec::new() }
    }

    /// Adds a strategy that is fast enough to run on every refresh.
    pub fn with_light_model(self, model: SharedModel) -> (r: Self)
        ensures
            r.light() == pushed(model, self.light()),
            r.heavy() == self.heavy(),
    {
        let mut builder = self;
        append_to(model, &mut builder.light_models);
        builder
    }

    /// Adds a strategy that must run off the interactive path.
    pub fn with_heavy_model(self, model: SharedModel) -> (r: Self)
        ensures
            r.light() == self.light(),
            r.heavy() == pushed(model, self.heavy()),
    {
        let mut builder = self;
        append_to(model, &mut builder.heavy_models);
        builder
    }

    /// The ensemble of the strategies collected.
    pub fn build(self) -> (r: Ensemble)
        ensures
            r.light() == self.light(),
            r.heavy() == self.heavy(),
    {
        Ensemble::new(self.light_models, self.heavy_models)
    }
}

/// Two ordered sets of strategies: the light ones answer on the interactive
/// path, the heavy ones are handed out to run elsewhere.
pub struct Ensemble {
    light_models: Vec<SharedModel>,
    heavy_models: Vec<SharedModel>,
}

impl Ensemble {
    /// The light strategies, in order.
    pub closed spec fn light(&self) -> Seq<SharedModel> {
        self.light_models@
    }

    /// The heavy strategies, in order.
    pub closed spec fn heavy(&self) -> Seq<SharedModel> {
        self.heavy_models@
    }

    /// Number of light strategies.
    pub open spec fn light_count(&self) -> nat {
        self.light().len()
    }

    /// Number of heavy strategies.
    pub open spec fn heavy_count(&self) -> nat {
        self.heavy().len()
    }

    /// An ensemble of the given strategies.
    pub fn new(light_models: Vec<SharedModel>, heavy_models: Vec<SharedModel>) -> (r: Self)
        ensures
            r.light() == light_models@,
            r.heavy() == heavy_models@,
    {
        Ensemble { light_models, heavy_models }
    }

    /// The ranking over every strategy, light and heavy: the aggregation of
    /// what the light strategies answered followed by what the heavy ones
    /// answered, each strategy asked once. A blank input gives an empty
    /// ranking and reaches no strategy. This waits for the heavy
    /// strategies and is not meant for the interactive path.
    pub fn predict(&self, input: &str) -> (r: Result<Vec<Suggestion>, EnsembleError>)
        ensures
            is_blank(input@) ==> (r matches Ok(list) && list.len() == 0),
            r matches Ok(list) ==> is_ranked(views_of(list@)) && distinct_texts(views_of(list@)),
            !is_blank(input@) ==> exists|
                light: Seq<Option<ContributionView>>,
                heavy: Seq<Option<ContributionView>>,
            |
                light.len() == self.light_count() && heavy.len() == self.heavy_count()
                    && outcome_view(r) == ranking_for(
                    #[trigger] answered(light) + #[trigger] answered(heavy),
                ),
            !is_blank(input@) && self.light_count() + self.heavy_count() == 0 ==> r is Err,
    {
        if is_blank_str(input) {
            return Ok(Vec::new());
        }
        let light = gather(&self.light_models, input);
        let heavy = gather(&self.heavy_models, input);
        let ghost light_views = contribution_views(light@);
        let ghost heavy_views = contribution_views(heavy@);
        let batches = join_answers(light, heavy);
        let r = ranking_of(&batches);
        proof {
            let l = choose|l: Seq<Option<ContributionView>>|
                l.len() == self.light_models@.len() && light_views == #[trigger] answered(l);
            let h = choose|h: Seq<Option<ContributionView>>|
                h.len() == self.heavy_models@.len() && heavy_views == #[trigger] answered(h);
            assert(outcome_view(r) == ranking_for(answered(l) + answered(h)));
            if self.light_count() + self.heavy_count() == 0 {
                assert(answered(l).len() == 0 && answered(h).len() == 0);
            }
        }
        r
    }

    /// The ranking over the light strategies only: the aggregation of what
    /// they answered, each asked once. A blank input gives an empty ranking
    /// and reaches no strategy.
    pub fn predict_light_models(&self, input: &str) -> (r: Result<
        Vec<Suggestion>,
        EnsembleError,
    >)
        ensures
            is_blank(input@) ==> (r matches Ok(list) && list.len() == 0),
            r matches Ok(list) ==> is_ranked(views_of(list@)) && distinct_texts(views_of(list@)),
            !is_blank(input@) ==> exists|answers: Seq<Option<ContributionView>>|
                answers.len() == self.light_count() && outcome_view(r) == ranking_for(
                    #[trigger] answered(answers),
                ),
            !is_blank(input@) && self.light_count() == 0 ==> r is Err,
    {
        if is_blank_str(input) {
            return Ok(Vec::new());
        }
        let batches = gather(&self.light_models, input);
        let r = ranking_of(&batches);
        proof {
            let l = choose|l: Seq<Option<ContributionView>>|
                l.len() == self.light_models@.len() && contribution_views(batches@)
                    == #[trigger] answered(l);
            assert(outcome_view(r) == ranking_for(answered(l)));
            if self.light_count() == 0 {
                assert(answered(l).len() == 0);
            }
        }
        r
    }

    /// Handles to the heavy strategies, for running them elsewhere.
    pub fn get_heavy_models(&self) -> (r: Vec<SharedModel>)
        ensures
            r@ == self.heavy(),
    {
        clone_handles(&self.heavy_models)
    }

    /// Whether the ensemble has heavy strategies at all.
    pub fn has_heavy_models(&self) -> (b: bool)
        ensures
            b == (self.heavy_count() > 0),
    {
        self.heavy_models.len() > 0
    }
}

/// The contributions among the answers of a run of strategies: a strategy
/// that answered contributes, one that failed (`None`) is passed over, and
/// the contributions stand in the order of the strategies.
pub open spec fn answered(answers: Seq<Option<ContributionView>>) -> Seq<ContributionView>
    decreases answers.len(),
{
    if answers.len() == 0 {
        Seq::empty()
    } else {
        let init = answered(answers.drop_last());
        match answers.last() {
            Some(contribution) => init.push(contribution),
            None => init,
        }
    }
}

/// What one answer does to the contributions gathered so far: a strategy
/// that answered adds its suggestions under its weight, a strategy that
/// failed adds nothing.
pub open spec fn with_answer(
    batches: Seq<ContributionView>,
    weight: int,
    answer: Result<Vec<Suggestion>, ModelError>,
) -> Seq<ContributionView> {
    match answer {
        Ok(list) => batches.push(ContributionView { weight, suggestions: views_of(list@) }),
        Err(_) => batches,
    }
}

/// The answer of one strategy as it counts in a run of answers.
pub open spec fn answer_view(weight: int, answer: Result<Vec<Suggestion>, ModelError>) -> Option<
    ContributionView,
> {
    match answer {
        Ok(list) => Some(ContributionView { weight, suggestions: views_of(list@) }),
        Err(_) => None,
    }
}

/// Takes in what one strategy of the given weight answered: its
/// suggestions become a contribution behind those gathered so far; its
/// failure is passed over.
pub fn add_answer(
    batches: &mut Vec<Contribution>,
    weight: u32,
    answer: Result<Vec<Suggestion>, ModelError>,
)
    ensures
        contribution_views(final(batches)@) == with_answer(
            contribution_views(old(batches)@),
            weight as int,
            answer,
        ),
{
    let ghost before = contribution_views(batches@);
    match answer {
        Ok(suggestions) => {
            let contribution = Contribution { weight, suggestions };
            batches.push(contribution);
            assert(contribution_views(batches@) =~= before.push(contribution@));
        },
        Err(_) => {},
    }
}

/// The contributions of the light strategies followed by those of the
/// heavy ones.
pub fn join_answers(light: Vec<Contribution>, heavy: Vec<Contribution>) -> (all: Vec<Contribution>)
    ensures
        contribution_views(all@) == contribution_views(light@) + contribution_views(heavy@),
{
    let mut all = light;
    let mut rest = heavy;
    all.append(&mut rest);
    assert(contribution_views(all@) =~= contribution_views(light@) + contribution_views(heavy@));
    all
}

/// Asks every strategy for its suggestions and its weight, each once and
/// in order, with the same input, and takes each answer in with
/// [`add_answer`]. The result holds one contribution for every strategy
/// that answered, in the order of the strategies. A strategy that fails is
/// passed over: it contributes nothing and stops no other strategy.
pub fn gather(models: &Vec<SharedModel>, input: &str) -> (batches: Vec<Contribution>)
    ensures
        batches.len() <= models.len(),
        exists|answers: Seq<Option<ContributionView>>|
            answers.len() == models.len() && contribution_views(batches@) == #[trigger] answered(
                answers,
            ),
{
    let mut batches: Vec<Contribution> = Vec::new();
    let ghost mut answers: Seq<Option<ContributionView>> = Seq::empty();
    let mut i: usize = 0;
    assert(contribution_views(batches@) =~= answered(answers));
    while i < models.len()
        invariant
            i <= models.len(),
            batches.len() <= i,
            answers.len() == i,
            contribution_views(batches@) == answered(answers),
        decreases models.len() - i,
    {
        let ghost asked = answers;
        let answer = models[i].predict(input);
        let weight = models[i].weight();
        proof {
            answers = asked.push(answer_view(weight as int, answer));
            assert(answers.drop_last() =~= asked);
        }
        add_answer(&mut batches, weight, answer);
        assert(batches.len() == contribution_views(batches@).len());
        i = i + 1;
    }
    batches
}

/// What a ranking or its failure stands for.
pub open spec fn outcome_view(r: Result<Vec<Suggestion>, EnsembleError>) -> Result<
    Seq<SuggestionView>,
    EnsembleError,
> {
    match r {
        Ok(list) => Ok(views_of(list@)),
        Err(e) => Err(e),
    }
}

/// The ranking of what the strategies contributed: their aggregation, or
/// the error that none answered.
pub open spec fn ranking_for(batches: Seq<ContributionView>) -> Result<
    Seq<SuggestionView>,
    EnsembleError,
> {
    if batches.len() == 0 {
        Err(EnsembleError::NoStrategyAnswered)
    } else {
        Ok(aggregated(batches))
    }
}

/// The ranking of what the strategies contributed; an error if none did.
pub fn ranking_of(batches: &Vec<Contribution>) -> (r: Result<Vec<Suggestion>, EnsembleError>)
    ensures
        outcome_view(r) == ranking_for(contribution_views(batches@)),
        batches.len() == 0 ==> r == Err::<Vec<Suggestion>, EnsembleError>(
            EnsembleError::NoStrategyAnswered,
        ),
        batches.len() > 0 ==> (r matches Ok(list) && views_of(list@) == aggregated(
            contribution_views(batches@),
        )),
        r matches Ok(list) ==> is_ranked(views_of(list@)) && distinct_texts(views_of(list@)),
{
    if batches.len() == 0 {
        Err(EnsembleError::NoStrategyAnswered)
    } else {
        Ok(aggregate(batches))
    }
}

/// What is found of a ranking or its failure: the texts of its best `top`
/// entries, or the failure.
pub open spec fn found_in(
    outcome: Result<Seq<SuggestionView>, EnsembleError>,
    top: int,
) -> Result<Seq<Seq<char>>, EnsembleError> {
    match outcome {
        Ok(ranking) => Ok(texts_of(crate::rank::top(ranking, top))),
        Err(e) => Err(e),
    }
}

/// What a search result stands for.
pub open spec fn found_view(r: Result<Vec<String>, EnsembleError>) -> Result<
    Seq<Seq<char>>,
    EnsembleError,
> {
    match r {
        Ok(found) => Ok(texts(found@)),
        Err(e) => Err(e),
    }
}

/// The texts of the best `top` entries of a ranking; its failure is handed
/// on.
pub fn best_of(outcome: Result<Vec<Suggestion>, EnsembleError>, top: usize) -> (r: Result<
    Vec<String>,
    EnsembleError,
>)
    ensures
        found_view(r) == found_in(outcome_view(outcome), top as int),
        r matches Ok(found) ==> found.len() <= top,
        outcome matches Ok(list) ==> (r matches Ok(found) && found.len() <= list.len()),
{
    match outcome {
        Ok(ranking) => Ok(top_texts(&ranking, top)),
        Err(e) => Err(e),
    }
}

/// The batch search: the texts of the best `top` suggestions that all
/// strategies of the ensemble, light before heavy, have for `query`.
pub fn run_search(ensemble: &Ensemble, query: &str, top: usize) -> (r: Result<
    Vec<String>,
    EnsembleError,
>)
    ensures
        is_blank(query@) ==> (r matches Ok(found) && found.len() == 0),
        r matches Ok(found) ==> found.len() <= top,
        !is_blank(query@) ==> exists|
            light: Seq<Option<ContributionView>>,
            heavy: Seq<Option<ContributionView>>,
        |
            light.len() == ensemble.light_count() && heavy.len() == ensemble.heavy_count()
                && found_view(r) == found_in(
                ranking_for(#[trigger] answered(light) + #[trigger] answered(heavy)),
                top as int,
            ),
        !is_blank(query@) && ensemble.light_count() + ensemble.heavy_count() == 0 ==> r is Err,
{
    let outcome = ensemble.predict(query);
    let r = best_of(outcome, top);
    proof {
        if !is_blank(query@) {
            let (l, h) = choose|
                l: Seq<Option<ContributionView>>,
                h: Seq<Option<ContributionView>>,
            |
                l.len() == ensemble.light_count() && h.len() == ensemble.heavy_count()
                    && outcome_view(outcome) == ranking_for(
                    #[trigger] answered(l) + #[trigger] answered(h),
                );
            assert(found_view(r) == found_in(ranking_for(answered(l) + answered(h)), top as int));
        }
    }
    r
}

} // verus!
