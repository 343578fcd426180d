//! The interactive session: what is typed, what is shown, and the rules by
//! which keystrokes are debounced and late results are merged or dropped.
//!
//! The session never waits. Time is handed in as milliseconds read by the
//! caller, slow strategies run elsewhere, and what they return is offered
//! to the session together with the query it was computed for.

use crate::ensemble::{
    absorb_batch, absorb_into, answered, find_text, index_of_text, outcome_view, ranking_for,
    ContributionView, Ensemble, EnsembleError,
};
use crate::fuzzy::{fuzzy_rank, fuzzy_ranking, query_fits, MAX_QUERY_CHARS};
use crate::rank::{rank_suggestions, ranked, take_top, texts_from, texts_of, top};
use crate::suggestion::{
    clamp_score, clamp_to_score, views_of, Suggestion, SuggestionView, DEFAULT_WEIGHT,
};
use crate::text::{chars_of, copy_lines, is_blank, is_blank_str, opt_text, texts};
use vstd::prelude::*;

verus! {

/// How long the input must rest before suggestions are refreshed.
pub const DEBOUNCE_MS: u64 = 300;

/// The two screens of the interface.
#[derive(Debug, Clone, Copy, PartialEq, Eq, Structural)]
pub enum Tab {
    Main,
    History,
}

/// A rectangle of screen cells.
#[derive(Debug, Clone, Copy, PartialEq, Eq, Structural)]
pub struct Rect {
    pub x: u16,
    pub y: u16,
    pub width: u16,
    pub height: u16,
}

/// A command that was run, with what it printed.
#[derive(Debug)]
pub struct HistoryEntry {
    pub cmd: String,
    pub output_lines: Vec<String>,
}

impl Clone for HistoryEntry {
    fn clone(&self) -> (r: Self)
        ensures
            r.cmd@ == self.cmd@,
            texts(r.output_lines@) == texts(self.output_lines@),
    {
        HistoryEntry { cmd: self.cmd.clone(), output_lines: copy_lines(&self.output_lines) }
    }
}

/// What a heavy strategy returned, with the query it was asked.
#[derive(Debug)]
pub struct HeavyBatch {
    pub query: String,
    pub suggestions: Vec<Suggestion>,
}

/// What a [`HeavyBatch`] stands for.
pub struct HeavyBatchView {
    pub query: Seq<char>,
    pub suggestions: Seq<SuggestionView>,
}

impl View for HeavyBatch {
    type V = HeavyBatchView;

    open spec fn view(&self) -> HeavyBatchView {
        HeavyBatchView { query: self.query@, suggestions: views_of(self.suggestions@) }
    }
}

/// The views of a list of heavy batches, in order.
pub open spec fn batch_views(v: Seq<HeavyBatch>) -> Seq<HeavyBatchView> {
    Seq::new(v.len(), |i: int| v[i]@)
}

/// What is to be done about the heavy strategies after a refresh. Either
/// way the tasks still running for an earlier query are cancelled.
#[derive(Debug)]
pub enum HeavyDispatch {
    /// Nothing is started.
    CancelOnly,
    /// One task per heavy strategy is started for this query.
    Restart(String),
}

/// Which strategies a session starts with, beside the fuzzy baseline.
#[derive(Debug, Clone, Copy, PartialEq, Eq, Structural)]
pub struct StartupPlan {
    /// The strategies that look commands and aliases up in the store.
    pub stored_models: bool,
    /// The embedding strategy, if its generator answers.
    pub embedding: bool,
    /// The language-model strategy.
    pub llm: bool,
    /// The language model was asked for, but no model file was named.
    pub llm_model_missing: bool,
}

/// Decides which strategies a session starts with. The store-backed
/// strategies and the embedding strategy come together: both need the
/// store, and both are added only where embeddings were asked for. The
/// language model needs a model file.
pub fn startup_plan(
    has_store: bool,
    enable_embedding: bool,
    enable_llm: bool,
    has_llm_model: bool,
) -> (plan: StartupPlan)
    ensures
        plan == (StartupPlan {
            stored_models: enable_embedding && has_store,
            embedding: enable_embedding && has_store,
            llm: enable_llm && has_llm_model,
            llm_model_missing: enable_llm && !has_llm_model,
        }),
{
    StartupPlan {
        stored_models: enable_embedding && has_store,
        embedding: enable_embedding && has_store,
        llm: enable_llm && has_llm_model,
        llm_model_missing: enable_llm && !has_llm_model,
    }
}

/// What a [`HeavyDispatch`] stands for.
pub enum HeavyDispatchView {
    CancelOnly,
    Restart(Seq<char>),
}

impl View for HeavyDispatch {
    type V = HeavyDispatchView;

    open spec fn view(&self) -> HeavyDispatchView {
        match self {
            HeavyDispatch::CancelOnly => HeavyDispatchView::CancelOnly,
            HeavyDispatch::Restart(query) => HeavyDispatchView::Restart(query@),
        }
    }
}

/// What is to be done about the heavy strategies after a refresh for
/// `input`: one task per heavy strategy is started for it if there are
/// heavy strategies and the input is not blank; otherwise the tasks in
/// flight are cancelled and none is started.
pub open spec fn dispatch_for(input: Seq<char>, heavy: bool) -> HeavyDispatchView {
    if heavy && !is_blank(input) {
        HeavyDispatchView::Restart(input)
    } else {
        HeavyDispatchView::CancelOnly
    }
}

/// The ranking that stands in for the light strategies where none of them
/// answered: the fuzzy match of the query against the raw corpus, or
/// nothing for a query too long to be matched.
pub open spec fn fallback_ranking(corpus: Seq<Seq<char>>, query: Seq<char>) -> Seq<SuggestionView> {
    if query.len() <= MAX_QUERY_CHARS {
        fuzzy_ranking(corpus, query)
    } else {
        Seq::empty()
    }
}

/// The ranking that a refresh shows: that of the light strategies, or the
/// fallback where they have none.
pub open spec fn chosen_ranking(
    outcome: Result<Seq<SuggestionView>, EnsembleError>,
    corpus: Seq<Seq<char>>,
    query: Seq<char>,
) -> Seq<SuggestionView> {
    match outcome {
        Ok(ranking) => ranking,
        Err(_) => fallback_ranking(corpus, query),
    }
}

/// The ranking that a refresh shows for `input`, given what each light
/// strategy answered: nothing for a blank input, else the aggregation of
/// the answers, or the fallback where no strategy answered.
pub open spec fn refresh_ranking(
    answers: Seq<Option<ContributionView>>,
    corpus: Seq<Seq<char>>,
    input: Seq<char>,
) -> Seq<SuggestionView> {
    if is_blank(input) {
        Seq::empty()
    } else {
        chosen_ranking(ranking_for(answered(answers)), corpus, input)
    }
}

/// The interactive session state.
pub struct App {
    pub input: String,
    /// Position in `input`, counted in characters.
    pub cursor: usize,
    pub suggestions: Vec<String>,
    pub selected: usize,
    pub max_suggestions: usize,
    pub history: Vec<HistoryEntry>,
    pub output_lines: Vec<String>,
    pub is_running: bool,
    pub last_run_cmd: Option<String>,
    pub current_tab: Tab,
    pub selected_history_index: usize,
    pub pinned_output: bool,
    pub recent_runs_area: Option<Rect>,
    pub main_tab_area: Option<Rect>,
    pub history_tab_area: Option<Rect>,
    pub output_scroll: u16,
    pub history_scroll: u16,
    pub corpus: Vec<String>,
    pub ensemble: Ensemble,
    /// When the input was last edited, in milliseconds.
    pub last_input_time: Option<u64>,
    pub pending_refresh: bool,
    /// The query that the heavy tasks in flight were started for.
    pub pending_heavy_model_query: Option<String>,
}

/// The session as plain values.
pub struct SessionView {
    pub input: Seq<char>,
    pub cursor: usize,
    pub visible: Seq<Seq<char>>,
    pub selected: usize,
    pub max_suggestions: usize,
    pub history: Seq<HistoryEntry>,
    pub output_lines: Seq<String>,
    pub is_running: bool,
    pub last_run_cmd: Option<String>,
    pub current_tab: Tab,
    pub selected_history_index: usize,
    pub pinned_output: bool,
    pub recent_runs_area: Option<Rect>,
    pub main_tab_area: Option<Rect>,
    pub history_tab_area: Option<Rect>,
    pub output_scroll: u16,
    pub history_scroll: u16,
    pub corpus: Seq<Seq<char>>,
    pub last_input_time: Option<u64>,
    pub pending_refresh: bool,
    pub pending_query: Option<Seq<char>>,
}

impl View for App {
    type V = SessionView;

    open spec fn view(&self) -> SessionView {
        SessionView {
            input: self.input@,
            cursor: self.cursor,
            visible: texts(self.suggestions@),
            selected: self.selected,
            max_suggestions: self.max_suggestions,
            history: self.history@,
            output_lines: self.output_lines@,
            is_running: self.is_running,
            last_run_cmd: self.last_run_cmd,
            current_tab: self.current_tab,
            selected_history_index: self.selected_history_index,
            pinned_output: self.pinned_output,
            recent_runs_area: self.recent_runs_area,
            main_tab_area: self.main_tab_area,
            history_tab_area: self.history_tab_area,
            output_scroll: self.output_scroll,
            history_scroll: self.history_scroll,
            corpus: texts(self.corpus@),
            last_input_time: self.last_input_time,
            pending_refresh: self.pending_refresh,
            pending_query: opt_text(self.pending_heavy_model_query),
        }
    }
}

/// A selection brought back into a list of `len` entries: the last entry
/// if it pointed behind it, zero if the list is empty.
pub open spec fn clamp_selected(selected: usize, len: nat) -> usize {
    if len == 0 {
        0
    } else if selected < len {
        selected
    } else {
        (len - 1) as usize
    }
}

/// Whether a refresh is due: an edit is pending and the input has rested
/// for the debounce window.
pub open spec fn refresh_due(pending: bool, last: Option<u64>, now: u64) -> bool {
    pending && (last matches Some(t) && now >= t && now - t >= DEBOUNCE_MS)
}

/// The score that the place `idx` in a list of `len` visible suggestions
/// counts for when late results are merged: `len - idx` whole points.
pub open spec fn position_score(len: int, idx: int) -> int {
    clamp_score((len - idx) * 1000)
}

/// `text` entered with `score`: a text already present keeps its place and
/// takes the new score.
pub open spec fn set_position(entries: Seq<SuggestionView>, text: Seq<char>, score: int) -> Seq<
    SuggestionView,
> {
    let k = index_of_text(entries, text);
    if k < entries.len() {
        entries.update(k, SuggestionView { text, source: entries[k].source, score })
    } else {
        entries.push(SuggestionView { text, source: None, score })
    }
}

/// The first `upto` visible suggestions as entries scored by their place.
pub open spec fn position_entries(visible: Seq<Seq<char>>, upto: int) -> Seq<SuggestionView>
    decreases upto,
{
    if upto <= 0 {
        Seq::empty()
    } else {
        set_position(
            position_entries(visible, upto - 1),
            visible[upto - 1],
            position_score(visible.len() as int, upto - 1),
        )
    }
}

/// The ranking after late results were merged into what is visible: each
/// visible suggestion counts by its place, each late suggestion adds its
/// raw score to the entry of its text or starts one, and the whole is
/// ranked anew.
pub open spec fn merged_ranking(
    visible: Seq<Seq<char>>,
    heavy: Seq<SuggestionView>,
) -> Seq<SuggestionView> {
    ranked(
        absorb_batch(position_entries(visible, visible.len() as int), heavy, DEFAULT_WEIGHT as int),
    )
}

impl SessionView {
    /// The selection points into the visible list, or is zero where the
    /// list is empty; the list is no longer than the maximum; the cursor
    /// stands in the input.
    pub open spec fn wf(self) -> bool {
        &&& self.visible.len() <= self.max_suggestions
        &&& (self.selected < self.visible.len() || (self.visible.len() == 0 && self.selected
            == 0))
        &&& self.cursor <= self.input.len()
    }

    /// After an edit at `now`.
    pub open spec fn marked(self, now: u64) -> SessionView {
        SessionView { last_input_time: Some(now), pending_refresh: true, ..self }
    }

    /// Whether a refresh is due at `now`.
    pub open spec fn due(self, now: u64) -> bool {
        refresh_due(self.pending_refresh, self.last_input_time, now)
    }

    /// With `input` typed and the cursor behind it.
    pub open spec fn with_input(self, input: Seq<char>) -> SessionView {
        SessionView { input, cursor: input.len() as usize, ..self }
    }

    /// With the top of `ranking` shown in place of what was visible.
    pub open spec fn showing(self, ranking: Seq<SuggestionView>) -> SessionView {
        let visible = texts_of(top(ranking, self.max_suggestions as int));
        SessionView { visible, selected: clamp_selected(self.selected, visible.len()), ..self }
    }

    /// After a refresh that found `ranking`: it is shown, no edit is
    /// pending, and the input is recorded as the query that heavy results
    /// are awaited for; a blank input awaits none.
    pub open spec fn settled(self, ranking: Seq<SuggestionView>) -> SessionView {
        SessionView {
            pending_refresh: false,
            pending_query: if is_blank(self.input) {
                None
            } else {
                Some(self.input)
            },
            ..self.showing(ranking)
        }
    }

    /// Whether results computed for `query` are still wanted: the heavy
    /// tasks in flight were started for it, and it is still what is typed.
    pub open spec fn is_current(self, query: Seq<char>) -> bool {
        self.pending_query == Some(query) && self.input == query
    }

    /// After one heavy batch was offered: merged if it is current, dropped
    /// without a trace if it is not.
    pub open spec fn offered(self, batch: HeavyBatchView) -> SessionView {
        if self.is_current(batch.query) {
            self.showing(merged_ranking(self.visible, batch.suggestions))
        } else {
            self
        }
    }

    /// After a run of heavy batches was offered, in order.
    pub open spec fn polled(self, batches: Seq<HeavyBatchView>) -> SessionView
        decreases batches.len(),
    {
        if batches.len() == 0 {
            self
        } else {
            self.polled(batches.drop_last()).offered(batches.last())
        }
    }
}

/// Chooses the ranking that a refresh shows: the ranking of the light
/// strategies as it is, or, where they had none, the fuzzy match of the
/// query against the raw corpus; a query too long to be matched finds
/// nothing there.
pub fn ranking_or_fallback(
    answer: Result<Vec<Suggestion>, EnsembleError>,
    corpus: &Vec<String>,
    query: &str,
) -> (r: Vec<Suggestion>)
    ensures
        views_of(r@) == chosen_ranking(outcome_view(answer), texts(corpus@), query@),
        match answer {
            Ok(list) => r == list,
            Err(_) => views_of(r@) == fallback_ranking(texts(corpus@), query@),
        },
        (answer is Err || crate::rank::is_ranked(views_of(answer->Ok_0@)))
            ==> crate::rank::is_ranked(views_of(r@)),
{
    match answer {
        Ok(list) => list,
        Err(_) => {
            if query_fits(query) {
                fuzzy_rank(corpus, query)
            } else {
                let r: Vec<Suggestion> = Vec::new();
                assert(views_of(r@) =~= Seq::<SuggestionView>::empty());
                r
            }
        },
    }
}

/// Brings a selection back into a list of `len` entries.
pub fn clamp_selection(selected: usize, len: usize) -> (r: usize)
    ensures
        r == clamp_selected(selected, len as nat),
{
    if len == 0 {
        0
    } else if selected < len {
        selected
    } else {
        len - 1
    }
}

/// Enters `text` with `score` among the entries; a text already present
/// keeps its place and takes the new score.
pub fn enter_position(entries: &mut Vec<Suggestion>, text: &String, score: i64)
    ensures
        views_of(final(entries)@) == set_position(views_of(old(entries)@), text@, score as int),
{
    let ghost before = views_of(entries@);
    let k = find_text(entries, text);
    if k < entries.len() {
        let kept = Suggestion {
            text: text.clone(),
            source: crate::suggestion::clone_opt(&entries[k].source),
            score,
        };
        entries.set(k, kept);
        assert(views_of(entries@) =~= set_position(before, text@, score as int));
    } else {
        entries.push(Suggestion { text: text.clone(), source: None, score });
        assert(views_of(entries@) =~= set_position(before, text@, score as int));
    }
}

/// The ranking of what is visible merged with late results.
pub fn merge_ranking(visible: &Vec<String>, heavy: &Vec<Suggestion>) -> (out: Vec<Suggestion>)
    ensures
        views_of(out@) == merged_ranking(texts(visible@), views_of(heavy@)),
{
    let ghost shown = texts(visible@);
    let ghost late = views_of(heavy@);
    let len = visible.len();
    let mut entries: Vec<Suggestion> = Vec::new();
    let mut idx: usize = 0;
    while idx < len
        invariant
            idx <= len == visible.len(),
            shown == texts(visible@),
            views_of(entries@) == position_entries(shown, idx as int),
        decreases len - idx,
    {
        let score: i64 = clamp_to_score((len - idx) as i128 * 1000);
        enter_position(&mut entries, &visible[idx], score);
        idx = idx + 1;
    }
    let ghost start = views_of(entries@);
    let mut j: usize = 0;
    assert(late.take(0) =~= Seq::<SuggestionView>::empty());
    while j < heavy.len()
        invariant
            j <= heavy.len(),
            late == views_of(heavy@),
            views_of(entries@) == absorb_batch(start, late.take(j as int), DEFAULT_WEIGHT as int),
        decreases heavy.len() - j,
    {
        absorb_into(&mut entries, &heavy[j], DEFAULT_WEIGHT);
        proof {
            assert(late.take(j + 1).drop_last() =~= late.take(j as int));
            assert(late.take(j + 1).last() == heavy@[j as int]@);
        }
        j = j + 1;
    }
    assert(late.take(heavy.len() as int) =~= late);
    rank_suggestions(&entries)
}

impl App {
    /// A session at rest: nothing typed, nothing shown, no edit pending.
    pub fn new(
        corpus: Vec<String>,
        top: usize,
        history: Vec<HistoryEntry>,
        ensemble: Ensemble,
    ) -> (r: App)
        ensures
            r@.wf(),
            r@.input.len() == 0,
            r@.visible.len() == 0,
            r@.max_suggestions == top,
            r@.corpus == texts(corpus@),
            r@.history == history@,
            r@.current_tab == Tab::Main,
            !r@.pending_refresh,
            r@.last_input_time is None,
            r@.pending_query is None,
            r.ensemble == ensemble,
    {
        App {
            input: String::new(),
            cursor: 0,
            suggestions: Vec::new(),
            selected: 0,
            max_suggestions: top,
            history,
            output_lines: Vec::new(),
            is_running: false,
            last_run_cmd: None,
            current_tab: Tab::Main,
            selected_history_index: 0,
            pinned_output: false,
            recent_runs_area: None,
            main_tab_area: None,
            history_tab_area: None,
            output_scroll: 0,
            history_scroll: 0,
            corpus,
            ensemble,
            last_input_time: None,
            pending_refresh: false,
            pending_heavy_model_query: None,
        }
    }

    /// Notes an edit made at `now_ms`; the refresh itself is put off.
    pub fn mark_input_changed(&mut self, now_ms: u64)
        ensures
            final(self)@ == old(self)@.marked(now_ms),
            final(self).ensemble == old(self).ensemble,
    {
        self.last_input_time = Some(now_ms);
        self.pending_refresh = true;
    }

    /// Whether, at `now_ms`, the input has rested long enough for a refresh.
    pub fn should_refresh_suggestions(&self, now_ms: u64) -> (b: bool)
        ensures
            b == self@.due(now_ms),
    {
        if !self.pending_refresh {
            return false;
        }
        match self.last_input_time {
            Some(last) => now_ms >= last && now_ms - last >= DEBOUNCE_MS,
            None => false,
        }
    }

    /// Shows the best of `ranking`, as many as the maximum allows, and
    /// brings the selection back into the list.
    pub fn show_ranking(&mut self, ranking: &Vec<Suggestion>)
        ensures
            final(self)@ == old(self)@.showing(views_of(ranking@)),
            final(self).ensemble == old(self).ensemble,
            final(self)@.visible.len() <= old(self).max_suggestions,
            old(self)@.cursor <= old(self)@.input.len() ==> final(self)@.wf(),
    {
        let best = take_top(ranking, self.max_suggestions);
        self.suggestions = texts_from(&best);
        self.selected = clamp_selection(self.selected, self.suggestions.len());
    }

    /// Ends a refresh that found `ranking`: shows it, clears the pending
    /// edit, records the input as the query of this generation of heavy
    /// results, and says what is to be done about the heavy strategies.
    pub fn settle(&mut self, ranking: &Vec<Suggestion>) -> (dispatch: HeavyDispatch)
        ensures
            final(self)@ == old(self)@.settled(views_of(ranking@)),
            final(self).ensemble == old(self).ensemble,
            dispatch@ == dispatch_for(old(self)@.input, old(self).ensemble.heavy_count() > 0),
            old(self)@.cursor <= old(self)@.input.len() ==> final(self)@.wf(),
    {
        self.show_ranking(ranking);
        self.pending_refresh = false;
        if is_blank_str(self.input.as_str()) {
            self.pending_heavy_model_query = None;
            HeavyDispatch::CancelOnly
        } else {
            self.pending_heavy_model_query = Some(self.input.clone());
            if self.ensemble.has_heavy_models() {
                HeavyDispatch::Restart(self.input.clone())
            } else {
                HeavyDispatch::CancelOnly
            }
        }
    }

    /// The ranking for what is typed: that of the light strategies, or,
    /// where none of them answered, the fallback over the raw corpus.
    pub fn light_ranking(&self) -> (r: Vec<Suggestion>)
        ensures
            crate::rank::is_ranked(views_of(r@)),
            exists|answers: Seq<Option<ContributionView>>|
                answers.len() == self.ensemble.light_count() && views_of(r@)
                    == #[trigger] refresh_ranking(answers, self@.corpus, self@.input),
            is_blank(self@.input) ==> r.len() == 0,
            !is_blank(self@.input) && self.ensemble.light_count() == 0 ==> views_of(r@)
                == fallback_ranking(self@.corpus, self@.input),
    {
        let query = self.input.as_str();
        if is_blank_str(query) {
            let r: Vec<Suggestion> = Vec::new();
            proof {
                let none = Seq::<Option<ContributionView>>::new(
                    self.ensemble.light_count(),
                    |i: int| None,
                );
                assert(views_of(r@) =~= refresh_ranking(none, self@.corpus, self@.input));
            }
            return r;
        }
        let answer = self.ensemble.predict_light_models(query);
        let r = ranking_or_fallback(answer, &self.corpus, query);
        proof {
            let answers = choose|answers: Seq<Option<ContributionView>>|
                answers.len() == self.ensemble.light_count() && outcome_view(answer)
                    == ranking_for(#[trigger] answered(answers));
            assert(views_of(r@) == refresh_ranking(answers, self@.corpus, self@.input));
            if self.ensemble.light_count() == 0 {
                assert(answered(answers).len() == 0);
            }
        }
        r
    }

    /// Refreshes the suggestions for what is typed: shows the ranking of
    /// the light strategies, or the fallback where none of them answered;
    /// a blank input clears the list. The pending edit is cleared, the
    /// input is recorded as the query of this generation of heavy results,
    /// and the result says what to do about the heavy strategies.
    pub fn refresh_suggestions(&mut self) -> (dispatch: HeavyDispatch)
        ensures
            exists|answers: Seq<Option<ContributionView>>|
                answers.len() == old(self).ensemble.light_count() && final(self)@ == old(
                    self,
                )@.settled(
                    #[trigger] refresh_ranking(answers, old(self)@.corpus, old(self)@.input),
                ),
            is_blank(old(self)@.input) ==> final(self)@ == old(self)@.settled(Seq::empty()),
            !is_blank(old(self)@.input) && old(self).ensemble.light_count() == 0 ==> final(self)@
                == old(self)@.settled(fallback_ranking(old(self)@.corpus, old(self)@.input)),
            final(self).ensemble == old(self).ensemble,
            dispatch@ == dispatch_for(old(self)@.input, old(self).ensemble.heavy_count() > 0),
            old(self)@.cursor <= old(self)@.input.len() ==> final(self)@.wf(),
    {
        let ranking = self.light_ranking();
        proof {
            let answers = choose|answers: Seq<Option<ContributionView>>|
                answers.len() == self.ensemble.light_count() && views_of(ranking@)
                    == #[trigger] refresh_ranking(answers, self@.corpus, self@.input);
            if is_blank(self@.input) {
                assert(views_of(ranking@) =~= Seq::<SuggestionView>::empty());
            }
        }
        self.settle(&ranking)
    }

    /// Puts back an input kept from an earlier session, with the cursor
    /// behind it, and refreshes at once unless the input is blank.
    pub fn restore_input(&mut self, input: String) -> (dispatch: Option<HeavyDispatch>)
        requires
            old(self)@.wf(),
        ensures
            final(self).ensemble == old(self).ensemble,
            is_blank(input@) ==> dispatch is None && final(self)@ == old(self)@.with_input(input@),
            !is_blank(input@) ==> (dispatch matches Some(d) && d@ == dispatch_for(
                input@,
                old(self).ensemble.heavy_count() > 0,
            )) && exists|answers: Seq<Option<ContributionView>>|
                answers.len() == old(self).ensemble.light_count() && final(self)@ == old(
                    self,
                )@.with_input(input@).settled(
                    #[trigger] refresh_ranking(answers, old(self)@.corpus, input@),
                ),
            !is_blank(input@) && old(self).ensemble.light_count() == 0 ==> final(self)@ == old(
                self,
            )@.with_input(input@).settled(fallback_ranking(old(self)@.corpus, input@)),
            final(self)@.wf(),
    {
        let count = chars_of(input.as_str()).len();
        let blank = is_blank_str(input.as_str());
        self.input = input;
        self.cursor = count;
        if blank {
            None
        } else {
            Some(self.refresh_suggestions())
        }
    }

    /// Merges late results into what is visible.
    pub fn merge_heavy_model_suggestions(&mut self, heavy: &Vec<Suggestion>)
        ensures
            final(self)@ == old(self)@.showing(
                merged_ranking(old(self)@.visible, views_of(heavy@)),
            ),
            final(self).ensemble == old(self).ensemble,
            old(self)@.cursor <= old(self)@.input.len() ==> final(self)@.wf(),
    {
        let ranking = merge_ranking(&self.suggestions, heavy);
        self.show_ranking(&ranking);
    }

    /// Whether results computed for `query` are still wanted.
    pub fn wants(&self, query: &String) -> (b: bool)
        ensures
            b == self@.is_current(query@),
    {
        match &self.pending_heavy_model_query {
            Some(pending) => *pending == *query && self.input == *query,
            None => false,
        }
    }

    /// Offers one heavy batch: it is merged if it was computed for the
    /// query of the heavy tasks in flight and that query is still what is
    /// typed; otherwise it is dropped and the session stays as it is.
    pub fn offer_heavy_batch(&mut self, batch: &HeavyBatch) -> (merged: bool)
        ensures
            merged == old(self)@.is_current(batch@.query),
            final(self)@ == old(self)@.offered(batch@),
            !merged ==> final(self)@ == old(self)@,
            final(self).ensemble == old(self).ensemble,
            old(self)@.wf() ==> final(self)@.wf(),
    {
        if self.wants(&batch.query) {
            self.merge_heavy_model_suggestions(&batch.suggestions);
            true
        } else {
            false
        }
    }

    /// Offers the heavy batches that arrived since the last poll, in order.
    pub fn poll_heavy_model_results(&mut self, batches: &Vec<HeavyBatch>)
        ensures
            final(self)@ == old(self)@.polled(batch_views(batches@)),
            final(self).ensemble == old(self).ensemble,
            old(self)@.wf() ==> final(self)@.wf(),
    {
        let ghost all = batch_views(batches@);
        let ghost start = self@;
        let mut i: usize = 0;
        assert(all.take(0) =~= Seq::<HeavyBatchView>::empty());
        while i < batches.len()
            invariant
                i <= batches.len(),
                all == batch_views(batches@),
                self@ == start.polled(all.take(i as int)),
                self.ensemble == old(self).ensemble,
                start.wf() ==> self@.wf(),
            decreases batches.len() - i,
        {
            self.offer_heavy_batch(&batches[i]);
            proof {
                assert(all.take(i + 1).drop_last() =~= all.take(i as int));
                assert(all.take(i + 1).last() == batches@[i as int]@);
            }
            i = i + 1;
        }
        assert(all.take(batches.len() as int) =~= all);
    }
}

impl App {
    /// One turn of the interactive loop at `now_ms`: refreshes if a refresh
    /// is due, then offers the heavy batches that arrived. The result is
    /// what to do about the heavy strategies, if a refresh took place.
    pub fn tick(&mut self, now_ms: u64, batches: &Vec<HeavyBatch>) -> (dispatch: Option<
        HeavyDispatch,
    >)
        ensures
            !old(self)@.due(now_ms) ==> dispatch is None && final(self)@ == old(self)@.polled(
                batch_views(batches@),
            ),
            old(self)@.due(now_ms) ==> (dispatch matches Some(d) && d@ == dispatch_for(
                old(self)@.input,
                old(self).ensemble.heavy_count() > 0,
            )) && exists|answers: Seq<Option<ContributionView>>|
                answers.len() == old(self).ensemble.light_count() && final(self)@ == old(
                    self,
                )@.settled(
                    #[trigger] refresh_ranking(answers, old(self)@.corpus, old(self)@.input),
                ).polled(batch_views(batches@)),
            old(self)@.due(now_ms) && !is_blank(old(self)@.input) && old(
                self,
            ).ensemble.light_count() == 0 ==> final(self)@ == old(self)@.settled(
                fallback_ranking(old(self)@.corpus, old(self)@.input),
            ).polled(batch_views(batches@)),
            final(self).ensemble == old(self).ensemble,
            old(self)@.wf() ==> final(self)@.wf(),
    {
        let dispatch = if self.should_refresh_suggestions(now_ms) {
            Some(self.refresh_suggestions())
        } else {
            None
        };
        let ghost mid = self@;
        self.poll_heavy_model_results(batches);
        proof {
            if old(self)@.due(now_ms) {
                let answers = choose|answers: Seq<Option<ContributionView>>|
                    answers.len() == old(self).ensemble.light_count() && mid == old(
                        self,
                    )@.settled(
                        #[trigger] refresh_ranking(answers, old(self)@.corpus, old(self)@.input),
                    );
                assert(self@ == old(self)@.settled(
                    refresh_ranking(answers, old(self)@.corpus, old(self)@.input),
                ).polled(batch_views(batches@)));
            }
        }
        dispatch
    }
}

/// How many refreshes a run of polls performs when no edit comes in
/// between: a poll refreshes if a refresh is due, and a refresh clears the
/// pending edit.
pub open spec fn refresh_count(pending: bool, last: Option<u64>, polls: Seq<u64>) -> nat
    decreases polls.len(),
{
    if polls.len() == 0 {
        0
    } else if refresh_due(pending, last, polls[0]) {
        1 + refresh_count(false, last, polls.drop_first())
    } else {
        refresh_count(pending, last, polls.drop_first())
    }
}

impl SessionView {
    /// How many refreshes a run of polls performs from this state on.
    pub open spec fn refreshes(self, polls: Seq<u64>) -> nat {
        refresh_count(self.pending_refresh, self.last_input_time, polls)
    }
}

/// Without a pending edit no poll refreshes.
pub proof fn lemma_no_edit_no_refresh(last: Option<u64>, polls: Seq<u64>)
    ensures
        refresh_count(false, last, polls) == 0,
    decreases polls.len(),
{
    if polls.len() > 0 {
        lemma_no_edit_no_refresh(last, polls.drop_first());
    }
}

/// Polls that all come before the debounce window has passed refresh
/// nothing.
pub proof fn lemma_early_polls_wait(t: u64, polls: Seq<u64>)
    requires
        forall|i: int| 0 <= i < polls.len() ==> #[trigger] polls[i] < t + DEBOUNCE_MS,
    ensures
        refresh_count(true, Some(t), polls) == 0,
    decreases polls.len(),
{
    if polls.len() > 0 {
        let rest = polls.drop_first();
        assert(polls[0] < t + DEBOUNCE_MS);
        assert forall|i: int| 0 <= i < rest.len() implies #[trigger] rest[i] < t + DEBOUNCE_MS by {
            assert(rest[i] == polls[i + 1]);
        }
        lemma_early_polls_wait(t, rest);
    }
}

/// One edit, at most one refresh: however often the session is polled
/// after an edit, it refreshes once at most until the next edit.
pub proof fn lemma_one_edit_one_refresh(s: SessionView, polls: Seq<u64>)
    ensures
        s.refreshes(polls) <= 1,
    decreases polls.len(),
{
    if polls.len() > 0 {
        if refresh_due(s.pending_refresh, s.last_input_time, polls[0]) {
            lemma_no_edit_no_refresh(s.last_input_time, polls.drop_first());
        } else {
            lemma_one_edit_one_refresh(s, polls.drop_first());
        }
    }
}

/// Debounce: two edits within the debounce window cause one refresh at
/// most. The polls between the two edits refresh nothing, and the polls
/// after the second edit refresh once at most.
pub proof fn lemma_two_edits_one_refresh(
    s: SessionView,
    first: u64,
    second: u64,
    between: Seq<u64>,
    after: Seq<u64>,
)
    requires
        first <= second < first + DEBOUNCE_MS,
        forall|i: int| 0 <= i < between.len() ==> first <= #[trigger] between[i] <= second,
    ensures
        s.marked(first).refreshes(between) == 0,
        s.marked(first).marked(second).refreshes(after) <= 1,
{
    lemma_early_polls_wait(first, between);
    lemma_one_edit_one_refresh(s.marked(first).marked(second), after);
}

/// Debounce: an edit followed by polls of which one comes after the
/// debounce window has passed causes exactly one refresh.
pub proof fn lemma_rested_edit_refreshes_once(s: SessionView, at: u64, polls: Seq<u64>, k: int)
    requires
        0 <= k < polls.len(),
        forall|i: int| 0 <= i < polls.len() ==> at <= #[trigger] polls[i],
        polls[k] - at >= DEBOUNCE_MS,
    ensures
        s.marked(at).refreshes(polls) == 1,
    decreases polls.len(),
{
    let rest = polls.drop_first();
    if refresh_due(true, Some(at), polls[0]) {
        lemma_no_edit_no_refresh(Some(at), rest);
    } else {
        assert(k > 0);
        assert(rest[k - 1] == polls[k]);
        assert forall|i: int| 0 <= i < rest.len() implies at <= #[trigger] rest[i] by {
            assert(rest[i] == polls[i + 1]);
        }
        lemma_rested_edit_refreshes_once(s, at, rest, k - 1);
    }
}

/// Cancellation: once a refresh has started heavy tasks for what is typed,
/// a batch computed for any other query is dropped, whenever it arrives:
/// the session, and with it the visible list, stays exactly as it is.
pub proof fn lemma_superseded_batch_is_dropped(
    s: SessionView,
    ranking: Seq<SuggestionView>,
    stale: HeavyBatchView,
)
    requires
        stale.query != s.input,
    ensures
        s.settled(ranking).offered(stale) == s.settled(ranking),
        s.settled(ranking).polled(seq![stale]) == s.settled(ranking),
{
    let now = s.settled(ranking);
    assert(now.input == s.input);
    assert(!now.is_current(stale.query));
    assert(seq![stale].drop_last() =~= Seq::<HeavyBatchView>::empty());
    assert(now.polled(seq![stale].drop_last()) == now);
}

/// The session invariant holds of whatever a refresh or a run of heavy
/// batches leaves behind: the visible list is never longer than the
/// maximum, and the selection points into it.
pub proof fn lemma_transitions_keep_wf(
    s: SessionView,
    ranking: Seq<SuggestionView>,
    now: u64,
    batches: Seq<HeavyBatchView>,
)
    requires
        s.wf(),
    ensures
        s.marked(now).wf(),
        s.showing(ranking).wf(),
        s.settled(ranking).wf(),
        s.polled(batches).wf(),
    decreases batches.len(),
{
    if batches.len() > 0 {
        lemma_transitions_keep_wf(s, ranking, now, batches.drop_last());
        let before = s.polled(batches.drop_last());
        let batch = batches.last();
        lemma_showing_truncates(before, merged_ranking(before.visible, batch.suggestions));
    }
}

/// Truncation: whatever is shown is the head of the ranking, never longer
/// than the maximum, and the selection points into it.
pub proof fn lemma_showing_truncates(s: SessionView, ranking: Seq<SuggestionView>)
    ensures
        s.showing(ranking).visible.len() <= s.max_suggestions,
        s.showing(ranking).visible.len() <= ranking.len(),
        forall|i: int|
            0 <= i < s.showing(ranking).visible.len() ==> s.showing(ranking).visible[i]
                == ranking[i].text,
        s.cursor <= s.input.len() ==> s.showing(ranking).wf(),
{
}

} // verus!
