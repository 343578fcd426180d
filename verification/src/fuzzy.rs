//! The baseline strategy: fuzzy subsequence matching of the typed text
//! against the lines of the loaded history.

use crate::rank::{is_ranked, rank_suggestions, ranked};
use crate::suggestion::{
    clamp_score, clamp_to_score, views_of, ModelError, SuggestModel, Suggestion, SuggestionView,
    DEFAULT_WEIGHT,
};
use crate::text::{is_blank, is_blank_str, texts};
use fuzzy_matcher::skim::SkimMatcherV2;
use fuzzy_matcher::FuzzyMatcher;
use vstd::prelude::*;
use vstd::string::StrSliceExecFns;

verus! {

/// The longest query, in characters, that is matched. The matcher keeps
/// its scores in 32 bits and a score grows by at most 32 with each
/// character of the query, so a query up to this length keeps every score
/// in range; the length of the line does not enter.
pub const MAX_QUERY_CHARS: usize = 67_108_863;

/// The score that the skim matcher, in its default configuration, gives
/// to `choice` for `pattern`; `None` where `pattern` is no subsequence of
/// `choice`.
pub uninterp spec fn skim_score(choice: Seq<char>, pattern: Seq<char>) -> Option<i64>;

/// `SkimMatcherV2::fuzzy_match` on a matcher made by `SkimMatcherV2::default`.
/// The result is the matcher's score for the pair, a function of the two
/// texts alone. The pattern is bounded so that the matcher's 32-bit score
/// arithmetic stays in range.
#[verifier::external_body]
fn skim_match(choice: &str, pattern: &str) -> (r: Option<i64>)
    requires
        pattern@.len() <= MAX_QUERY_CHARS,
    ensures
        r == skim_score(choice@, pattern@),
{
    SkimMatcherV2::default().fuzzy_match(choice, pattern)
}

/// A matcher score in whole points as a fixed-point score.
pub open spec fn points(score: i64) -> int {
    clamp_score(score * 1000)
}

/// The suggestion that a line matching with `score` becomes.
pub open spec fn history_match(line: Seq<char>, score: i64) -> SuggestionView {
    SuggestionView { text: line, source: Some("history"@), score: points(score) }
}

/// The lines that match `query`, in corpus order, each with its score.
pub open spec fn fuzzy_candidates(corpus: Seq<Seq<char>>, query: Seq<char>) -> Seq<SuggestionView>
    decreases corpus.len(),
{
    if corpus.len() == 0 {
        Seq::empty()
    } else {
        let rest = fuzzy_candidates(corpus.drop_last(), query);
        let line = corpus.last();
        if skim_score(line, query) is Some {
            rest.push(history_match(line, skim_score(line, query)->0))
        } else {
            rest
        }
    }
}

/// The matching lines, best match first; equal scores in corpus order.
pub open spec fn fuzzy_ranking(corpus: Seq<Seq<char>>, query: Seq<char>) -> Seq<SuggestionView> {
    ranked(fuzzy_candidates(corpus, query))
}

/// Matches every line of `corpus` against `query` and ranks the matches.
pub fn fuzzy_rank(corpus: &Vec<String>, query: &str) -> (out: Vec<Suggestion>)
    requires
        query@.len() <= MAX_QUERY_CHARS,
    ensures
        views_of(out@) == fuzzy_ranking(texts(corpus@), query@),
        is_ranked(views_of(out@)),
{
    let ghost all = texts(corpus@);
    let mut found: Vec<Suggestion> = Vec::new();
    let mut i: usize = 0;
    assert(all.take(0) =~= Seq::<Seq<char>>::empty());
    while i < corpus.len()
        invariant
            i <= corpus.len(),
            all == texts(corpus@),
            query@.len() <= MAX_QUERY_CHARS,
            views_of(found@) == fuzzy_candidates(all.take(i as int), query@),
        decreases corpus.len() - i,
    {
        let line = corpus[i].as_str();
        let ghost before = views_of(found@);
        proof {
            assert(all.take(i + 1).drop_last() =~= all.take(i as int));
            assert(all.take(i + 1).last() == line@);
        }
        match skim_match(line, query) {
            Some(score) => {
                let fixed: i64 = clamp_to_score(score as i128 * 1000);
                found.push(Suggestion::with_source(line, fixed, "history"));
                assert(views_of(found@) =~= before.push(history_match(line@, score)));
            },
            None => {},
        }
        i = i + 1;
    }
    assert(all.take(corpus.len() as int) =~= all);
    rank_suggestions(&found)
}

/// Whether `query` is short enough to be matched.
pub fn query_fits(query: &str) -> (b: bool)
    ensures
        b == (query@.len() <= MAX_QUERY_CHARS),
{
    query.unicode_len() <= MAX_QUERY_CHARS
}

/// The baseline strategy over a corpus of history lines.
#[derive(Debug)]
pub struct FuzzyHistoryModel {
    pub corpus: Vec<String>,
}

impl FuzzyHistoryModel {
    /// The baseline strategy over `corpus`.
    pub fn new(corpus: Vec<String>) -> (r: Self)
        ensures
            r.corpus == corpus,
    {
        FuzzyHistoryModel { corpus }
    }
}

impl SuggestModel for FuzzyHistoryModel {
    /// A blank input gives no suggestion. Any other query gives the
    /// matching lines of the corpus, ranked and tagged `history`; only a
    /// query longer than the matcher's arithmetic admits is refused.
    fn predict(&self, input: &str) -> (r: Result<Vec<Suggestion>, ModelError>)
        ensures
            is_blank(input@) ==> (r matches Ok(list) && list.len() == 0),
            !is_blank(input@) && input@.len() <= MAX_QUERY_CHARS ==> (r matches Ok(list)
                && views_of(list@) == fuzzy_ranking(texts(self.corpus@), input@)),
            !is_blank(input@) && input@.len() > MAX_QUERY_CHARS ==> r is Err,
    {
        if is_blank_str(input) {
            return Ok(Vec::new());
        }
        if !query_fits(input) {
            return Err(ModelError { message: "query too long to match".to_owned() });
        }
        Ok(fuzzy_rank(&self.corpus, input))
    }

    fn weight(&self) -> (w: u32)
        ensures
            w == DEFAULT_WEIGHT,
    {
        DEFAULT_WEIGHT
    }
}

} // verus!
