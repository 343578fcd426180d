//! Suggestions, fixed-point scores and the contract every strategy offers.
//!
//! Scores and weights are fixed-point numbers counted in thousandths:
//! a score of `2500` reads 2.5, a weight of `800` reads 0.8.

use crate::text::opt_text;
use vstd::prelude::*;

verus! {

/// A score in thousandths.
pub type Score = i64;

/// A strategy weight in thousandths.
pub type Weight = u32;

/// The score that reads 1.0.
pub const SCORE_UNIT: i64 = 1000;

/// The weight that reads 1.0; a strategy without an opinion uses it.
pub const DEFAULT_WEIGHT: u32 = 1000;

/// A candidate command with its score and the strategy that proposed it.
#[derive(Debug, PartialEq, Eq)]
pub struct Suggestion {
    pub text: String,
    pub source: Option<String>,
    pub score: i64,
}

/// What a [`Suggestion`] stands for.
pub struct SuggestionView {
    pub text: Seq<char>,
    pub source: Option<Seq<char>>,
    pub score: int,
}

impl View for Suggestion {
    type V = SuggestionView;

    open spec fn view(&self) -> SuggestionView {
        SuggestionView { text: self.text@, source: opt_text(self.source), score: self.score as int }
    }
}

/// The views of a list of suggestions, in order.
pub open spec fn views_of(v: Seq<Suggestion>) -> Seq<SuggestionView> {
    Seq::new(v.len(), |i: int| v[i]@)
}

/// A copy of an optional string.
pub fn clone_opt(s: &Option<String>) -> (r: Option<String>)
    ensures
        opt_text(r) == opt_text(*s),
{
    match s {
        Some(t) => Some(t.clone()),
        None => None,
    }
}

impl Clone for Suggestion {
    fn clone(&self) -> (r: Self)
        ensures
            r@ == self@,
    {
        Suggestion { text: self.text.clone(), source: clone_opt(&self.source), score: self.score }
    }
}

impl Suggestion {
    /// A suggestion tagged with the strategy it comes from.
    pub fn with_source(text: &str, score: i64, source: &str) -> (r: Self)
        ensures
            r@ == (SuggestionView { text: text@, source: Some(source@), score: score as int }),
    {
        Suggestion { text: text.to_owned(), source: Some(source.to_owned()), score }
    }
}

/// Why a strategy could not answer.
#[derive(Debug)]
pub struct ModelError {
    pub message: String,
}

/// A prediction strategy: proposes suggestions for an input and carries the
/// weight its scores are multiplied by when strategies are combined.
pub trait SuggestModel: Send + Sync {
    /// Suggestions for `input`, scored on the strategy's own scale.
    fn predict(&self, input: &str) -> Result<Vec<Suggestion>, ModelError>;

    /// The strategy's weight in thousandths; 1.0 unless the strategy
    /// says otherwise.
    fn weight(&self) -> (w: u32)
        default_ensures
            w == DEFAULT_WEIGHT,
    {
        DEFAULT_WEIGHT
    }
}

/// `x` brought into the range of a score.
pub open spec fn clamp_score(x: int) -> int {
    if x < i64::MIN {
        i64::MIN as int
    } else if x > i64::MAX {
        i64::MAX as int
    } else {
        x
    }
}

/// The sum of two scores; it stops at the ends of the score range.
pub open spec fn score_sum(a: int, b: int) -> int {
    clamp_score(a + b)
}

/// A score multiplied by a weight: `score * weight / 1000`, rounded down,
/// and brought into the range of a score.
pub open spec fn weighted(score: int, weight: int) -> int {
    clamp_score((score * weight) / 1000)
}

/// Adds two scores, saturating at the ends of the range.
pub fn add_scores(a: i64, b: i64) -> (r: i64)
    ensures
        r == score_sum(a as int, b as int),
{
    clamp_to_score(a as i128 + b as i128)
}

/// Brings a wide integer into the range of a score.
pub fn clamp_to_score(x: i128) -> (r: i64)
    ensures
        r == clamp_score(x as int),
{
    if x < i64::MIN as i128 {
        i64::MIN
    } else if x > i64::MAX as i128 {
        i64::MAX
    } else {
        x as i64
    }
}

/// Multiplies a score by a weight given in thousandths.
pub fn weigh(score: i64, weight: u32) -> (r: i64)
    ensures
        r == weighted(score as int, weight as int),
{
    let w: i128 = weight as i128;
    if score >= 0 {
        let s: i128 = score as i128;
        assert(0 <= s * w <= 0x7fff_ffff_ffff_ffff * 0xffff_ffff) by (nonlinear_arith)
            requires
                0 <= s <= 0x7fff_ffff_ffff_ffff,
                0 <= w <= 0xffff_ffff,
        ;
        let p: i128 = s * w;
        clamp_to_score(p / 1000)
    } else {
        let s: i128 = -(score as i128);
        assert(0 <= s * w <= 0x8000_0000_0000_0000 * 0xffff_ffff) by (nonlinear_arith)
            requires
                0 <= s <= 0x8000_0000_0000_0000,
                0 <= w <= 0xffff_ffff,
        ;
        let p: i128 = s * w;
        let q: i128 = (p + 999) / 1000;
        assert((score as int * weight as int) == -(p as int)) by (nonlinear_arith)
            requires
                s == -(score as int),
                p == s * w,
                w == weight as int,
        ;
        assert((-(p as int)) / 1000 == -(q as int)) by {
            lemma_floor_of_negative(p as int);
        }
        clamp_to_score(-q)
    }
}

/// Rounding a negative quotient down is rounding its opposite up.
proof fn lemma_floor_of_negative(p: int)
    requires
        p >= 0,
    ensures
        (-p) / 1000 == -((p + 999) / 1000),
{
    let q = (p + 999) / 1000;
    let r = (p + 999) % 1000;
    assert(p + 999 == 1000 * q + r && 0 <= r < 1000) by {
        vstd::arithmetic::div_mod::lemma_fundamental_div_mod(p + 999, 1000);
    }
    assert(-p == (-q) * 1000 + (999 - r));
    vstd::arithmetic::div_mod::lemma_fundamental_div_mod_converse(-p, 1000, -q, 999 - r);
}

} // verus!
