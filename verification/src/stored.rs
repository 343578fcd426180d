//! The strategies that look commands up in the persistent store: what
//! they ask for, and what they make of the rows and errors that come back.

use crate::suggestion::{
    clamp_score, clamp_to_score, views_of, ModelError, Suggestion, SuggestionView,
};
use crate::text::{chars_of, contains_chars, has_substring, is_blank, is_blank_str, opt_text};
use vstd::prelude::*;
use vstd::string::StringExecFns;

verus! {

/// The weight of the prefix strategy: 0.8.
pub const PREFIX_WEIGHT: u32 = 800;

/// The weight of the frequency strategy: 0.5.
pub const FREQ_WEIGHT: u32 = 500;

/// How many rows the prefix and frequency strategies ask for at most.
pub const COMMAND_LIMIT: usize = 20;

/// How many rows the alias strategy asks for at most.
pub const ALIAS_LIMIT: usize = 10;

/// A stored command with the number of times it was used.
#[derive(Debug)]
pub struct CountedCommand {
    pub command: String,
    pub count: i64,
}

/// The pattern that matches every text beginning with `input`.
pub open spec fn like_pattern_of(input: Seq<char>) -> Seq<char> {
    input.push('%')
}

/// The pattern that matches every text beginning with `input`.
pub fn like_pattern(input: &str) -> (r: String)
    ensures
        r@ == like_pattern_of(input@),
{
    let mut out = String::from_str(input);
    out.push('%');
    out
}

/// What the prefix strategy looks up for `input`: nothing for a blank
/// input, else the commands matching its pattern.
pub fn prefix_lookup(input: &str) -> (r: Option<String>)
    ensures
        opt_text(r) == if is_blank(input@) {
            None
        } else {
            Some(like_pattern_of(input@))
        },
{
    if is_blank_str(input) {
        None
    } else {
        Some(like_pattern(input))
    }
}

/// What the frequency strategy looks up for `input`: nothing for a blank
/// input, else the input as a full-text prefix.
pub fn freq_lookup(input: &str) -> (r: Option<String>)
    ensures
        opt_text(r) == if is_blank(input@) {
            None
        } else {
            Some(input@)
        },
{
    if is_blank_str(input) {
        None
    } else {
        Some(String::from_str(input))
    }
}

/// What the rows become: one suggestion per row, in order, scored with the
/// use count and tagged with `source`.
pub open spec fn counted_views(rows: Seq<CountedCommand>, source: Seq<char>) -> Seq<SuggestionView> {
    Seq::new(
        rows.len(),
        |i: int|
            SuggestionView {
                text: rows[i].command@,
                source: Some(source),
                score: clamp_score(rows[i].count * 1000),
            },
    )
}

/// Turns the rows found into suggestions.
pub fn counted_suggestions(rows: &Vec<CountedCommand>, source: &str) -> (out: Vec<Suggestion>)
    ensures
        views_of(out@) == counted_views(rows@, source@),
{
    let mut out: Vec<Suggestion> = Vec::new();
    let mut i: usize = 0;
    while i < rows.len()
        invariant
            i <= rows.len(),
            out.len() == i,
            forall|j: int|
                0 <= j < i ==> (#[trigger] out@[j])@ == counted_views(rows@, source@)[j],
        decreases rows.len() - i,
    {
        let score: i64 = clamp_to_score(rows[i].count as i128 * 1000);
        out.push(Suggestion::with_source(rows[i].command.as_str(), score, source));
        i = i + 1;
    }
    assert(views_of(out@) =~= counted_views(rows@, source@));
    out
}

/// Whether a store error says that the table asked for does not exist.
pub open spec fn names_missing_table(message: Seq<char>) -> bool {
    has_substring(message, "no such table"@)
}

/// Whether a store error says that the table asked for does not exist.
pub fn is_missing_table(message: &str) -> (b: bool)
    ensures
        b == names_missing_table(message@),
{
    let text = chars_of(message);
    let needle = chars_of("no such table");
    contains_chars(&text, &needle)
}

/// What a strategy makes of a lookup: the rows found; no rows, where the
/// store has no such table; the error otherwise.
pub fn settle_lookup<T>(found: Result<Vec<T>, ModelError>) -> (r: Result<Vec<T>, ModelError>)
    ensures
        match found {
            Ok(rows) => r == Ok::<Vec<T>, ModelError>(rows),
            Err(e) => if names_missing_table(e.message@) {
                r matches Ok(rows) && rows.len() == 0
            } else {
                r == Err::<Vec<T>, ModelError>(e)
            },
        },
{
    match found {
        Ok(rows) => Ok(rows),
        Err(e) => {
            if is_missing_table(e.message.as_str()) {
                Ok(Vec::new())
            } else {
                Err(e)
            }
        },
    }
}

/// Whether a store error says that a column to be added is there already.
pub fn is_duplicate_column(message: &str) -> (b: bool)
    ensures
        b == has_substring(message@, "duplicate column name"@),
{
    let text = chars_of(message);
    let needle = chars_of("duplicate column name");
    contains_chars(&text, &needle)
}

} // verus!
