//! The alias strategy: shell aliases whose name or expansion begins with
//! what was typed, looked up in a store the caller provides.

use crate::handle::Held;
use crate::suggestion::{
    views_of, ModelError, SuggestModel, Suggestion, SuggestionView, SCORE_UNIT,
};
use crate::text::{is_blank, is_blank_str};
use std::sync::Arc;
use vstd::prelude::*;

verus! {

/// The weight of the alias strategy: 0.8.
pub const ALIAS_WEIGHT: u32 = 800;

/// A shell alias: its name and the command it expands to.
#[derive(Debug, PartialEq, Eq)]
pub struct AliasEntry {
    pub name: String,
    pub cmd: String,
}

impl Clone for AliasEntry {
    fn clone(&self) -> (r: Self)
        ensures
            r.name@ == self.name@,
            r.cmd@ == self.cmd@,
    {
        AliasEntry { name: self.name.clone(), cmd: self.cmd.clone() }
    }
}

/// Where aliases are looked up.
pub trait AliasStore: Send + Sync {
    /// The aliases whose name or expansion begins with `input`, most
    /// recently changed first.
    fn query_aliases(&self, input: &str) -> Result<Vec<AliasEntry>, ModelError>;
}

/// The alias strategy over some store.
pub struct AliasModel {
    store: Held<Arc<dyn AliasStore>>,
}

/// What the alias strategy proposes for the aliases found: one suggestion
/// per alias, in the same order, carrying the alias name, the score 1.0 and
/// the source tag `alias`.
pub open spec fn alias_views(entries: Seq<AliasEntry>) -> Seq<SuggestionView> {
    Seq::new(
        entries.len(),
        |i: int|
            SuggestionView {
                text: entries[i].name@,
                source: Some("alias"@),
                score: SCORE_UNIT as int,
            },
    )
}

/// Turns the aliases found into suggestions.
pub fn alias_suggestions(entries: &Vec<AliasEntry>) -> (out: Vec<Suggestion>)
    ensures
        views_of(out@) == alias_views(entries@),
{
    let mut out: Vec<Suggestion> = Vec::new();
    let mut i: usize = 0;
    while i < entries.len()
        invariant
            i <= entries.len(),
            out.len() == i,
            forall|j: int| 0 <= j < i ==> (#[trigger] out@[j])@ == alias_views(entries@)[j],
        decreases entries.len() - i,
    {
        out.push(Suggestion::with_source(entries[i].name.as_str(), SCORE_UNIT, "alias"));
        i = i + 1;
    }
    assert(views_of(out@) =~= alias_views(entries@));
    out
}

impl AliasModel {
    /// The store that the strategy looks aliases up in.
    pub closed spec fn store(&self) -> Held<Arc<dyn AliasStore>> {
        self.store
    }

    /// The alias strategy over `store`.
    pub fn new(store: Arc<dyn AliasStore>) -> (r: Self)
        ensures
            Held::holds(store, r.store()),
    {
        let held = Held::of(store);
        AliasModel { store: held }
    }
}

impl SuggestModel for AliasModel {
    /// A blank input gives no suggestion and does not reach the store; any
    /// other input gives one suggestion per alias the store finds, or the
    /// store's error.
    fn predict(&self, input: &str) -> (r: Result<Vec<Suggestion>, ModelError>)
        ensures
            is_blank(input@) ==> (r matches Ok(list) && list.len() == 0),
            !is_blank(input@) ==> (r matches Ok(list) ==> exists|found: Seq<AliasEntry>|
                views_of(list@) == #[trigger] alias_views(found)),
    {
        if is_blank_str(input) {
            return Ok(Vec::new());
        }
        match self.store.get().query_aliases(input) {
            Ok(entries) => {
                let list = alias_suggestions(&entries);
                assert(views_of(list@) == alias_views(entries@));
                Ok(list)
            },
            Err(e) => Err(e),
        }
    }

    fn weight(&self) -> (w: u32)
        ensures
            w == ALIAS_WEIGHT,
    {
        ALIAS_WEIGHT
    }
}

} // verus!
