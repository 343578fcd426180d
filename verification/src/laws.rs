//! What the aggregated ranking holds for each text, stated over the
//! contributions it was made from.

use crate::ensemble::{
    absorb, absorb_batch, accumulated, aggregated, entry_for, has_text, index_of_text,
    lemma_accumulated_distinct, lemma_index_of_text, lemma_index_of_text_is, score_for,
    source_for, ContributionView,
};
use crate::rank::{
    distinct_texts, is_ranked, lemma_ranked_distinct, lemma_ranked_is_ranked,
    lemma_ranked_same_entries, ranked,
};
use crate::suggestion::{score_sum, weighted, SuggestionView};
use vstd::prelude::*;

verus! {

/// The score of `text` after one strategy's suggestions were added to
/// `start`: each suggestion of that text adds its weighted score, in order.
pub open spec fn batch_total(start: int, batch: Seq<SuggestionView>, weight: int, text: Seq<char>) -> int
    decreases batch.len(),
{
    if batch.len() == 0 {
        start
    } else {
        let prev = batch_total(start, batch.drop_last(), weight, text);
        if batch.last().text == text {
            score_sum(prev, weighted(batch.last().score, weight))
        } else {
            prev
        }
    }
}

/// The score of `text` over all contributions, in strategy order.
pub open spec fn total_for(batches: Seq<ContributionView>, text: Seq<char>) -> int
    decreases batches.len(),
{
    if batches.len() == 0 {
        0
    } else {
        batch_total(
            total_for(batches.drop_last(), text),
            batches.last().suggestions,
            batches.last().weight,
            text,
        )
    }
}

/// The source of `text` after one strategy's suggestions: the one it had,
/// or else the first one a suggestion of that text brings.
pub open spec fn batch_source(
    start: Option<Seq<char>>,
    batch: Seq<SuggestionView>,
    text: Seq<char>,
) -> Option<Seq<char>>
    decreases batch.len(),
{
    if batch.len() == 0 {
        start
    } else {
        let prev = batch_source(start, batch.drop_last(), text);
        if batch.last().text == text && prev is None {
            batch.last().source
        } else {
            prev
        }
    }
}

/// The source of `text` over all contributions: the first one recorded,
/// in strategy order.
pub open spec fn first_source(batches: Seq<ContributionView>, text: Seq<char>) -> Option<
    Seq<char>,
>
    decreases batches.len(),
{
    if batches.len() == 0 {
        None
    } else {
        batch_source(first_source(batches.drop_last(), text), batches.last().suggestions, text)
    }
}

/// Some suggestion of the batch carries `text`.
pub open spec fn batch_mentions(batch: Seq<SuggestionView>, text: Seq<char>) -> bool {
    exists|j: int| 0 <= j < batch.len() && #[trigger] batch[j].text == text
}

/// Some suggestion of some contribution carries `text`.
pub open spec fn mentions(batches: Seq<ContributionView>, text: Seq<char>) -> bool {
    exists|b: int|
        0 <= b < batches.len() && batch_mentions(#[trigger] batches[b].suggestions, text)
}

/// What merging one suggestion does to the entry of each text.
pub proof fn lemma_absorb_entry(
    entries: Seq<SuggestionView>,
    s: SuggestionView,
    weight: int,
    text: Seq<char>,
)
    ensures
        has_text(absorb(entries, s, weight), text) == (has_text(entries, text) || s.text == text),
        score_for(absorb(entries, s, weight), text) == if s.text == text {
            score_sum(score_for(entries, text), weighted(s.score, weight))
        } else {
            score_for(entries, text)
        },
        source_for(absorb(entries, s, weight), text) == if s.text == text && source_for(
            entries,
            text,
        ) is None {
            s.source
        } else {
            source_for(entries, text)
        },
{
    lemma_index_of_text(entries, s.text);
    lemma_index_of_text(entries, text);
    let k = index_of_text(entries, s.text);
    let m = index_of_text(entries, text);
    let out = absorb(entries, s, weight);
    if k < entries.len() {
        assert forall|j: int| 0 <= j < out.len() implies out[j].text == entries[j].text by {}
        lemma_index_of_text_is(out, text, m);
    } else {
        if s.text == text {
            assert(m == entries.len());
            assert forall|j: int| 0 <= j < entries.len() implies out[j].text != text by {
                assert(out[j] == entries[j]);
            }
            lemma_index_of_text_is(out, text, m);
        } else if m < entries.len() {
            assert forall|j: int| 0 <= j < m implies out[j].text != text by {
                assert(out[j] == entries[j]);
            }
            assert(out[m] == entries[m]);
            lemma_index_of_text_is(out, text, m);
        } else {
            assert forall|j: int| 0 <= j < out.len() implies out[j].text != text by {
                if j < entries.len() {
                    assert(out[j] == entries[j]);
                }
            }
            lemma_index_of_text_is(out, text, out.len() as int);
        }
    }
}

/// What merging one strategy's suggestions does to the entry of each text.
pub proof fn lemma_absorb_batch_entry(
    entries: Seq<SuggestionView>,
    batch: Seq<SuggestionView>,
    weight: int,
    text: Seq<char>,
)
    ensures
        has_text(absorb_batch(entries, batch, weight), text) == (has_text(entries, text)
            || batch_mentions(batch, text)),
        score_for(absorb_batch(entries, batch, weight), text) == batch_total(
            score_for(entries, text),
            batch,
            weight,
            text,
        ),
        source_for(absorb_batch(entries, batch, weight), text) == batch_source(
            source_for(entries, text),
            batch,
            text,
        ),
    decreases batch.len(),
{
    if batch.len() > 0 {
        let init = batch.drop_last();
        lemma_absorb_batch_entry(entries, init, weight, text);
        lemma_absorb_entry(absorb_batch(entries, init, weight), batch.last(), weight, text);
        if batch_mentions(batch, text) {
            let j = choose|j: int| 0 <= j < batch.len() && #[trigger] batch[j].text == text;
            if j < init.len() {
                assert(init[j].text == text);
            }
        }
        if batch_mentions(init, text) {
            let j = choose|j: int| 0 <= j < init.len() && #[trigger] init[j].text == text;
            assert(batch[j].text == text);
        }
        if batch.last().text == text {
            assert(batch[batch.len() - 1].text == text);
        }
    }
}

/// The aggregation theorem on the accumulated entries: a text has an entry
/// exactly if some strategy proposed it; the entry's score is the sum of
/// the text's weighted contributions, and its source the first recorded.
pub proof fn lemma_accumulated_entry(batches: Seq<ContributionView>, text: Seq<char>)
    ensures
        has_text(accumulated(batches), text) == mentions(batches, text),
        score_for(accumulated(batches), text) == total_for(batches, text),
        source_for(accumulated(batches), text) == first_source(batches, text),
    decreases batches.len(),
{
    if batches.len() == 0 {
        assert(index_of_text(accumulated(batches), text) == 0);
    } else {
        let init = batches.drop_last();
        lemma_accumulated_entry(init, text);
        lemma_absorb_batch_entry(
            accumulated(init),
            batches.last().suggestions,
            batches.last().weight,
            text,
        );
        if mentions(batches, text) {
            let b = choose|b: int|
                0 <= b < batches.len() && batch_mentions(#[trigger] batches[b].suggestions, text);
            if b < init.len() {
                assert(batch_mentions(init[b].suggestions, text));
            }
        }
        if mentions(init, text) {
            let b = choose|b: int|
                0 <= b < init.len() && batch_mentions(#[trigger] init[b].suggestions, text);
            assert(batch_mentions(batches[b].suggestions, text));
        }
        if batch_mentions(batches.last().suggestions, text) {
            assert(batch_mentions(batches[batches.len() - 1].suggestions, text));
        }
    }
}

/// Ranking entries with distinct texts changes no entry: each text keeps
/// its score and its source.
pub proof fn lemma_ranked_entry(entries: Seq<SuggestionView>, text: Seq<char>)
    requires
        distinct_texts(entries),
    ensures
        has_text(ranked(entries), text) == has_text(entries, text),
        score_for(ranked(entries), text) == score_for(entries, text),
        source_for(ranked(entries), text) == source_for(entries, text),
{
    let out = ranked(entries);
    lemma_index_of_text(entries, text);
    lemma_index_of_text(out, text);
    lemma_ranked_distinct(entries);
    if has_text(entries, text) {
        let x = entry_for(entries, text);
        lemma_ranked_same_entries(entries, x);
        assert(entries.contains(x));
        let i = choose|i: int| 0 <= i < out.len() && out[i] == x;
        if !has_text(out, text) {
            assert(out[i].text != text);
        }
        let y = entry_for(out, text);
        let k = index_of_text(out, text);
        if i < k {
            assert(out[i].text != out[k].text);
        } else if k < i {
            assert(out[k].text != out[i].text);
        }
    } else if has_text(out, text) {
        let y = entry_for(out, text);
        lemma_ranked_same_entries(entries, y);
        assert(out.contains(y));
        let m = choose|m: int| 0 <= m < entries.len() && entries[m] == y;
        assert(entries[m].text != text);
    }
}

/// The aggregation theorem: the ranking has an entry for a text exactly if
/// some strategy proposed it, scored with the sum of the text's weighted
/// contributions in strategy order and tagged with the first source
/// recorded for it.
pub proof fn lemma_aggregated_entry(batches: Seq<ContributionView>, text: Seq<char>)
    ensures
        has_text(aggregated(batches), text) == mentions(batches, text),
        score_for(aggregated(batches), text) == total_for(batches, text),
        source_for(aggregated(batches), text) == first_source(batches, text),
{
    lemma_accumulated_distinct(batches);
    lemma_ranked_entry(accumulated(batches), text);
    lemma_accumulated_entry(batches, text);
}

/// The aggregated ranking is sorted: scores never increase from one entry
/// to the next, and no text stands in it twice.
pub proof fn lemma_aggregated_is_ranked(batches: Seq<ContributionView>)
    ensures
        is_ranked(aggregated(batches)),
        distinct_texts(aggregated(batches)),
{
    lemma_accumulated_distinct(batches);
    lemma_ranked_is_ranked(accumulated(batches));
    lemma_ranked_distinct(accumulated(batches));
}

/// A batch that does not mention a text leaves its score and source alone.
pub proof fn lemma_batch_silent(
    start: int,
    start_source: Option<Seq<char>>,
    batch: Seq<SuggestionView>,
    weight: int,
    text: Seq<char>,
)
    requires
        !batch_mentions(batch, text),
    ensures
        batch_total(start, batch, weight, text) == start,
        batch_source(start_source, batch, text) == start_source,
    decreases batch.len(),
{
    if batch.len() > 0 {
        let init = batch.drop_last();
        assert(batch[batch.len() - 1].text != text);
        assert(!batch_mentions(init, text)) by {
            if batch_mentions(init, text) {
                let j = choose|j: int| 0 <= j < init.len() && #[trigger] init[j].text == text;
                assert(batch[j].text == text);
            }
        }
        lemma_batch_silent(start, start_source, init, weight, text);
    }
}

/// A batch that mentions a text once adds that one weighted score.
pub proof fn lemma_batch_once(
    start: int,
    start_source: Option<Seq<char>>,
    batch: Seq<SuggestionView>,
    weight: int,
    j: int,
)
    requires
        0 <= j < batch.len(),
        forall|i: int| 0 <= i < batch.len() && i != j ==> batch[i].text != batch[j].text,
    ensures
        batch_total(start, batch, weight, batch[j].text) == score_sum(
            start,
            weighted(batch[j].score, weight),
        ),
        batch_source(start_source, batch, batch[j].text) == if start_source is None {
            batch[j].source
        } else {
            start_source
        },
    decreases batch.len(),
{
    let text = batch[j].text;
    let init = batch.drop_last();
    if j == batch.len() - 1 {
        assert(!batch_mentions(init, text)) by {
            if batch_mentions(init, text) {
                let i = choose|i: int| 0 <= i < init.len() && #[trigger] init[i].text == text;
                assert(batch[i].text == text);
            }
        }
        lemma_batch_silent(start, start_source, init, weight, text);
    } else {
        assert(init[j] == batch[j]);
        assert forall|i: int| 0 <= i < init.len() && i != j implies init[i].text
            != init[j].text by {
            assert(init[i] == batch[i]);
        }
        lemma_batch_once(start, start_source, init, weight, j);
        assert(batch[batch.len() - 1].text != text);
    }
}

/// Contributions that do not mention a text give it no score and no source.
pub proof fn lemma_total_silent(batches: Seq<ContributionView>, text: Seq<char>)
    requires
        !mentions(batches, text),
    ensures
        total_for(batches, text) == 0,
        first_source(batches, text) is None,
    decreases batches.len(),
{
    if batches.len() > 0 {
        let init = batches.drop_last();
        assert(!batch_mentions(batches[batches.len() - 1].suggestions, text));
        assert(!mentions(init, text)) by {
            if mentions(init, text) {
                let b = choose|b: int|
                    0 <= b < init.len() && batch_mentions(#[trigger] init[b].suggestions, text);
                assert(batch_mentions(batches[b].suggestions, text));
            }
        }
        lemma_total_silent(init, text);
        lemma_batch_silent(
            total_for(init, text),
            first_source(init, text),
            batches.last().suggestions,
            batches.last().weight,
            text,
        );
    }
}

/// The suggestion `j` of the contribution `b` is the only one, over all
/// contributions, that carries its text.
pub open spec fn sole_contributor(batches: Seq<ContributionView>, b: int, j: int) -> bool {
    &&& 0 <= b < batches.len()
    &&& 0 <= j < batches[b].suggestions.len()
    &&& forall|c: int, i: int|
        0 <= c < batches.len() && 0 <= i < batches[c].suggestions.len() && !(c == b && i == j)
            ==> (#[trigger] batches[c].suggestions[i]).text != batches[b].suggestions[j].text
}

/// The score and source of a text that a single suggestion carries.
pub proof fn lemma_total_once(batches: Seq<ContributionView>, b: int, j: int)
    requires
        sole_contributor(batches, b, j),
    ensures
        total_for(batches, batches[b].suggestions[j].text) == weighted(
            batches[b].suggestions[j].score,
            batches[b].weight,
        ),
        first_source(batches, batches[b].suggestions[j].text) == batches[b].suggestions[j].source,
    decreases batches.len(),
{
    let s = batches[b].suggestions[j];
    let text = s.text;
    let init = batches.drop_last();
    let last = batches.last();
    if b == batches.len() - 1 {
        assert(!mentions(init, text)) by {
            if mentions(init, text) {
                let c = choose|c: int|
                    0 <= c < init.len() && batch_mentions(#[trigger] init[c].suggestions, text);
                let i = choose|i: int|
                    0 <= i < init[c].suggestions.len() && #[trigger] init[c].suggestions[i].text
                        == text;
                assert(batches[c].suggestions[i].text != text);
            }
        }
        lemma_total_silent(init, text);
        assert forall|i: int| 0 <= i < last.suggestions.len() && i != j implies last.suggestions[i].text
            != last.suggestions[j].text by {
            assert(batches[b].suggestions[i].text != text);
        }
        lemma_batch_once(0, None, last.suggestions, last.weight, j);
    } else {
        assert(init[b] == batches[b]);
        assert(sole_contributor(init, b, j)) by {
            assert forall|c: int, i: int|
                0 <= c < init.len() && 0 <= i < init[c].suggestions.len() && !(c == b && i
                    == j) implies (#[trigger] init[c].suggestions[i]).text
                != init[b].suggestions[j].text by {
                assert(init[c] == batches[c]);
                assert(batches[c].suggestions[i].text != text);
            }
        }
        lemma_total_once(init, b, j);
        assert(!batch_mentions(last.suggestions, text)) by {
            if batch_mentions(last.suggestions, text) {
                let i = choose|i: int|
                    0 <= i < last.suggestions.len() && #[trigger] last.suggestions[i].text == text;
                assert(batches[batches.len() - 1].suggestions[i].text != text);
            }
        }
        lemma_batch_silent(
            total_for(init, text),
            first_source(init, text),
            last.suggestions,
            last.weight,
            text,
        );
    }
}

/// Single contributor: a text that only one suggestion of one strategy
/// carries stands in the ranking with that suggestion's score multiplied
/// by the strategy's weight, and with that suggestion's source. Where all
/// suggestion texts differ from one another, this holds of every text.
pub proof fn lemma_single_contributor(batches: Seq<ContributionView>, b: int, j: int)
    requires
        sole_contributor(batches, b, j),
    ensures
        has_text(aggregated(batches), batches[b].suggestions[j].text),
        score_for(aggregated(batches), batches[b].suggestions[j].text) == weighted(
            batches[b].suggestions[j].score,
            batches[b].weight,
        ),
        source_for(aggregated(batches), batches[b].suggestions[j].text)
            == batches[b].suggestions[j].source,
{
    let text = batches[b].suggestions[j].text;
    lemma_aggregated_entry(batches, text);
    lemma_total_once(batches, b, j);
    assert(batch_mentions(batches[b].suggestions, text)) by {
        assert(batches[b].suggestions[j].text == text);
    }
}

/// Two strategies, `b1` before `b2`, each carry the same text in one
/// suggestion, and no other suggestion of any strategy carries it.
pub open spec fn two_contributors(
    batches: Seq<ContributionView>,
    b1: int,
    j1: int,
    b2: int,
    j2: int,
) -> bool {
    &&& 0 <= b1 < b2 < batches.len()
    &&& 0 <= j1 < batches[b1].suggestions.len()
    &&& 0 <= j2 < batches[b2].suggestions.len()
    &&& batches[b1].suggestions[j1].text == batches[b2].suggestions[j2].text
    &&& forall|c: int, i: int|
        0 <= c < batches.len() && 0 <= i < batches[c].suggestions.len() && !(c == b1 && i == j1)
            && !(c == b2 && i == j2) ==> (#[trigger] batches[c].suggestions[i]).text
            != batches[b1].suggestions[j1].text
}

/// The score and source of a text that two strategies carry once each.
pub proof fn lemma_total_twice(batches: Seq<ContributionView>, b1: int, j1: int, b2: int, j2: int)
    requires
        two_contributors(batches, b1, j1, b2, j2),
    ensures
        total_for(batches, batches[b1].suggestions[j1].text) == score_sum(
            weighted(batches[b1].suggestions[j1].score, batches[b1].weight),
            weighted(batches[b2].suggestions[j2].score, batches[b2].weight),
        ),
        first_source(batches, batches[b1].suggestions[j1].text)
            == if batches[b1].suggestions[j1].source is None {
            batches[b2].suggestions[j2].source
        } else {
            batches[b1].suggestions[j1].source
        },
    decreases batches.len(),
{
    let text = batches[b1].suggestions[j1].text;
    let init = batches.drop_last();
    let last = batches.last();
    assert(init[b1] == batches[b1]);
    if b2 == batches.len() - 1 {
        assert(sole_contributor(init, b1, j1)) by {
            assert forall|c: int, i: int|
                0 <= c < init.len() && 0 <= i < init[c].suggestions.len() && !(c == b1 && i
                    == j1) implies (#[trigger] init[c].suggestions[i]).text
                != init[b1].suggestions[j1].text by {
                assert(init[c] == batches[c]);
                assert(batches[c].suggestions[i].text != text);
            }
        }
        lemma_total_once(init, b1, j1);
        assert forall|i: int| 0 <= i < last.suggestions.len() && i != j2 implies last.suggestions[i].text
            != last.suggestions[j2].text by {
            assert(batches[b2].suggestions[i].text != text);
        }
        lemma_batch_once(
            total_for(init, text),
            first_source(init, text),
            last.suggestions,
            last.weight,
            j2,
        );
    } else {
        assert(init[b2] == batches[b2]);
        assert(two_contributors(init, b1, j1, b2, j2)) by {
            assert forall|c: int, i: int|
                0 <= c < init.len() && 0 <= i < init[c].suggestions.len() && !(c == b1 && i
                    == j1) && !(c == b2 && i == j2) implies (#[trigger] init[c].suggestions[i]).text
                != init[b1].suggestions[j1].text by {
                assert(init[c] == batches[c]);
                assert(batches[c].suggestions[i].text != text);
            }
        }
        lemma_total_twice(init, b1, j1, b2, j2);
        assert(!batch_mentions(last.suggestions, text)) by {
            if batch_mentions(last.suggestions, text) {
                let i = choose|i: int|
                    0 <= i < last.suggestions.len() && #[trigger] last.suggestions[i].text == text;
                assert(batches[batches.len() - 1].suggestions[i].text != text);
            }
        }
        lemma_batch_silent(
            total_for(init, text),
            first_source(init, text),
            last.suggestions,
            last.weight,
            text,
        );
    }
}

/// Two contributors: a text that two strategies propose stands in the
/// ranking with the sum of both weighted scores, and with the source of the
/// strategy that comes first (the second one's if the first gave none).
pub proof fn lemma_two_contributors(
    batches: Seq<ContributionView>,
    b1: int,
    j1: int,
    b2: int,
    j2: int,
)
    requires
        two_contributors(batches, b1, j1, b2, j2),
    ensures
        has_text(aggregated(batches), batches[b1].suggestions[j1].text),
        score_for(aggregated(batches), batches[b1].suggestions[j1].text) == score_sum(
            weighted(batches[b1].suggestions[j1].score, batches[b1].weight),
            weighted(batches[b2].suggestions[j2].score, batches[b2].weight),
        ),
        source_for(aggregated(batches), batches[b1].suggestions[j1].text)
            == if batches[b1].suggestions[j1].source is None {
            batches[b2].suggestions[j2].source
        } else {
            batches[b1].suggestions[j1].source
        },
{
    let text = batches[b1].suggestions[j1].text;
    lemma_aggregated_entry(batches, text);
    lemma_total_twice(batches, b1, j1, b2, j2);
    assert(batch_mentions(batches[b1].suggestions, text)) by {
        assert(batches[b1].suggestions[j1].text == text);
    }
}

/// The size of a number, whatever its sign.
pub open spec fn magnitude(x: int) -> int {
    if x < 0 {
        -x
    } else {
        x
    }
}

/// What one strategy's suggestions add to the score of `text`, as a plain
/// sum.
pub open spec fn batch_gain(batch: Seq<SuggestionView>, weight: int, text: Seq<char>) -> int
    decreases batch.len(),
{
    if batch.len() == 0 {
        0
    } else {
        batch_gain(batch.drop_last(), weight, text) + if batch.last().text == text {
            weighted(batch.last().score, weight)
        } else {
            0
        }
    }
}

/// The sizes of what one strategy's suggestions add to the score of
/// `text`, summed.
pub open spec fn batch_load(batch: Seq<SuggestionView>, weight: int, text: Seq<char>) -> int
    decreases batch.len(),
{
    if batch.len() == 0 {
        0
    } else {
        batch_load(batch.drop_last(), weight, text) + if batch.last().text == text {
            magnitude(weighted(batch.last().score, weight))
        } else {
            0
        }
    }
}

/// The score of `text` over all contributions as a plain sum.
pub open spec fn plain_total(batches: Seq<ContributionView>, text: Seq<char>) -> int
    decreases batches.len(),
{
    if batches.len() == 0 {
        0
    } else {
        plain_total(batches.drop_last(), text) + batch_gain(
            batches.last().suggestions,
            batches.last().weight,
            text,
        )
    }
}

/// The sizes of all weighted contributions to `text`, summed. While this
/// stays in the range of a score, no sum on the way saturates.
pub open spec fn total_load(batches: Seq<ContributionView>, text: Seq<char>) -> int
    decreases batches.len(),
{
    if batches.len() == 0 {
        0
    } else {
        total_load(batches.drop_last(), text) + batch_load(
            batches.last().suggestions,
            batches.last().weight,
            text,
        )
    }
}

/// Within the range of a score one strategy's suggestions add up plainly.
pub proof fn lemma_batch_adds_plainly(
    start: int,
    batch: Seq<SuggestionView>,
    weight: int,
    text: Seq<char>,
)
    requires
        magnitude(start) + batch_load(batch, weight, text) <= i64::MAX,
    ensures
        batch_total(start, batch, weight, text) == start + batch_gain(batch, weight, text),
        magnitude(batch_gain(batch, weight, text)) <= batch_load(batch, weight, text),
    decreases batch.len(),
{
    if batch.len() > 0 {
        lemma_batch_load(batch.drop_last(), weight, text);
        lemma_batch_adds_plainly(start, batch.drop_last(), weight, text);
    }
}

/// A load is never negative.
pub proof fn lemma_batch_load(batch: Seq<SuggestionView>, weight: int, text: Seq<char>)
    ensures
        batch_load(batch, weight, text) >= 0,
    decreases batch.len(),
{
    if batch.len() > 0 {
        lemma_batch_load(batch.drop_last(), weight, text);
    }
}

/// A total load is never negative.
pub proof fn lemma_total_load(batches: Seq<ContributionView>, text: Seq<char>)
    ensures
        total_load(batches, text) >= 0,
    decreases batches.len(),
{
    if batches.len() > 0 {
        lemma_total_load(batches.drop_last(), text);
        lemma_batch_load(batches.last().suggestions, batches.last().weight, text);
    }
}

/// Within the range of a score the score of a text is the plain sum of
/// its weighted contributions.
pub proof fn lemma_total_adds_plainly(batches: Seq<ContributionView>, text: Seq<char>)
    requires
        total_load(batches, text) <= i64::MAX,
    ensures
        total_for(batches, text) == plain_total(batches, text),
        magnitude(plain_total(batches, text)) <= total_load(batches, text),
    decreases batches.len(),
{
    if batches.len() > 0 {
        let init = batches.drop_last();
        let last = batches.last();
        lemma_total_load(init, text);
        lemma_batch_load(last.suggestions, last.weight, text);
        lemma_total_adds_plainly(init, text);
        lemma_batch_adds_plainly(total_for(init, text), last.suggestions, last.weight, text);
    }
}

/// The strategies with the neighbours at `i` and `i + 1` in each other's
/// place.
pub open spec fn neighbours_swapped(batches: Seq<ContributionView>, i: int) -> Seq<
    ContributionView,
> {
    batches.update(i, batches[i + 1]).update(i + 1, batches[i])
}

/// Plain sums and loads do not depend on the order of two neighbours.
pub proof fn lemma_swap_keeps_sums(batches: Seq<ContributionView>, i: int, text: Seq<char>)
    requires
        0 <= i,
        i + 1 < batches.len(),
    ensures
        plain_total(neighbours_swapped(batches, i), text) == plain_total(batches, text),
        total_load(neighbours_swapped(batches, i), text) == total_load(batches, text),
    decreases batches.len(),
{
    let swapped = neighbours_swapped(batches, i);
    let front = batches.drop_last();
    let swapped_front = swapped.drop_last();
    if i + 1 == batches.len() - 1 {
        assert(swapped_front.drop_last() =~= front.drop_last());
        assert(swapped_front.last() == batches.last());
        assert(swapped.last() == front.last());
        assert(plain_total(front, text) == plain_total(front.drop_last(), text) + batch_gain(
            front.last().suggestions,
            front.last().weight,
            text,
        ));
        assert(plain_total(swapped_front, text) == plain_total(swapped_front.drop_last(), text)
            + batch_gain(swapped_front.last().suggestions, swapped_front.last().weight, text));
        assert(total_load(front, text) == total_load(front.drop_last(), text) + batch_load(
            front.last().suggestions,
            front.last().weight,
            text,
        ));
        assert(total_load(swapped_front, text) == total_load(swapped_front.drop_last(), text)
            + batch_load(swapped_front.last().suggestions, swapped_front.last().weight, text));
    } else {
        assert(swapped_front =~= neighbours_swapped(front, i));
        assert(swapped.last() == batches.last());
        lemma_swap_keeps_sums(front, i, text);
    }
}

/// Order of the strategies: in which order two neighbouring strategies
/// are asked changes the score of no text, as long as the weighted
/// contributions to the text, taken by their sizes, add up within the
/// range of a score. (Beyond it the sums saturate, and the order in which
/// they do is the order of the strategies. The source of a text, too,
/// follows that order.)
pub proof fn lemma_order_keeps_scores(batches: Seq<ContributionView>, i: int, text: Seq<char>)
    requires
        0 <= i,
        i + 1 < batches.len(),
        total_load(batches, text) <= i64::MAX,
    ensures
        score_for(aggregated(neighbours_swapped(batches, i)), text) == score_for(
            aggregated(batches),
            text,
        ),
        has_text(aggregated(neighbours_swapped(batches, i)), text) == has_text(
            aggregated(batches),
            text,
        ),
{
    let swapped = neighbours_swapped(batches, i);
    lemma_swap_keeps_sums(batches, i, text);
    lemma_total_adds_plainly(batches, text);
    lemma_total_adds_plainly(swapped, text);
    lemma_aggregated_entry(batches, text);
    lemma_aggregated_entry(swapped, text);
    if mentions(batches, text) {
        let b = choose|b: int|
            0 <= b < batches.len() && batch_mentions(#[trigger] batches[b].suggestions, text);
        let c = if b == i {
            i + 1
        } else if b == i + 1 {
            i
        } else {
            b
        };
        assert(swapped[c] == batches[b]);
        assert(batch_mentions(swapped[c].suggestions, text));
    }
    if mentions(swapped, text) {
        let b = choose|b: int|
            0 <= b < swapped.len() && batch_mentions(#[trigger] swapped[b].suggestions, text);
        let c = if b == i {
            i + 1
        } else if b == i + 1 {
            i
        } else {
            b
        };
        assert(batches[c] == swapped[b]);
        assert(batch_mentions(batches[c].suggestions, text));
    }
}

} // verus!
