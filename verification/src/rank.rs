//! Ranking: suggestions ordered by score, highest first, ties in the order
//! in which they were first proposed.

use crate::suggestion::{Suggestion, SuggestionView, views_of};
use crate::text::texts;
use vstd::prelude::*;

verus! {

/// Scores never increase along a ranked list.
pub open spec fn is_ranked(s: Seq<SuggestionView>) -> bool {
    forall|i: int, j: int| 0 <= i < j < s.len() ==> s[i].score >= s[j].score
}

/// No two entries of `s` carry the same text.
pub open spec fn distinct_texts(s: Seq<SuggestionView>) -> bool {
    forall|i: int, j: int| 0 <= i < j < s.len() ==> s[i].text != s[j].text
}

/// How many entries at the head of `s` score at least `score`.
pub open spec fn rank_position(s: Seq<SuggestionView>, score: int) -> int
    decreases s.len(),
{
    if s.len() > 0 && s[0].score >= score {
        1 + rank_position(s.drop_first(), score)
    } else {
        0
    }
}

/// `x` entered into a ranked list: behind every entry that scores at least
/// as much, in front of every entry that scores less.
pub open spec fn place(sorted: Seq<SuggestionView>, x: SuggestionView) -> Seq<SuggestionView> {
    sorted.insert(rank_position(sorted, x.score), x)
}

/// The entries ordered by score, highest first; entries with equal scores
/// keep the order they have in `entries`.
pub open spec fn ranked(entries: Seq<SuggestionView>) -> Seq<SuggestionView>
    decreases entries.len(),
{
    if entries.len() == 0 {
        Seq::empty()
    } else {
        place(ranked(entries.drop_last()), entries.last())
    }
}

/// The first `max` entries of `s`, or all of them if there are fewer.
pub open spec fn top(s: Seq<SuggestionView>, max: int) -> Seq<SuggestionView> {
    if max <= 0 {
        Seq::empty()
    } else if max < s.len() {
        s.take(max)
    } else {
        s
    }
}

/// The texts of a list of suggestions, in order.
pub open spec fn texts_of(list: Seq<SuggestionView>) -> Seq<Seq<char>> {
    Seq::new(list.len(), |i: int| list[i].text)
}

/// The rank position splits the list: everything before it scores at least
/// `score`, and the entry at it, if any, scores less.
pub proof fn lemma_rank_position(s: Seq<SuggestionView>, score: int)
    ensures
        0 <= rank_position(s, score) <= s.len(),
        forall|j: int| 0 <= j < rank_position(s, score) ==> s[j].score >= score,
        rank_position(s, score) < s.len() ==> s[rank_position(s, score)].score < score,
    decreases s.len(),
{
    if s.len() > 0 && s[0].score >= score {
        let rest = s.drop_first();
        lemma_rank_position(rest, score);
        assert forall|j: int| 0 <= j < rank_position(s, score) implies s[j].score >= score by {
            if j > 0 {
                assert(s[j] == rest[j - 1]);
            }
        }
        if rank_position(s, score) < s.len() {
            assert(s[rank_position(s, score)] == rest[rank_position(rest, score)]);
        }
    }
}

/// Entering an entry into a ranked list leaves it ranked.
pub proof fn lemma_place_keeps_ranked(sorted: Seq<SuggestionView>, x: SuggestionView)
    requires
        is_ranked(sorted),
    ensures
        is_ranked(place(sorted, x)),
        place(sorted, x).len() == sorted.len() + 1,
{
    lemma_rank_position(sorted, x.score);
    let k = rank_position(sorted, x.score);
    let out = place(sorted, x);
    assert forall|i: int, j: int| 0 <= i < j < out.len() implies out[i].score >= out[j].score by {
        if j < k {
            assert(out[i] == sorted[i] && out[j] == sorted[j]);
        } else if j == k {
            assert(out[i] == sorted[i]);
        } else if i < k {
            assert(out[i] == sorted[i] && out[j] == sorted[j - 1]);
        } else if i == k {
            assert(out[j] == sorted[j - 1]);
            assert(sorted[k].score >= sorted[j - 1].score || j - 1 == k);
        } else {
            assert(out[i] == sorted[i - 1] && out[j] == sorted[j - 1]);
        }
    }
}

/// A ranking is sorted: scores never increase from one entry to the next.
pub proof fn lemma_ranked_is_ranked(entries: Seq<SuggestionView>)
    ensures
        is_ranked(ranked(entries)),
        ranked(entries).len() == entries.len(),
    decreases entries.len(),
{
    if entries.len() > 0 {
        lemma_ranked_is_ranked(entries.drop_last());
        lemma_place_keeps_ranked(ranked(entries.drop_last()), entries.last());
    }
}

/// A ranking holds exactly the entries it was made from.
pub proof fn lemma_ranked_same_entries(entries: Seq<SuggestionView>, x: SuggestionView)
    ensures
        ranked(entries).contains(x) <==> entries.contains(x),
    decreases entries.len(),
{
    if entries.len() > 0 {
        let init = entries.drop_last();
        let last = entries.last();
        lemma_ranked_same_entries(init, x);
        lemma_rank_position(ranked(init), last.score);
        let k = rank_position(ranked(init), last.score);
        let out = ranked(entries);
        assert(out == ranked(init).insert(k, last));
        if out.contains(x) {
            let i = choose|i: int| 0 <= i < out.len() && out[i] == x;
            if i < k {
                assert(ranked(init)[i] == x);
            } else if i > k {
                assert(ranked(init)[i - 1] == x);
            }
            if x != last {
                assert(ranked(init).contains(x));
                let j = choose|j: int| 0 <= j < init.len() && init[j] == x;
                assert(entries[j] == x);
            } else {
                assert(entries[entries.len() - 1] == x);
            }
        }
        if entries.contains(x) {
            let j = choose|j: int| 0 <= j < entries.len() && entries[j] == x;
            if j < init.len() {
                assert(init[j] == x);
                assert(ranked(init).contains(x));
                let i = choose|i: int| 0 <= i < ranked(init).len() && ranked(init)[i] == x;
                if i < k {
                    assert(out[i] == x);
                } else {
                    assert(out[i + 1] == x);
                }
            } else {
                assert(out[k] == x);
            }
        }
    }
}

/// Ranking entries with distinct texts keeps the texts distinct.
pub proof fn lemma_ranked_distinct(entries: Seq<SuggestionView>)
    requires
        distinct_texts(entries),
    ensures
        distinct_texts(ranked(entries)),
{
    lemma_ranked_is_ranked(entries);
    let out = ranked(entries);
    assert forall|i: int, j: int| 0 <= i < j < out.len() implies out[i].text != out[j].text by {
        lemma_ranked_positions(entries);
        let f = ranked_origin(entries);
        assert(out[i] == entries[f[i]] && out[j] == entries[f[j]]);
        assert(f[i] != f[j]);
        if f[i] < f[j] {
            assert(entries[f[i]].text != entries[f[j]].text);
        } else {
            assert(entries[f[j]].text != entries[f[i]].text);
        }
    }
}

/// For each place of the ranking, the index in `entries` of the entry that
/// stands there.
pub open spec fn ranked_origin(entries: Seq<SuggestionView>) -> Seq<int>
    decreases entries.len(),
{
    if entries.len() == 0 {
        Seq::empty()
    } else {
        ranked_origin(entries.drop_last()).insert(
            rank_position(ranked(entries.drop_last()), entries.last().score),
            entries.len() - 1,
        )
    }
}

/// The ranking is a rearrangement: every place holds the entry of a
/// different index.
pub proof fn lemma_ranked_positions(entries: Seq<SuggestionView>)
    ensures
        ranked_origin(entries).len() == entries.len(),
        ranked(entries).len() == entries.len(),
        forall|i: int|
            0 <= i < entries.len() ==> 0 <= #[trigger] ranked_origin(entries)[i] < entries.len()
                && ranked(entries)[i] == entries[ranked_origin(entries)[i]],
        forall|i: int, j: int|
            0 <= i < j < entries.len() ==> ranked_origin(entries)[i] != ranked_origin(entries)[j],
    decreases entries.len(),
{
    if entries.len() > 0 {
        let init = entries.drop_last();
        lemma_ranked_positions(init);
        lemma_rank_position(ranked(init), entries.last().score);
        let k = rank_position(ranked(init), entries.last().score);
        let f0 = ranked_origin(init);
        let f = ranked_origin(entries);
        let r0 = ranked(init);
        let r = ranked(entries);
        assert(f == f0.insert(k, entries.len() - 1));
        assert(r == r0.insert(k, entries.last()));
        assert forall|i: int| 0 <= i < entries.len() implies 0 <= #[trigger] f[i] < entries.len()
            && r[i] == entries[f[i]] by {
            if i < k {
                assert(f[i] == f0[i] && r[i] == r0[i]);
                assert(init[f0[i]] == entries[f0[i]]);
            } else if i > k {
                assert(f[i] == f0[i - 1] && r[i] == r0[i - 1]);
                assert(init[f0[i - 1]] == entries[f0[i - 1]]);
            }
        }
        assert forall|i: int, j: int| 0 <= i < j < entries.len() implies f[i] != f[j] by {
            let a = if i < k { i } else { i - 1 };
            let b = if j < k { j } else { j - 1 };
            if i != k && j != k {
                assert(f[i] == f0[a] && f[j] == f0[b]);
            } else if i == k {
                assert(f[j] == f0[b]);
            } else {
                assert(f[i] == f0[a]);
            }
        }
    }
}

/// Ranking is stable: of two entries with the same score, the one that
/// stands first in `entries` stands first in the ranking.
pub proof fn lemma_ranked_stable(entries: Seq<SuggestionView>)
    ensures
        forall|i: int, j: int|
            0 <= i < j < entries.len() && ranked(entries)[i].score == ranked(entries)[j].score
                ==> ranked_origin(entries)[i] < ranked_origin(entries)[j],
    decreases entries.len(),
{
    if entries.len() > 0 {
        let init = entries.drop_last();
        lemma_ranked_stable(init);
        lemma_ranked_positions(init);
        lemma_ranked_positions(entries);
        lemma_ranked_is_ranked(init);
        lemma_rank_position(ranked(init), entries.last().score);
        let k = rank_position(ranked(init), entries.last().score);
        let f0 = ranked_origin(init);
        let f = ranked_origin(entries);
        let r0 = ranked(init);
        let r = ranked(entries);
        assert(f == f0.insert(k, entries.len() - 1));
        assert(r == r0.insert(k, entries.last()));
        assert forall|i: int, j: int|
            0 <= i < j < entries.len() && r[i].score == r[j].score implies f[i] < f[j] by {
            if j < k {
                assert(r[i] == r0[i] && r[j] == r0[j] && f[i] == f0[i] && f[j] == f0[j]);
            } else if j == k {
                assert(f[i] == f0[i]);
            } else if i < k {
                assert(r[i] == r0[i] && r[j] == r0[j - 1] && f[i] == f0[i] && f[j] == f0[j - 1]);
            } else if i == k {
                assert(r[j] == r0[j - 1]);
                assert(r0[k].score >= r0[j - 1].score || j - 1 == k);
            } else {
                assert(r[i] == r0[i - 1] && r[j] == r0[j - 1] && f[i] == f0[i - 1] && f[j]
                    == f0[j - 1]);
            }
        }
    }
}

/// Where a suggestion scoring `score` enters the ranked list `list`.
pub fn position_for(list: &Vec<Suggestion>, score: i64) -> (k: usize)
    ensures
        k == rank_position(views_of(list@), score as int),
        k <= list.len(),
{
    let ghost views = views_of(list@);
    let mut k: usize = 0;
    assert(views.skip(0) =~= views);
    while k < list.len() && list[k].score >= score
        invariant
            k <= list.len(),
            views == views_of(list@),
            rank_position(views, score as int) == k + rank_position(
                views.skip(k as int),
                score as int,
            ),
        decreases list.len() - k,
    {
        assert(views.skip(k as int)[0] == list@[k as int]@);
        assert(views.skip(k as int).drop_first() =~= views.skip(k + 1));
        k = k + 1;
    }
    proof {
        if k < list.len() {
            assert(views.skip(k as int)[0] == list@[k as int]@);
        }
    }
    k
}

/// Orders suggestions by score, highest first; suggestions with equal scores
/// keep their order.
pub fn rank_suggestions(entries: &Vec<Suggestion>) -> (out: Vec<Suggestion>)
    ensures
        views_of(out@) == ranked(views_of(entries@)),
        is_ranked(views_of(out@)),
        out.len() == entries.len(),
{
    let ghost all = views_of(entries@);
    let mut out: Vec<Suggestion> = Vec::new();
    let mut i: usize = 0;
    assert(views_of(out@) =~= ranked(all.take(0)));
    while i < entries.len()
        invariant
            i <= entries.len(),
            all == views_of(entries@),
            views_of(out@) == ranked(all.take(i as int)),
        decreases entries.len() - i,
    {
        let x = entries[i].clone();
        let k = position_for(&out, x.score);
        let ghost before = views_of(out@);
        out.insert(k, x);
        proof {
            assert(all.take(i + 1).drop_last() =~= all.take(i as int));
            assert(all.take(i + 1).last() == entries@[i as int]@);
            assert(views_of(out@) =~= before.insert(k as int, x@));
        }
        i = i + 1;
    }
    proof {
        assert(all.take(entries.len() as int) =~= all);
        lemma_ranked_is_ranked(all);
    }
    out
}

/// The first `max` suggestions of `list`, or all of them if there are fewer.
pub fn take_top(list: &Vec<Suggestion>, max: usize) -> (out: Vec<Suggestion>)
    ensures
        views_of(out@) == top(views_of(list@), max as int),
        out.len() <= max,
        out.len() <= list.len(),
{
    let n: usize = if max < list.len() {
        max
    } else {
        list.len()
    };
    let mut out: Vec<Suggestion> = Vec::new();
    let mut i: usize = 0;
    while i < n
        invariant
            i <= n <= list.len(),
            out.len() == i,
            forall|j: int| 0 <= j < i ==> (#[trigger] out@[j])@ == list@[j]@,
        decreases n - i,
    {
        out.push(list[i].clone());
        i = i + 1;
    }
    assert(views_of(out@) =~= top(views_of(list@), max as int));
    out
}

/// The texts of a list of suggestions.
pub fn texts_from(list: &Vec<Suggestion>) -> (out: Vec<String>)
    ensures
        texts(out@) == texts_of(views_of(list@)),
        out.len() == list.len(),
{
    let mut out: Vec<String> = Vec::new();
    let mut i: usize = 0;
    while i < list.len()
        invariant
            i <= list.len(),
            out.len() == i,
            forall|j: int| 0 <= j < i ==> (#[trigger] out@[j])@ == list@[j]@.text,
        decreases list.len() - i,
    {
        out.push(list[i].text.clone());
        i = i + 1;
    }
    assert(texts(out@) =~= texts_of(views_of(list@)));
    out
}

/// The texts of the first `max` suggestions of `ranking`.
pub fn top_texts(ranking: &Vec<Suggestion>, max: usize) -> (out: Vec<String>)
    ensures
        texts(out@) == texts_of(top(views_of(ranking@), max as int)),
        out.len() <= max,
        out.len() <= ranking.len(),
{
    let best = take_top(ranking, max);
    texts_from(&best)
}

} // verus!
