//! The embedding strategy's own logic: how the embedding generator is
//! found and run, which neighbours become suggestions, and how much of the
//! history is learned.

use crate::suggestion::{views_of, weigh, weighted, Suggestion, SuggestionView};
use crate::text::{
    char_is_whitespace, chars_of, copy_range, is_whitespace, opt_text, string_of, texts,
    trim_chars, trimmed, views,
};
use vstd::prelude::*;

verus! {

/// The source tag of what was learned from the history.
pub const DEFAULT_SOURCE: &'static str = "history";

/// The text that is embedded to see whether the generator works.
pub const HEALTHCHECK_PROMPT: &'static str = "ghosttype-healthcheck";

/// How many entries are learned at most in one go.
pub const MAX_LEARN_INSERTS: usize = 100;

/// How many neighbours are asked for.
pub const SEARCH_TOP_K: usize = 10;

/// The least similarity, in thousandths, that makes a neighbour a
/// suggestion: 0.5.
pub const SEARCH_THRESHOLD: i64 = 500;

/// The weight of the embedding strategy: 0.6.
pub const EMBEDDING_WEIGHT: u32 = 600;

/// The generator that is run where the environment names none.
pub const DEFAULT_BINARY: &'static str = "llama-embedding";

/// The embedding generator: the program to run and the model to give it.
#[derive(Debug)]
pub struct LlamaEmbeddingClient {
    pub binary: String,
    pub model_path: String,
}

/// No model was named, neither by the environment nor by the caller.
#[derive(Debug, Clone, Copy, PartialEq, Eq, Structural)]
pub struct MissingModel;

impl LlamaEmbeddingClient {
    /// The generator `binary` with the model at `model_path`.
    pub fn new(binary: &str, model_path: &str) -> (r: Self)
        ensures
            r.binary@ == binary@,
            r.model_path@ == model_path@,
    {
        LlamaEmbeddingClient { binary: binary.to_owned(), model_path: model_path.to_owned() }
    }

    /// The generator as the environment and the caller name it: the
    /// environment's program, or the default one; the environment's model,
    /// or else the caller's. Without a model there is no generator.
    pub fn from_env_or(
        env_binary: Option<String>,
        env_model: Option<String>,
        model_path: Option<String>,
    ) -> (r: Result<Self, MissingModel>)
        ensures
            match r {
                Ok(client) => {
                    &&& client.binary@ == match env_binary {
                        Some(b) => b@,
                        None => DEFAULT_BINARY@,
                    }
                    &&& Some(client.model_path@) == match env_model {
                        Some(m) => Some(m@),
                        None => opt_text(model_path),
                    }
                },
                Err(_) => env_model is None && model_path is None,
            },
    {
        let binary = match env_binary {
            Some(b) => b,
            None => DEFAULT_BINARY.to_owned(),
        };
        let path = match env_model {
            Some(m) => Some(m),
            None => model_path,
        };
        match path {
            Some(p) => Ok(LlamaEmbeddingClient { binary, model_path: p }),
            None => Err(MissingModel),
        }
    }

    /// The arguments with which the generator embeds `text`.
    pub fn embed_args(&self, text: &str) -> (args: Vec<String>)
        ensures
            texts(args@) == seq!["-m"@, self.model_path@, "--log-disable"@, "-p"@, text@],
    {
        let mut args: Vec<String> = Vec::new();
        args.push("-m".to_owned());
        args.push(self.model_path.clone());
        args.push("--log-disable".to_owned());
        args.push("-p".to_owned());
        args.push(text.to_owned());
        assert(texts(args@) =~= seq!["-m"@, self.model_path@, "--log-disable"@, "-p"@, text@]);
        args
    }
}

/// A stored text with its similarity to the query, in thousandths.
#[derive(Debug)]
pub struct Neighbour {
    pub text: String,
    pub similarity: i64,
}

/// The suggestions of the embedding strategy: every neighbour at least as
/// similar as the threshold asks, in order, scored with its similarity
/// times the strategy's weight and tagged as learned from the history.
pub open spec fn neighbour_views(rows: Seq<Neighbour>) -> Seq<SuggestionView>
    decreases rows.len(),
{
    if rows.len() == 0 {
        Seq::empty()
    } else {
        let init = neighbour_views(rows.drop_last());
        let row = rows.last();
        if row.similarity >= SEARCH_THRESHOLD {
            init.push(
                SuggestionView {
                    text: row.text@,
                    source: Some(DEFAULT_SOURCE@),
                    score: weighted(row.similarity as int, EMBEDDING_WEIGHT as int),
                },
            )
        } else {
            init
        }
    }
}

/// Turns the neighbours found into suggestions.
pub fn neighbour_suggestions(rows: &Vec<Neighbour>) -> (out: Vec<Suggestion>)
    ensures
        views_of(out@) == neighbour_views(rows@),
{
    let mut out: Vec<Suggestion> = Vec::new();
    let mut i: usize = 0;
    assert(rows@.take(0) =~= Seq::<Neighbour>::empty());
    assert(views_of(out@) =~= neighbour_views(rows@.take(0)));
    while i < rows.len()
        invariant
            i <= rows.len(),
            views_of(out@) == neighbour_views(rows@.take(i as int)),
        decreases rows.len() - i,
    {
        let ghost before = views_of(out@);
        assert(rows@.take(i + 1).drop_last() =~= rows@.take(i as int));
        assert(rows@.take(i + 1).last() == rows@[i as int]);
        if rows[i].similarity >= SEARCH_THRESHOLD {
            let score: i64 = weigh(rows[i].similarity, EMBEDDING_WEIGHT);
            let s = Suggestion::with_source(rows[i].text.as_str(), score, DEFAULT_SOURCE);
            out.push(s);
            assert(views_of(out@) =~= before.push(s@));
        }
        i = i + 1;
    }
    assert(rows@.take(rows.len() as int) =~= rows@);
    out
}

/// What to do with one history entry while learning.
#[derive(Debug)]
pub enum LearnStep {
    /// Enough was learned: stop.
    Stop,
    /// The entry is blank: pass over it.
    Skip,
    /// Embed and store this text, unless the store has it already.
    Try(String),
}

/// What a [`LearnStep`] stands for.
pub enum LearnStepView {
    Stop,
    Skip,
    Try(Seq<char>),
}

impl View for LearnStep {
    type V = LearnStepView;

    open spec fn view(&self) -> LearnStepView {
        match self {
            LearnStep::Stop => LearnStepView::Stop,
            LearnStep::Skip => LearnStepView::Skip,
            LearnStep::Try(t) => LearnStepView::Try(t@),
        }
    }
}

/// The step for `entry` after `inserted` entries were stored.
pub open spec fn learn_step_of(inserted: usize, entry: Seq<char>) -> LearnStepView {
    if inserted >= MAX_LEARN_INSERTS {
        LearnStepView::Stop
    } else if trimmed(entry).len() == 0 {
        LearnStepView::Skip
    } else {
        LearnStepView::Try(trimmed(entry))
    }
}

/// Decides what to do with `entry` after `inserted` entries were stored.
pub fn learn_step(inserted: usize, entry: &str) -> (step: LearnStep)
    ensures
        step@ == learn_step_of(inserted, entry@),
{
    if inserted >= MAX_LEARN_INSERTS {
        return LearnStep::Stop;
    }
    let chars = chars_of(entry);
    let kept = trim_chars(&chars);
    if kept.len() == 0 {
        LearnStep::Skip
    } else {
        LearnStep::Try(string_of(&kept))
    }
}

/// The number of entries stored after one was tried: one more if the
/// store did not have it, the generator embedded it and the store took it.
pub fn learned(inserted: usize, known: bool, embedded: bool, saved: bool) -> (r: usize)
    requires
        inserted < MAX_LEARN_INSERTS,
    ensures
        r == if !known && embedded && saved {
            inserted + 1
        } else {
            inserted as int
        },
        r <= MAX_LEARN_INSERTS,
{
    if !known && embedded && saved {
        inserted + 1
    } else {
        inserted
    }
}

/// The words found while scanning a text: those that are complete, and
/// the one that the scan is in, if any.
pub struct WordScan {
    pub done: Seq<Seq<char>>,
    pub open_word: Seq<char>,
}

/// The scan of `s`: whitespace ends the open word, any other character
/// extends it.
pub open spec fn scan_words(s: Seq<char>) -> WordScan
    decreases s.len(),
{
    if s.len() == 0 {
        WordScan { done: Seq::empty(), open_word: Seq::empty() }
    } else {
        let before = scan_words(s.drop_last());
        if is_whitespace(s.last()) {
            if before.open_word.len() > 0 {
                WordScan { done: before.done.push(before.open_word), open_word: Seq::empty() }
            } else {
                before
            }
        } else {
            WordScan { done: before.done, open_word: before.open_word.push(s.last()) }
        }
    }
}

/// The words of `s`: its maximal runs of characters that are no whitespace.
pub open spec fn words(s: Seq<char>) -> Seq<Seq<char>> {
    let scan = scan_words(s);
    if scan.open_word.len() > 0 {
        scan.done.push(scan.open_word)
    } else {
        scan.done
    }
}

/// A bracket or a comma: what surrounds the numbers of a printed vector.
pub open spec fn is_list_mark(c: char) -> bool {
    c == '[' || c == ']' || c == ','
}

/// `s` without the list marks it begins with.
pub open spec fn strip_marks_start(s: Seq<char>) -> Seq<char>
    decreases s.len(),
{
    if s.len() > 0 && is_list_mark(s[0]) {
        strip_marks_start(s.drop_first())
    } else {
        s
    }
}

/// `s` without the list marks it ends with.
pub open spec fn strip_marks_end(s: Seq<char>) -> Seq<char>
    decreases s.len(),
{
    if s.len() > 0 && is_list_mark(s.last()) {
        strip_marks_end(s.drop_last())
    } else {
        s
    }
}

/// `s` without list marks at either end.
pub open spec fn strip_marks(s: Seq<char>) -> Seq<char> {
    strip_marks_end(strip_marks_start(s))
}

/// The words, stripped of list marks, that are not empty.
pub open spec fn stripped_words(ws: Seq<Seq<char>>) -> Seq<Seq<char>>
    decreases ws.len(),
{
    if ws.len() == 0 {
        Seq::empty()
    } else {
        let init = stripped_words(ws.drop_last());
        let w = strip_marks(ws.last());
        if w.len() > 0 {
            init.push(w)
        } else {
            init
        }
    }
}

/// The tokens of a printed embedding that may be numbers: its words
/// without brackets and commas around them.
pub open spec fn number_tokens(raw: Seq<char>) -> Seq<Seq<char>> {
    stripped_words(words(raw))
}

/// The words of `v`.
pub fn words_of(v: &Vec<char>) -> (out: Vec<Vec<char>>)
    ensures
        views(out@) == words(v@),
{
    let mut out: Vec<Vec<char>> = Vec::new();
    let mut cur: Vec<char> = Vec::new();
    let mut i: usize = 0;
    assert(v@.take(0) =~= Seq::<char>::empty());
    assert(views(out@) =~= Seq::<Seq<char>>::empty());
    while i < v.len()
        invariant
            i <= v.len(),
            scan_words(v@.take(i as int)) == (WordScan { done: views(out@), open_word: cur@ }),
        decreases v.len() - i,
    {
        let c = v[i];
        let ghost done = views(out@);
        assert(v@.take(i + 1).drop_last() =~= v@.take(i as int));
        assert(v@.take(i + 1).last() == c);
        if char_is_whitespace(c) {
            if cur.len() > 0 {
                out.push(cur);
                cur = Vec::new();
                assert(views(out@) =~= done.push(scan_words(v@.take(i as int)).open_word));
                assert(cur@ =~= Seq::<char>::empty());
            }
        } else {
            cur.push(c);
        }
        i = i + 1;
    }
    assert(v@.take(v.len() as int) =~= v@);
    if cur.len() > 0 {
        let ghost done = views(out@);
        out.push(cur);
        assert(views(out@) =~= done.push(scan_words(v@).open_word));
    }
    out
}

/// Whether `c` is a bracket or a comma.
fn char_is_list_mark(c: char) -> (b: bool)
    ensures
        b == is_list_mark(c),
{
    c == '[' || c == ']' || c == ','
}

/// `v` without list marks at either end.
pub fn strip_list_marks(v: &Vec<char>) -> (r: Vec<char>)
    ensures
        r@ == strip_marks(v@),
{
    let n = v.len();
    let mut start: usize = 0;
    assert(v@.subrange(0, n as int) =~= v@);
    while start < n && char_is_list_mark(v[start])
        invariant
            start <= n == v.len(),
            strip_marks_start(v@) == strip_marks_start(v@.subrange(start as int, n as int)),
        decreases n - start,
    {
        assert(v@.subrange(start as int, n as int).drop_first() =~= v@.subrange(
            start + 1,
            n as int,
        ));
        start = start + 1;
    }
    let mut end: usize = n;
    while end > start && char_is_list_mark(v[end - 1])
        invariant
            start <= end <= n == v.len(),
            strip_marks_start(v@) == v@.subrange(start as int, n as int),
            strip_marks(v@) == strip_marks_end(v@.subrange(start as int, end as int)),
        decreases end,
    {
        assert(v@.subrange(start as int, end as int).drop_last() =~= v@.subrange(
            start as int,
            end - 1,
        ));
        end = end - 1;
    }
    copy_range(v, start, end)
}

/// The tokens of a printed embedding that may be numbers.
pub fn embedding_tokens(raw: &str) -> (out: Vec<String>)
    ensures
        texts(out@) == number_tokens(raw@),
{
    let chars = chars_of(raw);
    let ws = words_of(&chars);
    let ghost all = words(raw@);
    let mut out: Vec<String> = Vec::new();
    let mut i: usize = 0;
    assert(all.take(0) =~= Seq::<Seq<char>>::empty());
    assert(texts(out@) =~= stripped_words(all.take(0)));
    while i < ws.len()
        invariant
            i <= ws.len(),
            views(ws@) == all,
            texts(out@) == stripped_words(all.take(i as int)),
        decreases ws.len() - i,
    {
        let ghost before = texts(out@);
        assert(all.take(i + 1).drop_last() =~= all.take(i as int));
        assert(all.take(i + 1).last() == ws@[i as int]@);
        let token = strip_list_marks(&ws[i]);
        if token.len() > 0 {
            out.push(string_of(&token));
            assert(texts(out@) =~= before.push(token@));
        }
        i = i + 1;
    }
    assert(all.take(ws.len() as int) =~= all);
    out
}

} // verus!
