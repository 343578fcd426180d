//! History lines: reading them out of file contents, dropping repeats, and
//! preparing the records under which commands are stored.

use crate::session::HistoryEntry;
use crate::text::{
    chars_of, is_blank, is_blank_chars, line_chars, lines_of, string_of, texts, trim_chars,
    trimmed, views,
};
use ahash::AHashSet;
use ahash::RandomState;
use sha2::{Digest, Sha256};
use vstd::prelude::*;

verus! {

/// `ahash::RandomState`, the hasher state of an `AHashSet`; carried, never
/// looked into.
#[verifier::external_type_specification]
#[verifier::external_body]
pub struct ExRandomState(RandomState);

/// `ahash::AHashSet`, the set that remembers which lines were seen; what
/// it holds is known through [`held`] alone.
#[verifier::external_type_specification]
#[verifier::external_body]
#[verifier::reject_recursive_types(T)]
#[verifier::reject_recursive_types(S)]
pub struct ExAHashSet<T, S>(AHashSet<T, S>);

/// The most entries that room is set aside for before a set is filled.
pub const PREALLOCATE_LIMIT: usize = 1_048_576;

/// The texts that a set of strings holds.
pub uninterp spec fn held(set: AHashSet<String, RandomState>) -> Set<Seq<char>>;

/// `AHashSet::with_capacity`: a set that holds nothing. The capacity is
/// bounded so that setting the room aside cannot overflow.
#[verifier::external_body]
fn empty_set(capacity: usize) -> (set: AHashSet<String, RandomState>)
    requires
        capacity <= PREALLOCATE_LIMIT,
    ensures
        held(set) == Set::<Seq<char>>::empty(),
{
    AHashSet::with_capacity(capacity)
}

/// `HashSet::insert` on the set: the text is held afterwards, and the
/// result says whether it was new.
#[verifier::external_body]
fn insert_text(set: &mut AHashSet<String, RandomState>, text: &str) -> (fresh: bool)
    ensures
        fresh == !held(*old(set)).contains(text@),
        held(*final(set)) == held(*old(set)).insert(text@),
{
    set.insert(text.to_string())
}

/// The lines of `lines` without repeats: of equal lines the first stays.
pub open spec fn first_occurrences(lines: Seq<Seq<char>>) -> Seq<Seq<char>>
    decreases lines.len(),
{
    if lines.len() == 0 {
        Seq::empty()
    } else {
        let init = lines.drop_last();
        if init.contains(lines.last()) {
            first_occurrences(init)
        } else {
            first_occurrences(init).push(lines.last())
        }
    }
}

/// Dropping repeats leaves every line of the text exactly once.
pub proof fn lemma_first_occurrences(lines: Seq<Seq<char>>)
    ensures
        first_occurrences(lines).no_duplicates(),
        first_occurrences(lines).len() <= lines.len(),
        forall|t: Seq<char>| first_occurrences(lines).contains(t) <==> lines.contains(t),
    decreases lines.len(),
{
    if lines.len() > 0 {
        let init = lines.drop_last();
        let last = lines.last();
        lemma_first_occurrences(init);
        let kept = first_occurrences(init);
        let out = first_occurrences(lines);
        assert forall|t: Seq<char>| out.contains(t) <==> lines.contains(t) by {
            if lines.contains(t) {
                let k = choose|k: int| 0 <= k < lines.len() && lines[k] == t;
                if k < init.len() {
                    assert(init[k] == t);
                    assert(init.contains(t));
                    assert(kept.contains(t));
                    let m = choose|m: int| 0 <= m < kept.len() && kept[m] == t;
                    assert(out[m] == t);
                } else if init.contains(t) {
                    let m = choose|m: int| 0 <= m < kept.len() && kept[m] == t;
                    assert(out[m] == t);
                } else {
                    assert(out[out.len() - 1] == t);
                }
            }
            if out.contains(t) {
                let m = choose|m: int| 0 <= m < out.len() && out[m] == t;
                if m < kept.len() {
                    assert(kept[m] == t);
                    assert(kept.contains(t));
                    assert(init.contains(t));
                    let k = choose|k: int| 0 <= k < init.len() && init[k] == t;
                    assert(lines[k] == t);
                } else {
                    assert(lines[lines.len() - 1] == t);
                }
            }
        }
        if !init.contains(last) {
            assert forall|i: int, j: int| 0 <= i < j < out.len() implies out[i] != out[j] by {
                if j == kept.len() {
                    assert(kept[i] == out[i]);
                    assert(kept.contains(out[i]));
                } else {
                    assert(kept[i] == out[i] && kept[j] == out[j]);
                }
            }
        }
    }
}

/// Drops every line that occurred before; the lines that stay keep their
/// order.
pub fn unique_lines(lines: Vec<String>) -> (out: Vec<String>)
    ensures
        texts(out@) == first_occurrences(texts(lines@)),
{
    let ghost all = texts(lines@);
    let room: usize = if lines.len() <= PREALLOCATE_LIMIT {
        lines.len()
    } else {
        PREALLOCATE_LIMIT
    };
    let mut seen = empty_set(room);
    let mut out: Vec<String> = Vec::new();
    let mut i: usize = 0;
    assert(all.take(0) =~= Seq::<Seq<char>>::empty());
    assert(texts(out@) =~= first_occurrences(all.take(0)));
    while i < lines.len()
        invariant
            i <= lines.len(),
            all == texts(lines@),
            held(seen) == all.take(i as int).to_set(),
            texts(out@) == first_occurrences(all.take(i as int)),
        decreases lines.len() - i,
    {
        let line = &lines[i];
        let ghost before = texts(out@);
        let ghost init = all.take(i as int);
        proof {
            assert(all.take(i + 1).drop_last() =~= init);
            assert(all.take(i + 1).last() == line@);
            assert(init.to_set().contains(line@) == init.contains(line@));
            let next = all.take(i + 1);
            assert(next.to_set() =~= init.to_set().insert(line@)) by {
                assert forall|t: Seq<char>| next.to_set().contains(t) == init.to_set().insert(
                    line@,
                ).contains(t) by {
                    if next.contains(t) {
                        let k = choose|k: int| 0 <= k < next.len() && next[k] == t;
                        if k < i {
                            assert(init[k] == t);
                        }
                    }
                    if init.contains(t) {
                        let k = choose|k: int| 0 <= k < init.len() && init[k] == t;
                        assert(next[k] == t);
                    }
                    if t == line@ {
                        assert(next[i as int] == t);
                    }
                }
            }
        }
        if insert_text(&mut seen, line.as_str()) {
            out.push(line.clone());
            assert(texts(out@) =~= before.push(line@));
        }
        i = i + 1;
    }
    assert(all.take(lines.len() as int) =~= all);
    out
}

/// The lines of a history file's text.
pub fn history_lines(text: &str) -> (out: Vec<String>)
    ensures
        texts(out@) == lines_of(text@),
{
    let chars = chars_of(text);
    let lines = line_chars(&chars);
    let mut out: Vec<String> = Vec::new();
    let mut i: usize = 0;
    while i < lines.len()
        invariant
            i <= lines.len(),
            out.len() == i,
            views(lines@) == lines_of(text@),
            forall|j: int| 0 <= j < i ==> (#[trigger] out@[j])@ == lines_of(text@)[j],
        decreases lines.len() - i,
    {
        assert(views(lines@)[i as int] == lines@[i as int]@);
        out.push(string_of(&lines[i]));
        i = i + 1;
    }
    assert(texts(out@) =~= lines_of(text@));
    out
}

/// The lines of the given history, without repeats if `unique` is set.
pub fn load_history_lines(lines: Vec<String>, unique: bool) -> (out: Vec<String>)
    ensures
        texts(out@) == if unique {
            first_occurrences(texts(lines@))
        } else {
            texts(lines@)
        },
{
    if unique {
        unique_lines(lines)
    } else {
        lines
    }
}

/// A stored command with the output it is remembered with.
pub fn history_entry(command: String, output: &str) -> (entry: HistoryEntry)
    ensures
        entry.cmd == command,
        texts(entry.output_lines@) == lines_of(output@),
{
    HistoryEntry { cmd: command, output_lines: history_lines(output) }
}

/// The SHA-256 digest of a run of bytes.
pub uninterp spec fn sha256_digest(data: Seq<u8>) -> Seq<u8>;

/// `Sha256::digest`: the digest is a function of the bytes alone.
#[verifier::external_body]
fn sha256(data: &[u8]) -> (digest: Vec<u8>)
    ensures
        digest@ == sha256_digest(data@),
{
    Sha256::digest(data).to_vec()
}

/// The lower-case hexadecimal digit of a value below sixteen.
pub open spec fn hex_digit(n: int) -> char {
    if n < 10 {
        (48 + n) as u8 as char
    } else {
        (87 + n) as u8 as char
    }
}

/// Bytes in hexadecimal: two lower-case digits per byte, high digit first.
pub open spec fn hex_of(bytes: Seq<u8>) -> Seq<char> {
    Seq::new(
        2 * bytes.len(),
        |i: int|
            if i % 2 == 0 {
                hex_digit(bytes[i / 2] as int / 16)
            } else {
                hex_digit(bytes[i / 2] as int % 16)
            },
    )
}

/// `hex::encode`: every byte as two lower-case hexadecimal digits.
#[verifier::external_body]
fn hex_encode(bytes: &Vec<u8>) -> (text: String)
    ensures
        text@ == hex_of(bytes@),
{
    hex::encode(bytes)
}

/// The key under which a command is stored: the SHA-256 digest of its
/// UTF-8 bytes, in hexadecimal.
pub open spec fn command_hash(command: Seq<char>) -> Seq<char> {
    hex_of(sha256_digest(vstd::utf8::encode_utf8(command)))
}

/// The key under which `command` is stored.
pub fn hash_command(command: &str) -> (hash: String)
    ensures
        hash@ == command_hash(command@),
{
    let digest = sha256(command.as_bytes());
    hex_encode(&digest)
}

/// What is stored of a command: its trimmed text and the key of that text.
#[derive(Debug)]
pub struct HistoryRecord {
    pub command: String,
    pub hash: String,
}

/// What a [`HistoryRecord`] stands for.
pub struct HistoryRecordView {
    pub command: Seq<char>,
    pub hash: Seq<char>,
}

impl View for HistoryRecord {
    type V = HistoryRecordView;

    open spec fn view(&self) -> HistoryRecordView {
        HistoryRecordView { command: self.command@, hash: self.hash@ }
    }
}

/// The record of a command: none for a blank command, else the trimmed
/// command under its key.
pub open spec fn record_of(command: Seq<char>) -> Option<HistoryRecordView> {
    if is_blank(command) {
        None
    } else {
        Some(HistoryRecordView { command: trimmed(command), hash: command_hash(trimmed(command)) })
    }
}

/// The view of an optional record.
pub open spec fn record_view(r: Option<HistoryRecord>) -> Option<HistoryRecordView> {
    match r {
        Some(rec) => Some(rec@),
        None => None,
    }
}

/// Prepares a command that was run for storing. A blank command is not
/// stored.
pub fn persist_command_to_history(command: &str) -> (r: Option<HistoryRecord>)
    ensures
        record_view(r) == record_of(command@),
{
    let chars = chars_of(command);
    if is_blank_chars(&chars) {
        return None;
    }
    let kept = trim_chars(&chars);
    let text = string_of(&kept);
    let hash = hash_command(text.as_str());
    Some(HistoryRecord { command: text, hash })
}

/// The records of the lines that are not blank, in order.
pub open spec fn records_of(lines: Seq<Seq<char>>) -> Seq<HistoryRecordView>
    decreases lines.len(),
{
    if lines.len() == 0 {
        Seq::empty()
    } else {
        let init = records_of(lines.drop_last());
        match record_of(lines.last()) {
            Some(rec) => init.push(rec),
            None => init,
        }
    }
}

/// The views of a list of records.
pub open spec fn record_views(v: Seq<HistoryRecord>) -> Seq<HistoryRecordView> {
    Seq::new(v.len(), |i: int| v[i]@)
}

/// Prepares shell history for storing: repeats are dropped, then every
/// line that is not blank gets its record.
pub fn import_shell_history_to_db(lines: Vec<String>) -> (out: Vec<HistoryRecord>)
    ensures
        record_views(out@) == records_of(first_occurrences(texts(lines@))),
{
    let kept = unique_lines(lines);
    let ghost all = texts(kept@);
    let mut out: Vec<HistoryRecord> = Vec::new();
    let mut i: usize = 0;
    assert(all.take(0) =~= Seq::<Seq<char>>::empty());
    assert(record_views(out@) =~= records_of(all.take(0)));
    while i < kept.len()
        invariant
            i <= kept.len(),
            all == texts(kept@),
            record_views(out@) == records_of(all.take(i as int)),
        decreases kept.len() - i,
    {
        let ghost before = record_views(out@);
        proof {
            assert(all.take(i + 1).drop_last() =~= all.take(i as int));
            assert(all.take(i + 1).last() == kept@[i as int]@);
        }
        match persist_command_to_history(kept[i].as_str()) {
            Some(rec) => {
                out.push(rec);
                assert(record_views(out@) =~= before.push(rec@));
            },
            None => {},
        }
        i = i + 1;
    }
    assert(all.take(kept.len() as int) =~= all);
    out
}

} // verus!
