//! Character-level helpers shared by the strategies and the session.
//!
//! Strings are viewed as `Seq<char>`; executable code works on `Vec<char>`
//! obtained with [`chars_of`] and turned back with [`string_of`].

use vstd::prelude::*;

verus! {

/// `String::push` appends exactly one character.
pub assume_specification[ String::push ](s: &mut String, c: char)
    ensures
        final(s)@ == old(s)@.push(c),
;

/// Unicode `White_Space`, the class that trimming and blank checks use.
pub open spec fn is_whitespace(c: char) -> bool {
    let n = c as u32;
    ||| 0x09 <= n <= 0x0D
    ||| n == 0x20
    ||| n == 0x85
    ||| n == 0xA0
    ||| n == 0x1680
    ||| 0x2000 <= n <= 0x200A
    ||| n == 0x2028
    ||| n == 0x2029
    ||| n == 0x202F
    ||| n == 0x205F
    ||| n == 0x3000
}

/// A text is blank when it holds nothing but whitespace.
pub open spec fn is_blank(s: Seq<char>) -> bool {
    forall|i: int| 0 <= i < s.len() ==> is_whitespace(#[trigger] s[i])
}

/// `s` without its leading whitespace.
pub open spec fn trim_start(s: Seq<char>) -> Seq<char>
    decreases s.len(),
{
    if s.len() > 0 && is_whitespace(s[0]) {
        trim_start(s.drop_first())
    } else {
        s
    }
}

/// `s` without its trailing whitespace.
pub open spec fn trim_end(s: Seq<char>) -> Seq<char>
    decreases s.len(),
{
    if s.len() > 0 && is_whitespace(s.last()) {
        trim_end(s.drop_last())
    } else {
        s
    }
}

/// `s` without leading and trailing whitespace.
pub open spec fn trimmed(s: Seq<char>) -> Seq<char> {
    trim_end(trim_start(s))
}

/// `needle` occurs in `s` as a contiguous run.
pub open spec fn has_substring(s: Seq<char>, needle: Seq<char>) -> bool {
    exists|i: int| 0 <= i && i + needle.len() <= s.len() && #[trigger] s.subrange(i, i + needle.len()) == needle
}

/// The pieces of `s` between line feeds; a text with `n` line feeds has
/// `n + 1` pieces, some of which may be empty.
pub open spec fn split_newlines(s: Seq<char>) -> Seq<Seq<char>>
    decreases s.len(),
{
    if s.len() == 0 {
        seq![Seq::empty()]
    } else {
        let init = split_newlines(s.drop_last());
        if s.last() == '\n' {
            init.push(Seq::empty())
        } else {
            init.update(init.len() - 1, init.last().push(s.last()))
        }
    }
}

/// The pieces put together again, a line feed between any two.
pub open spec fn joined(pieces: Seq<Seq<char>>) -> Seq<char>
    decreases pieces.len(),
{
    if pieces.len() == 0 {
        Seq::empty()
    } else if pieces.len() == 1 {
        pieces[0]
    } else {
        joined(pieces.drop_last()).push('\n') + pieces.last()
    }
}

/// Splitting at line feeds loses nothing and leaves no line feed: there
/// is at least one piece, no piece holds a line feed, and the pieces joined
/// by line feeds are the text.
pub proof fn lemma_split_newlines(s: Seq<char>)
    ensures
        split_newlines(s).len() >= 1,
        joined(split_newlines(s)) == s,
        forall|i: int, j: int|
            0 <= i < split_newlines(s).len() && 0 <= j < split_newlines(s)[i].len()
                ==> split_newlines(s)[i][j] != '\n',
    decreases s.len(),
{
    if s.len() == 0 {
        assert(joined(split_newlines(s)) =~= s);
    } else {
        let init = split_newlines(s.drop_last());
        let c = s.last();
        lemma_split_newlines(s.drop_last());
        let pieces = split_newlines(s);
        if c == '\n' {
            assert(pieces.drop_last() =~= init);
            assert(joined(pieces) =~= s.drop_last().push(c));
            assert(s.drop_last().push(c) =~= s);
            assert forall|i: int, j: int|
                0 <= i < pieces.len() && 0 <= j < pieces[i].len() implies pieces[i][j]
                != '\n' by {
                assert(pieces[i] == init[i]);
            }
        } else {
            let last = init.len() - 1;
            if init.len() == 1 {
                assert(joined(pieces) =~= joined(init).push(c));
            } else {
                assert(pieces.drop_last() =~= init.drop_last());
                assert(joined(pieces) =~= joined(init).push(c));
            }
            assert(s.drop_last().push(c) =~= s);
            assert forall|i: int, j: int|
                0 <= i < pieces.len() && 0 <= j < pieces[i].len() implies pieces[i][j]
                != '\n' by {
                if i < last {
                    assert(pieces[i] == init[i]);
                } else if j < init[last].len() {
                    assert(pieces[i][j] == init[last][j]);
                }
            }
        }
    }
}

/// `line` without one trailing carriage return.
pub open spec fn strip_cr(line: Seq<char>) -> Seq<char> {
    if line.len() > 0 && line.last() == '\r' {
        line.drop_last()
    } else {
        line
    }
}

/// The lines of `s`: each ends at a line feed or at the end of the text, a
/// carriage return before the line feed belongs to the terminator, and a
/// final line feed starts no further line.
pub open spec fn lines_of(s: Seq<char>) -> Seq<Seq<char>> {
    let pieces = split_newlines(s);
    let last = pieces.len() - 1;
    let count = if pieces[last].len() == 0 {
        last
    } else {
        last + 1
    };
    Seq::new(
        count as nat,
        |i: int|
            if i < last {
                strip_cr(pieces[i])
            } else {
                pieces[i]
            },
    )
}

/// The view of an optional string.
pub open spec fn opt_text(s: Option<String>) -> Option<Seq<char>> {
    match s {
        Some(t) => Some(t@),
        None => None,
    }
}

/// The views of a list of strings.
pub open spec fn texts(v: Seq<String>) -> Seq<Seq<char>> {
    Seq::new(v.len(), |i: int| v[i]@)
}

/// The views of a vector of character vectors.
pub open spec fn views(v: Seq<Vec<char>>) -> Seq<Seq<char>> {
    Seq::new(v.len(), |i: int| v[i]@)
}

/// How many whitespace characters `s` begins with.
pub open spec fn leading_whitespace(s: Seq<char>) -> nat
    decreases s.len(),
{
    if s.len() > 0 && is_whitespace(s[0]) {
        1 + leading_whitespace(s.drop_first())
    } else {
        0
    }
}

/// Trimming at the start drops exactly the leading whitespace.
pub proof fn lemma_trim_start(s: Seq<char>)
    ensures
        leading_whitespace(s) <= s.len(),
        trim_start(s) == s.skip(leading_whitespace(s) as int),
        forall|i: int| 0 <= i < leading_whitespace(s) ==> is_whitespace(#[trigger] s[i]),
        leading_whitespace(s) < s.len() ==> !is_whitespace(s[leading_whitespace(s) as int]),
    decreases s.len(),
{
    if s.len() > 0 && is_whitespace(s[0]) {
        let rest = s.drop_first();
        lemma_trim_start(rest);
        let k = leading_whitespace(rest);
        assert(rest.skip(k as int) =~= s.skip(k as int + 1));
        assert forall|i: int| 0 <= i < leading_whitespace(s) implies is_whitespace(
            #[trigger] s[i],
        ) by {
            if i > 0 {
                assert(s[i] == rest[i - 1]);
            }
        }
        if leading_whitespace(s) < s.len() {
            assert(s[leading_whitespace(s) as int] == rest[k as int]);
        }
    } else {
        assert(s.skip(0) =~= s);
    }
}

/// What is left after trimming at the end ends with no whitespace and is
/// a head of the text; nothing is left exactly if the text is blank.
pub proof fn lemma_trim_end(s: Seq<char>)
    ensures
        trim_end(s).len() <= s.len(),
        trim_end(s) == s.take(trim_end(s).len() as int),
        trim_end(s).len() > 0 ==> !is_whitespace(trim_end(s).last()),
        trim_end(s).len() == 0 <==> is_blank(s),
    decreases s.len(),
{
    if s.len() > 0 && is_whitespace(s.last()) {
        let init = s.drop_last();
        lemma_trim_end(init);
        assert(init.take(trim_end(init).len() as int) =~= s.take(trim_end(init).len() as int));
        if is_blank(init) {
            assert forall|i: int| 0 <= i < s.len() implies is_whitespace(#[trigger] s[i]) by {
                if i < init.len() {
                    assert(s[i] == init[i]);
                }
            }
        }
        if is_blank(s) {
            assert forall|i: int| 0 <= i < init.len() implies is_whitespace(
                #[trigger] init[i],
            ) by {
                assert(init[i] == s[i]);
            }
        }
    } else {
        assert(s.take(s.len() as int) =~= s);
        if s.len() > 0 {
            assert(!is_whitespace(s[s.len() - 1]));
        }
    }
}

/// A text is blank exactly if trimming leaves nothing of it.
pub proof fn lemma_blank_iff_trimmed_empty(s: Seq<char>)
    ensures
        is_blank(s) <==> trimmed(s).len() == 0,
{
    lemma_trim_start(s);
    let k = leading_whitespace(s) as int;
    let t = trim_start(s);
    lemma_trim_end(t);
    if is_blank(s) {
        if k < s.len() {
            assert(is_whitespace(s[k]));
        }
        assert(t.len() == 0);
    }
    if trimmed(s).len() == 0 {
        assert(is_blank(t));
        if t.len() > 0 {
            assert(t[0] == s[k]);
            assert(is_whitespace(t[0]));
        }
        assert forall|i: int| 0 <= i < s.len() implies is_whitespace(#[trigger] s[i]) by {}
    }
}

pub fn char_is_whitespace(c: char) -> (b: bool)
    ensures
        b == is_whitespace(c),
{
    let n: u32 = c as u32;
    (0x09 <= n && n <= 0x0D) || n == 0x20 || n == 0x85 || n == 0xA0 || n == 0x1680 || (0x2000 <= n
        && n <= 0x200A) || n == 0x2028 || n == 0x2029 || n == 0x202F || n == 0x205F || n == 0x3000
}

/// The characters of `s`, in order.
pub fn chars_of(s: &str) -> (v: Vec<char>)
    ensures
        v@ == s@,
{
    let mut v: Vec<char> = Vec::new();
    for c in it: s.chars()
        invariant
            v.len() == it.index(),
            it.seq() == s@,
            forall|j: int| 0 <= j < v.len() ==> v[j] == it.seq()[j],
    {
        v.push(c);
    }
    assert(v@ =~= s@);
    v
}

/// The string made of `chars[from..to]`.
pub fn string_of_range(chars: &Vec<char>, from: usize, to: usize) -> (s: String)
    requires
        from <= to <= chars.len(),
    ensures
        s@ == chars@.subrange(from as int, to as int),
{
    let mut s = String::new();
    let mut i: usize = from;
    while i < to
        invariant
            from <= i <= to <= chars.len(),
            s@ == chars@.subrange(from as int, i as int),
        decreases to - i,
    {
        s.push(chars[i]);
        assert(chars@.subrange(from as int, i + 1) =~= chars@.subrange(from as int, i as int).push(
            chars@[i as int],
        ));
        i = i + 1;
    }
    s
}

/// The string made of `chars`.
pub fn string_of(chars: &Vec<char>) -> (s: String)
    ensures
        s@ == chars@,
{
    let s = string_of_range(chars, 0, chars.len());
    assert(chars@.subrange(0, chars.len() as int) =~= chars@);
    s
}

/// Whether `v` holds nothing but whitespace.
pub fn is_blank_chars(v: &Vec<char>) -> (b: bool)
    ensures
        b == is_blank(v@),
{
    let mut i: usize = 0;
    while i < v.len()
        invariant
            i <= v.len(),
            forall|j: int| 0 <= j < i ==> is_whitespace(#[trigger] v@[j]),
        decreases v.len() - i,
    {
        if !char_is_whitespace(v[i]) {
            return false;
        }
        i = i + 1;
    }
    true
}

/// Whether `s` holds nothing but whitespace.
pub fn is_blank_str(s: &str) -> (b: bool)
    ensures
        b == is_blank(s@),
{
    let v = chars_of(s);
    is_blank_chars(&v)
}

/// The bounds of `v` without leading and trailing whitespace.
pub fn trim_bounds(v: &Vec<char>) -> (r: (usize, usize))
    ensures
        r.0 <= r.1 <= v.len(),
        v@.subrange(r.0 as int, r.1 as int) == trimmed(v@),
{
    let n = v.len();
    let mut start: usize = 0;
    assert(v@.subrange(0, n as int) =~= v@);
    while start < n && char_is_whitespace(v[start])
        invariant
            start <= n == v.len(),
            trim_start(v@) == trim_start(v@.subrange(start as int, n as int)),
        decreases n - start,
    {
        assert(v@.subrange(start as int, n as int).drop_first() =~= v@.subrange(
            start + 1,
            n as int,
        ));
        start = start + 1;
    }
    let mut end: usize = n;
    while end > start && char_is_whitespace(v[end - 1])
        invariant
            start <= end <= n == v.len(),
            trim_start(v@) == v@.subrange(start as int, n as int),
            trimmed(v@) == trim_end(v@.subrange(start as int, end as int)),
        decreases end,
    {
        assert(v@.subrange(start as int, end as int).drop_last() =~= v@.subrange(
            start as int,
            end - 1,
        ));
        end = end - 1;
    }
    (start, end)
}

/// `v` without leading and trailing whitespace.
pub fn trim_chars(v: &Vec<char>) -> (r: Vec<char>)
    ensures
        r@ == trimmed(v@),
{
    let (start, end) = trim_bounds(v);
    copy_range(v, start, end)
}

/// A copy of `v[from..to]`.
pub fn copy_range(v: &Vec<char>, from: usize, to: usize) -> (r: Vec<char>)
    requires
        from <= to <= v.len(),
    ensures
        r@ == v@.subrange(from as int, to as int),
{
    let mut r: Vec<char> = Vec::new();
    let mut i: usize = from;
    while i < to
        invariant
            from <= i <= to <= v.len(),
            r@ == v@.subrange(from as int, i as int),
        decreases to - i,
    {
        r.push(v[i]);
        assert(v@.subrange(from as int, i + 1) =~= v@.subrange(from as int, i as int).push(
            v@[i as int],
        ));
        i = i + 1;
    }
    r
}

/// A copy of a list of strings.
pub fn copy_lines(lines: &Vec<String>) -> (out: Vec<String>)
    ensures
        texts(out@) == texts(lines@),
        out.len() == lines.len(),
{
    let mut out: Vec<String> = Vec::new();
    let mut i: usize = 0;
    while i < lines.len()
        invariant
            i <= lines.len(),
            out.len() == i,
            forall|j: int| 0 <= j < i ==> (#[trigger] out@[j])@ == lines@[j]@,
        decreases lines.len() - i,
    {
        out.push(lines[i].clone());
        i = i + 1;
    }
    assert(texts(out@) =~= texts(lines@));
    out
}

/// Whether `v[at..]` begins with `needle`.
pub fn matches_at(v: &Vec<char>, at: usize, needle: &Vec<char>) -> (b: bool)
    requires
        at <= v.len(),
    ensures
        b == (at + needle.len() <= v.len() && v@.subrange(at as int, at + needle.len())
            == needle@),
{
    if needle.len() > v.len() - at {
        return false;
    }
    let mut i: usize = 0;
    while i < needle.len()
        invariant
            i <= needle.len(),
            at + needle.len() <= v.len(),
            forall|j: int| 0 <= j < i ==> v@[at + j] == needle@[j],
        decreases needle.len() - i,
    {
        if v[at + i] != needle[i] {
            assert(v@.subrange(at as int, at + needle.len())[i as int] != needle@[i as int]);
            return false;
        }
        i = i + 1;
    }
    assert(v@.subrange(at as int, at + needle.len()) =~= needle@);
    true
}

/// Whether `v` begins with `prefix`.
pub fn starts_with_chars(v: &Vec<char>, prefix: &Vec<char>) -> (b: bool)
    ensures
        b == prefix@.is_prefix_of(v@),
{
    let b = matches_at(v, 0, prefix);
    proof {
        if prefix@.is_prefix_of(v@) {
            assert(v@.subrange(0, prefix.len() as int) =~= prefix@);
        }
    }
    b
}

/// Whether `needle` occurs in `v`.
pub fn contains_chars(v: &Vec<char>, needle: &Vec<char>) -> (b: bool)
    ensures
        b == has_substring(v@, needle@),
{
    let mut i: usize = 0;
    while i < v.len()
        invariant
            i <= v.len(),
            forall|j: int|
                0 <= j < i ==> !(j + needle.len() <= v.len() && #[trigger] v@.subrange(
                    j,
                    j + needle.len(),
                ) == needle@),
        decreases v.len() - i,
    {
        if matches_at(v, i, needle) {
            return true;
        }
        i = i + 1;
    }
    matches_at(v, i, needle)
}

/// The pieces of `v` between line feeds.
pub fn split_newline_chars(v: &Vec<char>) -> (out: Vec<Vec<char>>)
    ensures
        views(out@) == split_newlines(v@),
        out.len() >= 1,
{
    let mut out: Vec<Vec<char>> = Vec::new();
    let mut cur: Vec<char> = Vec::new();
    let mut i: usize = 0;
    assert(v@.take(0) =~= Seq::<char>::empty());
    assert(views(out@).push(cur@) =~= seq![Seq::<char>::empty()]);
    while i < v.len()
        invariant
            i <= v.len(),
            views(out@).push(cur@) == split_newlines(v@.take(i as int)),
        decreases v.len() - i,
    {
        let c = v[i];
        let ghost before = views(out@).push(cur@);
        assert(v@.take(i + 1).drop_last() =~= v@.take(i as int));
        assert(v@.take(i + 1).last() == c);
        if c == '\n' {
            out.push(cur);
            cur = Vec::new();
            assert(views(out@).push(cur@) =~= before.push(Seq::empty()));
        } else {
            cur.push(c);
            assert(views(out@).push(cur@) =~= before.update(
                before.len() - 1,
                before.last().push(c),
            ));
        }
        i = i + 1;
    }
    assert(v@.take(v.len() as int) =~= v@);
    let ghost before = views(out@).push(cur@);
    out.push(cur);
    assert(views(out@) =~= before);
    out
}

/// The lines of `v`.
pub fn line_chars(v: &Vec<char>) -> (out: Vec<Vec<char>>)
    ensures
        views(out@) == lines_of(v@),
{
    let pieces = split_newline_chars(v);
    let last = pieces.len() - 1;
    let count = if pieces[last].len() == 0 {
        last
    } else {
        last + 1
    };
    let mut out: Vec<Vec<char>> = Vec::new();
    let mut i: usize = 0;
    while i < count
        invariant
            i <= count <= pieces.len(),
            last == pieces.len() - 1,
            out.len() == i,
            views(pieces@) == split_newlines(v@),
            forall|j: int| 0 <= j < i ==> (#[trigger] out@[j])@ == lines_of(v@)[j],
            count == lines_of(v@).len(),
        decreases count - i,
    {
        let piece = &pieces[i];
        assert(views(pieces@)[i as int] == piece@);
        let n = piece.len();
        let line = if i < last && n > 0 && piece[n - 1] == '\r' {
            let l = copy_range(piece, 0, n - 1);
            assert(piece@.subrange(0, n - 1) =~= piece@.drop_last());
            l
        } else {
            let l = copy_range(piece, 0, n);
            assert(piece@.subrange(0, n as int) =~= piece@);
            l
        };
        out.push(line);
        i = i + 1;
    }
    assert(views(pieces@)[last as int] == pieces@[last as int]@);
    assert(views(out@) =~= lines_of(v@));
    out
}

} // verus!
