//! What the interface shows of a command or of the input, worked out as
//! plain values: display lines, highlighted spans and cursor cells.

use crate::session::{HistoryEntry, Rect};
use crate::text::{
    chars_of, copy_lines, copy_range, is_blank, is_blank_chars, split_newline_chars, split_newlines,
    string_of, texts, views,
};
use vstd::prelude::*;
use vstd::string::StringExecFns;

verus! {

/// A space or a tab.
pub open spec fn is_pad(c: char) -> bool {
    c == ' ' || c == '\t'
}

/// `s` without trailing spaces and tabs.
pub open spec fn strip_pad_end(s: Seq<char>) -> Seq<char>
    decreases s.len(),
{
    if s.len() > 0 && is_pad(s.last()) {
        strip_pad_end(s.drop_last())
    } else {
        s
    }
}

/// A command as it is displayed: without trailing spaces and tabs, and
/// without the backslash that a continued line ends with.
pub open spec fn normalized(s: Seq<char>) -> Seq<char> {
    let t = strip_pad_end(s);
    if t.len() > 0 && t.last() == '\\' {
        t.drop_last()
    } else {
        t
    }
}

/// The lines a text is displayed in: its pieces between line feeds, a
/// blank piece shown as a single space.
pub open spec fn display_lines(s: Seq<char>) -> Seq<Seq<char>> {
    let pieces = split_newlines(s);
    Seq::new(
        pieces.len(),
        |i: int|
            if is_blank(pieces[i]) {
                seq![' ']
            } else {
                pieces[i]
            },
    )
}

/// Adds one to a screen coordinate, stopping at the largest.
pub open spec fn bump(n: int) -> int {
    if n < u16::MAX {
        n + 1
    } else {
        u16::MAX as int
    }
}

/// Line and column of the position behind the characters of `prefix`:
/// a line feed starts a new line at column zero, any other character
/// advances the column; both stop at the largest coordinate.
pub open spec fn cell_after(prefix: Seq<char>) -> (int, int)
    decreases prefix.len(),
{
    if prefix.len() == 0 {
        (0, 0)
    } else {
        let before = cell_after(prefix.drop_last());
        if prefix.last() == '\n' {
            (bump(before.0), 0)
        } else {
            (before.0, bump(before.1))
        }
    }
}

/// The number of bytes that a character takes in UTF-8.
pub open spec fn byte_width(c: char) -> int {
    vstd::utf8::encode_scalar(c as u32).len() as int
}

/// How many characters of `text` start before the byte offset `byte` of
/// its UTF-8 form: the first one does if the offset is positive, and the
/// others are counted from behind it.
pub open spec fn chars_before(text: Seq<char>, byte: int) -> int
    decreases text.len(),
{
    if text.len() == 0 || byte <= 0 {
        0
    } else {
        1 + chars_before(text.drop_first(), byte - byte_width(text[0]))
    }
}

/// Line and column of a cursor given as a byte offset into `text`: the
/// cell behind the characters that start before the offset. A cursor
/// behind the end counts as standing at the end.
pub open spec fn cursor_cell_of(text: Seq<char>, cursor: int) -> (int, int) {
    cell_after(text.take(chars_before(text, cursor)))
}

/// The byte offset, in the UTF-8 form of `text`, of the position behind
/// its first `chars` characters; behind all of them if there are fewer.
pub open spec fn byte_offset(text: Seq<char>, chars: int) -> int
    decreases text.len(),
{
    if text.len() == 0 || chars <= 0 {
        0
    } else {
        byte_width(text[0]) + byte_offset(text.drop_first(), chars - 1)
    }
}

/// A position counted in characters and its byte offset name the same
/// place: the characters that start before the offset are those before
/// the position, and the offset lies within the UTF-8 form of the text.
pub proof fn lemma_byte_offset(text: Seq<char>, chars: int)
    ensures
        0 <= byte_offset(text, chars) <= vstd::utf8::encode_utf8(text).len(),
        chars_before(text, byte_offset(text, chars)) == if chars <= 0 {
            0
        } else if chars < text.len() {
            chars
        } else {
            text.len() as int
        },
    decreases text.len(),
{
    if text.len() > 0 && chars > 0 {
        vstd::utf8::char_is_scalar(text[0]);
        lemma_byte_offset(text.drop_first(), chars - 1);
    }
}

/// The number of bytes that `c` takes in UTF-8.
pub fn char_width(c: char) -> (w: usize)
    ensures
        w == byte_width(c),
        1 <= w <= 4,
{
    proof {
        vstd::utf8::char_is_scalar(c);
    }
    let n: u32 = c as u32;
    if n < 0x80 {
        1
    } else if n < 0x800 {
        2
    } else if n < 0x10000 {
        3
    } else {
        4
    }
}

/// The command as it is displayed.
pub fn normalized_command_for_display(text: &str) -> (r: String)
    ensures
        r@ == normalized(text@),
{
    let chars = chars_of(text);
    let mut end: usize = chars.len();
    assert(chars@.subrange(0, end as int) =~= chars@);
    while end > 0 && (chars[end - 1] == ' ' || chars[end - 1] == '\t')
        invariant
            end <= chars.len(),
            strip_pad_end(chars@) == strip_pad_end(chars@.subrange(0, end as int)),
        decreases end,
    {
        assert(chars@.subrange(0, end as int).drop_last() =~= chars@.subrange(0, end - 1));
        end = end - 1;
    }
    if end > 0 && chars[end - 1] == '\\' {
        assert(chars@.subrange(0, end as int).drop_last() =~= chars@.subrange(0, end - 1));
        end = end - 1;
    }
    let kept = copy_range(&chars, 0, end);
    string_of(&kept)
}

/// The lines a text is displayed in.
pub fn lines_from_display_text(target: &str) -> (out: Vec<String>)
    ensures
        texts(out@) == display_lines(target@),
{
    let chars = chars_of(target);
    let pieces = split_newline_chars(&chars);
    let mut out: Vec<String> = Vec::new();
    let mut i: usize = 0;
    while i < pieces.len()
        invariant
            i <= pieces.len(),
            out.len() == i,
            views(pieces@) == split_newlines(target@),
            forall|j: int| 0 <= j < i ==> (#[trigger] out@[j])@ == display_lines(target@)[j],
        decreases pieces.len() - i,
    {
        assert(views(pieces@)[i as int] == pieces@[i as int]@);
        if is_blank_chars(&pieces[i]) {
            let mut blank = String::new();
            blank.push(' ');
            assert(blank@ =~= seq![' ']);
            out.push(blank);
        } else {
            out.push(string_of(&pieces[i]));
        }
        i = i + 1;
    }
    assert(texts(out@) =~= display_lines(target@));
    out
}

/// The lines a command is displayed in.
pub fn format_command_lines_for_display(text: &str) -> (out: Vec<String>)
    ensures
        texts(out@) == display_lines(normalized(text@)),
{
    let shown = normalized_command_for_display(text);
    lines_from_display_text(shown.as_str())
}

/// The byte offset of a cursor that counts characters.
pub fn cursor_byte_offset(text: &str, cursor: usize) -> (r: usize)
    ensures
        r == byte_offset(text@, cursor as int),
{
    let chars = chars_of(text);
    let total = text.as_bytes().len();
    let mut at: usize = 0;
    let mut i: usize = 0;
    assert(chars@.skip(0) =~= chars@);
    while i < chars.len() && i < cursor
        invariant
            i <= chars.len(),
            chars@ == text@,
            total == vstd::utf8::encode_utf8(chars@).len(),
            at + vstd::utf8::encode_utf8(chars@.skip(i as int)).len() == total,
            byte_offset(chars@, cursor as int) == at + byte_offset(
                chars@.skip(i as int),
                cursor - i,
            ),
        decreases chars.len() - i,
    {
        let width = char_width(chars[i]);
        proof {
            assert(chars@.skip(i as int)[0] == chars@[i as int]);
            assert(chars@.skip(i as int).drop_first() =~= chars@.skip(i + 1));
        }
        at = at + width;
        i = i + 1;
    }
    at
}

/// Line and column of the cursor in the displayed text; the cursor is a
/// byte offset into the text.
pub fn cursor_line_col(display_text: &str, cursor: usize) -> (r: (u16, u16))
    ensures
        (r.0 as int, r.1 as int) == cursor_cell_of(display_text@, cursor as int),
{
    let chars = chars_of(display_text);
    let mut line: u16 = 0;
    let mut col: u16 = 0;
    let mut i: usize = 0;
    let mut left: usize = cursor;
    let ghost mut offset: int = cursor as int;
    assert(chars@.take(0) =~= Seq::<char>::empty());
    assert(chars@.skip(0) =~= chars@);
    while i < chars.len() && left > 0
        invariant
            i <= chars.len(),
            chars@ == display_text@,
            left == if offset > 0 {
                offset
            } else {
                0
            },
            chars_before(chars@, cursor as int) == i + chars_before(chars@.skip(i as int), offset),
            (line as int, col as int) == cell_after(chars@.take(i as int)),
        decreases chars.len() - i,
    {
        let c = chars[i];
        let width = char_width(c);
        proof {
            assert(chars@.skip(i as int)[0] == c);
            assert(chars@.skip(i as int).drop_first() =~= chars@.skip(i + 1));
            assert(chars@.take(i + 1).drop_last() =~= chars@.take(i as int));
            assert(chars@.take(i + 1).last() == c);
            offset = offset - width;
        }
        left = if left >= width {
            left - width
        } else {
            0
        };
        if c == '\n' {
            line = if line < u16::MAX {
                line + 1
            } else {
                u16::MAX
            };
            col = 0;
        } else {
            col = if col < u16::MAX {
                col + 1
            } else {
                u16::MAX
            };
        }
        i = i + 1;
    }
    (line, col)
}

/// A run of characters shown in one style.
#[derive(Debug)]
pub struct Span {
    pub text: String,
    /// Shown reversed: the character under the cursor.
    pub highlighted: bool,
}

/// What a [`Span`] stands for.
pub struct SpanView {
    pub text: Seq<char>,
    pub highlighted: bool,
}

impl View for Span {
    type V = SpanView;

    open spec fn view(&self) -> SpanView {
        SpanView { text: self.text@, highlighted: self.highlighted }
    }
}

/// The views of a line of spans.
pub open spec fn span_views(line: Seq<Span>) -> Seq<SpanView> {
    Seq::new(line.len(), |i: int| line[i]@)
}

/// The views of lines of spans.
pub open spec fn line_views(lines: Seq<Vec<Span>>) -> Seq<Seq<SpanView>> {
    Seq::new(lines.len(), |i: int| span_views(lines[i]@))
}

/// A span in the ordinary style.
pub open spec fn plain(text: Seq<char>) -> SpanView {
    SpanView { text, highlighted: false }
}

/// The position in the text at which piece `i` starts: every piece before
/// it takes its length and one more for the line feed.
pub open spec fn piece_offset(pieces: Seq<Seq<char>>, i: int) -> int
    decreases i,
{
    if i <= 0 {
        0
    } else {
        piece_offset(pieces, i - 1) + pieces[i - 1].len() + 1
    }
}

/// The spans of one input line that starts at `offset`. If the cursor
/// stands on one of its characters, that character is highlighted and
/// what stands before and behind it, if anything, is shown plain; else the
/// line is shown plain, an empty line as a single space.
pub open spec fn line_spans(raw: Seq<char>, offset: int, cursor: int) -> Seq<SpanView> {
    if offset <= cursor < offset + raw.len() {
        let col = cursor - offset;
        let left = raw.take(col);
        let rest = raw.skip(col + 1);
        let head = if col > 0 {
            seq![plain(left)]
        } else {
            Seq::empty()
        };
        let tail = if rest.len() > 0 {
            seq![plain(rest)]
        } else {
            Seq::empty()
        };
        head + seq![SpanView { text: seq![raw[col]], highlighted: true }] + tail
    } else if raw.len() == 0 {
        seq![plain(seq![' '])]
    } else {
        seq![plain(raw)]
    }
}

/// The input as lines of spans with the cursor highlighted. An empty
/// input is one line holding a single space.
pub open spec fn cursor_lines(text: Seq<char>, cursor: int) -> Seq<Seq<SpanView>> {
    if text.len() == 0 {
        seq![seq![plain(seq![' '])]]
    } else {
        let pieces = split_newlines(text);
        Seq::new(pieces.len(), |i: int| line_spans(pieces[i], piece_offset(pieces, i), cursor))
    }
}

/// A plain span holding `chars[from..to]`.
fn plain_span(chars: &Vec<char>, from: usize, to: usize) -> (r: Span)
    requires
        from <= to <= chars.len(),
    ensures
        r@ == plain(chars@.subrange(from as int, to as int)),
{
    let piece = copy_range(chars, from, to);
    Span { text: string_of(&piece), highlighted: false }
}

/// A plain span holding a single space.
fn space_span() -> (r: Span)
    ensures
        r@ == plain(seq![' ']),
{
    let mut text = String::new();
    text.push(' ');
    assert(text@ =~= seq![' ']);
    Span { text, highlighted: false }
}

/// The spans of one input line with the cursor at column `col`.
fn spans_with_cursor(raw: &Vec<char>, col: usize) -> (r: Vec<Span>)
    requires
        col < raw.len(),
    ensures
        forall|offset: int| span_views(r@) == #[trigger] line_spans(raw@, offset, offset + col),
{
    let mut spans: Vec<Span> = Vec::new();
    if col > 0 {
        spans.push(plain_span(raw, 0, col));
    }
    let mut under = String::new();
    under.push(raw[col]);
    assert(under@ =~= seq![raw@[col as int]]);
    spans.push(Span { text: under, highlighted: true });
    if col + 1 < raw.len() {
        spans.push(plain_span(raw, col + 1, raw.len()));
    }
    proof {
        assert(raw@.subrange(0, col as int) =~= raw@.take(col as int));
        assert(raw@.subrange(col + 1, raw.len() as int) =~= raw@.skip(col + 1));
        assert forall|offset: int| span_views(spans@) == #[trigger] line_spans(
            raw@,
            offset,
            offset + col,
        ) by {
            assert(span_views(spans@) =~= line_spans(raw@, offset, offset + col));
        }
    }
    spans
}

/// The input as lines of spans with the cursor highlighted; the cursor
/// counts characters.
pub fn input_lines_with_cursor(text: &str, cursor: usize) -> (out: Vec<Vec<Span>>)
    ensures
        line_views(out@) == cursor_lines(text@, cursor as int),
{
    let chars = chars_of(text);
    if chars.len() == 0 {
        let mut line: Vec<Span> = Vec::new();
        line.push(space_span());
        let mut out: Vec<Vec<Span>> = Vec::new();
        out.push(line);
        assert(span_views(line@) =~= seq![plain(seq![' '])]);
        assert(line_views(out@) =~= cursor_lines(text@, cursor as int));
        return out;
    }
    let pieces = split_newline_chars(&chars);
    let ghost all = split_newlines(text@);
    let mut out: Vec<Vec<Span>> = Vec::new();
    let mut offset: u128 = 0;
    let mut i: usize = 0;
    while i < pieces.len()
        invariant
            i <= pieces.len(),
            out.len() == i,
            views(pieces@) == all,
            all == split_newlines(text@),
            offset == piece_offset(all, i as int),
            offset <= i * 0x1_0000_0000_0000_0000,
            forall|j: int|
                0 <= j < i ==> span_views((#[trigger] out@[j])@) == line_spans(
                    all[j],
                    piece_offset(all, j),
                    cursor as int,
                ),
        decreases pieces.len() - i,
    {
        let raw = &pieces[i];
        assert(all[i as int] == raw@);
        let len = raw.len();
        let at: u128 = cursor as u128;
        let line = if at >= offset && at - offset < len as u128 {
            let col: usize = (at - offset) as usize;
            let spans = spans_with_cursor(raw, col);
            assert(span_views(spans@) == line_spans(raw@, offset as int, offset as int + col));
            spans
        } else if len == 0 {
            let mut spans: Vec<Span> = Vec::new();
            spans.push(space_span());
            assert(span_views(spans@) =~= line_spans(raw@, offset as int, cursor as int));
            spans
        } else {
            let mut spans: Vec<Span> = Vec::new();
            spans.push(plain_span(raw, 0, len));
            assert(raw@.subrange(0, len as int) =~= raw@);
            assert(span_views(spans@) =~= line_spans(raw@, offset as int, cursor as int));
            spans
        };
        assert(span_views(line@) == line_spans(all[i as int], piece_offset(all, i as int), cursor as int));
        out.push(line);
        offset = offset + len as u128 + 1;
        i = i + 1;
    }
    assert(line_views(out@) =~= cursor_lines(text@, cursor as int));
    out
}

/// The areas of the tab bar: the main tab, the history tab, and what is
/// left of the bar.
pub open spec fn tab_layout(area: Rect) -> (Rect, Rect, Rect) {
    (
        Rect { x: area.x, y: area.y, width: 12, height: area.height },
        Rect { x: (area.x + 13) as u16, y: area.y, width: 12, height: area.height },
        Rect {
            x: (area.x + 26) as u16,
            y: area.y,
            width: if area.width >= 26 {
                (area.width - 26) as u16
            } else {
                0
            },
            height: area.height,
        },
    )
}

/// The areas of the tab bar within `area`.
pub fn tab_areas(area: Rect) -> (r: (Rect, Rect, Rect))
    requires
        area.x + 26 <= u16::MAX,
    ensures
        r == tab_layout(area),
{
    let rest: u16 = if area.width >= 26 {
        area.width - 26
    } else {
        0
    };
    (
        Rect { x: area.x, y: area.y, width: 12, height: area.height },
        Rect { x: area.x + 13, y: area.y, width: 12, height: area.height },
        Rect { x: area.x + 26, y: area.y, width: rest, height: area.height },
    )
}

/// The screen cell of the cursor in a bordered input box: the cell of the
/// cursor inside the border, held within it; none if the box has no
/// inside.
pub open spec fn cursor_on_screen(area: Rect, line: u16, col: u16) -> Option<(u16, u16)> {
    if area.width > 2 && area.height > 2 {
        let c = if col < area.width - 3 {
            col as int
        } else {
            area.width - 3
        };
        let l = if line < area.height - 3 {
            line as int
        } else {
            area.height - 3
        };
        Some(((area.x + 1 + c) as u16, (area.y + 1 + l) as u16))
    } else {
        None
    }
}

/// Where on the screen the cursor goes.
pub fn cursor_cell(area: Rect, line: u16, col: u16) -> (r: Option<(u16, u16)>)
    requires
        area.x + area.width <= u16::MAX,
        area.y + area.height <= u16::MAX,
    ensures
        r == cursor_on_screen(area, line, col),
{
    if area.width > 2 && area.height > 2 {
        let inner_width: u16 = area.width - 2;
        let inner_height: u16 = area.height - 2;
        let c: u16 = if col < inner_width - 1 {
            col
        } else {
            inner_width - 1
        };
        let l: u16 = if line < inner_height - 1 {
            line
        } else {
            inner_height - 1
        };
        Some((area.x + 1 + c, area.y + 1 + l))
    } else {
        None
    }
}

/// A pane: its title and the lines it shows.
#[derive(Debug)]
pub struct Pane {
    pub title: String,
    pub lines: Vec<String>,
}

/// What a [`Pane`] stands for.
pub struct PaneView {
    pub title: Seq<char>,
    pub lines: Seq<Seq<char>>,
}

impl View for Pane {
    type V = PaneView;

    open spec fn view(&self) -> PaneView {
        PaneView { title: self.title@, lines: texts(self.lines@) }
    }
}

/// The lines of a pane: `lines`, or the placeholder if there are none.
pub open spec fn lines_or(lines: Seq<Seq<char>>, placeholder: Seq<char>) -> Seq<Seq<char>> {
    if lines.len() == 0 {
        seq![placeholder]
    } else {
        lines
    }
}

/// The output pane of the history tab: the output of the selected entry
/// under a title that names its command; a placeholder where the history
/// is empty, the selection points at nothing, or the entry printed nothing.
pub open spec fn history_pane_of(history: Seq<HistoryEntry>, selected: int) -> PaneView {
    if history.len() == 0 {
        PaneView { title: "Output"@, lines: seq!["(no history yet)"@] }
    } else if 0 <= selected < history.len() {
        PaneView {
            title: "Output \u{2014} "@ + history[selected].cmd@,
            lines: lines_or(texts(history[selected].output_lines@), "(no output)"@),
        }
    } else {
        PaneView { title: "Output"@, lines: seq!["(select a command)"@] }
    }
}

/// The output pane of the main tab: what the last command printed, under
/// a title that names the command and says whether it is still running.
pub open spec fn output_pane_of(
    last_run_cmd: Option<String>,
    is_running: bool,
    output_lines: Seq<String>,
) -> PaneView {
    PaneView {
        title: match last_run_cmd {
            Some(cmd) => "output \u{2014} "@ + cmd@ + if is_running {
                " (running)"@
            } else {
                Seq::empty()
            },
            None => "output"@,
        },
        lines: lines_or(texts(output_lines), "(no output yet)"@),
    }
}

/// A copy of `lines`, or the placeholder alone if there are none.
fn copy_lines_or(lines: &Vec<String>, placeholder: &str) -> (out: Vec<String>)
    ensures
        texts(out@) == lines_or(texts(lines@), placeholder@),
{
    if lines.len() == 0 {
        let mut out: Vec<String> = Vec::new();
        out.push(placeholder.to_owned());
        assert(texts(out@) =~= seq![placeholder@]);
        out
    } else {
        copy_lines(lines)
    }
}

/// The output pane of the history tab.
pub fn history_pane(history: &Vec<HistoryEntry>, selected: usize) -> (pane: Pane)
    ensures
        pane@ == history_pane_of(history@, selected as int),
{
    if history.len() == 0 {
        let lines = copy_lines_or(&Vec::new(), "(no history yet)");
        Pane { title: "Output".to_owned(), lines }
    } else if selected < history.len() {
        let entry = &history[selected];
        let mut title = String::from_str("Output \u{2014} ");
        title.append(entry.cmd.as_str());
        Pane { title, lines: copy_lines_or(&entry.output_lines, "(no output)") }
    } else {
        let lines = copy_lines_or(&Vec::new(), "(select a command)");
        Pane { title: "Output".to_owned(), lines }
    }
}

/// The output pane of the main tab.
pub fn output_pane(last_run_cmd: &Option<String>, is_running: bool, output_lines: &Vec<String>) -> (pane:
    Pane)
    ensures
        pane@ == output_pane_of(*last_run_cmd, is_running, output_lines@),
{
    let title = match last_run_cmd {
        Some(cmd) => {
            let mut title = String::from_str("output \u{2014} ");
            title.append(cmd.as_str());
            if is_running {
                title.append(" (running)");
            } else {
                assert(title@ + Seq::<char>::empty() =~= title@);
            }
            title
        },
        None => "output".to_owned(),
    };
    Pane { title, lines: copy_lines_or(output_lines, "(no output yet)") }
}

/// One row of a list: the lines it is shown in and whether it is the
/// selected one.
#[derive(Debug)]
pub struct Row {
    pub lines: Vec<String>,
    pub selected: bool,
}

/// What a [`Row`] stands for.
pub struct RowView {
    pub lines: Seq<Seq<char>>,
    pub selected: bool,
}

impl View for Row {
    type V = RowView;

    open spec fn view(&self) -> RowView {
        RowView { lines: texts(self.lines@), selected: self.selected }
    }
}

/// The views of a list of rows.
pub open spec fn row_views(rows: Seq<Row>) -> Seq<RowView> {
    Seq::new(rows.len(), |i: int| rows[i]@)
}

/// The rows of the suggestion list: one per suggestion, in order, the
/// selected one marked.
pub open spec fn suggestion_rows_of(suggestions: Seq<Seq<char>>, selected: int) -> Seq<RowView> {
    Seq::new(
        suggestions.len(),
        |i: int| RowView { lines: display_lines(normalized(suggestions[i])), selected: i == selected },
    )
}

/// The rows of the history list: one per entry, the latest first, the
/// selected one marked.
pub open spec fn history_rows_of(history: Seq<HistoryEntry>, selected: int) -> Seq<RowView> {
    Seq::new(
        history.len(),
        |i: int|
            RowView {
                lines: display_lines(normalized(history[history.len() - 1 - i].cmd@)),
                selected: history.len() - 1 - i == selected,
            },
    )
}

/// The rows of the suggestion list.
pub fn suggestion_rows(suggestions: &Vec<String>, selected: usize) -> (rows: Vec<Row>)
    ensures
        row_views(rows@) == suggestion_rows_of(texts(suggestions@), selected as int),
{
    let mut rows: Vec<Row> = Vec::new();
    let mut i: usize = 0;
    while i < suggestions.len()
        invariant
            i <= suggestions.len(),
            rows.len() == i,
            forall|j: int|
                0 <= j < i ==> (#[trigger] rows@[j])@ == suggestion_rows_of(
                    texts(suggestions@),
                    selected as int,
                )[j],
        decreases suggestions.len() - i,
    {
        let lines = format_command_lines_for_display(suggestions[i].as_str());
        rows.push(Row { lines, selected: i == selected });
        i = i + 1;
    }
    assert(row_views(rows@) =~= suggestion_rows_of(texts(suggestions@), selected as int));
    rows
}

/// The rows of the history list.
pub fn history_rows(history: &Vec<HistoryEntry>, selected: usize) -> (rows: Vec<Row>)
    ensures
        row_views(rows@) == history_rows_of(history@, selected as int),
{
    let n = history.len();
    let mut rows: Vec<Row> = Vec::new();
    let mut i: usize = 0;
    while i < n
        invariant
            i <= n == history.len(),
            rows.len() == i,
            forall|j: int|
                0 <= j < i ==> (#[trigger] rows@[j])@ == history_rows_of(
                    history@,
                    selected as int,
                )[j],
        decreases n - i,
    {
        let at: usize = n - 1 - i;
        let lines = format_command_lines_for_display(history[at].cmd.as_str());
        rows.push(Row { lines, selected: at == selected });
        i = i + 1;
    }
    assert(row_views(rows@) =~= history_rows_of(history@, selected as int));
    rows
}

} // verus!
