//! The text/cursor model: an editable multi-line buffer with a cursor, an
//! optional selection, a wrap policy and a line scroll offset.
//!
//! Lines hold Unicode scalar values; a buffer always has at least one line,
//! and "empty" means exactly one line with no characters. Every mutating
//! primitive records the edits it makes, so that a change bracket
//! ([`TextInputBuffer::start_change`] / [`TextInputBuffer::finish_change`])
//! around one logical action yields a reversible [`Change`].
use vstd::prelude::*;

use crate::changes::Change;
use crate::changes::ChangeLog;
use crate::changes::EditItem;
use crate::changes::apply_item;
use crate::changes::apply_items;
use crate::changes::invert_items;
use crate::changes::item_valid;
use crate::changes::items_valid;
use crate::changes::lemma_change_round_trip;
use crate::changes::lemma_items_snoc;
use crate::Wrap;

verus! {

/// A position in a buffer: a line number and a character offset in the line.
#[derive(Copy, Clone, Debug, PartialEq, Eq, Structural)]
pub struct Cursor {
    pub line: usize,
    pub index: usize,
}

/// Whether `c` lies inside `lines` (the offset may equal the line length).
pub open spec fn cursor_valid(lines: Seq<Seq<char>>, c: Cursor) -> bool {
    c.line < lines.len() && c.index <= lines[c.line as int].len()
}

/// `a` is at or before `b` in reading order.
pub open spec fn cursor_le(a: Cursor, b: Cursor) -> bool {
    a.line < b.line || (a.line == b.line && a.index <= b.index)
}

/// The text of `lines` joined with newline characters.
pub open spec fn text_of(lines: Seq<Seq<char>>) -> Seq<char>
    decreases lines.len(),
{
    if lines.len() == 0 {
        Seq::empty()
    } else if lines.len() == 1 {
        lines[0]
    } else {
        text_of(lines.drop_last()) + seq!['\n'] + lines.last()
    }
}

/// The number of characters across all lines, newlines not counted.
pub open spec fn char_count(lines: Seq<Seq<char>>) -> nat
    decreases lines.len(),
{
    if lines.len() == 0 {
        0
    } else {
        char_count(lines.drop_last()) + lines.last().len()
    }
}

/// The edit recorded for inserting `ch` at `cur`: a newline splits the line,
/// any other character is inserted into it.
pub open spec fn insert_item(cur: Cursor, ch: char) -> EditItem {
    if ch == '\n' {
        EditItem::SplitLine { line: cur.line, index: cur.index }
    } else {
        EditItem::InsertChar { line: cur.line, index: cur.index, ch }
    }
}

/// Where the cursor stands after inserting `ch` at `cur`.
pub open spec fn cursor_after_insert(cur: Cursor, ch: char) -> Cursor {
    if ch == '\n' {
        Cursor { line: (cur.line + 1) as usize, index: 0 }
    } else {
        Cursor { line: cur.line, index: (cur.index + 1) as usize }
    }
}

/// `lines` with the range from `s` to `e` removed (both cursors valid,
/// `s` at or before `e`): what remains of the start line up to `s`, joined
/// with what remains of the end line from `e` on.
pub open spec fn remove_range(lines: Seq<Seq<char>>, s: Cursor, e: Cursor) -> Seq<Seq<char>> {
    lines.take(s.line as int) + seq![
        lines[s.line as int].take(s.index as int) + lines[e.line as int].skip(e.index as int),
    ] + lines.skip(e.line + 1)
}


/// A directional cursor-movement primitive. Vertical and page motions move
/// over logical lines; a buffer line is a paragraph (visual wrapping is the
/// layout collaborator's concern).
#[derive(Copy, Clone, Debug, PartialEq, Eq, Structural)]
pub enum Motion {
    /// One character left, crossing to the previous line end.
    Left,
    /// One character right, crossing to the next line start.
    Right,
    /// One line up, keeping the offset where possible.
    Up,
    /// One line down, keeping the offset where possible.
    Down,
    /// Start of the current line.
    Home,
    /// End of the current line.
    End,
    /// One page of visible lines up.
    PageUp,
    /// One page of visible lines down.
    PageDown,
    /// Start of the buffer.
    BufferStart,
    /// End of the buffer.
    BufferEnd,
    /// Back to the start of the previous word.
    PreviousWord,
    /// Forward to the end of the next word.
    NextWord,
    /// Back to the start of the word, as the left edge of a word selection.
    LeftWord,
    /// Forward to the end of the word, as the right edge of a word selection.
    RightWord,
    /// Start of the current paragraph (the current line).
    ParagraphStart,
    /// End of the current paragraph (the current line).
    ParagraphEnd,
}

/// Whether `c` separates words.
pub open spec fn is_word_space(c: char) -> bool {
    c == ' ' || c == '\t'
}

/// The position at or before `i` with no word spaces just before it.
pub open spec fn scan_space_back(s: Seq<char>, i: int) -> int
    decreases i,
{
    if i > 0 && is_word_space(s[i - 1]) {
        scan_space_back(s, i - 1)
    } else {
        i
    }
}

/// The position at or before `i` with no word characters just before it.
pub open spec fn scan_word_back(s: Seq<char>, i: int) -> int
    decreases i,
{
    if i > 0 && !is_word_space(s[i - 1]) {
        scan_word_back(s, i - 1)
    } else {
        i
    }
}

/// The position at or after `i` with no word spaces just after it.
pub open spec fn scan_space_fwd(s: Seq<char>, i: int) -> int
    decreases s.len() - i,
{
    if 0 <= i < s.len() && is_word_space(s[i]) {
        scan_space_fwd(s, i + 1)
    } else {
        i
    }
}

/// The position at or after `i` with no word characters just after it.
pub open spec fn scan_word_fwd(s: Seq<char>, i: int) -> int
    decreases s.len() - i,
{
    if 0 <= i < s.len() && !is_word_space(s[i]) {
        scan_word_fwd(s, i + 1)
    } else {
        i
    }
}

/// Where a motion takes the cursor in a buffer of the given lines, when one
/// page is `visible` lines tall.
pub open spec fn motion_target(
    lines: Seq<Seq<char>>,
    visible: int,
    cur: Cursor,
    m: Motion,
) -> Cursor {
    let line_len = lines[cur.line as int].len() as int;
    let last = (lines.len() - 1) as int;
    match m {
        Motion::Left => {
            if cur.index > 0 {
                Cursor { line: cur.line, index: (cur.index - 1) as usize }
            } else if cur.line > 0 {
                Cursor {
                    line: (cur.line - 1) as usize,
                    index: lines[cur.line - 1].len() as usize,
                }
            } else {
                cur
            }
        }
        Motion::Right => {
            if cur.index < line_len {
                Cursor { line: cur.line, index: (cur.index + 1) as usize }
            } else if cur.line < last {
                Cursor { line: (cur.line + 1) as usize, index: 0 }
            } else {
                cur
            }
        }
        Motion::Up => {
            if cur.line > 0 {
                let target_len = lines[cur.line - 1].len() as int;
                Cursor {
                    line: (cur.line - 1) as usize,
                    index: (if cur.index <= target_len {
                        cur.index as int
                    } else {
                        target_len
                    }) as usize,
                }
            } else {
                cur
            }
        }
        Motion::Down => {
            if cur.line < last {
                let target_len = lines[cur.line + 1].len() as int;
                Cursor {
                    line: (cur.line + 1) as usize,
                    index: (if cur.index <= target_len {
                        cur.index as int
                    } else {
                        target_len
                    }) as usize,
                }
            } else {
                cur
            }
        }
        Motion::Home => Cursor { line: cur.line, index: 0 },
        Motion::End => Cursor { line: cur.line, index: line_len as usize },
        Motion::PageUp => {
            let target = if cur.line >= visible {
                cur.line - visible
            } else {
                0
            };
            let target_len = lines[target].len() as int;
            Cursor {
                line: target as usize,
                index: (if cur.index <= target_len {
                    cur.index as int
                } else {
                    target_len
                }) as usize,
            }
        }
        Motion::PageDown => {
            let target = if cur.line + visible <= last {
                cur.line + visible
            } else {
                last
            };
            let target_len = lines[target].len() as int;
            Cursor {
                line: target as usize,
                index: (if cur.index <= target_len {
                    cur.index as int
                } else {
                    target_len
                }) as usize,
            }
        }
        Motion::BufferStart => Cursor { line: 0, index: 0 },
        Motion::BufferEnd => Cursor { line: last as usize, index: lines[last].len() as usize },
        Motion::PreviousWord | Motion::LeftWord => {
            if cur.index > 0 {
                let s = lines[cur.line as int];
                Cursor {
                    line: cur.line,
                    index: scan_word_back(s, scan_space_back(s, cur.index as int)) as usize,
                }
            } else if cur.line > 0 {
                Cursor {
                    line: (cur.line - 1) as usize,
                    index: lines[cur.line - 1].len() as usize,
                }
            } else {
                cur
            }
        }
        Motion::NextWord | Motion::RightWord => {
            if cur.index < line_len {
                let s = lines[cur.line as int];
                Cursor {
                    line: cur.line,
                    index: scan_word_fwd(s, scan_space_fwd(s, cur.index as int)) as usize,
                }
            } else if cur.line < last {
                Cursor { line: (cur.line + 1) as usize, index: 0 }
            } else {
                cur
            }
        }
        Motion::ParagraphStart => Cursor { line: cur.line, index: 0 },
        Motion::ParagraphEnd => Cursor { line: cur.line, index: line_len as usize },
    }
}

/// Whether `c` separates words, as a value.
fn is_space_char(c: char) -> (r: bool)
    ensures
        r == is_word_space(c),
{
    c == ' ' || c == '\t'
}


/// The lines and cursor after typing `text` at `cur`, character by
/// character, newlines splitting lines.
pub open spec fn insert_text_state(
    lines: Seq<Seq<char>>,
    cur: Cursor,
    text: Seq<char>,
) -> (Seq<Seq<char>>, Cursor)
    decreases text.len(),
{
    if text.len() == 0 {
        (lines, cur)
    } else {
        insert_text_state(
            apply_item(lines, insert_item(cur, text[0])),
            cursor_after_insert(cur, text[0]),
            text.drop_first(),
        )
    }
}

/// Typing one more character continues the fold from the state reached so
/// far.
pub proof fn lemma_insert_text_snoc(lines: Seq<Seq<char>>, cur: Cursor, text: Seq<char>, c: char)
    ensures
        insert_text_state(lines, cur, text.push(c)) == ({
            let (l1, c1) = insert_text_state(lines, cur, text);
            (apply_item(l1, insert_item(c1, c)), cursor_after_insert(c1, c))
        }),
    decreases text.len(),
{
    let pushed = text.push(c);
    if text.len() == 0 {
        assert(pushed[0] == c);
        assert(pushed.drop_first() =~= Seq::<char>::empty());
        let l1 = apply_item(lines, insert_item(cur, c));
        let c1 = cursor_after_insert(cur, c);
        assert(insert_text_state(l1, c1, Seq::<char>::empty()) == (l1, c1));
        assert(insert_text_state(lines, cur, pushed) == (l1, c1));
        assert(insert_text_state(lines, cur, text) == (lines, cur));
    } else {
        assert(pushed[0] == text[0]);
        assert(pushed.drop_first() =~= text.drop_first().push(c));
        lemma_insert_text_snoc(
            apply_item(lines, insert_item(cur, text[0])),
            cursor_after_insert(cur, text[0]),
            text.drop_first(),
            c,
        );
    }
}


/// `lines` with a tab prepended to each line from `lo` through `hi`.
pub open spec fn indented(lines: Seq<Seq<char>>, lo: int, hi: int) -> Seq<Seq<char>> {
    Seq::new(
        lines.len(),
        |i: int|
            if lo <= i <= hi {
                seq!['\t'] + lines[i]
            } else {
                lines[i]
            },
    )
}

/// `lines` with one leading tab removed from each line from `lo` through
/// `hi` that has one.
pub open spec fn unindented(lines: Seq<Seq<char>>, lo: int, hi: int) -> Seq<Seq<char>> {
    Seq::new(
        lines.len(),
        |i: int|
            if lo <= i <= hi && lines[i].len() > 0 && lines[i][0] == '\t' {
                lines[i].drop_first()
            } else {
                lines[i]
            },
    )
}


/// The lines of the range from `s` to `e`, as their own line buffer.
pub open spec fn range_lines(lines: Seq<Seq<char>>, s: Cursor, e: Cursor) -> Seq<Seq<char>> {
    if s.line == e.line {
        seq![lines[s.line as int].subrange(s.index as int, e.index as int)]
    } else {
        seq![lines[s.line as int].skip(s.index as int)] + lines.subrange(s.line + 1, e.line as int)
            + seq![lines[e.line as int].take(e.index as int)]
    }
}

/// The text of the range from `s` to `e`: the selected lines joined with
/// newlines.
pub open spec fn range_text(lines: Seq<Seq<char>>, s: Cursor, e: Cursor) -> Seq<char> {
    text_of(range_lines(lines, s, e))
}

/// The editable buffer of one text-input widget, together with its change
/// log. The host's layout collaborator reads the lines, cursor, selection
/// and scroll offset back out of it after each processing tick.
pub struct TextInputBuffer {
    /// The lines of text, each a vector of Unicode scalar values.
    pub lines: Vec<Vec<char>>,
    /// The cursor position.
    pub cursor: Cursor,
    /// Where the active selection was anchored, if one is active.
    pub selection_anchor: Option<Cursor>,
    /// The wrap policy the buffer was last laid out with.
    pub wrap: Wrap,
    /// The first visible line (vertical scroll offset).
    pub scroll_line: usize,
    /// How many lines the host shows at once; page motions move this far.
    pub visible_lines: usize,
    /// The edits recorded since the current change bracket opened.
    pub pending: Vec<EditItem>,
    /// The lines as they were when the current change bracket opened.
    pub change_base: Ghost<Seq<Seq<char>>>,
    /// The undo and redo stacks of this widget.
    pub changes: ChangeLog,
}

impl TextInputBuffer {
    /// The lines as a sequence of character sequences.
    pub open spec fn spec_lines(&self) -> Seq<Seq<char>> {
        Seq::new(self.lines@.len(), |i: int| self.lines@[i]@)
    }

    pub open spec fn spec_cursor(&self) -> Cursor {
        self.cursor
    }

    pub open spec fn spec_anchor(&self) -> Option<Cursor> {
        self.selection_anchor
    }

    pub open spec fn spec_wrap(&self) -> Wrap {
        self.wrap
    }

    pub open spec fn spec_scroll(&self) -> int {
        self.scroll_line as int
    }

    pub open spec fn spec_visible_lines(&self) -> int {
        self.visible_lines as int
    }

    /// The edits recorded since the last change bracket opened.
    pub open spec fn spec_pending(&self) -> Seq<EditItem> {
        self.pending@
    }

    /// The lines as they were when the current change bracket opened.
    pub open spec fn spec_base(&self) -> Seq<Seq<char>> {
        self.change_base@
    }

    /// The buffer's text: all lines joined with newlines.
    pub open spec fn spec_text(&self) -> Seq<char> {
        text_of(self.spec_lines())
    }

    /// The recorded pending edits replay the way from the bracket's base
    /// lines to the current lines.
    pub open spec fn record_ok(&self) -> bool {
        &&& items_valid(self.change_base@, self.pending@)
        &&& apply_items(self.change_base@, self.pending@) == self.spec_lines()
    }

    /// Cursor and selection positions lie inside the buffer.
    pub open spec fn positions_ok(&self) -> bool {
        &&& self.spec_lines().len() >= 1
        &&& cursor_valid(self.spec_lines(), self.cursor)
        &&& match self.selection_anchor {
            Some(a) => cursor_valid(self.spec_lines(), a),
            None => true,
        }
    }

    /// The buffer's invariant: constructors establish it and every public
    /// operation preserves it.
    pub open spec fn wf(&self) -> bool {
        self.record_ok() && self.positions_ok()
    }

    /// Everything but the text, cursor, selection and pending record is
    /// unchanged between `self` and `other`.
    pub open spec fn same_surroundings(&self, other: &Self) -> bool {
        &&& self.wrap == other.wrap
        &&& self.scroll_line == other.scroll_line
        &&& self.visible_lines == other.visible_lines
        &&& self.changes.undo_view() == other.changes.undo_view()
        &&& self.changes.redo_view() == other.changes.redo_view()
        &&& self.change_base@ == other.change_base@
    }

    /// An empty buffer: one empty line, cursor at its start, no selection.
    pub fn new() -> (r: TextInputBuffer)
        ensures
            r.wf(),
            r.spec_lines() == seq![Seq::<char>::empty()],
            r.spec_cursor() == (Cursor { line: 0, index: 0 }),
            r.spec_anchor() is None,
            r.spec_wrap() == Wrap::WordOrGlyph,
            r.spec_scroll() == 0,
            r.spec_pending().len() == 0,
            r.changes.undo_view().len() == 0,
            r.changes.redo_view().len() == 0,
    {
        let ghost base: Seq<Seq<char>> = seq![Seq::<char>::empty()];
        let mut lines: Vec<Vec<char>> = Vec::new();
        lines.push(Vec::new());
        let r = TextInputBuffer {
            lines,
            cursor: Cursor { line: 0, index: 0 },
            selection_anchor: None,
            wrap: Wrap::WordOrGlyph,
            scroll_line: 0,
            visible_lines: 1,
            pending: Vec::new(),
            change_base: Ghost(base),
            changes: ChangeLog::new(),
        };
        proof {
            assert(r.spec_lines() =~~= seq![Seq::<char>::empty()]);
        }
        r
    }

    /// The number of lines.
    pub fn line_count(&self) -> (r: usize)
        ensures
            r == self.spec_lines().len(),
    {
        self.lines.len()
    }

    /// The length of line `l` in characters.
    pub fn line_len(&self, l: usize) -> (r: usize)
        requires
            l < self.spec_lines().len(),
        ensures
            r == self.spec_lines()[l as int].len(),
    {
        self.lines[l].len()
    }

    /// The cursor position.
    pub fn cursor(&self) -> (r: Cursor)
        ensures
            r == self.spec_cursor(),
    {
        self.cursor
    }

    /// The selection anchor, if a selection is active.
    pub fn selection_anchor(&self) -> (r: Option<Cursor>)
        ensures
            r == self.spec_anchor(),
    {
        self.selection_anchor
    }

    /// The current wrap policy.
    pub fn wrap(&self) -> (r: Wrap)
        ensures
            r == self.spec_wrap(),
    {
        self.wrap
    }

    /// True when the buffer is one single empty line.
    pub fn is_empty(&self) -> (r: bool)
        requires
            self.wf(),
        ensures
            r == (self.spec_lines().len() == 1 && self.spec_lines()[0].len() == 0),
    {
        self.lines.len() == 1 && self.lines[0].len() == 0
    }

    /// True when the cursor stands at the end of its line.
    pub fn cursor_at_line_end(&self) -> (r: bool)
        requires
            self.wf(),
        ensures
            r == (self.spec_cursor().index
                == self.spec_lines()[self.spec_cursor().line as int].len()),
    {
        self.cursor.index == self.lines[self.cursor.line].len()
    }

    /// True when the cursor stands at the very end of the buffer.
    pub fn cursor_at_buffer_end(&self) -> (r: bool)
        requires
            self.wf(),
        ensures
            r == (self.spec_cursor().line == self.spec_lines().len() - 1
                && self.spec_cursor().index
                == self.spec_lines()[self.spec_cursor().line as int].len()),
    {
        let last_line = self.cursor.line == self.lines.len() - 1;
        last_line && self.cursor.index == self.lines[self.cursor.line].len()
    }

    /// Opens a change bracket: edits recorded from here on belong to one
    /// logical action.
    pub fn start_change(&mut self)
        requires
            old(self).wf(),
        ensures
            final(self).wf(),
            final(self).spec_pending().len() == 0,
            final(self).spec_base() == final(self).spec_lines(),
            final(self).spec_lines() == old(self).spec_lines(),
            final(self).spec_cursor() == old(self).spec_cursor(),
            final(self).spec_anchor() == old(self).spec_anchor(),
            final(self).wrap == old(self).wrap,
            final(self).scroll_line == old(self).scroll_line,
            final(self).visible_lines == old(self).visible_lines,
            final(self).changes.undo_view() == old(self).changes.undo_view(),
            final(self).changes.redo_view() == old(self).changes.redo_view(),
    {
        self.pending = Vec::new();
        proof {
            self.change_base@ = self.spec_lines();
        }
    }

    /// Closes the change bracket. Returns the recorded change when any edit
    /// was made, and `None` for a no-op action.
    pub fn finish_change(&mut self) -> (r: Option<Change>)
        requires
            old(self).wf(),
        ensures
            final(self).wf(),
            final(self).spec_pending().len() == 0,
            final(self).spec_base() == final(self).spec_lines(),
            final(self).spec_lines() == old(self).spec_lines(),
            final(self).spec_cursor() == old(self).spec_cursor(),
            final(self).spec_anchor() == old(self).spec_anchor(),
            final(self).wrap == old(self).wrap,
            final(self).scroll_line == old(self).scroll_line,
            final(self).visible_lines == old(self).visible_lines,
            final(self).changes.undo_view() == old(self).changes.undo_view(),
            final(self).changes.redo_view() == old(self).changes.redo_view(),
            old(self).spec_pending().len() == 0 ==> r is None,
            old(self).spec_pending().len() > 0 ==> {
                &&& r matches Some(c)
                &&& c.items@ == old(self).spec_pending()
                &&& items_valid(old(self).spec_base(), c.items@)
                &&& apply_items(old(self).spec_base(), c.items@) == old(self).spec_lines()
            },
    {
        if self.pending.len() == 0 {
            proof {
                self.change_base@ = self.spec_lines();
            }
            None
        } else {
            let mut items: Vec<EditItem> = Vec::new();
            std::mem::swap(&mut items, &mut self.pending);
            proof {
                self.change_base@ = self.spec_lines();
            }
            Some(Change { items })
        }
    }

    /// Replaces line `l` with `line`, without recording anything.
    fn set_line(&mut self, l: usize, line: Vec<char>)
        requires
            l < old(self).spec_lines().len(),
        ensures
            final(self).spec_lines() == old(self).spec_lines().update(l as int, line@),
            final(self).cursor == old(self).cursor,
            final(self).selection_anchor == old(self).selection_anchor,
            final(self).pending@ == old(self).pending@,
            final(self).change_base@ == old(self).change_base@,
            final(self).same_surroundings(old(self)),
    {
        let _ = self.lines.remove(l);
        self.lines.insert(l, line);
        proof {
            assert(self.spec_lines() =~~= old(self).spec_lines().update(l as int, line@));
        }
    }

    /// Appends one edit to the pending record.
    fn record(&mut self, it: EditItem)
        ensures
            final(self).pending@ == old(self).pending@.push(it),
            final(self).pending@.len() == old(self).pending@.len() + 1,
            final(self).lines == old(self).lines,
            final(self).cursor == old(self).cursor,
            final(self).selection_anchor == old(self).selection_anchor,
            final(self).wrap == old(self).wrap,
            final(self).scroll_line == old(self).scroll_line,
            final(self).visible_lines == old(self).visible_lines,
            final(self).change_base == old(self).change_base,
            final(self).changes.undo_view() == old(self).changes.undo_view(),
            final(self).changes.redo_view() == old(self).changes.redo_view(),
    {
        self.pending.push(it);
    }

    /// Inserts `ch` into line `l` at offset `i` and records the edit.
    fn prim_insert_char(&mut self, l: usize, i: usize, ch: char)
        requires
            old(self).record_ok(),
            l < old(self).spec_lines().len(),
            i <= old(self).spec_lines()[l as int].len(),
        ensures
            final(self).record_ok(),
            final(self).spec_lines() == apply_item(
                old(self).spec_lines(),
                EditItem::InsertChar { line: l, index: i, ch },
            ),
            final(self).pending@ == old(self).pending@.push(
                EditItem::InsertChar { line: l, index: i, ch },
            ),
            final(self).pending@.len() == old(self).pending@.len() + 1,
            final(self).cursor == old(self).cursor,
            final(self).selection_anchor == old(self).selection_anchor,
            final(self).same_surroundings(old(self)),
    {
        let ghost it = EditItem::InsertChar { line: l, index: i, ch };
        let mut line = self.lines.remove(l);
        line.insert(i, ch);
        self.lines.insert(l, line);
        self.record(EditItem::InsertChar { line: l, index: i, ch });
        proof {
            assert(self.spec_lines() =~~= apply_item(old(self).spec_lines(), it));
            lemma_items_snoc(self.change_base@, old(self).pending@, it);
        }
    }

    /// Removes the character of line `l` at offset `i` and records the edit.
    fn prim_delete_char(&mut self, l: usize, i: usize)
        requires
            old(self).record_ok(),
            l < old(self).spec_lines().len(),
            i < old(self).spec_lines()[l as int].len(),
        ensures
            final(self).record_ok(),
            final(self).spec_lines() == apply_item(
                old(self).spec_lines(),
                EditItem::DeleteChar {
                    line: l,
                    index: i,
                    ch: old(self).spec_lines()[l as int][i as int],
                },
            ),
            final(self).pending@ == old(self).pending@.push(
                EditItem::DeleteChar {
                    line: l,
                    index: i,
                    ch: old(self).spec_lines()[l as int][i as int],
                },
            ),
            final(self).pending@.len() == old(self).pending@.len() + 1,
            final(self).cursor == old(self).cursor,
            final(self).selection_anchor == old(self).selection_anchor,
            final(self).same_surroundings(old(self)),
    {
        let mut line = self.lines.remove(l);
        let ch = line.remove(i);
        self.lines.insert(l, line);
        let ghost it = EditItem::DeleteChar { line: l, index: i, ch };
        self.record(EditItem::DeleteChar { line: l, index: i, ch });
        proof {
            assert(self.spec_lines() =~~= apply_item(old(self).spec_lines(), it));
            lemma_items_snoc(self.change_base@, old(self).pending@, it);
        }
    }

    /// Splits line `l` at offset `i` into two lines and records the edit.
    fn prim_split_line(&mut self, l: usize, i: usize)
        requires
            old(self).record_ok(),
            l < old(self).spec_lines().len(),
            i <= old(self).spec_lines()[l as int].len(),
        ensures
            final(self).record_ok(),
            final(self).spec_lines() == apply_item(
                old(self).spec_lines(),
                EditItem::SplitLine { line: l, index: i },
            ),
            final(self).pending@ == old(self).pending@.push(
                EditItem::SplitLine { line: l, index: i },
            ),
            final(self).pending@.len() == old(self).pending@.len() + 1,
            final(self).cursor == old(self).cursor,
            final(self).selection_anchor == old(self).selection_anchor,
            final(self).same_surroundings(old(self)),
    {
        let ghost it = EditItem::SplitLine { line: l, index: i };
        let mut line = self.lines.remove(l);
        let rest = line.split_off(i);
        self.lines.insert(l, rest);
        self.lines.insert(l, line);
        self.record(EditItem::SplitLine { line: l, index: i });
        proof {
            assert(self.spec_lines() =~~= apply_item(old(self).spec_lines(), it));
            lemma_items_snoc(self.change_base@, old(self).pending@, it);
        }
    }

    /// Joins line `l + 1` onto the end of line `l` and records the edit.
    fn prim_join_lines(&mut self, l: usize)
        requires
            old(self).record_ok(),
            l + 1 < old(self).spec_lines().len(),
        ensures
            final(self).record_ok(),
            final(self).spec_lines() == apply_item(
                old(self).spec_lines(),
                EditItem::JoinLines { line: l, index: old(self).spec_lines()[l as int].len() as usize },
            ),
            final(self).pending@ == old(self).pending@.push(
                EditItem::JoinLines { line: l, index: old(self).spec_lines()[l as int].len() as usize },
            ),
            final(self).pending@.len() == old(self).pending@.len() + 1,
            final(self).cursor == old(self).cursor,
            final(self).selection_anchor == old(self).selection_anchor,
            final(self).same_surroundings(old(self)),
    {
        let mut line = self.lines.remove(l);
        let mut next = self.lines.remove(l);
        let i = line.len();
        line.append(&mut next);
        self.lines.insert(l, line);
        let ghost it = EditItem::JoinLines { line: l, index: i };
        self.record(EditItem::JoinLines { line: l, index: i });
        proof {
            assert(self.spec_lines() =~~= apply_item(old(self).spec_lines(), it));
            lemma_items_snoc(self.change_base@, old(self).pending@, it);
        }
    }

    /// Inserts `ch` at the cursor and advances the cursor past it. A newline
    /// splits the current line. The selection is not touched.
    pub fn insert_char(&mut self, ch: char)
        requires
            old(self).wf(),
            ch == '\n' ==> old(self).spec_anchor() is None,
        ensures
            final(self).wf(),
            final(self).spec_lines() == apply_item(
                old(self).spec_lines(),
                insert_item(old(self).spec_cursor(), ch),
            ),
            final(self).spec_cursor() == cursor_after_insert(old(self).spec_cursor(), ch),
            final(self).spec_anchor() == old(self).spec_anchor(),
            final(self).spec_pending() == old(self).spec_pending().push(
                insert_item(old(self).spec_cursor(), ch),
            ),
            final(self).same_surroundings(old(self)),
    {
        let Cursor { line, index } = self.cursor;
        if ch == '\n' {
            self.prim_split_line(line, index);
            let n = self.lines.len();
            proof {
                assert(self.spec_lines().len() == old(self).spec_lines().len() + 1);
                assert(line + 1 < n);
            }
            self.cursor = Cursor { line: line + 1, index: 0 };
            proof {
                assert(cursor_valid(self.spec_lines(), self.cursor));
            }
        } else {
            self.prim_insert_char(line, index, ch);
            let ll = self.line_len(line);
            proof {
                assert(self.spec_lines()[line as int].len() == old(self).spec_lines()[
                    line as int].len() + 1);
                assert(index + 1 <= ll);
            }
            self.cursor = Cursor { line, index: index + 1 };
            proof {
                assert(cursor_valid(self.spec_lines(), self.cursor));
                match self.selection_anchor {
                    Some(a) => {
                        assert(cursor_valid(self.spec_lines(), a));
                    }
                    None => {}
                }
            }
        }
    }

    /// Deletes the character before the cursor, or joins the line onto the
    /// previous one when the cursor is at a line start. A no-op at the very
    /// start of the buffer.
    pub fn backspace(&mut self)
        requires
            old(self).wf(),
            old(self).spec_anchor() is None,
        ensures
            final(self).wf(),
            final(self).spec_anchor() is None,
            final(self).same_surroundings(old(self)),
            old(self).spec_cursor().index > 0 ==> {
                &&& final(self).spec_lines() == apply_item(
                    old(self).spec_lines(),
                    EditItem::DeleteChar {
                        line: old(self).spec_cursor().line,
                        index: (old(self).spec_cursor().index - 1) as usize,
                        ch: old(self).spec_lines()[old(self).spec_cursor().line as int][
                            old(self).spec_cursor().index - 1],
                    },
                )
                &&& final(self).spec_cursor() == (Cursor {
                    line: old(self).spec_cursor().line,
                    index: (old(self).spec_cursor().index - 1) as usize,
                })
                &&& final(self).spec_pending().len() == old(self).spec_pending().len() + 1
            },
            old(self).spec_cursor().index == 0 && old(self).spec_cursor().line > 0 ==> {
                &&& final(self).spec_lines() == apply_item(
                    old(self).spec_lines(),
                    EditItem::JoinLines {
                        line: (old(self).spec_cursor().line - 1) as usize,
                        index: old(self).spec_lines()[
                            old(self).spec_cursor().line - 1].len() as usize,
                    },
                )
                &&& final(self).spec_cursor() == (Cursor {
                    line: (old(self).spec_cursor().line - 1) as usize,
                    index: old(self).spec_lines()[
                        old(self).spec_cursor().line - 1].len() as usize,
                })
                &&& final(self).spec_pending().len() == old(self).spec_pending().len() + 1
            },
            old(self).spec_cursor().index == 0 && old(self).spec_cursor().line == 0 ==> {
                &&& final(self).spec_lines() == old(self).spec_lines()
                &&& final(self).spec_cursor() == old(self).spec_cursor()
                &&& final(self).spec_pending() == old(self).spec_pending()
            },
    {
        let Cursor { line, index } = self.cursor;
        if index > 0 {
            self.prim_delete_char(line, index - 1);
            self.cursor = Cursor { line, index: index - 1 };
        } else if line > 0 {
            let prev_len = self.line_len(line - 1);
            self.prim_join_lines(line - 1);
            self.cursor = Cursor { line: line - 1, index: prev_len };
            proof {
                assert(cursor_valid(self.spec_lines(), self.cursor));
            }
        }
    }

    /// Deletes the character ahead of the cursor, or joins the next line onto
    /// this one when the cursor is at a line end. A no-op at the very end of
    /// the buffer. The cursor does not move.
    pub fn delete_forward(&mut self)
        requires
            old(self).wf(),
            old(self).spec_anchor() is None,
        ensures
            final(self).wf(),
            final(self).spec_anchor() is None,
            final(self).spec_cursor() == old(self).spec_cursor(),
            final(self).same_surroundings(old(self)),
            old(self).spec_cursor().index < old(self).spec_lines()[
                old(self).spec_cursor().line as int].len() ==> {
                &&& final(self).spec_lines() == apply_item(
                    old(self).spec_lines(),
                    EditItem::DeleteChar {
                        line: old(self).spec_cursor().line,
                        index: old(self).spec_cursor().index,
                        ch: old(self).spec_lines()[old(self).spec_cursor().line as int][
                            old(self).spec_cursor().index as int],
                    },
                )
                &&& final(self).spec_pending().len() == old(self).spec_pending().len() + 1
            },
            old(self).spec_cursor().index == old(self).spec_lines()[
                old(self).spec_cursor().line as int].len() && old(self).spec_cursor().line + 1
                < old(self).spec_lines().len() ==> {
                &&& final(self).spec_lines() == apply_item(
                    old(self).spec_lines(),
                    EditItem::JoinLines {
                        line: old(self).spec_cursor().line,
                        index: old(self).spec_cursor().index,
                    },
                )
                &&& final(self).spec_pending().len() == old(self).spec_pending().len() + 1
            },
            old(self).spec_cursor().index == old(self).spec_lines()[
                old(self).spec_cursor().line as int].len() && old(self).spec_cursor().line + 1
                >= old(self).spec_lines().len() ==> {
                &&& final(self).spec_lines() == old(self).spec_lines()
                &&& final(self).spec_pending() == old(self).spec_pending()
            },
    {
        let Cursor { line, index } = self.cursor;
        let ll = self.line_len(line);
        let n = self.lines.len();
        if index < ll {
            self.prim_delete_char(line, index);
        } else if line + 1 < n {
            self.prim_join_lines(line);
        }
    }

    /// Clears the selection, keeping the text and the cursor.
    pub fn escape(&mut self)
        requires
            old(self).wf(),
        ensures
            final(self).wf(),
            final(self).spec_anchor() is None,
            final(self).spec_lines() == old(self).spec_lines(),
            final(self).spec_cursor() == old(self).spec_cursor(),
            final(self).spec_pending() == old(self).spec_pending(),
            final(self).same_surroundings(old(self)),
    {
        self.selection_anchor = None;
    }

    /// Anchors a selection at the current cursor position.
    pub fn anchor_selection_at_cursor(&mut self)
        requires
            old(self).wf(),
        ensures
            final(self).wf(),
            final(self).spec_anchor() == Some(old(self).spec_cursor()),
            final(self).spec_lines() == old(self).spec_lines(),
            final(self).spec_cursor() == old(self).spec_cursor(),
            final(self).spec_pending() == old(self).spec_pending(),
            final(self).same_surroundings(old(self)),
    {
        self.selection_anchor = Some(self.cursor);
    }

    /// The normalized selection bounds: the earlier and the later of anchor
    /// and cursor, or `None` when no selection is active.
    pub open spec fn spec_selection_bounds(&self) -> Option<(Cursor, Cursor)> {
        match self.selection_anchor {
            None => None,
            Some(a) => {
                if cursor_le(a, self.cursor) {
                    Some((a, self.cursor))
                } else {
                    Some((self.cursor, a))
                }
            }
        }
    }

    /// The normalized selection bounds as values.
    pub fn selection_bounds(&self) -> (r: Option<(Cursor, Cursor)>)
        requires
            self.wf(),
        ensures
            r == self.spec_selection_bounds(),
    {
        match self.selection_anchor {
            None => None,
            Some(a) => {
                let c = self.cursor;
                if a.line < c.line || (a.line == c.line && a.index <= c.index) {
                    Some((a, c))
                } else {
                    Some((c, a))
                }
            }
        }
    }

    /// Removes the characters between `s` and `e`, collapsing the cursor to
    /// `s` and clearing the selection.
    fn delete_range(&mut self, s: Cursor, e: Cursor)
        requires
            old(self).wf(),
            cursor_valid(old(self).spec_lines(), s),
            cursor_valid(old(self).spec_lines(), e),
            cursor_le(s, e),
        ensures
            final(self).wf(),
            final(self).spec_lines() == remove_range(old(self).spec_lines(), s, e),
            final(self).spec_cursor() == s,
            final(self).spec_anchor() is None,
            final(self).same_surroundings(old(self)),
            s == e ==> final(self).spec_lines() == old(self).spec_lines()
                && final(self).spec_pending() == old(self).spec_pending(),
            s != e ==> final(self).spec_pending().len() > old(self).spec_pending().len(),
    {
        let ghost l0 = old(self).spec_lines();
        let mut ecur = e;
        while !(ecur.line == s.line && ecur.index == s.index)
            invariant
                self.record_ok(),
                self.spec_lines().len() >= 1,
                cursor_le(s, ecur),
                cursor_valid(self.spec_lines(), ecur),
                s.line < self.spec_lines().len(),
                ecur.line > s.line ==> s.index <= self.spec_lines()[s.line as int].len(),
                remove_range(self.spec_lines(), s, ecur) == remove_range(l0, s, e),
                self.cursor == old(self).cursor,
                self.selection_anchor == old(self).selection_anchor,
                self.same_surroundings(old(self)),
                self.spec_pending().len() > old(self).spec_pending().len() || (ecur == e
                    && self.spec_lines() == l0 && self.spec_pending() == old(self).spec_pending()),
                s == e ==> ecur == e && self.spec_lines() == l0 && self.spec_pending() == old(
                    self,
                ).spec_pending(),
            decreases
                ecur.line - s.line,
                (if ecur.line > s.line {
                    self.spec_lines()[s.line as int].len() - s.index + 1
                } else {
                    ecur.index - s.index
                }),
        {
            let ghost lcur = self.spec_lines();
            if ecur.line > s.line {
                let ll = self.line_len(s.line);
                if s.index < ll {
                    self.prim_delete_char(s.line, s.index);
                    proof {
                        assert(remove_range(self.spec_lines(), s, ecur) =~~= remove_range(
                            lcur, s, ecur));
                    }
                } else {
                    self.prim_join_lines(s.line);
                    let nl = self.line_len(s.line);
                    if ecur.line == s.line + 1 {
                        let enew = Cursor { line: s.line, index: s.index + ecur.index };
                        proof {
                            assert(self.spec_lines()[s.line as int] == lcur[s.line as int]
                                + lcur[s.line + 1]);
                            assert(cursor_valid(self.spec_lines(), enew));
                            assert(remove_range(self.spec_lines(), s, enew) =~~= remove_range(
                                lcur, s, ecur));
                        }
                        ecur = enew;
                    } else {
                        let enew = Cursor { line: ecur.line - 1, index: ecur.index };
                        proof {
                            assert(self.spec_lines()[enew.line as int] == lcur[ecur.line as int]);
                            assert(cursor_valid(self.spec_lines(), enew));
                            assert(remove_range(self.spec_lines(), s, enew) =~~= remove_range(
                                lcur, s, ecur));
                        }
                        ecur = enew;
                    }
                }
            } else {
                self.prim_delete_char(s.line, s.index);
                let enew = Cursor { line: ecur.line, index: ecur.index - 1 };
                proof {
                    assert(cursor_valid(self.spec_lines(), enew));
                    assert(remove_range(self.spec_lines(), s, enew) =~~= remove_range(
                        lcur, s, ecur));
                }
                ecur = enew;
            }
        }
        proof {
            assert(remove_range(self.spec_lines(), s, s) =~~= self.spec_lines());
        }
        self.cursor = s;
        self.selection_anchor = None;
        proof {
            assert(cursor_valid(self.spec_lines(), s));
        }
    }

    /// If a selection is active, removes it, collapses the cursor to the
    /// selection start, clears the selection and returns `true`; otherwise
    /// returns `false` and changes nothing.
    pub fn delete_selection(&mut self) -> (r: bool)
        requires
            old(self).wf(),
        ensures
            final(self).wf(),
            final(self).same_surroundings(old(self)),
            old(self).spec_anchor() is None ==> {
                &&& !r
                &&& *final(self) == *old(self)
            },
            old(self).spec_selection_bounds() matches Some((s, e)) ==> {
                &&& r
                &&& final(self).spec_lines() == remove_range(old(self).spec_lines(), s, e)
                &&& final(self).spec_cursor() == s
                &&& final(self).spec_anchor() is None
                &&& (s == e ==> final(self).spec_lines() == old(self).spec_lines()
                    && final(self).spec_pending() == old(self).spec_pending())
                &&& (s != e ==> final(self).spec_pending().len()
                    > old(self).spec_pending().len())
            },
    {
        match self.selection_bounds() {
            None => false,
            Some((s, e)) => {
                self.delete_range(s, e);
                true
            }
        }
    }

    /// Inserts without recording: the raw form of the insert edit.
    fn raw_insert_char(&mut self, l: usize, i: usize, ch: char)
        requires
            l < old(self).spec_lines().len(),
            i <= old(self).spec_lines()[l as int].len(),
        ensures
            final(self).spec_lines() == apply_item(
                old(self).spec_lines(),
                EditItem::InsertChar { line: l, index: i, ch },
            ),
            final(self).cursor == old(self).cursor,
            final(self).selection_anchor == old(self).selection_anchor,
            final(self).pending@ == old(self).pending@,
            final(self).same_surroundings(old(self)),
    {
        let ghost it = EditItem::InsertChar { line: l, index: i, ch };
        let mut line = self.lines.remove(l);
        line.insert(i, ch);
        self.lines.insert(l, line);
        proof {
            assert(self.spec_lines() =~~= apply_item(old(self).spec_lines(), it));
        }
    }

    /// Deletes without recording: the raw form of the delete edit.
    fn raw_delete_char(&mut self, l: usize, i: usize)
        requires
            l < old(self).spec_lines().len(),
            i < old(self).spec_lines()[l as int].len(),
        ensures
            final(self).spec_lines() == apply_item(
                old(self).spec_lines(),
                EditItem::DeleteChar {
                    line: l,
                    index: i,
                    ch: old(self).spec_lines()[l as int][i as int],
                },
            ),
            final(self).cursor == old(self).cursor,
            final(self).selection_anchor == old(self).selection_anchor,
            final(self).pending@ == old(self).pending@,
            final(self).same_surroundings(old(self)),
    {
        let mut line = self.lines.remove(l);
        let ch = line.remove(i);
        self.lines.insert(l, line);
        let ghost it = EditItem::DeleteChar { line: l, index: i, ch };
        proof {
            assert(self.spec_lines() =~~= apply_item(old(self).spec_lines(), it));
        }
    }

    /// Splits without recording: the raw form of the split edit.
    fn raw_split_line(&mut self, l: usize, i: usize)
        requires
            l < old(self).spec_lines().len(),
            i <= old(self).spec_lines()[l as int].len(),
        ensures
            final(self).spec_lines() == apply_item(
                old(self).spec_lines(),
                EditItem::SplitLine { line: l, index: i },
            ),
            final(self).cursor == old(self).cursor,
            final(self).selection_anchor == old(self).selection_anchor,
            final(self).pending@ == old(self).pending@,
            final(self).same_surroundings(old(self)),
    {
        let ghost it = EditItem::SplitLine { line: l, index: i };
        let mut line = self.lines.remove(l);
        let rest = line.split_off(i);
        self.lines.insert(l, rest);
        self.lines.insert(l, line);
        proof {
            assert(self.spec_lines() =~~= apply_item(old(self).spec_lines(), it));
        }
    }

    /// Joins without recording: the raw form of the join edit.
    fn raw_join_lines(&mut self, l: usize)
        requires
            l + 1 < old(self).spec_lines().len(),
        ensures
            final(self).spec_lines() == apply_item(
                old(self).spec_lines(),
                EditItem::JoinLines {
                    line: l,
                    index: old(self).spec_lines()[l as int].len() as usize,
                },
            ),
            final(self).cursor == old(self).cursor,
            final(self).selection_anchor == old(self).selection_anchor,
            final(self).pending@ == old(self).pending@,
            final(self).same_surroundings(old(self)),
    {
        let mut line = self.lines.remove(l);
        let mut next = self.lines.remove(l);
        let ghost i = line@.len();
        line.append(&mut next);
        self.lines.insert(l, line);
        let ghost it = EditItem::JoinLines { line: l, index: i as usize };
        proof {
            assert(self.spec_lines() =~~= apply_item(old(self).spec_lines(), it));
        }
    }

    /// Applies `it` without recording it. Requires validity.
    fn raw_apply_item(&mut self, it: EditItem)
        requires
            item_valid(old(self).spec_lines(), it),
        ensures
            final(self).spec_lines() == apply_item(old(self).spec_lines(), it),
            final(self).cursor == old(self).cursor,
            final(self).selection_anchor == old(self).selection_anchor,
            final(self).pending@ == old(self).pending@,
            final(self).same_surroundings(old(self)),
    {
        match it {
            EditItem::InsertChar { line, index, ch } => {
                self.raw_insert_char(line, index, ch);
            }
            EditItem::DeleteChar { line, index, ch } => {
                self.raw_delete_char(line, index);
            }
            EditItem::SplitLine { line, index } => {
                self.raw_split_line(line, index);
            }
            EditItem::JoinLines { line, index } => {
                self.raw_join_lines(line);
            }
        }
    }

    /// Whether `it` can be applied to the buffer as it stands.
    fn item_applies(&self, it: &EditItem) -> (r: bool)
        ensures
            r == item_valid(self.spec_lines(), *it),
    {
        let n = self.lines.len();
        match *it {
            EditItem::InsertChar { line, index, ch } => line < n && index
                <= self.lines[line].len(),
            EditItem::DeleteChar { line, index, ch } => line < n && index
                < self.lines[line].len() && self.lines[line][index] == ch,
            EditItem::SplitLine { line, index } => line < n && index <= self.lines[line].len(),
            EditItem::JoinLines { line, index } => line < n && line + 1 < n && index
                == self.lines[line].len(),
        }
    }

    /// Discards the pending record by replaying it backwards, restoring the
    /// lines the change bracket started from.
    pub(crate) fn rollback_pending(&mut self)
        requires
            old(self).record_ok(),
        ensures
            final(self).record_ok(),
            final(self).spec_lines() == old(self).spec_base(),
            final(self).spec_pending().len() == 0,
            final(self).cursor == old(self).cursor,
            final(self).selection_anchor == old(self).selection_anchor,
            final(self).same_surroundings(old(self)),
    {
        let ghost base = self.change_base@;
        let ghost recorded = self.pending@;
        let mut items: Vec<EditItem> = Vec::new();
        std::mem::swap(&mut items, &mut self.pending);
        let mut change = Change { items };
        change.reverse();
        let ghost inv = invert_items(recorded);
        proof {
            lemma_change_round_trip(base, recorded);
        }
        proof {
            assert(inv.skip(0) =~= inv);
        }
        let n = change.items.len();
        let mut j: usize = 0;
        while j < n
            invariant
                n == inv.len(),
                change.items@ == inv,
                j <= n,
                items_valid(self.spec_lines(), inv.skip(j as int)),
                apply_items(self.spec_lines(), inv.skip(j as int)) == base,
                self.pending@.len() == 0,
                self.change_base@ == base,
                self.cursor == old(self).cursor,
                self.selection_anchor == old(self).selection_anchor,
                self.same_surroundings(old(self)),
            decreases n - j,
        {
            let ghost rest = inv.skip(j as int);
            proof {
                assert(rest[0] == inv[j as int]);
                assert(rest.drop_first() =~= inv.skip(j + 1));
            }
            let it = change.items[j];
            self.raw_apply_item(it);
            j = j + 1;
        }
        proof {
            assert(inv.skip(n as int) =~= Seq::<EditItem>::empty());
            assert(self.spec_lines() == base);
            assert(items_valid(self.change_base@, self.pending@)) by {
                assert(self.pending@ =~= Seq::<EditItem>::empty());
            }
            assert(apply_items(self.change_base@, self.pending@) == self.spec_lines());
        }
    }

    /// Empties the pending record and rebases the change bracket on the
    /// current lines, so that the edits made so far belong to no change.
    fn reset_record(&mut self)
        ensures
            final(self).record_ok(),
            final(self).spec_pending().len() == 0,
            final(self).spec_base() == final(self).spec_lines(),
            final(self).spec_lines() == old(self).spec_lines(),
            final(self).cursor == old(self).cursor,
            final(self).selection_anchor == old(self).selection_anchor,
            final(self).wrap == old(self).wrap,
            final(self).scroll_line == old(self).scroll_line,
            final(self).visible_lines == old(self).visible_lines,
            final(self).changes.undo_view() == old(self).changes.undo_view(),
            final(self).changes.redo_view() == old(self).changes.redo_view(),
    {
        self.pending = Vec::new();
        proof {
            self.change_base@ = self.spec_lines();
            assert(self.pending@ =~= Seq::<EditItem>::empty());
        }
    }

    /// The given cursor pulled back inside `lines`.
    pub open spec fn spec_clamped(lines: Seq<Seq<char>>, cur: Cursor) -> Cursor {
        let line = if cur.line < lines.len() {
            cur.line
        } else {
            (lines.len() - 1) as usize
        };
        let len = lines[line as int].len();
        let index = if cur.index <= len {
            cur.index
        } else {
            len as usize
        };
        Cursor { line, index }
    }

    /// Moves the cursor to the nearest valid position.
    pub(crate) fn clamp_cursor(&mut self)
        requires
            old(self).spec_lines().len() >= 1,
        ensures
            final(self).cursor == Self::spec_clamped(old(self).spec_lines(), old(self).cursor),
            cursor_valid(final(self).spec_lines(), final(self).cursor),
            final(self).spec_lines() == old(self).spec_lines(),
            final(self).selection_anchor == old(self).selection_anchor,
            final(self).pending@ == old(self).pending@,
            final(self).change_base@ == old(self).change_base@,
            final(self).same_surroundings(old(self)),
    {
        let n = self.lines.len();
        let line = if self.cursor.line < n {
            self.cursor.line
        } else {
            n - 1
        };
        let len = self.lines[line].len();
        let index = if self.cursor.index <= len {
            self.cursor.index
        } else {
            len
        };
        self.cursor = Cursor { line, index };
    }

    /// Replays a stored change against the buffer: the undo and redo paths.
    ///
    /// The whole change is applied atomically: when any of its edits no
    /// longer fits the buffer, nothing is changed and `false` is returned.
    /// The replay itself is not recorded as a new change. On success the
    /// selection is cleared and the cursor pulled to a valid position.
    pub fn apply_change(&mut self, items: &Vec<EditItem>) -> (ok: bool)
        requires
            old(self).wf(),
            old(self).spec_pending().len() == 0,
        ensures
            final(self).wf(),
            final(self).spec_pending().len() == 0,
            final(self).wrap == old(self).wrap,
            final(self).scroll_line == old(self).scroll_line,
            final(self).visible_lines == old(self).visible_lines,
            final(self).changes.undo_view() == old(self).changes.undo_view(),
            final(self).changes.redo_view() == old(self).changes.redo_view(),
            items_valid(old(self).spec_lines(), items@) ==> {
                &&& ok
                &&& final(self).spec_lines() == apply_items(old(self).spec_lines(), items@)
                &&& final(self).spec_anchor() is None
            },
            !items_valid(old(self).spec_lines(), items@) ==> {
                &&& !ok
                &&& final(self).spec_lines() == old(self).spec_lines()
                &&& final(self).spec_cursor() == old(self).spec_cursor()
                &&& final(self).spec_anchor() == old(self).spec_anchor()
            },
    {
        let ghost l0 = old(self).spec_lines();
        let n = items.len();
        let mut j: usize = 0;
        let mut ok = true;
        while j < n && ok
            invariant
                n == items@.len(),
                j <= n,
                self.record_ok(),
                self.spec_lines().len() >= 1,
                self.change_base@ == l0,
                self.cursor == old(self).cursor,
                self.selection_anchor == old(self).selection_anchor,
                self.wrap == old(self).wrap,
                self.scroll_line == old(self).scroll_line,
                self.visible_lines == old(self).visible_lines,
                self.changes.undo_view() == old(self).changes.undo_view(),
                self.changes.redo_view() == old(self).changes.redo_view(),
                ok ==> self.pending@ == items@.take(j as int),
                ok ==> items_valid(l0, items@.take(j as int)),
                ok ==> apply_items(l0, items@.take(j as int)) == self.spec_lines(),
                !ok ==> self.spec_lines() == l0 && self.pending@.len() == 0,
                !ok ==> !items_valid(l0, items@),
            decreases n - j + (if ok { 1int } else { 0int }),
        {
            let it = items[j];
            if self.item_applies(&it) {
                match it {
                    EditItem::InsertChar { line, index, ch } => {
                        self.prim_insert_char(line, index, ch);
                    }
                    EditItem::DeleteChar { line, index, ch } => {
                        self.prim_delete_char(line, index);
                    }
                    EditItem::SplitLine { line, index } => {
                        self.prim_split_line(line, index);
                    }
                    EditItem::JoinLines { line, index } => {
                        self.prim_join_lines(line);
                    }
                }
                proof {
                    assert(self.pending@ =~= items@.take(j + 1));
                    lemma_items_snoc(l0, items@.take(j as int), it);
                    assert(items@.take(j as int).push(it) =~= items@.take(j + 1));
                    assert(self.spec_lines().len() >= 1) by {
                        assert(cursor_valid(self.spec_lines(), self.cursor) || true);
                        lemma_apply_item_len(apply_items(l0, items@.take(j as int)), it);
                    }
                }
                j = j + 1;
            } else {
                proof {
                    lemma_items_invalid_prefix(l0, items@, j as int);
                }
                self.rollback_pending();
                ok = false;
            }
        }
        if ok {
            proof {
                assert(items@.take(n as int) =~= items@);
            }
            self.reset_record();
            self.selection_anchor = None;
            self.clamp_cursor();
        } else {
            proof {
                assert(cursor_valid(self.spec_lines(), self.cursor));
            }
        }
        ok
    }

    /// The character of line `l` at offset `i`.
    fn char_at(&self, l: usize, i: usize) -> (r: char)
        requires
            l < self.spec_lines().len(),
            i < self.spec_lines()[l as int].len(),
        ensures
            r == self.spec_lines()[l as int][i as int],
    {
        self.lines[l][i]
    }

    /// Moves the cursor per the motion. The selection anchor and the text are
    /// untouched; selection handling is the caller's concern.
    pub fn move_to(&mut self, m: Motion)
        requires
            old(self).wf(),
        ensures
            final(self).wf(),
            final(self).spec_cursor() == motion_target(
                old(self).spec_lines(),
                old(self).spec_visible_lines(),
                old(self).spec_cursor(),
                m,
            ),
            final(self).spec_lines() == old(self).spec_lines(),
            final(self).spec_anchor() == old(self).spec_anchor(),
            final(self).spec_pending() == old(self).spec_pending(),
            final(self).same_surroundings(old(self)),
    {
        let Cursor { line, index } = self.cursor;
        let n = self.lines.len();
        let line_len = self.line_len(line);
        let target = match m {
            Motion::Left => {
                if index > 0 {
                    Cursor { line, index: index - 1 }
                } else if line > 0 {
                    Cursor { line: line - 1, index: self.line_len(line - 1) }
                } else {
                    self.cursor
                }
            }
            Motion::Right => {
                if index < line_len {
                    Cursor { line, index: index + 1 }
                } else if line + 1 < n {
                    Cursor { line: line + 1, index: 0 }
                } else {
                    self.cursor
                }
            }
            Motion::Up => {
                if line > 0 {
                    let tl = self.line_len(line - 1);
                    Cursor { line: line - 1, index: if index <= tl { index } else { tl } }
                } else {
                    self.cursor
                }
            }
            Motion::Down => {
                if line + 1 < n {
                    let tl = self.line_len(line + 1);
                    Cursor { line: line + 1, index: if index <= tl { index } else { tl } }
                } else {
                    self.cursor
                }
            }
            Motion::Home => Cursor { line, index: 0 },
            Motion::End => Cursor { line, index: line_len },
            Motion::PageUp => {
                let target = if line >= self.visible_lines {
                    line - self.visible_lines
                } else {
                    0
                };
                let tl = self.line_len(target);
                Cursor { line: target, index: if index <= tl { index } else { tl } }
            }
            Motion::PageDown => {
                let target = if self.visible_lines <= n - 1 - line {
                    line + self.visible_lines
                } else {
                    n - 1
                };
                let tl = self.line_len(target);
                Cursor { line: target, index: if index <= tl { index } else { tl } }
            }
            Motion::BufferStart => Cursor { line: 0, index: 0 },
            Motion::BufferEnd => Cursor { line: n - 1, index: self.line_len(n - 1) },
            Motion::PreviousWord | Motion::LeftWord => {
                if index > 0 {
                    let ghost ls = self.spec_lines()[line as int];
                    let mut i = index;
                    while i > 0 && is_space_char(self.char_at(line, i - 1))
                        invariant
                            i <= index,
                            line < self.spec_lines().len(),
                            index <= ls.len(),
                            ls == self.spec_lines()[line as int],
                            scan_space_back(ls, index as int) == scan_space_back(ls, i as int),
                        decreases i,
                    {
                        i = i - 1;
                    }
                    proof {
                        assert(scan_space_back(ls, i as int) == i);
                    }
                    let mut j = i;
                    while j > 0 && !is_space_char(self.char_at(line, j - 1))
                        invariant
                            j <= i,
                            i <= index,
                            line < self.spec_lines().len(),
                            index <= ls.len(),
                            ls == self.spec_lines()[line as int],
                            scan_word_back(ls, i as int) == scan_word_back(ls, j as int),
                        decreases j,
                    {
                        j = j - 1;
                    }
                    proof {
                        assert(scan_word_back(ls, j as int) == j);
                    }
                    Cursor { line, index: j }
                } else if line > 0 {
                    Cursor { line: line - 1, index: self.line_len(line - 1) }
                } else {
                    self.cursor
                }
            }
            Motion::NextWord | Motion::RightWord => {
                if index < line_len {
                    let ghost ls = self.spec_lines()[line as int];
                    let mut i = index;
                    while i < line_len && is_space_char(self.char_at(line, i))
                        invariant
                            index <= i <= line_len,
                            line < self.spec_lines().len(),
                            line_len == ls.len(),
                            ls == self.spec_lines()[line as int],
                            scan_space_fwd(ls, index as int) == scan_space_fwd(ls, i as int),
                        decreases line_len - i,
                    {
                        i = i + 1;
                    }
                    proof {
                        assert(scan_space_fwd(ls, i as int) == i);
                    }
                    let mut j = i;
                    while j < line_len && !is_space_char(self.char_at(line, j))
                        invariant
                            i <= j <= line_len,
                            line < self.spec_lines().len(),
                            line_len == ls.len(),
                            ls == self.spec_lines()[line as int],
                            scan_word_fwd(ls, i as int) == scan_word_fwd(ls, j as int),
                        decreases line_len - j,
                    {
                        j = j + 1;
                    }
                    proof {
                        assert(scan_word_fwd(ls, j as int) == j);
                    }
                    Cursor { line, index: j }
                } else if line + 1 < n {
                    Cursor { line: line + 1, index: 0 }
                } else {
                    self.cursor
                }
            }
            Motion::ParagraphStart => Cursor { line, index: 0 },
            Motion::ParagraphEnd => Cursor { line, index: line_len },
        };
        self.cursor = target;
        proof {
            assert(cursor_valid(self.spec_lines(), self.cursor));
        }
    }

    /// Anchors the selection at the buffer start and puts the cursor at the
    /// buffer end, selecting everything.
    pub fn select_all(&mut self)
        requires
            old(self).wf(),
        ensures
            final(self).wf(),
            final(self).spec_anchor() == Some(Cursor { line: 0, index: 0 }),
            final(self).spec_cursor() == (Cursor {
                line: (old(self).spec_lines().len() - 1) as usize,
                index: old(self).spec_lines().last().len() as usize,
            }),
            final(self).spec_lines() == old(self).spec_lines(),
            final(self).spec_pending() == old(self).spec_pending(),
            final(self).same_surroundings(old(self)),
    {
        let n = self.lines.len();
        self.selection_anchor = Some(Cursor { line: 0, index: 0 });
        let end_len = self.line_len(n - 1);
        self.cursor = Cursor { line: n - 1, index: end_len };
    }

    /// Changes the wrap policy. Visual layout is recomputed by the host; the
    /// caller resets the cursor per the configured policy change.
    pub fn set_wrap(&mut self, w: Wrap)
        requires
            old(self).wf(),
        ensures
            final(self).wf(),
            final(self).spec_wrap() == w,
            final(self).spec_lines() == old(self).spec_lines(),
            final(self).spec_cursor() == old(self).spec_cursor(),
            final(self).spec_anchor() == old(self).spec_anchor(),
            final(self).spec_pending() == old(self).spec_pending(),
            final(self).scroll_line == old(self).scroll_line,
            final(self).visible_lines == old(self).visible_lines,
            final(self).changes.undo_view() == old(self).changes.undo_view(),
            final(self).changes.redo_view() == old(self).changes.redo_view(),
            final(self).change_base@ == old(self).change_base@,
    {
        self.wrap = w;
    }

    /// Tells the buffer how many lines the host shows at once.
    pub fn set_visible_lines(&mut self, v: usize)
        requires
            old(self).wf(),
        ensures
            final(self).wf(),
            final(self).spec_visible_lines() == v,
            final(self).spec_lines() == old(self).spec_lines(),
            final(self).spec_cursor() == old(self).spec_cursor(),
            final(self).spec_anchor() == old(self).spec_anchor(),
            final(self).spec_pending() == old(self).spec_pending(),
    {
        self.visible_lines = v;
    }

    /// Scrolls by whole lines, clamped to the buffer.
    pub fn scroll_lines(&mut self, delta: i32)
        requires
            old(self).wf(),
        ensures
            final(self).wf(),
            final(self).spec_scroll() == {
                let maxl = old(self).spec_lines().len() - 1;
                let base = if old(self).spec_scroll() <= maxl {
                    old(self).spec_scroll()
                } else {
                    maxl
                };
                let target = base + delta;
                if target < 0 {
                    0
                } else if target > maxl {
                    maxl
                } else {
                    target
                }
            },
            final(self).spec_lines() == old(self).spec_lines(),
            final(self).spec_cursor() == old(self).spec_cursor(),
            final(self).spec_anchor() == old(self).spec_anchor(),
            final(self).spec_pending() == old(self).spec_pending(),
            final(self).wrap == old(self).wrap,
            final(self).visible_lines == old(self).visible_lines,
            final(self).changes.undo_view() == old(self).changes.undo_view(),
            final(self).changes.redo_view() == old(self).changes.redo_view(),
            final(self).change_base@ == old(self).change_base@,
    {
        let n = self.lines.len();
        let maxl = n - 1;
        let base = if self.scroll_line <= maxl {
            self.scroll_line
        } else {
            maxl
        };
        if delta >= 0 {
            let d = delta as usize;
            self.scroll_line = if d <= maxl - base {
                base + d
            } else {
                maxl
            };
        } else {
            let d = (-(delta as i64)) as u64;
            self.scroll_line = if d <= base as u64 {
                base - (d as usize)
            } else {
                0
            };
        }
    }

    /// Types `text` at the cursor, character by character; newlines open new
    /// lines. The cursor ends after the inserted text.
    pub fn insert_string(&mut self, text: &str)
        requires
            old(self).wf(),
            old(self).spec_anchor() is None,
        ensures
            final(self).wf(),
            final(self).spec_anchor() is None,
            final(self).spec_lines() == insert_text_state(
                old(self).spec_lines(),
                old(self).spec_cursor(),
                text@,
            ).0,
            final(self).spec_cursor() == insert_text_state(
                old(self).spec_lines(),
                old(self).spec_cursor(),
                text@,
            ).1,
            final(self).same_surroundings(old(self)),
            final(self).spec_pending().len() == old(self).spec_pending().len() + text@.len(),
    {
        let ghost l0 = old(self).spec_lines();
        let ghost c0 = old(self).spec_cursor();
        let n = text.unicode_len();
        let mut i: usize = 0;
        while i < n
            invariant
                n == text@.len(),
                i <= n,
                self.wf(),
                self.spec_anchor() is None,
                self.spec_lines() == insert_text_state(l0, c0, text@.take(i as int)).0,
                self.spec_cursor() == insert_text_state(l0, c0, text@.take(i as int)).1,
                self.same_surroundings(old(self)),
                self.spec_pending().len() == old(self).spec_pending().len() + i,
            decreases n - i,
        {
            let c = text.get_char(i);
            self.insert_char(c);
            proof {
                lemma_insert_text_snoc(l0, c0, text@.take(i as int), c);
                assert(text@.take(i as int).push(c) =~= text@.take(i + 1));
            }
            i = i + 1;
        }
        proof {
            assert(text@.take(n as int) =~= text@);
        }
    }

    /// The buffer text, all lines joined with newlines.
    pub fn get_text(&self) -> (r: String)
        requires
            self.wf(),
        ensures
            r@ == self.spec_text(),
    {
        let ghost ls = self.spec_lines();
        let mut r = String::new();
        let mut l: usize = 0;
        let n = self.lines.len();
        while l < n
            invariant
                n == ls.len(),
                l <= n,
                ls == self.spec_lines(),
                self.wf(),
                r@ == text_of(ls.take(l as int)),
            decreases n - l,
        {
            if l > 0 {
                push_char(&mut r, '\n');
            }
            let ghost line = ls[l as int];
            let ll = self.line_len(l);
            let mut j: usize = 0;
            while j < ll
                invariant
                    l < n,
                    n == ls.len(),
                    ll == line.len(),
                    j <= ll,
                    ls == self.spec_lines(),
                    self.wf(),
                    line == ls[l as int],
                    r@ == text_of(ls.take(l as int)) + (if l > 0 {
                        seq!['\n']
                    } else {
                        Seq::<char>::empty()
                    }) + line.take(j as int),
                decreases ll - j,
            {
                let c = self.char_at(l, j);
                push_char(&mut r, c);
                proof {
                    assert(line.take(j as int).push(c) =~= line.take(j + 1));
                    assert(r@ == text_of(ls.take(l as int)) + (if l > 0 {
                        seq!['\n']
                    } else {
                        Seq::<char>::empty()
                    }) + line.take(j + 1));
                }
                j = j + 1;
            }
            proof {
                assert(line.take(ll as int) =~= line);
                lemma_text_of_take_step(ls, l as int);
            }
            l = l + 1;
        }
        proof {
            assert(ls.take(n as int) =~= ls);
        }
        r
    }

    /// The total number of characters across all lines, newlines not
    /// counted; saturates at the machine's limit.
    pub fn buffer_len(&self) -> (r: usize)
        requires
            self.wf(),
        ensures
            char_count(self.spec_lines()) <= usize::MAX ==> r == char_count(self.spec_lines()),
            char_count(self.spec_lines()) > usize::MAX ==> r == usize::MAX,
    {
        let ghost ls = self.spec_lines();
        let mut acc: usize = 0;
        let mut l: usize = 0;
        let n = self.lines.len();
        while l < n
            invariant
                n == ls.len(),
                l <= n,
                ls == self.spec_lines(),
                self.wf(),
                char_count(ls.take(l as int)) <= usize::MAX ==> acc == char_count(
                    ls.take(l as int),
                ),
                char_count(ls.take(l as int)) > usize::MAX ==> acc == usize::MAX,
            decreases n - l,
        {
            let ll = self.line_len(l);
            proof {
                lemma_char_count_take_step(ls, l as int);
            }
            if acc <= usize::MAX - ll {
                acc = acc + ll;
            } else {
                acc = usize::MAX;
            }
            l = l + 1;
        }
        proof {
            assert(ls.take(n as int) =~= ls);
        }
        acc
    }

    /// Prepends a tab to each line from `lo` through `hi`, recording the
    /// edits. Cursor and selection stay put (both remain valid: the touched
    /// lines only grow).
    pub fn indent_range(&mut self, lo: usize, hi: usize)
        requires
            old(self).wf(),
            lo <= hi < old(self).spec_lines().len(),
        ensures
            final(self).wf(),
            final(self).spec_lines() == indented(old(self).spec_lines(), lo as int, hi as int),
            final(self).spec_cursor() == old(self).spec_cursor(),
            final(self).spec_anchor() == old(self).spec_anchor(),
            final(self).spec_pending().len() == old(self).spec_pending().len() + (hi - lo) + 1,
            final(self).same_surroundings(old(self)),
    {
        let ghost l0 = old(self).spec_lines();
        let n = self.lines.len();
        let mut l = lo;
        while l <= hi
            invariant
                lo <= l <= hi + 1,
                hi < l0.len(),
                l0.len() <= usize::MAX,
                self.record_ok(),
                self.spec_lines() == Seq::new(
                    l0.len(),
                    |i: int|
                        if lo <= i < l {
                            seq!['\t'] + l0[i]
                        } else {
                            l0[i]
                        },
                ),
                self.cursor == old(self).cursor,
                self.selection_anchor == old(self).selection_anchor,
                self.spec_pending().len() == old(self).spec_pending().len() + (l - lo),
                self.same_surroundings(old(self)),
            decreases hi + 1 - l,
        {
            let ghost before = self.spec_lines();
            self.prim_insert_char(l, 0, '\t');
            proof {
                assert(self.spec_lines() =~~= Seq::new(
                    l0.len(),
                    |i: int|
                        if lo <= i < l + 1 {
                            seq!['\t'] + l0[i]
                        } else {
                            l0[i]
                        },
                ));
            }
            l = l + 1;
        }
        proof {
            assert(self.spec_lines() =~~= indented(l0, lo as int, hi as int));
            assert(cursor_valid(self.spec_lines(), self.cursor));
            match self.selection_anchor {
                Some(a) => {
                    assert(cursor_valid(self.spec_lines(), a));
                }
                None => {}
            }
        }
    }

    /// Removes one leading tab from each line from `lo` through `hi` that
    /// has one, recording the edits. Cursor and selection are pulled back
    /// inside the shortened lines.
    pub fn unindent_range(&mut self, lo: usize, hi: usize)
        requires
            old(self).wf(),
            lo <= hi < old(self).spec_lines().len(),
        ensures
            final(self).wf(),
            final(self).spec_lines() == unindented(old(self).spec_lines(), lo as int, hi as int),
            final(self).spec_cursor() == Self::spec_clamped(
                final(self).spec_lines(),
                old(self).spec_cursor(),
            ),
            final(self).spec_anchor() == match old(self).spec_anchor() {
                Option::Some(a) => Option::Some(
                    Self::spec_clamped(final(self).spec_lines(), a),
                ),
                Option::None => Option::None::<Cursor>,
            },
            final(self).spec_pending().len() >= old(self).spec_pending().len(),
            final(self).spec_pending().len() == old(self).spec_pending().len()
                ==> final(self).spec_lines() == old(self).spec_lines(),
            final(self).same_surroundings(old(self)),
    {
        let ghost l0 = old(self).spec_lines();
        let n = self.lines.len();
        let mut l = lo;
        while l <= hi
            invariant
                lo <= l <= hi + 1,
                hi < l0.len(),
                l0.len() <= usize::MAX,
                self.record_ok(),
                self.spec_lines() == Seq::new(
                    l0.len(),
                    |i: int|
                        if lo <= i < l && l0[i].len() > 0 && l0[i][0] == '\t' {
                            l0[i].drop_first()
                        } else {
                            l0[i]
                        },
                ),
                self.cursor == old(self).cursor,
                self.selection_anchor == old(self).selection_anchor,
                self.spec_pending().len() >= old(self).spec_pending().len(),
                self.spec_pending().len() == old(self).spec_pending().len() ==> self.spec_lines()
                    == l0,
                self.same_surroundings(old(self)),
            decreases hi + 1 - l,
        {
            let ll = self.line_len(l);
            if ll > 0 && self.char_at(l, 0) == '\t' {
                self.prim_delete_char(l, 0);
                proof {
                    assert(l0[l as int].len() > 0 && l0[l as int][0] == '\t');
                    assert(self.spec_lines()[l as int] =~= l0[l as int].drop_first());
                    assert(self.spec_lines() =~~= Seq::new(
                        l0.len(),
                        |i: int|
                            if lo <= i < l + 1 && l0[i].len() > 0 && l0[i][0] == '\t' {
                                l0[i].drop_first()
                            } else {
                                l0[i]
                            },
                    ));
                    assert(self.spec_lines() != l0) by {
                        assert(self.spec_lines()[l as int].len() != l0[l as int].len());
                    }
                }
            } else {
                proof {
                    assert(self.spec_lines() =~~= Seq::new(
                        l0.len(),
                        |i: int|
                            if lo <= i < l + 1 && l0[i].len() > 0 && l0[i][0] == '\t' {
                                l0[i].drop_first()
                            } else {
                                l0[i]
                            },
                    ));
                }
            }
            l = l + 1;
        }
        proof {
            assert(self.spec_lines() =~~= unindented(l0, lo as int, hi as int));
        }
        self.clamp_cursor();
        match self.selection_anchor {
            Some(a) => {
                let n = self.lines.len();
                let aline = if a.line < n {
                    a.line
                } else {
                    n - 1
                };
                let alen = self.line_len(aline);
                let aindex = if a.index <= alen {
                    a.index
                } else {
                    alen
                };
                self.selection_anchor = Some(Cursor { line: aline, index: aindex });
            }
            None => {}
        }
        proof {
            assert(cursor_valid(self.spec_lines(), self.cursor));
            match self.selection_anchor {
                Some(a) => {
                    assert(cursor_valid(self.spec_lines(), a));
                }
                None => {}
            }
        }
    }

    /// The text between two valid positions, `s` at or before `e`.
    fn text_between(&self, s: Cursor, e: Cursor) -> (r: String)
        requires
            self.wf(),
            cursor_valid(self.spec_lines(), s),
            cursor_valid(self.spec_lines(), e),
            cursor_le(s, e),
        ensures
            r@ == range_text(self.spec_lines(), s, e),
    {
        let ghost ls = self.spec_lines();
        let ghost rl = range_lines(ls, s, e);
        let mut r = String::new();
        if s.line == e.line {
            let mut j = s.index;
            while j < e.index
                invariant
                    self.wf(),
                    ls == self.spec_lines(),
                    cursor_valid(ls, s),
                    cursor_valid(ls, e),
                    s.line == e.line,
                    s.index <= j <= e.index,
                    r@ == ls[s.line as int].subrange(s.index as int, j as int),
                decreases e.index - j,
            {
                let c = self.char_at(s.line, j);
                push_char(&mut r, c);
                proof {
                    assert(ls[s.line as int].subrange(s.index as int, j as int).push(c) =~= ls[
                        s.line as int].subrange(s.index as int, j + 1));
                }
                j = j + 1;
            }
            proof {
                assert(rl.len() == 1);
                assert(text_of(rl) == rl[0]);
                assert(r@ == range_text(ls, s, e));
            }
        } else {
            let mut l = s.line;
            let mut from: usize = s.index;
            while l < e.line
                invariant
                    self.wf(),
                    ls == self.spec_lines(),
                    cursor_valid(ls, s),
                    cursor_valid(ls, e),
                    s.line < e.line < ls.len(),
                    s.line <= l <= e.line,
                    from == (if l == s.line {
                        s.index as int
                    } else {
                        0
                    }),
                    r@ == text_of(range_lines(ls, s, e).take(l - s.line)) + (if l > s.line {
                        seq!['\n']
                    } else {
                        Seq::<char>::empty()
                    }),
                decreases e.line - l,
            {
                let ghost k = l - s.line;
                let ghost line_part = range_lines(ls, s, e)[k as int];
                let ll = self.line_len(l);
                let mut j = from;
                while j < ll
                    invariant
                        self.wf(),
                        ls == self.spec_lines(),
                        s.line <= l < e.line < ls.len(),
                        from <= j <= ll,
                        ll == ls[l as int].len(),
                        from == (if l == s.line {
                            s.index as int
                        } else {
                            0
                        }),
                        line_part == range_lines(ls, s, e)[l - s.line],
                        line_part == ls[l as int].skip(from as int),
                        cursor_valid(ls, s),
                        cursor_valid(ls, e),
                        r@ == text_of(range_lines(ls, s, e).take(l - s.line)) + (if l > s.line {
                            seq!['\n']
                        } else {
                            Seq::<char>::empty()
                        }) + line_part.take(j - from),
                    decreases ll - j,
                {
                    let c = self.char_at(l, j);
                    push_char(&mut r, c);
                    proof {
                        assert(line_part[j - from] == c);
                        assert(line_part.take(j - from).push(c) =~= line_part.take(j + 1 - from));
                    }
                    j = j + 1;
                }
                push_char(&mut r, '\n');
                proof {
                    assert(line_part.take(ll - from) =~= line_part);
                    lemma_text_of_take_step(range_lines(ls, s, e), l - s.line);
                    assert(r@ == text_of(range_lines(ls, s, e).take(l + 1 - s.line)) + seq![
                        '\n',
                    ]);
                }
                l = l + 1;
                from = 0;
            }
            let ghost k = e.line - s.line;
            let ghost last_part = range_lines(ls, s, e)[k as int];
            let mut j: usize = 0;
            while j < e.index
                invariant
                    self.wf(),
                    ls == self.spec_lines(),
                    cursor_valid(ls, s),
                    cursor_valid(ls, e),
                    s.line < e.line < ls.len(),
                    j <= e.index,
                    last_part == range_lines(ls, s, e)[e.line - s.line],
                    last_part == ls[e.line as int].take(e.index as int),
                    r@ == text_of(range_lines(ls, s, e).take(e.line - s.line)) + seq!['\n']
                        + last_part.take(j as int),
                decreases e.index - j,
            {
                let c = self.char_at(e.line, j);
                push_char(&mut r, c);
                proof {
                    assert(last_part[j as int] == c);
                    assert(last_part.take(j as int).push(c) =~= last_part.take(j + 1));
                }
                j = j + 1;
            }
            proof {
                assert(last_part.take(e.index as int) =~= last_part);
                lemma_text_of_take_step(range_lines(ls, s, e), e.line - s.line);
                assert(range_lines(ls, s, e).take(e.line - s.line + 1) =~= range_lines(ls, s, e));
                assert(r@ == range_text(ls, s, e));
            }
        }
        r
    }

    /// The selected text, or `None` when no selection is active.
    pub fn selection_text(&self) -> (r: Option<String>)
        requires
            self.wf(),
        ensures
            self.spec_selection_bounds() is None ==> r is None,
            self.spec_selection_bounds() matches Some((s, e)) ==> {
                &&& r matches Some(t)
                &&& t@ == range_text(self.spec_lines(), s, e)
            },
    {
        match self.selection_bounds() {
            None => None,
            Some((s, e)) => Some(self.text_between(s, e)),
        }
    }
}

impl Default for TextInputBuffer {
    /// An empty buffer, as [`TextInputBuffer::new`] makes it.
    fn default() -> (r: TextInputBuffer)
        ensures
            r.wf(),
            r.spec_lines() == seq![Seq::<char>::empty()],
            r.spec_cursor() == (Cursor { line: 0, index: 0 }),
            r.spec_anchor() is None,
    {
        TextInputBuffer::new()
    }
}

/// Applying one valid edit never empties the buffer.
proof fn lemma_apply_item_len(lines: Seq<Seq<char>>, it: EditItem)
    requires
        item_valid(lines, it),
        lines.len() >= 1,
    ensures
        apply_item(lines, it).len() >= 1,
{
}

/// A record whose prefix replays but whose next edit does not fit is not a
/// valid record as a whole.
proof fn lemma_items_invalid_prefix(lines: Seq<Seq<char>>, items: Seq<EditItem>, j: int)
    requires
        0 <= j < items.len(),
        items_valid(lines, items.take(j)),
        !item_valid(apply_items(lines, items.take(j)), items[j]),
    ensures
        !items_valid(lines, items),
    decreases j,
{
    if j == 0 {
        assert(items.take(0) =~= Seq::<EditItem>::empty());
        if items_valid(lines, items) {
            assert(item_valid(lines, items[0]));
        }
    } else {
        let mid = apply_item(lines, items[0]);
        assert(items.take(j)[0] == items[0]);
        assert(items.take(j).drop_first() =~= items.drop_first().take(j - 1));
        assert(items_valid(mid, items.drop_first().take(j - 1)));
        assert(apply_items(mid, items.drop_first().take(j - 1)) == apply_items(
            lines,
            items.take(j),
        ));
        assert(items.drop_first()[j - 1] == items[j]);
        lemma_items_invalid_prefix(mid, items.drop_first(), j - 1);
        if items_valid(lines, items) {
            assert(items_valid(mid, items.drop_first()));
        }
    }

}


/// One more line extends the joined text by a newline and that line.
proof fn lemma_text_of_take_step(lines: Seq<Seq<char>>, l: int)
    requires
        0 <= l < lines.len(),
    ensures
        text_of(lines.take(l + 1)) == text_of(lines.take(l)) + (if l > 0 {
            seq!['\n']
        } else {
            Seq::<char>::empty()
        }) + lines[l],
{
    let t = lines.take(l + 1);
    assert(t.drop_last() =~= lines.take(l));
    assert(t.last() == lines[l]);
    if l == 0 {
        assert(text_of(t) == lines[0]);
        assert(text_of(lines.take(0)) + Seq::<char>::empty() + lines[0] =~= lines[0]);
    }
}

/// One more line adds its characters to the count.
proof fn lemma_char_count_take_step(lines: Seq<Seq<char>>, l: int)
    requires
        0 <= l < lines.len(),
    ensures
        char_count(lines.take(l + 1)) == char_count(lines.take(l)) + lines[l].len(),
{
    let t = lines.take(l + 1);
    assert(t.drop_last() =~= lines.take(l));
    assert(t.last() == lines[l]);
}

/// Relies on String::push: appends the given character to the end of the
/// string.
#[verifier::external_body]
fn push_char(s: &mut String, c: char)
    ensures
        final(s)@ == old(s)@.push(c),
{
    s.push(c);
}


/// Character counts add over concatenation.
pub proof fn lemma_char_count_concat(a: Seq<Seq<char>>, b: Seq<Seq<char>>)
    ensures
        char_count(a + b) == char_count(a) + char_count(b),
    decreases b.len(),
{
    if b.len() == 0 {
        assert(a + b =~= a);
    } else {
        lemma_char_count_concat(a, b.drop_last());
        assert((a + b).drop_last() =~= a + b.drop_last());
        assert((a + b).last() == b.last());
    }
}

/// The character count of a single line is its length.
pub proof fn lemma_char_count_single(line: Seq<char>)
    ensures
        char_count(seq![line]) == line.len(),
{
    assert(seq![line].drop_last() =~= Seq::<Seq<char>>::empty());
    assert(seq![line].last() == line);
    assert(char_count(Seq::<Seq<char>>::empty()) == 0);
    assert(char_count(seq![line]) == char_count(seq![line].drop_last()) + seq![line].last().len());
}

/// A line buffer splits at any line into prefix, the line, and suffix.
pub proof fn lemma_char_count_split(lines: Seq<Seq<char>>, i: int)
    requires
        0 <= i < lines.len(),
    ensures
        char_count(lines) == char_count(lines.take(i)) + lines[i].len() + char_count(
            lines.skip(i + 1),
        ),
{
    assert(lines =~= lines.take(i) + seq![lines[i]] + lines.skip(i + 1));
    lemma_char_count_concat(lines.take(i) + seq![lines[i]], lines.skip(i + 1));
    lemma_char_count_concat(lines.take(i), seq![lines[i]]);
    lemma_char_count_single(lines[i]);
}

/// How one edit changes the character count: an insertion adds one
/// character, a deletion removes one, splitting and joining lines change
/// nothing.
pub proof fn lemma_char_count_apply_item(lines: Seq<Seq<char>>, it: EditItem)
    requires
        item_valid(lines, it),
    ensures
        char_count(apply_item(lines, it)) == (match it {
            EditItem::InsertChar { .. } => char_count(lines) + 1int,
            EditItem::DeleteChar { .. } => char_count(lines) - 1,
            EditItem::SplitLine { .. } => char_count(lines) as int,
            EditItem::JoinLines { .. } => char_count(lines) as int,
        }),
{
    let post = apply_item(lines, it);
    match it {
        EditItem::InsertChar { line, index, ch } => {
            lemma_char_count_split(lines, line as int);
            lemma_char_count_split(post, line as int);
            assert(post.take(line as int) =~= lines.take(line as int));
            assert(post.skip(line + 1) =~= lines.skip(line + 1));
            assert(post[line as int].len() == lines[line as int].len() + 1);
        }
        EditItem::DeleteChar { line, index, ch } => {
            lemma_char_count_split(lines, line as int);
            lemma_char_count_split(post, line as int);
            assert(post.take(line as int) =~= lines.take(line as int));
            assert(post.skip(line + 1) =~= lines.skip(line + 1));
            assert(post[line as int].len() == lines[line as int].len() - 1);
        }
        EditItem::SplitLine { line, index } => {
            lemma_char_count_split(lines, line as int);
            assert(post =~= lines.take(line as int) + seq![
                lines[line as int].take(index as int),
                lines[line as int].skip(index as int),
            ] + lines.skip(line + 1));
            lemma_char_count_concat(
                lines.take(line as int) + seq![
                    lines[line as int].take(index as int),
                    lines[line as int].skip(index as int),
                ],
                lines.skip(line + 1),
            );
            lemma_char_count_concat(
                lines.take(line as int),
                seq![
                    lines[line as int].take(index as int),
                    lines[line as int].skip(index as int),
                ],
            );
            lemma_char_count_single(lines[line as int].skip(index as int));
            assert(seq![
                lines[line as int].take(index as int),
                lines[line as int].skip(index as int),
            ].drop_last() =~= seq![lines[line as int].take(index as int)]);
            lemma_char_count_single(lines[line as int].take(index as int));
        }
        EditItem::JoinLines { line, index } => {
            lemma_char_count_split(lines, line as int);
            lemma_char_count_split(lines.skip(line + 1), 0);
            assert(lines.skip(line + 1)[0] == lines[line + 1]);
            assert(lines.skip(line + 1).take(0) =~= Seq::<Seq<char>>::empty());
            assert(lines.skip(line + 1).skip(1) =~= lines.skip(line + 2));
            assert(post =~= lines.take(line as int) + seq![
                lines[line as int] + lines[line + 1],
            ] + lines.skip(line + 2));
            lemma_char_count_concat(
                lines.take(line as int) + seq![lines[line as int] + lines[line + 1]],
                lines.skip(line + 2),
            );
            lemma_char_count_concat(
                lines.take(line as int),
                seq![lines[line as int] + lines[line + 1]],
            );
            lemma_char_count_single(lines[line as int] + lines[line + 1]);
        }
    }
}

/// Removing a range never increases the character count.
pub proof fn lemma_char_count_remove_range(lines: Seq<Seq<char>>, s: Cursor, e: Cursor)
    requires
        cursor_valid(lines, s),
        cursor_valid(lines, e),
        cursor_le(s, e),
    ensures
        char_count(remove_range(lines, s, e)) <= char_count(lines),
{
    let post = remove_range(lines, s, e);
    let mid = lines[s.line as int].take(s.index as int) + lines[e.line as int].skip(
        e.index as int,
    );
    lemma_char_count_concat(lines.take(s.line as int) + seq![mid], lines.skip(e.line + 1));
    lemma_char_count_concat(lines.take(s.line as int), seq![mid]);
    lemma_char_count_single(mid);
    lemma_char_count_split(lines, s.line as int);
    if s.line == e.line {
        assert(char_count(lines.skip(e.line + 1)) <= char_count(lines.skip(s.line + 1)));
        assert(mid.len() <= lines[s.line as int].len());
    } else {
        lemma_char_count_split(lines.skip(s.line + 1), e.line - s.line - 1);
        assert(lines.skip(s.line + 1)[e.line - s.line - 1] == lines[e.line as int]);
        assert(lines.skip(s.line + 1).skip(e.line - s.line) =~= lines.skip(e.line + 1));
        assert(mid.len() <= lines[s.line as int].len() + lines[e.line as int].len());
    }
}

} // verus!
