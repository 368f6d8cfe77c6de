//! Logical edit actions and their application to a buffer: the core state
//! machine of the widget.
//!
//! [`apply_edit`] consumes one logical action against one widget's buffer,
//! respecting the configured constraints (maximum length, content filter,
//! overwrite mode), and records the buffer mutations it makes as one
//! reversible change in the widget's change log. Actions that mutate
//! nothing are not recorded, so undo granularity stays meaningful.
use vstd::prelude::*;

use crate::TextInputFilter;
use crate::builtin_accepts;
use crate::buffer::Cursor;
use crate::buffer::Motion;
use crate::buffer::TextInputBuffer;
use crate::buffer::cursor_after_insert;
use crate::buffer::char_count;
use crate::buffer::indented;
use crate::buffer::insert_item;
use crate::buffer::insert_text_state;
use crate::buffer::motion_target;
use crate::buffer::remove_range;
use crate::buffer::text_of;
use crate::buffer::unindented;
use crate::changes::EditItem;
use crate::changes::apply_item;
use crate::changes::apply_items;
use crate::changes::invert_items;
use crate::changes::items_valid;

verus! {

/// An action to perform on a text-input buffer.
#[derive(Clone, Debug)]
pub enum TextInputEdit {
    /// Move the cursor with some motion; `true` extends the selection.
    Motion(Motion, bool),
    /// Escape, clears selection.
    Escape,
    /// Insert character at cursor; `true` overwrites the character ahead.
    Insert(char, bool),
    /// Create new line.
    Enter,
    /// Delete text behind cursor.
    Backspace,
    /// Delete text in front of cursor.
    Delete,
    /// Indent the lines touched by the selection.
    Indent,
    /// Unindent the lines touched by the selection.
    Unindent,
    /// Pointer click at a buffer position (resolved by the host's layout).
    Click { line: usize, index: usize },
    /// Pointer double click at a buffer position: selects the word there.
    DoubleClick { line: usize, index: usize },
    /// Pointer triple click at a buffer position: selects the paragraph.
    TripleClick { line: usize, index: usize },
    /// Pointer drag to a buffer position: extends the selection there.
    Drag { line: usize, index: usize },
    /// Scroll the given number of lines (negative is up).
    Scroll { lines: i32 },
    /// Insert resolved clipboard text, all or nothing.
    Paste(String),
    /// Revert the most recent recorded change.
    Undo,
    /// Replay the most recently undone change.
    Redo,
    /// Select the whole buffer.
    SelectAll,
    /// Scroll one line up.
    ScrollUp,
    /// Scroll one line down.
    ScrollDown,
}

/// A queued per-widget action: either a buffer edit or one of the
/// clipboard/submission actions around it.
#[derive(Clone, Debug)]
pub enum TextInputAction {
    /// Serialize the buffer and emit a submission event.
    Submit,
    /// Copy the selection to the clipboard.
    Copy,
    /// Copy the selection to the clipboard, then delete it.
    Cut,
    /// Begin a clipboard read; the paste applies when the read resolves.
    Paste,
    /// A paste waiting on the clipboard read with the given id.
    PasteDeferred(u64),
    /// Apply an edit to the buffer.
    Edit(TextInputEdit),
}

/// A process-wide queue of edits, each aimed at the widget with the given
/// id.
#[derive(Default)]
pub struct TextInputActionsQueue(pub std::collections::VecDeque<(u64, TextInputEdit)>);

impl TextInputActionsQueue {
    /// Queue an edit for a widget.
    pub fn push(&mut self, entity: u64, action: TextInputEdit)
        ensures
            final(self).0@ == old(self).0@.push((entity, action)),
    {
        self.0.push_back((entity, action));
    }

    /// Take the oldest queued edit.
    pub fn pop(&mut self) -> (r: Option<(u64, TextInputEdit)>)
        ensures
            old(self).0@.len() == 0 ==> r is None && final(self).0@ == old(self).0@,
            old(self).0@.len() > 0 ==> {
                &&& r == Some(old(self).0@[0])
                &&& final(self).0@ == old(self).0@.drop_first()
            },
    {
        let r = self.0.pop_front();
        proof {
            if old(self).0@.len() > 0 {
                assert(final(self).0@ =~= old(self).0@.drop_first());
            }
        }
        r
    }
}

/// The character count, saturated at the machine's limit (as
/// [`TextInputBuffer::buffer_len`] reports it).
pub open spec fn sat_count(lines: Seq<Seq<char>>) -> nat {
    if char_count(lines) <= usize::MAX {
        char_count(lines)
    } else {
        usize::MAX as nat
    }
}

/// Whether one more character may be inserted under the limit.
pub open spec fn len_allows_insert(lines: Seq<Seq<char>>, max_chars: Option<usize>) -> bool {
    match max_chars {
        Option::None => true,
        Option::Some(m) => sat_count(lines) < m,
    }
}

/// Whether `extra` more characters may be inserted under the limit.
pub open spec fn len_allows_paste(
    lines: Seq<Seq<char>>,
    extra: nat,
    max_chars: Option<usize>,
) -> bool {
    match max_chars {
        Option::None => true,
        Option::Some(m) => extra <= m && sat_count(lines) <= m - extra,
    }
}

/// How the configured filter relates to an accept/reject decision over the
/// would-be text. A missing filter accepts everything; the built-in filters
/// decide exactly per [`builtin_accepts`]; a custom filter decides for
/// itself, so any decision is consistent with it.
pub open spec fn filter_decides(
    filter: Option<TextInputFilter>,
    text: Seq<char>,
    accepted: bool,
) -> bool {
    match filter {
        Option::None => accepted,
        Option::Some(f) => {
            if f is Custom {
                true
            } else {
                accepted == builtin_accepts(f, text)
            }
        }
    }
}

/// The undo and redo stacks are untouched between `pre` and `post`.
pub open spec fn logs_unchanged(pre: TextInputBuffer, post: TextInputBuffer) -> bool {
    &&& post.changes.undo_view() == pre.changes.undo_view()
    &&& post.changes.redo_view() == pre.changes.redo_view()
}

/// One non-empty change, replaying `pre`'s lines into `post`'s, was pushed
/// onto the undo stack, emptying the redo stack.
pub open spec fn change_recorded(pre: TextInputBuffer, post: TextInputBuffer) -> bool {
    exists|items: Seq<EditItem>|
        {
            &&& items.len() > 0
            &&& items_valid(pre.spec_lines(), items)
            &&& apply_items(pre.spec_lines(), items) == post.spec_lines()
            &&& post.changes.undo_view() == pre.changes.undo_view().push(items)
            &&& post.changes.redo_view().len() == 0
        }
}

/// Wrap policy, scroll offset and page size are untouched.
pub open spec fn misc_unchanged(pre: TextInputBuffer, post: TextInputBuffer) -> bool {
    &&& post.wrap == pre.wrap
    &&& post.scroll_line == pre.scroll_line
    &&& post.visible_lines == pre.visible_lines
}

/// What applying the insert action does, beyond the log bookkeeping:
/// a selection is replaced outright; otherwise overwrite mode replaces the
/// character ahead of the cursor when there is one; otherwise the character
/// is inserted if the limit leaves room and the filter accepts the result.
pub open spec fn insert_applied(
    ch: char,
    overwrite: bool,
    pre: TextInputBuffer,
    post: TextInputBuffer,
    max_chars: Option<usize>,
    filter: Option<TextInputFilter>,
) -> bool {
    let lines = pre.spec_lines();
    let cur = pre.spec_cursor();
    match pre.spec_selection_bounds() {
        Option::Some((s, e)) => {
            let mid = remove_range(lines, s, e);
            &&& post.spec_lines() == apply_item(mid, insert_item(s, ch))
            &&& post.spec_cursor() == cursor_after_insert(s, ch)
            &&& post.spec_anchor() is None
            &&& change_recorded(pre, post)
        },
        Option::None => {
            if overwrite && cur.index < lines[cur.line as int].len() {
                let mid = apply_item(
                    lines,
                    EditItem::DeleteChar {
                        line: cur.line,
                        index: cur.index,
                        ch: lines[cur.line as int][cur.index as int],
                    },
                );
                &&& post.spec_lines() == apply_item(mid, insert_item(cur, ch))
                &&& post.spec_cursor() == cursor_after_insert(cur, ch)
                &&& post.spec_anchor() is None
                &&& change_recorded(pre, post)
            } else if len_allows_insert(lines, max_chars) {
                let inserted = apply_item(lines, insert_item(cur, ch));
                &&& post.spec_anchor() is None
                &&& ({
                    ||| {
                        &&& filter_decides(filter, text_of(inserted), true)
                        &&& post.spec_lines() == inserted
                        &&& post.spec_cursor() == cursor_after_insert(cur, ch)
                        &&& change_recorded(pre, post)
                    }
                    ||| {
                        &&& filter_decides(filter, text_of(inserted), false)
                        &&& post.spec_lines() == lines
                        &&& post.spec_cursor() == cur
                        &&& logs_unchanged(pre, post)
                    }
                })
            } else {
                &&& post.spec_lines() == lines
                &&& post.spec_cursor() == cur
                &&& post.spec_anchor() is None
                &&& logs_unchanged(pre, post)
            }
        },
    }
}

/// What applying the paste does: any active selection is first escaped
/// (the selected text stays); then the whole text is inserted at the
/// cursor if it fits under the limit and the filter accepts the resulting
/// buffer text, and otherwise nothing at all is inserted.
pub open spec fn paste_applied(
    text: Seq<char>,
    pre: TextInputBuffer,
    post: TextInputBuffer,
    max_chars: Option<usize>,
    filter: Option<TextInputFilter>,
) -> bool {
    let lines = pre.spec_lines();
    let cur = pre.spec_cursor();
    let pasted = insert_text_state(lines, cur, text);
    &&& post.spec_anchor() is None
    &&& if len_allows_paste(lines, text.len(), max_chars) {
        ||| {
            &&& filter_decides(filter, text_of(pasted.0), true)
            &&& post.spec_lines() == pasted.0
            &&& post.spec_cursor() == pasted.1
            &&& (text.len() > 0 ==> change_recorded(pre, post))
            &&& (text.len() == 0 ==> logs_unchanged(pre, post))
        }
        ||| {
            &&& filter_decides(filter, text_of(pasted.0), false)
            &&& post.spec_lines() == lines
            &&& post.spec_cursor() == cur
            &&& logs_unchanged(pre, post)
        }
    } else {
        &&& post.spec_lines() == lines
        &&& post.spec_cursor() == cur
        &&& logs_unchanged(pre, post)
    }
}

/// What applying an undo does: the most recent change moves from the undo
/// stack to the redo stack and its edits are replayed in reverse. A stale
/// change that no longer fits the buffer moves stacks but edits nothing.
pub open spec fn undo_applied(pre: TextInputBuffer, post: TextInputBuffer) -> bool {
    let stack = pre.changes.undo_view();
    if stack.len() == 0 {
        &&& post.spec_lines() == pre.spec_lines()
        &&& post.spec_cursor() == pre.spec_cursor()
        &&& post.spec_anchor() == pre.spec_anchor()
        &&& logs_unchanged(pre, post)
    } else {
        let items = stack.last();
        let rev = invert_items(items);
        &&& post.changes.undo_view() == stack.drop_last()
        &&& post.changes.redo_view() == pre.changes.redo_view().push(items)
        &&& (items_valid(pre.spec_lines(), rev) ==> {
            &&& post.spec_lines() == apply_items(pre.spec_lines(), rev)
            &&& post.spec_anchor() is None
        })
        &&& (!items_valid(pre.spec_lines(), rev) ==> {
            &&& post.spec_lines() == pre.spec_lines()
            &&& post.spec_cursor() == pre.spec_cursor()
            &&& post.spec_anchor() == pre.spec_anchor()
        })
    }
}

/// What applying a redo does: the most recently undone change moves back
/// onto the undo stack and its edits are replayed forwards.
pub open spec fn redo_applied(pre: TextInputBuffer, post: TextInputBuffer) -> bool {
    let stack = pre.changes.redo_view();
    if stack.len() == 0 {
        &&& post.spec_lines() == pre.spec_lines()
        &&& post.spec_cursor() == pre.spec_cursor()
        &&& post.spec_anchor() == pre.spec_anchor()
        &&& logs_unchanged(pre, post)
    } else {
        let items = stack.last();
        &&& post.changes.redo_view() == stack.drop_last()
        &&& post.changes.undo_view() == pre.changes.undo_view().push(items)
        &&& (items_valid(pre.spec_lines(), items) ==> {
            &&& post.spec_lines() == apply_items(pre.spec_lines(), items)
            &&& post.spec_anchor() is None
        })
        &&& (!items_valid(pre.spec_lines(), items) ==> {
            &&& post.spec_lines() == pre.spec_lines()
            &&& post.spec_cursor() == pre.spec_cursor()
            &&& post.spec_anchor() == pre.spec_anchor()
        })
    }
}

/// The first and last line the selection touches, or the cursor's line.
pub open spec fn touched_lines(pre: TextInputBuffer) -> (int, int) {
    match pre.spec_selection_bounds() {
        Option::Some((s, e)) => (s.line as int, e.line as int),
        Option::None => (pre.spec_cursor().line as int, pre.spec_cursor().line as int),
    }
}

/// What applying one logical edit to a buffer does, clause by clause per
/// action kind. `pre` and `post` are the buffer before and after.
pub open spec fn edit_applied(
    edit: TextInputEdit,
    pre: TextInputBuffer,
    post: TextInputBuffer,
    max_chars: Option<usize>,
    filter: Option<TextInputFilter>,
) -> bool {
    let lines = pre.spec_lines();
    let cur = pre.spec_cursor();
    let vis = pre.spec_visible_lines();
    match edit {
        TextInputEdit::Motion(m, sel) => {
            &&& post.spec_lines() == lines
            &&& post.spec_cursor() == motion_target(lines, vis, cur, m)
            &&& post.spec_anchor() == (if sel {
                if pre.spec_anchor() is Some {
                    pre.spec_anchor()
                } else {
                    Option::Some(cur)
                }
            } else {
                Option::None
            })
            &&& logs_unchanged(pre, post)
            &&& misc_unchanged(pre, post)
        },
        TextInputEdit::Escape => {
            &&& post.spec_lines() == lines
            &&& post.spec_cursor() == cur
            &&& post.spec_anchor() is None
            &&& logs_unchanged(pre, post)
            &&& misc_unchanged(pre, post)
        },
        TextInputEdit::Insert(ch, overwrite) => {
            &&& insert_applied(ch, overwrite, pre, post, max_chars, filter)
            &&& misc_unchanged(pre, post)
        },
        TextInputEdit::Enter => {
            &&& match pre.spec_selection_bounds() {
                Option::Some((s, e)) => {
                    let mid = remove_range(lines, s, e);
                    &&& post.spec_lines() == apply_item(mid, insert_item(s, '\n'))
                    &&& post.spec_cursor() == cursor_after_insert(s, '\n')
                },
                Option::None => {
                    &&& post.spec_lines() == apply_item(lines, insert_item(cur, '\n'))
                    &&& post.spec_cursor() == cursor_after_insert(cur, '\n')
                },
            }
            &&& post.spec_anchor() is None
            &&& change_recorded(pre, post)
            &&& misc_unchanged(pre, post)
        },
        TextInputEdit::Backspace => {
            &&& match pre.spec_selection_bounds() {
                Option::Some((s, e)) => {
                    &&& post.spec_lines() == remove_range(lines, s, e)
                    &&& post.spec_cursor() == s
                    &&& (s != e ==> change_recorded(pre, post))
                    &&& (s == e ==> logs_unchanged(pre, post))
                },
                Option::None => {
                    if cur.index > 0 {
                        &&& post.spec_lines() == apply_item(
                            lines,
                            EditItem::DeleteChar {
                                line: cur.line,
                                index: (cur.index - 1) as usize,
                                ch: lines[cur.line as int][cur.index - 1],
                            },
                        )
                        &&& post.spec_cursor() == (Cursor {
                            line: cur.line,
                            index: (cur.index - 1) as usize,
                        })
                        &&& change_recorded(pre, post)
                    } else if cur.line > 0 {
                        &&& post.spec_lines() == apply_item(
                            lines,
                            EditItem::JoinLines {
                                line: (cur.line - 1) as usize,
                                index: lines[cur.line - 1].len() as usize,
                            },
                        )
                        &&& post.spec_cursor() == (Cursor {
                            line: (cur.line - 1) as usize,
                            index: lines[cur.line - 1].len() as usize,
                        })
                        &&& change_recorded(pre, post)
                    } else {
                        &&& post.spec_lines() == lines
                        &&& post.spec_cursor() == cur
                        &&& logs_unchanged(pre, post)
                    }
                },
            }
            &&& post.spec_anchor() is None
            &&& misc_unchanged(pre, post)
        },
        TextInputEdit::Delete => {
            &&& match pre.spec_selection_bounds() {
                Option::Some((s, e)) => {
                    &&& post.spec_lines() == remove_range(lines, s, e)
                    &&& post.spec_cursor() == s
                    &&& (s != e ==> change_recorded(pre, post))
                    &&& (s == e ==> logs_unchanged(pre, post))
                },
                Option::None => {
                    if cur.index < lines[cur.line as int].len() {
                        &&& post.spec_lines() == apply_item(
                            lines,
                            EditItem::DeleteChar {
                                line: cur.line,
                                index: cur.index,
                                ch: lines[cur.line as int][cur.index as int],
                            },
                        )
                        &&& post.spec_cursor() == cur
                        &&& change_recorded(pre, post)
                    } else if cur.line + 1 < lines.len() {
                        &&& post.spec_lines() == apply_item(
                            lines,
                            EditItem::JoinLines { line: cur.line, index: cur.index },
                        )
                        &&& post.spec_cursor() == cur
                        &&& change_recorded(pre, post)
                    } else {
                        &&& post.spec_lines() == lines
                        &&& post.spec_cursor() == cur
                        &&& logs_unchanged(pre, post)
                    }
                },
            }
            &&& post.spec_anchor() is None
            &&& misc_unchanged(pre, post)
        },
        TextInputEdit::Indent => {
            let (lo, hi) = touched_lines(pre);
            &&& post.spec_lines() == indented(lines, lo, hi)
            &&& post.spec_cursor() == cur
            &&& post.spec_anchor() == pre.spec_anchor()
            &&& change_recorded(pre, post)
            &&& misc_unchanged(pre, post)
        },
        TextInputEdit::Unindent => {
            let (lo, hi) = touched_lines(pre);
            &&& post.spec_lines() == unindented(lines, lo, hi)
            &&& (change_recorded(pre, post) || (post.spec_lines() == lines && logs_unchanged(
                pre,
                post,
            )))
            &&& misc_unchanged(pre, post)
        },
        TextInputEdit::Click { line, index } => {
            &&& post.spec_lines() == lines
            &&& post.spec_cursor() == TextInputBuffer::spec_clamped(
                lines,
                Cursor { line, index },
            )
            &&& post.spec_anchor() is None
            &&& logs_unchanged(pre, post)
            &&& misc_unchanged(pre, post)
        },
        TextInputEdit::DoubleClick { line, index } => {
            let p = TextInputBuffer::spec_clamped(lines, Cursor { line, index });
            let a = motion_target(lines, vis, p, Motion::LeftWord);
            let b = motion_target(lines, vis, a, Motion::RightWord);
            &&& post.spec_lines() == lines
            &&& post.spec_anchor() == Option::Some(a)
            &&& post.spec_cursor() == b
            &&& logs_unchanged(pre, post)
            &&& misc_unchanged(pre, post)
        },
        TextInputEdit::TripleClick { line, index } => {
            let p = TextInputBuffer::spec_clamped(lines, Cursor { line, index });
            let a = motion_target(lines, vis, p, Motion::ParagraphStart);
            let b = motion_target(lines, vis, a, Motion::ParagraphEnd);
            &&& post.spec_lines() == lines
            &&& post.spec_anchor() == Option::Some(a)
            &&& post.spec_cursor() == b
            &&& logs_unchanged(pre, post)
            &&& misc_unchanged(pre, post)
        },
        TextInputEdit::Drag { line, index } => {
            &&& post.spec_lines() == lines
            &&& post.spec_cursor() == TextInputBuffer::spec_clamped(
                lines,
                Cursor { line, index },
            )
            &&& post.spec_anchor() == (if pre.spec_anchor() is Some {
                pre.spec_anchor()
            } else {
                Option::Some(cur)
            })
            &&& logs_unchanged(pre, post)
            &&& misc_unchanged(pre, post)
        },
        TextInputEdit::Scroll { lines: delta } => {
            &&& post.spec_lines() == lines
            &&& post.spec_cursor() == cur
            &&& post.spec_anchor() == pre.spec_anchor()
            &&& logs_unchanged(pre, post)
            &&& post.wrap == pre.wrap
            &&& post.visible_lines == pre.visible_lines
            &&& post.spec_scroll() == scrolled(pre, delta as int)
        },
        TextInputEdit::ScrollUp => {
            &&& post.spec_lines() == lines
            &&& post.spec_cursor() == cur
            &&& post.spec_anchor() == pre.spec_anchor()
            &&& logs_unchanged(pre, post)
            &&& post.wrap == pre.wrap
            &&& post.visible_lines == pre.visible_lines
            &&& post.spec_scroll() == scrolled(pre, -1)
        },
        TextInputEdit::ScrollDown => {
            &&& post.spec_lines() == lines
            &&& post.spec_cursor() == cur
            &&& post.spec_anchor() == pre.spec_anchor()
            &&& logs_unchanged(pre, post)
            &&& post.wrap == pre.wrap
            &&& post.visible_lines == pre.visible_lines
            &&& post.spec_scroll() == scrolled(pre, 1)
        },
        TextInputEdit::Paste(text) => {
            &&& paste_applied(text@, pre, post, max_chars, filter)
            &&& misc_unchanged(pre, post)
        },
        TextInputEdit::Undo => {
            &&& undo_applied(pre, post)
            &&& misc_unchanged(pre, post)
        },
        TextInputEdit::Redo => {
            &&& redo_applied(pre, post)
            &&& misc_unchanged(pre, post)
        },
        TextInputEdit::SelectAll => {
            &&& post.spec_lines() == lines
            &&& post.spec_anchor() == Option::Some(Cursor { line: 0, index: 0 })
            &&& post.spec_cursor() == (Cursor {
                line: (lines.len() - 1) as usize,
                index: lines.last().len() as usize,
            })
            &&& logs_unchanged(pre, post)
            &&& misc_unchanged(pre, post)
        },
    }
}

/// Where a scroll by `delta` lines puts the scroll offset.
pub open spec fn scrolled(pre: TextInputBuffer, delta: int) -> int {
    let maxl = pre.spec_lines().len() - 1;
    let base = if pre.spec_scroll() <= maxl {
        pre.spec_scroll()
    } else {
        maxl
    };
    let target = base + delta;
    if target < 0 {
        0
    } else if target > maxl {
        maxl
    } else {
        target
    }
}

/// Applies one logical edit action to the buffer, bracketed as one
/// reversible change in the buffer's change log.
pub fn apply_edit(
    edit: TextInputEdit,
    buffer: &mut TextInputBuffer,
    max_chars: Option<usize>,
    filter: &Option<TextInputFilter>,
)
    requires
        old(buffer).wf(),
    ensures
        final(buffer).wf(),
        final(buffer).spec_pending().len() == 0,
        edit_applied(edit, *old(buffer), *final(buffer), max_chars, *filter),
{
    buffer.start_change();
    let ghost pre = *buffer;
    match edit {
        TextInputEdit::Motion(m, sel) => {
            if sel {
                if buffer.selection_anchor().is_none() {
                    buffer.anchor_selection_at_cursor();
                }
            } else {
                buffer.escape();
            }
            buffer.move_to(m);
        }
        TextInputEdit::Escape => {
            buffer.escape();
        }
        TextInputEdit::Insert(ch, overwrite) => {
            if buffer.selection_anchor().is_some() {
                let _ = buffer.delete_selection();
                buffer.insert_char(ch);
            } else if overwrite && !buffer.cursor_at_line_end() {
                buffer.delete_forward();
                buffer.insert_char(ch);
            } else {
                let fits = match max_chars {
                    None => true,
                    Some(m) => buffer.buffer_len() < m,
                };
                if fits {
                    let saved = buffer.cursor();
                    buffer.insert_char(ch);
                    let accepted = match filter {
                        None => true,
                        Some(f) => {
                            let text = buffer.get_text();
                            f.is_match(text.as_str())
                        }
                    };
                    if !accepted {
                        buffer.rollback_pending();
                        buffer.cursor = saved;
                    }
                }
            }
        }
        TextInputEdit::Enter => {
            let _ = buffer.delete_selection();
            buffer.insert_char('\n');
        }
        TextInputEdit::Backspace => {
            if !buffer.delete_selection() {
                buffer.backspace();
            }
        }
        TextInputEdit::Delete => {
            if !buffer.delete_selection() {
                buffer.delete_forward();
            }
        }
        TextInputEdit::Indent => {
            let (lo, hi) = match buffer.selection_bounds() {
                Some((s, e)) => (s.line, e.line),
                None => (buffer.cursor().line, buffer.cursor().line),
            };
            buffer.indent_range(lo, hi);
        }
        TextInputEdit::Unindent => {
            let (lo, hi) = match buffer.selection_bounds() {
                Some((s, e)) => (s.line, e.line),
                None => (buffer.cursor().line, buffer.cursor().line),
            };
            buffer.unindent_range(lo, hi);
        }
        TextInputEdit::Click { line, index } => {
            buffer.escape();
            buffer.cursor = Cursor { line, index };
            buffer.clamp_cursor();
        }
        TextInputEdit::DoubleClick { line, index } => {
            buffer.escape();
            buffer.cursor = Cursor { line, index };
            buffer.clamp_cursor();
            buffer.move_to(Motion::LeftWord);
            buffer.anchor_selection_at_cursor();
            buffer.move_to(Motion::RightWord);
        }
        TextInputEdit::TripleClick { line, index } => {
            buffer.escape();
            buffer.cursor = Cursor { line, index };
            buffer.clamp_cursor();
            buffer.move_to(Motion::ParagraphStart);
            buffer.anchor_selection_at_cursor();
            buffer.move_to(Motion::ParagraphEnd);
        }
        TextInputEdit::Drag { line, index } => {
            if buffer.selection_anchor().is_none() {
                buffer.anchor_selection_at_cursor();
            }
            buffer.cursor = Cursor { line, index };
            buffer.clamp_cursor();
        }
        TextInputEdit::Scroll { lines } => {
            buffer.scroll_lines(lines);
        }
        TextInputEdit::ScrollUp => {
            buffer.scroll_lines(-1);
        }
        TextInputEdit::ScrollDown => {
            buffer.scroll_lines(1);
        }
        TextInputEdit::Paste(text) => {
            buffer.escape();
            let tl = text.as_str().unicode_len();
            let fits = match max_chars {
                None => true,
                Some(m) => tl <= m && buffer.buffer_len() <= m - tl,
            };
            if fits {
                let saved = buffer.cursor();
                buffer.insert_string(text.as_str());
                let accepted = match filter {
                    None => true,
                    Some(f) => {
                        let whole = buffer.get_text();
                        f.is_match(whole.as_str())
                    }
                };
                if !accepted {
                    buffer.rollback_pending();
                    buffer.cursor = saved;
                }
            }
        }
        TextInputEdit::Undo => {
            match buffer.changes.undo() {
                Some(mut change) => {
                    change.reverse();
                    let _ = buffer.apply_change(&change.items);
                }
                None => {}
            }
        }
        TextInputEdit::Redo => {
            match buffer.changes.redo() {
                Some(change) => {
                    let _ = buffer.apply_change(&change.items);
                }
                None => {}
            }
        }
        TextInputEdit::SelectAll => {
            buffer.select_all();
        }
    }
    let recorded = buffer.finish_change();
    match recorded {
        Some(change) => {
            proof {
                assert(change.items@.len() > 0);
            }
            buffer.changes.push(change);
        }
        None => {}
    }
}

} // verus!
