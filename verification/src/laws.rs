//! The general laws of the edit pipeline, stated over the spec functions
//! that the operations' contracts use, and proved once and for all.
use vstd::prelude::*;

use crate::TextInputFilter;
use crate::actions::change_recorded;
use crate::actions::insert_applied;
use crate::actions::paste_applied;
use crate::actions::redo_applied;
use crate::actions::undo_applied;
use crate::buffer::Cursor;
use crate::buffer::TextInputBuffer;
use crate::buffer::char_count;
use crate::buffer::cursor_after_insert;
use crate::buffer::cursor_valid;
use crate::buffer::insert_item;
use crate::buffer::insert_text_state;
use crate::buffer::lemma_char_count_apply_item;
use crate::buffer::lemma_char_count_remove_range;
use crate::buffer::remove_range;
use crate::changes::EditItem;
use crate::changes::apply_item;
use crate::changes::apply_items;
use crate::changes::invert_items;
use crate::changes::items_valid;
use crate::changes::lemma_change_round_trip;

verus! {

/// One insert action never pushes the character count past the configured
/// maximum, as long as the count was below the maximum before it: whichever
/// way the insert resolves (replacing a selection, overwriting in place,
/// inserting plainly, or being rejected), the result stays within bounds.
pub proof fn lemma_insert_respects_max(
    ch: char,
    overwrite: bool,
    pre: TextInputBuffer,
    post: TextInputBuffer,
    m: usize,
    filter: Option<TextInputFilter>,
)
    requires
        pre.wf(),
        insert_applied(ch, overwrite, pre, post, Some(m), filter),
        char_count(pre.spec_lines()) < m,
    ensures
        char_count(post.spec_lines()) <= m,
{
    let lines = pre.spec_lines();
    let cur = pre.spec_cursor();
    match pre.spec_selection_bounds() {
        Option::Some((s, e)) => {
            let mid = remove_range(lines, s, e);
            lemma_char_count_remove_range(lines, s, e);
            assert(cursor_valid(mid, s)) by {
                assert(mid.len() == s.line + 1 + (lines.len() - e.line - 1));
                assert(mid[s.line as int] == lines[s.line as int].take(s.index as int) + lines[
                    e.line as int].skip(e.index as int));
            }
            lemma_char_count_apply_item(mid, insert_item(s, ch));
        }
        Option::None => {
            if overwrite && cur.index < lines[cur.line as int].len() {
                let del = EditItem::DeleteChar {
                    line: cur.line,
                    index: cur.index,
                    ch: lines[cur.line as int][cur.index as int],
                };
                let mid = apply_item(lines, del);
                lemma_char_count_apply_item(lines, del);
                assert(cursor_valid(mid, cur));
                lemma_char_count_apply_item(mid, insert_item(cur, ch));
            } else {
                if post.spec_lines() != lines {
                    lemma_char_count_apply_item(lines, insert_item(cur, ch));
                }
            }
        }
    }
}

/// For any run of insert actions where the character count is below the
/// maximum before each insert, the count never exceeds the maximum.
///
/// `states` are the buffer states around the run: `states[i]` before the
/// `i`-th insert, `states[i + 1]` after it.
pub proof fn lemma_insert_run_bounded(
    states: Seq<TextInputBuffer>,
    keys: Seq<(char, bool)>,
    m: usize,
    filter: Option<TextInputFilter>,
)
    requires
        keys.len() >= 1,
        states.len() == keys.len() + 1,
        forall|i: int| 0 <= i < states.len() ==> (#[trigger] states[i]).wf(),
        forall|i: int|
            0 <= i < keys.len() ==> #[trigger] insert_applied(
                keys[i].0,
                keys[i].1,
                states[i],
                states[i + 1],
                Some(m),
                filter,
            ),
        forall|i: int|
            0 <= i < keys.len() ==> char_count((#[trigger] states[i]).spec_lines()) < m,
    ensures
        char_count(states.last().spec_lines()) <= m,
{
    let k = keys.len() - 1;
    lemma_insert_respects_max(keys[k].0, keys[k].1, states[k], states[k + 1], m, filter);
    assert(states.last() == states[k + 1]);
}

/// Pasting is atomic: either the whole pasted text is inserted, or the
/// buffer text is exactly what it was — no partial paste is reachable.
pub proof fn lemma_paste_atomic(
    text: Seq<char>,
    pre: TextInputBuffer,
    post: TextInputBuffer,
    max_chars: Option<usize>,
    filter: Option<TextInputFilter>,
)
    requires
        paste_applied(text, pre, post, max_chars, filter),
    ensures
        post.spec_lines() == insert_text_state(pre.spec_lines(), pre.spec_cursor(), text).0
            || post.spec_lines() == pre.spec_lines(),
{
}

/// Deleting the selection and then inserting a character is one "replace
/// selection": the selection is always gone afterwards and the cursor sits
/// right after the inserted character.
///
/// `mid` is the buffer after the deletion, `post` after the insertion; the
/// hypotheses are the two operations' contracts.
pub proof fn lemma_replace_selection(
    pre: TextInputBuffer,
    mid: TextInputBuffer,
    post: TextInputBuffer,
    s: Cursor,
    e: Cursor,
    ch: char,
)
    requires
        pre.spec_selection_bounds() == Some((s, e)),
        mid.spec_lines() == remove_range(pre.spec_lines(), s, e),
        mid.spec_cursor() == s,
        mid.spec_anchor() is None,
        post.spec_lines() == apply_item(mid.spec_lines(), insert_item(s, ch)),
        post.spec_cursor() == cursor_after_insert(mid.spec_cursor(), ch),
        post.spec_anchor() == mid.spec_anchor(),
    ensures
        post.spec_anchor() is None,
        post.spec_cursor() == cursor_after_insert(s, ch),
        post.spec_lines() == apply_item(remove_range(pre.spec_lines(), s, e), insert_item(s, ch)),
{
}

/// Undo then redo is a round trip: replaying a recorded change backwards
/// restores the text it started from, and replaying it forwards again
/// restores the edited text.
pub proof fn lemma_undo_redo_round_trip(lines: Seq<Seq<char>>, items: Seq<EditItem>)
    requires
        items_valid(lines, items),
    ensures
        items_valid(apply_items(lines, items), invert_items(items)),
        apply_items(apply_items(lines, items), invert_items(items)) == lines,
        apply_items(apply_items(apply_items(lines, items), invert_items(items)), items)
            == apply_items(lines, items),
{
    lemma_change_round_trip(lines, items);
}


/// Undo after any recorded action restores the buffer text to its exact
/// pre-action value, and redo after that undo restores the post-action
/// value: `pre` is the buffer before the action, `mid` after it, `post`
/// after the undo, `again` after the redo.
pub proof fn lemma_undo_after_action_restores(
    pre: TextInputBuffer,
    mid: TextInputBuffer,
    post: TextInputBuffer,
    again: TextInputBuffer,
)
    requires
        change_recorded(pre, mid),
        undo_applied(mid, post),
        redo_applied(post, again),
    ensures
        post.spec_lines() == pre.spec_lines(),
        again.spec_lines() == mid.spec_lines(),
{
    let items = choose|items: Seq<EditItem>|
        {
            &&& items.len() > 0
            &&& items_valid(pre.spec_lines(), items)
            &&& apply_items(pre.spec_lines(), items) == mid.spec_lines()
            &&& mid.changes.undo_view() == pre.changes.undo_view().push(items)
            &&& mid.changes.redo_view().len() == 0
        };
    assert(mid.changes.undo_view().last() == items);
    lemma_change_round_trip(pre.spec_lines(), items);
    assert(post.spec_lines() == pre.spec_lines());
    assert(post.changes.redo_view() == mid.changes.redo_view().push(items));
    assert(post.changes.redo_view().last() == items);
    assert(again.spec_lines() == apply_items(post.spec_lines(), items));
}

} // verus!
