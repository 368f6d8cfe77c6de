use text_input::Cursor;
use text_input::Motion;
use text_input::TextInputBuffer;
use text_input::TextInputFilter;
use text_input::actions::TextInputActionsQueue;
use text_input::actions::TextInputEdit;
use text_input::actions::apply_edit;

fn buffer_with(text: &str) -> TextInputBuffer {
    let mut b = TextInputBuffer::new();
    b.insert_string(text);
    b
}

#[test]
fn empty_buffer_is_one_empty_line() {
    let b = TextInputBuffer::new();
    assert!(b.is_empty());
    assert_eq!(b.get_text(), "");
    assert_eq!(b.line_count(), 1);
    assert_eq!(b.buffer_len(), 0);
}

#[test]
fn insert_and_read_back() {
    let mut b = TextInputBuffer::new();
    b.insert_char('h');
    b.insert_char('i');
    assert_eq!(b.get_text(), "hi");
    assert_eq!(b.buffer_len(), 2);
    assert_eq!(b.cursor(), Cursor { line: 0, index: 2 });
}

#[test]
fn newlines_split_lines() {
    let b = buffer_with("ab\ncd");
    assert_eq!(b.line_count(), 2);
    assert_eq!(b.get_text(), "ab\ncd");
    assert_eq!(b.buffer_len(), 4);
    assert!(!b.is_empty());
}

#[test]
fn backspace_joins_lines() {
    let mut b = buffer_with("ab\ncd");
    apply_edit(
        TextInputEdit::Motion(Motion::Home, false),
        &mut b,
        None,
        &None,
    );
    apply_edit(TextInputEdit::Backspace, &mut b, None, &None);
    assert_eq!(b.get_text(), "abcd");
    assert_eq!(b.cursor(), Cursor { line: 0, index: 2 });
}

#[test]
fn backspace_at_buffer_start_is_noop() {
    let mut b = buffer_with("ab");
    apply_edit(
        TextInputEdit::Motion(Motion::BufferStart, false),
        &mut b,
        None,
        &None,
    );
    apply_edit(TextInputEdit::Backspace, &mut b, None, &None);
    assert_eq!(b.get_text(), "ab");
}

#[test]
fn delete_at_buffer_end_is_noop() {
    let mut b = buffer_with("ab");
    apply_edit(TextInputEdit::Delete, &mut b, None, &None);
    assert_eq!(b.get_text(), "ab");
}

#[test]
fn delete_removes_selection_first() {
    let mut b = buffer_with("hello world");
    // Select "world" by extending the selection over the last word.
    apply_edit(
        TextInputEdit::Motion(Motion::PreviousWord, true),
        &mut b,
        None,
        &None,
    );
    apply_edit(TextInputEdit::Backspace, &mut b, None, &None);
    assert_eq!(b.get_text(), "hello ");
}

#[test]
fn word_motions_cross_words() {
    let mut b = buffer_with("one two three");
    apply_edit(
        TextInputEdit::Motion(Motion::BufferStart, false),
        &mut b,
        None,
        &None,
    );
    apply_edit(
        TextInputEdit::Motion(Motion::NextWord, false),
        &mut b,
        None,
        &None,
    );
    assert_eq!(b.cursor(), Cursor { line: 0, index: 3 });
    apply_edit(
        TextInputEdit::Motion(Motion::NextWord, false),
        &mut b,
        None,
        &None,
    );
    assert_eq!(b.cursor(), Cursor { line: 0, index: 7 });
    apply_edit(
        TextInputEdit::Motion(Motion::PreviousWord, false),
        &mut b,
        None,
        &None,
    );
    assert_eq!(b.cursor(), Cursor { line: 0, index: 4 });
}

#[test]
fn home_and_end_move_within_line() {
    let mut b = buffer_with("ab\ncdef");
    apply_edit(
        TextInputEdit::Motion(Motion::Home, false),
        &mut b,
        None,
        &None,
    );
    assert_eq!(b.cursor(), Cursor { line: 1, index: 0 });
    apply_edit(
        TextInputEdit::Motion(Motion::End, false),
        &mut b,
        None,
        &None,
    );
    assert_eq!(b.cursor(), Cursor { line: 1, index: 4 });
}

#[test]
fn select_all_then_insert_replaces_everything() {
    let mut b = buffer_with("hello");
    apply_edit(TextInputEdit::SelectAll, &mut b, None, &None);
    apply_edit(TextInputEdit::Insert('X', false), &mut b, None, &None);
    assert_eq!(b.get_text(), "X");
    assert_eq!(b.cursor(), Cursor { line: 0, index: 1 });
    assert!(b.selection_anchor().is_none());
}

#[test]
fn overwrite_replaces_character_ahead() {
    let mut b = buffer_with("abc");
    apply_edit(
        TextInputEdit::Motion(Motion::BufferStart, false),
        &mut b,
        None,
        &None,
    );
    apply_edit(TextInputEdit::Insert('X', true), &mut b, None, &None);
    assert_eq!(b.get_text(), "Xbc");
    assert_eq!(b.cursor(), Cursor { line: 0, index: 1 });
}

#[test]
fn overwrite_at_line_end_inserts_plainly() {
    let mut b = buffer_with("ab");
    apply_edit(TextInputEdit::Insert('X', true), &mut b, None, &None);
    assert_eq!(b.get_text(), "abX");
}

#[test]
fn insert_rejected_by_filter_rolls_back() {
    // Scenario: empty buffer, max_chars five, positive-integer filter.
    let filter = Some(TextInputFilter::PositiveInteger);
    let mut b = TextInputBuffer::new();
    apply_edit(TextInputEdit::Insert('1', false), &mut b, Some(5), &filter);
    apply_edit(TextInputEdit::Insert('2', false), &mut b, Some(5), &filter);
    apply_edit(TextInputEdit::Insert('a', false), &mut b, Some(5), &filter);
    assert_eq!(b.get_text(), "12");
    assert_eq!(b.cursor(), Cursor { line: 0, index: 2 });
}

#[test]
fn insert_beyond_max_chars_is_dropped() {
    let mut b = TextInputBuffer::new();
    apply_edit(TextInputEdit::Insert('a', false), &mut b, Some(2), &None);
    apply_edit(TextInputEdit::Insert('b', false), &mut b, Some(2), &None);
    apply_edit(TextInputEdit::Insert('c', false), &mut b, Some(2), &None);
    assert_eq!(b.get_text(), "ab");
}

#[test]
fn paste_whole_or_nothing_on_length() {
    // Scenario: pasting three characters under a limit of two is fully
    // rejected.
    let mut b = TextInputBuffer::new();
    apply_edit(
        TextInputEdit::Paste(String::from("999")),
        &mut b,
        Some(2),
        &None,
    );
    assert_eq!(b.get_text(), "");
}

#[test]
fn paste_whole_or_nothing_on_filter() {
    let filter = Some(TextInputFilter::PositiveInteger);
    let mut b = buffer_with("1");
    apply_edit(
        TextInputEdit::Paste(String::from("2x")),
        &mut b,
        None,
        &filter,
    );
    assert_eq!(b.get_text(), "1");
    apply_edit(
        TextInputEdit::Paste(String::from("23")),
        &mut b,
        None,
        &filter,
    );
    assert_eq!(b.get_text(), "123");
}

#[test]
fn paste_multi_line_text() {
    let mut b = buffer_with("xy");
    apply_edit(
        TextInputEdit::Paste(String::from("a\nb")),
        &mut b,
        None,
        &None,
    );
    assert_eq!(b.get_text(), "xya\nb");
    assert_eq!(b.line_count(), 2);
}

#[test]
fn undo_with_empty_stack_is_noop() {
    // Scenario: multi-line buffer, undo with an empty undo stack.
    let mut b = buffer_with("ab\ncd");
    apply_edit(TextInputEdit::Undo, &mut b, None, &None);
    assert_eq!(b.get_text(), "ab\ncd");
}

#[test]
fn undo_restores_pre_action_text_and_redo_restores_it() {
    let mut b = TextInputBuffer::new();
    apply_edit(TextInputEdit::Insert('a', false), &mut b, None, &None);
    apply_edit(TextInputEdit::Insert('b', false), &mut b, None, &None);
    assert_eq!(b.get_text(), "ab");
    apply_edit(TextInputEdit::Undo, &mut b, None, &None);
    assert_eq!(b.get_text(), "a");
    apply_edit(TextInputEdit::Redo, &mut b, None, &None);
    assert_eq!(b.get_text(), "ab");
}

#[test]
fn undo_twice_then_redo_once() {
    // Scenario: insert two characters, undo both, redo one.
    let mut b = TextInputBuffer::new();
    apply_edit(TextInputEdit::Insert('a', false), &mut b, None, &None);
    apply_edit(TextInputEdit::Insert('b', false), &mut b, None, &None);
    apply_edit(TextInputEdit::Undo, &mut b, None, &None);
    apply_edit(TextInputEdit::Undo, &mut b, None, &None);
    assert_eq!(b.get_text(), "");
    apply_edit(TextInputEdit::Redo, &mut b, None, &None);
    assert_eq!(b.get_text(), "a");
}

#[test]
fn undo_restores_deleted_selection() {
    let mut b = buffer_with("hello");
    apply_edit(TextInputEdit::SelectAll, &mut b, None, &None);
    apply_edit(TextInputEdit::Delete, &mut b, None, &None);
    assert_eq!(b.get_text(), "");
    apply_edit(TextInputEdit::Undo, &mut b, None, &None);
    assert_eq!(b.get_text(), "hello");
}

#[test]
fn undo_restores_joined_lines() {
    let mut b = buffer_with("ab\ncd");
    apply_edit(
        TextInputEdit::Motion(Motion::Home, false),
        &mut b,
        None,
        &None,
    );
    apply_edit(TextInputEdit::Backspace, &mut b, None, &None);
    assert_eq!(b.get_text(), "abcd");
    apply_edit(TextInputEdit::Undo, &mut b, None, &None);
    assert_eq!(b.get_text(), "ab\ncd");
}

#[test]
fn fresh_edit_clears_redo() {
    // No stale redo after a fresh edit.
    let mut b = TextInputBuffer::new();
    apply_edit(TextInputEdit::Insert('a', false), &mut b, None, &None);
    apply_edit(TextInputEdit::Undo, &mut b, None, &None);
    apply_edit(TextInputEdit::Insert('z', false), &mut b, None, &None);
    apply_edit(TextInputEdit::Redo, &mut b, None, &None);
    assert_eq!(b.get_text(), "z");
}

#[test]
fn enter_splits_line() {
    let mut b = buffer_with("abcd");
    apply_edit(
        TextInputEdit::Motion(Motion::Left, false),
        &mut b,
        None,
        &None,
    );
    apply_edit(
        TextInputEdit::Motion(Motion::Left, false),
        &mut b,
        None,
        &None,
    );
    apply_edit(TextInputEdit::Enter, &mut b, None, &None);
    assert_eq!(b.get_text(), "ab\ncd");
    assert_eq!(b.cursor(), Cursor { line: 1, index: 0 });
}

#[test]
fn enter_replaces_selection() {
    let mut b = buffer_with("hello");
    apply_edit(TextInputEdit::SelectAll, &mut b, None, &None);
    apply_edit(TextInputEdit::Enter, &mut b, None, &None);
    assert_eq!(b.get_text(), "\n");
}

#[test]
fn escape_clears_selection() {
    let mut b = buffer_with("hello");
    apply_edit(TextInputEdit::SelectAll, &mut b, None, &None);
    assert!(b.selection_anchor().is_some());
    apply_edit(TextInputEdit::Escape, &mut b, None, &None);
    assert!(b.selection_anchor().is_none());
    assert_eq!(b.get_text(), "hello");
}

#[test]
fn indent_and_unindent_touched_lines() {
    let mut b = buffer_with("ab\ncd");
    apply_edit(TextInputEdit::SelectAll, &mut b, None, &None);
    apply_edit(TextInputEdit::Indent, &mut b, None, &None);
    assert_eq!(b.get_text(), "\tab\n\tcd");
    apply_edit(TextInputEdit::Unindent, &mut b, None, &None);
    assert_eq!(b.get_text(), "ab\ncd");
}

#[test]
fn unindent_without_tabs_is_noop() {
    let mut b = buffer_with("ab");
    apply_edit(TextInputEdit::Unindent, &mut b, None, &None);
    assert_eq!(b.get_text(), "ab");
    apply_edit(TextInputEdit::Undo, &mut b, None, &None);
    assert_eq!(b.get_text(), "ab");
}

#[test]
fn click_places_cursor_clamped() {
    let mut b = buffer_with("ab\ncd");
    apply_edit(
        TextInputEdit::Click { line: 0, index: 1 },
        &mut b,
        None,
        &None,
    );
    assert_eq!(b.cursor(), Cursor { line: 0, index: 1 });
    apply_edit(
        TextInputEdit::Click { line: 9, index: 9 },
        &mut b,
        None,
        &None,
    );
    assert_eq!(b.cursor(), Cursor { line: 1, index: 2 });
}

#[test]
fn double_click_selects_word() {
    let mut b = buffer_with("one two");
    apply_edit(
        TextInputEdit::DoubleClick { line: 0, index: 5 },
        &mut b,
        None,
        &None,
    );
    assert_eq!(b.selection_anchor(), Some(Cursor { line: 0, index: 4 }));
    assert_eq!(b.cursor(), Cursor { line: 0, index: 7 });
}

#[test]
fn triple_click_selects_paragraph() {
    let mut b = buffer_with("one two\nthree");
    apply_edit(
        TextInputEdit::TripleClick { line: 0, index: 3 },
        &mut b,
        None,
        &None,
    );
    assert_eq!(b.selection_anchor(), Some(Cursor { line: 0, index: 0 }));
    assert_eq!(b.cursor(), Cursor { line: 0, index: 7 });
}

#[test]
fn drag_extends_selection() {
    let mut b = buffer_with("abcdef");
    apply_edit(
        TextInputEdit::Click { line: 0, index: 1 },
        &mut b,
        None,
        &None,
    );
    apply_edit(
        TextInputEdit::Drag { line: 0, index: 4 },
        &mut b,
        None,
        &None,
    );
    assert_eq!(b.selection_anchor(), Some(Cursor { line: 0, index: 1 }));
    assert_eq!(b.cursor(), Cursor { line: 0, index: 4 });
}

#[test]
fn scroll_clamps_to_buffer() {
    let mut b = buffer_with("a\nb\nc\nd");
    apply_edit(TextInputEdit::Scroll { lines: 2 }, &mut b, None, &None);
    assert_eq!(b.scroll_line, 2);
    apply_edit(TextInputEdit::Scroll { lines: 10 }, &mut b, None, &None);
    assert_eq!(b.scroll_line, 3);
    apply_edit(TextInputEdit::ScrollUp, &mut b, None, &None);
    assert_eq!(b.scroll_line, 2);
    apply_edit(TextInputEdit::Scroll { lines: -10 }, &mut b, None, &None);
    assert_eq!(b.scroll_line, 0);
    apply_edit(TextInputEdit::ScrollDown, &mut b, None, &None);
    assert_eq!(b.scroll_line, 1);
}

#[test]
fn page_motions_move_by_visible_lines() {
    let mut b = buffer_with("a\nb\nc\nd\ne");
    b.set_visible_lines(2);
    apply_edit(
        TextInputEdit::Motion(Motion::BufferStart, false),
        &mut b,
        None,
        &None,
    );
    apply_edit(
        TextInputEdit::Motion(Motion::PageDown, false),
        &mut b,
        None,
        &None,
    );
    assert_eq!(b.cursor(), Cursor { line: 2, index: 0 });
    apply_edit(
        TextInputEdit::Motion(Motion::PageUp, false),
        &mut b,
        None,
        &None,
    );
    assert_eq!(b.cursor(), Cursor { line: 0, index: 0 });
}

#[test]
fn undo_restores_rejected_free_state_after_paste() {
    let mut b = buffer_with("ab");
    apply_edit(
        TextInputEdit::Paste(String::from("XY")),
        &mut b,
        None,
        &None,
    );
    assert_eq!(b.get_text(), "abXY");
    apply_edit(TextInputEdit::Undo, &mut b, None, &None);
    assert_eq!(b.get_text(), "ab");
    apply_edit(TextInputEdit::Redo, &mut b, None, &None);
    assert_eq!(b.get_text(), "abXY");
}

#[test]
fn actions_queue_is_first_in_first_out() {
    let mut q = TextInputActionsQueue::default();
    q.push(1, TextInputEdit::Enter);
    q.push(2, TextInputEdit::Backspace);
    match q.pop() {
        Some((entity, TextInputEdit::Enter)) => assert_eq!(entity, 1),
        other => panic!("unexpected entry: {:?}", other),
    }
    match q.pop() {
        Some((entity, TextInputEdit::Backspace)) => assert_eq!(entity, 2),
        other => panic!("unexpected entry: {:?}", other),
    }
    assert!(q.pop().is_none());
}

#[test]
fn selection_replace_puts_cursor_after_character() {
    // Deleting the selection and inserting is one replace: selection gone,
    // cursor right after the inserted character.
    let mut b = buffer_with("ab\ncd");
    apply_edit(TextInputEdit::SelectAll, &mut b, None, &None);
    apply_edit(TextInputEdit::Insert('z', false), &mut b, None, &None);
    assert!(b.selection_anchor().is_none());
    assert_eq!(b.cursor(), Cursor { line: 0, index: 1 });
    assert_eq!(b.get_text(), "z");
}
