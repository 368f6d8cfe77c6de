use text_input::Motion;
use text_input::SubmitText;
use text_input::TextInputBuffer;
use text_input::TextInputContents;
use text_input::TextInputGlobalState;
use text_input::TextInputMode;
use text_input::TextInputNode;
use text_input::TextInputQueue;
use text_input::Wrap;
use text_input::actions::TextInputAction;
use text_input::actions::TextInputEdit;
use text_input::edit::ClipboardPoll;
use text_input::edit::ClipboardReads;
use text_input::edit::Key;
use text_input::edit::KeyInput;
use text_input::edit::MultiClickData;
use text_input::edit::TextInputEffect;
use text_input::edit::clear_selection_on_focus_change;
use text_input::edit::mouse_wheel_scroll;
use text_input::edit::on_drag_text_input;
use text_input::edit::on_move_clear_multi_click;
use text_input::edit::on_multi_click_set_selection;
use text_input::edit::on_remove_unfocus;
use text_input::edit::on_text_input_pressed;
use text_input::edit::process_text_input_queue;
use text_input::edit::queue_text_input_action;
use text_input::update_text_input_contents;

fn buffer_with(text: &str) -> TextInputBuffer {
    let mut b = TextInputBuffer::new();
    b.insert_string(text);
    b
}

fn press(key: Key) -> KeyInput {
    KeyInput { key, pressed: true }
}

fn release(key: Key) -> KeyInput {
    KeyInput { key, pressed: false }
}

fn single_line_node() -> TextInputNode {
    TextInputNode {
        mode: TextInputMode::SingleLine,
        ..Default::default()
    }
}

#[test]
fn interpreter_inserts_characters() {
    let mode = TextInputMode::default();
    let mut st = TextInputGlobalState::default();
    let mut q = TextInputQueue::default();
    queue_text_input_action(&mode, &mut st, &press(Key::Character('x')), &mut q);
    match q.next() {
        Some(TextInputAction::Edit(TextInputEdit::Insert(c, ow))) => {
            assert_eq!(c, 'x');
            assert!(!ow);
        }
        other => panic!("unexpected action: {:?}", other),
    }
    assert!(q.is_empty());
}

#[test]
fn interpreter_tracks_modifiers_and_commands() {
    let mode = TextInputMode::default();
    let mut st = TextInputGlobalState::default();
    let mut q = TextInputQueue::default();
    queue_text_input_action(&mode, &mut st, &press(Key::Control), &mut q);
    assert!(st.command);
    assert!(q.is_empty());
    queue_text_input_action(&mode, &mut st, &press(Key::Character('z')), &mut q);
    assert!(matches!(
        q.next(),
        Some(TextInputAction::Edit(TextInputEdit::Undo))
    ));
    // Caps-lock tolerant: an upper-case letter binds the same command.
    queue_text_input_action(&mode, &mut st, &press(Key::Character('Y')), &mut q);
    assert!(matches!(
        q.next(),
        Some(TextInputAction::Edit(TextInputEdit::Redo))
    ));
    queue_text_input_action(&mode, &mut st, &press(Key::Character('a')), &mut q);
    assert!(matches!(
        q.next(),
        Some(TextInputAction::Edit(TextInputEdit::SelectAll))
    ));
    queue_text_input_action(&mode, &mut st, &press(Key::Character('v')), &mut q);
    assert!(matches!(q.next(), Some(TextInputAction::Paste)));
    queue_text_input_action(&mode, &mut st, &release(Key::Control), &mut q);
    assert!(!st.command);
    // An unrecognized command combination queues nothing.
    queue_text_input_action(&mode, &mut st, &press(Key::Control), &mut q);
    queue_text_input_action(&mode, &mut st, &press(Key::Character('q')), &mut q);
    assert!(q.is_empty());
}

#[test]
fn interpreter_enter_depends_on_mode_and_shift() {
    let mut st = TextInputGlobalState::default();
    let mut q = TextInputQueue::default();
    let multi = TextInputMode::default();
    queue_text_input_action(&multi, &mut st, &press(Key::Enter), &mut q);
    assert!(matches!(
        q.next(),
        Some(TextInputAction::Edit(TextInputEdit::Enter))
    ));
    let single = TextInputMode::SingleLine;
    queue_text_input_action(&single, &mut st, &press(Key::Enter), &mut q);
    assert!(matches!(q.next(), Some(TextInputAction::Submit)));
    queue_text_input_action(&multi, &mut st, &press(Key::Shift), &mut q);
    queue_text_input_action(&multi, &mut st, &press(Key::Enter), &mut q);
    assert!(matches!(q.next(), Some(TextInputAction::Submit)));
}

#[test]
fn interpreter_shift_delete_cuts() {
    let mode = TextInputMode::default();
    let mut st = TextInputGlobalState::default();
    let mut q = TextInputQueue::default();
    queue_text_input_action(&mode, &mut st, &press(Key::Shift), &mut q);
    queue_text_input_action(&mode, &mut st, &press(Key::Delete), &mut q);
    assert!(matches!(q.next(), Some(TextInputAction::Cut)));
}

#[test]
fn interpreter_tab_only_in_multi_line() {
    let mut st = TextInputGlobalState::default();
    let mut q = TextInputQueue::default();
    queue_text_input_action(&TextInputMode::SingleLine, &mut st, &press(Key::Tab), &mut q);
    assert!(q.is_empty());
    queue_text_input_action(&TextInputMode::default(), &mut st, &press(Key::Tab), &mut q);
    assert!(matches!(
        q.next(),
        Some(TextInputAction::Edit(TextInputEdit::Indent))
    ));
}

#[test]
fn interpreter_insert_key_toggles_overwrite() {
    let mode = TextInputMode::default();
    let mut st = TextInputGlobalState::default();
    let mut q = TextInputQueue::default();
    queue_text_input_action(&mode, &mut st, &press(Key::Insert), &mut q);
    assert!(st.overwrite_mode);
    assert!(q.is_empty());
    queue_text_input_action(&mode, &mut st, &press(Key::Character('x')), &mut q);
    match q.next() {
        Some(TextInputAction::Edit(TextInputEdit::Insert(_, ow))) => assert!(ow),
        other => panic!("unexpected action: {:?}", other),
    }
    queue_text_input_action(&mode, &mut st, &press(Key::Insert), &mut q);
    assert!(!st.overwrite_mode);
}

#[test]
fn submit_fires_event_and_clears() {
    // Scenario: single-line buffer "abc", Enter submits with text "abc";
    // with clear-on-submit the buffer empties afterwards.
    let node = single_line_node();
    let mut buffer = buffer_with("abc");
    let mut st = TextInputGlobalState::default();
    let mut queue = TextInputQueue::default();
    queue_text_input_action(&node.mode, &mut st, &press(Key::Enter), &mut queue);
    let mut clip = ClipboardReads::new();
    let mut effects: Vec<TextInputEffect> = Vec::new();
    process_text_input_queue(7, &node, &mut buffer, &mut queue, &mut clip, &mut effects);
    assert!(queue.is_empty());
    match &effects[0] {
        TextInputEffect::Submitted(SubmitText { entity, text }) => {
            assert_eq!(*entity, 7);
            assert_eq!(text, "abc");
        }
        other => panic!("unexpected effect: {:?}", other),
    }
    assert_eq!(buffer.get_text(), "");
    match effects.last() {
        Some(TextInputEffect::Unfocus(entity)) => assert_eq!(*entity, 7),
        other => panic!("unexpected effect: {:?}", other),
    }
}

#[test]
fn submit_without_clear_keeps_text() {
    let node = TextInputNode {
        mode: TextInputMode::SingleLine,
        clear_on_submit: false,
        unfocus_on_submit: false,
        ..Default::default()
    };
    let mut buffer = buffer_with("abc");
    let mut queue = TextInputQueue::default();
    queue.add(TextInputAction::Submit);
    let mut clip = ClipboardReads::new();
    let mut effects: Vec<TextInputEffect> = Vec::new();
    process_text_input_queue(1, &node, &mut buffer, &mut queue, &mut clip, &mut effects);
    assert_eq!(buffer.get_text(), "abc");
    assert_eq!(effects.len(), 1);
}

#[test]
fn copy_and_cut_write_selection() {
    let node = TextInputNode::default();
    let mut buffer = buffer_with("hello");
    let mut queue = TextInputQueue::default();
    queue.add(TextInputAction::Edit(TextInputEdit::SelectAll));
    queue.add(TextInputAction::Copy);
    let mut clip = ClipboardReads::new();
    let mut effects: Vec<TextInputEffect> = Vec::new();
    process_text_input_queue(1, &node, &mut buffer, &mut queue, &mut clip, &mut effects);
    match &effects[0] {
        TextInputEffect::ClipboardWrite(text) => assert_eq!(text, "hello"),
        other => panic!("unexpected effect: {:?}", other),
    }
    assert_eq!(buffer.get_text(), "hello");

    let mut queue = TextInputQueue::default();
    queue.add(TextInputAction::Edit(TextInputEdit::SelectAll));
    queue.add(TextInputAction::Cut);
    let mut effects: Vec<TextInputEffect> = Vec::new();
    process_text_input_queue(1, &node, &mut buffer, &mut queue, &mut clip, &mut effects);
    match &effects[0] {
        TextInputEffect::ClipboardWrite(text) => assert_eq!(text, "hello"),
        other => panic!("unexpected effect: {:?}", other),
    }
    assert_eq!(buffer.get_text(), "");
}

#[test]
fn copy_without_selection_does_nothing() {
    let node = TextInputNode::default();
    let mut buffer = buffer_with("hello");
    let mut queue = TextInputQueue::default();
    queue.add(TextInputAction::Copy);
    let mut clip = ClipboardReads::new();
    let mut effects: Vec<TextInputEffect> = Vec::new();
    process_text_input_queue(1, &node, &mut buffer, &mut queue, &mut clip, &mut effects);
    assert!(effects.is_empty());
}

#[test]
fn multi_line_selection_copies_with_newline() {
    let node = TextInputNode::default();
    let mut buffer = buffer_with("ab\ncd");
    let mut queue = TextInputQueue::default();
    queue.add(TextInputAction::Edit(TextInputEdit::SelectAll));
    queue.add(TextInputAction::Copy);
    let mut clip = ClipboardReads::new();
    let mut effects: Vec<TextInputEffect> = Vec::new();
    process_text_input_queue(1, &node, &mut buffer, &mut queue, &mut clip, &mut effects);
    match &effects[0] {
        TextInputEffect::ClipboardWrite(text) => assert_eq!(text, "ab\ncd"),
        other => panic!("unexpected effect: {:?}", other),
    }
}

#[test]
fn paste_defers_until_clipboard_resolves() {
    let node = TextInputNode::default();
    let mut buffer = TextInputBuffer::new();
    let mut queue = TextInputQueue::default();
    queue.add(TextInputAction::Paste);
    let mut clip = ClipboardReads::new();
    let mut effects: Vec<TextInputEffect> = Vec::new();

    // First tick: the read is requested and the paste deferred.
    process_text_input_queue(1, &node, &mut buffer, &mut queue, &mut clip, &mut effects);
    let id = match &effects[0] {
        TextInputEffect::ClipboardReadRequested(id) => *id,
        other => panic!("unexpected effect: {:?}", other),
    };
    assert!(!queue.is_empty());
    assert_eq!(buffer.get_text(), "");

    // Second tick: still pending, the deferred paste is re-queued.
    clip.polls.push((id, ClipboardPoll::Pending));
    process_text_input_queue(1, &node, &mut buffer, &mut queue, &mut clip, &mut effects);
    assert!(!queue.is_empty());
    assert_eq!(buffer.get_text(), "");

    // Third tick: the read resolved, the paste applies.
    clip.polls.clear();
    clip.polls.push((id, ClipboardPoll::Ready(String::from("hi"))));
    process_text_input_queue(1, &node, &mut buffer, &mut queue, &mut clip, &mut effects);
    assert!(queue.is_empty());
    assert_eq!(buffer.get_text(), "hi");
}

#[test]
fn failed_clipboard_read_drops_paste() {
    let node = TextInputNode::default();
    let mut buffer = buffer_with("x");
    let mut queue = TextInputQueue::default();
    queue.add(TextInputAction::PasteDeferred(3));
    let mut clip = ClipboardReads::new();
    clip.polls.push((3, ClipboardPoll::Failed));
    let mut effects: Vec<TextInputEffect> = Vec::new();
    process_text_input_queue(1, &node, &mut buffer, &mut queue, &mut clip, &mut effects);
    assert!(queue.is_empty());
    assert_eq!(buffer.get_text(), "x");
    assert!(effects.is_empty());
}

#[test]
fn wrap_change_resets_cursor() {
    let node = TextInputNode {
        mode: TextInputMode::SingleLine,
        ..Default::default()
    };
    // A fresh buffer starts with the multi-line word-or-glyph wrap.
    let mut buffer = buffer_with("hello");
    assert_eq!(buffer.wrap(), Wrap::WordOrGlyph);
    let mut queue = TextInputQueue::default();
    let mut clip = ClipboardReads::new();
    let mut effects: Vec<TextInputEffect> = Vec::new();
    process_text_input_queue(1, &node, &mut buffer, &mut queue, &mut clip, &mut effects);
    assert_eq!(buffer.wrap(), Wrap::NoWrap);
    assert_eq!(buffer.cursor(), text_input::Cursor { line: 0, index: 0 });
}

#[test]
fn contents_update_follows_buffer() {
    let mut contents = TextInputContents::default();
    let buffer = buffer_with("hi");
    update_text_input_contents(&mut contents, &buffer);
    assert_eq!(contents.get(), "hi");
}

#[test]
fn multi_click_advances_word_then_paragraph() {
    let node = TextInputNode::default();
    let mut buffer = buffer_with("one two\nthree");
    // Put the cursor inside the first word.
    buffer.cursor = text_input::Cursor { line: 0, index: 2 };
    let mut data: Option<MultiClickData> = None;

    on_multi_click_set_selection(&node, &mut buffer, &mut data, 1000);
    assert_eq!(
        data,
        Some(MultiClickData {
            last_click_time_ms: 1000,
            click_count: 1
        })
    );
    assert!(buffer.selection_anchor().is_none());

    on_multi_click_set_selection(&node, &mut buffer, &mut data, 1200);
    assert_eq!(
        data,
        Some(MultiClickData {
            last_click_time_ms: 1200,
            click_count: 2
        })
    );
    // Word selected.
    assert_eq!(
        buffer.selection_anchor(),
        Some(text_input::Cursor { line: 0, index: 0 })
    );
    assert_eq!(buffer.cursor(), text_input::Cursor { line: 0, index: 3 });

    on_multi_click_set_selection(&node, &mut buffer, &mut data, 1500);
    assert!(data.is_none());
    // Paragraph (the whole first line) selected.
    assert_eq!(
        buffer.selection_anchor(),
        Some(text_input::Cursor { line: 0, index: 0 })
    );
    assert_eq!(buffer.cursor(), text_input::Cursor { line: 0, index: 7 });
}

#[test]
fn slow_second_click_restarts_tracking() {
    let node = TextInputNode::default();
    let mut buffer = buffer_with("word");
    let mut data = Some(MultiClickData {
        last_click_time_ms: 1000,
        click_count: 1,
    });
    on_multi_click_set_selection(&node, &mut buffer, &mut data, 5000);
    assert_eq!(
        data,
        Some(MultiClickData {
            last_click_time_ms: 5000,
            click_count: 1
        })
    );
    assert!(buffer.selection_anchor().is_none());
}

#[test]
fn pointer_move_resets_multi_click() {
    let mut data = Some(MultiClickData {
        last_click_time_ms: 1,
        click_count: 2,
    });
    on_move_clear_multi_click(&mut data);
    assert!(data.is_none());
}

#[test]
fn pointer_down_takes_focus_and_places_cursor() {
    let node = TextInputNode::default();
    let mut buffer = buffer_with("hello");
    let mut focus: Option<u64> = None;
    on_text_input_pressed(5, &node, &mut focus, &mut buffer, 0, 3);
    assert_eq!(focus, Some(5));
    assert_eq!(buffer.cursor(), text_input::Cursor { line: 0, index: 3 });
}

#[test]
fn disabled_widget_ignores_pointer_down() {
    let node = TextInputNode {
        is_enabled: false,
        ..Default::default()
    };
    let mut buffer = buffer_with("hello");
    let mut focus: Option<u64> = None;
    on_text_input_pressed(5, &node, &mut focus, &mut buffer, 0, 3);
    assert_eq!(focus, None);
}

#[test]
fn drag_on_focused_widget_extends_selection() {
    let node = TextInputNode::default();
    let mut buffer = buffer_with("hello");
    let mut focus: Option<u64> = None;
    on_text_input_pressed(5, &node, &mut focus, &mut buffer, 0, 1);
    on_drag_text_input(5, &node, &focus, &mut buffer, 0, 4);
    assert_eq!(
        buffer.selection_anchor(),
        Some(text_input::Cursor { line: 0, index: 1 })
    );
    assert_eq!(buffer.cursor(), text_input::Cursor { line: 0, index: 4 });
    // A drag aimed at another widget does nothing.
    on_drag_text_input(6, &node, &focus, &mut buffer, 0, 0);
    assert_eq!(buffer.cursor(), text_input::Cursor { line: 0, index: 4 });
}

#[test]
fn focus_change_clears_previous_selection() {
    let mut buffer = buffer_with("hello");
    let mut queue = TextInputQueue::default();
    queue.add(TextInputAction::Edit(TextInputEdit::SelectAll));
    let node = TextInputNode::default();
    let mut clip = ClipboardReads::new();
    let mut effects: Vec<TextInputEffect> = Vec::new();
    process_text_input_queue(1, &node, &mut buffer, &mut queue, &mut clip, &mut effects);
    assert!(buffer.selection_anchor().is_some());
    let mut previous = Some(1u64);
    clear_selection_on_focus_change(&mut previous, Some(2), &mut buffer);
    assert!(buffer.selection_anchor().is_none());
    assert_eq!(previous, Some(2));
}

#[test]
fn removing_focused_widget_releases_focus() {
    let mut focus = Some(4u64);
    on_remove_unfocus(&mut focus, 9);
    assert_eq!(focus, Some(4));
    on_remove_unfocus(&mut focus, 4);
    assert_eq!(focus, None);
}

#[test]
fn wheel_scrolls_only_multi_line() {
    let mut buffer = buffer_with("a\nb\nc");
    mouse_wheel_scroll(&TextInputNode::default(), &mut buffer, 2);
    assert_eq!(buffer.scroll_line, 2);
    let mut single = buffer_with("abc");
    let before = single.scroll_line;
    mouse_wheel_scroll(&single_line_node(), &mut single, 2);
    assert_eq!(single.scroll_line, before);
}

#[test]
fn add_front_jumps_the_queue() {
    let mut q = TextInputQueue::default();
    q.add(TextInputAction::Submit);
    q.add_front(TextInputAction::Copy);
    assert!(matches!(q.next(), Some(TextInputAction::Copy)));
    assert!(matches!(q.next(), Some(TextInputAction::Submit)));
    assert!(q.next().is_none());
}

#[test]
fn key_release_queues_nothing() {
    let mode = TextInputMode::default();
    let mut st = TextInputGlobalState::default();
    let mut q = TextInputQueue::default();
    queue_text_input_action(&mode, &mut st, &release(Key::Character('x')), &mut q);
    queue_text_input_action(&mode, &mut st, &release(Key::Enter), &mut q);
    assert!(q.is_empty());
}

#[test]
fn ctrl_arrows_move_by_words() {
    let mode = TextInputMode::default();
    let mut st = TextInputGlobalState::default();
    let mut q = TextInputQueue::default();
    queue_text_input_action(&mode, &mut st, &press(Key::Control), &mut q);
    queue_text_input_action(&mode, &mut st, &press(Key::ArrowLeft), &mut q);
    match q.next() {
        Some(TextInputAction::Edit(TextInputEdit::Motion(m, extend))) => {
            assert_eq!(m, Motion::PreviousWord);
            assert!(!extend);
        }
        other => panic!("unexpected action: {:?}", other),
    }
    queue_text_input_action(&mode, &mut st, &press(Key::Home), &mut q);
    match q.next() {
        Some(TextInputAction::Edit(TextInputEdit::Motion(m, _))) => {
            assert_eq!(m, Motion::BufferStart);
        }
        other => panic!("unexpected action: {:?}", other),
    }
}
