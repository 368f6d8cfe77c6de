//! The action interpreter and the per-tick action pipeline.
//!
//! [`queue_text_input_action`] turns one raw keyboard event, given the
//! widget's mode and the shared modifier state, into the logical actions it
//! queues. [`process_text_input_queue`] drains one widget's queue each tick,
//! applying every action through [`apply_edit`] and emitting the outward
//! effects (submissions, clipboard traffic, focus release) for the host to
//! perform.
use vstd::prelude::*;

use crate::SubmitText;
use crate::TextInputGlobalState;
use crate::TextInputMode;
use crate::TextInputNode;
use crate::TextInputQueue;
use crate::actions::TextInputAction;
use crate::actions::TextInputEdit;
use crate::actions::apply_edit;
use crate::actions::edit_applied;
use crate::buffer::Cursor;
use crate::buffer::Motion;
use crate::buffer::TextInputBuffer;
use crate::buffer::motion_target;
use crate::buffer::range_text;
use crate::buffer::remove_range;
use crate::changes::Change;
use crate::changes::apply_items;
use crate::changes::invert_items;
use crate::changes::items_valid;

verus! {

/// A logical key of a keyboard event, as the host's input backend reports
/// it. Multi-character inputs are delivered as one event per character.
#[derive(Copy, Clone, Debug, PartialEq, Eq, Structural)]
pub enum Key {
    /// A printable character.
    Character(char),
    Space,
    Enter,
    Backspace,
    Delete,
    PageUp,
    PageDown,
    ArrowLeft,
    ArrowRight,
    ArrowUp,
    ArrowDown,
    Home,
    End,
    Escape,
    Tab,
    Insert,
    Shift,
    Control,
    /// The platform's command key, treated like Control.
    Super,
    /// Any key this widget does not react to.
    Other,
}

/// One keyboard event: a key went down (`pressed`) or up.
#[derive(Copy, Clone, Debug, PartialEq, Eq, Structural)]
pub struct KeyInput {
    pub key: Key,
    pub pressed: bool,
}

/// The modifier state after one keyboard event: shift and command track the
/// respective keys, and the Insert key (without shift, on press) toggles
/// overwrite mode.
pub open spec fn interpreted_state(
    st: TextInputGlobalState,
    key: KeyInput,
) -> TextInputGlobalState {
    match key.key {
        Key::Shift => TextInputGlobalState {
            shift: key.pressed,
            command: st.command,
            overwrite_mode: st.overwrite_mode,
        },
        Key::Control | Key::Super => TextInputGlobalState {
            shift: st.shift,
            command: key.pressed,
            overwrite_mode: st.overwrite_mode,
        },
        Key::Insert => {
            if key.pressed && !st.command && !st.shift {
                TextInputGlobalState {
                    shift: st.shift,
                    command: st.command,
                    overwrite_mode: !st.overwrite_mode,
                }
            } else {
                st
            }
        },
        _ => st,
    }
}

/// The command bound to a character pressed while command is held.
/// Character-to-command matching tolerates caps lock: both cases bind.
pub open spec fn command_actions(c: char, shift: bool) -> Seq<TextInputAction> {
    if (c == 'c' || c == 'C') && !shift {
        seq![TextInputAction::Copy]
    } else if (c == 'x' || c == 'X') && !shift {
        seq![TextInputAction::Cut]
    } else if (c == 'v' || c == 'V') && !shift {
        seq![TextInputAction::Paste]
    } else if (c == 'z' || c == 'Z') && !shift {
        seq![TextInputAction::Edit(TextInputEdit::Undo)]
    } else if (c == 'z' || c == 'Z') && shift {
        seq![TextInputAction::Edit(TextInputEdit::Redo)]
    } else if (c == 'y' || c == 'Y') && !shift {
        seq![TextInputAction::Edit(TextInputEdit::Redo)]
    } else if (c == 'a' || c == 'A') && !shift {
        seq![TextInputAction::Edit(TextInputEdit::SelectAll)]
    } else {
        Seq::empty()
    }
}

/// The actions one keyboard event queues, given the widget's mode and the
/// modifier state before the event. Unrecognized combinations queue
/// nothing.
pub open spec fn interpreted_actions(
    mode: TextInputMode,
    st: TextInputGlobalState,
    key: KeyInput,
) -> Seq<TextInputAction> {
    let multi = mode matches TextInputMode::MultiLine { .. };
    if !key.pressed {
        Seq::empty()
    } else {
        match key.key {
            Key::Shift | Key::Control | Key::Super | Key::Insert | Key::Other => Seq::empty(),
            Key::Character(c) => {
                if st.command {
                    command_actions(c, st.shift)
                } else {
                    seq![TextInputAction::Edit(TextInputEdit::Insert(c, st.overwrite_mode))]
                }
            },
            Key::Space => {
                if st.command {
                    Seq::empty()
                } else {
                    seq![TextInputAction::Edit(TextInputEdit::Insert(' ', st.overwrite_mode))]
                }
            },
            Key::Enter => {
                if st.command {
                    Seq::empty()
                } else if !st.shift && multi {
                    seq![TextInputAction::Edit(TextInputEdit::Enter)]
                } else {
                    seq![TextInputAction::Submit]
                }
            },
            Key::Backspace => {
                if st.command {
                    Seq::empty()
                } else {
                    seq![TextInputAction::Edit(TextInputEdit::Backspace)]
                }
            },
            Key::Delete => {
                if st.command {
                    Seq::empty()
                } else if st.shift {
                    seq![TextInputAction::Cut]
                } else {
                    seq![TextInputAction::Edit(TextInputEdit::Delete)]
                }
            },
            Key::PageUp => {
                if st.command {
                    Seq::empty()
                } else {
                    seq![
                        TextInputAction::Edit(TextInputEdit::Motion(Motion::PageUp, st.shift)),
                    ]
                }
            },
            Key::PageDown => {
                if st.command {
                    Seq::empty()
                } else {
                    seq![
                        TextInputAction::Edit(TextInputEdit::Motion(Motion::PageDown, st.shift)),
                    ]
                }
            },
            Key::ArrowLeft => {
                if st.command {
                    seq![
                        TextInputAction::Edit(
                            TextInputEdit::Motion(Motion::PreviousWord, st.shift),
                        ),
                    ]
                } else {
                    seq![TextInputAction::Edit(TextInputEdit::Motion(Motion::Left, st.shift))]
                }
            },
            Key::ArrowRight => {
                if st.command {
                    seq![
                        TextInputAction::Edit(TextInputEdit::Motion(Motion::NextWord, st.shift)),
                    ]
                } else {
                    seq![TextInputAction::Edit(TextInputEdit::Motion(Motion::Right, st.shift))]
                }
            },
            Key::ArrowUp => {
                if st.command {
                    if multi {
                        seq![TextInputAction::Edit(TextInputEdit::Scroll { lines: -1i32 })]
                    } else {
                        Seq::empty()
                    }
                } else {
                    seq![TextInputAction::Edit(TextInputEdit::Motion(Motion::Up, st.shift))]
                }
            },
            Key::ArrowDown => {
                if st.command {
                    if multi {
                        seq![TextInputAction::Edit(TextInputEdit::Scroll { lines: 1i32 })]
                    } else {
                        Seq::empty()
                    }
                } else {
                    seq![TextInputAction::Edit(TextInputEdit::Motion(Motion::Down, st.shift))]
                }
            },
            Key::Home => {
                if st.command {
                    seq![
                        TextInputAction::Edit(
                            TextInputEdit::Motion(Motion::BufferStart, st.shift),
                        ),
                    ]
                } else {
                    seq![TextInputAction::Edit(TextInputEdit::Motion(Motion::Home, st.shift))]
                }
            },
            Key::End => {
                if st.command {
                    seq![
                        TextInputAction::Edit(TextInputEdit::Motion(Motion::BufferEnd, st.shift)),
                    ]
                } else {
                    seq![TextInputAction::Edit(TextInputEdit::Motion(Motion::End, st.shift))]
                }
            },
            Key::Escape => {
                if st.command {
                    Seq::empty()
                } else {
                    seq![TextInputAction::Edit(TextInputEdit::Escape)]
                }
            },
            Key::Tab => {
                if st.command || !multi {
                    Seq::empty()
                } else if st.shift {
                    seq![TextInputAction::Edit(TextInputEdit::Unindent)]
                } else {
                    seq![TextInputAction::Edit(TextInputEdit::Indent)]
                }
            },
        }
    }
}

/// Maps one raw keyboard event into the logical actions it stands for,
/// updating the shared modifier state and appending the actions to the
/// widget's queue.
pub fn queue_text_input_action(
    input_mode: &TextInputMode,
    state: &mut TextInputGlobalState,
    keyboard_input: &KeyInput,
    queue: &mut TextInputQueue,
)
    ensures
        *final(state) == interpreted_state(*old(state), *keyboard_input),
        final(queue).actions@ == old(queue).actions@ + interpreted_actions(
            *input_mode,
            *old(state),
            *keyboard_input,
        ),
{
    let ghost emitted = interpreted_actions(*input_mode, *old(state), *keyboard_input);
    let multi = input_mode.is_multi_line();
    let pressed = keyboard_input.pressed;
    match keyboard_input.key {
        Key::Shift => {
            state.shift = pressed;
        }
        Key::Control | Key::Super => {
            state.command = pressed;
        }
        Key::Insert => {
            if pressed && !state.command && !state.shift {
                state.overwrite_mode = !state.overwrite_mode;
            }
        }
        Key::Other => {}
        Key::Character(c) => {
            if pressed {
                if state.command {
                    match (c, state.shift) {
                        ('c', false) | ('C', false) => {
                            queue.add(TextInputAction::Copy);
                        }
                        ('x', false) | ('X', false) => {
                            queue.add(TextInputAction::Cut);
                        }
                        ('v', false) | ('V', false) => {
                            queue.add(TextInputAction::Paste);
                        }
                        ('z', false) | ('Z', false) => {
                            queue.add(TextInputAction::Edit(TextInputEdit::Undo));
                        }
                        ('z', true) | ('Z', true) => {
                            queue.add(TextInputAction::Edit(TextInputEdit::Redo));
                        }
                        ('y', false) | ('Y', false) => {
                            queue.add(TextInputAction::Edit(TextInputEdit::Redo));
                        }
                        ('a', false) | ('A', false) => {
                            queue.add(TextInputAction::Edit(TextInputEdit::SelectAll));
                        }
                        _ => {}
                    }
                } else {
                    queue.add(
                        TextInputAction::Edit(TextInputEdit::Insert(c, state.overwrite_mode)),
                    );
                }
            }
        }
        Key::Space => {
            if pressed && !state.command {
                queue.add(
                    TextInputAction::Edit(TextInputEdit::Insert(' ', state.overwrite_mode)),
                );
            }
        }
        Key::Enter => {
            if pressed && !state.command {
                if !state.shift && multi {
                    queue.add(TextInputAction::Edit(TextInputEdit::Enter));
                } else {
                    queue.add(TextInputAction::Submit);
                }
            }
        }
        Key::Backspace => {
            if pressed && !state.command {
                queue.add(TextInputAction::Edit(TextInputEdit::Backspace));
            }
        }
        Key::Delete => {
            if pressed && !state.command {
                if state.shift {
                    queue.add(TextInputAction::Cut);
                } else {
                    queue.add(TextInputAction::Edit(TextInputEdit::Delete));
                }
            }
        }
        Key::PageUp => {
            if pressed && !state.command {
                queue.add(
                    TextInputAction::Edit(TextInputEdit::Motion(Motion::PageUp, state.shift)),
                );
            }
        }
        Key::PageDown => {
            if pressed && !state.command {
                queue.add(
                    TextInputAction::Edit(TextInputEdit::Motion(Motion::PageDown, state.shift)),
                );
            }
        }
        Key::ArrowLeft => {
            if pressed {
                let m = if state.command {
                    Motion::PreviousWord
                } else {
                    Motion::Left
                };
                queue.add(TextInputAction::Edit(TextInputEdit::Motion(m, state.shift)));
            }
        }
        Key::ArrowRight => {
            if pressed {
                let m = if state.command {
                    Motion::NextWord
                } else {
                    Motion::Right
                };
                queue.add(TextInputAction::Edit(TextInputEdit::Motion(m, state.shift)));
            }
        }
        Key::ArrowUp => {
            if pressed {
                if state.command {
                    if multi {
                        queue.add(TextInputAction::Edit(TextInputEdit::Scroll { lines: -1 }));
                    }
                } else {
                    queue.add(
                        TextInputAction::Edit(TextInputEdit::Motion(Motion::Up, state.shift)),
                    );
                }
            }
        }
        Key::ArrowDown => {
            if pressed {
                if state.command {
                    if multi {
                        queue.add(TextInputAction::Edit(TextInputEdit::Scroll { lines: 1 }));
                    }
                } else {
                    queue.add(
                        TextInputAction::Edit(TextInputEdit::Motion(Motion::Down, state.shift)),
                    );
                }
            }
        }
        Key::Home => {
            if pressed {
                let m = if state.command {
                    Motion::BufferStart
                } else {
                    Motion::Home
                };
                queue.add(TextInputAction::Edit(TextInputEdit::Motion(m, state.shift)));
            }
        }
        Key::End => {
            if pressed {
                let m = if state.command {
                    Motion::BufferEnd
                } else {
                    Motion::End
                };
                queue.add(TextInputAction::Edit(TextInputEdit::Motion(m, state.shift)));
            }
        }
        Key::Escape => {
            if pressed && !state.command {
                queue.add(TextInputAction::Edit(TextInputEdit::Escape));
            }
        }
        Key::Tab => {
            if pressed && !state.command && multi {
                if state.shift {
                    queue.add(TextInputAction::Edit(TextInputEdit::Unindent));
                } else {
                    queue.add(TextInputAction::Edit(TextInputEdit::Indent));
                }
            }
        }
    }
    proof {
        if emitted.len() == 0 {
            assert(old(queue).actions@ + emitted =~= old(queue).actions@);
        } else {
            assert(old(queue).actions@ + emitted =~= old(queue).actions@.push(emitted[0]));
        }
    }
}

/// Moves the cursor per a motion: extending anchors a selection at the
/// pre-move cursor if none is active; a plain motion clears the selection
/// first.
pub fn apply_motion(buffer: &mut TextInputBuffer, with_select: bool, motion: Motion)
    requires
        old(buffer).wf(),
    ensures
        final(buffer).wf(),
        edit_applied(
            TextInputEdit::Motion(motion, with_select),
            *old(buffer),
            *final(buffer),
            None,
            None,
        ),
{
    apply_edit(TextInputEdit::Motion(motion, with_select), buffer, None, &None);
}

/// A change-log entry to replay: either forwards (a redo) or reversed (an
/// undo).
pub enum ChangeAction {
    /// Replay the change as recorded.
    Do(Change),
    /// Replay the change backwards, reverting it.
    Undo(Change),
}

/// Replays a change-log entry against the buffer: forwards for `Do`,
/// backwards for `Undo`. A stale entry that no longer fits the buffer
/// leaves it unchanged.
pub fn apply_action(buffer: &mut TextInputBuffer, action: &ChangeAction) -> (ok: bool)
    requires
        old(buffer).wf(),
        old(buffer).spec_pending().len() == 0,
    ensures
        final(buffer).wf(),
        final(buffer).spec_pending().len() == 0,
        action matches ChangeAction::Do(c) ==> {
            &&& (items_valid(old(buffer).spec_lines(), c.items@) ==> ok
                && final(buffer).spec_lines() == apply_items(old(buffer).spec_lines(), c.items@))
            &&& (!items_valid(old(buffer).spec_lines(), c.items@) ==> !ok
                && final(buffer).spec_lines() == old(buffer).spec_lines())
        },
        action matches ChangeAction::Undo(c) ==> {
            &&& (items_valid(old(buffer).spec_lines(), invert_items(c.items@)) ==> ok
                && final(buffer).spec_lines() == apply_items(
                old(buffer).spec_lines(),
                invert_items(c.items@),
            ))
            &&& (!items_valid(old(buffer).spec_lines(), invert_items(c.items@)) ==> !ok
                && final(buffer).spec_lines() == old(buffer).spec_lines())
        },
{
    match action {
        ChangeAction::Do(change) => buffer.apply_change(&change.items),
        ChangeAction::Undo(change) => {
            let mut reversed = change.duplicate();
            reversed.reverse();
            buffer.apply_change(&reversed.items)
        }
    }
}



/// Removing the range from the buffer start to the buffer end leaves one
/// empty line.
proof fn lemma_remove_all(lines: Seq<Seq<char>>)
    requires
        lines.len() >= 1,
        lines.len() <= usize::MAX,
        lines.last().len() <= usize::MAX,
    ensures
        remove_range(
            lines,
            Cursor { line: 0, index: 0 },
            Cursor { line: (lines.len() - 1) as usize, index: lines.last().len() as usize },
        ) == seq![Seq::<char>::empty()],
{
    let e = Cursor { line: (lines.len() - 1) as usize, index: lines.last().len() as usize };
    assert(lines[e.line as int] == lines.last());
    assert(lines[e.line as int].skip(e.index as int) =~= Seq::<char>::empty());
    assert(remove_range(lines, Cursor { line: 0, index: 0 }, e) =~~= seq![
        Seq::<char>::empty(),
    ]);
}

/// The state of one asynchronous clipboard read, as the host's poll
/// reports it.
#[derive(Clone, Debug)]
pub enum ClipboardPoll {
    /// The read has not resolved yet.
    Pending,
    /// The read resolved to this text.
    Ready(String),
    /// The read failed; the paste is dropped.
    Failed,
}


/// The first recorded outcome for `id`, front of the table first.
pub open spec fn spec_first_poll(polls: Seq<(u64, ClipboardPoll)>, id: u64) -> ClipboardPoll
    decreases polls.len(),
{
    if polls.len() == 0 {
        ClipboardPoll::Pending
    } else if polls[0].0 == id {
        polls[0].1
    } else {
        spec_first_poll(polls.drop_first(), id)
    }
}

/// The in-flight clipboard reads: the host polls each read once per tick
/// and records the outcome here before the queues are drained.
pub struct ClipboardReads {
    /// Outcome of each read, by read id.
    pub polls: Vec<(u64, ClipboardPoll)>,
    /// The next read id to hand out.
    pub next_id: u64,
}

impl ClipboardReads {
    /// No reads in flight.
    pub fn new() -> (r: ClipboardReads)
        ensures
            r.polls@.len() == 0,
            r.next_id == 0,
    {
        ClipboardReads { polls: Vec::new(), next_id: 0 }
    }

    /// What the poll table says of read `id`: the first entry with that id,
    /// or `Pending` when there is none.
    pub open spec fn spec_poll_of(&self, id: u64) -> ClipboardPoll {
        spec_first_poll(self.polls@, id)
    }

    /// Hands out a fresh read id.
    pub fn alloc_id(&mut self) -> (r: u64)
        ensures
            r == old(self).next_id,
            final(self).next_id == (if old(self).next_id < u64::MAX {
                old(self).next_id + 1
            } else {
                u64::MAX as int
            }),
            final(self).polls@ == old(self).polls@,
    {
        let id = self.next_id;
        if self.next_id < u64::MAX {
            self.next_id = self.next_id + 1;
        }
        id
    }

    /// The recorded outcome of read `id`, `Pending` when none is recorded.
    pub fn poll_of(&self, id: u64) -> (r: ClipboardPoll)
        ensures
            (self.spec_poll_of(id) is Pending) == (r is Pending),
            (self.spec_poll_of(id) is Failed) == (r is Failed),
            self.spec_poll_of(id) matches ClipboardPoll::Ready(t) ==> {
                &&& r matches ClipboardPoll::Ready(t2)
                &&& t2@ == t@
            },
    {
        let mut i: usize = 0;
        let n = self.polls.len();
        proof {
            assert(self.polls@.skip(0) =~= self.polls@);
        }
        while i < n
            invariant
                n == self.polls@.len(),
                i <= n,
                spec_first_poll(self.polls@, id) == spec_first_poll(
                    self.polls@.skip(i as int),
                    id,
                ),
            decreases n - i,
        {
            proof {
                assert(self.polls@.skip(i as int)[0] == self.polls@[i as int]);
                assert(self.polls@.skip(i as int).drop_first() =~= self.polls@.skip(i + 1));
            }
            if self.polls[i].0 == id {
                let r = match &self.polls[i].1 {
                    ClipboardPoll::Pending => ClipboardPoll::Pending,
                    ClipboardPoll::Ready(text) => ClipboardPoll::Ready(text.clone()),
                    ClipboardPoll::Failed => ClipboardPoll::Failed,
                };
                return r;
            }
            i = i + 1;
        }
        proof {
            assert(self.polls@.skip(n as int) =~= Seq::<(u64, ClipboardPoll)>::empty());
        }
        ClipboardPoll::Pending
    }
}

/// An outward effect of one processing tick, for the host to perform.
#[derive(Clone, Debug)]
pub enum TextInputEffect {
    /// A submission event fired with the widget's text.
    Submitted(SubmitText),
    /// Write this text to the clipboard (fire and forget).
    ClipboardWrite(String),
    /// Start an asynchronous clipboard read under this id.
    ClipboardReadRequested(u64),
    /// Release keyboard focus from this widget.
    Unfocus(u64),
}


/// One queued action's complete effect, as a relation: `pre` and `post` are
/// the buffer around the action, `requeued` what the action appended to the
/// widget's queue, `emitted` what it appended to the tick's effects, `next0`
/// and `next1` the read-id counter around it, and `polls` the tick's poll
/// table.
pub open spec fn action_step(
    entity: u64,
    node: TextInputNode,
    pre: TextInputBuffer,
    post: TextInputBuffer,
    action: TextInputAction,
    requeued: Seq<TextInputAction>,
    emitted: Seq<TextInputEffect>,
    next0: u64,
    next1: u64,
    polls: Seq<(u64, ClipboardPoll)>,
) -> bool {
    match action {
        TextInputAction::Edit(e) => {
            &&& edit_applied(e, pre, post, node.max_chars, node.filter)
            &&& requeued.len() == 0
            &&& emitted.len() == 0
            &&& next1 == next0
        },
        TextInputAction::Submit => {
            &&& emitted.len() == 1 + (if node.unfocus_on_submit {
                1int
            } else {
                0int
            })
            &&& (emitted[0] matches TextInputEffect::Submitted(sub) && sub.entity == entity
                && sub.text@ == pre.spec_text())
            &&& (node.unfocus_on_submit ==> emitted[1] == TextInputEffect::Unfocus(entity))
            &&& (node.clear_on_submit ==> post.spec_lines() == seq![Seq::<char>::empty()])
            &&& (!node.clear_on_submit ==> post == pre)
            &&& requeued.len() == 0
            &&& next1 == next0
        },
        TextInputAction::Copy => {
            &&& post == pre
            &&& (pre.spec_selection_bounds() matches Some((s, e)) ==> emitted.len() == 1 && (
            emitted[0] matches TextInputEffect::ClipboardWrite(t) && t@ == range_text(
                pre.spec_lines(),
                s,
                e,
            )))
            &&& (pre.spec_selection_bounds() is None ==> emitted.len() == 0)
            &&& requeued.len() == 0
            &&& next1 == next0
        },
        TextInputAction::Cut => {
            &&& (pre.spec_selection_bounds() matches Some((s, e)) ==> {
                &&& edit_applied(TextInputEdit::Delete, pre, post, node.max_chars, node.filter)
                &&& emitted.len() == 1
                &&& (emitted[0] matches TextInputEffect::ClipboardWrite(t) && t@ == range_text(
                    pre.spec_lines(),
                    s,
                    e,
                ))
            })
            &&& (pre.spec_selection_bounds() is None ==> post == pre && emitted.len() == 0)
            &&& requeued.len() == 0
            &&& next1 == next0
        },
        TextInputAction::Paste => {
            &&& post == pre
            &&& emitted == seq![TextInputEffect::ClipboardReadRequested(next0)]
            &&& requeued == seq![TextInputAction::PasteDeferred(next0)]
            &&& next1 == (if next0 < u64::MAX {
                (next0 + 1) as u64
            } else {
                u64::MAX
            })
        },
        TextInputAction::PasteDeferred(id) => {
            &&& (spec_first_poll(polls, id) is Pending ==> requeued == seq![
                TextInputAction::PasteDeferred(id),
            ] && post == pre && emitted.len() == 0)
            &&& (spec_first_poll(polls, id) matches ClipboardPoll::Ready(text) ==> edit_applied(
                TextInputEdit::Paste(text),
                pre,
                post,
                node.max_chars,
                node.filter,
            ) && requeued.len() == 0 && emitted.len() == 0)
            &&& (spec_first_poll(polls, id) is Failed ==> post == pre && requeued.len() == 0
                && emitted.len() == 0)
            &&& next1 == next0
        },
    }
}

/// Applies one queued action: an edit goes through [`apply_edit`], the
/// clipboard and submission actions are handled around it. Deferred pastes
/// whose read is still pending are appended to the queue, to be processed
/// next tick.
pub fn apply_text_input_action(
    entity: u64,
    node: &TextInputNode,
    buffer: &mut TextInputBuffer,
    action: TextInputAction,
    queue: &mut TextInputQueue,
    clip: &mut ClipboardReads,
    effects: &mut Vec<TextInputEffect>,
)
    requires
        old(buffer).wf(),
    ensures
        final(buffer).wf(),
        final(queue).actions@.len() <= old(queue).actions@.len() + 1,
        forall|i: int|
            0 <= i < final(queue).actions@.len() ==> (if i < old(queue).actions@.len() {
                final(queue).actions@[i] == old(queue).actions@[i]
            } else {
                final(queue).actions@[i] is PasteDeferred
            }),
        old(effects)@ == final(effects)@.take(old(effects)@.len() as int),
        final(effects)@.len() >= old(effects)@.len(),
        final(buffer).wrap == old(buffer).wrap,
        final(clip).polls@ == old(clip).polls@,
        action_step(
            entity,
            *node,
            *old(buffer),
            *final(buffer),
            action,
            final(queue).actions@.skip(old(queue).actions@.len() as int),
            final(effects)@.skip(old(effects)@.len() as int),
            old(clip).next_id,
            final(clip).next_id,
            old(clip).polls@,
        ),
        action matches TextInputAction::Edit(e) ==> {
            &&& edit_applied(e, *old(buffer), *final(buffer), node.max_chars, node.filter)
            &&& final(queue).actions@ == old(queue).actions@
            &&& final(effects)@ == old(effects)@
        },
        action is Submit ==> {
            &&& (exists|t: String|
                {
                    &&& final(effects)@.len() > old(effects)@.len()
                    &&& final(effects)@[old(effects)@.len() as int]
                        == TextInputEffect::Submitted(SubmitText { entity, text: t })
                    &&& t@ == old(buffer).spec_text()
                })
            &&& (node.clear_on_submit ==> final(buffer).spec_lines() == seq![
                Seq::<char>::empty(),
            ])
            &&& (!node.clear_on_submit ==> *final(buffer) == *old(buffer))
            &&& (node.unfocus_on_submit ==> final(effects)@.last() == TextInputEffect::Unfocus(
                entity,
            ))
            &&& final(effects)@.len() == old(effects)@.len() + 1 + (if node.unfocus_on_submit {
                1int
            } else {
                0int
            })
            &&& final(queue).actions@ == old(queue).actions@
        },
        action is Copy ==> {
            &&& *final(buffer) == *old(buffer)
            &&& (old(buffer).spec_selection_bounds() matches Some((s, e)) ==> exists|t: String|
                {
                    &&& final(effects)@ == old(effects)@.push(
                        TextInputEffect::ClipboardWrite(t),
                    )
                    &&& t@ == range_text(old(buffer).spec_lines(), s, e)
                })
            &&& (old(buffer).spec_selection_bounds() is None ==> final(effects)@ == old(effects)@)
            &&& final(queue).actions@ == old(queue).actions@
        },
        action is Cut ==> {
            &&& (old(buffer).spec_selection_bounds() matches Some((s, e)) ==> {
                &&& edit_applied(
                    TextInputEdit::Delete,
                    *old(buffer),
                    *final(buffer),
                    node.max_chars,
                    node.filter,
                )
                &&& exists|t: String|
                    {
                        &&& final(effects)@ == old(effects)@.push(
                            TextInputEffect::ClipboardWrite(t),
                        )
                        &&& t@ == range_text(old(buffer).spec_lines(), s, e)
                    }
            })
            &&& (old(buffer).spec_selection_bounds() is None ==> *final(buffer) == *old(buffer)
                && final(effects)@ == old(effects)@)
            &&& final(queue).actions@ == old(queue).actions@
        },
        action is Paste ==> {
            &&& *final(buffer) == *old(buffer)
            &&& final(effects)@ == old(effects)@.push(
                TextInputEffect::ClipboardReadRequested(old(clip).next_id),
            )
            &&& final(queue).actions@ == old(queue).actions@.push(
                TextInputAction::PasteDeferred(old(clip).next_id),
            )
        },
        action matches TextInputAction::PasteDeferred(id) ==> {
            &&& (old(clip).spec_poll_of(id) is Pending ==> final(queue).actions@ == old(queue).actions@.push(TextInputAction::PasteDeferred(id)) && *final(buffer) == *old(buffer))
            &&& (old(clip).spec_poll_of(id) matches ClipboardPoll::Ready(text) ==> edit_applied(
                TextInputEdit::Paste(text),
                *old(buffer),
                *final(buffer),
                node.max_chars,
                node.filter,
            ) && final(queue).actions@ == old(queue).actions@)
            &&& (old(clip).spec_poll_of(id) is Failed ==> *final(buffer) == *old(buffer)
                && final(queue).actions@ == old(queue).actions@)
        },
{
    let ghost act = action;
    let ghost pre = *buffer;
    let ghost q0 = queue.actions@;
    let ghost e0 = effects@;
    let ghost n0 = clip.next_id;
    let ghost polls0 = clip.polls@;
    match action {
        TextInputAction::Submit => {
            let text = buffer.get_text();
            effects.push(TextInputEffect::Submitted(SubmitText { entity, text }));
            if node.clear_on_submit {
                apply_edit(TextInputEdit::SelectAll, buffer, node.max_chars, &node.filter);
                let ghost mid = *buffer;
                let nlines = buffer.line_count();
                let last_len = buffer.line_len(nlines - 1);
                apply_edit(TextInputEdit::Delete, buffer, node.max_chars, &node.filter);
                proof {
                    assert(mid.spec_lines().last() == mid.spec_lines()[mid.spec_lines().len()
                        - 1]);
                    lemma_remove_all(mid.spec_lines());
                }
            }
            if node.unfocus_on_submit {
                effects.push(TextInputEffect::Unfocus(entity));
            }
            proof {
                if node.unfocus_on_submit {
                    assert(effects@.skip(e0.len() as int) =~= seq![
                        effects@[e0.len() as int],
                        effects@[e0.len() as int + 1],
                    ]);
                } else {
                    assert(effects@.skip(e0.len() as int) =~= seq![effects@[e0.len() as int]]);
                }
                assert(queue.actions@.skip(q0.len() as int) =~= Seq::<TextInputAction>::empty());
            }
        }
        TextInputAction::Copy => {
            match buffer.selection_text() {
                Some(text) => {
                    effects.push(TextInputEffect::ClipboardWrite(text));
                    proof {
                        assert(effects@.skip(e0.len() as int) =~= seq![
                            effects@[e0.len() as int],
                        ]);
                    }
                }
                None => {}
            }
            proof {
                assert(queue.actions@.skip(q0.len() as int) =~= Seq::<TextInputAction>::empty());
                if pre.spec_selection_bounds() is None {
                    assert(effects@.skip(e0.len() as int) =~= Seq::<TextInputEffect>::empty());
                }
            }
        }
        TextInputAction::Cut => {
            match buffer.selection_text() {
                Some(text) => {
                    effects.push(TextInputEffect::ClipboardWrite(text));
                    apply_edit(TextInputEdit::Delete, buffer, node.max_chars, &node.filter);
                    proof {
                        assert(effects@.skip(e0.len() as int) =~= seq![
                            effects@[e0.len() as int],
                        ]);
                    }
                }
                None => {}
            }
            proof {
                assert(queue.actions@.skip(q0.len() as int) =~= Seq::<TextInputAction>::empty());
                if pre.spec_selection_bounds() is None {
                    assert(effects@.skip(e0.len() as int) =~= Seq::<TextInputEffect>::empty());
                }
            }
        }
        TextInputAction::Paste => {
            let id = clip.alloc_id();
            effects.push(TextInputEffect::ClipboardReadRequested(id));
            queue.add(TextInputAction::PasteDeferred(id));
            proof {
                assert(effects@.skip(e0.len() as int) =~= seq![
                    TextInputEffect::ClipboardReadRequested(n0),
                ]);
                assert(queue.actions@.skip(q0.len() as int) =~= seq![
                    TextInputAction::PasteDeferred(n0),
                ]);
            }
        }
        TextInputAction::PasteDeferred(id) => {
            match clip.poll_of(id) {
                ClipboardPoll::Pending => {
                    queue.add(TextInputAction::PasteDeferred(id));
                    proof {
                        assert(queue.actions@.skip(q0.len() as int) =~= seq![
                            TextInputAction::PasteDeferred(id),
                        ]);
                    }
                }
                ClipboardPoll::Ready(text) => {
                    apply_edit(TextInputEdit::Paste(text), buffer, node.max_chars, &node.filter);
                    proof {
                        assert(queue.actions@.skip(q0.len() as int)
                            =~= Seq::<TextInputAction>::empty());
                    }
                }
                ClipboardPoll::Failed => {
                    proof {
                        assert(queue.actions@.skip(q0.len() as int)
                            =~= Seq::<TextInputAction>::empty());
                    }
                }
            }
            proof {
                assert(effects@.skip(e0.len() as int) =~= Seq::<TextInputEffect>::empty());
            }
        }
        TextInputAction::Edit(e) => {
            apply_edit(e, buffer, node.max_chars, &node.filter);
            proof {
                assert(queue.actions@.skip(q0.len() as int) =~= Seq::<TextInputAction>::empty());
                assert(effects@.skip(e0.len() as int) =~= Seq::<TextInputEffect>::empty());
            }
        }
    }
}




/// Names the parts of one link of an action chain; used only as the
/// quantifier trigger in [`drain_rel`].
pub open spec fn drain_link(
    mid: TextInputBuffer,
    r1: Seq<TextInputAction>,
    e1: Seq<TextInputEffect>,
    r2: Seq<TextInputAction>,
    e2: Seq<TextInputEffect>,
    nmid: u64,
) -> bool {
    true
}

/// What a whole batch of actions does, action by action: there is a chain
/// of intermediate buffer states, one [`action_step`] per action, whose
/// requeued actions and emitted effects concatenate in order to `requeued`
/// and `emitted`.
pub open spec fn drain_rel(
    entity: u64,
    node: TextInputNode,
    pre: TextInputBuffer,
    post: TextInputBuffer,
    actions: Seq<TextInputAction>,
    requeued: Seq<TextInputAction>,
    emitted: Seq<TextInputEffect>,
    next0: u64,
    next1: u64,
    polls: Seq<(u64, ClipboardPoll)>,
) -> bool
    decreases actions.len(),
{
    if actions.len() == 0 {
        post == pre && requeued.len() == 0 && emitted.len() == 0 && next1 == next0
    } else {
        exists|mid: TextInputBuffer, r1: Seq<TextInputAction>, e1: Seq<TextInputEffect>, r2: Seq<
            TextInputAction,
        >, e2: Seq<TextInputEffect>, nmid: u64|
            #![trigger drain_link(mid, r1, e1, r2, e2, nmid)]
            {
                &&& drain_link(mid, r1, e1, r2, e2, nmid)
                &&& action_step(entity, node, pre, mid, actions[0], r1, e1, next0, nmid, polls)
                &&& drain_rel(
                    entity,
                    node,
                    mid,
                    post,
                    actions.drop_first(),
                    r2,
                    e2,
                    nmid,
                    next1,
                    polls,
                )
                &&& requeued == r1 + r2
                &&& emitted == e1 + e2
            }
    }
}

/// One more action extends the chain at its end.
proof fn lemma_drain_rel_snoc(
    entity: u64,
    node: TextInputNode,
    pre: TextInputBuffer,
    mid: TextInputBuffer,
    post: TextInputBuffer,
    actions: Seq<TextInputAction>,
    a: TextInputAction,
    r1: Seq<TextInputAction>,
    e1: Seq<TextInputEffect>,
    r2: Seq<TextInputAction>,
    e2: Seq<TextInputEffect>,
    n0: u64,
    n1: u64,
    n2: u64,
    polls: Seq<(u64, ClipboardPoll)>,
)
    requires
        drain_rel(entity, node, pre, mid, actions, r1, e1, n0, n1, polls),
        action_step(entity, node, mid, post, a, r2, e2, n1, n2, polls),
    ensures
        drain_rel(entity, node, pre, post, actions.push(a), r1 + r2, e1 + e2, n0, n2, polls),
    decreases actions.len(),
{
    let pushed = actions.push(a);
    if actions.len() == 0 {
        assert(pushed[0] == a);
        assert(pushed.drop_first() =~= Seq::<TextInputAction>::empty());
        let empty_r = Seq::<TextInputAction>::empty();
        let empty_e = Seq::<TextInputEffect>::empty();
        assert(drain_rel(entity, node, post, post, pushed.drop_first(), empty_r, empty_e, n2, n2, polls));
        assert(action_step(entity, node, pre, post, pushed[0], r2, e2, n0, n2, polls));
        assert(r2 + empty_r =~= r2);
        assert(e2 + empty_e =~= e2);
        assert(r1 + r2 =~= r2);
        assert(e1 + e2 =~= e2);
        assert(drain_link(post, r2, e2, empty_r, empty_e, n2));
        assert(drain_rel(entity, node, pre, post, pushed, r2, e2, n0, n2, polls));
    } else {
        let (m, rr1, ee1, rr2, ee2, nm) = choose|m: TextInputBuffer, rr1: Seq<TextInputAction>, ee1: Seq<
            TextInputEffect,
        >, rr2: Seq<TextInputAction>, ee2: Seq<TextInputEffect>, nm: u64|
            #![trigger drain_link(m, rr1, ee1, rr2, ee2, nm)]
            {
                &&& drain_link(m, rr1, ee1, rr2, ee2, nm)
                &&& action_step(entity, node, pre, m, actions[0], rr1, ee1, n0, nm, polls)
                &&& drain_rel(
                    entity,
                    node,
                    m,
                    mid,
                    actions.drop_first(),
                    rr2,
                    ee2,
                    nm,
                    n1,
                    polls,
                )
                &&& r1 == rr1 + rr2
                &&& e1 == ee1 + ee2
            };
        lemma_drain_rel_snoc(
            entity,
            node,
            m,
            mid,
            post,
            actions.drop_first(),
            a,
            rr2,
            ee2,
            r2,
            e2,
            nm,
            n1,
            n2,
            polls,
        );
        assert(pushed[0] == actions[0]);
        assert(pushed.drop_first() =~= actions.drop_first().push(a));
        assert(rr1 + (rr2 + r2) =~= r1 + r2);
        assert(ee1 + (ee2 + e2) =~= e1 + e2);
        assert(action_step(entity, node, pre, m, pushed[0], rr1, ee1, n0, nm, polls));
        assert(drain_rel(entity, node, m, post, pushed.drop_first(), rr2 + r2, ee2 + e2, nm, n2, polls));
        assert(drain_link(m, rr1, ee1, rr2 + r2, ee2 + e2, nm));
        assert(drain_rel(entity, node, pre, post, pushed, rr1 + (rr2 + r2), ee1 + (ee2 + e2), n0, n2, polls));
    }
}

/// How a wrap-policy synchronization relates the buffer before and after:
/// nothing changes when the policies already agree; otherwise the policy is
/// adopted, the selection escaped and the cursor reset to the buffer start.
pub open spec fn wrap_synced(
    node: TextInputNode,
    pre: TextInputBuffer,
    synced: TextInputBuffer,
) -> bool {
    if pre.spec_wrap() == node.mode.spec_wrap() {
        synced == pre
    } else {
        &&& synced.spec_lines() == pre.spec_lines()
        &&& synced.spec_cursor() == (Cursor { line: 0, index: 0 })
        &&& synced.spec_anchor() is None
        &&& synced.spec_wrap() == node.mode.spec_wrap()
        &&& synced.spec_pending() == pre.spec_pending()
        &&& synced.changes.undo_view() == pre.changes.undo_view()
        &&& synced.changes.redo_view() == pre.changes.redo_view()
    }
}

/// Brings the buffer's wrap policy in line with the configured mode. When
/// they differ, the selection is escaped and the cursor reset to the buffer
/// start, since a wrap change invalidates the visual line layout the host
/// had.
pub fn sync_wrap(node: &TextInputNode, buffer: &mut TextInputBuffer)
    requires
        old(buffer).wf(),
    ensures
        final(buffer).wf(),
        final(buffer).spec_wrap() == node.mode.spec_wrap(),
        final(buffer).spec_lines() == old(buffer).spec_lines(),
        final(buffer).spec_pending() == old(buffer).spec_pending(),
        final(buffer).changes.undo_view() == old(buffer).changes.undo_view(),
        final(buffer).changes.redo_view() == old(buffer).changes.redo_view(),
        old(buffer).spec_wrap() == node.mode.spec_wrap() ==> *final(buffer) == *old(buffer),
        old(buffer).spec_wrap() != node.mode.spec_wrap() ==> {
            &&& final(buffer).spec_cursor() == (Cursor { line: 0, index: 0 })
            &&& final(buffer).spec_anchor() is None
        },
        wrap_synced(*node, *old(buffer), *final(buffer)),
{
    let target = node.mode.wrap();
    if !(buffer.wrap() == target) {
        buffer.escape();
        buffer.move_to(Motion::BufferStart);
        buffer.set_wrap(target);
    }
}

/// Drains one widget's action queue for one tick: the wrap policy is
/// synchronized first, then every queued action is applied in order.
/// Deferred pastes whose clipboard read is still pending are re-queued (the
/// queue afterwards holds nothing else), to be polled again next tick.
/// Outward effects are appended to `effects` in the order they arose.
pub fn process_text_input_queue(
    entity: u64,
    node: &TextInputNode,
    buffer: &mut TextInputBuffer,
    queue: &mut TextInputQueue,
    clip: &mut ClipboardReads,
    effects: &mut Vec<TextInputEffect>,
)
    requires
        old(buffer).wf(),
    ensures
        final(buffer).wf(),
        final(buffer).spec_wrap() == node.mode.spec_wrap(),
        forall|i: int|
            0 <= i < final(queue).actions@.len() ==> final(queue).actions@[i] is PasteDeferred,
        final(queue).actions@.len() <= old(queue).actions@.len(),
        old(effects)@ == final(effects)@.take(old(effects)@.len() as int),
        old(queue).actions@.len() == 0 ==> {
            &&& final(queue).actions@.len() == 0
            &&& final(effects)@ == old(effects)@
            &&& final(buffer).spec_lines() == old(buffer).spec_lines()
        },
        (forall|i: int|
            0 <= i < old(queue).actions@.len() ==> !((#[trigger] old(queue).actions@[i])
                is Paste) && !(old(queue).actions@[i] is PasteDeferred))
            ==> final(queue).actions@.len() == 0,
        final(clip).polls@ == old(clip).polls@,
        exists|start: TextInputBuffer| #![trigger wrap_synced(*node, *old(buffer), start)]
            {
                &&& wrap_synced(*node, *old(buffer), start)
                &&& drain_rel(
                    entity,
                    *node,
                    start,
                    *final(buffer),
                    old(queue).actions@,
                    final(queue).actions@,
                    final(effects)@.skip(old(effects)@.len() as int),
                    old(clip).next_id,
                    final(clip).next_id,
                    old(clip).polls@,
                )
            },
{
    sync_wrap(node, buffer);
    let ghost start = *buffer;
    let ghost e00 = old(effects)@;
    let ghost n00 = clip.next_id;
    let ghost polls0 = clip.polls@;
    let mut batch = TextInputQueue { actions: std::collections::VecDeque::new() };
    std::mem::swap(&mut batch, queue);
    let ghost batch0 = batch.actions@;
    let total = batch.actions.len();
    let mut processed: usize = 0;
    proof {
        assert(batch0.take(0) =~= Seq::<TextInputAction>::empty());
        assert(effects@.skip(e00.len() as int) =~= Seq::<TextInputEffect>::empty());
        assert(drain_rel(
            entity,
            *node,
            start,
            *buffer,
            batch0.take(0),
            queue.actions@,
            effects@.skip(e00.len() as int),
            n00,
            clip.next_id,
            polls0,
        ));
    }
    loop
        invariant
            buffer.wf(),
            buffer.spec_wrap() == node.mode.spec_wrap(),
            total == batch0.len(),
            processed <= total,
            old(effects)@.len() <= effects@.len(),
            batch.actions@ =~= batch0.skip(processed as int),
            forall|i: int|
                0 <= i < queue.actions@.len() ==> queue.actions@[i] is PasteDeferred,
            queue.actions@.len() <= processed,
            old(effects)@ == effects@.take(old(effects)@.len() as int),
            batch0.len() == 0 ==> queue.actions@.len() == 0 && effects@ == old(effects)@
                && buffer.spec_lines() == old(buffer).spec_lines(),
            (forall|i: int|
                0 <= i < batch0.len() ==> !((#[trigger] batch0[i]) is Paste) && !(batch0[i]
                    is PasteDeferred)) ==> queue.actions@.len() == 0,
            e00 == old(effects)@,
            clip.polls@ == polls0,
            drain_rel(
                entity,
                *node,
                start,
                *buffer,
                batch0.take(processed as int),
                queue.actions@,
                effects@.skip(e00.len() as int),
                n00,
                clip.next_id,
                polls0,
            ),
        ensures
            batch.actions@.len() == 0,
        decreases batch.actions@.len(),
    {
        let next = batch.next();
        match next {
            None => {
                break;
            }
            Some(action) => {
                let ghost q0 = queue.actions@;
                let ghost e0 = effects@;
                let ghost buf0 = *buffer;
                let ghost nid0 = clip.next_id;
                apply_text_input_action(entity, node, buffer, action, queue, clip, effects);
                proof {
                    let oldlen = old(effects)@.len() as int;
                    assert(e0.take(oldlen) == old(effects)@);
                    assert(effects@.take(oldlen) =~= e0.take(oldlen));
                    let r2 = queue.actions@.skip(q0.len() as int);
                    let e2 = effects@.skip(e0.len() as int);
                    assert(action == batch0[processed as int]);
                    lemma_drain_rel_snoc(
                        entity,
                        *node,
                        start,
                        buf0,
                        *buffer,
                        batch0.take(processed as int),
                        action,
                        q0,
                        e0.skip(e00.len() as int),
                        r2,
                        e2,
                        n00,
                        nid0,
                        clip.next_id,
                        polls0,
                    );
                    assert(batch0.take(processed as int).push(action) =~= batch0.take(
                        processed + 1,
                    ));
                    assert(q0 + r2 =~= queue.actions@);
                    assert(e0.skip(e00.len() as int) + e2 =~= effects@.skip(e00.len() as int));
                }
                processed = processed + 1;
            }
        }
    }
    proof {
        assert(batch0.take(processed as int) =~= batch0);
    }
}

/// How long after a click a further click still counts as part of a
/// multi-click run, per accumulated click, in milliseconds.
pub const MULTI_CLICK_PERIOD_MS: u64 = 500;

/// Per-widget multi-click tracking: when the last click landed and how many
/// clicks the run has accumulated.
#[derive(Copy, Clone, Debug, PartialEq, Eq, Structural)]
pub struct MultiClickData {
    pub last_click_time_ms: u64,
    pub click_count: u64,
}

/// A second click within the period advances the run and selects the word
/// at the cursor; a third selects the paragraph and ends the run. Any other
/// click starts a fresh run. Disabled widgets, and widgets that do not
/// focus on pointer down, are left alone.
pub fn on_multi_click_set_selection(
    node: &TextInputNode,
    buffer: &mut TextInputBuffer,
    data: &mut Option<MultiClickData>,
    now_ms: u64,
)
    requires
        old(buffer).wf(),
    ensures
        final(buffer).wf(),
        final(buffer).spec_lines() == old(buffer).spec_lines(),
        !(node.is_enabled && node.focus_on_pointer_down) ==> {
            &&& *final(buffer) == *old(buffer)
            &&& *final(data) == *old(data)
        },
        node.is_enabled && node.focus_on_pointer_down ==> match *old(data) {
            Option::Some(d) => {
                if d.click_count == 1 && d.last_click_time_ms <= now_ms <= d.last_click_time_ms
                    + MULTI_CLICK_PERIOD_MS {
                    let lines = old(buffer).spec_lines();
                    let vis = old(buffer).spec_visible_lines();
                    let a = motion_target(lines, vis, old(buffer).spec_cursor(), Motion::LeftWord);
                    let b = motion_target(lines, vis, a, Motion::RightWord);
                    &&& *final(data) == Some(
                        MultiClickData { last_click_time_ms: now_ms, click_count: 2 },
                    )
                    &&& final(buffer).spec_anchor() == Some(a)
                    &&& final(buffer).spec_cursor() == b
                } else if d.click_count == 2 && d.last_click_time_ms <= now_ms
                    <= d.last_click_time_ms + 2 * MULTI_CLICK_PERIOD_MS {
                    let lines = old(buffer).spec_lines();
                    let vis = old(buffer).spec_visible_lines();
                    let a = motion_target(
                        lines,
                        vis,
                        old(buffer).spec_cursor(),
                        Motion::ParagraphStart,
                    );
                    let b = motion_target(lines, vis, a, Motion::ParagraphEnd);
                    &&& *final(data) is None
                    &&& final(buffer).spec_anchor() == Some(a)
                    &&& final(buffer).spec_cursor() == b
                } else {
                    &&& *final(data) == Some(
                        MultiClickData { last_click_time_ms: now_ms, click_count: 1 },
                    )
                    &&& *final(buffer) == *old(buffer)
                }
            },
            Option::None => {
                &&& *final(data) == Some(
                    MultiClickData { last_click_time_ms: now_ms, click_count: 1 },
                )
                &&& *final(buffer) == *old(buffer)
            },
        },
{
    if !node.is_enabled || !node.focus_on_pointer_down {
        return ;
    }
    match *data {
        Some(d) => {
            if d.click_count == 1 && d.last_click_time_ms <= now_ms && now_ms
                - d.last_click_time_ms <= MULTI_CLICK_PERIOD_MS {
                buffer.move_to(Motion::LeftWord);
                buffer.anchor_selection_at_cursor();
                buffer.move_to(Motion::RightWord);
                *data = Some(MultiClickData { last_click_time_ms: now_ms, click_count: 2 });
            } else if d.click_count == 2 && d.last_click_time_ms <= now_ms && now_ms
                - d.last_click_time_ms <= 2 * MULTI_CLICK_PERIOD_MS {
                buffer.move_to(Motion::ParagraphStart);
                buffer.anchor_selection_at_cursor();
                buffer.move_to(Motion::ParagraphEnd);
                *data = None;
            } else {
                *data = Some(MultiClickData { last_click_time_ms: now_ms, click_count: 1 });
            }
        }
        None => {
            *data = Some(MultiClickData { last_click_time_ms: now_ms, click_count: 1 });
        }
    }
}

/// Any pointer movement resets multi-click tracking.
pub fn on_move_clear_multi_click(data: &mut Option<MultiClickData>)
    ensures
        *final(data) is None,
{
    *data = None;
}

/// Pointer down on an enabled, focus-on-pointer-down widget takes keyboard
/// focus for it and puts the cursor at the clicked position (which the
/// host's layout resolved to a line and offset).
pub fn on_text_input_pressed(
    entity: u64,
    node: &TextInputNode,
    focus: &mut Option<u64>,
    buffer: &mut TextInputBuffer,
    line: usize,
    index: usize,
)
    requires
        old(buffer).wf(),
    ensures
        final(buffer).wf(),
        !(node.is_enabled && node.focus_on_pointer_down) ==> {
            &&& *final(buffer) == *old(buffer)
            &&& *final(focus) == *old(focus)
        },
        node.is_enabled && node.focus_on_pointer_down ==> {
            &&& *final(focus) == Some(entity)
            &&& edit_applied(
                TextInputEdit::Click { line, index },
                *old(buffer),
                *final(buffer),
                node.max_chars,
                node.filter,
            )
        },
{
    if !node.is_enabled || !node.focus_on_pointer_down {
        return ;
    }
    *focus = Some(entity);
    apply_edit(TextInputEdit::Click { line, index }, buffer, node.max_chars, &node.filter);
}

/// Pointer drag over the focused widget extends the selection to the
/// dragged-to position.
pub fn on_drag_text_input(
    entity: u64,
    node: &TextInputNode,
    focus: &Option<u64>,
    buffer: &mut TextInputBuffer,
    line: usize,
    index: usize,
)
    requires
        old(buffer).wf(),
    ensures
        final(buffer).wf(),
        !(node.is_enabled && node.focus_on_pointer_down && *focus == Some(entity))
            ==> *final(buffer) == *old(buffer),
        node.is_enabled && node.focus_on_pointer_down && *focus == Some(entity) ==> edit_applied(
            TextInputEdit::Drag { line, index },
            *old(buffer),
            *final(buffer),
            node.max_chars,
            node.filter,
        ),
{
    let focused = match focus {
        Some(f) => *f == entity,
        None => false,
    };
    if !node.is_enabled || !node.focus_on_pointer_down || !focused {
        return ;
    }
    apply_edit(TextInputEdit::Drag { line, index }, buffer, node.max_chars, &node.filter);
}

/// When keyboard focus moves to another widget, the previous owner's
/// selection is cleared: a selection does not persist across focus loss.
pub fn clear_selection_on_focus_change(
    previous: &mut Option<u64>,
    current: Option<u64>,
    previous_buffer: &mut TextInputBuffer,
)
    requires
        old(previous_buffer).wf(),
    ensures
        final(previous_buffer).wf(),
        *final(previous) == current,
        *old(previous) != current ==> final(previous_buffer).spec_anchor() is None,
        *old(previous) == current ==> *final(previous_buffer) == *old(previous_buffer),
        final(previous_buffer).spec_lines() == old(previous_buffer).spec_lines(),
        final(previous_buffer).spec_cursor() == old(previous_buffer).spec_cursor(),
{
    let same = match (&*previous, &current) {
        (Some(a), Some(b)) => *a == *b,
        (None, None) => true,
        _ => false,
    };
    if !same {
        previous_buffer.escape();
    }
    *previous = current;
}

/// When a widget is destroyed while focused, focus is released.
pub fn on_remove_unfocus(focus: &mut Option<u64>, entity: u64)
    ensures
        *old(focus) == Some(entity) ==> *final(focus) is None,
        *old(focus) != Some(entity) ==> *final(focus) == *old(focus),
{
    let is_owner = match focus {
        Some(f) => *f == entity,
        None => false,
    };
    if is_owner {
        *focus = None;
    }
}

/// Scrolls a multi-line widget by whole lines in response to the mouse
/// wheel; single-line widgets ignore the wheel.
pub fn mouse_wheel_scroll(node: &TextInputNode, buffer: &mut TextInputBuffer, lines: i32)
    requires
        old(buffer).wf(),
    ensures
        final(buffer).wf(),
        node.mode is SingleLine ==> *final(buffer) == *old(buffer),
        node.mode matches TextInputMode::MultiLine { .. } ==> edit_applied(
            TextInputEdit::Scroll { lines },
            *old(buffer),
            *final(buffer),
            node.max_chars,
            node.filter,
        ),
{
    if node.mode.is_multi_line() {
        apply_edit(TextInputEdit::Scroll { lines }, buffer, node.max_chars, &node.filter);
    }
}

} // verus!


