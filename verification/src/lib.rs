//! A text-input widget core: an editable multi-line text buffer with cursor,
//! selection, undo/redo, and a queue-driven action pipeline that applies
//! logical edit actions under per-widget constraints (maximum length,
//! content filters, overwrite mode).
//!
//! The host user-interface framework is expected to translate raw keyboard
//! and pointer events into the plain values consumed here, and to read the
//! buffer back out for layout and rendering.
pub mod actions;
pub mod buffer;
pub mod changes;
pub mod edit;
pub mod laws;

pub use buffer::Cursor;
pub use buffer::Motion;
pub use buffer::TextInputBuffer;

use crate::actions::TextInputAction;
use std::collections::VecDeque;
use vstd::prelude::*;

verus! {

/// Line-wrap policy of a text buffer. Visual layout itself is delegated to
/// the host's text-shaping collaborator; the buffer only records the policy.
#[derive(Copy, Clone, Debug, PartialEq, Eq, Structural)]
pub enum Wrap {
    /// No wrapping: the line scrolls horizontally.
    NoWrap,
    /// Wrap at any glyph.
    Glyph,
    /// Wrap at word boundaries.
    Word,
    /// Wrap at word boundaries, falling back to glyph boundaries.
    WordOrGlyph,
}

/// Mode of text input.
#[derive(Copy, Clone, Debug, PartialEq, Eq, Structural)]
pub enum TextInputMode {
    /// Scrolling text input; submit on shift-enter.
    MultiLine { wrap: Wrap },
    /// Single line text input; scrolls horizontally; submit on enter.
    SingleLine,
}

impl TextInputMode {
    /// The wrap policy this mode asks of the buffer.
    pub fn wrap(&self) -> (w: Wrap)
        ensures
            w == self.spec_wrap(),
    {
        match self {
            TextInputMode::MultiLine { wrap } => *wrap,
            _ => Wrap::NoWrap,
        }
    }

    pub open spec fn spec_wrap(&self) -> Wrap {
        match self {
            TextInputMode::MultiLine { wrap } => *wrap,
            _ => Wrap::NoWrap,
        }
    }

    /// Whether this is the multi-line mode.
    pub fn is_multi_line(&self) -> (r: bool)
        ensures
            r == (self matches TextInputMode::MultiLine { .. }),
    {
        match self {
            TextInputMode::MultiLine { .. } => true,
            TextInputMode::SingleLine => false,
        }
    }
}

impl Default for TextInputMode {
    /// Multi-line, wrapping at word boundaries with a glyph fallback.
    fn default() -> (m: Self)
        ensures
            m == (TextInputMode::MultiLine { wrap: Wrap::WordOrGlyph }),
    {
        TextInputMode::MultiLine { wrap: Wrap::WordOrGlyph }
    }
}

/// A user-supplied text filter: accepts or rejects a buffer's full text.
pub trait CustomFilter {
    /// Returns true if the text is acceptable.
    fn accepts(&self, text: &str) -> bool;
}

/// Any action that would change a text input's text so that it fails to
/// pass the filter is not applied.
pub enum TextInputFilter {
    /// Positive integer input: accepts only digits.
    PositiveInteger,
    /// Integer input: accepts only digits and a leading sign.
    Integer,
    /// Decimal input: accepts only digits, one decimal point and a leading
    /// sign.
    Decimal,
    /// Hexadecimal input: accepts only `0-9`, `a-f` and `A-F`.
    Hex,
    /// Alphanumeric input: accepts only `0-9`, `a-z` and `A-Z`.
    Alphanumeric,
    /// Custom filter: whatever the supplied predicate accepts.
    Custom(std::boxed::Box<dyn CustomFilter>),
}

pub open spec fn spec_is_digit(c: char) -> bool {
    '0' <= c <= '9'
}

pub open spec fn spec_is_hex_digit(c: char) -> bool {
    spec_is_digit(c) || 'a' <= c <= 'f' || 'A' <= c <= 'F'
}

pub open spec fn spec_is_alphanumeric(c: char) -> bool {
    spec_is_digit(c) || 'a' <= c <= 'z' || 'A' <= c <= 'Z'
}

/// Where the digits begin: after a leading minus sign, if any.
pub open spec fn minus_start(s: Seq<char>) -> int {
    if s.len() > 0 && s[0] == '-' {
        1
    } else {
        0
    }
}

/// A decimal number's tail from `i` on: digits with at most one decimal
/// point overall (`seen_dot` tells whether one was already passed).
pub open spec fn dec_scan(s: Seq<char>, i: int, seen_dot: bool) -> bool
    decreases s.len() - i,
{
    if i < 0 || i >= s.len() {
        true
    } else if s[i] == '.' {
        !seen_dot && dec_scan(s, i + 1, true)
    } else {
        spec_is_digit(s[i]) && dec_scan(s, i + 1, seen_dot)
    }
}

/// What each built-in filter accepts. The custom filter decides for itself
/// and is not described here.
pub open spec fn builtin_accepts(f: TextInputFilter, text: Seq<char>) -> bool {
    match f {
        TextInputFilter::PositiveInteger => forall|i: int|
            0 <= i < text.len() ==> spec_is_digit(#[trigger] text[i]),
        TextInputFilter::Integer => forall|i: int|
            minus_start(text) <= i < text.len() ==> spec_is_digit(#[trigger] text[i]),
        TextInputFilter::Decimal => dec_scan(text, minus_start(text), false),
        TextInputFilter::Hex => forall|i: int|
            0 <= i < text.len() ==> spec_is_hex_digit(#[trigger] text[i]),
        TextInputFilter::Alphanumeric => forall|i: int|
            0 <= i < text.len() ==> spec_is_alphanumeric(#[trigger] text[i]),
        TextInputFilter::Custom(_) => true,
    }
}

fn is_digit(c: char) -> (r: bool)
    ensures
        r == spec_is_digit(c),
{
    '0' <= c && c <= '9'
}

fn is_hex_digit(c: char) -> (r: bool)
    ensures
        r == spec_is_hex_digit(c),
{
    ('0' <= c && c <= '9') || ('a' <= c && c <= 'f') || ('A' <= c && c <= 'F')
}

fn is_alphanumeric(c: char) -> (r: bool)
    ensures
        r == spec_is_alphanumeric(c),
{
    ('0' <= c && c <= '9') || ('a' <= c && c <= 'z') || ('A' <= c && c <= 'Z')
}

impl TextInputFilter {
    /// Returns true if the text passes the filter. For the built-in filters
    /// the answer is exactly [`builtin_accepts`]. A custom filter answers for
    /// itself: the body hands back what [`CustomFilter::accepts`] said of the
    /// whole text (empty text included: no shortcut applies to it), but the
    /// contract deliberately states nothing of that case, because the
    /// predicate is unverified user code and its trait carries no
    /// specification that a plain-Rust implementor could satisfy.
    pub fn is_match(&self, text: &str) -> (r: bool)
        ensures
            !(self is Custom) ==> r == builtin_accepts(*self, text@),
    {
        let n = text.unicode_len();
        match self {
            TextInputFilter::PositiveInteger => {
                let mut i: usize = 0;
                while i < n
                    invariant
                        *self is PositiveInteger,
                        n == text@.len(),
                        i <= n,
                        forall|j: int| 0 <= j < i ==> spec_is_digit(#[trigger] text@[j]),
                    decreases n - i,
                {
                    if !is_digit(text.get_char(i)) {
                        proof {
                            assert(!spec_is_digit(text@[i as int]));
                            assert(*self is PositiveInteger);
                            assert(!builtin_accepts(*self, text@));
                        }
                        return false;
                    }
                    i = i + 1;
                }
                true
            }
            TextInputFilter::Integer => {
                let start: usize = if n > 0 && text.get_char(0) == '-' {
                    1
                } else {
                    0
                };
                let mut i: usize = start;
                while i < n
                    invariant
                        *self is Integer,
                        n == text@.len(),
                        start <= i <= n || (n == 0 && i == start),
                        start == minus_start(text@),
                        forall|j: int| start <= j < i ==> spec_is_digit(#[trigger] text@[j]),
                    decreases n - i,
                {
                    if !is_digit(text.get_char(i)) {
                        proof {
                            assert(!spec_is_digit(text@[i as int]));
                            assert(*self is Integer);
                            assert(!builtin_accepts(*self, text@));
                        }
                        return false;
                    }
                    i = i + 1;
                }
                true
            }
            TextInputFilter::Decimal => {
                let start: usize = if n > 0 && text.get_char(0) == '-' {
                    1
                } else {
                    0
                };
                let mut i: usize = start;
                let mut seen_dot = false;
                while i < n
                    invariant
                        *self is Decimal,
                        n == text@.len(),
                        start <= i <= n || (n == 0 && i == start),
                        start == minus_start(text@),
                        dec_scan(text@, start as int, false) == dec_scan(
                            text@,
                            i as int,
                            seen_dot,
                        ),
                    decreases n - i,
                {
                    let c = text.get_char(i);
                    if c == '.' {
                        if seen_dot {
                            proof {
                                assert(!dec_scan(text@, i as int, seen_dot));
                                assert(*self is Decimal);
                                assert(!builtin_accepts(*self, text@));
                            }
                            return false;
                        }
                        seen_dot = true;
                    } else if !is_digit(c) {
                        proof {
                            assert(!dec_scan(text@, i as int, seen_dot));
                            assert(*self is Decimal);
                            assert(!builtin_accepts(*self, text@));
                        }
                        return false;
                    }
                    i = i + 1;
                }
                true
            }
            TextInputFilter::Hex => {
                let mut i: usize = 0;
                while i < n
                    invariant
                        *self is Hex,
                        n == text@.len(),
                        i <= n,
                        forall|j: int| 0 <= j < i ==> spec_is_hex_digit(#[trigger] text@[j]),
                    decreases n - i,
                {
                    if !is_hex_digit(text.get_char(i)) {
                        proof {
                            assert(!spec_is_hex_digit(text@[i as int]));
                            assert(*self is Hex);
                            assert(!builtin_accepts(*self, text@));
                        }
                        return false;
                    }
                    i = i + 1;
                }
                true
            }
            TextInputFilter::Alphanumeric => {
                let mut i: usize = 0;
                while i < n
                    invariant
                        *self is Alphanumeric,
                        n == text@.len(),
                        i <= n,
                        forall|j: int| 0 <= j < i ==> spec_is_alphanumeric(#[trigger] text@[j]),
                    decreases n - i,
                {
                    if !is_alphanumeric(text.get_char(i)) {
                        proof {
                            assert(!spec_is_alphanumeric(text@[i as int]));
                            assert(*self is Alphanumeric);
                            assert(!builtin_accepts(*self, text@));
                        }
                        return false;
                    }
                    i = i + 1;
                }
                true
            }
            TextInputFilter::Custom(f) => f.accepts(text),
        }
    }

    /// Create a custom filter.
    pub fn custom(filter_fn: std::boxed::Box<dyn CustomFilter>) -> (r: Self)
        ensures
            r is Custom,
    {
        Self::Custom(filter_fn)
    }
}

/// Per-widget text-input configuration. Immutable during one processing
/// tick; the host may change it between ticks.
pub struct TextInputNode {
    /// Whether the text should be cleared on submission.
    pub clear_on_submit: bool,
    /// Type of text input.
    pub mode: TextInputMode,
    /// Maximum number of characters that can be entered into the buffer.
    pub max_chars: Option<usize>,
    /// Should overwrite mode be available.
    pub allow_overwrite_mode: bool,
    /// Can the text input be activated.
    pub is_enabled: bool,
    /// Activate on pointer down.
    pub focus_on_pointer_down: bool,
    /// Deactivate after text submitted.
    pub unfocus_on_submit: bool,
    /// Content filter that every edit's result must pass, if set.
    pub filter: Option<TextInputFilter>,
}

impl Default for TextInputNode {
    /// Multi-line, unconstrained, enabled, clearing and unfocusing on
    /// submit.
    fn default() -> (r: Self)
        ensures
            r.clear_on_submit,
            r.mode == (TextInputMode::MultiLine { wrap: Wrap::WordOrGlyph }),
            r.max_chars is None,
            r.allow_overwrite_mode,
            r.is_enabled,
            r.focus_on_pointer_down,
            r.unfocus_on_submit,
            r.filter is None,
    {
        Self {
            clear_on_submit: true,
            mode: TextInputMode::MultiLine { wrap: Wrap::WordOrGlyph },
            max_chars: None,
            allow_overwrite_mode: true,
            is_enabled: true,
            focus_on_pointer_down: true,
            unfocus_on_submit: true,
            filter: None,
        }
    }
}

/// Sent when a text input submits its text.
#[derive(Clone, Debug)]
pub struct SubmitText {
    /// The text-input widget that submitted the text.
    pub entity: u64,
    /// The submitted text.
    pub text: String,
}

/// The buffer text made visible to outside readers, refreshed once per tick.
#[derive(Default, Debug)]
pub struct TextInputContents {
    /// The buffer's text as of the last refresh.
    pub text: String,
}

impl TextInputContents {
    /// The text as of the last refresh.
    pub fn get(&self) -> (r: &str)
        ensures
            r@ == self.text@,
    {
        self.text.as_str()
    }
}

/// Refreshes the published contents from the buffer.
pub fn update_text_input_contents(contents: &mut TextInputContents, buffer: &TextInputBuffer)
    requires
        buffer.wf(),
    ensures
        final(contents).text@ == buffer.spec_text(),
{
    let text = buffer.get_text();
    contents.text = text;
}

/// Modifier-key state shared by every widget, updated on each modifier key
/// transition.
#[derive(Default, Debug)]
pub struct TextInputGlobalState {
    /// Shift is held down.
    pub shift: bool,
    /// Ctrl or the platform's command key is held down.
    pub command: bool,
    /// If true, typed characters overwrite the character at the cursor
    /// instead of being inserted before it.
    pub overwrite_mode: bool,
}

/// Queued actions of one widget, drained in order each processing tick.
#[derive(Default)]
pub struct TextInputQueue {
    /// The pending actions, front first.
    pub actions: VecDeque<TextInputAction>,
}

impl TextInputQueue {
    /// Queue an action behind the others.
    pub fn add(&mut self, action: TextInputAction)
        ensures
            final(self).actions@ == old(self).actions@.push(action),
    {
        self.actions.push_back(action);
    }

    /// Add an action to the front of the queue.
    pub fn add_front(&mut self, action: TextInputAction)
        ensures
            final(self).actions@ == seq![action] + old(self).actions@,
    {
        self.actions.push_front(action);
        proof {
            assert(final(self).actions@ =~= seq![action] + old(self).actions@);
        }
    }

    /// True if the queue is empty.
    pub fn is_empty(&self) -> (r: bool)
        ensures
            r == (self.actions@.len() == 0),
    {
        self.actions.len() == 0
    }

    /// Takes the next action, front first.
    pub fn next(&mut self) -> (r: Option<TextInputAction>)
        ensures
            old(self).actions@.len() == 0 ==> r is None && final(self).actions@ == old(
                self,
            ).actions@,
            old(self).actions@.len() > 0 ==> {
                &&& r == Some(old(self).actions@[0])
                &&& final(self).actions@ == old(self).actions@.drop_first()
            },
    {
        let r = self.actions.pop_front();
        proof {
            if old(self).actions@.len() > 0 {
                assert(final(self).actions@ =~= old(self).actions@.drop_first());
            }
        }
        r
    }
}

} // verus!
