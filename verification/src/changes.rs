//! Reversible edit records for undo/redo.
//!
//! A [`Change`] is one undo unit: the ordered list of primitive buffer edits
//! performed while applying a single logical action. Each primitive edit has
//! an exact inverse, so a change can be replayed backwards to restore the
//! buffer text that preceded it. The [`ChangeLog`] keeps two stacks of
//! changes: pushing a freshly recorded change always empties the redo stack.
use vstd::prelude::*;

verus! {

/// One primitive, reversible edit of a line buffer.
///
/// `line` is a line number, `index` a character offset within that line.
#[derive(Copy, Clone, Debug)]
pub enum EditItem {
    /// `ch` was inserted into line `line` at offset `index`.
    InsertChar { line: usize, index: usize, ch: char },
    /// `ch` was removed from line `line` at offset `index`.
    DeleteChar { line: usize, index: usize, ch: char },
    /// Line `line` was split at offset `index` into two lines.
    SplitLine { line: usize, index: usize },
    /// Line `line + 1` was appended to line `line`, whose length was `index`.
    JoinLines { line: usize, index: usize },
}

/// Whether `it` can be applied to `lines`.
pub open spec fn item_valid(lines: Seq<Seq<char>>, it: EditItem) -> bool {
    match it {
        EditItem::InsertChar { line, index, ch } => line < lines.len() && index
            <= lines[line as int].len(),
        EditItem::DeleteChar { line, index, ch } => line < lines.len() && index
            < lines[line as int].len() && lines[line as int][index as int] == ch,
        EditItem::SplitLine { line, index } => line < lines.len() && index
            <= lines[line as int].len(),
        EditItem::JoinLines { line, index } => line + 1 < lines.len() && index
            == lines[line as int].len(),
    }
}

/// The line buffer after applying `it` to `lines`.
pub open spec fn apply_item(lines: Seq<Seq<char>>, it: EditItem) -> Seq<Seq<char>> {
    match it {
        EditItem::InsertChar { line, index, ch } => lines.update(
            line as int,
            lines[line as int].insert(index as int, ch),
        ),
        EditItem::DeleteChar { line, index, ch } => lines.update(
            line as int,
            lines[line as int].remove(index as int),
        ),
        EditItem::SplitLine { line, index } => lines.take(line as int) + seq![
            lines[line as int].take(index as int),
            lines[line as int].skip(index as int),
        ] + lines.skip(line + 1),
        EditItem::JoinLines { line, index } => lines.take(line as int) + seq![
            lines[line as int] + lines[line + 1],
        ] + lines.skip(line + 2),
    }
}

/// The edit that exactly reverses `it`.
pub open spec fn invert_item(it: EditItem) -> EditItem {
    match it {
        EditItem::InsertChar { line, index, ch } => EditItem::DeleteChar { line, index, ch },
        EditItem::DeleteChar { line, index, ch } => EditItem::InsertChar { line, index, ch },
        EditItem::SplitLine { line, index } => EditItem::JoinLines { line, index },
        EditItem::JoinLines { line, index } => EditItem::SplitLine { line, index },
    }
}

/// Applying an edit and then its inverse restores the original lines.
pub proof fn lemma_item_round_trip(lines: Seq<Seq<char>>, it: EditItem)
    requires
        item_valid(lines, it),
    ensures
        item_valid(apply_item(lines, it), invert_item(it)),
        apply_item(apply_item(lines, it), invert_item(it)) == lines,
{
    let mid = apply_item(lines, it);
    match it {
        EditItem::InsertChar { line, index, ch } => {
            assert(mid[line as int][index as int] == ch);
            assert(apply_item(mid, invert_item(it)) =~~= lines);
        }
        EditItem::DeleteChar { line, index, ch } => {
            assert(apply_item(mid, invert_item(it)) =~~= lines);
        }
        EditItem::SplitLine { line, index } => {
            assert(mid[line as int] == lines[line as int].take(index as int));
            assert(mid[line + 1] == lines[line as int].skip(index as int));
            assert(mid[line as int].len() == index);
            assert(mid[line as int] + mid[line + 1] =~= lines[line as int]);
            assert(apply_item(mid, invert_item(it)) =~~= lines);
        }
        EditItem::JoinLines { line, index } => {
            assert(mid[line as int] == lines[line as int] + lines[line + 1]);
            assert(mid[line as int].take(index as int) =~= lines[line as int]);
            assert(mid[line as int].skip(index as int) =~= lines[line + 1]);
            assert(apply_item(mid, invert_item(it)) =~~= lines);
        }
    }
}

/// Whether the whole sequence of edits can be applied to `lines` in order.
pub open spec fn items_valid(lines: Seq<Seq<char>>, items: Seq<EditItem>) -> bool
    decreases items.len(),
{
    items.len() == 0 || (item_valid(lines, items[0]) && items_valid(
        apply_item(lines, items[0]),
        items.drop_first(),
    ))
}

/// The line buffer after applying every edit of `items` in order.
pub open spec fn apply_items(lines: Seq<Seq<char>>, items: Seq<EditItem>) -> Seq<Seq<char>>
    decreases items.len(),
{
    if items.len() == 0 {
        lines
    } else {
        apply_items(apply_item(lines, items[0]), items.drop_first())
    }
}

/// The edits that reverse `items`: each edit inverted, in reverse order.
pub open spec fn invert_items(items: Seq<EditItem>) -> Seq<EditItem>
    decreases items.len(),
{
    if items.len() == 0 {
        Seq::empty()
    } else {
        invert_items(items.drop_first()).push(invert_item(items[0]))
    }
}

/// Validity and the result of application both distribute over concatenation.
pub proof fn lemma_items_concat(lines: Seq<Seq<char>>, a: Seq<EditItem>, b: Seq<EditItem>)
    requires
        items_valid(lines, a),
        items_valid(apply_items(lines, a), b),
    ensures
        items_valid(lines, a + b),
        apply_items(lines, a + b) == apply_items(apply_items(lines, a), b),
    decreases a.len(),
{
    if a.len() == 0 {
        assert(a + b =~= b);
    } else {
        let mid = apply_item(lines, a[0]);
        lemma_items_concat(mid, a.drop_first(), b);
        assert((a + b).drop_first() =~= a.drop_first() + b);
    }
}

/// Appending one more valid edit keeps the record valid.
pub proof fn lemma_items_snoc(lines: Seq<Seq<char>>, items: Seq<EditItem>, it: EditItem)
    requires
        items_valid(lines, items),
        item_valid(apply_items(lines, items), it),
    ensures
        items_valid(lines, items.push(it)),
        apply_items(lines, items.push(it)) == apply_item(apply_items(lines, items), it),
    decreases items.len(),
{
    let single = seq![it];
    let done = apply_items(lines, items);
    assert(items_valid(done, single)) by {
        assert(single[0] == it);
        assert(single.drop_first() =~= Seq::<EditItem>::empty());
        assert(items_valid(apply_item(done, it), Seq::<EditItem>::empty()));
    }
    lemma_items_concat(lines, items, single);
    assert(items.push(it) =~= items + single);
    assert(apply_items(apply_item(apply_items(lines, items), it), single.drop_first())
        == apply_item(apply_items(lines, items), it)) by {
        assert(single.drop_first() =~= Seq::<EditItem>::empty());
    }
}

/// Replaying a recorded change in reverse restores the lines it started from,
/// and that reversed replay is itself a valid change of the edited lines.
pub proof fn lemma_change_round_trip(lines: Seq<Seq<char>>, items: Seq<EditItem>)
    requires
        items_valid(lines, items),
    ensures
        items_valid(apply_items(lines, items), invert_items(items)),
        apply_items(apply_items(lines, items), invert_items(items)) == lines,
    decreases items.len(),
{
    if items.len() == 0 {
    } else {
        let mid = apply_item(lines, items[0]);
        let done = apply_items(lines, items);
        lemma_change_round_trip(mid, items.drop_first());
        lemma_item_round_trip(lines, items[0]);
        lemma_items_snoc(done, invert_items(items.drop_first()), invert_item(items[0]));
    }
}

/// Reversing a reversed change yields the original change.
pub proof fn lemma_invert_involution(items: Seq<EditItem>)
    ensures
        invert_items(invert_items(items)) == items,
    decreases items.len(),
{
    if items.len() == 0 {
        assert(invert_items(invert_items(items)) =~= items);
    } else {
        lemma_invert_involution(items.drop_first());
        lemma_invert_push(invert_items(items.drop_first()), invert_item(items[0]));
        assert(invert_item(invert_item(items[0])) == items[0]);
        assert(seq![items[0]] + items.drop_first() =~= items);
    }
}

/// Inverting a record that ends in `it` puts `it`'s inverse first.
proof fn lemma_invert_push(items: Seq<EditItem>, it: EditItem)
    ensures
        invert_items(items.push(it)) == seq![invert_item(it)] + invert_items(items),
    decreases items.len(),
{
    let pushed = items.push(it);
    if items.len() == 0 {
        assert(pushed[0] == it);
        assert(pushed.drop_first() =~= Seq::<EditItem>::empty());
        assert(invert_items(Seq::<EditItem>::empty()) == Seq::<EditItem>::empty());
        assert(invert_items(pushed) == Seq::<EditItem>::empty().push(invert_item(it)));
        assert(invert_items(pushed) =~= seq![invert_item(it)] + invert_items(items));
    } else {
        assert(pushed[0] == items[0]);
        assert(pushed.drop_first() =~= items.drop_first().push(it));
        lemma_invert_push(items.drop_first(), it);
        assert(invert_items(pushed) == invert_items(pushed.drop_first()).push(
            invert_item(pushed[0]),
        ));
        assert(invert_items(pushed.drop_first()) == seq![invert_item(it)] + invert_items(
            items.drop_first(),
        ));
        assert(invert_items(items) == invert_items(items.drop_first()).push(
            invert_item(items[0]),
        ));
        assert((seq![invert_item(it)] + invert_items(items.drop_first())).push(
            invert_item(items[0]),
        ) =~= seq![invert_item(it)] + invert_items(items));
        assert(invert_items(pushed) == seq![invert_item(it)] + invert_items(items));
    }
}

/// One undo unit: the primitive edits recorded while one logical action ran.
#[derive(Debug)]
pub struct Change {
    pub items: Vec<EditItem>,
}

impl Change {
    /// An exact copy of this change.
    pub fn duplicate(&self) -> (r: Change)
        ensures
            r.items@ == self.items@,
    {
        let mut items: Vec<EditItem> = Vec::new();
        let mut i: usize = 0;
        while i < self.items.len()
            invariant
                i <= self.items@.len(),
                items@ =~= self.items@.take(i as int),
            decreases self.items@.len() - i,
        {
            items.push(self.items[i]);
            i = i + 1;
        }
        proof {
            assert(items@ =~= self.items@);
        }
        Change { items }
    }

    /// Turns this change into the change that undoes it.
    pub fn reverse(&mut self)
        ensures
            final(self).items@ == invert_items(old(self).items@),
    {
        let ghost orig = self.items@;
        let n = self.items.len();
        let mut reversed: Vec<EditItem> = Vec::new();
        let mut i: usize = 0;
        while i < n
            invariant
                n == orig.len(),
                self.items@ == orig,
                i <= n,
                reversed@.len() == i,
                forall|k: int| 0 <= k < i ==> reversed@[k] == invert_item(orig[n - 1 - k]),
            decreases n - i,
        {
            let it = self.items[n - 1 - i];
            reversed.push(invert_item_exec(it));
            i = i + 1;
        }
        proof {
            lemma_invert_pointwise(orig);
            assert(reversed@ =~= invert_items(orig));
        }
        self.items = reversed;
    }
}

/// Computes the inverse of one edit.
fn invert_item_exec(it: EditItem) -> (r: EditItem)
    ensures
        r == invert_item(it),
{
    match it {
        EditItem::InsertChar { line, index, ch } => EditItem::DeleteChar { line, index, ch },
        EditItem::DeleteChar { line, index, ch } => EditItem::InsertChar { line, index, ch },
        EditItem::SplitLine { line, index } => EditItem::JoinLines { line, index },
        EditItem::JoinLines { line, index } => EditItem::SplitLine { line, index },
    }
}

/// The reversed record, element by element: entry `k` is the inverse of the
/// entry `k` positions from the end.
proof fn lemma_invert_pointwise(items: Seq<EditItem>)
    ensures
        invert_items(items).len() == items.len(),
        forall|k: int|
            0 <= k < items.len() ==> invert_items(items)[k] == invert_item(
                items[items.len() - 1 - k],
            ),
    decreases items.len(),
{
    if items.len() > 0 {
        lemma_invert_pointwise(items.drop_first());
    }
}

/// The undo and redo stacks of one widget. The last element of each vector is
/// the top of that stack.
#[derive(Debug)]
pub struct ChangeLog {
    pub undo_stack: Vec<Change>,
    pub redo_stack: Vec<Change>,
}

impl ChangeLog {
    /// The undo stack's recorded edits, bottom of the stack first.
    pub open spec fn undo_view(&self) -> Seq<Seq<EditItem>> {
        Seq::new(self.undo_stack@.len(), |i: int| self.undo_stack@[i].items@)
    }

    /// The redo stack's recorded edits, bottom of the stack first.
    pub open spec fn redo_view(&self) -> Seq<Seq<EditItem>> {
        Seq::new(self.redo_stack@.len(), |i: int| self.redo_stack@[i].items@)
    }

    /// An empty log.
    pub fn new() -> (r: ChangeLog)
        ensures
            r.undo_stack@.len() == 0,
            r.redo_stack@.len() == 0,
    {
        ChangeLog { undo_stack: Vec::new(), redo_stack: Vec::new() }
    }

    /// Records a freshly made change. Pushing always empties the redo stack,
    /// so there is no redo after a fresh edit.
    pub fn push(&mut self, change: Change)
        ensures
            final(self).undo_stack@ == old(self).undo_stack@.push(change),
            final(self).redo_stack@.len() == 0,
            final(self).undo_view() == old(self).undo_view().push(change.items@),
            final(self).redo_view().len() == 0,
    {
        self.undo_stack.push(change);
        self.redo_stack = Vec::new();
        proof {
            assert(self.undo_view() =~= old(self).undo_view().push(change.items@));
        }
    }

    /// Pops the most recent change, moving it onto the redo stack. Returns a
    /// copy for the caller to replay in reverse. Does nothing when the undo
    /// stack is empty.
    pub fn undo(&mut self) -> (r: Option<Change>)
        ensures
            old(self).undo_stack@.len() == 0 ==> {
                &&& r is None
                &&& final(self).undo_stack@ == old(self).undo_stack@
                &&& final(self).redo_stack@ == old(self).redo_stack@
            },
            old(self).undo_stack@.len() > 0 ==> {
                &&& r matches Some(c)
                &&& c.items@ == old(self).undo_stack@.last().items@
                &&& final(self).undo_stack@ == old(self).undo_stack@.drop_last()
                &&& final(self).redo_stack@ == old(self).redo_stack@.push(
                    old(self).undo_stack@.last(),
                )
                &&& final(self).undo_view() == old(self).undo_view().drop_last()
                &&& final(self).redo_view() == old(self).redo_view().push(
                    old(self).undo_view().last(),
                )
                &&& c.items@ == old(self).undo_view().last()
            },
            final(self).undo_view().len() + final(self).redo_view().len() == old(
                self,
            ).undo_view().len() + old(self).redo_view().len(),
    {
        match self.undo_stack.pop() {
            Some(change) => {
                let copy = change.duplicate();
                self.redo_stack.push(change);
                proof {
                    assert(self.undo_view() =~= old(self).undo_view().drop_last());
                    assert(self.redo_view() =~= old(self).redo_view().push(
                        old(self).undo_view().last(),
                    ));
                }
                Some(copy)
            }
            None => None,
        }
    }

    /// Pops the most recent undone change, moving it back onto the undo stack.
    /// Returns a copy for the caller to replay forwards. Does nothing when the
    /// redo stack is empty.
    pub fn redo(&mut self) -> (r: Option<Change>)
        ensures
            old(self).redo_stack@.len() == 0 ==> {
                &&& r is None
                &&& final(self).undo_stack@ == old(self).undo_stack@
                &&& final(self).redo_stack@ == old(self).redo_stack@
            },
            old(self).redo_stack@.len() > 0 ==> {
                &&& r matches Some(c)
                &&& c.items@ == old(self).redo_stack@.last().items@
                &&& final(self).redo_stack@ == old(self).redo_stack@.drop_last()
                &&& final(self).undo_stack@ == old(self).undo_stack@.push(
                    old(self).redo_stack@.last(),
                )
                &&& final(self).redo_view() == old(self).redo_view().drop_last()
                &&& final(self).undo_view() == old(self).undo_view().push(
                    old(self).redo_view().last(),
                )
                &&& c.items@ == old(self).redo_view().last()
            },
            final(self).undo_view().len() + final(self).redo_view().len() == old(
                self,
            ).undo_view().len() + old(self).redo_view().len(),
    {
        match self.redo_stack.pop() {
            Some(change) => {
                let copy = change.duplicate();
                self.undo_stack.push(change);
                proof {
                    assert(self.redo_view() =~= old(self).redo_view().drop_last());
                    assert(self.undo_view() =~= old(self).undo_view().push(
                        old(self).redo_view().last(),
                    ));
                }
                Some(copy)
            }
            None => None,
        }
    }
}

} // verus!
