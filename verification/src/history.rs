//! Undo/redo history of the annotations drawn on a screenshot.
//!
//! The history is generic over the annotation type `S` and the selection
//! rectangle type `R`: it only moves values between the annotation list,
//! the selection and its two stacks. Each stack holds at most
//! [`MAX_HISTORY_ENTRIES`] entries; when it would grow beyond that, its
//! oldest entry is dropped.
use vstd::prelude::*;

verus! {

/// Most entries an undo or redo stack holds.
pub const MAX_HISTORY_ENTRIES: usize = 50;

/// A reversible change; applying one returns the entry that reverses it.
pub enum HistoryEntry<S, R> {
    /// Insert `shape` at `index` (reverses a removal).
    InsertShape { index: usize, shape: S },
    /// Remove the shape at `index` (reverses an insertion).
    RemoveShape { index: usize },
    /// Put `shape` at `index` (reverses an edit).
    ReplaceShape { index: usize, shape: S },
    /// Put back a selection together with the whole list of shapes
    /// (reverses a change of the selection).
    RestoreSelectionAndShapes { selection: Option<R>, shapes: Vec<S> },
}

/// The mathematical content of a history entry.
pub ghost enum EntryModel<S, R> {
    Insert { index: int, shape: S },
    Remove { index: int },
    Replace { index: int, shape: S },
    Restore { selection: Option<R>, shapes: Seq<S> },
}

impl<S, R> HistoryEntry<S, R> {
    pub open spec fn model(&self) -> EntryModel<S, R> {
        match self {
            HistoryEntry::InsertShape { index, shape } => EntryModel::Insert {
                index: *index as int,
                shape: *shape,
            },
            HistoryEntry::RemoveShape { index } => EntryModel::Remove { index: *index as int },
            HistoryEntry::ReplaceShape { index, shape } => EntryModel::Replace {
                index: *index as int,
                shape: *shape,
            },
            HistoryEntry::RestoreSelectionAndShapes { selection, shapes } => EntryModel::Restore {
                selection: *selection,
                shapes: shapes@,
            },
        }
    }
}

/// The mathematical content of an edit history: the shapes, the selection,
/// and the undo and redo stacks (last element on top).
pub ghost struct HistoryModel<S, R> {
    pub shapes: Seq<S>,
    pub selection: Option<R>,
    pub undo: Seq<EntryModel<S, R>>,
    pub redo: Seq<EntryModel<S, R>>,
}

pub open spec fn entries_model<S, R>(v: Seq<HistoryEntry<S, R>>) -> Seq<EntryModel<S, R>> {
    Seq::new(v.len(), |i: int| v[i].model())
}

/// `stack` with `e` pushed on top, dropping the oldest entry when the stack
/// would exceed its bound.
pub open spec fn push_bounded<E>(stack: Seq<E>, e: E) -> Seq<E> {
    if stack.len() + 1 > MAX_HISTORY_ENTRIES {
        stack.push(e).drop_first()
    } else {
        stack.push(e)
    }
}

/// Applying `e` to the shapes and selection: the new shapes, the new
/// selection and the entry that undoes it, or `None` when `e` names a
/// position outside the list (then nothing changes).
pub open spec fn apply_entry<S, R>(e: EntryModel<S, R>, shapes: Seq<S>, selection: Option<R>) -> Option<
    (Seq<S>, Option<R>, EntryModel<S, R>),
> {
    match e {
        EntryModel::Insert { index, shape } => if 0 <= index <= shapes.len() {
            Some((shapes.insert(index, shape), selection, EntryModel::Remove { index }))
        } else {
            None
        },
        EntryModel::Remove { index } => if 0 <= index < shapes.len() {
            Some(
                (
                    shapes.remove(index),
                    selection,
                    EntryModel::Insert { index, shape: shapes[index] },
                ),
            )
        } else {
            None
        },
        EntryModel::Replace { index, shape } => if 0 <= index < shapes.len() {
            Some(
                (
                    shapes.update(index, shape),
                    selection,
                    EntryModel::Replace { index, shape: shapes[index] },
                ),
            )
        } else {
            None
        },
        EntryModel::Restore { selection: sel, shapes: saved } => Some(
            (saved, sel, EntryModel::Restore { selection, shapes }),
        ),
    }
}

/// Undo: pop the top of the undo stack and apply it; its reverse goes on the
/// redo stack. An entry that does not apply is dropped. Nothing happens when
/// the undo stack is empty.
pub open spec fn undo_spec<S, R>(m: HistoryModel<S, R>) -> HistoryModel<S, R> {
    if m.undo.len() == 0 {
        m
    } else {
        match apply_entry(m.undo.last(), m.shapes, m.selection) {
            Some((shapes, selection, inverse)) => HistoryModel {
                shapes,
                selection,
                undo: m.undo.drop_last(),
                redo: push_bounded(m.redo, inverse),
            },
            None => HistoryModel { undo: m.undo.drop_last(), ..m },
        }
    }
}

/// Redo: the mirror image of [`undo_spec`], from the redo stack to the undo
/// stack.
pub open spec fn redo_spec<S, R>(m: HistoryModel<S, R>) -> HistoryModel<S, R> {
    if m.redo.len() == 0 {
        m
    } else {
        match apply_entry(m.redo.last(), m.shapes, m.selection) {
            Some((shapes, selection, inverse)) => HistoryModel {
                shapes,
                selection,
                undo: push_bounded(m.undo, inverse),
                redo: m.redo.drop_last(),
            },
            None => HistoryModel { redo: m.redo.drop_last(), ..m },
        }
    }
}

/// Whether the top of the stack applies to the current shapes.
pub open spec fn top_applies<S, R>(stack: Seq<EntryModel<S, R>>, m: HistoryModel<S, R>) -> bool {
    stack.len() > 0 && apply_entry(stack.last(), m.shapes, m.selection) is Some
}

/// Whether the top entry of the undo stack restores a selection.
pub open spec fn restores_selection<S, R>(stack: Seq<EntryModel<S, R>>) -> bool {
    stack.len() > 0 && stack.last() is Restore
}

/// Pushing onto a bounded stack: the pushed entry is on top, and the stack
/// grows by one until it holds `MAX_HISTORY_ENTRIES` entries, then stays at
/// that size by dropping its oldest entry.
pub proof fn lemma_push_bounded<E>(stack: Seq<E>, e: E)
    requires
        stack.len() <= MAX_HISTORY_ENTRIES,
    ensures
        push_bounded(stack, e).last() == e,
        push_bounded(stack, e).len() == if stack.len() < MAX_HISTORY_ENTRIES {
            stack.len() + 1int
        } else {
            MAX_HISTORY_ENTRIES as int
        },
        push_bounded(stack, e).drop_last() == if stack.len() < MAX_HISTORY_ENTRIES {
            stack
        } else {
            stack.drop_first()
        },
{
    assert(stack.push(e).drop_last() =~= stack);
    if stack.len() == MAX_HISTORY_ENTRIES {
        assert(stack.push(e).drop_first().drop_last() =~= stack.drop_first());
    }
}

/// Applying the reverse of an applied entry gives back the shapes and the
/// selection from before, and its own reverse is the original entry.
pub proof fn lemma_apply_entry_reverses<S, R>(
    e: EntryModel<S, R>,
    shapes: Seq<S>,
    selection: Option<R>,
)
    requires
        apply_entry(e, shapes, selection) is Some,
    ensures
        ({
            let (shapes2, selection2, inverse) = apply_entry(e, shapes, selection)->0;
            apply_entry(inverse, shapes2, selection2) == Some((shapes, selection, e))
        }),
{
    match e {
        EntryModel::Insert { index, shape } => {
            assert(shapes.insert(index, shape).remove(index) =~= shapes);
        },
        EntryModel::Remove { index } => {
            assert(shapes.remove(index).insert(index, shapes[index]) =~= shapes);
        },
        EntryModel::Replace { index, shape } => {
            assert(shapes.update(index, shape).update(index, shapes[index]) =~= shapes);
        },
        EntryModel::Restore { .. } => {},
    }
}

/// Undo followed by redo gives back the shapes, the selection and the undo
/// stack; the redo stack too, unless it was full (then the undo pushed out
/// its oldest entry).
pub proof fn lemma_undo_then_redo<S, R>(m: HistoryModel<S, R>)
    requires
        m.undo.len() <= MAX_HISTORY_ENTRIES,
        m.redo.len() <= MAX_HISTORY_ENTRIES,
        top_applies(m.undo, m),
    ensures
        redo_spec(undo_spec(m)) == (HistoryModel {
            redo: if m.redo.len() < MAX_HISTORY_ENTRIES {
                m.redo
            } else {
                m.redo.drop_first()
            },
            ..m
        }),
{
    let (shapes2, selection2, inverse) = apply_entry(m.undo.last(), m.shapes, m.selection)->0;
    lemma_apply_entry_reverses(m.undo.last(), m.shapes, m.selection);
    lemma_push_bounded(m.redo, inverse);
    let u = undo_spec(m);
    lemma_push_bounded(u.undo, m.undo.last());
    assert(u.undo.push(m.undo.last()) =~= m.undo);
}

/// Redo followed by undo gives back the shapes, the selection and the redo
/// stack; the undo stack too, unless it was full.
pub proof fn lemma_redo_then_undo<S, R>(m: HistoryModel<S, R>)
    requires
        m.undo.len() <= MAX_HISTORY_ENTRIES,
        m.redo.len() <= MAX_HISTORY_ENTRIES,
        top_applies(m.redo, m),
    ensures
        undo_spec(redo_spec(m)) == (HistoryModel {
            undo: if m.undo.len() < MAX_HISTORY_ENTRIES {
                m.undo
            } else {
                m.undo.drop_first()
            },
            ..m
        }),
{
    let (shapes2, selection2, inverse) = apply_entry(m.redo.last(), m.shapes, m.selection)->0;
    lemma_apply_entry_reverses(m.redo.last(), m.shapes, m.selection);
    lemma_push_bounded(m.undo, inverse);
    let r = redo_spec(m);
    lemma_push_bounded(r.redo, m.redo.last());
    assert(r.redo.push(m.redo.last()) =~= m.redo);
}

/// Undo with nothing recorded changes nothing, and likewise redo.
pub proof fn lemma_empty_stacks_do_nothing<S, R>(m: HistoryModel<S, R>)
    ensures
        m.undo.len() == 0 ==> undo_spec(m) == m,
        m.redo.len() == 0 ==> redo_spec(m) == m,
{
}

/// A change recorded right after the addition of the shape at `index` is
/// undone by removing that shape; redoing it puts the same shape back.
pub proof fn lemma_undo_recorded_addition<S, R>(m: HistoryModel<S, R>, index: int)
    requires
        m.undo.len() <= MAX_HISTORY_ENTRIES,
        0 <= index < m.shapes.len(),
    ensures
        ({
            let recorded = HistoryModel {
                undo: push_bounded(m.undo, EntryModel::<S, R>::Remove { index }),
                redo: Seq::empty(),
                ..m
            };
            let undone = undo_spec(recorded);
            &&& undone.shapes == m.shapes.remove(index)
            &&& undone.selection == m.selection
            &&& undone.redo == seq![EntryModel::<S, R>::Insert { index, shape: m.shapes[index] }]
            &&& redo_spec(undone).shapes == m.shapes
        }),
{
    lemma_push_bounded(m.undo, EntryModel::<S, R>::Remove { index });
    let recorded = HistoryModel {
        undo: push_bounded(m.undo, EntryModel::<S, R>::Remove { index }),
        redo: Seq::empty(),
        ..m
    };
    assert(push_bounded(Seq::<EntryModel<S, R>>::empty(), EntryModel::<S, R>::Insert { index, shape: m.shapes[index] }) =~= seq![EntryModel::<S, R>::Insert { index, shape: m.shapes[index] }]);
    lemma_apply_entry_reverses(EntryModel::<S, R>::Remove { index }, m.shapes, m.selection);
}

/// Annotations, selection and undo/redo stacks of one screenshot.
pub struct EditHistory<S, R> {
    /// The shapes drawn so far, bottom to top.
    pub shapes: Vec<S>,
    /// The selected region, if any.
    pub selection: Option<R>,
    /// Changes that can be undone, most recent last.
    pub history: Vec<HistoryEntry<S, R>>,
    /// Changes that can be redone, most recent last.
    pub redo: Vec<HistoryEntry<S, R>>,
}

impl<S, R> EditHistory<S, R> {
    pub open spec fn model(&self) -> HistoryModel<S, R> {
        HistoryModel {
            shapes: self.shapes@,
            selection: self.selection,
            undo: entries_model(self.history@),
            redo: entries_model(self.redo@),
        }
    }

    /// Both stacks are within their bound.
    pub open spec fn wf(&self) -> bool {
        self.history@.len() <= MAX_HISTORY_ENTRIES && self.redo@.len()
            <= MAX_HISTORY_ENTRIES
    }

    /// An empty history with no shapes and no selection.
    pub fn new() -> (h: Self)
        ensures
            h.wf(),
            h.model() == (HistoryModel::<S, R> {
                shapes: Seq::empty(),
                selection: None,
                undo: Seq::empty(),
                redo: Seq::empty(),
            }),
    {
        let h = EditHistory {
            shapes: Vec::new(),
            selection: None,
            history: Vec::new(),
            redo: Vec::new(),
        };
        assert(entries_model(h.history@) =~= Seq::<EntryModel<S, R>>::empty());
        assert(entries_model(h.redo@) =~= Seq::<EntryModel<S, R>>::empty());
        h
    }

    fn push_bounded_entry(stack: &mut Vec<HistoryEntry<S, R>>, entry: HistoryEntry<S, R>)
        ensures
            old(stack)@.len() <= MAX_HISTORY_ENTRIES ==> final(stack)@.len() <= MAX_HISTORY_ENTRIES,
            entries_model(final(stack)@) == push_bounded(entries_model(old(stack)@), entry.model()),
    {
        let ghost e = entry.model();
        stack.push(entry);
        if stack.len() > MAX_HISTORY_ENTRIES {
            stack.remove(0);
        }
        assert(entries_model(stack@) =~= push_bounded(entries_model(old(stack)@), e));
    }

    /// Applies `entry` and returns the entry that reverses it; `None`, with
    /// nothing changed, when `entry` names a position outside the list.
    fn apply_history_entry(&mut self, entry: HistoryEntry<S, R>) -> (inverse: Option<
        HistoryEntry<S, R>,
    >)
        ensures
            final(self).history == old(self).history,
            final(self).redo == old(self).redo,
            match apply_entry(entry.model(), old(self).shapes@, old(self).selection) {
                Some((shapes, selection, inv)) => final(self).shapes@ == shapes
                    && final(self).selection == selection && inverse is Some && inverse->0.model()
                    == inv,
                None => final(self).shapes@ == old(self).shapes@ && final(self).selection == old(
                    self,
                ).selection && inverse is None,
            },
    {
        match entry {
            HistoryEntry::InsertShape { index, shape } => {
                if index <= self.shapes.len() {
                    self.shapes.insert(index, shape);
                    Some(HistoryEntry::RemoveShape { index })
                } else {
                    None
                }
            },
            HistoryEntry::RemoveShape { index } => {
                if index < self.shapes.len() {
                    let removed = self.shapes.remove(index);
                    Some(HistoryEntry::InsertShape { index, shape: removed })
                } else {
                    None
                }
            },
            HistoryEntry::ReplaceShape { index, shape } => {
                if index < self.shapes.len() {
                    let previous = self.shapes.remove(index);
                    self.shapes.insert(index, shape);
                    assert(self.shapes@ =~= old(self).shapes@.update(index as int, shape));
                    Some(HistoryEntry::ReplaceShape { index, shape: previous })
                } else {
                    None
                }
            },
            HistoryEntry::RestoreSelectionAndShapes { selection, shapes } => {
                let mut previous_selection = selection;
                std::mem::swap(&mut previous_selection, &mut self.selection);
                let mut previous_shapes = shapes;
                std::mem::swap(&mut previous_shapes, &mut self.shapes);
                Some(
                    HistoryEntry::RestoreSelectionAndShapes {
                        selection: previous_selection,
                        shapes: previous_shapes,
                    },
                )
            },
        }
    }

    /// Undoes the last recorded change (see [`undo_spec`]). Returns whether
    /// the change undone restored a selection, in which case whatever is
    /// anchored to the selection must follow it.
    pub fn undo_last(&mut self) -> (restored_selection: bool)
        ensures
            old(self).wf() ==> final(self).wf(),
            final(self).model() == undo_spec(old(self).model()),
            restored_selection == (top_applies(old(self).model().undo, old(self).model())
                && restores_selection(old(self).model().undo)),
    {
        let ghost m = self.model();
        let entry = match self.history.pop() {
            Some(e) => e,
            None => {
                assert(m.undo =~= Seq::<EntryModel<S, R>>::empty());
                return false;
            },
        };
        assert(entries_model(self.history@) =~= m.undo.drop_last());
        assert(entry.model() == m.undo.last());
        let is_restore = match &entry {
            HistoryEntry::RestoreSelectionAndShapes { .. } => true,
            _ => false,
        };
        match self.apply_history_entry(entry) {
            Some(inverse) => {
                Self::push_bounded_entry(&mut self.redo, inverse);
                is_restore
            },
            None => false,
        }
    }

    /// Redoes the last undone change (see [`redo_spec`]). Returns whether the
    /// change redone restored a selection.
    pub fn redo_last(&mut self) -> (restored_selection: bool)
        ensures
            old(self).wf() ==> final(self).wf(),
            final(self).model() == redo_spec(old(self).model()),
            restored_selection == (top_applies(old(self).model().redo, old(self).model())
                && restores_selection(old(self).model().redo)),
    {
        let ghost m = self.model();
        let entry = match self.redo.pop() {
            Some(e) => e,
            None => {
                assert(m.redo =~= Seq::<EntryModel<S, R>>::empty());
                return false;
            },
        };
        assert(entries_model(self.redo@) =~= m.redo.drop_last());
        assert(entry.model() == m.redo.last());
        let is_restore = match &entry {
            HistoryEntry::RestoreSelectionAndShapes { .. } => true,
            _ => false,
        };
        match self.apply_history_entry(entry) {
            Some(inverse) => {
                Self::push_bounded_entry(&mut self.history, inverse);
                is_restore
            },
            None => false,
        }
    }

    /// Records a change that can be undone; any redo is forgotten.
    fn push_undo_entry(&mut self, entry: HistoryEntry<S, R>)
        ensures
            old(self).wf() ==> final(self).wf(),
            final(self).shapes == old(self).shapes,
            final(self).selection == old(self).selection,
            final(self).model().undo == push_bounded(old(self).model().undo, entry.model()),
            final(self).model().redo == Seq::<EntryModel<S, R>>::empty(),
    {
        self.redo.clear();
        Self::push_bounded_entry(&mut self.history, entry);
        assert(entries_model(self.redo@) =~= Seq::<EntryModel<S, R>>::empty());
    }

    /// Records that a shape was added at `index`: undoing removes it.
    pub fn record_shape_added(&mut self, index: usize)
        ensures
            old(self).wf() ==> final(self).wf(),
            final(self).model() == (HistoryModel {
                undo: push_bounded(
                    old(self).model().undo,
                    EntryModel::<S, R>::Remove { index: index as int },
                ),
                redo: Seq::empty(),
                ..old(self).model()
            }),
    {
        self.push_undo_entry(HistoryEntry::RemoveShape { index });
    }

    /// Records that `shape` was removed from `index`: undoing puts it back.
    pub fn record_shape_removed(&mut self, index: usize, shape: S)
        ensures
            old(self).wf() ==> final(self).wf(),
            final(self).model() == (HistoryModel {
                undo: push_bounded(
                    old(self).model().undo,
                    EntryModel::<S, R>::Insert { index: index as int, shape },
                ),
                redo: Seq::empty(),
                ..old(self).model()
            }),
    {
        self.push_undo_entry(HistoryEntry::InsertShape { index, shape });
    }

    /// Selects `selection` without recording anything.
    pub fn set_selection(&mut self, selection: Option<R>)
        ensures
            final(self).model() == (HistoryModel { selection, ..old(self).model() }),
            final(self).wf() == old(self).wf(),
    {
        self.selection = selection;
    }
}

impl<S: Clone, R> EditHistory<S, R> {
    /// Records a copy of the shape at `index` before it is edited: undoing
    /// puts the copy back. Does nothing when there is no shape at `index`.
    pub fn record_shape_before_edit(&mut self, index: usize)
        ensures
            old(self).wf() ==> final(self).wf(),
            index >= old(self).shapes@.len() ==> final(self).model() == old(self).model(),
            index < old(self).shapes@.len() ==> {
                &&& final(self).model().shapes == old(self).model().shapes
                &&& final(self).model().selection == old(self).model().selection
                &&& final(self).model().redo == Seq::<EntryModel<S, R>>::empty()
                &&& final(self).model().undo == push_bounded(
                    old(self).model().undo,
                    final(self).model().undo.last(),
                )
                &&& final(self).model().undo.last() matches EntryModel::Replace { index: i, shape }
                    && i == index && cloned(old(self).shapes@[index as int], shape)
            },
    {
        if index >= self.shapes.len() {
            return;
        }
        let copy = self.shapes[index].clone();
        self.push_undo_entry(HistoryEntry::ReplaceShape { index, shape: copy });
    }

    /// Records the selection `previous_selection` that is being replaced,
    /// with a copy of all shapes: undoing puts both back.
    pub fn record_selection_change(&mut self, previous_selection: Option<R>)
        ensures
            old(self).wf() ==> final(self).wf(),
            final(self).model().shapes == old(self).model().shapes,
            final(self).model().selection == old(self).model().selection,
            final(self).model().redo == Seq::<EntryModel<S, R>>::empty(),
            final(self).model().undo == push_bounded(
                old(self).model().undo,
                final(self).model().undo.last(),
            ),
            final(self).model().undo.last() matches EntryModel::Restore { selection, shapes }
                && selection == previous_selection && shapes.len() == old(self).shapes@.len() && (
            forall|i: int|
                0 <= i < shapes.len() ==> cloned(old(self).shapes@[i], #[trigger] shapes[i])),
    {
        let mut copies: Vec<S> = Vec::new();
        let mut i: usize = 0;
        while i < self.shapes.len()
            invariant
                i <= self.shapes@.len(),
                copies@.len() == i,
                forall|k: int| 0 <= k < i ==> cloned(self.shapes@[k], #[trigger] copies@[k]),
            decreases self.shapes@.len() - i,
        {
            copies.push(self.shapes[i].clone());
            i = i + 1;
        }
        self.push_undo_entry(
            HistoryEntry::RestoreSelectionAndShapes { selection: previous_selection, shapes: copies },
        );
    }
}

} // verus!
