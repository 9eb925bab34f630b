//! Choosing the keys to track, one reported key at a time.

use crate::keys::{all_displayable, glyph, holds_key, keycode_to_char, Key};
use vstd::prelude::*;

verus! {

/// What became of a key that was offered to a [`Selection`].
#[derive(Clone, Copy, Debug, PartialEq, Eq, Structural)]
pub enum SelectionStep {
    /// The key ends the selection.
    Finished,
    /// The key is tracked from now on.
    Added,
    /// The key cannot be displayed and is refused, for the first time.
    Rejected,
    /// The key was tracked or refused before; nothing changes.
    Ignored,
}

/// Mathematical value of a [`Selection`].
pub ghost struct SelectionModel {
    pub keys: Seq<Key>,
    pub rejected: Seq<Key>,
    pub done: bool,
}

/// The key that ends a selection, and so can never be tracked.
pub open spec fn ends_selection(key: Key) -> bool {
    key == Key::Backspace
}

/// What offering `key` reports.
pub open spec fn step_of(m: SelectionModel, key: Key) -> SelectionStep {
    if ends_selection(key) {
        SelectionStep::Finished
    } else if m.keys.contains(key) {
        SelectionStep::Ignored
    } else if glyph(key) is Some {
        SelectionStep::Added
    } else if m.rejected.contains(key) {
        SelectionStep::Ignored
    } else {
        SelectionStep::Rejected
    }
}

/// The selection after `key` was offered.
pub open spec fn offered(m: SelectionModel, key: Key) -> SelectionModel {
    match step_of(m, key) {
        SelectionStep::Finished => SelectionModel { done: true, ..m },
        SelectionStep::Added => SelectionModel { keys: m.keys.push(key), ..m },
        SelectionStep::Rejected => SelectionModel { rejected: m.rejected.push(key), ..m },
        SelectionStep::Ignored => m,
    }
}

/// The invariant of a selection: no key is tracked or refused twice, every
/// tracked key can be displayed and none ends the selection, and no refused
/// key can be displayed.
pub open spec fn consistent(m: SelectionModel) -> bool {
    &&& m.keys.no_duplicates()
    &&& m.rejected.no_duplicates()
    &&& all_displayable(m.keys)
    &&& forall|i: int| 0 <= i < m.keys.len() ==> !ends_selection(#[trigger] m.keys[i])
    &&& forall|i: int| 0 <= i < m.rejected.len() ==> glyph(#[trigger] m.rejected[i]) is None
}

/// The keys chosen so far, in the order in which they were first seen, and
/// the keys refused so far.
pub struct Selection {
    keys: Vec<Key>,
    rejected: Vec<Key>,
    done: bool,
}

impl View for Selection {
    type V = SelectionModel;

    closed spec fn view(&self) -> SelectionModel {
        SelectionModel { keys: self.keys@, rejected: self.rejected@, done: self.done }
    }
}

impl Selection {
    /// The invariant that every selection keeps.
    pub open spec fn wf(&self) -> bool {
        consistent(self@)
    }

    /// A selection with nothing chosen yet.
    pub fn new() -> (selection: Selection)
        ensures
            selection.wf(),
            selection@ == (SelectionModel {
                keys: Seq::empty(),
                rejected: Seq::empty(),
                done: false,
            }),
    {
        Selection { keys: Vec::new(), rejected: Vec::new(), done: false }
    }

    /// Offers one key that the source reported as down.
    ///
    /// The ending key finishes the selection. Any other key is tracked if it
    /// can be displayed and is not tracked yet, and refused if it cannot be
    /// displayed and was not refused yet.
    pub fn offer(&mut self, key: Key) -> (step: SelectionStep)
        requires
            old(self).wf(),
        ensures
            final(self).wf(),
            step == step_of(old(self)@, key),
            final(self)@ == offered(old(self)@, key),
    {
        if key == Key::Backspace {
            self.done = true;
            SelectionStep::Finished
        } else if holds_key(&self.keys, key) {
            SelectionStep::Ignored
        } else if keycode_to_char(&key).is_some() {
            self.keys.push(key);
            SelectionStep::Added
        } else if holds_key(&self.rejected, key) {
            SelectionStep::Ignored
        } else {
            self.rejected.push(key);
            SelectionStep::Rejected
        }
    }

    /// Whether the ending key was seen.
    pub fn is_done(&self) -> (done: bool)
        ensures
            done == self@.done,
    {
        self.done
    }

    /// The number of keys tracked so far.
    pub fn len(&self) -> (len: usize)
        ensures
            len == self@.keys.len(),
    {
        self.keys.len()
    }

    /// The tracked keys, in the order in which they were first seen.
    pub fn into_keys(self) -> (keys: Vec<Key>)
        ensures
            keys@ == self@.keys,
    {
        self.keys
    }
}

} // verus!
