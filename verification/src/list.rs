//! A cursor-bearing list over the currently visible items, with wrap-around
//! navigation. The cursor is `None` exactly when the list is empty; otherwise
//! it is a valid index into the items.

use vstd::prelude::*;

verus! {

/// The cursor invariant: `cursor` is `None` iff the list is empty, and a
/// `Some` cursor is a valid index.
pub open spec fn wf_cursor(cursor: Option<usize>, len: nat) -> bool {
    match cursor {
        None => len == 0,
        Some(i) => i < len,
    }
}

/// Where the cursor lands after one step forward: wraps from the last index
/// to the first, and is a no-op on an empty list.
pub open spec fn advance_cursor(cursor: Option<usize>, len: nat) -> Option<usize> {
    if len == 0 {
        None
    } else {
        match cursor {
            None => Some(0usize),
            Some(i) => if i + 1 < len {
                Some((i + 1) as usize)
            } else {
                Some(0usize)
            },
        }
    }
}

/// Where the cursor lands after one step backward: wraps from the first index
/// to the last, and is a no-op on an empty list.
pub open spec fn retreat_cursor(cursor: Option<usize>, len: nat) -> Option<usize> {
    if len == 0 {
        None
    } else {
        match cursor {
            None => Some(0usize),
            Some(i) => if i == 0 {
                Some((len - 1) as usize)
            } else {
                Some((i - 1) as usize)
            },
        }
    }
}

/// Where the cursor lands when the items are replaced: the first item when
/// there is one, nothing otherwise.
pub open spec fn reset_cursor(len: nat) -> Option<usize> {
    if len == 0 {
        None
    } else {
        Some(0usize)
    }
}

/// One step forward then one step backward (or the other way round) on an
/// unchanged list returns the cursor to where it started.
pub proof fn lemma_advance_retreat_roundtrip(cursor: Option<usize>, len: nat)
    requires
        wf_cursor(cursor, len),
        len <= usize::MAX,
    ensures
        retreat_cursor(advance_cursor(cursor, len), len) == cursor,
        advance_cursor(retreat_cursor(cursor, len), len) == cursor,
{
}

/// The visible items together with the selection cursor.
pub struct SelectableList {
    pub items: Vec<String>,
    pub cursor: Option<usize>,
}

impl SelectableList {
    /// The cursor invariant, on the list's own fields.
    pub open spec fn wf(self) -> bool {
        wf_cursor(self.cursor, self.items@.len())
    }

    /// Move the cursor one step forward, wrapping from the last item to the
    /// first; a no-op on an empty list.
    pub fn advance(&mut self)
        requires
            old(self).wf(),
        ensures
            final(self).wf(),
            final(self).items == old(self).items,
            final(self).cursor == advance_cursor(old(self).cursor, old(self).items@.len()),
    {
        match self.cursor {
            None => {},
            Some(i) => {
                let len = self.items.len();
                if i + 1 < len {
                    self.cursor = Some(i + 1);
                } else {
                    self.cursor = Some(0);
                }
            },
        }
    }

    /// Move the cursor one step backward, wrapping from the first item to the
    /// last; a no-op on an empty list.
    pub fn retreat(&mut self)
        requires
            old(self).wf(),
        ensures
            final(self).wf(),
            final(self).items == old(self).items,
            final(self).cursor == retreat_cursor(old(self).cursor, old(self).items@.len()),
    {
        match self.cursor {
            None => {},
            Some(i) => {
                if i == 0 {
                    self.cursor = Some(self.items.len() - 1);
                } else {
                    self.cursor = Some(i - 1);
                }
            },
        }
    }

    /// Replace the visible items, putting the cursor on the first item when
    /// there is one and clearing it otherwise. Restores the cursor invariant
    /// from any starting state.
    pub fn reset_selection(&mut self, items: Vec<String>)
        ensures
            final(self).wf(),
            final(self).items == items,
            final(self).cursor == reset_cursor(items@.len()),
    {
        if items.len() == 0 {
            self.cursor = None;
        } else {
            self.cursor = Some(0);
        }
        self.items = items;
    }
}

} // verus!
