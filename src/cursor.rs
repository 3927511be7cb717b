use vstd::prelude::*;

verus! {

/// The position that follows `sel` in a list of `len` items: the first item
/// when nothing is highlighted, wrapping from the last item back to the first.
/// An empty list has nothing to highlight.
pub open spec fn next_index(sel: Option<usize>, len: nat) -> Option<usize> {
    if len == 0 {
        None
    } else {
        match sel {
            Some(i) => if i + 1 >= len { Some(0usize) } else { Some((i + 1) as usize) },
            None => Some(0usize),
        }
    }
}

/// The position that precedes `sel` in a list of `len` items: the first item
/// when nothing is highlighted, wrapping from the first item to the last.
pub open spec fn previous_index(sel: Option<usize>, len: nat) -> Option<usize> {
    if len == 0 {
        None
    } else {
        match sel {
            Some(i) => if i == 0 { Some((len - 1) as usize) } else { Some((i - 1) as usize) },
            None => Some(0usize),
        }
    }
}

/// The selection after `k` moves forward from `sel`.
pub open spec fn next_times(sel: Option<usize>, len: nat, k: nat) -> Option<usize>
    decreases k,
{
    if k == 0 {
        sel
    } else {
        next_index(next_times(sel, len, (k - 1) as nat), len)
    }
}

/// A list of items with an optional highlighted position.
pub struct StatefulList<T> {
    pub items: Vec<T>,
    pub selected: Option<usize>,
}

impl<T> StatefulList<T> {
    /// The selection, when present, points into the items.
    pub open spec fn wf(&self) -> bool {
        match self.selected {
            Some(i) => i < self.items.len(),
            None => true,
        }
    }

    /// A list over the given items with nothing highlighted.
    pub fn with_items(items: Vec<T>) -> (r: StatefulList<T>)
        ensures
            r.items@ == items@,
            r.selected is None,
            r.wf(),
    {
        StatefulList { items, selected: None }
    }

    /// Moves the highlight one item down, wrapping past the last item.
    pub fn next(&mut self)
        requires
            old(self).wf(),
        ensures
            final(self).items@ == old(self).items@,
            final(self).selected == next_index(old(self).selected, old(self).items@.len()),
            final(self).wf(),
    {
        let len = self.items.len();
        let i = if len == 0 {
            None
        } else {
            match self.selected {
                Some(i) => if i >= len - 1 { Some(0) } else { Some(i + 1) },
                None => Some(0),
            }
        };
        self.selected = i;
    }

    /// Moves the highlight one item up, wrapping before the first item.
    pub fn previous(&mut self)
        requires
            old(self).wf(),
        ensures
            final(self).items@ == old(self).items@,
            final(self).selected == previous_index(old(self).selected, old(self).items@.len()),
            final(self).wf(),
    {
        let len = self.items.len();
        let i = if len == 0 {
            None
        } else {
            match self.selected {
                Some(i) => if i == 0 { Some(len - 1) } else { Some(i - 1) },
                None => Some(0),
            }
        };
        self.selected = i;
    }

    /// Clears the highlight.
    pub fn unselect(&mut self)
        ensures
            final(self).items@ == old(self).items@,
            final(self).selected is None,
            final(self).wf(),
    {
        self.selected = None;
    }

    /// The highlighted position.
    pub fn selected(&self) -> (r: Option<usize>)
        ensures
            r == self.selected,
    {
        self.selected
    }
}

/// Moving forward or backward from a valid selection in a non-empty list
/// always lands on an item.
pub proof fn lemma_moves_stay_in_range(sel: Option<usize>, len: nat)
    requires
        len > 0,
        len <= usize::MAX,
        sel matches Some(i) ==> i < len,
    ensures
        next_index(sel, len) matches Some(i) && i < len,
        previous_index(sel, len) matches Some(i) && i < len,
{
}

/// Moving forward `len` times from the first item of a list of `len` items
/// comes back to the first item.
pub proof fn lemma_next_cycles(len: nat)
    requires
        len > 0,
        len <= usize::MAX,
    ensures
        next_times(Some(0usize), len, len) == Some(0usize),
{
    lemma_next_steps(len, len);
}

/// After `k` moves forward from the first item, the highlight is on item `k`,
/// or back on the first item once `k` reaches the length.
proof fn lemma_next_steps(len: nat, k: nat)
    requires
        len > 0,
        len <= usize::MAX,
        k <= len,
    ensures
        next_times(Some(0usize), len, k) == if k == len { Some(0usize) } else { Some(k as usize) },
    decreases k,
{
    if k > 0 {
        lemma_next_steps(len, (k - 1) as nat);
    }
}

} // verus!
