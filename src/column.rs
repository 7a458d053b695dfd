use vstd::prelude::*;

verus! {

/// An ordered list with an optional cursor.
pub struct StatefulList<T> {
    pub items: Vec<T>,
    pub selected: Option<usize>,
}

/// The cursor after moving down one row, wrapping to the top.
pub open spec fn next_cursor(sel: Option<usize>, len: nat) -> Option<usize> {
    if len == 0 {
        sel
    } else {
        match sel {
            Some(i) => if i >= len - 1 { Some(0) } else { Some((i + 1) as usize) },
            None => Some(0),
        }
    }
}

/// The cursor after moving up one row, wrapping to the bottom.
pub open spec fn prev_cursor(sel: Option<usize>, len: nat) -> Option<usize> {
    if len == 0 {
        sel
    } else {
        match sel {
            Some(i) => if i == 0 { Some((len - 1) as usize) } else { Some((i - 1) as usize) },
            None => Some(0),
        }
    }
}

impl<T> StatefulList<T> {
    /// The cursor, if any, points at an item.
    pub open spec fn wf(&self) -> bool {
        self.selected matches Some(i) ==> i < self.items@.len()
    }

    pub fn empty() -> (r: StatefulList<T>)
        ensures
            r.items@.len() == 0,
            r.selected.is_none(),
    {
        StatefulList { items: Vec::new(), selected: None }
    }

    pub fn next(&mut self)
        requires
            old(self).wf(),
        ensures
            final(self).wf(),
            final(self).items == old(self).items,
            final(self).selected == next_cursor(old(self).selected, old(self).items@.len()),
    {
        if self.items.len() > 0 {
            let i = match self.selected {
                Some(i) => {
                    if i >= self.items.len() - 1 {
                        0
                    } else {
                        i + 1
                    }
                },
                None => 0,
            };
            self.selected = Some(i);
        }
    }

    pub fn prev(&mut self)
        requires
            old(self).wf(),
        ensures
            final(self).wf(),
            final(self).items == old(self).items,
            final(self).selected == prev_cursor(old(self).selected, old(self).items@.len()),
    {
        if self.items.len() > 0 {
            let i = match self.selected {
                Some(i) => {
                    if i == 0 {
                        self.items.len() - 1
                    } else {
                        i - 1
                    }
                },
                None => 0,
            };
            self.selected = Some(i);
        }
    }

    /// The row the cursor stands on, the first row when there is no cursor.
    pub fn cursor_or_first(&self) -> (r: usize)
        ensures
            r == match self.selected {
                Some(i) => i,
                None => 0,
            },
    {
        match self.selected {
            Some(i) => i,
            None => 0,
        }
    }
}

} // verus!
