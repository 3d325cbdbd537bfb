//! The selection cursor: an optional index into the task list.
use vstd::prelude::*;

verus! {

/// The cursor after moving down: one further, wrapping to the first task
/// past the last one. Nothing moves on an empty list or without a selection.
pub open spec fn next_index(sel: Option<usize>, len: nat) -> Option<usize> {
    match sel {
        Some(i) => if len == 0 {
            sel
        } else if i + 1 >= len {
            Some(0)
        } else {
            Some((i + 1) as usize)
        },
        None => None,
    }
}

/// The cursor after moving up: one back, wrapping to the last task before
/// the first one. Nothing moves on an empty list or without a selection.
pub open spec fn previous_index(sel: Option<usize>, len: nat) -> Option<usize> {
    match sel {
        Some(i) => if len == 0 {
            sel
        } else if i == 0 || i > len {
            Some((len - 1) as usize)
        } else {
            Some((i - 1) as usize)
        },
        None => None,
    }
}

/// The cursor after the list changed to length `len`: absent on an empty
/// list, kept where it is still in bounds, else back at the first task.
pub open spec fn reconciled(sel: Option<usize>, len: nat) -> Option<usize> {
    if len == 0 {
        None
    } else {
        match sel {
            Some(i) => if i < len {
                Some(i)
            } else {
                Some(0)
            },
            None => Some(0),
        }
    }
}

/// A cursor that fits a list of length `len`: present exactly when the list
/// is not empty, and then a valid index.
pub open spec fn cursor_fits(sel: Option<usize>, len: nat) -> bool {
    match sel {
        Some(i) => i < len,
        None => len == 0,
    }
}

pub fn next_of(sel: Option<usize>, len: usize) -> (r: Option<usize>)
    ensures
        r == next_index(sel, len as nat),
{
    match sel {
        Some(i) => if len == 0 {
            sel
        } else if i >= len - 1 {
            Some(0)
        } else {
            Some(i + 1)
        },
        None => None,
    }
}

pub fn previous_of(sel: Option<usize>, len: usize) -> (r: Option<usize>)
    ensures
        r == previous_index(sel, len as nat),
{
    match sel {
        Some(i) => if len == 0 {
            sel
        } else if i == 0 || i > len {
            Some(len - 1)
        } else {
            Some(i - 1)
        },
        None => None,
    }
}

pub fn reconcile(sel: Option<usize>, len: usize) -> (r: Option<usize>)
    ensures
        r == reconciled(sel, len as nat),
{
    if len == 0 {
        None
    } else {
        match sel {
            Some(i) => if i < len {
                Some(i)
            } else {
                Some(0)
            },
            None => Some(0),
        }
    }
}

/// On a list of `n > 0` tasks, moving down from the last task selects the
/// first, and moving up from the first selects the last.
pub proof fn lemma_wraparound(n: usize)
    requires
        n > 0,
    ensures
        next_index(Some((n - 1) as usize), n as nat) == Some(0usize),
        previous_index(Some(0usize), n as nat) == Some((n - 1) as usize),
{
}

} // verus!
