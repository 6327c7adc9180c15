//! Numbering of the lines that are read and of those that are selected.

use vstd::prelude::*;

verus! {

/// Two counters: one of all the results it has seen, one of the selected
/// (`Ok`) results among them. Each counts only where it was asked to, and
/// reports nothing until it has counted.
pub struct Enumeration {
    enumerate_all: bool,
    enumerate_oks: bool,
    all: Option<usize>,
    oks: Option<usize>,
}

/// The count after one more: one after none, nothing after the largest
/// `usize`.
pub open spec fn counted_one_more(count: Option<usize>) -> Option<usize> {
    match count {
        Some(so_far) => if so_far < usize::MAX {
            Some((so_far + 1) as usize)
        } else {
            None
        },
        None => Some(1),
    }
}

impl Enumeration {
    /// Whether all results are counted.
    pub closed spec fn enumerates_all(&self) -> bool {
        self.enumerate_all
    }

    /// Whether the selected results are counted.
    pub closed spec fn enumerates_oks(&self) -> bool {
        self.enumerate_oks
    }

    /// The count of all results so far.
    pub closed spec fn all(&self) -> Option<usize> {
        self.all
    }

    /// The count of the selected results so far.
    pub closed spec fn oks(&self) -> Option<usize> {
        self.oks
    }

    /// Counters that have counted nothing yet.
    pub fn new(enumerate_all: bool, enumerate_oks: bool) -> (enumeration: Enumeration)
        ensures
            enumeration.enumerates_all() == enumerate_all,
            enumeration.enumerates_oks() == enumerate_oks,
            enumeration.all() is None,
            enumeration.oks() is None,
    {
        Enumeration { enumerate_all, enumerate_oks, all: None, oks: None }
    }

    /// Counts one result and returns both counts with it.
    pub fn enumerate(&mut self, result: Result<String, String>) -> (out: (
        Option<usize>,
        Option<usize>,
        Result<String, String>,
    ))
        ensures
            final(self).enumerates_all() == old(self).enumerates_all(),
            final(self).enumerates_oks() == old(self).enumerates_oks(),
            final(self).all() == (if old(self).enumerates_all() {
                counted_one_more(old(self).all())
            } else {
                old(self).all()
            }),
            final(self).oks() == (if old(self).enumerates_oks() && result is Ok {
                counted_one_more(old(self).oks())
            } else {
                old(self).oks()
            }),
            out.0 == final(self).all(),
            out.1 == final(self).oks(),
            out.2 == result,
    {
        if self.enumerate_all {
            self.all = one_more(self.all);
        }
        if self.enumerate_oks && result.is_ok() {
            self.oks = one_more(self.oks);
        }
        (self.all, self.oks, result)
    }
}

/// The count after one more.
fn one_more(count: Option<usize>) -> (next: Option<usize>)
    ensures
        next == counted_one_more(count),
{
    match count {
        Some(so_far) => so_far.checked_add(1),
        None => Some(1),
    }
}

} // verus!
