//! The highlighted entry of the fixed list of operations.
use vstd::prelude::*;

verus! {

/// A highlight over a fixed list of entries.
///
/// `next` and `previous` move the highlight by one and clamp at the ends of
/// the list, so the highlighted index never leaves the list's range.
#[derive(Clone, Copy, Debug, PartialEq, Eq, Structural)]
pub struct Selection {
    /// How many entries the list has.
    pub len: usize,
    /// The highlighted index.
    pub selected: usize,
}

/// The selection after one move down: one entry further, held at the end.
pub open spec fn spec_next(s: Selection) -> Selection {
    if s.selected + 1 < s.len {
        Selection { len: s.len, selected: (s.selected + 1) as usize }
    } else {
        s
    }
}

/// The selection after one move up: one entry back, held at the start.
pub open spec fn spec_previous(s: Selection) -> Selection {
    if s.selected > 0 {
        Selection { len: s.len, selected: (s.selected - 1) as usize }
    } else {
        s
    }
}

impl Selection {
    /// Well-formed: the list is not empty and the highlight is in range.
    pub open spec fn inv(self) -> bool {
        0 < self.len && self.selected < self.len
    }

    /// A fresh selection over `len` entries with the first one highlighted.
    pub fn new(len: usize) -> (r: Selection)
        requires
            0 < len,
        ensures
            r.inv(),
            r.len == len,
            r.selected == 0,
    {
        Selection { len, selected: 0 }
    }

    /// Moves the highlight one entry down, staying at the last entry.
    pub fn next(&mut self)
        requires
            old(self).inv(),
        ensures
            *final(self) == spec_next(*old(self)),
            final(self).inv(),
    {
        if self.selected + 1 < self.len {
            self.selected = self.selected + 1;
        }
    }

    /// Moves the highlight one entry up, staying at the first entry.
    pub fn previous(&mut self)
        requires
            old(self).inv(),
        ensures
            *final(self) == spec_previous(*old(self)),
            final(self).inv(),
    {
        if self.selected > 0 {
            self.selected = self.selected - 1;
        }
    }

    /// The highlighted index.
    pub fn selected(&self) -> (r: usize)
        ensures
            r == self.selected,
    {
        self.selected
    }
}

/// Law: moving the highlight up or down from a well-formed selection keeps
/// the list and never selects an out-of-range index.
pub proof fn lemma_navigation_stays_in_range(s: Selection)
    requires
        s.inv(),
    ensures
        spec_next(s).inv(),
        spec_next(s).len == s.len,
        spec_previous(s).inv(),
        spec_previous(s).len == s.len,
{
}

/// One navigation move: down when the entry is `true`, up when it is
/// `false`.
pub open spec fn spec_move(s: Selection, down: bool) -> Selection {
    if down {
        spec_next(s)
    } else {
        spec_previous(s)
    }
}

/// The selection after a whole sequence of navigation moves.
pub open spec fn spec_moves(s: Selection, moves: Seq<bool>) -> Selection
    decreases moves.len(),
{
    if moves.len() == 0 {
        s
    } else {
        spec_moves(spec_move(s, moves[0]), moves.drop_first())
    }
}

/// Law: however many moves up or down follow one another, a well-formed
/// selection never selects an out-of-range index.
pub proof fn lemma_moves_stay_in_range(s: Selection, moves: Seq<bool>)
    requires
        s.inv(),
    ensures
        spec_moves(s, moves).inv(),
        spec_moves(s, moves).len == s.len,
    decreases moves.len(),
{
    if moves.len() == 0 {
    } else {
        lemma_navigation_stays_in_range(s);
        lemma_moves_stay_in_range(spec_move(s, moves[0]), moves.drop_first());
    }
}

} // verus!
