//! The mark that tells whether something is chosen.

use vstd::prelude::*;

verus! {

/// What is drawn as a mark.
#[derive(Debug, Clone, Copy, PartialEq, Eq, Structural)]
pub enum Mark {
    /// A tick.
    Check,
    /// An empty box.
    EmptyBox,
    /// A disc with a dot in it.
    Dot,
    /// An empty circle.
    EmptyCircle,
}

/// A mark: a box where several things can be chosen, and a circle where only one can.
#[derive(Debug, Clone, Copy, PartialEq, Eq, Structural)]
pub struct SelectionIndicator {
    pub selected: bool,
    pub multiple: bool,
}

impl SelectionIndicator {
    /// The mark for something that is chosen or not, where several or only one can be.
    pub fn new(selected: bool, multiple: bool) -> (r: Self)
        ensures
            r.selected == selected,
            r.multiple == multiple,
    {
        SelectionIndicator { selected, multiple }
    }

    /// What is drawn.
    pub fn draw_mark(&self) -> (r: Mark)
        ensures
            r == match (self.multiple, self.selected) {
                (true, true) => Mark::Check,
                (true, false) => Mark::EmptyBox,
                (false, true) => Mark::Dot,
                (false, false) => Mark::EmptyCircle,
            },
    {
        if self.multiple {
            if self.selected {
                Mark::Check
            } else {
                Mark::EmptyBox
            }
        } else if self.selected {
            Mark::Dot
        } else {
            Mark::EmptyCircle
        }
    }
}

} // verus!
