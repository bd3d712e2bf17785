//! Pictures of outputs, placed as the outputs are.

use crate::widget::output_selection::PointerEvent;
use vstd::prelude::*;

verus! {

/// How a picture stands out.
#[derive(Debug, Clone, Copy, PartialEq, Eq, Structural)]
pub enum Highlight {
    /// A thick frame.
    Selected,
    /// A thin and paler frame.
    Hovered,
}

/// How a picture stands out, if it does: one that is chosen does so whether it is pointed at or not.
pub fn highlight(selected: bool, hovered: bool) -> (r: Option<Highlight>)
    ensures
        r == if selected {
            Some(Highlight::Selected)
        } else if hovered {
            Some(Highlight::Hovered)
        } else {
            None
        },
{
    if selected {
        Some(Highlight::Selected)
    } else if hovered {
        Some(Highlight::Hovered)
    } else {
        None
    }
}

/// Which picture is pointed at.
#[derive(Debug, Clone, Copy, PartialEq, Eq, Structural)]
pub struct State {
    pub hovered: Option<usize>,
}

impl Default for State {
    /// None is pointed at.
    fn default() -> (r: Self)
        ensures
            r.hovered is None,
    {
        State { hovered: None }
    }
}

/// The first picture that is pointed at.
pub open spec fn first_over(over: Seq<bool>) -> Option<usize> {
    crate::seqs::position(over, true)
}

impl State {
    /// Takes notice of what the pointer does, given for each picture whether the pointer is over it.
    /// Tells whether the pictures have to be drawn again.
    pub fn update(&mut self, event: PointerEvent, over: &Vec<bool>) -> (r: bool)
        ensures
            final(self).hovered == match event {
                PointerEvent::Moved => first_over(over@),
                PointerEvent::Left => None,
                _ => old(self).hovered,
            },
            r == (final(self).hovered != old(self).hovered),
    {
        let hovered = match event {
            PointerEvent::Moved => position_of_true(over),
            PointerEvent::Left => None,
            _ => {
                return false;
            },
        };
        let same = match (self.hovered, hovered) {
            (Some(a), Some(b)) => a == b,
            (None, None) => true,
            _ => false,
        };
        self.hovered = hovered;
        !same
    }
}

/// The first picture that is pointed at.
fn position_of_true(over: &Vec<bool>) -> (r: Option<usize>)
    ensures
        r == first_over(over@),
{
    let mut i: usize = 0;
    while i < over.len()
        invariant
            i <= over@.len(),
            forall|j: int| 0 <= j < i ==> !over@[j],
        decreases over@.len() - i,
    {
        if over[i] {
            proof {
                crate::seqs::lemma_first_position(over@, true, i as int);
            }
            return Some(i);
        }
        i = i + 1;
    }
    proof {
        crate::seqs::lemma_first_position(over@, true, i as int);
    }
    None
}

/// The picture under the pointer is the first that the pointer is over, and there is none where it is
/// over none.
pub proof fn law_picture_under_the_pointer(over: Seq<bool>, k: int)
    requires
        over.len() <= usize::MAX,
    ensures
        0 <= k < over.len() && over[k] && (forall|i: int| 0 <= i < k ==> !(#[trigger] over[i]))
            ==> first_over(over) == Some(k as usize),
        (forall|i: int| 0 <= i < over.len() ==> !(#[trigger] over[i])) ==> first_over(over) is None,
{
    crate::seqs::lemma_first_position_of(over, true);
}

} // verus!
