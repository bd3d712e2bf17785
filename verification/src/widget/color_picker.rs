//! The area over which a colour is picked.

use crate::widget::output_selection::PointerEvent;
use vstd::prelude::*;

verus! {

/// What follows from what the pointer does.
#[derive(Debug, PartialEq, Eq)]
pub struct Picked<P> {
    /// Where the pointer moved.
    pub motion: Option<P>,
    /// Where the button was pressed.
    pub click: Option<P>,
    /// The area has to be drawn again.
    pub redraw: bool,
    /// The event is for nobody else.
    pub captured: bool,
}

/// What follows from what the pointer does, given where it is, if it is over the area.
pub fn update<P: Copy>(event: PointerEvent, position: Option<P>) -> (r: Picked<P>)
    ensures
        r == match event {
            PointerEvent::Moved => Picked {
                motion: position,
                click: None,
                redraw: true,
                captured: false,
            },
            PointerEvent::LeftPressed => Picked {
                motion: None,
                click: position,
                redraw: false,
                captured: position is Some,
            },
            _ => Picked { motion: None, click: None, redraw: false, captured: false },
        },
{
    match event {
        PointerEvent::Moved => Picked {
            motion: position,
            click: None,
            redraw: true,
            captured: false,
        },
        PointerEvent::LeftPressed => Picked {
            motion: None,
            click: position,
            redraw: false,
            captured: position.is_some(),
        },
        _ => Picked { motion: None, click: None, redraw: false, captured: false },
    }
}

} // verus!
