//! Keys for a dialog.

use vstd::prelude::*;

verus! {

/// Whether an event is for nobody else.
#[derive(Debug, Clone, Copy, PartialEq, Eq, Structural)]
pub enum Status {
    Captured,
    Ignored,
}

/// What becomes of an event: the content gets it first, and a key for which the content has no use
/// goes to the handler. `message` is what the handler makes of a key that is pressed, and nothing for
/// every other event.
pub fn on_event<M>(content: Status, message: Option<M>) -> (r: (Status, Option<M>))
    ensures
        r == if content == Status::Captured {
            (Status::Captured, None)
        } else {
            match message {
                Some(message) => (Status::Captured, Some(message)),
                None => (Status::Ignored, None),
            }
        },
{
    match content {
        Status::Captured => (Status::Captured, None),
        Status::Ignored => match message {
            Some(message) => (Status::Captured, Some(message)),
            None => (Status::Ignored, None),
        },
    }
}

} // verus!
