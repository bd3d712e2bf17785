//! The choice of an output by pointing at it.

use vstd::prelude::*;

verus! {

/// What the pointer does.
#[derive(Debug, Clone, Copy, PartialEq, Eq, Structural)]
pub enum PointerEvent {
    /// The left button is pressed.
    LeftPressed,
    /// The left button is released.
    LeftReleased,
    Moved,
    Entered,
    Left,
    Other,
}

/// Whether the output is pointed at.
#[derive(Debug, Clone, Copy, PartialEq, Eq, Structural)]
pub struct MyState {
    pub hovered: bool,
    pub focused: bool,
}

impl Default for MyState {
    /// The output is not pointed at.
    fn default() -> (r: Self)
        ensures
            r == (MyState { hovered: false, focused: false }),
    {
        MyState { hovered: false, focused: false }
    }
}

/// What follows from what the pointer does.
#[derive(Debug, Clone, Copy, PartialEq, Eq, Structural)]
pub enum OutputSelected {
    Nothing,
    /// The output is pressed.
    Pressed,
    /// The output is entered or left.
    Entered,
}

impl MyState {
    /// Takes notice of what the pointer does, and of whether it is over the output then.
    pub fn update(&mut self, event: PointerEvent, over: bool) -> (r: OutputSelected)
        ensures
            *final(self) == (MyState { hovered: over, focused: old(self).focused }),
            r == match event {
                PointerEvent::LeftPressed => OutputSelected::Pressed,
                PointerEvent::Moved | PointerEvent::Entered => if old(self).hovered != over {
                    OutputSelected::Entered
                } else {
                    OutputSelected::Nothing
                },
                _ => OutputSelected::Nothing,
            },
    {
        let changed = self.hovered != over;
        self.hovered = over;
        match event {
            PointerEvent::LeftPressed => OutputSelected::Pressed,
            PointerEvent::Moved | PointerEvent::Entered => if changed {
                OutputSelected::Entered
            } else {
                OutputSelected::Nothing
            },
            _ => OutputSelected::Nothing,
        }
    }

    /// Whether the frame is drawn.
    pub fn should_draw(&self) -> (r: bool)
        ensures
            r == (self.hovered || self.focused),
    {
        self.hovered || self.focused
    }
}

} // verus!
