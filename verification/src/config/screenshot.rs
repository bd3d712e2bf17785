//! How screenshots were last taken.

use crate::screenshot::geometry::Rect;
use crate::text::view_opt;
use vstd::prelude::*;

verus! {

/// Where a screenshot goes.
#[derive(Debug, Clone, Copy, PartialEq, Eq, Structural)]
pub enum ImageSaveLocation {
    Clipboard,
    Pictures,
    Documents,
}

impl Default for ImageSaveLocation {
    fn default() -> (r: Self)
        ensures
            r == ImageSaveLocation::Pictures,
    {
        ImageSaveLocation::Pictures
    }
}

/// What a screenshot is taken of.
#[derive(Debug, PartialEq, Eq)]
pub enum Choice {
    Output(Option<String>),
    Rectangle,
    Window,
}

/// What a screenshot is taken of, as a value.
pub enum ChoiceView {
    Output(Option<Seq<char>>),
    Rectangle,
    Window,
}

impl View for Choice {
    type V = ChoiceView;

    open spec fn view(&self) -> ChoiceView {
        match self {
            Choice::Output(output) => ChoiceView::Output(view_opt(*output)),
            Choice::Rectangle => ChoiceView::Rectangle,
            Choice::Window => ChoiceView::Window,
        }
    }
}

impl Choice {
    /// Takes the choice out of its place; the name of an output does not stay behind.
    pub fn take(value: &mut Choice) -> (r: Choice)
        ensures
            r == *old(value),
            *final(value) == match *old(value) {
                Choice::Output(_) => Choice::Output(None),
                other => other,
            },
    {
        match value {
            Choice::Output(output) => Choice::Output(output.take()),
            Choice::Rectangle => Choice::Rectangle,
            Choice::Window => Choice::Window,
        }
    }
}

impl Clone for Choice {
    fn clone(&self) -> (r: Self)
        ensures
            r == *self,
    {
        match self {
            Choice::Output(output) => Choice::Output(output.clone()),
            Choice::Rectangle => Choice::Rectangle,
            Choice::Window => Choice::Window,
        }
    }
}

impl Default for Choice {
    fn default() -> (r: Self)
        ensures
            r@ == ChoiceView::Output(None),
    {
        Choice::Output(None)
    }
}

/// Interactive screenshot settings.
#[derive(Debug, PartialEq, Eq)]
pub struct Screenshot {
    pub save_location: ImageSaveLocation,
    pub choice: Choice,
    /// The rectangle that was chosen last.
    pub last_rectangle: Option<Rect>,
}

impl Default for Screenshot {
    fn default() -> (r: Self)
        ensures
            r.save_location == ImageSaveLocation::Pictures,
            r.choice@ == ChoiceView::Output(None),
            r.last_rectangle is None,
    {
        Screenshot {
            save_location: ImageSaveLocation::default(),
            choice: Choice::default(),
            last_rectangle: None,
        }
    }
}

} // verus!
