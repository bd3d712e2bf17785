//! Shapes that are drawn on a picture.

use crate::widget::output_selection::PointerEvent;
use vstd::prelude::*;

verus! {

/// What is drawn.
#[derive(Debug, Clone, Copy, PartialEq, Eq, Structural)]
pub enum AnnotationTool {
    Rectangle,
    Arrow,
}

/// A shape between two points.
#[derive(Debug, PartialEq, Eq)]
pub enum AnnotationShape<P> {
    Rectangle { start: P, end: P },
    Arrow { start: P, end: P },
}

impl<P> AnnotationShape<P> {
    /// The shape that a tool draws between two points.
    pub open spec fn spec_new(tool: AnnotationTool, start: P, end: P) -> AnnotationShape<P> {
        match tool {
            AnnotationTool::Rectangle => AnnotationShape::Rectangle { start, end },
            AnnotationTool::Arrow => AnnotationShape::Arrow { start, end },
        }
    }

    /// The shape that a tool draws between two points.
    pub fn new(tool: AnnotationTool, start: P, end: P) -> (r: Self)
        ensures
            r == AnnotationShape::spec_new(tool, start, end),
    {
        match tool {
            AnnotationTool::Rectangle => AnnotationShape::Rectangle { start, end },
            AnnotationTool::Arrow => AnnotationShape::Arrow { start, end },
        }
    }
}

/// Where the button was pressed, while it is.
#[derive(Debug, PartialEq, Eq)]
pub struct CanvasState<P> {
    pub drag_start: Option<P>,
}

/// What follows from what the pointer does.
#[derive(Debug, PartialEq, Eq)]
pub struct Drawn<P> {
    /// What the shape that is being drawn becomes, if it changes.
    pub draft: Option<Option<AnnotationShape<P>>>,
    /// The shape that is done.
    pub commit: Option<AnnotationShape<P>>,
    /// The event is for nobody else.
    pub captured: bool,
}

impl<P> CanvasState<P> {
    /// Nothing changes.
    pub open spec fn nothing() -> Drawn<P> {
        Drawn { draft: None, commit: None, captured: false }
    }

    /// The state after what the pointer does.
    pub open spec fn next(self, event: PointerEvent, point: Option<P>) -> CanvasState<P> {
        match event {
            PointerEvent::LeftPressed => if point is Some {
                CanvasState { drag_start: point }
            } else {
                self
            },
            PointerEvent::LeftReleased => CanvasState { drag_start: None },
            _ => self,
        }
    }

    /// What follows from what the pointer does.
    pub open spec fn drawn(
        self,
        tool: AnnotationTool,
        event: PointerEvent,
        point: Option<P>,
        far: bool,
    ) -> Drawn<P> {
        match (event, self.drag_start, point) {
            (PointerEvent::LeftPressed, _, Some(point)) => Drawn {
                draft: Some(Some(AnnotationShape::spec_new(tool, point, point))),
                commit: None,
                captured: true,
            },
            (PointerEvent::Moved, Some(start), Some(end)) => Drawn {
                draft: Some(Some(AnnotationShape::spec_new(tool, start, end))),
                commit: None,
                captured: true,
            },
            (PointerEvent::LeftReleased, Some(_), None) => Drawn {
                draft: Some(None),
                commit: None,
                captured: true,
            },
            (PointerEvent::LeftReleased, Some(start), Some(end)) => Drawn {
                draft: Some(None),
                commit: if far {
                    Some(AnnotationShape::spec_new(tool, start, end))
                } else {
                    None
                },
                captured: true,
            },
            _ => Self::nothing(),
        }
    }
}

impl<P> Default for CanvasState<P> {
    /// The button is not pressed.
    fn default() -> (r: Self)
        ensures
            r.drag_start is None,
    {
        CanvasState { drag_start: None }
    }
}

impl<P: Copy> CanvasState<P> {
    /// Takes notice of what the pointer does. `point` is where it is, if it is over the picture, and
    /// `far` tells whether that is more than a hundredth of the picture from where the button was
    /// pressed. A shape is done when the button is released over the picture, unless it is too small.
    pub fn update(
        &mut self,
        tool: AnnotationTool,
        event: PointerEvent,
        point: Option<P>,
        far: bool,
    ) -> (r: Drawn<P>)
        ensures
            *final(self) == old(self).next(event, point),
            r == old(self).drawn(tool, event, point, far),
    {
        match event {
            PointerEvent::LeftPressed => match point {
                Some(point) => {
                    self.drag_start = Some(point);
                    Drawn {
                        draft: Some(Some(AnnotationShape::new(tool, point, point))),
                        commit: None,
                        captured: true,
                    }
                },
                None => Drawn { draft: None, commit: None, captured: false },
            },
            PointerEvent::Moved => match (self.drag_start, point) {
                (Some(start), Some(end)) => Drawn {
                    draft: Some(Some(AnnotationShape::new(tool, start, end))),
                    commit: None,
                    captured: true,
                },
                _ => Drawn { draft: None, commit: None, captured: false },
            },
            PointerEvent::LeftReleased => {
                let start = self.drag_start;
                self.drag_start = None;
                match (start, point) {
                    (None, _) => Drawn { draft: None, commit: None, captured: false },
                    (Some(_), None) => Drawn { draft: Some(None), commit: None, captured: true },
                    (Some(start), Some(end)) => {
                        let commit = if far {
                            Some(AnnotationShape::new(tool, start, end))
                        } else {
                            None
                        };
                        Drawn { draft: Some(None), commit, captured: true }
                    },
                }
            },
            _ => Drawn { draft: None, commit: None, captured: false },
        }
    }
}

/// A shape that is done is the one that was shown last, when the pointer moved to the place where the
/// button is released.
pub proof fn law_shape_is_as_shown<P>(
    state: CanvasState<P>,
    tool: AnnotationTool,
    point: P,
    far: bool,
)
    requires
        state.drag_start is Some,
    ensures
        ({
            let moved = state.drawn(tool, PointerEvent::Moved, Some(point), far);
            let after = state.next(PointerEvent::Moved, Some(point));
            let released = after.drawn(tool, PointerEvent::LeftReleased, Some(point), far);
            released.commit is Some ==> moved.draft == Some(released.commit)
        }),
{
}

/// A shape is drawn from where the button was pressed to where it is released, with the tool that is
/// chosen, unless both are too near; nothing is drawn where the button was not pressed or is released
/// beside the picture, and nothing is being drawn after it was released.
pub proof fn law_shape_is_drawn_from_press_to_release<P>(
    state: CanvasState<P>,
    tool: AnnotationTool,
    start: P,
    end: P,
    far: bool,
)
    ensures
        ({
            let pressed = state.next(PointerEvent::LeftPressed, Some(start));
            let released = pressed.drawn(tool, PointerEvent::LeftReleased, Some(end), far);
            &&& far && tool is Rectangle ==> released.commit == Some(
                AnnotationShape::Rectangle { start, end },
            )
            &&& far && tool is Arrow ==> released.commit == Some(AnnotationShape::Arrow { start, end })
            &&& !far ==> released.commit is None
            &&& released.draft == Some(None::<AnnotationShape<P>>)
            &&& pressed.drawn(tool, PointerEvent::LeftReleased, None, far).commit is None
            &&& pressed.next(PointerEvent::LeftReleased, Some(end)).drag_start is None
            &&& state.drag_start is None ==> state.drawn(
                tool,
                PointerEvent::LeftReleased,
                Some(end),
                far,
            ).commit is None
            &&& pressed.drawn(tool, PointerEvent::Moved, Some(end), far).commit is None
        }),
{
}

} // verus!
