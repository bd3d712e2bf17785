//! A rectangle that is drawn and resized with the pointer.

use crate::screenshot::geometry::{magnitude, Rect};
use crate::rounding::{lemma_single_exact, single, to_single};
use vstd::prelude::*;

verus! {

/// What is dragged from the rectangle: nothing that another window could take.
#[derive(Debug, Clone, Copy, PartialEq, Eq, Structural)]
pub struct MyData;

impl MyData {
    /// There are no data of any type.
    pub fn from_mime_type(&self, _mime_type: &str) -> (r: Option<Vec<u8>>)
        ensures
            r is None,
    {
        None
    }
}

/// What is dragged: an edge or a corner of the rectangle, by its direction.
#[derive(Debug, Clone, Copy, PartialEq, Eq, Structural)]
pub enum DragState {
    /// Nothing is dragged.
    Idle,
    NW,
    N,
    NE,
    E,
    SE,
    S,
    SW,
    W,
}

impl Default for DragState {
    fn default() -> (r: Self)
        ensures
            r == DragState::Idle,
    {
        DragState::Idle
    }
}

impl DragState {
    pub open spec fn spec_number(self) -> u8 {
        match self {
            DragState::Idle => 0,
            DragState::NW => 1,
            DragState::N => 2,
            DragState::NE => 3,
            DragState::E => 4,
            DragState::SE => 5,
            DragState::S => 6,
            DragState::SW => 7,
            DragState::W => 8,
        }
    }

    /// The number of the state.
    pub fn number(&self) -> (r: u8)
        ensures
            r == self.spec_number(),
            r <= 8,
    {
        match self {
            DragState::Idle => 0,
            DragState::NW => 1,
            DragState::N => 2,
            DragState::NE => 3,
            DragState::E => 4,
            DragState::SE => 5,
            DragState::S => 6,
            DragState::SW => 7,
            DragState::W => 8,
        }
    }

    /// The state with a number.
    pub fn from_number(state: u8) -> (r: Self)
        requires
            state <= 8,
        ensures
            r.spec_number() == state,
    {
        if state == 0 {
            DragState::Idle
        } else if state == 1 {
            DragState::NW
        } else if state == 2 {
            DragState::N
        } else if state == 3 {
            DragState::NE
        } else if state == 4 {
            DragState::E
        } else if state == 5 {
            DragState::SE
        } else if state == 6 {
            DragState::S
        } else if state == 7 {
            DragState::SW
        } else {
            DragState::W
        }
    }

    /// Whether a corner is dragged.
    pub open spec fn is_corner(self) -> bool {
        self == DragState::NW || self == DragState::NE || self == DragState::SE || self
            == DragState::SW
    }
}

/// Half the side of the square around a corner in which the corner is grabbed.
pub const CORNER_REACH: i64 = 8;

/// How far from an edge the edge is grabbed.
pub const EDGE_REACH: i64 = 4;

/// Whether a point lies in a box, in single precision.
pub open spec fn in_box(x: int, y: int, left: int, top: int, width: int, height: int) -> bool {
    left <= x < single(left + width) && top <= y < single(top + height)
}

/// What a point grabs of the rectangle: a corner before an edge, and nothing away from both. The
/// point is relative to the output. Positions and sizes are in single precision.
pub open spec fn grabbed(selection: Rect, output: Rect, x: int, y: int) -> DragState {
    let left = single(single(selection.left as int) - single(output.left as int));
    let top = single(single(selection.top as int) - single(output.top as int));
    let width = single(magnitude(selection.right - selection.left));
    let height = single(magnitude(selection.bottom - selection.top));
    let right = single(left + width);
    let bottom = single(top + height);
    if in_box(x, y, single(left - 8), single(top - 8), 16, 16) {
        DragState::NW
    } else if in_box(x, y, single(right - 8), single(top - 8), 16, 16) {
        DragState::NE
    } else if in_box(x, y, single(left - 8), single(bottom - 8), 16, 16) {
        DragState::SW
    } else if in_box(x, y, single(right - 8), single(bottom - 8), 16, 16) {
        DragState::SE
    } else if in_box(x, y, left, single(top - 4), width, 8) {
        DragState::N
    } else if in_box(x, y, left, single(bottom - 4), width, 8) {
        DragState::S
    } else if in_box(x, y, single(left - 4), top, 8, height) {
        DragState::W
    } else if in_box(x, y, single(right - 4), top, 8, height) {
        DragState::E
    } else {
        DragState::Idle
    }
}

/// Whether a point lies in a box, in single precision.
fn lies_in_box(x: i64, y: i64, left: i64, top: i64, width: i64, height: i64) -> (r: bool)
    requires
        -0x40_0000_0000 <= left <= 0x40_0000_0000,
        -0x40_0000_0000 <= top <= 0x40_0000_0000,
        0 <= width <= 0x40_0000_0000,
        0 <= height <= 0x40_0000_0000,
    ensures
        r == in_box(x as int, y as int, left as int, top as int, width as int, height as int),
{
    left <= x && x < to_single(left + width) && top <= y && y < to_single(top + height)
}

/// A distance without sign.
fn distance(from: i32, to: i32) -> (r: i64)
    ensures
        r == magnitude(to - from),
        0 <= r <= 0xffff_ffff,
{
    let d: i64 = to as i64 - from as i64;
    if d < 0 {
        -d
    } else {
        d
    }
}

/// The point that stays where it is while an edge or corner is dragged. For an edge only one of the
/// coordinates is meant.
pub open spec fn reflection_point(state: DragState, rect: Rect) -> (i32, i32) {
    match state {
        DragState::NW => (rect.right, rect.bottom),
        DragState::N => (0, rect.bottom),
        DragState::NE => (rect.left, rect.bottom),
        DragState::E => (rect.left, 0),
        DragState::SE => (rect.left, rect.top),
        DragState::S => (0, rect.top),
        DragState::SW => (rect.right, rect.top),
        DragState::W => (rect.right, 0),
        DragState::Idle => (0, 0),
    }
}

/// What is dragged after the pointer moved: the opposite edge or corner where the pointer crossed
/// the point that stays.
pub open spec fn next_state(state: DragState, point: (i32, i32), x: i32, y: i32) -> DragState {
    if state.is_corner() {
        if x < point.0 && y < point.1 {
            DragState::NW
        } else if x > point.0 && y > point.1 {
            DragState::SE
        } else if x > point.0 && y < point.1 {
            DragState::NE
        } else if x < point.0 && y > point.1 {
            DragState::SW
        } else {
            state
        }
    } else if state == DragState::N || state == DragState::S {
        if y < point.1 {
            DragState::N
        } else {
            DragState::S
        }
    } else if state == DragState::E || state == DragState::W {
        if x > point.0 {
            DragState::E
        } else {
            DragState::W
        }
    } else {
        DragState::Idle
    }
}

/// The rectangle with the dragged edge or corner at the pointer and the opposite one at the point
/// that stays.
pub open spec fn next_rect(state: DragState, rect: Rect, point: (i32, i32), x: i32, y: i32) -> Rect {
    match state {
        DragState::NW => Rect { left: x, top: y, right: point.0, bottom: point.1 },
        DragState::NE => Rect { left: point.0, top: y, right: x, bottom: point.1 },
        DragState::SE => Rect { left: point.0, top: point.1, right: x, bottom: y },
        DragState::SW => Rect { left: x, top: point.1, right: point.0, bottom: y },
        DragState::N => Rect { left: rect.left, top: y, right: rect.right, bottom: point.1 },
        DragState::E => Rect { left: point.0, top: rect.top, right: x, bottom: rect.bottom },
        DragState::S => Rect { left: rect.left, top: point.1, right: rect.right, bottom: y },
        DragState::W => Rect { left: x, top: rect.top, right: point.0, bottom: rect.bottom },
        DragState::Idle => rect,
    }
}

/// What is dragged and the rectangle after the pointer moved to a position on the desktop.
pub open spec fn dragged(state: DragState, rect: Rect, x: i32, y: i32) -> (DragState, Rect) {
    let point = reflection_point(state, rect);
    let next = next_state(state, point, x, y);
    (next, next_rect(next, rect, point, x, y))
}

/// What happens to the rectangle.
#[derive(Debug, Clone, Copy, PartialEq, Eq, Structural)]
pub enum SelectionEvent {
    /// The pointer that drags is at a position of the output, or outside the widget.
    Dragged { x: i32, y: i32, inside: bool },
    /// What was dragged was dropped here.
    Dropped,
    /// The dragging ended: what was dragged was dropped somewhere, or it was given up.
    Finished,
    /// The left button was pressed at a position of the output, which on the desktop is the other
    /// position; or outside the widget.
    Pressed { x: i32, y: i32, desktop_x: i32, desktop_y: i32, inside: bool },
    /// Something else happened to the pointer, in the widget or outside.
    Pointer { inside: bool },
    /// Something that does not concern the rectangle.
    Other,
}

/// What follows from an event.
#[derive(Debug, Clone, Copy, PartialEq, Eq)]
pub struct SelectionEffect {
    /// Whether the event goes no further.
    pub captured: bool,
    /// Whether dragging is started.
    pub start_drag: bool,
    /// What is told to the dialog.
    pub publish: Option<(DragState, Rect)>,
}

/// Nothing follows.
pub open spec fn ignored() -> SelectionEffect {
    SelectionEffect { captured: false, start_drag: false, publish: None }
}

/// The shape of the pointer.
#[derive(Debug, Clone, Copy, PartialEq, Eq, Structural)]
pub enum Interaction {
    Crosshair,
    Grab,
    Grabbing,
    ResizingVertically,
    ResizingHorizontally,
}

/// A rectangle that is drawn and resized with the pointer.
#[derive(Debug, Clone, Copy, PartialEq, Eq, Structural)]
pub struct RectangleSelection {
    pub output_rect: Rect,
    pub rectangle_selection: Rect,
    pub drag_state: DragState,
}

impl RectangleSelection {
    /// A rectangle on an output.
    pub fn new(output_rect: Rect, rectangle_selection: Rect, drag_direction: DragState) -> (r: Self)
        ensures
            r.output_rect == output_rect,
            r.rectangle_selection == rectangle_selection,
            r.drag_state == drag_direction,
    {
        RectangleSelection { output_rect, rectangle_selection, drag_state: drag_direction }
    }

    /// What a point of the output grabs of the rectangle.
    pub fn drag_state(&self, x: i32, y: i32) -> (r: DragState)
        ensures
            r == grabbed(self.rectangle_selection, self.output_rect, x as int, y as int),
    {
        let selection = self.rectangle_selection;
        let output = self.output_rect;
        let left: i64 = to_single(to_single(selection.left as i64) - to_single(output.left as i64));
        let top: i64 = to_single(to_single(selection.top as i64) - to_single(output.top as i64));
        let width: i64 = to_single(distance(selection.left, selection.right));
        let height: i64 = to_single(distance(selection.top, selection.bottom));
        let right: i64 = to_single(left + width);
        let bottom: i64 = to_single(top + height);
        let px: i64 = x as i64;
        let py: i64 = y as i64;
        let side: i64 = 2 * CORNER_REACH;
        let thickness: i64 = 2 * EDGE_REACH;
        let west: i64 = to_single(left - CORNER_REACH);
        let north: i64 = to_single(top - CORNER_REACH);
        let east: i64 = to_single(right - CORNER_REACH);
        let south: i64 = to_single(bottom - CORNER_REACH);
        if lies_in_box(px, py, west, north, side, side) {
            DragState::NW
        } else if lies_in_box(px, py, east, north, side, side) {
            DragState::NE
        } else if lies_in_box(px, py, west, south, side, side) {
            DragState::SW
        } else if lies_in_box(px, py, east, south, side, side) {
            DragState::SE
        } else if lies_in_box(px, py, left, to_single(top - EDGE_REACH), width, thickness) {
            DragState::N
        } else if lies_in_box(px, py, left, to_single(bottom - EDGE_REACH), width, thickness) {
            DragState::S
        } else if lies_in_box(px, py, to_single(left - EDGE_REACH), top, thickness, height) {
            DragState::W
        } else if lies_in_box(px, py, to_single(right - EDGE_REACH), top, thickness, height) {
            DragState::E
        } else {
            DragState::Idle
        }
    }

    /// The shape of the pointer at a point of the output.
    pub fn mouse_interaction(&self, x: i32, y: i32) -> (r: Interaction)
        ensures
            r == match grabbed(self.rectangle_selection, self.output_rect, x as int, y as int) {
                DragState::N | DragState::S => Interaction::ResizingVertically,
                DragState::E | DragState::W => Interaction::ResizingHorizontally,
                DragState::Idle => if self.drag_state == DragState::Idle {
                    Interaction::Crosshair
                } else {
                    Interaction::Grabbing
                },
                _ => if self.drag_state == DragState::Idle {
                    Interaction::Grab
                } else {
                    Interaction::Grabbing
                },
            },
    {
        match self.drag_state(x, y) {
            DragState::N => Interaction::ResizingVertically,
            DragState::S => Interaction::ResizingVertically,
            DragState::E => Interaction::ResizingHorizontally,
            DragState::W => Interaction::ResizingHorizontally,
            DragState::Idle => if self.drag_state == DragState::Idle {
                Interaction::Crosshair
            } else {
                Interaction::Grabbing
            },
            _ => if self.drag_state == DragState::Idle {
                Interaction::Grab
            } else {
                Interaction::Grabbing
            },
        }
    }

    /// Moves what is dragged to a position of the output, and gives what is told to the dialog.
    pub fn handle_drag_pos(&mut self, x: i32, y: i32) -> (r: Option<(DragState, Rect)>)
        requires
            i32::MIN <= old(self).output_rect.left + x <= i32::MAX,
            i32::MIN <= old(self).output_rect.top + y <= i32::MAX,
        ensures
            final(self).output_rect == old(self).output_rect,
            (final(self).drag_state, final(self).rectangle_selection) == dragged(
                old(self).drag_state,
                old(self).rectangle_selection,
                (old(self).output_rect.left + x) as i32,
                (old(self).output_rect.top + y) as i32,
            ),
            r == if old(self).drag_state == DragState::Idle {
                None
            } else {
                Some((final(self).drag_state, final(self).rectangle_selection))
            },
    {
        let prev = self.rectangle_selection;
        let d_x: i32 = self.output_rect.left + x;
        let d_y: i32 = self.output_rect.top + y;
        let prev_state = self.drag_state;
        let point: (i32, i32) = match prev_state {
            DragState::Idle => {
                return None;
            },
            DragState::NW => (prev.right, prev.bottom),
            DragState::N => (0, prev.bottom),
            DragState::NE => (prev.left, prev.bottom),
            DragState::E => (prev.left, 0),
            DragState::SE => (prev.left, prev.top),
            DragState::S => (0, prev.top),
            DragState::SW => (prev.right, prev.top),
            DragState::W => (prev.right, 0),
        };
        let new_state = match prev_state {
            DragState::SE | DragState::NW | DragState::NE | DragState::SW => if d_x < point.0 && d_y
                < point.1 {
                DragState::NW
            } else if d_x > point.0 && d_y > point.1 {
                DragState::SE
            } else if d_x > point.0 && d_y < point.1 {
                DragState::NE
            } else if d_x < point.0 && d_y > point.1 {
                DragState::SW
            } else {
                prev_state
            },
            DragState::N | DragState::S => if d_y < point.1 {
                DragState::N
            } else {
                DragState::S
            },
            DragState::E | DragState::W => if d_x > point.0 {
                DragState::E
            } else {
                DragState::W
            },
            DragState::Idle => DragState::Idle,
        };
        let new_rect = match new_state {
            DragState::NW => Rect { left: d_x, top: d_y, right: point.0, bottom: point.1 },
            DragState::NE => Rect { left: point.0, top: d_y, right: d_x, bottom: point.1 },
            DragState::SE => Rect { left: point.0, top: point.1, right: d_x, bottom: d_y },
            DragState::SW => Rect { left: d_x, top: point.1, right: point.0, bottom: d_y },
            DragState::N => Rect {
                left: prev.left,
                top: d_y,
                right: prev.right,
                bottom: point.1,
            },
            DragState::E => Rect {
                left: point.0,
                top: prev.top,
                right: d_x,
                bottom: prev.bottom,
            },
            DragState::S => Rect {
                left: prev.left,
                top: point.1,
                right: prev.right,
                bottom: d_y,
            },
            DragState::W => Rect {
                left: d_x,
                top: prev.top,
                right: point.0,
                bottom: prev.bottom,
            },
            DragState::Idle => prev,
        };
        self.rectangle_selection = new_rect;
        self.drag_state = new_state;
        Some((new_state, new_rect))
    }

    /// Whether the coordinates of an event stay within the numbers, where something is dragged or a
    /// rectangle begins.
    pub open spec fn event_fits(self, event: SelectionEvent) -> bool {
        match event {
            SelectionEvent::Dragged { x, y, inside } => inside && self.drag_state
                != DragState::Idle ==> {
                &&& i32::MIN <= self.output_rect.left + x <= i32::MAX
                &&& i32::MIN <= self.output_rect.top + y <= i32::MAX
            },
            SelectionEvent::Pressed { x, y, desktop_x, desktop_y, inside } => inside && grabbed(
                self.rectangle_selection,
                self.output_rect,
                x as int,
                y as int,
            ) == DragState::Idle ==> desktop_x < i32::MAX && desktop_y < i32::MAX,
            _ => true,
        }
    }

    /// The state after an event and what follows from it.
    pub open spec fn handled(self, event: SelectionEvent) -> (RectangleSelection, SelectionEffect) {
        match event {
            SelectionEvent::Dragged { x, y, inside } => if self.drag_state == DragState::Idle
                || !inside {
                (self, ignored())
            } else {
                let (state, rect) = dragged(
                    self.drag_state,
                    self.rectangle_selection,
                    (self.output_rect.left + x) as i32,
                    (self.output_rect.top + y) as i32,
                );
                (
                    RectangleSelection { drag_state: state, rectangle_selection: rect, ..self },
                    SelectionEffect {
                        captured: true,
                        start_drag: false,
                        publish: Some((state, rect)),
                    },
                )
            },
            SelectionEvent::Dropped => if self.drag_state == DragState::Idle {
                (self, ignored())
            } else {
                (
                    RectangleSelection { drag_state: DragState::Idle, ..self },
                    SelectionEffect {
                        captured: true,
                        start_drag: false,
                        publish: Some((DragState::Idle, self.rectangle_selection)),
                    },
                )
            },
            SelectionEvent::Finished => (
                RectangleSelection { drag_state: DragState::Idle, ..self },
                SelectionEffect {
                    captured: false,
                    start_drag: false,
                    publish: Some((DragState::Idle, self.rectangle_selection)),
                },
            ),
            SelectionEvent::Pressed { x, y, desktop_x, desktop_y, inside } => if !inside {
                (self, ignored())
            } else {
                let hit = grabbed(self.rectangle_selection, self.output_rect, x as int, y as int);
                if hit == DragState::Idle {
                    let rect = Rect {
                        left: desktop_x,
                        top: desktop_y,
                        right: (desktop_x + 1) as i32,
                        bottom: (desktop_y + 1) as i32,
                    };
                    (
                        RectangleSelection { drag_state: DragState::SE, ..self },
                        SelectionEffect {
                            captured: true,
                            start_drag: true,
                            publish: Some((DragState::SE, rect)),
                        },
                    )
                } else {
                    (
                        RectangleSelection { drag_state: hit, ..self },
                        SelectionEffect {
                            captured: true,
                            start_drag: true,
                            publish: Some((hit, self.rectangle_selection)),
                        },
                    )
                }
            },
            SelectionEvent::Pointer { inside } => (
                self,
                SelectionEffect { captured: inside, start_drag: false, publish: None },
            ),
            SelectionEvent::Other => (self, ignored()),
        }
    }

    /// Handles an event.
    pub fn on_event(&mut self, event: SelectionEvent) -> (r: SelectionEffect)
        requires
            old(self).event_fits(event),
        ensures
            (*final(self), r) == old(self).handled(event),
    {
        let nothing = SelectionEffect { captured: false, start_drag: false, publish: None };
        match event {
            SelectionEvent::Dragged { x, y, inside } => {
                if self.drag_state == DragState::Idle || !inside {
                    nothing
                } else {
                    let publish = self.handle_drag_pos(x, y);
                    SelectionEffect { captured: true, start_drag: false, publish }
                }
            },
            SelectionEvent::Dropped => {
                if self.drag_state == DragState::Idle {
                    nothing
                } else {
                    self.drag_state = DragState::Idle;
                    SelectionEffect {
                        captured: true,
                        start_drag: false,
                        publish: Some((DragState::Idle, self.rectangle_selection)),
                    }
                }
            },
            SelectionEvent::Finished => {
                self.drag_state = DragState::Idle;
                SelectionEffect {
                    captured: false,
                    start_drag: false,
                    publish: Some((DragState::Idle, self.rectangle_selection)),
                }
            },
            SelectionEvent::Pressed { x, y, desktop_x, desktop_y, inside } => {
                if !inside {
                    return nothing;
                }
                let hit = self.drag_state(x, y);
                if hit == DragState::Idle {
                    self.drag_state = DragState::SE;
                    let rect = Rect {
                        left: desktop_x,
                        top: desktop_y,
                        right: desktop_x + 1,
                        bottom: desktop_y + 1,
                    };
                    SelectionEffect {
                        captured: true,
                        start_drag: true,
                        publish: Some((DragState::SE, rect)),
                    }
                } else {
                    self.drag_state = hit;
                    SelectionEffect {
                        captured: true,
                        start_drag: true,
                        publish: Some((hit, self.rectangle_selection)),
                    }
                }
            },
            SelectionEvent::Pointer { inside } => SelectionEffect {
                captured: inside,
                start_drag: false,
                publish: None,
            },
            SelectionEvent::Other => nothing,
        }
    }
}

/// Dragging keeps the edge or corner opposite to the dragged one where it is, whichever side the
/// pointer is on, and puts the dragged one at the pointer.
pub proof fn law_drag_keeps_opposite_side(state: DragState, rect: Rect, x: i32, y: i32)
    ensures
        ({
            let (next, new) = dragged(state, rect, x, y);
            let point = reflection_point(state, rect);
            &&& state.is_corner() ==> {
                &&& next.is_corner()
                &&& (new.left == x && new.right == point.0) || (new.left == point.0 && new.right
                    == x)
                &&& (new.top == y && new.bottom == point.1) || (new.top == point.1 && new.bottom
                    == y)
            }
            &&& state == DragState::N || state == DragState::S ==> {
                &&& next == DragState::N || next == DragState::S
                &&& new.left == rect.left && new.right == rect.right
                &&& (new.top == y && new.bottom == point.1) || (new.top == point.1 && new.bottom
                    == y)
            }
            &&& state == DragState::E || state == DragState::W ==> {
                &&& next == DragState::E || next == DragState::W
                &&& new.top == rect.top && new.bottom == rect.bottom
                &&& (new.left == x && new.right == point.0) || (new.left == point.0 && new.right
                    == x)
            }
            &&& state == DragState::Idle ==> next == DragState::Idle && new == rect
        }),
{
}

/// A rectangle that is upright stays so while it is dragged, unless a corner is dragged exactly onto
/// the line through the opposite one.
pub proof fn law_drag_keeps_rect_upright(state: DragState, rect: Rect, x: i32, y: i32)
    requires
        rect.left <= rect.right,
        rect.top <= rect.bottom,
        state.is_corner() ==> x != reflection_point(state, rect).0 && y != reflection_point(
            state,
            rect,
        ).1,
    ensures
        ({
            let new = dragged(state, rect, x, y).1;
            new.left <= new.right && new.top <= new.bottom
        }),
{
}

/// A position after another is all that counts: what was dragged to one position and then to another
/// is what would have been dragged there at once, while corners are dragged off the lines through
/// the opposite ones.
pub proof fn law_corner_drag_forgets_the_way(
    state: DragState,
    rect: Rect,
    x1: i32,
    y1: i32,
    x2: i32,
    y2: i32,
)
    requires
        state.is_corner(),
        x1 != reflection_point(state, rect).0 && y1 != reflection_point(state, rect).1,
        x2 != reflection_point(state, rect).0 && y2 != reflection_point(state, rect).1,
    ensures
        ({
            let (s1, r1) = dragged(state, rect, x1, y1);
            dragged(s1, r1, x2, y2) == dragged(state, rect, x2, y2)
        }),
{
}

/// The state with the number of a state is that state.
pub proof fn law_numbers_name_states(a: DragState, b: DragState)
    ensures
        a.spec_number() == b.spec_number() ==> a == b,
{
}

/// On a desktop of ordinary size, a point within eight pixels of a corner of the rectangle grabs this
/// corner, if it is not as near to an earlier one; away from corners a point within four pixels of an edge
/// grabs the edge; and a point far from all of them grabs nothing.
#[verifier::rlimit(100)]
#[verifier::spinoff_prover]
pub proof fn law_nearest_part_is_grabbed(selection: Rect, output: Rect, x: int, y: int)
    requires
        -0x10_0000 < selection.left < selection.right - 32 < 0x10_0000,
        -0x10_0000 < selection.top < selection.bottom - 32 < 0x10_0000,
        -0x10_0000 < output.left < 0x10_0000,
        -0x10_0000 < output.top < 0x10_0000,
    ensures
        ({
            let left = selection.left - output.left;
            let right = selection.right - output.left;
            let top = selection.top - output.top;
            let bottom = selection.bottom - output.top;
            let state = grabbed(selection, output, x, y);
            &&& state is NW <==> (left - 8 <= x < left + 8 && top - 8 <= y < top + 8)
            &&& state is NE <==> (right - 8 <= x < right + 8 && top - 8 <= y < top + 8)
            &&& state is SW <==> (left - 8 <= x < left + 8 && bottom - 8 <= y < bottom + 8)
            &&& state is SE <==> (right - 8 <= x < right + 8 && bottom - 8 <= y < bottom + 8)
            &&& state is N <==> (left + 8 <= x < right - 8 && top - 4 <= y < top + 4)
            &&& state is S <==> (left + 8 <= x < right - 8 && bottom - 4 <= y < bottom + 4)
            &&& state is W <==> (left - 4 <= x < left + 4 && top + 8 <= y < bottom - 8)
            &&& state is E <==> (right - 4 <= x < right + 4 && top + 8 <= y < bottom - 8)
        }),
{
    let left = selection.left - output.left;
    let right = selection.right - output.left;
    let top = selection.top - output.top;
    let bottom = selection.bottom - output.top;
    lemma_single_exact(selection.left as int);
    lemma_single_exact(output.left as int);
    lemma_single_exact(selection.top as int);
    lemma_single_exact(output.top as int);
    lemma_single_exact(left);
    lemma_single_exact(top);
    lemma_single_exact(right);
    lemma_single_exact(bottom);
    lemma_single_exact(right - left);
    lemma_single_exact(bottom - top);
    lemma_single_exact(left - 8);
    lemma_single_exact(left + 8);
    lemma_single_exact(right - 8);
    lemma_single_exact(right + 8);
    lemma_single_exact(top - 8);
    lemma_single_exact(top + 8);
    lemma_single_exact(bottom - 8);
    lemma_single_exact(bottom + 8);
    lemma_single_exact(left - 4);
    lemma_single_exact(left + 4);
    lemma_single_exact(right - 4);
    lemma_single_exact(right + 4);
    lemma_single_exact(top - 4);
    lemma_single_exact(top + 4);
    lemma_single_exact(bottom - 4);
    lemma_single_exact(bottom + 4);
}

/// What is dragged follows the pointer: a corner comes to lie where the pointer is, an edge at its line or
/// column, and nothing moves where nothing is dragged.
pub proof fn law_dragged_part_follows_the_pointer(state: DragState, rect: Rect, x: i32, y: i32)
    ensures
        ({
            let (next, after) = dragged(state, rect, x, y);
            &&& state is Idle ==> next is Idle && after == rect
            &&& state !is Idle ==> next !is Idle
            &&& next is NW ==> after.left == x && after.top == y
            &&& next is NE ==> after.right == x && after.top == y
            &&& next is SE ==> after.right == x && after.bottom == y
            &&& next is SW ==> after.left == x && after.bottom == y
            &&& next is N ==> after.top == y && after.left == rect.left && after.right == rect.right
            &&& next is S ==> after.bottom == y && after.left == rect.left && after.right
                == rect.right
            &&& next is W ==> after.left == x && after.top == rect.top && after.bottom == rect.bottom
            &&& next is E ==> after.right == x && after.top == rect.top && after.bottom
                == rect.bottom
            &&& state is SE && x > rect.left && y > rect.top ==> next is SE && after.left
                == rect.left && after.top == rect.top
            &&& state is NW && x < rect.right && y < rect.bottom ==> next is NW && after.right
                == rect.right && after.bottom == rect.bottom
            &&& state is E && x > rect.left ==> next is E && after.left == rect.left
            &&& state is N && y < rect.bottom ==> next is N && after.bottom == rect.bottom
        }),
{
}

} // verus!
