//! Widgets.

use xdg_desktop_portal_cosmic::app::{BgSource, OutputState};
use xdg_desktop_portal_cosmic::dict::Dict;
use xdg_desktop_portal_cosmic::screenshot::capture::ToplevelImage;
use xdg_desktop_portal_cosmic::screenshot::geometry::Rect;
use xdg_desktop_portal_cosmic::screenshot::picture::fill;
use xdg_desktop_portal_cosmic::screenshot::request::Choice;
use xdg_desktop_portal_cosmic::widget::annotation_canvas::{
    AnnotationShape, AnnotationTool, CanvasState,
};
use xdg_desktop_portal_cosmic::widget::color_picker::update as pick;
use xdg_desktop_portal_cosmic::widget::keyboard_wrapper::{on_event, Status};
use xdg_desktop_portal_cosmic::widget::output_arrangement::{highlight, Highlight, State};
use xdg_desktop_portal_cosmic::widget::output_selection::{MyState, OutputSelected, PointerEvent};
use xdg_desktop_portal_cosmic::widget::rectangle_selection::{
    DragState, MyData, RectangleSelection, SelectionEvent,
};
use xdg_desktop_portal_cosmic::widget::screenshot::{
    window_rows, Backdrop, Foreground, ScreenshotSelection,
};
use xdg_desktop_portal_cosmic::widget::selection_indicator::{Mark, SelectionIndicator};

fn rect(left: i32, top: i32, right: i32, bottom: i32) -> Rect {
    Rect {
        left,
        top,
        right,
        bottom,
    }
}

fn output() -> OutputState {
    OutputState {
        output: 3,
        id: 30,
        name: "DP-1".to_string(),
        logical_size: (100, 50),
        logical_pos: (-20, 10),
        has_pointer: false,
        pointer_position: None,
        window_pointer_anchor: None,
        bg_source: Some(BgSource::Wallpaper(1)),
    }
}

#[test]
fn marks_tell_what_is_chosen() {
    assert_eq!(SelectionIndicator::new(true, true).draw_mark(), Mark::Check);
    assert_eq!(SelectionIndicator::new(false, true).draw_mark(), Mark::EmptyBox);
    assert_eq!(SelectionIndicator::new(true, false).draw_mark(), Mark::Dot);
    assert_eq!(
        SelectionIndicator::new(false, false).draw_mark(),
        Mark::EmptyCircle
    );
}

#[test]
fn an_output_is_entered_and_pressed() {
    let mut state = MyState::default();
    assert!(!state.should_draw());
    assert_eq!(
        state.update(PointerEvent::Moved, true),
        OutputSelected::Entered
    );
    assert!(state.should_draw());
    assert_eq!(
        state.update(PointerEvent::Moved, true),
        OutputSelected::Nothing
    );
    assert_eq!(
        state.update(PointerEvent::LeftPressed, true),
        OutputSelected::Pressed
    );
}

#[test]
fn hovered_pictures_stand_out() {
    let mut state = State::default();
    assert!(state.update(PointerEvent::Moved, &vec![false, true, true]));
    assert_eq!(state.hovered, Some(1));
    assert!(!state.update(PointerEvent::Moved, &vec![false, true, false]));
    assert!(!state.update(PointerEvent::LeftPressed, &vec![]));
    assert!(state.update(PointerEvent::Left, &vec![]));
    assert_eq!(highlight(true, true), Some(Highlight::Selected));
    assert_eq!(highlight(false, true), Some(Highlight::Hovered));
    assert_eq!(highlight(false, false), None);
}

#[test]
fn keys_go_to_the_content_first() {
    assert_eq!(on_event(Status::Captured, Some(1)), (Status::Captured, None));
    assert_eq!(on_event(Status::Ignored, Some(1)), (Status::Captured, Some(1)));
    assert_eq!(on_event::<u8>(Status::Ignored, None), (Status::Ignored, None));
}

#[test]
fn colours_are_picked_where_the_pointer_is() {
    let moved = pick(PointerEvent::Moved, Some((1, 2)));
    assert_eq!(moved.motion, Some((1, 2)));
    assert!(moved.redraw);
    let pressed = pick(PointerEvent::LeftPressed, Some((1, 2)));
    assert_eq!(pressed.click, Some((1, 2)));
    assert!(pressed.captured);
    assert!(!pick::<u8>(PointerEvent::LeftPressed, None).captured);
}

#[test]
fn shapes_are_drawn_by_dragging() {
    let mut canvas = CanvasState::default();
    let tool = AnnotationTool::Arrow;
    let pressed = canvas.update(tool, PointerEvent::LeftPressed, Some(1), false);
    assert_eq!(
        pressed.draft,
        Some(Some(AnnotationShape::Arrow { start: 1, end: 1 }))
    );
    let moved = canvas.update(tool, PointerEvent::Moved, Some(5), true);
    let shape = AnnotationShape::Arrow { start: 1, end: 5 };
    assert_eq!(moved.draft, Some(Some(shape)));
    let released = canvas.update(tool, PointerEvent::LeftReleased, Some(5), true);
    assert_eq!(released.draft, Some(None));
    assert_eq!(
        released.commit,
        Some(AnnotationShape::Arrow { start: 1, end: 5 })
    );
    assert!(!canvas.update(tool, PointerEvent::Moved, Some(6), true).captured);
    canvas.update(tool, PointerEvent::LeftPressed, Some(1), false);
    let tiny = canvas.update(tool, PointerEvent::LeftReleased, Some(1), false);
    assert_eq!(tiny.commit, None);
    canvas.update(tool, PointerEvent::LeftPressed, Some(1), false);
    let outside = canvas.update(tool, PointerEvent::LeftReleased, None, true);
    assert_eq!(outside.draft, Some(None));
    assert_eq!(outside.commit, None);
    assert_eq!(
        AnnotationShape::new(AnnotationTool::Rectangle, 1, 2),
        AnnotationShape::Rectangle { start: 1, end: 2 }
    );
}

#[test]
fn rectangles_are_dragged_by_their_corners() {
    let mut selection = RectangleSelection::new(rect(0, 0, 100, 100), rect(10, 10, 50, 40), DragState::Idle);
    assert_eq!(selection.drag_state(50, 40), DragState::SE);
    assert_eq!(selection.drag_state(10, 25), DragState::W);
    assert_eq!(selection.drag_state(90, 90), DragState::Idle);
    // In single precision the left edge is at 33554432.
    let far = RectangleSelection::new(rect(0, 0, 100, 100), rect(33_554_433, 0, 33_554_833, 40), DragState::Idle);
    assert_eq!(far.drag_state(33_554_436, 20), DragState::Idle);
    assert_eq!(far.drag_state(33_554_432, 20), DragState::W);
    let pressed = selection.on_event(SelectionEvent::Pressed {
        x: 50,
        y: 40,
        desktop_x: 50,
        desktop_y: 40,
        inside: true,
    });
    assert!(pressed.start_drag);
    assert_eq!(selection.drag_state, DragState::SE);
    let (state, dragged) = selection.handle_drag_pos(60, 70).unwrap();
    assert_eq!(state, DragState::SE);
    assert_eq!(dragged, rect(10, 10, 60, 70));
    // Beyond the opposite corner the rectangle turns around.
    let (state, turned) = selection.handle_drag_pos(5, 2).unwrap();
    assert_eq!(turned, rect(5, 2, 10, 10));
    assert_eq!(state, DragState::NW);
    assert_eq!(MyData.from_mime_type("text/plain"), None);
}

#[test]
fn states_of_dragging_have_numbers() {
    for n in 0..9 {
        assert_eq!(DragState::from_number(n).number(), n);
    }
}

#[test]
fn the_choice_decides_what_is_shown() {
    let mut images = Dict::new();
    images.insert(
        "DP-1",
        vec![ToplevelImage {
            image: fill(4, 3, 0, 0, 0, 0),
            geometry: None,
            preview_dimensions: (4, 3),
            activated: false,
        }],
    );
    let empty = Choice::Rectangle(rect(1, 1, 1, 5), DragState::Idle);
    let shown = ScreenshotSelection::new(&empty, &output(), &images, 1);
    assert!(!shown.can_capture);
    assert!(shown.rectangle_button.selected);
    assert_eq!(shown.backdrop, Backdrop::Picture);
    match shown.foreground {
        Foreground::Rectangle { output_rect, .. } => {
            assert_eq!(output_rect, rect(-20, 10, 80, 60))
        }
        other => panic!("{other:?}"),
    }
    let windows = Choice::Window("DP-1".to_string(), None);
    let shown = ScreenshotSelection::new(&windows, &output(), &images, 1);
    assert!(shown.can_capture);
    assert!(shown.window_button.selected);
    assert_eq!(
        shown.backdrop,
        Backdrop::Wallpaper(Some(BgSource::Wallpaper(1)))
    );
    match shown.foreground {
        Foreground::Windows(sizes) => assert_eq!(sizes, vec![(4, 3)]),
        other => panic!("{other:?}"),
    }
    assert_eq!(
        shown.output_button.choice,
        Choice::Output("DP-1".to_string())
    );
}

#[test]
fn windows_are_laid_out_in_rows() {
    assert_eq!(
        window_rows(8, 3),
        vec![vec![0, 1, 2], vec![3, 4, 5], vec![6, 7]]
    );
    assert_eq!(window_rows(0, 3), Vec::<Vec<usize>>::new());
    assert_eq!(window_rows(2, 5), vec![vec![0, 1]]);
}
