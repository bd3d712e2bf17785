//! The choice of what a screenshot is taken of, on one output.

use crate::app::{edges_fit, rect_of_state, state_rect, BgSource, OutputState};
use crate::dict::Dict;
use crate::screenshot::capture::ToplevelImage;
use crate::screenshot::geometry::Rect;
use crate::screenshot::request::{Choice, ChoiceView};
use crate::screenshot::session::Msg;
use crate::widget::rectangle_selection::DragState;
use vstd::prelude::*;

verus! {

/// What is chosen from.
#[derive(Debug)]
pub enum Foreground {
    /// A rectangle that can be dragged, on the rectangle of the output.
    Rectangle { output_rect: Rect, rect: Rect, drag_state: DragState },
    /// The whole output, by its number.
    Output(u64),
    /// The windows on the output, by their width and height.
    Windows(Vec<(u32, u32)>),
}

/// What is behind it.
#[derive(Debug, Clone, Copy, PartialEq, Eq, Structural)]
pub enum Backdrop {
    /// The picture of the output.
    Picture,
    /// The wallpaper of the output, if it has one.
    Wallpaper(Option<BgSource>),
}

/// A button that changes what is chosen from.
#[derive(Debug)]
pub struct ChoiceButton {
    pub icon: &'static str,
    pub choice: Choice,
    pub selected: bool,
}

/// What is shown on an output.
#[derive(Debug)]
pub struct ScreenshotSelection {
    pub foreground: Foreground,
    pub backdrop: Backdrop,
    /// A rectangle, a window, a whole output.
    pub rectangle_button: ChoiceButton,
    pub window_button: ChoiceButton,
    pub output_button: ChoiceButton,
    /// Whether something can be captured: not while the rectangle is empty.
    pub can_capture: bool,
    /// The place in which screenshots are saved.
    pub location: usize,
}

/// The sizes of pictures.
pub open spec fn sizes_of(images: Seq<ToplevelImage>) -> Seq<(u32, u32)> {
    images.map_values(|image: ToplevelImage| (image.image.width, image.image.height))
}

/// The sizes of the pictures of windows on an output; none where the output has no windows.
pub open spec fn window_sizes(
    images: Map<Seq<char>, Vec<ToplevelImage>>,
    output: Seq<char>,
) -> Seq<(u32, u32)> {
    if images.dom().contains(output) {
        sizes_of(images[output]@)
    } else {
        Seq::empty()
    }
}

/// The sizes of the pictures of windows on an output.
fn list_window_sizes(images: &Dict<Vec<ToplevelImage>>, output: &str) -> (r: Vec<(u32, u32)>)
    ensures
        r@ == window_sizes(images@, output@),
{
    let mut r: Vec<(u32, u32)> = Vec::new();
    if let Some(images) = images.get(output) {
        let ghost all = sizes_of(images@);
        let mut i: usize = 0;
        while i < images.len()
            invariant
                i <= images@.len(),
                all == sizes_of(images@),
                r@ == all.take(i as int),
            decreases images@.len() - i,
        {
            r.push((images[i].image.width, images[i].image.height));
            proof {
                assert(all.take(i + 1) =~= all.take(i as int).push(all[i as int]));
            }
            i = i + 1;
        }
        proof {
            assert(all.take(all.len() as int) =~= all);
        }
    }
    r
}

/// Whether a rectangle has pixels.
pub open spec fn has_area(rect: Rect) -> bool {
    rect.left != rect.right && rect.top != rect.bottom
}

impl ScreenshotSelection {
    /// What is shown on an output for a choice.
    pub fn new(
        choice: &Choice,
        output: &OutputState,
        toplevel_images: &Dict<Vec<ToplevelImage>>,
        location: usize,
    ) -> (r: Self)
        requires
            edges_fit(*output),
        ensures
            match choice {
                Choice::Rectangle(rect, drag_state) => r.foreground == (Foreground::Rectangle {
                    output_rect: state_rect(*output),
                    rect: *rect,
                    drag_state: *drag_state,
                }),
                Choice::Output(_) => r.foreground == Foreground::Output(output.output),
                Choice::Window(..) => r.foreground matches Foreground::Windows(sizes) && sizes@
                    == window_sizes(toplevel_images@, output.name@),
            },
            r.backdrop == match choice {
                Choice::Window(..) => Backdrop::Wallpaper(output.bg_source),
                _ => Backdrop::Picture,
            },
            r.rectangle_button.choice@ == ChoiceView::Rectangle(
                (Rect { left: 0, top: 0, right: 0, bottom: 0 }),
                DragState::Idle,
            ),
            r.window_button.choice@ == ChoiceView::Window(output.name@, None),
            r.output_button.choice@ == ChoiceView::Output(output.name@),
            r.rectangle_button.icon@ == "screenshot-selection-symbolic"@,
            r.window_button.icon@ == "screenshot-window-symbolic"@,
            r.output_button.icon@ == "screenshot-screen-symbolic"@,
            r.rectangle_button.selected == choice is Rectangle,
            r.window_button.selected == choice is Window,
            r.output_button.selected == choice is Output,
            r.can_capture == match choice {
                Choice::Rectangle(rect, _) => has_area(*rect),
                _ => true,
            },
            r.location == location,
    {
        let (foreground, backdrop, can_capture) = match choice {
            Choice::Rectangle(rect, drag_state) => (
                Foreground::Rectangle {
                    output_rect: rect_of_state(output),
                    rect: *rect,
                    drag_state: *drag_state,
                },
                Backdrop::Picture,
                rect.left != rect.right && rect.top != rect.bottom,
            ),
            Choice::Output(_) => (Foreground::Output(output.output), Backdrop::Picture, true),
            Choice::Window(..) => (
                Foreground::Windows(list_window_sizes(toplevel_images, output.name.as_str())),
                Backdrop::Wallpaper(output.bg_source),
                true,
            ),
        };
        let rectangle_button = ChoiceButton {
            icon: "screenshot-selection-symbolic",
            choice: Choice::Rectangle(Rect::default(), DragState::default()),
            selected: matches!(choice, Choice::Rectangle(..)),
        };
        let window_button = ChoiceButton {
            icon: "screenshot-window-symbolic",
            choice: Choice::Window(output.name.clone(), None),
            selected: matches!(choice, Choice::Window(..)),
        };
        let output_button = ChoiceButton {
            icon: "screenshot-screen-symbolic",
            choice: Choice::Output(output.name.clone()),
            selected: matches!(choice, Choice::Output(..)),
        };
        ScreenshotSelection {
            foreground,
            backdrop,
            rectangle_button,
            window_button,
            output_button,
            can_capture,
            location,
        }
    }
}

/// The places of things that are laid out in rows.
pub open spec fn row(count: int, columns: int, i: int) -> Seq<usize> {
    let first = i * columns;
    let rest = count - first;
    Seq::new(
        if rest < columns {
            rest as nat
        } else {
            columns as nat
        },
        |j: int| (first + j) as usize,
    )
}

/// How many rows are needed.
pub open spec fn row_count(count: int, columns: int) -> int {
    (count + columns - 1) / columns
}

/// The places of windows that are laid out in rows of so many columns. The last row may be shorter.
pub fn window_rows(count: usize, columns: usize) -> (r: Vec<Vec<usize>>)
    requires
        columns > 0,
    ensures
        r@.len() == row_count(count as int, columns as int),
        forall|i: int|
            0 <= i < r@.len() ==> (#[trigger] r@[i])@ == row(count as int, columns as int, i),
{
    let mut rows: Vec<Vec<usize>> = Vec::new();
    let mut at: usize = 0;
    proof {
        assert(0 * columns == 0) by (nonlinear_arith);
        assert((columns - 1) / (columns as int) == 0) by (nonlinear_arith)
            requires
                columns > 0,
        ;
    }
    while at < count
        invariant
            columns > 0,
            at <= count,
            at < count ==> at == rows@.len() * columns,
            at == count ==> rows@.len() == row_count(count as int, columns as int),
            forall|i: int|
                0 <= i < rows@.len() ==> (#[trigger] rows@[i])@ == row(
                    count as int,
                    columns as int,
                    i,
                ),
        decreases count - at,
    {
        let rest: usize = count - at;
        let len: usize = if rest < columns {
            rest
        } else {
            columns
        };
        let mut line: Vec<usize> = Vec::new();
        let ghost whole = row(count as int, columns as int, rows@.len() as int);
        while line.len() < len
            invariant
                len <= count - at,
                at + len <= count,
                line@.len() <= len,
                len == whole.len(),
                forall|j: int| 0 <= j < whole.len() ==> whole[j] == (at + j) as usize,
                line@ == whole.take(line@.len() as int),
            decreases len - line@.len(),
        {
            let ghost k = line@.len() as int;
            let place: usize = at + line.len();
            line.push(place);
            proof {
                assert(whole.take(k + 1) =~= whole.take(k).push(whole[k]));
            }
        }
        proof {
            assert(whole.take(whole.len() as int) =~= whole);
            let n = rows@.len() as int;
            assert((n + 1) * columns == n * columns + columns) by (nonlinear_arith);
            if rest <= columns {
                assert(row_count(count as int, columns as int) == n + 1) by (nonlinear_arith)
                    requires
                        n * columns < count,
                        count <= n * columns + columns,
                        columns > 0,
                        row_count(count as int, columns as int) == (count + columns - 1) / (
                        columns as int),
                ;
            }
        }
        rows.push(line);
        at = at + len;
    }
    rows
}

/// Every window stands in exactly one row and column.
pub proof fn law_every_window_has_a_cell(count: int, columns: int, window: int)
    requires
        0 <= window < count <= usize::MAX,
        columns > 0,
    ensures
        0 <= window / columns < row_count(count, columns),
        0 <= window % columns < row(count, columns, window / columns).len() <= columns,
        row(count, columns, window / columns)[window % columns] == window,
{
    let i = window / columns;
    let j = window % columns;
    assert(window == i * columns + j && 0 <= j < columns && 0 <= i) by (nonlinear_arith)
        requires
            0 <= window,
            columns > 0,
            i == window / columns,
            j == window % columns,
    ;
    assert(i < row_count(count, columns)) by (nonlinear_arith)
        requires
            window == i * columns + j,
            0 <= j,
            window < count,
            columns > 0,
            row_count(count, columns) == (count + columns - 1) / columns,
    ;
}

/// What a click on a window does.
pub fn window_msg(output: &OutputState, window: usize) -> (r: Msg)
    ensures
        r matches Msg::WindowChosen(name, index) && name@ == output.name@ && index == window,
{
    Msg::WindowChosen(output.name.clone(), window)
}

/// The windows that are shown on an output are its own: as many as it has, and each in its own size.
pub proof fn law_windows_are_shown_in_their_sizes(
    images: Map<Seq<char>, Vec<ToplevelImage>>,
    output: Seq<char>,
    i: int,
)
    ensures
        images.dom().contains(output) ==> {
            &&& window_sizes(images, output).len() == images[output]@.len()
            &&& 0 <= i < images[output]@.len() ==> window_sizes(images, output)[i] == (
                images[output]@[i].image.width,
                images[output]@[i].image.height,
            )
        },
        !images.dom().contains(output) ==> window_sizes(images, output).len() == 0,
{
}

} // verus!
