//! The rows of buttons of which one is active.

use crate::label::{Label, LabelView};
use crate::print_dialog::choices::{
    ColorMode, LayoutDirection, Orientation, PageSetSelection, PageSetView,
};
use crate::print_dialog::state::{DialogView, PrintDialog};
use vstd::prelude::*;

verus! {

/// A button that stands for a value.
#[derive(Debug, PartialEq, Eq)]
pub struct Segment<T> {
    pub data: T,
    /// What stands on the button, unless an icon does.
    pub label: Option<Label>,
    /// The name of the icon on the button.
    pub icon: Option<&'static str>,
    pub enabled: bool,
}

/// Buttons of which one is active.
#[derive(Debug, PartialEq, Eq)]
pub struct SegmentModel<T> {
    pub segments: Vec<Segment<T>>,
    pub active: Option<usize>,
}

/// What is shown on a button.
pub struct FaceView {
    pub label: Option<LabelView>,
    pub icon: Option<Seq<char>>,
    pub enabled: bool,
}

impl<T> Segment<T> {
    /// What is shown on the button.
    pub open spec fn face(self) -> FaceView {
        FaceView {
            label: match self.label {
                Some(label) => Some(label@),
                None => None,
            },
            icon: match self.icon {
                Some(icon) => Some(icon@),
                None => None,
            },
            enabled: self.enabled,
        }
    }

    /// A button with a label.
    pub fn labelled(data: T, label: Label, enabled: bool) -> (r: Self)
        ensures
            r.data == data,
            r.face() == labelled_face(label@, enabled),
    {
        Segment { data, label: Some(label), icon: None, enabled }
    }

    /// A button with an icon.
    pub fn with_icon(data: T, icon: &'static str) -> (r: Self)
        ensures
            r.data == data,
            r.face() == icon_face(icon@),
    {
        Segment { data, label: None, icon: Some(icon), enabled: true }
    }
}

/// What is shown on a button with a label.
pub open spec fn labelled_face(label: LabelView, enabled: bool) -> FaceView {
    FaceView { label: Some(label), icon: None, enabled }
}

/// What is shown on a button with an icon.
pub open spec fn icon_face(icon: Seq<char>) -> FaceView {
    FaceView { label: None, icon: Some(icon), enabled: true }
}

impl<T> SegmentModel<T> {
    /// What is shown on the buttons.
    pub open spec fn faces(self) -> Seq<FaceView> {
        self.segments@.map_values(|segment: Segment<T>| segment.face())
    }

    /// The values that the buttons stand for.
    pub open spec fn values(self) -> Seq<T> {
        self.segments@.map_values(|segment: Segment<T>| segment.data)
    }

    /// The value of the active button.
    pub open spec fn active_value(self) -> Option<T> {
        match self.active {
            Some(i) => if i < self.segments@.len() {
                Some(self.segments@[i as int].data)
            } else {
                None
            },
            None => None,
        }
    }

    /// Makes a button the active one.
    pub fn activate(&mut self, index: usize)
        ensures
            final(self).active == Some(index),
            final(self).segments == old(self).segments,
    {
        self.active = Some(index);
    }

    /// The value of the active button.
    pub fn active_data(&self) -> (r: Option<&T>)
        ensures
            match r {
                Some(value) => self.active_value() == Some(*value),
                None => self.active_value() is None,
            },
    {
        match self.active {
            Some(i) => if i < self.segments.len() {
                Some(&self.segments[i].data)
            } else {
                None
            },
            None => None,
        }
    }
}

/// The rows of buttons of the dialog.
#[derive(Debug, PartialEq, Eq)]
pub struct PrintModels {
    pub color: SegmentModel<ColorMode>,
    pub orientation: SegmentModel<Orientation>,
    pub layout_direction: SegmentModel<LayoutDirection>,
    pub page_selection: SegmentModel<PageSetSelection>,
}

/// Whether the buttons for colours are those of a dialog: the printed one is active, and colour is
/// enabled where the printer has it.
pub open spec fn shows_color(model: SegmentModel<ColorMode>, d: DialogView) -> bool {
    &&& model.values() == seq![ColorMode::Color, ColorMode::Monochrome]
    &&& model.faces() == seq![
        labelled_face(ColorMode::Color.spec_label(), d.color_supported),
        labelled_face(ColorMode::Monochrome.spec_label(), true),
    ]
    &&& model.active_value() == Some(d.color_mode)
}

/// Whether the buttons for the orientation are those of a dialog.
pub open spec fn shows_orientation(model: SegmentModel<Orientation>, d: DialogView) -> bool {
    &&& model.values() == seq![Orientation::Portrait, Orientation::Landscape]
    &&& model.faces() == seq![
        labelled_face(Orientation::Portrait.spec_label(), true),
        labelled_face(Orientation::Landscape.spec_label(), true),
    ]
    &&& model.active_value() == Some(d.orientation)
}

/// The directions in the order of their buttons.
pub open spec fn direction_order() -> Seq<LayoutDirection> {
    seq![
        LayoutDirection::LeftToRightTopToBottom,
        LayoutDirection::RightToLeftTopToBottom,
        LayoutDirection::TopToBottomLeftToRight,
        LayoutDirection::TopToBottomRightToLeft,
    ]
}

/// Whether the buttons for the layout are those of a dialog.
pub open spec fn shows_direction(model: SegmentModel<LayoutDirection>, d: DialogView) -> bool {
    &&& model.values() == direction_order()
    &&& model.faces() == direction_order().map_values(
        |direction: LayoutDirection| icon_face(direction.spec_icon_name()),
    )
    &&& model.active_value() == Some(d.layout_direction)
}

/// The selections of pages in the order of their buttons; the custom one holds what was typed.
pub open spec fn selection_order(typed: Seq<char>) -> Seq<PageSetView> {
    seq![
        PageSetView::All,
        PageSetView::Current,
        PageSetView::Odd,
        PageSetView::Even,
        PageSetView::Custom(typed),
    ]
}

/// The position of the button for a selection of pages.
pub open spec fn selection_index(pages: PageSetView) -> usize {
    match pages {
        PageSetView::All => 0,
        PageSetView::Current => 1,
        PageSetView::Odd => 2,
        PageSetView::Even => 3,
        PageSetView::Custom(_) => 4,
    }
}

/// Whether the buttons for the pages are those of a dialog.
pub open spec fn shows_pages(model: SegmentModel<PageSetSelection>, d: DialogView) -> bool {
    &&& model.values().map_values(|selection: PageSetSelection| selection@) == selection_order(
        d.custom_range_input,
    )
    &&& model.faces() == selection_order(d.custom_range_input).map_values(
        |pages: PageSetView| labelled_face(pages.label(), true),
    )
    &&& model.active == Some(selection_index(d.page_selection))
}

impl PrintModels {
    /// Whether the rows of buttons are those of a dialog.
    pub open spec fn shows(self, d: DialogView) -> bool {
        &&& shows_color(self.color, d)
        &&& shows_orientation(self.orientation, d)
        &&& shows_direction(self.layout_direction, d)
        &&& shows_pages(self.page_selection, d)
    }
}

/// The buttons for colours.
fn color_model(color_mode: ColorMode, color_supported: bool) -> (r: SegmentModel<ColorMode>)
    ensures
        r.values() == seq![ColorMode::Color, ColorMode::Monochrome],
        r.faces() == seq![
            labelled_face(ColorMode::Color.spec_label(), color_supported),
            labelled_face(ColorMode::Monochrome.spec_label(), true),
        ],
        r.active_value() == Some(color_mode),
{
    let r = SegmentModel {
        segments: vec![
            Segment::labelled(ColorMode::Color, ColorMode::Color.label(), color_supported),
            Segment::labelled(ColorMode::Monochrome, ColorMode::Monochrome.label(), true),
        ],
        active: Some(
            match color_mode {
                ColorMode::Color => 0,
                ColorMode::Monochrome => 1,
            },
        ),
    };
    proof {
        assert(r.values() =~= seq![ColorMode::Color, ColorMode::Monochrome]);
        assert(r.faces() =~= seq![
            labelled_face(ColorMode::Color.spec_label(), color_supported),
            labelled_face(ColorMode::Monochrome.spec_label(), true),
        ]);
    }
    r
}

/// The buttons for the orientation.
fn orientation_model(orientation: Orientation) -> (r: SegmentModel<Orientation>)
    ensures
        r.values() == seq![Orientation::Portrait, Orientation::Landscape],
        r.faces() == seq![
            labelled_face(Orientation::Portrait.spec_label(), true),
            labelled_face(Orientation::Landscape.spec_label(), true),
        ],
        r.active_value() == Some(orientation),
{
    let r = SegmentModel {
        segments: vec![
            Segment::labelled(Orientation::Portrait, Orientation::Portrait.label(), true),
            Segment::labelled(Orientation::Landscape, Orientation::Landscape.label(), true),
        ],
        active: Some(
            match orientation {
                Orientation::Portrait => 0,
                Orientation::Landscape => 1,
            },
        ),
    };
    proof {
        assert(r.values() =~= seq![Orientation::Portrait, Orientation::Landscape]);
        assert(r.faces() =~= seq![
            labelled_face(Orientation::Portrait.spec_label(), true),
            labelled_face(Orientation::Landscape.spec_label(), true),
        ]);
    }
    r
}

/// A button for a direction.
fn direction_segment(direction: LayoutDirection) -> (r: Segment<LayoutDirection>)
    ensures
        r.data == direction,
        r.face() == icon_face(direction.spec_icon_name()),
{
    Segment::with_icon(direction, direction.icon_name())
}

/// The buttons for the layout.
fn direction_model(direction: LayoutDirection) -> (r: SegmentModel<LayoutDirection>)
    ensures
        r.values() == direction_order(),
        r.faces() == direction_order().map_values(
            |direction: LayoutDirection| icon_face(direction.spec_icon_name()),
        ),
        r.active_value() == Some(direction),
{
    let r = SegmentModel {
        segments: vec![
            direction_segment(LayoutDirection::LeftToRightTopToBottom),
            direction_segment(LayoutDirection::RightToLeftTopToBottom),
            direction_segment(LayoutDirection::TopToBottomLeftToRight),
            direction_segment(LayoutDirection::TopToBottomRightToLeft),
        ],
        active: Some(
            match direction {
                LayoutDirection::LeftToRightTopToBottom => 0,
                LayoutDirection::RightToLeftTopToBottom => 1,
                LayoutDirection::TopToBottomLeftToRight => 2,
                LayoutDirection::TopToBottomRightToLeft => 3,
            },
        ),
    };
    proof {
        assert(r.values() =~= direction_order());
        assert(r.faces() =~= direction_order().map_values(
            |direction: LayoutDirection| icon_face(direction.spec_icon_name()),
        ));
    }
    r
}

/// A button for a selection of pages.
fn selection_segment(selection: PageSetSelection) -> (r: Segment<PageSetSelection>)
    ensures
        r.data == selection,
        r.face() == labelled_face(selection@.label(), true),
{
    let label = selection.label();
    Segment::labelled(selection, label, true)
}

/// The buttons for the pages.
fn selection_model(selection: &PageSetSelection, typed: String) -> (r: SegmentModel<
    PageSetSelection,
>)
    ensures
        r.values().map_values(|selection: PageSetSelection| selection@) == selection_order(typed@),
        r.faces() == selection_order(typed@).map_values(
            |pages: PageSetView| labelled_face(pages.label(), true),
        ),
        r.active == Some(selection_index(selection@)),
{
    let r = SegmentModel {
        segments: vec![
            selection_segment(PageSetSelection::All),
            selection_segment(PageSetSelection::Current),
            selection_segment(PageSetSelection::Odd),
            selection_segment(PageSetSelection::Even),
            selection_segment(PageSetSelection::Custom(typed)),
        ],
        active: Some(
            match selection {
                PageSetSelection::All => 0,
                PageSetSelection::Current => 1,
                PageSetSelection::Odd => 2,
                PageSetSelection::Even => 3,
                PageSetSelection::Custom(_) => 4,
            },
        ),
    };
    proof {
        assert(r.values().map_values(|selection: PageSetSelection| selection@) =~= selection_order(
            typed@,
        ));
        assert(r.faces() =~= selection_order(typed@).map_values(
            |pages: PageSetView| labelled_face(pages.label(), true),
        ));
    }
    r
}

/// The rows of buttons for the state of the dialog.
pub fn sync_print_models(dialog: &PrintDialog) -> (r: PrintModels)
    ensures
        r.shows(dialog@),
{
    proof {
        reveal(PrintDialog::model);
    }
    PrintModels {
        color: color_model(dialog.color_mode, dialog.color_supported),
        orientation: orientation_model(dialog.orientation),
        layout_direction: direction_model(dialog.layout_direction),
        page_selection: selection_model(
            &dialog.page_selection,
            dialog.custom_range_input.clone(),
        ),
    }
}

} // verus!
