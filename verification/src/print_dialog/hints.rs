//! The state in which a dialog opens for an application that hands over hints.

use crate::dict::Dict;
use crate::print_dialog::choices::{
    ColorMode, LayoutDirection, Margins, Orientation, PageSetSelection, PageSetView, ScalingMode,
};
use crate::print_dialog::page_range::{has_successors, one_based, page_range_to_one_based};
use crate::print_dialog::printers::{media_names, MarginOptions, MarginOptionsView};
use crate::print_dialog::state::{DialogView, PrintDialog};
use crate::seqs::{position, position_of_str, position_of_u32};
use crate::text::{number_u32, parse_u32, str_eq, view_opt, views};
use crate::value::{
    flag_of, get_flag, get_length, get_str, length_of, text_of, value_views, Length, Value,
    ValueView,
};
use vstd::prelude::*;

verus! {

/// The numbers of pages that can be put on a sheet.
pub open spec fn pages_per_sheet() -> Seq<u32> {
    seq![1u32, 2u32, 4u32, 6u32, 9u32, 16u32]
}

/// The numbers of pages that can be put on a sheet.
pub fn pages_per_sheet_values() -> (r: Vec<u32>)
    ensures
        r@ == pages_per_sheet(),
{
    let r: Vec<u32> = vec![1, 2, 4, 6, 9, 16];
    assert(r@ =~= pages_per_sheet());
    r
}

/// A number that a hint spells, or the one that was there.
pub open spec fn hinted_number(
    settings: Map<Seq<char>, ValueView>,
    key: Seq<char>,
    otherwise: u32,
) -> u32 {
    match text_of(settings, key) {
        Some(s) => match number_u32(s) {
            Some(n) => n,
            None => otherwise,
        },
        None => otherwise,
    }
}

/// Whether a hint says `true`, or what was there.
pub open spec fn hinted_flag(
    settings: Map<Seq<char>, ValueView>,
    key: Seq<char>,
    otherwise: bool,
) -> bool {
    match text_of(settings, key) {
        Some(s) => s == "true"@,
        None => otherwise,
    }
}

/// The colours that a hint asks for, or what was there.
pub open spec fn hinted_color(settings: Map<Seq<char>, ValueView>, otherwise: ColorMode) -> ColorMode {
    match text_of(settings, "use-color"@) {
        Some(s) => if s == "true"@ {
            ColorMode::Color
        } else {
            ColorMode::Monochrome
        },
        None => otherwise,
    }
}

/// The orientation that a hint names, with the word that it has for landscape turned around.
pub open spec fn hinted_orientation(
    values: Map<Seq<char>, ValueView>,
    key: Seq<char>,
    reverse_landscape: Seq<char>,
    otherwise: Orientation,
) -> Orientation {
    match text_of(values, key) {
        Some(s) => if s == "landscape"@ || s == reverse_landscape {
            Orientation::Landscape
        } else {
            Orientation::Portrait
        },
        None => otherwise,
    }
}

/// What print backends call the sides that a hint names.
pub open spec fn sides_of_duplex(s: Seq<char>) -> Seq<char> {
    if s == "horizontal"@ {
        "two-sided-long-edge"@
    } else if s == "vertical"@ {
        "two-sided-short-edge"@
    } else {
        "one-sided"@
    }
}

/// What print backends call the quality that a hint names.
pub open spec fn code_of_quality(s: Seq<char>) -> Seq<char> {
    if s == "high"@ {
        "5"@
    } else if s == "draft"@ || s == "low"@ {
        "3"@
    } else {
        "4"@
    }
}

/// The scaling that a hint asks for, in percent; a hundred percent is automatic scaling.
pub open spec fn hinted_scaling(
    settings: Map<Seq<char>, ValueView>,
    scaling: ScalingMode,
    percent: u32,
) -> (ScalingMode, u32) {
    match text_of(settings, "scale"@) {
        Some(s) => match number_u32(s) {
            Some(n) => if n == 100 {
                (ScalingMode::Auto, percent)
            } else {
                (ScalingMode::Custom, n)
            },
            None => (scaling, percent),
        },
        None => (scaling, percent),
    }
}

/// The index of the number of pages on a sheet that a hint asks for.
pub open spec fn hinted_pages_per_sheet(
    settings: Map<Seq<char>, ValueView>,
    otherwise: Option<usize>,
) -> Option<usize> {
    match text_of(settings, "number-up"@) {
        Some(s) => match number_u32(s) {
            Some(n) => position(pages_per_sheet(), n),
            None => otherwise,
        },
        None => otherwise,
    }
}

/// The order of pages on a sheet that a hint asks for.
pub open spec fn hinted_direction(
    settings: Map<Seq<char>, ValueView>,
    otherwise: LayoutDirection,
) -> LayoutDirection {
    match text_of(settings, "number-up-layout"@) {
        Some(s) => if s == "rltb"@ || s == "rlbt"@ {
            LayoutDirection::RightToLeftTopToBottom
        } else if s == "tblr"@ || s == "btlr"@ {
            LayoutDirection::TopToBottomLeftToRight
        } else if s == "tbrl"@ || s == "btrl"@ {
            LayoutDirection::TopToBottomRightToLeft
        } else {
            LayoutDirection::LeftToRightTopToBottom
        },
        None => otherwise,
    }
}

/// The pages that the set of pages names.
pub open spec fn hinted_page_set(
    settings: Map<Seq<char>, ValueView>,
    otherwise: PageSetView,
) -> PageSetView {
    match text_of(settings, "page-set"@) {
        Some(s) => if s == "even"@ {
            PageSetView::Even
        } else if s == "odd"@ {
            PageSetView::Odd
        } else {
            PageSetView::All
        },
        None => otherwise,
    }
}

/// The range of pages that hints ask for, counted from zero.
pub open spec fn hinted_ranges(settings: Map<Seq<char>, ValueView>) -> Option<Seq<char>> {
    if text_of(settings, "print-pages"@) == Some("ranges"@) {
        text_of(settings, "page-ranges"@)
    } else {
        None
    }
}

/// The pages that hints ask for.
pub open spec fn hinted_pages(
    settings: Map<Seq<char>, ValueView>,
    otherwise: PageSetView,
) -> PageSetView {
    match hinted_ranges(settings) {
        Some(ranges) => PageSetView::Custom(one_based(ranges)),
        None => if text_of(settings, "print-pages"@) == Some("current"@) {
            PageSetView::Current
        } else {
            hinted_page_set(settings, otherwise)
        },
    }
}

/// The index of the value that a hint names, or what was there where there is no hint.
pub open spec fn hinted_index(
    settings: Map<Seq<char>, ValueView>,
    key: Seq<char>,
    values: Seq<Seq<char>>,
    otherwise: Option<usize>,
) -> Option<usize> {
    match text_of(settings, key) {
        Some(s) => position(values, s),
        None => otherwise,
    }
}

/// Hundredths of a millimetre as an unsigned number: what does not fit is cut off.
pub open spec fn unsigned_hundredths(length: Length) -> u32 {
    if length.hundredths < 0 {
        0
    } else if length.hundredths > u32::MAX {
        u32::MAX
    } else {
        length.hundredths as u32
    }
}

/// The margins that hints name on all four sides.
pub open spec fn margin_hints(page_setup: Map<Seq<char>, ValueView>) -> Option<
    (Length, Length, Length, Length),
> {
    match (
        length_of(page_setup, "MarginTop"@),
        length_of(page_setup, "MarginBottom"@),
        length_of(page_setup, "MarginLeft"@),
        length_of(page_setup, "MarginRight"@),
    ) {
        (Some(t), Some(b), Some(l), Some(r)) => Some((t, b, l, r)),
        _ => None,
    }
}

/// The margins that hints ask for, with the indexes of custom ones: none where all are zero, the
/// smallest where they are the smallest at top and left, else those that the printer offers.
pub open spec fn hinted_margins(
    page_setup: Map<Seq<char>, ValueView>,
    offered: MarginOptionsView,
    otherwise: (Margins, Option<usize>, Option<usize>),
) -> (Margins, Option<usize>, Option<usize>) {
    match margin_hints(page_setup) {
        Some((t, b, l, r)) => if t.zero && b.zero && l.zero && r.zero {
            (Margins::NoMargins, otherwise.1, otherwise.2)
        } else {
            let top = unsigned_hundredths(t);
            let left = unsigned_hundredths(l);
            if offered.top.len() > 0 && offered.top[0] == top && offered.left.len() > 0
                && offered.left[0] == left {
                (Margins::Minimum, otherwise.1, otherwise.2)
            } else {
                (Margins::Custom, position(offered.top, top), position(offered.left, left))
            }
        },
        None => otherwise,
    }
}

impl DialogView {
    /// The state with the hints on how the document is printed.
    #[verifier::opaque]
    pub open spec fn with_basic_hints(
        self,
        settings: Map<Seq<char>, ValueView>,
        page_setup: Map<Seq<char>, ValueView>,
    ) -> DialogView {
        DialogView {
            copies: hinted_number(settings, "n-copies"@, self.copies),
            color_mode: hinted_color(settings, self.color_mode),
            collate: hinted_flag(settings, "collate"@, self.collate),
            reverse_order: hinted_flag(settings, "reverse"@, self.reverse_order),
            orientation: hinted_orientation(
                page_setup,
                "Orientation"@,
                "reverse-landscape"@,
                hinted_orientation(
                    settings,
                    "orientation"@,
                    "reverse_landscape"@,
                    self.orientation,
                ),
            ),
            ..self
        }
    }

    /// The state with the hints on sides, quality and layout.
    #[verifier::opaque]
    pub open spec fn with_layout_hints(self, settings: Map<Seq<char>, ValueView>) -> DialogView {
        DialogView {
            duplex_index: match text_of(settings, "duplex"@) {
                Some(s) => position(self.duplex_values, sides_of_duplex(s)),
                None => self.duplex_index,
            },
            print_quality_index: match text_of(settings, "quality"@) {
                Some(s) => position(self.print_quality_values, code_of_quality(s)),
                None => self.print_quality_index,
            },
            scaling: hinted_scaling(settings, self.scaling, self.custom_scaling_input).0,
            custom_scaling_input: hinted_scaling(
                settings,
                self.scaling,
                self.custom_scaling_input,
            ).1,
            pages_per_sheet_index: hinted_pages_per_sheet(settings, self.pages_per_sheet_index),
            layout_direction: hinted_direction(settings, self.layout_direction),
            ..self
        }
    }

    /// The state with the hints on pages and paper.
    #[verifier::opaque]
    pub open spec fn with_paper_hints(self, settings: Map<Seq<char>, ValueView>) -> DialogView {
        DialogView {
            page_selection: hinted_pages(settings, self.page_selection),
            custom_range_input: match hinted_ranges(settings) {
                Some(ranges) => one_based(ranges),
                None => self.custom_range_input,
            },
            custom_range_valid: hinted_ranges(settings) is Some || self.custom_range_valid,
            paper_tray_index: hinted_index(
                settings,
                "default-source"@,
                self.media_source_values,
                self.paper_tray_index,
            ),
            paper_type_index: hinted_index(
                settings,
                "media-type"@,
                self.media_type_values,
                self.paper_type_index,
            ),
            selected_paper_size_index: match self.printer_media {
                Some(media) => hinted_index(
                    settings,
                    "paper-format"@,
                    media_names(media),
                    self.selected_paper_size_index,
                ),
                None => self.selected_paper_size_index,
            },
            ..self
        }
    }

    /// The state with the hints on margins.
    #[verifier::opaque]
    pub open spec fn with_margin_hints(self, page_setup: Map<Seq<char>, ValueView>) -> DialogView {
        let (margins, vertical, horizontal) = hinted_margins(
            page_setup,
            self.margin_options,
            (
                self.margins,
                self.custom_margins_vertical_index,
                self.custom_margins_horizontal_index,
            ),
        );
        DialogView {
            margins,
            custom_margins_vertical_index: vertical,
            custom_margins_horizontal_index: horizontal,
            ..self
        }
    }

    /// The state with the hints that only some applications know, and the label of the button.
    #[verifier::opaque]
    pub open spec fn with_app_hints(
        self,
        settings: Map<Seq<char>, ValueView>,
        accept_label: Option<Seq<char>>,
    ) -> DialogView {
        DialogView {
            accept_label,
            show_print_background_toggle: flag_of(settings, "gtk-print-backgrounds"@) is Some
                || self.show_print_background_toggle,
            print_background: match flag_of(settings, "gtk-print-backgrounds"@) {
                Some(b) => b,
                None => self.print_background,
            },
            show_print_header_footer_toggle: flag_of(settings, "gtk-print-header-footer"@) is Some
                || self.show_print_header_footer_toggle,
            print_header_footer: match flag_of(settings, "gtk-print-header-footer"@) {
                Some(b) => b,
                None => self.print_header_footer,
            },
            ..self
        }
    }

    /// The state with all hints.
    pub open spec fn with_hints(
        self,
        settings: Map<Seq<char>, ValueView>,
        page_setup: Map<Seq<char>, ValueView>,
        accept_label: Option<Seq<char>>,
    ) -> DialogView {
        self.with_basic_hints(settings, page_setup).with_layout_hints(settings).with_paper_hints(
            settings,
        ).with_margin_hints(page_setup).with_app_hints(settings, accept_label)
    }
}

/// A number that a hint spells, or the one that was there.
fn hint_number(settings: &Dict<Value>, key: &str, otherwise: u32) -> (r: u32)
    ensures
        r == hinted_number(value_views(settings@), key@, otherwise),
{
    match get_str(settings, key) {
        Some(s) => match parse_u32(s.as_str()) {
            Some(n) => n,
            None => otherwise,
        },
        None => otherwise,
    }
}

/// Whether a hint says `true`, or what was there.
fn hint_flag(settings: &Dict<Value>, key: &str, otherwise: bool) -> (r: bool)
    ensures
        r == hinted_flag(value_views(settings@), key@, otherwise),
{
    match get_str(settings, key) {
        Some(s) => str_eq(s.as_str(), "true"),
        None => otherwise,
    }
}

/// The colours that a hint asks for, or what was there.
fn hint_color(settings: &Dict<Value>, otherwise: ColorMode) -> (r: ColorMode)
    ensures
        r == hinted_color(value_views(settings@), otherwise),
{
    match get_str(settings, "use-color") {
        Some(s) => if str_eq(s.as_str(), "true") {
            ColorMode::Color
        } else {
            ColorMode::Monochrome
        },
        None => otherwise,
    }
}

/// The orientation that a hint names.
fn hint_orientation(
    values: &Dict<Value>,
    key: &str,
    reverse_landscape: &str,
    otherwise: Orientation,
) -> (r: Orientation)
    ensures
        r == hinted_orientation(value_views(values@), key@, reverse_landscape@, otherwise),
{
    match get_str(values, key) {
        Some(s) => if str_eq(s.as_str(), "landscape") || str_eq(s.as_str(), reverse_landscape) {
            Orientation::Landscape
        } else {
            Orientation::Portrait
        },
        None => otherwise,
    }
}

/// Takes over the hints on how the document is printed.
fn apply_basic_hints(dialog: &mut PrintDialog, settings: &Dict<Value>, page_setup: &Dict<Value>)
    ensures
        final(dialog)@ == old(dialog)@.with_basic_hints(
            value_views(settings@),
            value_views(page_setup@),
        ),
{
    proof {
        reveal(PrintDialog::model);
        reveal(DialogView::with_basic_hints);
    }
    dialog.copies = hint_number(settings, "n-copies", dialog.copies);
    dialog.color_mode = hint_color(settings, dialog.color_mode);
    dialog.collate = hint_flag(settings, "collate", dialog.collate);
    dialog.reverse_order = hint_flag(settings, "reverse", dialog.reverse_order);
    let orientation = hint_orientation(
        settings,
        "orientation",
        "reverse_landscape",
        dialog.orientation,
    );
    dialog.orientation = hint_orientation(
        page_setup,
        "Orientation",
        "reverse-landscape",
        orientation,
    );
}

/// The index of the sides that a hint names.
fn hint_duplex(settings: &Dict<Value>, values: &Vec<String>, otherwise: Option<usize>) -> (r:
    Option<usize>)
    ensures
        r == match text_of(value_views(settings@), "duplex"@) {
            Some(s) => position(views(values@), sides_of_duplex(s)),
            None => otherwise,
        },
{
    match get_str(settings, "duplex") {
        Some(s) => {
            let sides: &str = if str_eq(s.as_str(), "horizontal") {
                "two-sided-long-edge"
            } else if str_eq(s.as_str(), "vertical") {
                "two-sided-short-edge"
            } else {
                "one-sided"
            };
            position_of_str(values, sides)
        },
        None => otherwise,
    }
}

/// The index of the quality that a hint names.
fn hint_quality(settings: &Dict<Value>, values: &Vec<String>, otherwise: Option<usize>) -> (r:
    Option<usize>)
    ensures
        r == match text_of(value_views(settings@), "quality"@) {
            Some(s) => position(views(values@), code_of_quality(s)),
            None => otherwise,
        },
{
    match get_str(settings, "quality") {
        Some(s) => {
            let code: &str = if str_eq(s.as_str(), "high") {
                "5"
            } else if str_eq(s.as_str(), "draft") || str_eq(s.as_str(), "low") {
                "3"
            } else {
                "4"
            };
            position_of_str(values, code)
        },
        None => otherwise,
    }
}

/// The scaling that a hint asks for.
fn hint_scaling(settings: &Dict<Value>, scaling: ScalingMode, percent: u32) -> (r: (
    ScalingMode,
    u32,
))
    ensures
        r == hinted_scaling(value_views(settings@), scaling, percent),
{
    match get_str(settings, "scale") {
        Some(s) => match parse_u32(s.as_str()) {
            Some(n) => if n == 100 {
                (ScalingMode::Auto, percent)
            } else {
                (ScalingMode::Custom, n)
            },
            None => (scaling, percent),
        },
        None => (scaling, percent),
    }
}

/// The index of the number of pages on a sheet that a hint asks for.
fn hint_pages_per_sheet(settings: &Dict<Value>, otherwise: Option<usize>) -> (r: Option<usize>)
    ensures
        r == hinted_pages_per_sheet(value_views(settings@), otherwise),
{
    match get_str(settings, "number-up") {
        Some(s) => match parse_u32(s.as_str()) {
            Some(n) => position_of_u32(&pages_per_sheet_values(), n),
            None => otherwise,
        },
        None => otherwise,
    }
}

/// The order of pages on a sheet that a hint asks for.
fn hint_direction(settings: &Dict<Value>, otherwise: LayoutDirection) -> (r: LayoutDirection)
    ensures
        r == hinted_direction(value_views(settings@), otherwise),
{
    match get_str(settings, "number-up-layout") {
        Some(text) => {
            let s = text.as_str();
            if str_eq(s, "rltb") || str_eq(s, "rlbt") {
                LayoutDirection::RightToLeftTopToBottom
            } else if str_eq(s, "tblr") || str_eq(s, "btlr") {
                LayoutDirection::TopToBottomLeftToRight
            } else if str_eq(s, "tbrl") || str_eq(s, "btrl") {
                LayoutDirection::TopToBottomRightToLeft
            } else {
                LayoutDirection::LeftToRightTopToBottom
            }
        },
        None => otherwise,
    }
}

/// Takes over the hints on sides, quality and layout.
fn apply_layout_hints(dialog: &mut PrintDialog, settings: &Dict<Value>)
    ensures
        final(dialog)@ == old(dialog)@.with_layout_hints(value_views(settings@)),
{
    proof {
        reveal(PrintDialog::model);
        reveal(DialogView::with_layout_hints);
    }
    dialog.duplex_index = hint_duplex(settings, &dialog.duplex_values, dialog.duplex_index);
    dialog.print_quality_index = hint_quality(
        settings,
        &dialog.print_quality_values,
        dialog.print_quality_index,
    );
    let (scaling, percent) = hint_scaling(settings, dialog.scaling, dialog.custom_scaling_input);
    dialog.scaling = scaling;
    dialog.custom_scaling_input = percent;
    dialog.pages_per_sheet_index = hint_pages_per_sheet(settings, dialog.pages_per_sheet_index);
    dialog.layout_direction = hint_direction(settings, dialog.layout_direction);
}

/// The range of pages that hints ask for, counted from one.
fn hint_ranges(settings: &Dict<Value>) -> (r: Option<String>)
    requires
        hinted_ranges(value_views(settings@)) is Some ==> has_successors(
            hinted_ranges(value_views(settings@))->0,
        ),
    ensures
        view_opt(r) == match hinted_ranges(value_views(settings@)) {
            Some(ranges) => Some(one_based(ranges)),
            None => None,
        },
{
    match get_str(settings, "print-pages") {
        Some(s) => if str_eq(s.as_str(), "ranges") {
            match get_str(settings, "page-ranges") {
                Some(ranges) => Some(page_range_to_one_based(ranges.as_str())),
                None => None,
            }
        } else {
            None
        },
        None => None,
    }
}

/// The pages that hints other than a range name, if any does.
fn hint_page_set(settings: &Dict<Value>) -> (r: Option<PageSetSelection>)
    requires
        hinted_ranges(value_views(settings@)) is None,
    ensures
        forall|otherwise: PageSetView|
            #[trigger] hinted_pages(value_views(settings@), otherwise) == match r {
                Some(selection) => selection@,
                None => otherwise,
            },
{
    if let Some(s) = get_str(settings, "print-pages") {
        if str_eq(s.as_str(), "current") {
            return Some(PageSetSelection::Current);
        }
    }
    match get_str(settings, "page-set") {
        Some(s) => if str_eq(s.as_str(), "even") {
            Some(PageSetSelection::Even)
        } else if str_eq(s.as_str(), "odd") {
            Some(PageSetSelection::Odd)
        } else {
            Some(PageSetSelection::All)
        },
        None => None,
    }
}

/// Takes over the hints on pages.
fn apply_page_hints(
    selection: &mut PageSetSelection,
    input: &mut String,
    valid: &mut bool,
    settings: &Dict<Value>,
)
    requires
        hinted_ranges(value_views(settings@)) is Some ==> has_successors(
            hinted_ranges(value_views(settings@))->0,
        ),
    ensures
        final(selection)@ == hinted_pages(value_views(settings@), old(selection)@),
        final(input)@ == match hinted_ranges(value_views(settings@)) {
            Some(ranges) => one_based(ranges),
            None => old(input)@,
        },
        *final(valid) == (hinted_ranges(value_views(settings@)) is Some || *old(valid)),
{
    match hint_ranges(settings) {
        Some(range) => {
            *selection = PageSetSelection::Custom(range.clone());
            *input = range;
            *valid = true;
        },
        None => {
            if let Some(set) = hint_page_set(settings) {
                *selection = set;
            }
        },
    }
}

/// The index of the value that a hint names.
fn hint_index(
    settings: &Dict<Value>,
    key: &str,
    values: &Vec<String>,
    otherwise: Option<usize>,
) -> (r: Option<usize>)
    ensures
        r == hinted_index(value_views(settings@), key@, views(values@), otherwise),
{
    match get_str(settings, key) {
        Some(s) => position_of_str(values, s.as_str()),
        None => otherwise,
    }
}

/// Takes over the hints on pages and paper.
fn apply_paper_hints(dialog: &mut PrintDialog, settings: &Dict<Value>)
    requires
        hinted_ranges(value_views(settings@)) is Some ==> has_successors(
            hinted_ranges(value_views(settings@))->0,
        ),
    ensures
        final(dialog)@ == old(dialog)@.with_paper_hints(value_views(settings@)),
{
    proof {
        reveal(PrintDialog::model);
        reveal(DialogView::with_paper_hints);
    }
    apply_page_hints(
        &mut dialog.page_selection,
        &mut dialog.custom_range_input,
        &mut dialog.custom_range_valid,
        settings,
    );
    dialog.paper_tray_index = hint_index(
        settings,
        "default-source",
        &dialog.media_source_values,
        dialog.paper_tray_index,
    );
    dialog.paper_type_index = hint_index(
        settings,
        "media-type",
        &dialog.media_type_values,
        dialog.paper_type_index,
    );
    dialog.selected_paper_size_index = match &dialog.printer_media {
        Some(media) => hint_index(
            settings,
            "paper-format",
            &media.names(),
            dialog.selected_paper_size_index,
        ),
        None => dialog.selected_paper_size_index,
    };
}

/// Hundredths of a millimetre as an unsigned number: what does not fit is cut off.
fn clamp_hundredths(length: Length) -> (r: u32)
    ensures
        r == unsigned_hundredths(length),
{
    if length.hundredths < 0 {
        0
    } else if length.hundredths > 0xffff_ffff {
        u32::MAX
    } else {
        length.hundredths as u32
    }
}

/// The margins that hints ask for, with the indexes of custom ones.
fn hint_margins(
    page_setup: &Dict<Value>,
    offered: &MarginOptions,
    otherwise: (Margins, Option<usize>, Option<usize>),
) -> (r: (Margins, Option<usize>, Option<usize>))
    ensures
        r == hinted_margins(value_views(page_setup@), offered@, otherwise),
{
    let hints = (
        get_length(page_setup, "MarginTop"),
        get_length(page_setup, "MarginBottom"),
        get_length(page_setup, "MarginLeft"),
        get_length(page_setup, "MarginRight"),
    );
    if let (Some(t), Some(b), Some(l), Some(r)) = hints {
        if t.zero && b.zero && l.zero && r.zero {
            (Margins::NoMargins, otherwise.1, otherwise.2)
        } else {
            let top: u32 = clamp_hundredths(t);
            let left: u32 = clamp_hundredths(l);
            if offered.top.len() > 0 && offered.top[0] == top && offered.left.len() > 0
                && offered.left[0] == left {
                (Margins::Minimum, otherwise.1, otherwise.2)
            } else {
                (
                    Margins::Custom,
                    position_of_u32(&offered.top, top),
                    position_of_u32(&offered.left, left),
                )
            }
        }
    } else {
        otherwise
    }
}

/// Takes over the hints on margins.
fn apply_margin_hints(dialog: &mut PrintDialog, page_setup: &Dict<Value>)
    ensures
        final(dialog)@ == old(dialog)@.with_margin_hints(value_views(page_setup@)),
{
    proof {
        reveal(PrintDialog::model);
        reveal(DialogView::with_margin_hints);
    }
    let (margins, vertical, horizontal) = hint_margins(
        page_setup,
        &dialog.margin_options,
        (
            dialog.margins,
            dialog.custom_margins_vertical_index,
            dialog.custom_margins_horizontal_index,
        ),
    );
    dialog.margins = margins;
    dialog.custom_margins_vertical_index = vertical;
    dialog.custom_margins_horizontal_index = horizontal;
}

/// Takes over the hints that only some applications know, and the label of the button.
fn apply_app_hints(dialog: &mut PrintDialog, settings: &Dict<Value>, accept_label: Option<String>)
    ensures
        final(dialog)@ == old(dialog)@.with_app_hints(
            value_views(settings@),
            view_opt(accept_label),
        ),
{
    proof {
        reveal(PrintDialog::model);
        reveal(DialogView::with_app_hints);
    }
    let backgrounds = get_flag(settings, "gtk-print-backgrounds");
    let header_footer = get_flag(settings, "gtk-print-header-footer");
    dialog.accept_label = accept_label;
    dialog.show_print_background_toggle = backgrounds.is_some()
        || dialog.show_print_background_toggle;
    dialog.print_background = backgrounds.unwrap_or(dialog.print_background);
    dialog.show_print_header_footer_toggle = header_footer.is_some()
        || dialog.show_print_header_footer_toggle;
    dialog.print_header_footer = header_footer.unwrap_or(dialog.print_header_footer);
}

/// Takes over the settings, the page setup and the label that an application hands over when it
/// prepares to print.
pub fn apply_xdg_hints(
    dialog: &mut PrintDialog,
    settings: &Dict<Value>,
    page_setup: &Dict<Value>,
    accept_label: Option<String>,
)
    requires
        hinted_ranges(value_views(settings@)) is Some ==> has_successors(
            hinted_ranges(value_views(settings@))->0,
        ),
    ensures
        final(dialog)@ == old(dialog)@.with_hints(
            value_views(settings@),
            value_views(page_setup@),
            view_opt(accept_label),
        ),
        old(dialog).wf() ==> final(dialog).wf(),
{
    proof {
        law_hints_keep_printers(
            dialog@,
            value_views(settings@),
            value_views(page_setup@),
            view_opt(accept_label),
        );
    }
    apply_basic_hints(dialog, settings, page_setup);
    apply_layout_hints(dialog, settings);
    apply_paper_hints(dialog, settings);
    apply_margin_hints(dialog, page_setup);
    apply_app_hints(dialog, settings, accept_label);
}

/// Hints never touch the printers, what they offer, or the presets.
pub proof fn law_hints_keep_printers(
    d: DialogView,
    settings: Map<Seq<char>, ValueView>,
    page_setup: Map<Seq<char>, ValueView>,
    accept_label: Option<Seq<char>>,
)
    ensures
        ({
            let hinted = d.with_hints(settings, page_setup, accept_label);
            &&& hinted.printers == d.printers
            &&& hinted.selected_printer_index == d.selected_printer_index
            &&& hinted.printer_media == d.printer_media
            &&& hinted.duplex_values == d.duplex_values
            &&& hinted.media_source_values == d.media_source_values
            &&& hinted.media_type_values == d.media_type_values
            &&& hinted.print_quality_values == d.print_quality_values
            &&& hinted.margin_options == d.margin_options
            &&& hinted.presets == d.presets
        }),
{
    reveal(DialogView::with_basic_hints);
    reveal(DialogView::with_layout_hints);
    reveal(DialogView::with_paper_hints);
    reveal(DialogView::with_margin_hints);
    reveal(DialogView::with_app_hints);
}

} // verus!
