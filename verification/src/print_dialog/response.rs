//! What the dialog hands to the application and to the print backend.

use crate::dict::Dict;
use crate::print_dialog::choices::{
    ColorMode, Margins, Orientation, PageSetSelection, PageSetView, ScalingMode,
};
use crate::print_dialog::hints::{pages_per_sheet, pages_per_sheet_values};
use crate::print_dialog::page_range::{page_range_to_zero_based, zero_based};
use crate::print_dialog::printers::{MediaInfo, MediaView};
use crate::print_dialog::state::{DialogView, PrintDialog};
use crate::seqs::{at, str_at, u32_at};
use crate::text::{decimal, digit, str_eq, to_decimal, views};
use crate::value::{exact_length, length_value, text_value, value_views, Value, ValueView};
use vstd::prelude::*;

verus! {

/// Hundredths of a unit as a number of units in decimal, without needless zeros.
pub open spec fn hundredths_text(n: int) -> Seq<char> {
    let magnitude = if n < 0 {
        (-n) as nat
    } else {
        n as nat
    };
    let sign = if n < 0 {
        seq!['-']
    } else {
        Seq::empty()
    };
    let rest = magnitude % 100;
    let fraction = if rest == 0 {
        Seq::empty()
    } else if rest % 10 == 0 {
        seq!['.', digit(rest / 10)]
    } else {
        seq!['.', digit(rest / 10), digit(rest % 10)]
    };
    sign + decimal(magnitude / 100) + fraction
}

/// Hundredths of a unit as a number of units in decimal, without needless zeros.
pub fn hundredths_to_text(n: i32) -> (r: String)
    ensures
        r@ == hundredths_text(n as int),
{
    let magnitude: u64 = if n < 0 {
        (-(n as i64)) as u64
    } else {
        n as u64
    };
    let mut r = String::new();
    if n < 0 {
        r.push('-');
    }
    let ghost sign = r@;
    let whole = to_decimal(magnitude / 100);
    r.append(whole.as_str());
    let rest: u64 = magnitude % 100;
    if rest != 0 {
        let tens = to_decimal(rest / 10);
        r.push('.');
        r.append(tens.as_str());
        if rest % 10 != 0 {
            let ones = to_decimal(rest % 10);
            r.append(ones.as_str());
        }
    }
    proof {
        assert(r@ =~= hundredths_text(n as int));
    }
    r
}

/// What applications call the sides of a sheet.
pub open spec fn duplex_of_sides(value: Option<Seq<char>>) -> Seq<char> {
    match value {
        Some(v) => if v == "two-sided-long-edge"@ {
            "horizontal"@
        } else if v == "two-sided-short-edge"@ {
            "vertical"@
        } else {
            "simplex"@
        },
        None => "simplex"@,
    }
}

/// What applications call a quality.
pub open spec fn quality_of_code(value: Option<Seq<char>>) -> Seq<char> {
    match value {
        Some(v) => if v == "5"@ {
            "high"@
        } else if v == "3"@ {
            "draft"@
        } else {
            "normal"@
        },
        None => "normal"@,
    }
}

/// A flag in words.
pub open spec fn flag_text(flag: bool) -> Seq<char> {
    if flag {
        "true"@
    } else {
        "false"@
    }
}

/// The number of pages on a sheet; one where none is chosen.
pub open spec fn number_up(index: Option<usize>) -> u32 {
    match at(pages_per_sheet(), index) {
        Some(n) => n,
        None => 1,
    }
}

/// The size of paper that is selected.
pub open spec fn selected_size(d: DialogView) -> Option<MediaView> {
    match d.printer_media {
        Some(media) => at(media, d.selected_paper_size_index),
        None => None,
    }
}

/// The first of some margins, or zero.
pub open spec fn smallest(margins: Seq<u32>) -> u32 {
    if margins.len() > 0 {
        margins[0]
    } else {
        0
    }
}

/// The margin at an index, or zero.
pub open spec fn margin_at(margins: Seq<u32>, index: Option<usize>) -> u32 {
    match at(margins, index) {
        Some(m) => m,
        None => 0,
    }
}

/// The margins at top, bottom, left and right, in hundredths of a millimetre.
pub open spec fn margins_of(d: DialogView) -> (u32, u32, u32, u32) {
    let offered = d.margin_options;
    match d.margins {
        Margins::NoMargins => (0, 0, 0, 0),
        Margins::Default => (0, 0, 0, 0),
        Margins::Minimum => (
            smallest(offered.top),
            smallest(offered.bottom),
            smallest(offered.left),
            smallest(offered.right),
        ),
        Margins::Custom => {
            let v = margin_at(offered.top, d.custom_margins_vertical_index);
            let h = margin_at(offered.left, d.custom_margins_horizontal_index);
            (v, v, h, h)
        },
    }
}

/// A text as a setting.
pub open spec fn text(s: Seq<char>) -> ValueView {
    ValueView::Text(s)
}

/// The settings that every answer holds.
pub open spec fn basic_settings(d: DialogView) -> Map<Seq<char>, ValueView> {
    Map::empty()
        .insert("use-color"@, text(flag_text(d.color_mode == ColorMode::Color)))
        .insert("duplex"@, text(duplex_of_sides(at(d.duplex_values, d.duplex_index))))
        .insert("n-copies"@, text(decimal(d.copies as nat)))
        .insert("collate"@, text(flag_text(d.collate)))
        .insert("reverse"@, text(flag_text(d.reverse_order)))
        .insert("orientation"@, text(d.orientation.spec_id()))
        .insert(
            "quality"@,
            text(quality_of_code(at(d.print_quality_values, d.print_quality_index))),
        )
        .insert(
            "scale"@,
            text(
                if d.scaling == ScalingMode::Custom {
                    decimal(d.custom_scaling_input as nat)
                } else {
                    "100"@
                },
            ),
        )
        .insert("number-up"@, text(decimal(number_up(d.pages_per_sheet_index) as nat)))
        .insert("number-up-layout"@, text(d.layout_direction.spec_id()))
}

/// Settings with those that say which pages to print.
pub open spec fn with_pages(
    settings: Map<Seq<char>, ValueView>,
    pages: PageSetView,
) -> Map<Seq<char>, ValueView> {
    match pages {
        PageSetView::All => settings.insert("print-pages"@, text("all"@)),
        PageSetView::Current => settings.insert("print-pages"@, text("current"@)),
        PageSetView::Odd => settings.insert("print-pages"@, text("ranges"@)).insert(
            "page-set"@,
            text("odd"@),
        ),
        PageSetView::Even => settings.insert("print-pages"@, text("ranges"@)).insert(
            "page-set"@,
            text("even"@),
        ),
        PageSetView::Custom(range) => settings.insert("print-pages"@, text("ranges"@)).insert(
            "page-ranges"@,
            text(zero_based(range)),
        ),
    }
}

/// Settings with a value under a name, if there is one.
pub open spec fn with_optional(
    settings: Map<Seq<char>, ValueView>,
    key: Seq<char>,
    value: Option<Seq<char>>,
) -> Map<Seq<char>, ValueView> {
    match value {
        Some(v) => settings.insert(key, text(v)),
        None => settings,
    }
}

/// Settings with those that describe the paper, if a size is selected.
pub open spec fn with_paper(
    settings: Map<Seq<char>, ValueView>,
    size: Option<MediaView>,
) -> Map<Seq<char>, ValueView> {
    match size {
        Some(m) => settings.insert("paper-format"@, text(m.name)).insert(
            "paper-width"@,
            text(hundredths_text(m.width as int)),
        ).insert("paper-height"@, text(hundredths_text(m.length as int))),
        None => settings,
    }
}

/// Settings with a flag under a name, if the flag is offered.
pub open spec fn with_flag(
    settings: Map<Seq<char>, ValueView>,
    key: Seq<char>,
    offered: bool,
    flag: bool,
) -> Map<Seq<char>, ValueView> {
    if offered {
        settings.insert(key, ValueView::Flag(flag))
    } else {
        settings
    }
}

/// The settings that an application is answered.
pub open spec fn xdg_settings(d: DialogView) -> Map<Seq<char>, ValueView> {
    let pages = with_pages(basic_settings(d), d.page_selection);
    let source = with_optional(
        pages,
        "default-source"@,
        at(d.media_source_values, d.paper_tray_index),
    );
    let kind = with_optional(source, "media-type"@, at(d.media_type_values, d.paper_type_index));
    let paper = with_paper(kind, selected_size(d));
    let backgrounds = with_flag(
        paper,
        "gtk-print-backgrounds"@,
        d.show_print_background_toggle,
        d.print_background,
    );
    with_flag(
        backgrounds,
        "gtk-print-header-footer"@,
        d.show_print_header_footer_toggle,
        d.print_header_footer,
    )
}

/// The page setup that describes the paper, if a size is selected.
pub open spec fn paper_setup(size: Option<MediaView>) -> Map<Seq<char>, ValueView> {
    match size {
        Some(m) => Map::empty().insert("PPDName"@, text(m.name)).insert("Name"@, text(m.name)).insert(
            "DisplayName"@,
            text(m.name),
        ).insert("Width"@, exact_length(m.width as int)).insert(
            "Height"@,
            exact_length(m.length as int),
        ),
        None => Map::empty(),
    }
}

/// The page setup that an application is answered.
pub open spec fn xdg_page_setup(d: DialogView) -> Map<Seq<char>, ValueView> {
    let (top, bottom, left, right) = margins_of(d);
    paper_setup(selected_size(d)).insert("Orientation"@, text(d.orientation.spec_id())).insert(
        "MarginTop"@,
        exact_length(top as int),
    ).insert("MarginBottom"@, exact_length(bottom as int)).insert(
        "MarginLeft"@,
        exact_length(left as int),
    ).insert("MarginRight"@, exact_length(right as int))
}

/// Puts a value under a name.
fn put(settings: &mut Dict<Value>, key: &str, value: Value)
    ensures
        value_views(final(settings)@) == value_views(old(settings)@).insert(key@, value@),
{
    let ghost before = settings@;
    settings.insert(key, value);
    proof {
        assert(value_views(settings@) =~= value_views(before).insert(key@, value@));
    }
}

/// No settings.
fn no_settings() -> (r: Dict<Value>)
    ensures
        value_views(r@) == Map::<Seq<char>, ValueView>::empty(),
{
    let r: Dict<Value> = Dict::new();
    assert(value_views(r@) =~= Map::<Seq<char>, ValueView>::empty());
    r
}

/// A flag in words.
fn flag_to_text(flag: bool) -> (r: &'static str)
    ensures
        r@ == flag_text(flag),
{
    if flag {
        "true"
    } else {
        "false"
    }
}

/// The value that is chosen from a list.
pub fn chosen_value<'a>(values: &'a Vec<String>, index: Option<usize>) -> (r: Option<&'a String>)
    ensures
        match r {
            Some(value) => at(views(values@), index) == Some(value@),
            None => at(views(values@), index) is None,
        },
{
    str_at(values, index)
}

/// What applications call the sides of a sheet.
fn duplex_text(values: &Vec<String>, index: Option<usize>) -> (r: &'static str)
    ensures
        r@ == duplex_of_sides(at(views(values@), index)),
{
    match chosen_value(values, index) {
        Some(v) => if str_eq(v.as_str(), "two-sided-long-edge") {
            "horizontal"
        } else if str_eq(v.as_str(), "two-sided-short-edge") {
            "vertical"
        } else {
            "simplex"
        },
        None => "simplex",
    }
}

/// What applications call a quality.
fn quality_text(values: &Vec<String>, index: Option<usize>) -> (r: &'static str)
    ensures
        r@ == quality_of_code(at(views(values@), index)),
{
    match chosen_value(values, index) {
        Some(v) => if str_eq(v.as_str(), "5") {
            "high"
        } else if str_eq(v.as_str(), "3") {
            "draft"
        } else {
            "normal"
        },
        None => "normal",
    }
}

/// The settings that every answer holds.
fn build_basic_settings(dialog: &PrintDialog) -> (r: Dict<Value>)
    ensures
        value_views(r@) == basic_settings(dialog@),
{
    proof {
        reveal(PrintDialog::model);
    }
    let mut settings = no_settings();
    put(&mut settings, "use-color", text_value(flag_to_text(dialog.color_mode == ColorMode::Color)));
    put(
        &mut settings,
        "duplex",
        text_value(duplex_text(&dialog.duplex_values, dialog.duplex_index)),
    );
    put(&mut settings, "n-copies", Value::Text(to_decimal(dialog.copies as u64)));
    put(&mut settings, "collate", text_value(flag_to_text(dialog.collate)));
    put(&mut settings, "reverse", text_value(flag_to_text(dialog.reverse_order)));
    put(&mut settings, "orientation", text_value(dialog.orientation.id()));
    put(
        &mut settings,
        "quality",
        text_value(quality_text(&dialog.print_quality_values, dialog.print_quality_index)),
    );
    let scale: String = if dialog.scaling == ScalingMode::Custom {
        to_decimal(dialog.custom_scaling_input as u64)
    } else {
        "100".to_owned()
    };
    put(&mut settings, "scale", Value::Text(scale));
    let per_sheet: u32 = match u32_at(&pages_per_sheet_values(), dialog.pages_per_sheet_index) {
        Some(n) => n,
        None => 1,
    };
    put(&mut settings, "number-up", Value::Text(to_decimal(per_sheet as u64)));
    put(&mut settings, "number-up-layout", text_value(dialog.layout_direction.id()));
    settings
}

/// Adds the settings that say which pages to print.
fn put_pages(settings: &mut Dict<Value>, pages: &PageSetSelection)
    ensures
        value_views(final(settings)@) == with_pages(value_views(old(settings)@), pages@),
{
    match pages {
        PageSetSelection::All => {
            put(settings, "print-pages", text_value("all"));
        },
        PageSetSelection::Current => {
            put(settings, "print-pages", text_value("current"));
        },
        PageSetSelection::Odd => {
            put(settings, "print-pages", text_value("ranges"));
            put(settings, "page-set", text_value("odd"));
        },
        PageSetSelection::Even => {
            put(settings, "print-pages", text_value("ranges"));
            put(settings, "page-set", text_value("even"));
        },
        PageSetSelection::Custom(range) => {
            put(settings, "print-pages", text_value("ranges"));
            put(settings, "page-ranges", Value::Text(page_range_to_zero_based(range.as_str())));
        },
    }
}

/// Adds the value that is chosen from a list, if there is one.
fn put_chosen(settings: &mut Dict<Value>, key: &str, values: &Vec<String>, index: Option<usize>)
    ensures
        value_views(final(settings)@) == with_optional(
            value_views(old(settings)@),
            key@,
            at(views(values@), index),
        ),
{
    if let Some(value) = chosen_value(values, index) {
        put(settings, key, text_value(value.as_str()));
    }
}

/// The size of paper that is selected.
pub fn selected_media<'a>(dialog: &'a PrintDialog) -> (r: Option<&'a MediaInfo>)
    ensures
        match r {
            Some(size) => selected_size(dialog@) == Some(size@),
            None => selected_size(dialog@) is None,
        },
{
    proof {
        reveal(PrintDialog::model);
    }
    match &dialog.printer_media {
        Some(media) => match dialog.selected_paper_size_index {
            Some(i) => if i < media.media.len() {
                assert(media@[i as int] == media.media@[i as int]@);
                Some(&media.media[i])
            } else {
                None
            },
            None => None,
        },
        None => None,
    }
}

/// Adds the settings that describe the paper, if a size is selected.
fn put_paper(settings: &mut Dict<Value>, dialog: &PrintDialog)
    ensures
        value_views(final(settings)@) == with_paper(
            value_views(old(settings)@),
            selected_size(dialog@),
        ),
{
    if let Some(size) = selected_media(dialog) {
        put(settings, "paper-format", text_value(size.name.as_str()));
        put(settings, "paper-width", Value::Text(hundredths_to_text(size.width)));
        put(settings, "paper-height", Value::Text(hundredths_to_text(size.length)));
    }
}

/// Adds a flag, if it is offered.
fn put_flag(settings: &mut Dict<Value>, key: &str, offered: bool, flag: bool)
    ensures
        value_views(final(settings)@) == with_flag(
            value_views(old(settings)@),
            key@,
            offered,
            flag,
        ),
{
    if offered {
        put(settings, key, Value::Flag(flag));
    }
}

/// The settings that an application is answered.
fn build_settings(dialog: &PrintDialog) -> (r: Dict<Value>)
    ensures
        value_views(r@) == xdg_settings(dialog@),
{
    let mut settings = build_basic_settings(dialog);
    proof {
        reveal(PrintDialog::model);
    }
    put_pages(&mut settings, &dialog.page_selection);
    put_chosen(
        &mut settings,
        "default-source",
        &dialog.media_source_values,
        dialog.paper_tray_index,
    );
    put_chosen(&mut settings, "media-type", &dialog.media_type_values, dialog.paper_type_index);
    put_paper(&mut settings, dialog);
    put_flag(
        &mut settings,
        "gtk-print-backgrounds",
        dialog.show_print_background_toggle,
        dialog.print_background,
    );
    put_flag(
        &mut settings,
        "gtk-print-header-footer",
        dialog.show_print_header_footer_toggle,
        dialog.print_header_footer,
    );
    settings
}

/// The first of some margins, or zero.
fn first_margin(margins: &Vec<u32>) -> (r: u32)
    ensures
        r == smallest(margins@),
{
    if margins.len() > 0 {
        margins[0]
    } else {
        0
    }
}

/// The margin at an index, or zero.
fn chosen_margin(margins: &Vec<u32>, index: Option<usize>) -> (r: u32)
    ensures
        r == margin_at(margins@, index),
{
    match u32_at(margins, index) {
        Some(m) => m,
        None => 0,
    }
}

/// The margins at top, bottom, left and right, in hundredths of a millimetre.
fn current_margins(dialog: &PrintDialog) -> (r: (u32, u32, u32, u32))
    ensures
        r == margins_of(dialog@),
{
    proof {
        reveal(PrintDialog::model);
    }
    let offered = &dialog.margin_options;
    match dialog.margins {
        Margins::NoMargins => (0, 0, 0, 0),
        Margins::Default => (0, 0, 0, 0),
        Margins::Minimum => (
            first_margin(&offered.top),
            first_margin(&offered.bottom),
            first_margin(&offered.left),
            first_margin(&offered.right),
        ),
        Margins::Custom => {
            let v: u32 = chosen_margin(&offered.top, dialog.custom_margins_vertical_index);
            let h: u32 = chosen_margin(&offered.left, dialog.custom_margins_horizontal_index);
            (v, v, h, h)
        },
    }
}

/// The page setup that an application is answered.
fn build_page_setup(dialog: &PrintDialog) -> (r: Dict<Value>)
    ensures
        value_views(r@) == xdg_page_setup(dialog@),
{
    let mut page_setup = no_settings();
    if let Some(size) = selected_media(dialog) {
        put(&mut page_setup, "PPDName", text_value(size.name.as_str()));
        put(&mut page_setup, "Name", text_value(size.name.as_str()));
        put(&mut page_setup, "DisplayName", text_value(size.name.as_str()));
        put(&mut page_setup, "Width", length_value(size.width as i64));
        put(&mut page_setup, "Height", length_value(size.length as i64));
    }
    let (top, bottom, left, right) = current_margins(dialog);
    proof {
        reveal(PrintDialog::model);
    }
    put(&mut page_setup, "Orientation", text_value(dialog.orientation.id()));
    put(&mut page_setup, "MarginTop", length_value(top as i64));
    put(&mut page_setup, "MarginBottom", length_value(bottom as i64));
    put(&mut page_setup, "MarginLeft", length_value(left as i64));
    put(&mut page_setup, "MarginRight", length_value(right as i64));
    page_setup
}

/// Maps the state of the dialog to the settings and the page setup that an application is answered.
pub fn build_xdg_response(dialog: &PrintDialog) -> (r: (Dict<Value>, Dict<Value>))
    ensures
        value_views(r.0@) == xdg_settings(dialog@),
        value_views(r.1@) == xdg_page_setup(dialog@),
{
    (build_settings(dialog), build_page_setup(dialog))
}

/// Pairs of a name and a value, as values.
pub open spec fn pair_views(pairs: Seq<(String, String)>) -> Seq<(Seq<char>, Seq<char>)> {
    pairs.map_values(|pair: (String, String)| (pair.0@, pair.1@))
}

/// A pair, if there is a value.
pub open spec fn optional_pair(key: Seq<char>, value: Option<Seq<char>>) -> Seq<
    (Seq<char>, Seq<char>),
> {
    match value {
        Some(v) => seq![(key, v)],
        None => Seq::empty(),
    }
}

/// A number in decimal, if there is one.
pub open spec fn optional_decimal(value: Option<u32>) -> Option<Seq<char>> {
    match value {
        Some(n) => Some(decimal(n as nat)),
        None => None,
    }
}

/// The first of some margins in decimal, if there is one.
pub open spec fn smallest_text(margins: Seq<u32>) -> Option<Seq<char>> {
    if margins.len() > 0 {
        Some(decimal(margins[0] as nat))
    } else {
        None
    }
}

/// The margins that a print backend is given.
pub open spec fn cpdb_margins(d: DialogView) -> Seq<(Seq<char>, Seq<char>)> {
    let offered = d.margin_options;
    match d.margins {
        Margins::NoMargins => if offered.supports_borderless {
            seq![
                ("media-top-margin"@, "0"@),
                ("media-bottom-margin"@, "0"@),
                ("media-left-margin"@, "0"@),
                ("media-right-margin"@, "0"@),
            ]
        } else {
            Seq::empty()
        },
        Margins::Minimum => optional_pair("media-top-margin"@, smallest_text(offered.top))
            + optional_pair("media-bottom-margin"@, smallest_text(offered.bottom)) + optional_pair(
            "media-left-margin"@,
            smallest_text(offered.left),
        ) + optional_pair("media-right-margin"@, smallest_text(offered.right)),
        Margins::Custom => {
            let v = optional_decimal(at(offered.top, d.custom_margins_vertical_index));
            let h = optional_decimal(at(offered.left, d.custom_margins_horizontal_index));
            optional_pair("media-top-margin"@, v) + optional_pair("media-bottom-margin"@, v)
                + optional_pair("media-left-margin"@, h) + optional_pair("media-right-margin"@, h)
        },
        Margins::Default => Seq::empty(),
    }
}

/// The settings that a print backend is given.
pub open spec fn cpdb_settings(d: DialogView) -> Seq<(Seq<char>, Seq<char>)> {
    seq![("print-color-mode"@, d.color_mode.spec_id())]
        + optional_pair("sides"@, at(d.duplex_values, d.duplex_index))
        + seq![("copies"@, decimal(d.copies as nat))]
        + seq![
            (
                "multiple-document-handling"@,
                if d.collate {
                    "separate-documents-collated-copies"@
                } else {
                    "separate-documents-uncollated-copies"@
                },
            ),
        ]
        + seq![
            (
                "page-delivery"@,
                if d.reverse_order {
                    "reverse-order"@
                } else {
                    "same-order"@
                },
            ),
        ]
        + optional_pair("print-quality"@, at(d.print_quality_values, d.print_quality_index))
        + seq![("print-scaling"@, d.scaling.spec_cpdb())]
        + optional_pair(
        "number-up"@,
        optional_decimal(at(pages_per_sheet(), d.pages_per_sheet_index)),
    ) + seq![("number-up-layout"@, d.layout_direction.spec_id())]
        + seq![("page-border"@, d.border.spec_id())]
        + optional_pair(
        "media"@,
        match selected_size(d) {
            Some(m) => Some(m.name),
            None => None,
        },
    ) + optional_pair("media-source"@, at(d.media_source_values, d.paper_tray_index))
        + optional_pair("media-type"@, at(d.media_type_values, d.paper_type_index))
        + cpdb_margins(d)
}

/// Adds a pair.
fn push_pair(out: &mut Vec<(String, String)>, key: &str, value: &str)
    ensures
        pair_views(final(out)@) == pair_views(old(out)@) + seq![(key@, value@)],
{
    let ghost before = out@;
    let pair = (key.to_owned(), value.to_owned());
    out.push(pair);
    proof {
        assert(pair_views(out@) =~= pair_views(before) + seq![(key@, value@)]);
    }
}

/// Adds a pair, if there is a value.
fn push_chosen(out: &mut Vec<(String, String)>, key: &str, values: &Vec<String>, index: Option<usize>)
    ensures
        pair_views(final(out)@) == pair_views(old(out)@) + optional_pair(
            key@,
            at(views(values@), index),
        ),
{
    match chosen_value(values, index) {
        Some(value) => push_pair(out, key, value.as_str()),
        None => {
            assert(pair_views(out@) =~= pair_views(out@) + Seq::<(Seq<char>, Seq<char>)>::empty());
        },
    }
}

/// Adds a number, if there is one.
fn push_number(out: &mut Vec<(String, String)>, key: &str, value: Option<u32>)
    ensures
        pair_views(final(out)@) == pair_views(old(out)@) + optional_pair(
            key@,
            optional_decimal(value),
        ),
{
    match value {
        Some(n) => push_pair(out, key, to_decimal(n as u64).as_str()),
        None => {
            assert(pair_views(out@) =~= pair_views(out@) + Seq::<(Seq<char>, Seq<char>)>::empty());
        },
    }
}

/// The first of some margins, if there is one.
fn first_of(margins: &Vec<u32>) -> (r: Option<u32>)
    ensures
        optional_decimal(r) == smallest_text(margins@),
{
    if margins.len() > 0 {
        Some(margins[0])
    } else {
        None
    }
}

/// Adds the margins that a print backend is given.
fn push_margins(out: &mut Vec<(String, String)>, dialog: &PrintDialog)
    ensures
        pair_views(final(out)@) == pair_views(old(out)@) + cpdb_margins(dialog@),
{
    proof {
        reveal(PrintDialog::model);
    }
    let ghost before = pair_views(out@);
    let offered = &dialog.margin_options;
    match dialog.margins {
        Margins::NoMargins => {
            if offered.supports_borderless {
                push_pair(out, "media-top-margin", "0");
                push_pair(out, "media-bottom-margin", "0");
                push_pair(out, "media-left-margin", "0");
                push_pair(out, "media-right-margin", "0");
            }
        },
        Margins::Minimum => {
            push_number(out, "media-top-margin", first_of(&offered.top));
            push_number(out, "media-bottom-margin", first_of(&offered.bottom));
            push_number(out, "media-left-margin", first_of(&offered.left));
            push_number(out, "media-right-margin", first_of(&offered.right));
        },
        Margins::Custom => {
            let v = u32_at(&offered.top, dialog.custom_margins_vertical_index);
            let h = u32_at(&offered.left, dialog.custom_margins_horizontal_index);
            push_number(out, "media-top-margin", v);
            push_number(out, "media-bottom-margin", v);
            push_number(out, "media-left-margin", h);
            push_number(out, "media-right-margin", h);
        },
        Margins::Default => {},
    }
    proof {
        assert(pair_views(out@) =~= before + cpdb_margins(dialog@));
    }
}

/// Maps the state of the dialog to the settings that print backends understand.
pub fn build_cpdb_settings(dialog: &PrintDialog) -> (r: Vec<(String, String)>)
    ensures
        pair_views(r@) == cpdb_settings(dialog@),
{
    proof {
        reveal(PrintDialog::model);
    }
    let mut out: Vec<(String, String)> = Vec::new();
    push_pair(&mut out, "print-color-mode", dialog.color_mode.id());
    proof {
        assert(pair_views(out@) =~= seq![("print-color-mode"@, dialog@.color_mode.spec_id())]);
    }
    push_chosen(&mut out, "sides", &dialog.duplex_values, dialog.duplex_index);
    push_pair(&mut out, "copies", to_decimal(dialog.copies as u64).as_str());
    push_pair(
        &mut out,
        "multiple-document-handling",
        if dialog.collate {
            "separate-documents-collated-copies"
        } else {
            "separate-documents-uncollated-copies"
        },
    );
    push_pair(
        &mut out,
        "page-delivery",
        if dialog.reverse_order {
            "reverse-order"
        } else {
            "same-order"
        },
    );
    push_chosen(
        &mut out,
        "print-quality",
        &dialog.print_quality_values,
        dialog.print_quality_index,
    );
    push_pair(&mut out, "print-scaling", dialog.scaling.as_cpdb_str());
    push_number(
        &mut out,
        "number-up",
        u32_at(&pages_per_sheet_values(), dialog.pages_per_sheet_index),
    );
    push_pair(&mut out, "number-up-layout", dialog.layout_direction.id());
    push_pair(&mut out, "page-border", dialog.border.id());
    push_media(&mut out, dialog);
    push_chosen(
        &mut out,
        "media-source",
        &dialog.media_source_values,
        dialog.paper_tray_index,
    );
    push_chosen(&mut out, "media-type", &dialog.media_type_values, dialog.paper_type_index);
    push_margins(&mut out, dialog);
    out
}

/// Adds the size of paper, if one is selected.
fn push_media(out: &mut Vec<(String, String)>, dialog: &PrintDialog)
    ensures
        pair_views(final(out)@) == pair_views(old(out)@) + optional_pair(
            "media"@,
            match selected_size(dialog@) {
                Some(m) => Some(m.name),
                None => None,
            },
        ),
{
    match selected_media(dialog) {
        Some(size) => push_pair(out, "media", size.name.as_str()),
        None => {
            assert(pair_views(out@) =~= pair_views(out@) + Seq::<(Seq<char>, Seq<char>)>::empty());
        },
    }
}

} // verus!
