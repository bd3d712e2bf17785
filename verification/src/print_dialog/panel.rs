//! What the dialog shows: groups of rows, each with a control.

use crate::config::print::{preset_views, PresetView, PrintPreset};
use crate::label::{
    label_views, message_with, plain, plain_message, plain_text, Label, LabelView, Phrase, PhraseView,
};
use crate::print_dialog::choices::{Border, Margins, ScalingMode};
use crate::print_dialog::labels::{
    media_type_label, media_type_text, preset_display_name, preset_text, quality_label, quality_text,
    sides_label, sides_text, tray_label, tray_text,
};
use crate::print_dialog::printers::{printer_views, MediaView, PrinterSnapshot, PrinterView};
use crate::print_dialog::state::{DialogView, PrintDialog};
use crate::text::views;
use vstd::prelude::*;

verus! {

/// What is chosen from a list.
#[derive(Debug, Clone, Copy, PartialEq, Eq, Structural)]
pub enum DropdownKind {
    Printer,
    /// The list that is shown where there is no printer.
    NoPrinters,
    /// A preset, or behind so many of them what is done with presets.
    Preset { count: usize },
    PaperSize,
    Duplex,
    PagesPerSheet,
    Margins,
    VerticalMargins,
    HorizontalMargins,
    Border,
    Scaling,
    PaperTray,
    PaperType,
    PrintQuality,
}

/// A row of buttons of which one is active.
#[derive(Debug, Clone, Copy, PartialEq, Eq, Structural)]
pub enum SegmentsKind {
    Color,
    Orientation,
    LayoutDirection,
}

/// What is counted up and down.
#[derive(Debug, Clone, Copy, PartialEq, Eq, Structural)]
pub enum CounterKind {
    Copies,
    Scaling,
}

/// What is switched.
#[derive(Debug, Clone, Copy, PartialEq, Eq, Structural)]
pub enum ToggleKind {
    Collate,
    HeaderFooter,
    Background,
    ReverseOrder,
}

/// What stands in a row.
#[allow(inconsistent_fields)]
#[derive(Debug, PartialEq, Eq)]
pub enum Control {
    Dropdown { options: Vec<Label>, selected: Option<usize>, kind: DropdownKind },
    /// Nothing can be chosen; the label says what there is.
    Disabled(Label),
    Segments(SegmentsKind),
    /// A button that leads to the selection of pages.
    Pages(Label),
    Counter { value: u32, can_decrement: bool, can_increment: bool, kind: CounterKind },
    Toggle { on: bool, kind: ToggleKind },
}

/// What stands in a row, as a value.
#[allow(inconsistent_fields)]
pub enum ControlView {
    Dropdown { options: Seq<LabelView>, selected: Option<usize>, kind: DropdownKind },
    Disabled(LabelView),
    Segments(SegmentsKind),
    Pages(LabelView),
    Counter { value: u32, can_decrement: bool, can_increment: bool, kind: CounterKind },
    Toggle { on: bool, kind: ToggleKind },
}

impl View for Control {
    type V = ControlView;

    open spec fn view(&self) -> ControlView {
        match self {
            Control::Dropdown { options, selected, kind } => ControlView::Dropdown {
                options: label_views(options@),
                selected: *selected,
                kind: *kind,
            },
            Control::Disabled(label) => ControlView::Disabled(label@),
            Control::Segments(kind) => ControlView::Segments(*kind),
            Control::Pages(label) => ControlView::Pages(label@),
            Control::Counter { value, can_decrement, can_increment, kind } => ControlView::Counter {
                value: *value,
                can_decrement: *can_decrement,
                can_increment: *can_increment,
                kind: *kind,
            },
            Control::Toggle { on, kind } => ControlView::Toggle { on: *on, kind: *kind },
        }
    }
}

/// A control with a label in front of it.
#[derive(Debug, PartialEq, Eq)]
pub struct Row {
    pub label: Option<Label>,
    pub control: Control,
}

/// A control with a label in front of it, as a value.
pub struct RowView {
    pub label: Option<LabelView>,
    pub control: ControlView,
}

impl View for Row {
    type V = RowView;

    open spec fn view(&self) -> RowView {
        RowView {
            label: match self.label {
                Some(label) => Some(label@),
                None => None,
            },
            control: self.control@,
        }
    }
}

/// Rows, as values.
pub open spec fn row_views(rows: Seq<Row>) -> Seq<RowView> {
    rows.map_values(|row: Row| row@)
}

/// Items that each are rows without a line between them, as values.
pub open spec fn item_views(items: Seq<Vec<Row>>) -> Seq<Seq<RowView>> {
    items.map_values(|item: Vec<Row>| row_views(item@))
}

/// A group of items.
#[derive(Debug, PartialEq, Eq)]
pub struct Group {
    pub title: Option<Label>,
    pub items: Vec<Vec<Row>>,
}

/// A group of items, as a value.
pub struct GroupView {
    pub title: Option<LabelView>,
    pub items: Seq<Seq<RowView>>,
}

impl View for Group {
    type V = GroupView;

    open spec fn view(&self) -> GroupView {
        GroupView {
            title: match self.title {
                Some(title) => Some(title@),
                None => None,
            },
            items: item_views(self.items@),
        }
    }
}

/// Groups, as values.
pub open spec fn group_views(groups: Seq<Group>) -> Seq<GroupView> {
    groups.map_values(|group: Group| group@)
}

/// A row with a message in front.
pub open spec fn row(id: Seq<char>, control: ControlView) -> RowView {
    RowView { label: Some(plain_message(id)), control }
}

/// A row without a label.
pub open spec fn bare_row(control: ControlView) -> RowView {
    RowView { label: None, control }
}

/// What is chosen from the values of an option: nothing where there are less than two.
pub open spec fn choice_control(
    labels: Seq<LabelView>,
    selected: Option<usize>,
    kind: DropdownKind,
) -> ControlView {
    if labels.len() == 0 {
        ControlView::Disabled(plain_message("not-supported"@))
    } else if labels.len() == 1 {
        ControlView::Disabled(labels[0])
    } else {
        ControlView::Dropdown { options: labels, selected, kind }
    }
}

/// The list of printers.
pub open spec fn printer_control(d: DialogView) -> ControlView {
    if d.printers.len() == 0 {
        ControlView::Dropdown {
            options: seq![plain_message("no-printers-found"@)],
            selected: Some(0usize),
            kind: DropdownKind::NoPrinters,
        }
    } else {
        ControlView::Dropdown {
            options: d.printers.map_values(|printer: PrinterView| plain(printer.name)),
            selected: d.selected_printer_index,
            kind: DropdownKind::Printer,
        }
    }
}

/// The list of presets, with what can be done with them behind.
pub open spec fn preset_control(d: DialogView) -> ControlView {
    ControlView::Dropdown {
        options: d.presets.map_values(|preset: PresetView| preset_text(preset)).push(
            plain_message("save-preset-action"@),
        ).push(plain_message("edit-presets-action"@)),
        selected: d.selected_preset_index,
        kind: DropdownKind::Preset { count: d.presets.len() as usize },
    }
}

/// The sizes of paper.
pub open spec fn size_labels(d: DialogView) -> Seq<LabelView> {
    match d.printer_media {
        Some(media) => media.map_values(|size: MediaView| plain_text(size.name)),
        None => Seq::empty(),
    }
}

/// The labels of margins.
pub open spec fn margin_labels(margins: Seq<u32>) -> Seq<LabelView> {
    margins.map_values(
        |m: u32| message_with("margin-value"@, "mm"@, PhraseView::Millimetres(m)),
    )
}

/// The numbers of pages on a sheet.
pub open spec fn pages_per_sheet_labels() -> Seq<LabelView> {
    seq![
        plain_text("1"@),
        plain_text("2"@),
        plain_text("4"@),
        plain_text("6"@),
        plain_text("9"@),
        plain_text("16"@),
    ]
}

/// Destination and presets.
pub open spec fn top_group(d: DialogView) -> GroupView {
    GroupView {
        title: None,
        items: seq![
            seq![row("destination"@, printer_control(d))],
            seq![row("preset"@, preset_control(d))],
        ],
    }
}

/// Items that are there only where something is printed on paper.
pub open spec fn unless_pdf(d: DialogView, items: Seq<Seq<RowView>>) -> Seq<Seq<RowView>> {
    if d.pdf_selected() {
        Seq::empty()
    } else {
        items
    }
}

/// Items that are there only under a condition.
pub open spec fn items_if(condition: bool, items: Seq<Seq<RowView>>) -> Seq<Seq<RowView>> {
    if condition {
        items
    } else {
        Seq::empty()
    }
}

/// How many copies are printed.
pub open spec fn copies_control(d: DialogView) -> ControlView {
    ControlView::Counter {
        value: d.copies,
        can_decrement: d.copies > 1,
        can_increment: d.copies < 9999,
        kind: CounterKind::Copies,
    }
}

/// A switch.
pub open spec fn toggle(on: bool, kind: ToggleKind) -> ControlView {
    ControlView::Toggle { on, kind }
}

/// The primary settings.
pub open spec fn primary_group(d: DialogView) -> GroupView {
    GroupView {
        title: None,
        items: seq![
            seq![
                bare_row(ControlView::Segments(SegmentsKind::Color)),
                bare_row(ControlView::Segments(SegmentsKind::Orientation)),
            ],
            seq![row("pages"@, ControlView::Pages(d.page_selection.summary()))],
        ] + unless_pdf(
            d,
            seq![
                seq![row("copies"@, copies_control(d))],
                seq![row("collate"@, toggle(d.collate, ToggleKind::Collate))],
            ],
        ) + seq![
            seq![
                row(
                    "paper-size"@,
                    choice_control(
                        size_labels(d),
                        d.selected_paper_size_index,
                        DropdownKind::PaperSize,
                    ),
                ),
            ],
        ] + unless_pdf(
            d,
            seq![
                seq![
                    row(
                        "print-on-sides"@,
                        choice_control(
                            d.duplex_values.map_values(
                                |v: Seq<char>| sides_text(d.translations, v),
                            ),
                            d.duplex_index,
                            DropdownKind::Duplex,
                        ),
                    ),
                ],
            ],
        ),
    }
}

/// The margins to choose from.
pub open spec fn margins_row(d: DialogView) -> RowView {
    row(
        "margins"@,
        ControlView::Dropdown {
            options: Margins::spec_all().map_values(|m: Margins| m.spec_label()),
            selected: Some(d.margins.spec_index() as usize),
            kind: DropdownKind::Margins,
        },
    )
}

/// The margins to choose from, and with custom ones those on the sides.
pub open spec fn margins_item(d: DialogView) -> Seq<RowView> {
    if d.margins == Margins::Custom {
        seq![
            margins_row(d),
            row(
                "margin-vertical"@,
                ControlView::Dropdown {
                    options: margin_labels(d.margin_options.top),
                    selected: d.custom_margins_vertical_index,
                    kind: DropdownKind::VerticalMargins,
                },
            ),
            row(
                "margin-horizontal"@,
                ControlView::Dropdown {
                    options: margin_labels(d.margin_options.left),
                    selected: d.custom_margins_horizontal_index,
                    kind: DropdownKind::HorizontalMargins,
                },
            ),
        ]
    } else {
        seq![margins_row(d)]
    }
}

/// The borders to choose from.
pub open spec fn border_row(d: DialogView) -> RowView {
    row(
        "border"@,
        ControlView::Dropdown {
            options: Border::spec_all().map_values(|b: Border| b.spec_label()),
            selected: Some(d.border.spec_index() as usize),
            kind: DropdownKind::Border,
        },
    )
}

/// The scalings to choose from.
pub open spec fn scaling_row(d: DialogView) -> RowView {
    row(
        "scaling"@,
        ControlView::Dropdown {
            options: ScalingMode::spec_all().map_values(|s: ScalingMode| s.spec_label()),
            selected: Some(d.scaling.spec_index() as usize),
            kind: DropdownKind::Scaling,
        },
    )
}

/// The scalings to choose from, and with a custom one the percentage.
pub open spec fn scaling_item(d: DialogView) -> Seq<RowView> {
    if d.scaling == ScalingMode::Custom {
        seq![
            scaling_row(d),
            bare_row(
                ControlView::Counter {
                    value: d.custom_scaling_input,
                    can_decrement: d.custom_scaling_input > 1,
                    can_increment: true,
                    kind: CounterKind::Scaling,
                },
            ),
        ]
    } else {
        seq![scaling_row(d)]
    }
}

/// The layout.
pub open spec fn layout_group(d: DialogView) -> GroupView {
    GroupView {
        title: Some(plain_message("layout"@)),
        items: seq![
            seq![
                row(
                    "pages-per-sheet"@,
                    ControlView::Dropdown {
                        options: pages_per_sheet_labels(),
                        selected: d.pages_per_sheet_index,
                        kind: DropdownKind::PagesPerSheet,
                    },
                ),
            ],
        ] + unless_pdf(
            d,
            seq![
                seq![row("layout-direction"@, ControlView::Segments(SegmentsKind::LayoutDirection))],
            ],
        ) + seq![margins_item(d), seq![border_row(d)], scaling_item(d)] + items_if(
            d.show_print_header_footer_toggle,
            seq![
                seq![
                    row(
                        "print-header-footer"@,
                        toggle(d.print_header_footer, ToggleKind::HeaderFooter),
                    ),
                ],
            ],
        ) + items_if(
            d.show_print_background_toggle,
            seq![
                seq![row("print-background"@, toggle(d.print_background, ToggleKind::Background))],
            ],
        ),
    }
}

/// Paper handling.
pub open spec fn paper_group(d: DialogView) -> GroupView {
    GroupView {
        title: Some(plain_message("paper-handling"@)),
        items: seq![
            seq![row("reverse-order"@, toggle(d.reverse_order, ToggleKind::ReverseOrder))],
            seq![
                row(
                    "paper-tray"@,
                    choice_control(
                        d.media_source_values.map_values(
                            |v: Seq<char>| tray_text(d.translations, v),
                        ),
                        d.paper_tray_index,
                        DropdownKind::PaperTray,
                    ),
                ),
            ],
            seq![
                row(
                    "paper-type"@,
                    choice_control(
                        d.media_type_values.map_values(
                            |v: Seq<char>| media_type_text(d.translations, v),
                        ),
                        d.paper_type_index,
                        DropdownKind::PaperType,
                    ),
                ),
            ],
            seq![
                row(
                    "print-quality"@,
                    choice_control(
                        d.print_quality_values.map_values(
                            |v: Seq<char>| quality_text(d.translations, v),
                        ),
                        d.print_quality_index,
                        DropdownKind::PrintQuality,
                    ),
                ),
            ],
        ],
    }
}

/// All options of the dialog. How paper is handled is left out where none is printed on.
pub open spec fn options_panel(d: DialogView) -> Seq<GroupView> {
    let always = seq![top_group(d), primary_group(d), layout_group(d)];
    if d.pdf_selected() {
        always
    } else {
        always.push(paper_group(d))
    }
}

/// A row with a message in front.
fn make_row(id: &'static str, control: Control) -> (r: Row)
    ensures
        r@ == row(id@, control@),
{
    Row { label: Some(Label::message(id)), control }
}

/// A row without a label.
fn make_bare_row(control: Control) -> (r: Row)
    ensures
        r@ == bare_row(control@),
{
    Row { label: None, control }
}

/// Adds an item that is one row.
fn push_row(items: &mut Vec<Vec<Row>>, row: Row)
    ensures
        item_views(final(items)@) == item_views(old(items)@).push(seq![row@]),
{
    let mut item: Vec<Row> = Vec::new();
    item.push(row);
    push_item(items, item);
    proof {
        assert(row_views(item@) =~= seq![row@]);
    }
}

/// Adds an item.
fn push_item(items: &mut Vec<Vec<Row>>, item: Vec<Row>)
    ensures
        item_views(final(items)@) == item_views(old(items)@).push(row_views(item@)),
{
    let ghost before = items@;
    items.push(item);
    proof {
        assert(item_views(items@) =~= item_views(before).push(row_views(item@)));
    }
}

/// Adds a label.
fn push_label(labels: &mut Vec<Label>, label: Label)
    ensures
        label_views(final(labels)@) == label_views(old(labels)@).push(label@),
{
    let ghost before = labels@;
    labels.push(label);
    proof {
        assert(label_views(labels@) =~= label_views(before).push(label@));
    }
}

/// No labels.
fn no_labels() -> (r: Vec<Label>)
    ensures
        label_views(r@) == Seq::<LabelView>::empty(),
{
    let r: Vec<Label> = Vec::new();
    assert(label_views(r@) =~= Seq::<LabelView>::empty());
    r
}

/// What is chosen from the values of an option: nothing where there are less than two.
fn make_choice(labels: Vec<Label>, selected: Option<usize>, kind: DropdownKind) -> (r: Control)
    ensures
        r@ == choice_control(label_views(labels@), selected, kind),
{
    let mut labels = labels;
    if labels.len() == 0 {
        Control::Disabled(Label::message("not-supported"))
    } else if labels.len() == 1 {
        let ghost all = labels@;
        assert(label_views(all)[0] == all[0]@);
        Control::Disabled(labels.remove(0))
    } else {
        Control::Dropdown { options: labels, selected, kind }
    }
}

/// The list of printers.
fn make_printer_control(printers: &Vec<PrinterSnapshot>, selected: Option<usize>) -> (r: Control)
    ensures
        r@ == if printers@.len() == 0 {
            ControlView::Dropdown {
                options: seq![plain_message("no-printers-found"@)],
                selected: Some(0usize),
                kind: DropdownKind::NoPrinters,
            }
        } else {
            ControlView::Dropdown {
                options: printer_views(printers@).map_values(
                    |printer: PrinterView| plain(printer.name),
                ),
                selected,
                kind: DropdownKind::Printer,
            }
        },
{
    let mut options = no_labels();
    if printers.len() == 0 {
        push_label(&mut options, Label::message("no-printers-found"));
        proof {
            assert(label_views(options@) =~= seq![plain_message("no-printers-found"@)]);
        }
        return Control::Dropdown { options, selected: Some(0), kind: DropdownKind::NoPrinters };
    }
    let ghost all = printer_views(printers@).map_values(
        |printer: PrinterView| plain(printer.name),
    );
    let mut i: usize = 0;
    while i < printers.len()
        invariant
            i <= printers@.len(),
            all == printer_views(printers@).map_values(
                |printer: PrinterView| plain(printer.name),
            ),
            label_views(options@) == all.take(i as int),
        decreases printers@.len() - i,
    {
        let label = Label::from_phrase(printers[i].name.clone());
        proof {
            assert(all[i as int] == label@);
            assert(all.take(i + 1) =~= all.take(i as int).push(label@));
        }
        push_label(&mut options, label);
        i = i + 1;
    }
    proof {
        assert(all.take(all.len() as int) =~= all);
    }
    Control::Dropdown { options, selected, kind: DropdownKind::Printer }
}

/// The list of presets, with what can be done with them behind.
fn make_preset_control(presets: &Vec<PrintPreset>, selected: Option<usize>) -> (r: Control)
    ensures
        r@ == (ControlView::Dropdown {
            options: preset_views(presets@).map_values(
                |preset: PresetView| preset_text(preset),
            ).push(plain_message("save-preset-action"@)).push(
                plain_message("edit-presets-action"@),
            ),
            selected,
            kind: DropdownKind::Preset { count: presets@.len() as usize },
        }),
{
    let mut options = no_labels();
    let ghost all = preset_views(presets@).map_values(|preset: PresetView| preset_text(preset));
    let mut i: usize = 0;
    while i < presets.len()
        invariant
            i <= presets@.len(),
            all == preset_views(presets@).map_values(|preset: PresetView| preset_text(preset)),
            label_views(options@) == all.take(i as int),
        decreases presets@.len() - i,
    {
        let label = preset_display_name(&presets[i]);
        proof {
            assert(all[i as int] == label@);
            assert(all.take(i + 1) =~= all.take(i as int).push(label@));
        }
        push_label(&mut options, label);
        i = i + 1;
    }
    proof {
        assert(all.take(all.len() as int) =~= all);
    }
    push_label(&mut options, Label::message("save-preset-action"));
    push_label(&mut options, Label::message("edit-presets-action"));
    Control::Dropdown { options, selected, kind: DropdownKind::Preset { count: presets.len() } }
}

/// Destination and presets.
fn make_top_group(dialog: &PrintDialog) -> (r: Group)
    ensures
        r@ == top_group(dialog@),
{
    proof {
        reveal(PrintDialog::model);
    }
    let mut items: Vec<Vec<Row>> = Vec::new();
    push_row(
        &mut items,
        make_row(
            "destination",
            make_printer_control(&dialog.printers, dialog.selected_printer_index),
        ),
    );
    push_row(
        &mut items,
        make_row("preset", make_preset_control(&dialog.presets, dialog.selected_preset_index)),
    );
    let r = Group { title: None, items };
    assert(r@.items =~= top_group(dialog@).items);
    r
}

/// The labels of the sizes of paper.
fn make_size_labels(dialog: &PrintDialog) -> (r: Vec<Label>)
    ensures
        label_views(r@) == size_labels(dialog@),
{
    proof {
        reveal(PrintDialog::model);
    }
    let mut labels = no_labels();
    if let Some(media) = &dialog.printer_media {
        let ghost all = media@.map_values(|size: MediaView| plain_text(size.name));
        let mut i: usize = 0;
        while i < media.media.len()
            invariant
                i <= media.media@.len(),
                all == media@.map_values(|size: MediaView| plain_text(size.name)),
                label_views(labels@) == all.take(i as int),
            decreases media.media@.len() - i,
        {
            let label = Label::text(media.media[i].name.clone());
            proof {
                assert(all[i as int] == label@);
                assert(all.take(i + 1) =~= all.take(i as int).push(label@));
            }
            push_label(&mut labels, label);
            i = i + 1;
        }
        proof {
            assert(all.take(all.len() as int) =~= all);
        }
    }
    labels
}

/// The labels of the numbers of sides.
fn make_sides_labels(dialog: &PrintDialog) -> (r: Vec<Label>)
    ensures
        label_views(r@) == dialog@.duplex_values.map_values(
            |v: Seq<char>| sides_text(dialog@.translations, v),
        ),
{
    proof {
        reveal(PrintDialog::model);
    }
    let mut labels = no_labels();
    let ghost all = dialog@.duplex_values.map_values(
        |v: Seq<char>| sides_text(dialog@.translations, v),
    );
    let mut i: usize = 0;
    while i < dialog.duplex_values.len()
        invariant
            i <= dialog.duplex_values@.len(),
            dialog@.duplex_values == views(dialog.duplex_values@),
            all == dialog@.duplex_values.map_values(
                |v: Seq<char>| sides_text(dialog@.translations, v),
            ),
            label_views(labels@) == all.take(i as int),
        decreases dialog.duplex_values@.len() - i,
    {
        let label = sides_label(dialog, dialog.duplex_values[i].as_str());
        proof {
            assert(all[i as int] == label@);
            assert(all.take(i + 1) =~= all.take(i as int).push(label@));
        }
        push_label(&mut labels, label);
        i = i + 1;
    }
    proof {
        assert(all.take(all.len() as int) =~= all);
    }
    labels
}

/// The labels of the paper trays.
fn make_tray_labels(dialog: &PrintDialog) -> (r: Vec<Label>)
    ensures
        label_views(r@) == dialog@.media_source_values.map_values(
            |v: Seq<char>| tray_text(dialog@.translations, v),
        ),
{
    proof {
        reveal(PrintDialog::model);
    }
    let mut labels = no_labels();
    let ghost all = dialog@.media_source_values.map_values(
        |v: Seq<char>| tray_text(dialog@.translations, v),
    );
    let mut i: usize = 0;
    while i < dialog.media_source_values.len()
        invariant
            i <= dialog.media_source_values@.len(),
            dialog@.media_source_values == views(dialog.media_source_values@),
            all == dialog@.media_source_values.map_values(
                |v: Seq<char>| tray_text(dialog@.translations, v),
            ),
            label_views(labels@) == all.take(i as int),
        decreases dialog.media_source_values@.len() - i,
    {
        let label = tray_label(dialog, dialog.media_source_values[i].as_str());
        proof {
            assert(all[i as int] == label@);
            assert(all.take(i + 1) =~= all.take(i as int).push(label@));
        }
        push_label(&mut labels, label);
        i = i + 1;
    }
    proof {
        assert(all.take(all.len() as int) =~= all);
    }
    labels
}

/// The labels of the types of paper.
fn make_type_labels(dialog: &PrintDialog) -> (r: Vec<Label>)
    ensures
        label_views(r@) == dialog@.media_type_values.map_values(
            |v: Seq<char>| media_type_text(dialog@.translations, v),
        ),
{
    proof {
        reveal(PrintDialog::model);
    }
    let mut labels = no_labels();
    let ghost all = dialog@.media_type_values.map_values(
        |v: Seq<char>| media_type_text(dialog@.translations, v),
    );
    let mut i: usize = 0;
    while i < dialog.media_type_values.len()
        invariant
            i <= dialog.media_type_values@.len(),
            dialog@.media_type_values == views(dialog.media_type_values@),
            all == dialog@.media_type_values.map_values(
                |v: Seq<char>| media_type_text(dialog@.translations, v),
            ),
            label_views(labels@) == all.take(i as int),
        decreases dialog.media_type_values@.len() - i,
    {
        let label = media_type_label(dialog, dialog.media_type_values[i].as_str());
        proof {
            assert(all[i as int] == label@);
            assert(all.take(i + 1) =~= all.take(i as int).push(label@));
        }
        push_label(&mut labels, label);
        i = i + 1;
    }
    proof {
        assert(all.take(all.len() as int) =~= all);
    }
    labels
}

/// The labels of the qualities.
fn make_quality_labels(dialog: &PrintDialog) -> (r: Vec<Label>)
    ensures
        label_views(r@) == dialog@.print_quality_values.map_values(
            |v: Seq<char>| quality_text(dialog@.translations, v),
        ),
{
    proof {
        reveal(PrintDialog::model);
    }
    let mut labels = no_labels();
    let ghost all = dialog@.print_quality_values.map_values(
        |v: Seq<char>| quality_text(dialog@.translations, v),
    );
    let mut i: usize = 0;
    while i < dialog.print_quality_values.len()
        invariant
            i <= dialog.print_quality_values@.len(),
            dialog@.print_quality_values == views(dialog.print_quality_values@),
            all == dialog@.print_quality_values.map_values(
                |v: Seq<char>| quality_text(dialog@.translations, v),
            ),
            label_views(labels@) == all.take(i as int),
        decreases dialog.print_quality_values@.len() - i,
    {
        let label = quality_label(dialog, dialog.print_quality_values[i].as_str());
        proof {
            assert(all[i as int] == label@);
            assert(all.take(i + 1) =~= all.take(i as int).push(label@));
        }
        push_label(&mut labels, label);
        i = i + 1;
    }
    proof {
        assert(all.take(all.len() as int) =~= all);
    }
    labels
}

/// The primary settings.
fn make_primary_group(dialog: &PrintDialog) -> (r: Group)
    ensures
        r@ == primary_group(dialog@),
{
    let is_pdf = dialog.is_pdf_selected();
    let sizes = make_size_labels(dialog);
    let sides = make_sides_labels(dialog);
    proof {
        reveal(PrintDialog::model);
    }
    let mut items: Vec<Vec<Row>> = Vec::new();
    let mut sliders: Vec<Row> = Vec::new();
    sliders.push(make_bare_row(Control::Segments(SegmentsKind::Color)));
    sliders.push(make_bare_row(Control::Segments(SegmentsKind::Orientation)));
    proof {
        assert(row_views(sliders@) =~= seq![
            bare_row(ControlView::Segments(SegmentsKind::Color)),
            bare_row(ControlView::Segments(SegmentsKind::Orientation)),
        ]);
    }
    push_item(&mut items, sliders);
    push_row(&mut items, make_row("pages", Control::Pages(dialog.page_selection.summary())));
    if !is_pdf {
        push_row(
            &mut items,
            make_row(
                "copies",
                Control::Counter {
                    value: dialog.copies,
                    can_decrement: dialog.copies > 1,
                    can_increment: dialog.copies < 9999,
                    kind: CounterKind::Copies,
                },
            ),
        );
        push_row(
            &mut items,
            make_row("collate", Control::Toggle { on: dialog.collate, kind: ToggleKind::Collate }),
        );
    }
    push_row(
        &mut items,
        make_row(
            "paper-size",
            make_choice(sizes, dialog.selected_paper_size_index, DropdownKind::PaperSize),
        ),
    );
    if !is_pdf {
        push_row(
            &mut items,
            make_row(
                "print-on-sides",
                make_choice(sides, dialog.duplex_index, DropdownKind::Duplex),
            ),
        );
    }
    let r = Group { title: None, items };
    assert(r@.items =~= primary_group(dialog@).items);
    r
}

/// The labels of margins.
fn make_margin_labels(margins: &Vec<u32>) -> (r: Vec<Label>)
    ensures
        label_views(r@) == margin_labels(margins@),
{
    let mut labels = no_labels();
    let ghost all = margin_labels(margins@);
    let mut i: usize = 0;
    while i < margins.len()
        invariant
            i <= margins@.len(),
            all == margin_labels(margins@),
            label_views(labels@) == all.take(i as int),
        decreases margins@.len() - i,
    {
        let label = Label::message_with("margin-value", "mm", Phrase::Millimetres(margins[i]));
        proof {
            assert(all[i as int] == label@);
            assert(all.take(i + 1) =~= all.take(i as int).push(label@));
        }
        push_label(&mut labels, label);
        i = i + 1;
    }
    proof {
        assert(all.take(all.len() as int) =~= all);
    }
    labels
}

/// The margins to choose from, and with custom ones those on the sides.
fn make_margins_item(dialog: &PrintDialog) -> (r: Vec<Row>)
    ensures
        row_views(r@) == margins_item(dialog@),
{
    proof {
        reveal(PrintDialog::model);
    }
    let mut options = no_labels();
    push_label(&mut options, Margins::Default.label());
    push_label(&mut options, Margins::NoMargins.label());
    push_label(&mut options, Margins::Minimum.label());
    push_label(&mut options, Margins::Custom.label());
    proof {
        assert(label_views(options@) =~= Margins::spec_all().map_values(
            |m: Margins| m.spec_label(),
        ));
    }
    let mut item: Vec<Row> = Vec::new();
    item.push(
        make_row(
            "margins",
            Control::Dropdown {
                options,
                selected: Some(dialog.margins.index()),
                kind: DropdownKind::Margins,
            },
        ),
    );
    if dialog.margins == Margins::Custom {
        item.push(
            make_row(
                "margin-vertical",
                Control::Dropdown {
                    options: make_margin_labels(&dialog.margin_options.top),
                    selected: dialog.custom_margins_vertical_index,
                    kind: DropdownKind::VerticalMargins,
                },
            ),
        );
        item.push(
            make_row(
                "margin-horizontal",
                Control::Dropdown {
                    options: make_margin_labels(&dialog.margin_options.left),
                    selected: dialog.custom_margins_horizontal_index,
                    kind: DropdownKind::HorizontalMargins,
                },
            ),
        );
    }
    assert(row_views(item@) =~= margins_item(dialog@));
    item
}

/// The borders to choose from.
fn make_border_row(dialog: &PrintDialog) -> (r: Row)
    ensures
        r@ == border_row(dialog@),
{
    proof {
        reveal(PrintDialog::model);
    }
    let mut options = no_labels();
    push_label(&mut options, Border::NoBorder.label());
    push_label(&mut options, Border::Single.label());
    push_label(&mut options, Border::Double.label());
    proof {
        assert(label_views(options@) =~= Border::spec_all().map_values(|b: Border| b.spec_label()));
    }
    make_row(
        "border",
        Control::Dropdown {
            options,
            selected: Some(dialog.border.index()),
            kind: DropdownKind::Border,
        },
    )
}

/// The scalings to choose from, and with a custom one the percentage.
fn make_scaling_item(dialog: &PrintDialog) -> (r: Vec<Row>)
    ensures
        row_views(r@) == scaling_item(dialog@),
{
    proof {
        reveal(PrintDialog::model);
    }
    let mut options = no_labels();
    push_label(&mut options, ScalingMode::Auto.label());
    push_label(&mut options, ScalingMode::AutoFit.label());
    push_label(&mut options, ScalingMode::Fit.label());
    push_label(&mut options, ScalingMode::Fill.label());
    push_label(&mut options, ScalingMode::Custom.label());
    proof {
        assert(label_views(options@) =~= ScalingMode::spec_all().map_values(
            |s: ScalingMode| s.spec_label(),
        ));
    }
    let mut item: Vec<Row> = Vec::new();
    item.push(
        make_row(
            "scaling",
            Control::Dropdown {
                options,
                selected: Some(dialog.scaling.index()),
                kind: DropdownKind::Scaling,
            },
        ),
    );
    if dialog.scaling == ScalingMode::Custom {
        item.push(
            make_bare_row(
                Control::Counter {
                    value: dialog.custom_scaling_input,
                    can_decrement: dialog.custom_scaling_input > 1,
                    can_increment: true,
                    kind: CounterKind::Scaling,
                },
            ),
        );
    }
    assert(row_views(item@) =~= scaling_item(dialog@));
    item
}

/// The numbers of pages on a sheet.
fn make_pages_per_sheet_labels() -> (r: Vec<Label>)
    ensures
        label_views(r@) == pages_per_sheet_labels(),
{
    let mut labels = no_labels();
    push_label(&mut labels, Label::text("1".to_owned()));
    push_label(&mut labels, Label::text("2".to_owned()));
    push_label(&mut labels, Label::text("4".to_owned()));
    push_label(&mut labels, Label::text("6".to_owned()));
    push_label(&mut labels, Label::text("9".to_owned()));
    push_label(&mut labels, Label::text("16".to_owned()));
    assert(label_views(labels@) =~= pages_per_sheet_labels());
    labels
}

/// The layout.
fn make_layout_group(dialog: &PrintDialog) -> (r: Group)
    ensures
        r@ == layout_group(dialog@),
{
    let is_pdf = dialog.is_pdf_selected();
    let margins = make_margins_item(dialog);
    let border = make_border_row(dialog);
    let scaling = make_scaling_item(dialog);
    proof {
        reveal(PrintDialog::model);
    }
    let mut items: Vec<Vec<Row>> = Vec::new();
    push_row(
        &mut items,
        make_row(
            "pages-per-sheet",
            Control::Dropdown {
                options: make_pages_per_sheet_labels(),
                selected: dialog.pages_per_sheet_index,
                kind: DropdownKind::PagesPerSheet,
            },
        ),
    );
    if !is_pdf {
        push_row(
            &mut items,
            make_row("layout-direction", Control::Segments(SegmentsKind::LayoutDirection)),
        );
    }
    push_item(&mut items, margins);
    push_row(&mut items, border);
    push_item(&mut items, scaling);
    if dialog.show_print_header_footer_toggle {
        push_row(
            &mut items,
            make_row(
                "print-header-footer",
                Control::Toggle { on: dialog.print_header_footer, kind: ToggleKind::HeaderFooter },
            ),
        );
    }
    if dialog.show_print_background_toggle {
        push_row(
            &mut items,
            make_row(
                "print-background",
                Control::Toggle { on: dialog.print_background, kind: ToggleKind::Background },
            ),
        );
    }
    let r = Group { title: Some(Label::message("layout")), items };
    assert(r@.items =~= layout_group(dialog@).items);
    r
}

/// Paper handling.
fn make_paper_group(dialog: &PrintDialog) -> (r: Group)
    ensures
        r@ == paper_group(dialog@),
{
    let trays = make_tray_labels(dialog);
    let types = make_type_labels(dialog);
    let qualities = make_quality_labels(dialog);
    proof {
        reveal(PrintDialog::model);
    }
    let mut items: Vec<Vec<Row>> = Vec::new();
    push_row(
        &mut items,
        make_row(
            "reverse-order",
            Control::Toggle { on: dialog.reverse_order, kind: ToggleKind::ReverseOrder },
        ),
    );
    push_row(
        &mut items,
        make_row(
            "paper-tray",
            make_choice(trays, dialog.paper_tray_index, DropdownKind::PaperTray),
        ),
    );
    push_row(
        &mut items,
        make_row(
            "paper-type",
            make_choice(types, dialog.paper_type_index, DropdownKind::PaperType),
        ),
    );
    push_row(
        &mut items,
        make_row(
            "print-quality",
            make_choice(qualities, dialog.print_quality_index, DropdownKind::PrintQuality),
        ),
    );
    let r = Group { title: Some(Label::message("paper-handling")), items };
    assert(r@.items =~= paper_group(dialog@).items);
    r
}

/// All options of the dialog.
pub fn view_options_panel(dialog: &PrintDialog) -> (r: Vec<Group>)
    ensures
        group_views(r@) == options_panel(dialog@),
{
    let mut groups: Vec<Group> = Vec::new();
    groups.push(make_top_group(dialog));
    groups.push(make_primary_group(dialog));
    groups.push(make_layout_group(dialog));
    if !dialog.is_pdf_selected() {
        groups.push(make_paper_group(dialog));
    }
    assert(group_views(groups@) =~= options_panel(dialog@));
    groups
}

/// Whether a control stands at a place in the panel.
pub open spec fn stands_at(groups: Seq<GroupView>, g: int, i: int, j: int, control: ControlView) -> bool {
    &&& 0 <= g < groups.len()
    &&& 0 <= i < groups[g].items.len()
    &&& 0 <= j < groups[g].items[i].len()
    &&& groups[g].items[i][j].control == control
}

/// For a printer with paper, the panel shows how many copies are set, and whether they are collated and
/// in reverse order; fewer copies than one or more than 9999 cannot be set. There are neither copies nor
/// the handling of paper for a printer that writes a file.
pub proof fn law_panel_shows_what_is_set(d: DialogView)
    ensures
        !d.pdf_selected() ==> {
            &&& stands_at(
                options_panel(d),
                1,
                2,
                0,
                ControlView::Counter {
                    value: d.copies,
                    can_decrement: d.copies > 1,
                    can_increment: d.copies < 9999,
                    kind: CounterKind::Copies,
                },
            )
            &&& stands_at(
                options_panel(d),
                1,
                3,
                0,
                ControlView::Toggle { on: d.collate, kind: ToggleKind::Collate },
            )
            &&& stands_at(
                options_panel(d),
                3,
                0,
                0,
                ControlView::Toggle { on: d.reverse_order, kind: ToggleKind::ReverseOrder },
            )
        },
        d.pdf_selected() ==> options_panel(d).len() == 3,
        stands_at(options_panel(d), 1, 1, 0, ControlView::Pages(d.page_selection.summary())),
{
    let panel = options_panel(d);
    if !d.pdf_selected() {
        assert(panel[1].items[2] == seq![row("copies"@, copies_control(d))]);
        assert(stands_at(
            panel,
            1,
            2,
            0,
            ControlView::Counter {
                value: d.copies,
                can_decrement: d.copies > 1,
                can_increment: d.copies < 9999,
                kind: CounterKind::Copies,
            },
        ));
        assert(panel[1].items[3] == seq![row("collate"@, toggle(d.collate, ToggleKind::Collate))]);
        assert(stands_at(
            panel,
            1,
            3,
            0,
            ControlView::Toggle { on: d.collate, kind: ToggleKind::Collate },
        ));
    }
}

/// The entry that a list shows as selected is the choice that is set.
pub proof fn law_lists_show_the_choice(d: DialogView)
    ensures
        margins_row(d).control matches ControlView::Dropdown { options, selected: Some(i), kind }
            && kind is Margins && i < options.len() && options[i as int] == d.margins.spec_label(),
        border_row(d).control matches ControlView::Dropdown { options, selected: Some(i), kind }
            && kind is Border && i < options.len() && options[i as int] == d.border.spec_label(),
        scaling_row(d).control matches ControlView::Dropdown { options, selected: Some(i), kind }
            && kind is Scaling && i < options.len() && options[i as int] == d.scaling.spec_label(),
        d.margins is Custom <==> margins_item(d).len() > 1,
        d.scaling is Custom <==> scaling_item(d).len() > 1,
        d.printer_media matches Some(media) ==> size_labels(d).len() == media.len(),
        preset_control(d) matches ControlView::Dropdown { options, selected, kind } && options.len()
            == d.presets.len() + 2 && selected == d.selected_preset_index,
{
}

/// A list of sizes or of presets has its entries in the order of the sizes and the presets.
pub proof fn law_entries_are_in_order(d: DialogView, i: int)
    ensures
        d.printer_media matches Some(media) ==> (0 <= i < media.len() ==> size_labels(d)[i]
            == plain_text(media[i].name)),
        0 <= i < d.presets.len() && !d.presets[i].is_builtin ==> (
        preset_control(d) matches ControlView::Dropdown { options, .. } && options[i] == plain_text(
            d.presets[i].name,
        )),
        0 <= i < d.margin_options.top.len() ==> margin_labels(d.margin_options.top)[i].arguments
            == seq![("mm"@, PhraseView::Millimetres(d.margin_options.top[i]))],
{
}

} // verus!
