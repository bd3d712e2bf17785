//! The parts of the dialog besides its options, and the messages that controls send.

use crate::config::print::{preset_views, PresetView};
use crate::label::{plain_message, plain_text, Label, LabelView, Phrase, PhraseView};
use crate::print_dialog::choices::{ActiveView, Border, Margins, PageSetSelection, ScalingMode};
use crate::print_dialog::panel::{CounterKind, DropdownKind, SegmentsKind, ToggleKind};
use crate::print_dialog::printers::{
    is_pdf_printer, printer_state_icon, printer_state_label, PrinterSnapshot,
};
use crate::print_dialog::state::{DialogView, PrintDialog};
use crate::print_dialog::update::{row_field, step, Msg};
use crate::text::{concat, to_decimal, trim, trimmed};
use vstd::prelude::*;

verus! {

/// What stands behind everything else.
#[derive(Debug, Clone, Copy, PartialEq, Eq, Structural)]
pub enum Base {
    Main,
    PageSelection,
}

/// What stands in front.
#[derive(Debug, Clone, Copy, PartialEq, Eq, Structural)]
pub enum Overlay {
    Hidden,
    SavePreset,
    /// The list of presets; a press beside it may take over a name that is being typed.
    EditPresets { commit_on_press: bool },
}

/// What the dialog shows.
pub open spec fn screen(d: DialogView) -> (Base, Overlay) {
    match d.active_view {
        ActiveView::Main => (Base::Main, Overlay::Hidden),
        ActiveView::PageSelection => (Base::PageSelection, Overlay::Hidden),
        ActiveView::SavePreset => (Base::Main, Overlay::SavePreset),
        ActiveView::EditPresets => (
            Base::Main,
            Overlay::EditPresets { commit_on_press: d.editing_preset_row is Some },
        ),
    }
}

/// What the dialog shows.
pub fn view(dialog: &PrintDialog) -> (r: (Base, Overlay))
    ensures
        r == screen(dialog@),
{
    proof {
        reveal(PrintDialog::model);
    }
    match dialog.active_view {
        ActiveView::Main => (Base::Main, Overlay::Hidden),
        ActiveView::PageSelection => (Base::PageSelection, Overlay::Hidden),
        ActiveView::SavePreset => (Base::Main, Overlay::SavePreset),
        ActiveView::EditPresets => (
            Base::Main,
            Overlay::EditPresets { commit_on_press: dialog.editing_preset_row.is_some() },
        ),
    }
}

/// The selection of pages.
#[derive(Debug, PartialEq, Eq)]
pub struct PagesScreen {
    /// The range that is typed, where a range is selected.
    pub range: Option<String>,
    /// Whether the range is said to be invalid.
    pub show_error: bool,
}

/// The selection of pages.
pub fn view_pages_selection(dialog: &PrintDialog) -> (r: PagesScreen)
    ensures
        match r.range {
            Some(range) => dialog@.page_selection is Custom && range@ == dialog@.custom_range_input,
            None => !(dialog@.page_selection is Custom),
        },
        r.show_error == (dialog@.page_selection is Custom && !dialog@.custom_range_valid && trimmed(
            dialog@.custom_range_input,
        ).len() > 0),
{
    proof {
        reveal(PrintDialog::model);
    }
    let is_custom: bool = match &dialog.page_selection {
        PageSetSelection::Custom(_) => true,
        _ => false,
    };
    let range: Option<String> = if is_custom {
        Some(dialog.custom_range_input.clone())
    } else {
        None
    };
    let blank = trim(dialog.custom_range_input.as_str()).as_str().is_empty();
    PagesScreen { range, show_error: is_custom && !dialog.custom_range_valid && !blank }
}

/// The name of a new preset.
#[derive(Debug, PartialEq, Eq)]
pub struct SavePresetScreen {
    pub name: String,
    pub can_save: bool,
}

/// The name of a new preset. It can be saved unless it is blank.
pub fn view_save_preset(dialog: &PrintDialog) -> (r: SavePresetScreen)
    ensures
        r.name@ == dialog@.save_preset_name_input,
        r.can_save == (trimmed(dialog@.save_preset_name_input).len() > 0),
{
    proof {
        reveal(PrintDialog::model);
    }
    let blank = trim(dialog.save_preset_name_input.as_str()).as_str().is_empty();
    SavePresetScreen { name: dialog.save_preset_name_input.clone(), can_save: !blank }
}

/// What the button beside the name of a preset does.
#[derive(Debug, Clone, Copy, PartialEq, Eq, Structural)]
pub enum RowButton {
    /// Begins to rename the preset.
    Edit,
    /// Removes what was typed.
    Clear,
    /// Ends the renaming; nothing was typed.
    Save,
}

/// A preset in the list of presets.
#[derive(Debug, PartialEq, Eq)]
pub struct PresetRow {
    /// The position of the preset among all presets.
    pub index: usize,
    /// The identifier of the text field, where the preset is being renamed.
    pub field: Option<String>,
    /// The name of the preset, or what is typed.
    pub text: String,
    pub button: RowButton,
    /// Whether a press on the row takes over the name that is typed in another one.
    pub commit_on_press: bool,
}

/// A preset in the list of presets, as a value.
pub struct PresetRowView {
    pub index: usize,
    pub field: Option<Seq<char>>,
    pub text: Seq<char>,
    pub button: RowButton,
    pub commit_on_press: bool,
}

impl View for PresetRow {
    type V = PresetRowView;

    open spec fn view(&self) -> PresetRowView {
        PresetRowView {
            index: self.index,
            field: match self.field {
                Some(field) => Some(field@),
                None => None,
            },
            text: self.text@,
            button: self.button,
            commit_on_press: self.commit_on_press,
        }
    }
}

/// Rows of the list of presets, as values.
pub open spec fn preset_row_views(rows: Seq<PresetRow>) -> Seq<PresetRowView> {
    rows.map_values(|row: PresetRow| row@)
}

/// The row of a preset.
pub open spec fn preset_row(
    index: usize,
    name: Seq<char>,
    editing: Option<usize>,
    typed: Seq<char>,
) -> PresetRowView {
    if editing == Some(index) {
        PresetRowView {
            index,
            field: Some(row_field(index)),
            text: typed,
            button: if typed.len() == 0 {
                RowButton::Save
            } else {
                RowButton::Clear
            },
            commit_on_press: false,
        }
    } else {
        PresetRowView {
            index,
            field: None,
            text: name,
            button: RowButton::Edit,
            commit_on_press: editing is Some,
        }
    }
}

/// The rows of the custom presets among the first `n`.
pub open spec fn preset_rows(
    presets: Seq<PresetView>,
    editing: Option<usize>,
    typed: Seq<char>,
    n: nat,
) -> Seq<PresetRowView>
    decreases n,
{
    if n == 0 {
        Seq::empty()
    } else {
        let rest = preset_rows(presets, editing, typed, (n - 1) as nat);
        let preset = presets[n - 1];
        if preset.is_builtin {
            rest
        } else {
            rest.push(preset_row((n - 1) as usize, preset.name, editing, typed))
        }
    }
}

/// The row of a preset.
fn make_preset_row(index: usize, name: &String, editing: Option<usize>, typed: &String) -> (r:
    PresetRow)
    ensures
        r@ == preset_row(index, name@, editing, typed@),
{
    let is_editing: bool = match editing {
        Some(i) => i == index,
        None => false,
    };
    if is_editing {
        PresetRow {
            index,
            field: Some(concat("preset_edit_input_", to_decimal(index as u64).as_str())),
            text: typed.clone(),
            button: if typed.as_str().is_empty() {
                RowButton::Save
            } else {
                RowButton::Clear
            },
            commit_on_press: false,
        }
    } else {
        PresetRow {
            index,
            field: None,
            text: name.clone(),
            button: RowButton::Edit,
            commit_on_press: editing.is_some(),
        }
    }
}

/// The list of the presets that can be renamed and removed.
pub fn view_edit_presets(dialog: &PrintDialog) -> (r: Vec<PresetRow>)
    ensures
        preset_row_views(r@) == preset_rows(
            dialog@.presets,
            dialog@.editing_preset_row,
            dialog@.editing_preset_name_input,
            dialog@.presets.len(),
        ),
{
    proof {
        reveal(PrintDialog::model);
    }
    let ghost all = preset_views(dialog.presets@);
    let mut rows: Vec<PresetRow> = Vec::new();
    let mut i: usize = 0;
    proof {
        assert(preset_row_views(rows@) =~= Seq::<PresetRowView>::empty());
    }
    while i < dialog.presets.len()
        invariant
            i <= dialog.presets@.len(),
            all == preset_views(dialog.presets@),
            preset_row_views(rows@) == preset_rows(
                all,
                dialog.editing_preset_row,
                dialog.editing_preset_name_input@,
                i as nat,
            ),
        decreases dialog.presets@.len() - i,
    {
        let preset = &dialog.presets[i];
        assert(all[i as int] == preset@);
        if !preset.is_builtin {
            let row = make_preset_row(
                i,
                &preset.name,
                dialog.editing_preset_row,
                &dialog.editing_preset_name_input,
            );
            proof {
                assert(preset_row_views(rows@.push(row)) =~= preset_row_views(rows@).push(row@));
            }
            rows.push(row);
        }
        i = i + 1;
    }
    rows
}

/// The line at the foot of the dialog.
#[derive(Debug, PartialEq, Eq)]
pub struct StatusRow {
    /// The name of the icon in front of the text.
    pub icon: Option<&'static str>,
    pub text: Label,
    /// What stands on the button that confirms.
    pub confirm: Label,
}

/// What is said of the selected printer.
pub open spec fn status_text(d: DialogView) -> LabelView {
    match d.selected_printer() {
        Some(printer) => if printer.is_pdf() {
            plain_message("save-output-to-pdf"@)
        } else {
            LabelView {
                phrase: PhraseView::Message("printer-status"@),
                attribute: None,
                arguments: seq![("name"@, printer.name), ("state"@, printer.state.label())],
            }
        },
        None => if d.selected_printer_index is Some {
            plain_message("no-printer-selected"@)
        } else {
            plain_message("no-printers-found"@)
        },
    }
}

/// The icon that shows what the selected printer does.
pub open spec fn status_icon(d: DialogView) -> Option<Seq<char>> {
    match d.selected_printer() {
        Some(printer) => if printer.is_pdf() {
            None
        } else {
            printer.state.icon()
        },
        None => None,
    }
}

/// What is said of a printer, and the icon that shows what it does.
fn printer_status(printer: &PrinterSnapshot) -> (r: (Option<&'static str>, Label))
    ensures
        r.1@ == if printer@.is_pdf() {
            plain_message("save-output-to-pdf"@)
        } else {
            LabelView {
                phrase: PhraseView::Message("printer-status"@),
                attribute: None,
                arguments: seq![("name"@, printer@.name), ("state"@, printer@.state.label())],
            }
        },
        match r.0 {
            Some(icon) => !printer@.is_pdf() && printer@.state.icon() == Some(icon@),
            None => printer@.is_pdf() || printer@.state.icon() is None,
        },
{
    if is_pdf_printer(printer) {
        (None, Label::message("save-output-to-pdf"))
    } else {
        let mut arguments: Vec<(&'static str, Phrase)> = Vec::new();
        arguments.push(("name", printer.name.clone()));
        arguments.push(("state", printer_state_label(&printer.state)));
        let text = Label { phrase: Phrase::Message("printer-status"), attribute: None, arguments };
        assert(text@.arguments =~= seq![
            ("name"@, printer@.name),
            ("state"@, printer@.state.label()),
        ]);
        (printer_state_icon(&printer.state), text)
    }
}

/// The line at the foot of the dialog.
pub fn view_status_row(dialog: &PrintDialog) -> (r: StatusRow)
    ensures
        r.text@ == status_text(dialog@),
        match r.icon {
            Some(icon) => status_icon(dialog@) == Some(icon@),
            None => status_icon(dialog@) is None,
        },
        r.confirm@ == match dialog@.accept_label {
            Some(label) => plain_text(label),
            None => plain_message("print"@),
        },
{
    proof {
        reveal(PrintDialog::model);
    }
    let confirm = match &dialog.accept_label {
        Some(label) => Label::text(label.clone()),
        None => Label::message("print"),
    };
    let (icon, text) = match dialog.selected_printer_index {
        Some(i) => if i < dialog.printers.len() {
            assert(dialog@.printers[i as int] == dialog.printers@[i as int]@);
            printer_status(&dialog.printers[i])
        } else {
            (None, Label::message("no-printer-selected"))
        },
        None => (None, Label::message("no-printers-found")),
    };
    StatusRow { icon, text, confirm }
}

/// What follows when an entry of a list is chosen.
#[derive(Debug)]
pub enum Selected {
    Send(Msg),
    /// Ask for the name of a new preset, with a name to begin with.
    AskPresetName,
}

/// The message that an entry of a list sends.
pub open spec fn selected_msg(kind: DropdownKind, index: usize) -> Selected {
    match kind {
        DropdownKind::Printer => Selected::Send(Msg::PrinterSelected(index)),
        DropdownKind::NoPrinters => Selected::Send(Msg::PrinterSelected(0)),
        DropdownKind::Preset { count } => if index == count {
            Selected::AskPresetName
        } else if index == count + 1 {
            Selected::Send(Msg::OpenEditPresetsDialog)
        } else {
            Selected::Send(Msg::PresetSelected(index))
        },
        DropdownKind::PaperSize => Selected::Send(Msg::PaperSizeSelected(index)),
        DropdownKind::Duplex => Selected::Send(Msg::DuplexSelected(index)),
        DropdownKind::PagesPerSheet => Selected::Send(Msg::PagesPerSheetSelected(index)),
        DropdownKind::Margins => Selected::Send(
            Msg::MarginsSelected(Margins::spec_all()[index as int]),
        ),
        DropdownKind::VerticalMargins => Selected::Send(Msg::CustomMarginVtSelected(index)),
        DropdownKind::HorizontalMargins => Selected::Send(Msg::CustomMarginHzSelected(index)),
        DropdownKind::Border => Selected::Send(Msg::BorderSelected(Border::spec_all()[index as int])),
        DropdownKind::Scaling => Selected::Send(
            Msg::ScalingSelected(ScalingMode::spec_all()[index as int]),
        ),
        DropdownKind::PaperTray => Selected::Send(Msg::PaperTraySelected(index)),
        DropdownKind::PaperType => Selected::Send(Msg::PaperTypeSelected(index)),
        DropdownKind::PrintQuality => Selected::Send(Msg::PrintQualitySelected(index)),
    }
}

/// The message that an entry of a list sends.
pub fn on_selected(kind: DropdownKind, index: usize) -> (r: Selected)
    requires
        kind == DropdownKind::Margins ==> index < Margins::spec_all().len(),
        kind == DropdownKind::Border ==> index < Border::spec_all().len(),
        kind == DropdownKind::Scaling ==> index < ScalingMode::spec_all().len(),
    ensures
        r == selected_msg(kind, index),
{
    match kind {
        DropdownKind::Printer => Selected::Send(Msg::PrinterSelected(index)),
        DropdownKind::NoPrinters => Selected::Send(Msg::PrinterSelected(0)),
        DropdownKind::Preset { count } => if index == count {
            Selected::AskPresetName
        } else if index > count && index - count == 1 {
            Selected::Send(Msg::OpenEditPresetsDialog)
        } else {
            Selected::Send(Msg::PresetSelected(index))
        },
        DropdownKind::PaperSize => Selected::Send(Msg::PaperSizeSelected(index)),
        DropdownKind::Duplex => Selected::Send(Msg::DuplexSelected(index)),
        DropdownKind::PagesPerSheet => Selected::Send(Msg::PagesPerSheetSelected(index)),
        DropdownKind::Margins => Selected::Send(Msg::MarginsSelected(Margins::all()[index])),
        DropdownKind::VerticalMargins => Selected::Send(Msg::CustomMarginVtSelected(index)),
        DropdownKind::HorizontalMargins => Selected::Send(Msg::CustomMarginHzSelected(index)),
        DropdownKind::Border => Selected::Send(Msg::BorderSelected(Border::all()[index])),
        DropdownKind::Scaling => Selected::Send(Msg::ScalingSelected(ScalingMode::all()[index])),
        DropdownKind::PaperTray => Selected::Send(Msg::PaperTraySelected(index)),
        DropdownKind::PaperType => Selected::Send(Msg::PaperTypeSelected(index)),
        DropdownKind::PrintQuality => Selected::Send(Msg::PrintQualitySelected(index)),
    }
}

/// The message that a counter sends.
pub open spec fn counted_msg(kind: CounterKind, up: bool) -> Msg {
    match (kind, up) {
        (CounterKind::Copies, true) => Msg::IncrementCopies,
        (CounterKind::Copies, false) => Msg::DecrementCopies,
        (CounterKind::Scaling, true) => Msg::IncrementScaling,
        (CounterKind::Scaling, false) => Msg::DecrementScaling,
    }
}

/// The message that a button of a counter sends.
pub fn on_counted(kind: CounterKind, up: bool) -> (r: Msg)
    ensures
        r == counted_msg(kind, up),
        r == match (kind, up) {
            (CounterKind::Copies, true) => Msg::IncrementCopies,
            (CounterKind::Copies, false) => Msg::DecrementCopies,
            (CounterKind::Scaling, true) => Msg::IncrementScaling,
            (CounterKind::Scaling, false) => Msg::DecrementScaling,
        },
{
    match (kind, up) {
        (CounterKind::Copies, true) => Msg::IncrementCopies,
        (CounterKind::Copies, false) => Msg::DecrementCopies,
        (CounterKind::Scaling, true) => Msg::IncrementScaling,
        (CounterKind::Scaling, false) => Msg::DecrementScaling,
    }
}

/// The message that a switch sends.
pub open spec fn toggled_msg(kind: ToggleKind) -> Msg {
    match kind {
        ToggleKind::Collate => Msg::ToggleCollate,
        ToggleKind::HeaderFooter => Msg::TogglePrintHeaderFooter,
        ToggleKind::Background => Msg::TogglePrintBackground,
        ToggleKind::ReverseOrder => Msg::ToggleReverseOrder,
    }
}

/// The message that a switch sends.
pub fn on_toggled(kind: ToggleKind) -> (r: Msg)
    ensures
        r == toggled_msg(kind),
        r == match kind {
            ToggleKind::Collate => Msg::ToggleCollate,
            ToggleKind::HeaderFooter => Msg::TogglePrintHeaderFooter,
            ToggleKind::Background => Msg::TogglePrintBackground,
            ToggleKind::ReverseOrder => Msg::ToggleReverseOrder,
        },
{
    match kind {
        ToggleKind::Collate => Msg::ToggleCollate,
        ToggleKind::HeaderFooter => Msg::TogglePrintHeaderFooter,
        ToggleKind::Background => Msg::TogglePrintBackground,
        ToggleKind::ReverseOrder => Msg::ToggleReverseOrder,
    }
}

/// The message that a button of a row of buttons sends.
pub open spec fn activated_msg(kind: SegmentsKind, index: usize) -> Msg {
    match kind {
        SegmentsKind::Color => Msg::ColorModelActivated(index),
        SegmentsKind::Orientation => Msg::OrientationModelActivated(index),
        SegmentsKind::LayoutDirection => Msg::LayoutDirectionModelActivated(index),
    }
}

/// The message that a button of a row of buttons sends.
pub fn on_activated(kind: SegmentsKind, index: usize) -> (r: Msg)
    ensures
        r == activated_msg(kind, index),
        r == match kind {
            SegmentsKind::Color => Msg::ColorModelActivated(index),
            SegmentsKind::Orientation => Msg::OrientationModelActivated(index),
            SegmentsKind::LayoutDirection => Msg::LayoutDirectionModelActivated(index),
        },
{
    match kind {
        SegmentsKind::Color => Msg::ColorModelActivated(index),
        SegmentsKind::Orientation => Msg::OrientationModelActivated(index),
        SegmentsKind::LayoutDirection => Msg::LayoutDirectionModelActivated(index),
    }
}

/// The message that the button beside the name of a preset sends. What is typed becomes empty where
/// it is removed.
pub fn on_row_button(row: &PresetRow) -> (r: Msg)
    ensures
        match row.button {
            RowButton::Edit => r == Msg::ToggleEditPresetRow(row.index),
            RowButton::Save => r == Msg::SavePresetRowName(row.index),
            RowButton::Clear => r matches Msg::PresetRowNameInputChanged(text) && text@.len() == 0,
        },
{
    match row.button {
        RowButton::Edit => Msg::ToggleEditPresetRow(row.index),
        RowButton::Save => Msg::SavePresetRowName(row.index),
        RowButton::Clear => Msg::PresetRowNameInputChanged(String::new()),
    }
}

/// The entry that is chosen from a list is the one that the dialog selects.
#[verifier::rlimit(100)]
#[verifier::spinoff_prover]
pub proof fn law_chosen_entry_is_selected(
    d: DialogView,
    index: usize,
    count: usize,
    margins: Margins,
    border: Border,
    scaling: ScalingMode,
    millis: u64,
)
    ensures
        index < d.printers.len() ==> (selected_msg(DropdownKind::Printer, index) matches Selected::Send(
            msg,
        ) && step(d, msg, millis).0.selected_printer() == Some(d.printers[index as int])),
        selected_msg(DropdownKind::PaperSize, index) matches Selected::Send(msg) && step(
            d,
            msg,
            millis,
        ).0.selected_paper_size_index == Some(index),
        selected_msg(DropdownKind::Duplex, index) matches Selected::Send(msg) && step(
            d,
            msg,
            millis,
        ).0.duplex_index == Some(index),
        selected_msg(DropdownKind::PagesPerSheet, index) matches Selected::Send(msg) && step(
            d,
            msg,
            millis,
        ).0.pages_per_sheet_index == Some(index),
        selected_msg(DropdownKind::PaperTray, index) matches Selected::Send(msg) && step(
            d,
            msg,
            millis,
        ).0.paper_tray_index == Some(index),
        selected_msg(DropdownKind::PaperType, index) matches Selected::Send(msg) && step(
            d,
            msg,
            millis,
        ).0.paper_type_index == Some(index),
        selected_msg(DropdownKind::PrintQuality, index) matches Selected::Send(msg) && step(
            d,
            msg,
            millis,
        ).0.print_quality_index == Some(index),
        selected_msg(DropdownKind::VerticalMargins, index) matches Selected::Send(msg) && step(
            d,
            msg,
            millis,
        ).0.custom_margins_vertical_index == Some(index),
        selected_msg(DropdownKind::HorizontalMargins, index) matches Selected::Send(msg) && step(
            d,
            msg,
            millis,
        ).0.custom_margins_horizontal_index == Some(index),
        selected_msg(
            DropdownKind::Margins,
            margins.spec_index() as usize,
        ) matches Selected::Send(msg) && step(d, msg, millis).0.margins == margins,
        selected_msg(
            DropdownKind::Border,
            border.spec_index() as usize,
        ) matches Selected::Send(msg) && step(d, msg, millis).0.border == border,
        selected_msg(
            DropdownKind::Scaling,
            scaling.spec_index() as usize,
        ) matches Selected::Send(msg) && step(d, msg, millis).0.scaling == scaling,
        index < count && index < d.presets.len() ==> (selected_msg(
            DropdownKind::Preset { count },
            index,
        ) matches Selected::Send(msg) && step(d, msg, millis).0.selected_preset_index == Some(
            index,
        )),
        selected_msg(DropdownKind::Preset { count }, count) is AskPresetName,
{
    reveal(DialogView::printer_selected);
    reveal(DialogView::size_chosen);
    reveal(DialogView::duplex_chosen);
    reveal(DialogView::pages_per_sheet_chosen);
    reveal(DialogView::tray_chosen);
    reveal(DialogView::paper_type_chosen);
    reveal(DialogView::quality_chosen);
    reveal(DialogView::vertical_margins_chosen);
    reveal(DialogView::horizontal_margins_chosen);
    reveal(DialogView::margins_chosen);
    reveal(DialogView::border_chosen);
    reveal(DialogView::scaling_chosen);
    reveal(DialogView::with_preset);
}

/// Each part of the dialog is shown where it is active, and what is in front of it only then.
pub proof fn law_active_part_is_shown(d: DialogView)
    ensures
        screen(d).0 is PageSelection <==> d.active_view is PageSelection,
        screen(d).1 is SavePreset <==> d.active_view is SavePreset,
        screen(d).1 is EditPresets <==> d.active_view is EditPresets,
        screen(d).1 matches Overlay::EditPresets { commit_on_press } ==> (commit_on_press
            <==> d.editing_preset_row is Some),
{
}

/// What is said of a printer is its name and its state; of one that writes a file, that it does.
pub proof fn law_status_is_of_the_selected_printer(d: DialogView)
    ensures
        d.selected_printer() matches Some(printer) ==> {
            let file = printer.id == "save-as-pdf"@ || printer.backend == "file"@;
            &&& !file ==> status_text(d).arguments.contains(("name"@, printer.name))
                && status_text(d).arguments.contains(("state"@, printer.state.label()))
                && status_icon(d) == printer.state.icon()
            &&& file ==> status_text(d) == plain_message("save-output-to-pdf"@)
                && status_icon(d) is None
        },
        d.printers.len() == 0 ==> status_icon(d) is None,
{
    if let Some(printer) = d.selected_printer() {
        if !printer.is_pdf() {
            assert(status_text(d).arguments[0] == ("name"@, printer.name));
            assert(status_text(d).arguments[1] == ("state"@, printer.state.label()));
        }
    }
}

/// Every preset of the user has one row, with its own number; it shows the name, or what is typed where
/// the row is being renamed. Presets of the house have none.
pub proof fn law_presets_of_the_user_have_rows(
    presets: Seq<PresetView>,
    editing: Option<usize>,
    typed: Seq<char>,
    n: nat,
    i: usize,
    row: int,
)
    requires
        n <= presets.len(),
        n <= usize::MAX,
    ensures
        i < n && !presets[i as int].is_builtin ==> preset_rows(presets, editing, typed, n).contains(
            preset_row(i, presets[i as int].name, editing, typed),
        ),
        editing == Some(i) ==> preset_row(i, presets[i as int].name, editing, typed).text == typed,
        editing != Some(i) ==> preset_row(i, presets[i as int].name, editing, typed).text
            == presets[i as int].name,
        ({
            let rows = preset_rows(presets, editing, typed, n);
            0 <= row < rows.len() ==> rows[row].index < n
                && !presets[rows[row].index as int].is_builtin
        }),
    decreases n,
{
    if n > 0 {
        let rest = preset_rows(presets, editing, typed, (n - 1) as nat);
        let all = preset_rows(presets, editing, typed, n);
        law_presets_of_the_user_have_rows(presets, editing, typed, (n - 1) as nat, i, row);
        let mine = preset_row(i, presets[i as int].name, editing, typed);
        if i < n && !presets[i as int].is_builtin {
            if i < n - 1 {
                let j = choose|j: int| 0 <= j < rest.len() && rest[j] == mine;
                assert(all[j] == mine);
            } else {
                assert(all.last() == mine);
            }
        }
    }
}

/// A counter counts what it is for, up or down; a switch turns around what it is for and nothing else; and
/// a button is one of its own row.
pub proof fn law_controls_change_what_they_are_for(d: DialogView, index: usize, millis: u64)
    ensures
        0 < d.copies < 9999 ==> step(
            d,
            counted_msg(CounterKind::Copies, true),
            millis,
        ).0.copies == d.copies + 1,
        1 < d.copies ==> step(d, counted_msg(CounterKind::Copies, false), millis).0.copies
            == d.copies - 1,
        0 < d.custom_scaling_input < u32::MAX ==> step(
            d,
            counted_msg(CounterKind::Scaling, true),
            millis,
        ).0.custom_scaling_input == d.custom_scaling_input + 1,
        1 < d.custom_scaling_input ==> step(
            d,
            counted_msg(CounterKind::Scaling, false),
            millis,
        ).0.custom_scaling_input == d.custom_scaling_input - 1,
        step(d, toggled_msg(ToggleKind::Collate), millis).0 == (DialogView { collate: !d.collate, ..d }),
        step(d, toggled_msg(ToggleKind::HeaderFooter), millis).0 == (DialogView {
            print_header_footer: !d.print_header_footer,
            ..d
        }),
        step(d, toggled_msg(ToggleKind::Background), millis).0 == (DialogView {
            print_background: !d.print_background,
            ..d
        }),
        step(d, toggled_msg(ToggleKind::ReverseOrder), millis).0 == (DialogView {
            reverse_order: !d.reverse_order,
            ..d
        }),
        activated_msg(SegmentsKind::Color, index) == Msg::ColorModelActivated(index),
        activated_msg(SegmentsKind::Orientation, index) == Msg::OrientationModelActivated(index),
        activated_msg(SegmentsKind::LayoutDirection, index) == Msg::LayoutDirectionModelActivated(
            index,
        ),
{
    reveal(DialogView::copies_incremented);
    reveal(DialogView::copies_decremented);
    reveal(DialogView::scaling_incremented);
    reveal(DialogView::scaling_decremented);
    reveal(DialogView::collate_toggled);
    reveal(DialogView::header_footer_toggled);
    reveal(DialogView::background_toggled);
    reveal(DialogView::reverse_toggled);
}

} // verus!
