//! How messages change the state of the dialog.

use crate::clock::{local_minute, unix_millis};
use crate::config::print::{preset_views, PresetView, PrintPreset};
use crate::dict::Dict;
use crate::label::{message_with, Label, Phrase, PhraseView};
use crate::print_dialog::choices::{
    law_identifiers_name_choices, ActiveView, Border, ColorMode, LayoutDirection, Margins,
    Orientation, PageSetSelection, PageSetView, ScalingMode,
};
use crate::print_dialog::page_range::{valid_range, validate_page_range};
use crate::print_dialog::printers::{
    default_pdf_margins, default_pdf_media, find_option, is_pdf_printer, load_option_values,
    margin_options, media_names, option_index, option_named, option_values, option_views,
    pdf_margin_options, pdf_media, pdf_printer, pdf_printer_id, printer_views, sanitized, save_as_pdf_printer,
    MarginOptions, MediaCollection, MediaView, OptionInfo, OptionView, PrinterSnapshot, PrinterState,
    PrinterStateView, PrinterView,
};
use crate::print_dialog::state::{row_named, text_views, DialogView, PrintDialog};
use crate::seqs::{lemma_first_position_of, position, position_of_str};
use crate::text::{concat, decimal, str_eq, to_decimal, trim, trimmed, views};
use vstd::prelude::*;

verus! {

/// News of a printer.
#[derive(Debug)]
pub enum DiscoveryEvent {
    PrinterAdded(PrinterSnapshot),
    PrinterRemoved { id: String, backend: String },
    PrinterStateChanged { id: String, backend: String, state: PrinterState, accepting_jobs: bool },
    /// News that do not concern the dialog.
    Other,
}

/// What can happen to the dialog.
#[derive(Debug)]
pub enum Msg {
    PrintersLoaded(Vec<PrinterSnapshot>),
    DiscoveryEvent(DiscoveryEvent),
    PrinterSelected(usize),
    PrinterDetailsLoaded(Dict<OptionInfo>, MediaCollection, Dict<String>),
    NavigateTo(ActiveView),
    PageSelectionModelActivated(usize),
    CustomRangeInputChanged(String),
    ColorModelActivated(usize),
    OrientationModelActivated(usize),
    IncrementCopies,
    DecrementCopies,
    ToggleCollate,
    PaperSizeSelected(usize),
    DuplexSelected(usize),
    PagesPerSheetSelected(usize),
    LayoutDirectionModelActivated(usize),
    MarginsSelected(Margins),
    CustomMarginVtSelected(usize),
    CustomMarginHzSelected(usize),
    BorderSelected(Border),
    ScalingSelected(ScalingMode),
    IncrementScaling,
    DecrementScaling,
    TogglePrintHeaderFooter,
    TogglePrintBackground,
    ToggleReverseOrder,
    PaperTraySelected(usize),
    PaperTypeSelected(usize),
    PrintQualitySelected(usize),
    Cancel,
    Confirm,
    EnterPressed,
    EscapePressed,
    PresetSelected(usize),
    /// Asks for the name of a new preset; the text is the name to begin with.
    OpenSavePresetDialog(String),
    SavePresetNameInputChanged(String),
    ConfirmSavePreset,
    OpenEditPresetsDialog,
    ToggleEditPresetRow(usize),
    PresetRowNameInputChanged(String),
    SavePresetRowName(usize),
    DeletePresetRow(usize),
    /// Asks for the name of a new preset; the text is the name to begin with.
    AddNewPresetInEditor(String),
    CommitEdit,
}

/// Where the options of a printer come from.
#[derive(Debug, PartialEq, Eq)]
pub enum DetailsRequest {
    /// They are known: the printer writes a file.
    Pdf,
    /// They have to be asked for.
    Query { printer_id: String, backend: String },
}

/// Where the options of a printer come from, as a value.
pub enum DetailsView {
    Pdf,
    Query { printer_id: Seq<char>, backend: Seq<char> },
}

impl View for DetailsRequest {
    type V = DetailsView;

    open spec fn view(&self) -> DetailsView {
        match self {
            DetailsRequest::Pdf => DetailsView::Pdf,
            DetailsRequest::Query { printer_id, backend } => DetailsView::Query {
                printer_id: printer_id@,
                backend: backend@,
            },
        }
    }
}

/// What is to be done after a message.
#[derive(Debug, PartialEq, Eq)]
pub enum DialogTask {
    Nothing,
    /// Load the options of a printer.
    LoadDetails(DetailsRequest),
    /// Put the cursor into a text field and select what is in it.
    EditField(String),
}

/// What is to be done after a message, as a value.
pub enum TaskView {
    Nothing,
    LoadDetails(DetailsView),
    EditField(Seq<char>),
}

impl View for DialogTask {
    type V = TaskView;

    open spec fn view(&self) -> TaskView {
        match self {
            DialogTask::Nothing => TaskView::Nothing,
            DialogTask::LoadDetails(request) => TaskView::LoadDetails(request@),
            DialogTask::EditField(id) => TaskView::EditField(id@),
        }
    }
}

/// Where the options of a printer come from.
pub open spec fn details_of(printer: PrinterView) -> DetailsView {
    if printer.is_pdf() {
        DetailsView::Pdf
    } else {
        DetailsView::Query { printer_id: printer.id, backend: printer.backend }
    }
}

/// Printers without those that have the identifier of the PDF printer.
pub open spec fn without_pdf(printers: Seq<PrinterView>) -> Seq<PrinterView>
    decreases printers.len(),
{
    if printers.len() == 0 {
        Seq::empty()
    } else {
        let rest = without_pdf(printers.drop_last());
        if printers.last().id == pdf_printer_id() {
            rest
        } else {
            rest.push(printers.last())
        }
    }
}

/// Printers without one that is gone. The PDF printer is never gone.
pub open spec fn without_printer(
    printers: Seq<PrinterView>,
    id: Seq<char>,
    backend: Seq<char>,
) -> Seq<PrinterView>
    decreases printers.len(),
{
    if printers.len() == 0 {
        Seq::empty()
    } else {
        let rest = without_printer(printers.drop_last(), id, backend);
        let printer = printers.last();
        if printer.id == pdf_printer_id() || !printer.is(id, backend) {
            rest.push(printer)
        } else {
            rest
        }
    }
}

/// The position of the first printer with this identifier at this backend, or the number of
/// printers if there is none.
pub open spec fn printer_position(
    printers: Seq<PrinterView>,
    id: Seq<char>,
    backend: Seq<char>,
) -> nat
    decreases printers.len(),
{
    if printers.len() == 0 || printers[0].is(id, backend) {
        0
    } else {
        1 + printer_position(printers.drop_first(), id, backend)
    }
}

/// Printers after one was found: it replaces what was known of it.
pub open spec fn with_printer(printers: Seq<PrinterView>, printer: PrinterView) -> Seq<PrinterView> {
    let pos = printer_position(printers, printer.id, printer.backend);
    if printer.id == pdf_printer_id() {
        printers
    } else if pos < printers.len() {
        printers.update(pos as int, printer)
    } else {
        printers.push(printer)
    }
}

impl DialogView {
    /// The state after the list of printers was loaded: the PDF printer comes first, and the first
    /// of the others is selected where there is one.
    #[verifier::opaque]
    pub open spec fn with_printers(self, printers: Seq<PrinterView>) -> DialogView {
        let all = seq![pdf_printer()] + without_pdf(printers);
        DialogView {
            printers: all,
            selected_printer_index: Some(
                if all.len() > 1 {
                    1usize
                } else {
                    0usize
                },
            ),
            ..self
        }
    }

    /// The state and the task after a printer was found: it replaces what was known of it, and the
    /// first printer is selected where none was but the PDF printer.
    #[verifier::opaque]
    pub open spec fn printer_added(self, printer: PrinterView) -> (DialogView, TaskView) {
        let printers = with_printer(self.printers, printer);
        let unselected = self.selected_printer_index is None || self.selected_printer_index == Some(
            0usize,
        );
        if unselected && printers.len() > 1 {
            (
                DialogView { printers, selected_printer_index: Some(1usize), ..self },
                TaskView::LoadDetails(details_of(printers[1])),
            )
        } else {
            (DialogView { printers, ..self }, TaskView::Nothing)
        }
    }

    /// The state and the task after a printer went: the PDF printer is selected where the index
    /// points to none any more.
    #[verifier::opaque]
    pub open spec fn printer_removed(self, id: Seq<char>, backend: Seq<char>) -> (
        DialogView,
        TaskView,
    ) {
        let printers = without_printer(self.printers, id, backend);
        if id == pdf_printer_id() {
            (self, TaskView::Nothing)
        } else {
            match self.selected_printer_index {
                Some(i) if i >= printers.len() => (
                    DialogView { printers, selected_printer_index: Some(0usize), ..self },
                    TaskView::LoadDetails(details_of(printers[0])),
                ),
                _ => (DialogView { printers, ..self }, TaskView::Nothing),
            }
        }
    }

    /// The state after a printer changed its own.
    #[verifier::opaque]
    pub open spec fn printer_changed(
        self,
        id: Seq<char>,
        backend: Seq<char>,
        state: PrinterStateView,
        accepting_jobs: bool,
    ) -> DialogView {
        let pos = printer_position(self.printers, id, backend);
        if pos < self.printers.len() {
            DialogView {
                printers: self.printers.update(
                    pos as int,
                    PrinterView { state, accepting_jobs, ..self.printers[pos as int] },
                ),
                ..self
            }
        } else {
            self
        }
    }

    /// The state after the options of a printer that writes a file were loaded.
    #[verifier::opaque]
    pub open spec fn with_pdf_details(
        self,
        options: Map<Seq<char>, OptionView>,
        media: Seq<MediaView>,
        translations: Map<Seq<char>, Seq<char>>,
    ) -> DialogView {
        DialogView {
            translations,
            color_supported: true,
            duplex_values: Seq::empty(),
            duplex_index: None,
            media_source_values: Seq::empty(),
            paper_tray_index: None,
            media_type_values: Seq::empty(),
            paper_type_index: None,
            print_quality_values: Seq::empty(),
            print_quality_index: None,
            margin_options: pdf_margin_options(),
            custom_margins_vertical_index: match self.custom_margins_vertical_index {
                Some(i) => Some(i),
                None => Some(0usize),
            },
            custom_margins_horizontal_index: match self.custom_margins_horizontal_index {
                Some(i) => Some(i),
                None => Some(0usize),
            },
            selected_paper_size_index: if media.len() == 0 {
                None
            } else {
                match self.selected_paper_size_index {
                    Some(i) => Some(i),
                    None => Some(0usize),
                }
            },
            printer_options: Some(options),
            printer_media: Some(media),
            ..self
        }
    }

    /// The state after the options of a printer that prints were loaded.
    #[verifier::opaque]
    pub open spec fn with_printer_details(
        self,
        options: Map<Seq<char>, OptionView>,
        media: Seq<MediaView>,
        translations: Map<Seq<char>, Seq<char>>,
    ) -> DialogView {
        let first_size = if media.len() == 0 {
            None
        } else {
            Some(0usize)
        };
        (DialogView {
            translations,
            color_supported: match option_named(options, "print-color-mode"@) {
                Some(option) => option.supported_values.contains("color"@),
                None => false,
            },
            duplex_values: option_values(options, "sides"@),
            duplex_index: option_index(options, "sides"@),
            media_source_values: option_values(options, "media-source"@),
            paper_tray_index: option_index(options, "media-source"@),
            media_type_values: option_values(options, "media-type"@),
            paper_type_index: option_index(options, "media-type"@),
            print_quality_values: option_values(options, "print-quality"@),
            print_quality_index: option_index(options, "print-quality"@),
            margin_options: margin_options(options),
            custom_margins_vertical_index: if margin_options(options).top.len() == 0 {
                None
            } else {
                Some(0usize)
            },
            custom_margins_horizontal_index: if margin_options(options).left.len() == 0 {
                None
            } else {
                Some(0usize)
            },
            selected_paper_size_index: match option_named(options, "media"@) {
                Some(option) => match position(media_names(media), option.default_value) {
                    Some(i) => Some(i),
                    None => first_size,
                },
                None => first_size,
            },
            printer_options: Some(options),
            printer_media: Some(media),
            ..self
        }).sanitized_options()
    }

    /// The state after a custom preset was removed.
    #[verifier::opaque]
    pub open spec fn row_deleted(self, idx: usize) -> DialogView {
        if self.is_custom_row(idx) {
            DialogView {
                presets: self.presets.remove(idx as int),
                selected_preset_index: match self.selected_preset_index {
                    Some(i) => if i == idx {
                        Some(0usize)
                    } else if i > idx {
                        Some((i - 1) as usize)
                    } else {
                        Some(i)
                    },
                    None => None,
                },
                editing_preset_row: None,
                ..self
            }
        } else {
            self
        }
    }

    /// The state after a range was typed. The selection follows while the range is valid.
    #[verifier::opaque]
    pub open spec fn range_typed(self, val: Seq<char>) -> DialogView {
        DialogView {
            custom_range_input: val,
            custom_range_valid: valid_range(val),
            page_selection: if valid_range(val) {
                PageSetView::Custom(val)
            } else {
                self.page_selection
            },
            ..self
        }
    }

    /// The state in which the name of a new preset is asked for.
    #[verifier::opaque]
    pub open spec fn preset_name_asked(self, name: Seq<char>) -> DialogView {
        DialogView {
            save_preset_name_input: name,
            active_view: ActiveView::SavePreset,
            ..self.edit_committed()
        }
    }

    /// The state after the options that are chosen were saved as a preset. Nothing happens while
    /// its name is blank.
    #[verifier::opaque]
    pub open spec fn preset_saved(self, millis: u64) -> DialogView {
        let name = trimmed(self.save_preset_name_input);
        if name.len() > 0 {
            DialogView {
                presets: self.presets.push(self.current_preset(name, millis)),
                selected_preset_index: Some(self.presets.len() as usize),
                active_view: ActiveView::Main,
                ..self
            }
        } else {
            self
        }
    }

    /// One copy more, up to 9999.
    #[verifier::opaque]
    pub open spec fn copies_incremented(self) -> DialogView {
        if self.copies < 9999 {
            DialogView { copies: (self.copies + 1) as u32, ..self }
        } else {
            self
        }
    }

    /// One copy less, down to one.
    #[verifier::opaque]
    pub open spec fn copies_decremented(self) -> DialogView {
        if self.copies > 1 {
            DialogView { copies: (self.copies - 1) as u32, ..self }
        } else {
            self
        }
    }

    /// One percent more.
    #[verifier::opaque]
    pub open spec fn scaling_incremented(self) -> DialogView {
        if self.custom_scaling_input < u32::MAX {
            DialogView { custom_scaling_input: (self.custom_scaling_input + 1) as u32, ..self }
        } else {
            self
        }
    }

    /// One percent less, down to one.
    #[verifier::opaque]
    pub open spec fn scaling_decremented(self) -> DialogView {
        if self.custom_scaling_input > 1 {
            DialogView { custom_scaling_input: (self.custom_scaling_input - 1) as u32, ..self }
        } else {
            self
        }
    }

    /// Collating copies switched.
    #[verifier::opaque]
    pub open spec fn collate_toggled(self) -> DialogView {
        DialogView { collate: !self.collate, ..self }
    }

    /// Header and footer switched.
    #[verifier::opaque]
    pub open spec fn header_footer_toggled(self) -> DialogView {
        DialogView { print_header_footer: !self.print_header_footer, ..self }
    }

    /// Backgrounds switched.
    #[verifier::opaque]
    pub open spec fn background_toggled(self) -> DialogView {
        DialogView { print_background: !self.print_background, ..self }
    }

    /// The order of the pages switched.
    #[verifier::opaque]
    pub open spec fn reverse_toggled(self) -> DialogView {
        DialogView { reverse_order: !self.reverse_order, ..self }
    }

    /// Another size of paper.
    #[verifier::opaque]
    pub open spec fn size_chosen(self, index: usize) -> DialogView {
        DialogView { selected_paper_size_index: Some(index), ..self }
    }

    /// Other sides to print on.
    #[verifier::opaque]
    pub open spec fn duplex_chosen(self, index: usize) -> DialogView {
        DialogView { duplex_index: Some(index), ..self }
    }

    /// Another number of pages on a sheet.
    #[verifier::opaque]
    pub open spec fn pages_per_sheet_chosen(self, index: usize) -> DialogView {
        DialogView { pages_per_sheet_index: Some(index), ..self }
    }

    /// Other margins at top and bottom.
    #[verifier::opaque]
    pub open spec fn vertical_margins_chosen(self, index: usize) -> DialogView {
        DialogView { custom_margins_vertical_index: Some(index), ..self }
    }

    /// Other margins at left and right.
    #[verifier::opaque]
    pub open spec fn horizontal_margins_chosen(self, index: usize) -> DialogView {
        DialogView { custom_margins_horizontal_index: Some(index), ..self }
    }

    /// Another paper tray.
    #[verifier::opaque]
    pub open spec fn tray_chosen(self, index: usize) -> DialogView {
        DialogView { paper_tray_index: Some(index), ..self }
    }

    /// Another type of paper.
    #[verifier::opaque]
    pub open spec fn paper_type_chosen(self, index: usize) -> DialogView {
        DialogView { paper_type_index: Some(index), ..self }
    }

    /// Another quality.
    #[verifier::opaque]
    pub open spec fn quality_chosen(self, index: usize) -> DialogView {
        DialogView { print_quality_index: Some(index), ..self }
    }

    /// Other margins.
    #[verifier::opaque]
    pub open spec fn margins_chosen(self, margins: Margins) -> DialogView {
        DialogView { margins, ..self }
    }

    /// Another border.
    #[verifier::opaque]
    pub open spec fn border_chosen(self, border: Border) -> DialogView {
        DialogView { border, ..self }
    }

    /// Another scaling.
    #[verifier::opaque]
    pub open spec fn scaling_chosen(self, scaling: ScalingMode) -> DialogView {
        DialogView { scaling, ..self }
    }

    /// Another text for the name of a new preset.
    #[verifier::opaque]
    pub open spec fn preset_name_typed(self, val: Seq<char>) -> DialogView {
        DialogView { save_preset_name_input: val, ..self }
    }

    /// Another text for the name of a row.
    #[verifier::opaque]
    pub open spec fn row_name_typed(self, val: Seq<char>) -> DialogView {
        DialogView { editing_preset_name_input: val, ..self }
    }

    /// Another part of the dialog, after a name that was being typed has been taken over.
    #[verifier::opaque]
    pub open spec fn navigated(self, view: ActiveView) -> DialogView {
        DialogView { active_view: view, ..self.edit_committed() }
    }

    /// The list of presets, with nothing typed.
    #[verifier::opaque]
    pub open spec fn preset_list_opened(self) -> DialogView {
        DialogView {
            editing_preset_name_input: Seq::empty(),
            active_view: ActiveView::EditPresets,
            ..self.edit_committed()
        }
    }

    /// The name of a row taken over.
    #[verifier::opaque]
    pub open spec fn row_name_saved(self, idx: usize) -> DialogView {
        if self.is_custom_row(idx) {
            DialogView { editing_preset_row: None, ..self.with_row_named(idx) }
        } else {
            self
        }
    }

    /// What is being done left: the typing of a name first, then the part of the dialog.
    #[verifier::opaque]
    pub open spec fn escaped(self) -> DialogView {
        if self.editing_preset_row is Some {
            self.edit_committed()
        } else {
            DialogView { active_view: ActiveView::Main, ..self }
        }
    }

    /// Another printer, if there is one at this position.
    #[verifier::opaque]
    pub open spec fn printer_selected(self, index: usize) -> (DialogView, TaskView) {
        if index < self.printers.len() {
            (
                DialogView { selected_printer_index: Some(index), ..self },
                TaskView::LoadDetails(details_of(self.printers[index as int])),
            )
        } else {
            (self, TaskView::Nothing)
        }
    }

    /// The renaming of a row begun.
    #[verifier::opaque]
    pub open spec fn row_toggled(self, idx: usize) -> (DialogView, TaskView) {
        let next = self.edit_committed();
        if next.is_custom_row(idx) {
            (
                DialogView {
                    editing_preset_row: Some(idx),
                    editing_preset_name_input: next.presets[idx as int].name,
                    ..next
                },
                TaskView::EditField(row_field(idx)),
            )
        } else {
            (next, TaskView::Nothing)
        }
    }

    /// The list of printers taken over, and the options of the selected one asked for.
    #[verifier::opaque]
    pub open spec fn printers_loaded(self, printers: Seq<PrinterView>) -> (DialogView, TaskView) {
        let next = self.with_printers(printers);
        (
            next,
            TaskView::LoadDetails(details_of(next.printers[next.selected_printer_index->0 as int])),
        )
    }

    /// The options of the selected printer taken over.
    #[verifier::opaque]
    pub open spec fn details_taken(self,
        options: Map<Seq<char>, OptionView>,
        media: Seq<MediaView>,
        translations: Map<Seq<char>, Seq<char>>,
    ) -> DialogView {
        if self.pdf_selected() {
            self.with_pdf_details(options, media, translations)
        } else {
            self.with_printer_details(options, media, translations)
        }
    }
}

/// The identifier of the text field in a row of the list of presets.
pub open spec fn row_field(idx: usize) -> Seq<char> {
    "preset_edit_input_"@ + decimal(idx as nat)
}

/// The state and the task after a message. `millis` is the time at which the message is handled.
pub open spec fn step(d: DialogView, msg: Msg, millis: u64) -> (DialogView, TaskView) {
    match msg {
        Msg::PrintersLoaded(printers) => d.printers_loaded(printer_views(printers@)),
        Msg::DiscoveryEvent(DiscoveryEvent::PrinterAdded(printer)) => d.printer_added(printer@),
        Msg::DiscoveryEvent(DiscoveryEvent::PrinterRemoved { id, backend }) => d.printer_removed(
            id@,
            backend@,
        ),
        Msg::DiscoveryEvent(
            DiscoveryEvent::PrinterStateChanged { id, backend, state, accepting_jobs },
        ) => (d.printer_changed(id@, backend@, state@, accepting_jobs), TaskView::Nothing),
        Msg::DiscoveryEvent(DiscoveryEvent::Other) => (d, TaskView::Nothing),
        Msg::PrinterSelected(index) => d.printer_selected(index),
        Msg::EscapePressed => (d.escaped(), TaskView::Nothing),
        Msg::ToggleEditPresetRow(idx) => d.row_toggled(idx),
        _ => (settled(d, msg, millis), TaskView::Nothing),
    }
}

/// The state after a message that asks for no task.
pub open spec fn settled(d: DialogView, msg: Msg, millis: u64) -> DialogView {
    match msg {
        Msg::PrinterDetailsLoaded(options, media, translations) => d.details_taken(
            option_views(options@),
            media@,
            text_views(translations@),
        ),
        Msg::NavigateTo(view) => d.navigated(view),
        Msg::CustomRangeInputChanged(val) => d.range_typed(val@),
        Msg::IncrementCopies => d.copies_incremented(),
        Msg::DecrementCopies => d.copies_decremented(),
        Msg::IncrementScaling => d.scaling_incremented(),
        Msg::DecrementScaling => d.scaling_decremented(),
        Msg::ToggleCollate => d.collate_toggled(),
        Msg::TogglePrintHeaderFooter => d.header_footer_toggled(),
        Msg::TogglePrintBackground => d.background_toggled(),
        Msg::ToggleReverseOrder => d.reverse_toggled(),
        Msg::PaperSizeSelected(index) => d.size_chosen(index),
        Msg::DuplexSelected(index) => d.duplex_chosen(index),
        Msg::PagesPerSheetSelected(index) => d.pages_per_sheet_chosen(index),
        Msg::MarginsSelected(margins) => d.margins_chosen(margins),
        Msg::CustomMarginVtSelected(index) => d.vertical_margins_chosen(index),
        Msg::CustomMarginHzSelected(index) => d.horizontal_margins_chosen(index),
        Msg::BorderSelected(border) => d.border_chosen(border),
        Msg::ScalingSelected(scaling) => d.scaling_chosen(scaling),
        Msg::PaperTraySelected(index) => d.tray_chosen(index),
        Msg::PaperTypeSelected(index) => d.paper_type_chosen(index),
        Msg::PrintQualitySelected(index) => d.quality_chosen(index),
        Msg::PresetSelected(index) => d.with_preset(index),
        Msg::OpenSavePresetDialog(name) => d.preset_name_asked(name@),
        Msg::AddNewPresetInEditor(name) => d.preset_name_asked(name@),
        Msg::SavePresetNameInputChanged(val) => d.preset_name_typed(val@),
        Msg::ConfirmSavePreset => d.preset_saved(millis),
        Msg::OpenEditPresetsDialog => d.preset_list_opened(),
        Msg::PresetRowNameInputChanged(val) => d.row_name_typed(val@),
        Msg::SavePresetRowName(idx) => d.row_name_saved(idx),
        Msg::DeletePresetRow(idx) => d.row_deleted(idx),
        Msg::CommitEdit => d.edit_committed(),
        _ => d,
    }
}

/// Where the options of a printer come from.
pub fn fetch_printer_details(printer: &PrinterSnapshot) -> (r: DetailsRequest)
    ensures
        r@ == details_of(printer@),
{
    proof {
        reveal(PrintDialog::model);
    }
    if is_pdf_printer(printer) {
        DetailsRequest::Pdf
    } else {
        DetailsRequest::Query { printer_id: printer.id.clone(), backend: printer.backend.clone() }
    }
}

/// Takes over the list of printers.
fn printers_loaded(dialog: &mut PrintDialog, printers: Vec<PrinterSnapshot>) -> (r: DialogTask)
    ensures
        (final(dialog)@, r@) == old(dialog)@.printers_loaded(printer_views(printers@)),
{
    proof {
        reveal(DialogView::printers_loaded);
        reveal(PrintDialog::model);
        reveal(DialogView::with_printers);
    }
    let mut all: Vec<PrinterSnapshot> = Vec::new();
    all.push(save_as_pdf_printer());
    let ghost given = printer_views(printers@);
    proof {
        assert(given.take(0) =~= Seq::<PrinterView>::empty());
        assert(printer_views(all@) =~= seq![pdf_printer()] + without_pdf(given.take(0)));
    }
    for printer in it: printers
        invariant
            given == printer_views(it.seq()),
            printer_views(all@) == seq![pdf_printer()] + without_pdf(given.take(it.index() as int)),
    {
        proof {
            let i = it.index() as int;
            assert(given[i] == printer@);
            assert(given.take(i + 1).drop_last() =~= given.take(i));
            assert(given.take(i + 1).last() == printer@);
        }
        if !str_eq(printer.id.as_str(), "save-as-pdf") {
            proof {
                assert(printer_views(all@.push(printer)) =~= printer_views(all@).push(printer@));
            }
            all.push(printer);
        }
    }
    proof {
        assert(given.take(given.len() as int) =~= given);
    }
    dialog.printers = all;
    let target: usize = if dialog.printers.len() > 1 {
        1
    } else {
        0
    };
    dialog.selected_printer_index = Some(target);
    assert(dialog@.printers[target as int] == dialog.printers@[target as int]@);
    assert(dialog@.printers[0] == pdf_printer());
    DialogTask::LoadDetails(fetch_printer_details(&dialog.printers[target]))
}

/// A position is that of the first printer with an identifier at a backend where that printer
/// stands there and nowhere before.
proof fn lemma_printer_position(
    printers: Seq<PrinterView>,
    id: Seq<char>,
    backend: Seq<char>,
    i: int,
)
    requires
        0 <= i <= printers.len(),
        forall|j: int| 0 <= j < i ==> !(#[trigger] printers[j]).is(id, backend),
        i < printers.len() ==> printers[i].is(id, backend),
    ensures
        printer_position(printers, id, backend) == i,
    decreases printers.len(),
{
    if i > 0 {
        assert(!printers[0].is(id, backend));
        let rest = printers.drop_first();
        assert forall|j: int| 0 <= j < i - 1 implies !(#[trigger] rest[j]).is(id, backend) by {
            assert(rest[j] == printers[j + 1]);
        }
        lemma_printer_position(rest, id, backend, i - 1);
    }
}

/// The position of the first printer with an identifier at a backend, or the number of printers.
fn find_printer(printers: &Vec<PrinterSnapshot>, id: &str, backend: &str) -> (r: usize)
    ensures
        r == printer_position(printer_views(printers@), id@, backend@),
        r <= printers@.len(),
        r < printers@.len() ==> printers@[r as int]@.is(id@, backend@),
{
    let ghost all = printer_views(printers@);
    let mut i: usize = 0;
    while i < printers.len()
        invariant
            i <= printers@.len(),
            all == printer_views(printers@),
            forall|j: int| 0 <= j < i ==> !(#[trigger] all[j]).is(id@, backend@),
        decreases printers@.len() - i,
    {
        let found = str_eq(printers[i].id.as_str(), id) && str_eq(
            printers[i].backend.as_str(),
            backend,
        );
        assert(all[i as int] == printers@[i as int]@);
        if found {
            proof {
                lemma_printer_position(all, id@, backend@, i as int);
            }
            return i;
        }
        i = i + 1;
    }
    proof {
        lemma_printer_position(all, id@, backend@, all.len() as int);
    }
    i
}

/// Puts a printer that was found into a list.
fn add_printer(printers: &mut Vec<PrinterSnapshot>, printer: PrinterSnapshot)
    ensures
        printer_views(final(printers)@) == with_printer(printer_views(old(printers)@), printer@),
{
    if !str_eq(printer.id.as_str(), "save-as-pdf") {
        let pos = find_printer(printers, printer.id.as_str(), printer.backend.as_str());
        if pos < printers.len() {
            proof {
                assert(printer_views(printers@.update(pos as int, printer)) =~= printer_views(
                    printers@,
                ).update(pos as int, printer@));
            }
            printers[pos] = printer;
        } else {
            proof {
                assert(printer_views(printers@.push(printer)) =~= printer_views(printers@).push(
                    printer@,
                ));
            }
            printers.push(printer);
        }
    }
}

/// The index to select after a printer was found, and the task that follows.
fn preselect(printers: &Vec<PrinterSnapshot>, selected: Option<usize>) -> (r: (
    Option<usize>,
    DialogTask,
))
    ensures
        if (selected is None || selected == Some(0usize)) && printers@.len() > 1 {
            &&& r.0 == Some(1usize)
            &&& r.1@ == TaskView::LoadDetails(details_of(printer_views(printers@)[1]))
        } else {
            r.0 == selected && r.1@ == TaskView::Nothing
        },
{
    let unselected: bool = match selected {
        Some(i) => i == 0,
        None => true,
    };
    if unselected && printers.len() > 1 {
        assert(printer_views(printers@)[1] == printers@[1]@);
        (Some(1), DialogTask::LoadDetails(fetch_printer_details(&printers[1])))
    } else {
        (selected, DialogTask::Nothing)
    }
}

/// Takes note of a printer that was found.
fn printer_added(dialog: &mut PrintDialog, printer: PrinterSnapshot) -> (r: DialogTask)
    ensures
        (final(dialog)@, r@) == old(dialog)@.printer_added(printer@),
{
    proof {
        reveal(PrintDialog::model);
        reveal(DialogView::printer_added);
    }
    add_printer(&mut dialog.printers, printer);
    let (selected, task) = preselect(&dialog.printers, dialog.selected_printer_index);
    dialog.selected_printer_index = selected;
    task
}

/// The PDF printer stays first when another printer goes.
proof fn lemma_without_printer_first(printers: Seq<PrinterView>, id: Seq<char>, backend: Seq<char>)
    requires
        printers.len() > 0,
        printers[0].id == pdf_printer_id(),
    ensures
        without_printer(printers, id, backend).len() > 0,
        without_printer(printers, id, backend)[0] == printers[0],
    decreases printers.len(),
{
    reveal_with_fuel(without_printer, 2);
    if printers.len() > 1 {
        assert(printers.drop_last()[0] == printers[0]);
        lemma_without_printer_first(printers.drop_last(), id, backend);
    } else {
        assert(printers.last() == printers[0]);
    }
}

/// Removes a printer that is gone from a list.
fn remove_printer(printers: &mut Vec<PrinterSnapshot>, id: &str, backend: &str)
    ensures
        printer_views(final(printers)@) == without_printer(
            printer_views(old(printers)@),
            id@,
            backend@,
        ),
{
    let ghost all = printer_views(printers@);
    let ghost mut seen: int = 0;
    let mut i: usize = 0;
    proof {
        assert(all.take(0) =~= Seq::<PrinterView>::empty());
        assert(all.skip(0) =~= all);
        assert(printer_views(printers@) =~= without_printer(all.take(0), id@, backend@) + all.skip(0));
    }
    while i < printers.len()
        invariant
            0 <= seen <= all.len(),
            i <= printers@.len(),
            i == without_printer(all.take(seen), id@, backend@).len(),
            printers@.len() - i == all.len() - seen,
            printer_views(printers@) == without_printer(all.take(seen), id@, backend@) + all.skip(
                seen,
            ),
        decreases printers@.len() - i,
    {
        let ghost kept = without_printer(all.take(seen), id@, backend@);
        proof {
            assert(printer_views(printers@)[i as int] == printers@[i as int]@);
            assert((kept + all.skip(seen))[i as int] == all[seen]);
            assert(all.take(seen + 1).drop_last() =~= all.take(seen));
            assert(all.take(seen + 1).last() == all[seen]);
        }
        let keep = str_eq(printers[i].id.as_str(), "save-as-pdf") || !(str_eq(
            printers[i].id.as_str(),
            id,
        ) && str_eq(printers[i].backend.as_str(), backend));
        if keep {
            proof {
                assert(kept.push(all[seen]) + all.skip(seen + 1) =~= kept + all.skip(seen));
            }
            i = i + 1;
        } else {
            proof {
                assert(printer_views(printers@.remove(i as int)) =~= printer_views(
                    printers@,
                ).remove(i as int));
                assert((kept + all.skip(seen)).remove(i as int) =~= kept + all.skip(seen + 1));
            }
            printers.remove(i);
        }
        proof {
            seen = seen + 1;
        }
    }
    proof {
        assert(all.take(seen) =~= all);
        assert(all.skip(seen) =~= Seq::<PrinterView>::empty());
        assert(printer_views(printers@) =~= without_printer(all, id@, backend@));
    }
}

/// The index to select after a printer went, and the task that follows.
fn reselect(printers: &Vec<PrinterSnapshot>, selected: Option<usize>) -> (r: (
    Option<usize>,
    DialogTask,
))
    requires
        printers@.len() > 0,
    ensures
        match selected {
            Some(i) if i >= printers@.len() => {
                &&& r.0 == Some(0usize)
                &&& r.1@ == TaskView::LoadDetails(details_of(printer_views(printers@)[0]))
            },
            _ => r.0 == selected && r.1@ == TaskView::Nothing,
        },
{
    match selected {
        Some(i) if i >= printers.len() => {
            assert(printer_views(printers@)[0] == printers@[0]@);
            (Some(0), DialogTask::LoadDetails(fetch_printer_details(&printers[0])))
        },
        _ => (selected, DialogTask::Nothing),
    }
}

/// Takes note of a printer that is gone.
fn printer_removed(dialog: &mut PrintDialog, id: &str, backend: &str) -> (r: DialogTask)
    requires
        old(dialog).wf(),
    ensures
        (final(dialog)@, r@) == old(dialog)@.printer_removed(id@, backend@),
{
    proof {
        reveal(PrintDialog::model);
        reveal(DialogView::printer_removed);
    }
    if str_eq(id, "save-as-pdf") {
        DialogTask::Nothing
    } else {
        proof {
            lemma_without_printer_first(dialog@.printers, id@, backend@);
        }
        remove_printer(&mut dialog.printers, id, backend);
        let (selected, task) = reselect(&dialog.printers, dialog.selected_printer_index);
        dialog.selected_printer_index = selected;
        task
    }
}

/// Takes note of what a printer does.
fn printer_changed(
    dialog: &mut PrintDialog,
    id: &str,
    backend: &str,
    state: PrinterState,
    accepting_jobs: bool,
)
    ensures
        final(dialog)@ == old(dialog)@.printer_changed(id@, backend@, state@, accepting_jobs),
{
    proof {
        reveal(PrintDialog::model);
        reveal(DialogView::printer_changed);
    }
    let pos = find_printer(&dialog.printers, id, backend);
    if pos < dialog.printers.len() {
        let ghost before = dialog.printers@;
        dialog.printers[pos].state = state;
        dialog.printers[pos].accepting_jobs = accepting_jobs;
        proof {
            let ghost changed = PrinterView {
                state: state@,
                accepting_jobs,
                ..printer_views(before)[pos as int]
            };
            assert(printer_views(dialog.printers@) =~= printer_views(before).update(
                pos as int,
                changed,
            ));
        }
    }
}


/// The index that was there, or the first one.
fn or_first(index: Option<usize>) -> (r: Option<usize>)
    ensures
        r == match index {
            Some(i) => Some(i),
            None => Some(0usize),
        },
{
    match index {
        Some(i) => Some(i),
        None => Some(0),
    }
}

/// The first index of a list, if it has one.
fn first_index_of(len: usize) -> (r: Option<usize>)
    ensures
        r == if len == 0 {
            None
        } else {
            Some(0usize)
        },
{
    if len == 0 {
        None
    } else {
        Some(0)
    }
}

/// No values.
fn no_values() -> (r: Vec<String>)
    ensures
        views(r@) == Seq::<Seq<char>>::empty(),
{
    let r: Vec<String> = Vec::new();
    assert(views(r@) =~= Seq::<Seq<char>>::empty());
    r
}

/// Takes over the options of a printer that writes a file.
fn pdf_details_loaded(
    dialog: &mut PrintDialog,
    options: Dict<OptionInfo>,
    media: MediaCollection,
    translations: Dict<String>,
)
    ensures
        final(dialog)@ == old(dialog)@.with_pdf_details(
            option_views(options@),
            media@,
            text_views(translations@),
        ),
{
    proof {
        reveal(PrintDialog::model);
        reveal(DialogView::with_pdf_details);
    }
    dialog.translations = translations;
    dialog.color_supported = true;
    dialog.duplex_values = no_values();
    dialog.duplex_index = None;
    dialog.media_source_values = no_values();
    dialog.paper_tray_index = None;
    dialog.media_type_values = no_values();
    dialog.paper_type_index = None;
    dialog.print_quality_values = no_values();
    dialog.print_quality_index = None;
    dialog.margin_options = default_pdf_margins();
    dialog.custom_margins_vertical_index = or_first(dialog.custom_margins_vertical_index);
    dialog.custom_margins_horizontal_index = or_first(dialog.custom_margins_horizontal_index);
    dialog.selected_paper_size_index = if media.is_empty() {
        None
    } else {
        or_first(dialog.selected_paper_size_index)
    };
    dialog.printer_options = Some(options);
    dialog.printer_media = Some(media);
}

/// Whether a printer prints colours.
fn supports_color(options: &Dict<OptionInfo>) -> (r: bool)
    ensures
        r == match option_named(option_views(options@), "print-color-mode"@) {
            Some(option) => option.supported_values.contains("color"@),
            None => false,
        },
{
    match find_option(options, "print-color-mode") {
        Some(option) => {
            proof {
                lemma_first_position_of(views(option.supported_values@), "color"@);
            }
            position_of_str(&option.supported_values, "color").is_some()
        },
        None => false,
    }
}

/// The size of paper that is usual for a printer, or the first one.
fn usual_size(options: &Dict<OptionInfo>, media: &MediaCollection) -> (r: Option<usize>)
    ensures
        r == match option_named(option_views(options@), "media"@) {
            Some(option) => match position(media_names(media@), option.default_value) {
                Some(i) => Some(i),
                None => if media@.len() == 0 {
                    None
                } else {
                    Some(0usize)
                },
            },
            None => if media@.len() == 0 {
                None
            } else {
                Some(0usize)
            },
        },
{
    match find_option(options, "media") {
        Some(option) => match media.position_of(option.default_value.as_str()) {
            Some(i) => Some(i),
            None => first_index_of(media.len()),
        },
        None => first_index_of(media.len()),
    }
}

/// Takes over the options of a printer that prints.
fn printer_details_loaded(
    dialog: &mut PrintDialog,
    options: Dict<OptionInfo>,
    media: MediaCollection,
    translations: Dict<String>,
)
    ensures
        final(dialog)@ == old(dialog)@.with_printer_details(
            option_views(options@),
            media@,
            text_views(translations@),
        ),
{
    proof {
        reveal(PrintDialog::model);
        reveal(DialogView::with_printer_details);
    }
    dialog.translations = translations;
    dialog.color_supported = supports_color(&options);
    let (duplex_values, duplex_index) = load_option_values(&options, "sides");
    dialog.duplex_values = duplex_values;
    dialog.duplex_index = duplex_index;
    let (source_values, source_index) = load_option_values(&options, "media-source");
    dialog.media_source_values = source_values;
    dialog.paper_tray_index = source_index;
    let (type_values, type_index) = load_option_values(&options, "media-type");
    dialog.media_type_values = type_values;
    dialog.paper_type_index = type_index;
    let (quality_values, quality_index) = load_option_values(&options, "print-quality");
    dialog.print_quality_values = quality_values;
    dialog.print_quality_index = quality_index;
    let margins = MarginOptions::from_options(&options);
    dialog.custom_margins_vertical_index = first_index_of(margins.top.len());
    dialog.custom_margins_horizontal_index = first_index_of(margins.left.len());
    dialog.margin_options = margins;
    dialog.selected_paper_size_index = usual_size(&options, &media);
    dialog.printer_options = Some(options);
    dialog.printer_media = Some(media);
    dialog.sanitize_printer_options();
}

/// Gives a custom preset the name that was typed, unless that is blank.
fn rename_row(presets: &mut Vec<PrintPreset>, idx: usize, typed: &str)
    ensures
        preset_views(final(presets)@) == row_named(preset_views(old(presets)@), idx, typed@),
{
    let name = trim(typed);
    if idx < presets.len() && !presets[idx].is_builtin && !name.as_str().is_empty() {
        let ghost before = presets@;
        let ghost text = name@;
        assert(preset_views(before)[idx as int] == before[idx as int]@);
        presets[idx].name = name;
        proof {
            assert(preset_views(presets@) =~= preset_views(before).update(
                idx as int,
                PresetView { name: text, ..preset_views(before)[idx as int] },
            ));
        }
    } else {
        assert(idx < presets@.len() ==> preset_views(presets@)[idx as int] == presets@[idx as int]@);
    }
}

/// Takes over a name that is being typed.
pub fn commit_preset_edit(dialog: &mut PrintDialog)
    ensures
        final(dialog)@ == old(dialog)@.edit_committed(),
        final(dialog)@.printers == old(dialog)@.printers,
{
    proof {
        reveal(PrintDialog::model);
        reveal(DialogView::edit_committed);
    }
    if let Some(idx) = dialog.editing_preset_row {
        rename_row(&mut dialog.presets, idx, dialog.editing_preset_name_input.as_str());
        dialog.editing_preset_row = None;
    }
}


/// Whether a row of the list of presets can be renamed and removed.
fn is_custom_row(presets: &Vec<PrintPreset>, idx: usize) -> (r: bool)
    ensures
        r == (idx < presets@.len() && !preset_views(presets@)[idx as int].is_builtin),
{
    if idx < presets.len() {
        assert(preset_views(presets@)[idx as int] == presets@[idx as int]@);
        !presets[idx].is_builtin
    } else {
        false
    }
}

/// The index of the selected preset after the one at `idx` was removed.
fn index_after_removal(selected: Option<usize>, idx: usize) -> (r: Option<usize>)
    ensures
        r == match selected {
            Some(i) => if i == idx {
                Some(0usize)
            } else if i > idx {
                Some((i - 1) as usize)
            } else {
                Some(i)
            },
            None => None,
        },
{
    match selected {
        Some(i) => if i == idx {
            Some(0)
        } else if i > idx {
            Some(i - 1)
        } else {
            Some(i)
        },
        None => None,
    }
}

/// Removes a custom preset.
fn delete_row(dialog: &mut PrintDialog, idx: usize)
    ensures
        final(dialog)@ == old(dialog)@.row_deleted(idx),
{
    proof {
        reveal(PrintDialog::model);
        reveal(DialogView::row_deleted);
    }
    if is_custom_row(&dialog.presets, idx) {
        proof {
            assert(preset_views(dialog.presets@.remove(idx as int)) =~= preset_views(
                dialog.presets@,
            ).remove(idx as int));
        }
        dialog.presets.remove(idx);
        dialog.selected_preset_index = index_after_removal(dialog.selected_preset_index, idx);
        dialog.editing_preset_row = None;
    }
}

/// Saves the options that are chosen as a preset.
fn save_preset(dialog: &mut PrintDialog, millis: u64)
    ensures
        final(dialog)@ == old(dialog)@.preset_saved(millis),
{
    proof {
        reveal(PrintDialog::model);
        reveal(DialogView::preset_saved);
    }
    let name = trim(dialog.save_preset_name_input.as_str());
    if !name.as_str().is_empty() {
        let preset = dialog.preset_made_at(name, millis);
        let count: usize = dialog.presets.len();
        proof {
            assert(preset_views(dialog.presets@.push(preset)) =~= preset_views(
                dialog.presets@,
            ).push(preset@));
        }
        dialog.presets.push(preset);
        dialog.selected_preset_index = Some(count);
        dialog.active_view = ActiveView::Main;
    }
}

/// Asks for the name of a new preset.
fn ask_preset_name(dialog: &mut PrintDialog, name: String)
    ensures
        final(dialog)@ == old(dialog)@.preset_name_asked(name@),
{
    proof {
        reveal(PrintDialog::model);
        reveal(DialogView::preset_name_asked);
    }
    commit_preset_edit(dialog);
    dialog.save_preset_name_input = name;
    dialog.active_view = ActiveView::SavePreset;
}

/// Opens the list of presets.
fn open_preset_list(dialog: &mut PrintDialog)
    ensures
        final(dialog)@ == old(dialog)@.preset_list_opened(),
{
    proof {
        reveal(DialogView::preset_list_opened);
        reveal(PrintDialog::model);
    }
    commit_preset_edit(dialog);
    dialog.editing_preset_name_input = String::new();
    dialog.active_view = ActiveView::EditPresets;
}

/// Begins to rename a preset.
fn toggle_row(dialog: &mut PrintDialog, idx: usize) -> (r: DialogTask)
    ensures
        (final(dialog)@, r@) == old(dialog)@.row_toggled(idx),
{
    proof {
        reveal(DialogView::row_toggled);
        reveal(PrintDialog::model);
    }
    commit_preset_edit(dialog);
    if is_custom_row(&dialog.presets, idx) {
        assert(dialog@.presets[idx as int] == dialog.presets@[idx as int]@);
        let name = dialog.presets[idx].name.clone();
        dialog.editing_preset_row = Some(idx);
        dialog.editing_preset_name_input = name;
        DialogTask::EditField(concat("preset_edit_input_", to_decimal(idx as u64).as_str()))
    } else {
        DialogTask::Nothing
    }
}

/// Takes over a range that is being typed.
fn range_typed(dialog: &mut PrintDialog, val: String)
    ensures
        final(dialog)@ == old(dialog)@.range_typed(val@),
{
    proof {
        reveal(PrintDialog::model);
        reveal(DialogView::range_typed);
    }
    let valid = validate_page_range(val.as_str());
    dialog.custom_range_input = val.clone();
    dialog.custom_range_valid = valid;
    if valid {
        dialog.page_selection = PageSetSelection::Custom(val);
    }
}

/// One copy more, up to 9999.
fn increment_copies(dialog: &mut PrintDialog)
    ensures
        final(dialog)@ == old(dialog)@.copies_incremented(),
{
    proof {
        reveal(DialogView::copies_incremented);
        reveal(PrintDialog::model);
    }
    if dialog.copies < 9999 {
        dialog.copies = dialog.copies + 1;
    }
}

/// One copy less, down to one.
fn decrement_copies(dialog: &mut PrintDialog)
    ensures
        final(dialog)@ == old(dialog)@.copies_decremented(),
{
    proof {
        reveal(DialogView::copies_decremented);
        reveal(PrintDialog::model);
    }
    if dialog.copies > 1 {
        dialog.copies = dialog.copies - 1;
    }
}

/// One percent more.
fn increment_scaling(dialog: &mut PrintDialog)
    ensures
        final(dialog)@ == old(dialog)@.scaling_incremented(),
{
    proof {
        reveal(DialogView::scaling_incremented);
        reveal(PrintDialog::model);
    }
    if dialog.custom_scaling_input < u32::MAX {
        dialog.custom_scaling_input = dialog.custom_scaling_input + 1;
    }
}

/// One percent less, down to one.
fn decrement_scaling(dialog: &mut PrintDialog)
    ensures
        final(dialog)@ == old(dialog)@.scaling_decremented(),
{
    proof {
        reveal(DialogView::scaling_decremented);
        reveal(PrintDialog::model);
    }
    if dialog.custom_scaling_input > 1 {
        dialog.custom_scaling_input = dialog.custom_scaling_input - 1;
    }
}

/// Switches: whether copies are collated.
fn toggle_collate(dialog: &mut PrintDialog)
    ensures
        final(dialog)@ == old(dialog)@.collate_toggled(),
{
    proof {
        reveal(DialogView::collate_toggled);
        reveal(PrintDialog::model);
    }
    dialog.collate = !dialog.collate;
}

/// Switches: whether header and footer are printed.
fn toggle_header_footer(dialog: &mut PrintDialog)
    ensures
        final(dialog)@ == old(dialog)@.header_footer_toggled(),
{
    proof {
        reveal(DialogView::header_footer_toggled);
        reveal(PrintDialog::model);
    }
    dialog.print_header_footer = !dialog.print_header_footer;
}

/// Switches: whether backgrounds are printed.
fn toggle_background(dialog: &mut PrintDialog)
    ensures
        final(dialog)@ == old(dialog)@.background_toggled(),
{
    proof {
        reveal(DialogView::background_toggled);
        reveal(PrintDialog::model);
    }
    dialog.print_background = !dialog.print_background;
}

/// Switches: whether the last page comes first.
fn toggle_reverse(dialog: &mut PrintDialog)
    ensures
        final(dialog)@ == old(dialog)@.reverse_toggled(),
{
    proof {
        reveal(DialogView::reverse_toggled);
        reveal(PrintDialog::model);
    }
    dialog.reverse_order = !dialog.reverse_order;
}

/// Chooses the size of the paper.
fn choose_size(dialog: &mut PrintDialog, index: usize)
    ensures
        final(dialog)@ == old(dialog)@.size_chosen(index),
{
    proof {
        reveal(DialogView::size_chosen);
        reveal(PrintDialog::model);
    }
    dialog.selected_paper_size_index = Some(index);
}

/// Chooses the sides that are printed.
fn choose_duplex(dialog: &mut PrintDialog, index: usize)
    ensures
        final(dialog)@ == old(dialog)@.duplex_chosen(index),
{
    proof {
        reveal(DialogView::duplex_chosen);
        reveal(PrintDialog::model);
    }
    dialog.duplex_index = Some(index);
}

/// Chooses the number of pages on a sheet.
fn choose_pages_per_sheet(dialog: &mut PrintDialog, index: usize)
    ensures
        final(dialog)@ == old(dialog)@.pages_per_sheet_chosen(index),
{
    proof {
        reveal(DialogView::pages_per_sheet_chosen);
        reveal(PrintDialog::model);
    }
    dialog.pages_per_sheet_index = Some(index);
}

/// Chooses the margins at top and bottom.
fn choose_vertical_margins(dialog: &mut PrintDialog, index: usize)
    ensures
        final(dialog)@ == old(dialog)@.vertical_margins_chosen(index),
{
    proof {
        reveal(DialogView::vertical_margins_chosen);
        reveal(PrintDialog::model);
    }
    dialog.custom_margins_vertical_index = Some(index);
}

/// Chooses the margins at left and right.
fn choose_horizontal_margins(dialog: &mut PrintDialog, index: usize)
    ensures
        final(dialog)@ == old(dialog)@.horizontal_margins_chosen(index),
{
    proof {
        reveal(DialogView::horizontal_margins_chosen);
        reveal(PrintDialog::model);
    }
    dialog.custom_margins_horizontal_index = Some(index);
}

/// Chooses the paper tray.
fn choose_tray(dialog: &mut PrintDialog, index: usize)
    ensures
        final(dialog)@ == old(dialog)@.tray_chosen(index),
{
    proof {
        reveal(DialogView::tray_chosen);
        reveal(PrintDialog::model);
    }
    dialog.paper_tray_index = Some(index);
}

/// Chooses the type of paper.
fn choose_paper_type(dialog: &mut PrintDialog, index: usize)
    ensures
        final(dialog)@ == old(dialog)@.paper_type_chosen(index),
{
    proof {
        reveal(DialogView::paper_type_chosen);
        reveal(PrintDialog::model);
    }
    dialog.paper_type_index = Some(index);
}

/// Chooses the quality.
fn choose_quality(dialog: &mut PrintDialog, index: usize)
    ensures
        final(dialog)@ == old(dialog)@.quality_chosen(index),
{
    proof {
        reveal(DialogView::quality_chosen);
        reveal(PrintDialog::model);
    }
    dialog.print_quality_index = Some(index);
}

/// Chooses the margins.
fn choose_margins(dialog: &mut PrintDialog, margins: Margins)
    ensures
        final(dialog)@ == old(dialog)@.margins_chosen(margins),
{
    proof {
        reveal(DialogView::margins_chosen);
        reveal(PrintDialog::model);
    }
    dialog.margins = margins;
}

/// Chooses the border.
fn choose_border(dialog: &mut PrintDialog, border: Border)
    ensures
        final(dialog)@ == old(dialog)@.border_chosen(border),
{
    proof {
        reveal(DialogView::border_chosen);
        reveal(PrintDialog::model);
    }
    dialog.border = border;
}

/// Chooses the scaling.
fn choose_scaling(dialog: &mut PrintDialog, scaling: ScalingMode)
    ensures
        final(dialog)@ == old(dialog)@.scaling_chosen(scaling),
{
    proof {
        reveal(DialogView::scaling_chosen);
        reveal(PrintDialog::model);
    }
    dialog.scaling = scaling;
}

/// Takes over what was typed as the name of a new preset.
fn type_preset_name(dialog: &mut PrintDialog, val: String)
    ensures
        final(dialog)@ == old(dialog)@.preset_name_typed(val@),
{
    proof {
        reveal(DialogView::preset_name_typed);
        reveal(PrintDialog::model);
    }
    dialog.save_preset_name_input = val;
}

/// Takes over what was typed as the name of a row.
fn type_row_name(dialog: &mut PrintDialog, val: String)
    ensures
        final(dialog)@ == old(dialog)@.row_name_typed(val@),
{
    proof {
        reveal(DialogView::row_name_typed);
        reveal(PrintDialog::model);
    }
    dialog.editing_preset_name_input = val;
}

/// Takes over the name of a row.
fn save_row_name(dialog: &mut PrintDialog, idx: usize)
    ensures
        final(dialog)@ == old(dialog)@.row_name_saved(idx),
{
    proof {
        reveal(DialogView::row_name_saved);
        reveal(PrintDialog::model);
    }
    if is_custom_row(&dialog.presets, idx) {
        rename_row(&mut dialog.presets, idx, dialog.editing_preset_name_input.as_str());
        dialog.editing_preset_row = None;
    }
}

/// Shows another part of the dialog.
fn navigate(dialog: &mut PrintDialog, view: ActiveView)
    ensures
        final(dialog)@ == old(dialog)@.navigated(view),
{
    proof {
        reveal(DialogView::navigated);
        reveal(PrintDialog::model);
    }
    commit_preset_edit(dialog);
    dialog.active_view = view;
}

/// Takes over the options of the selected printer.
fn take_details(
    dialog: &mut PrintDialog,
    options: Dict<OptionInfo>,
    media: MediaCollection,
    translations: Dict<String>,
)
    ensures
        final(dialog)@ == old(dialog)@.details_taken(
            option_views(options@),
            media@,
            text_views(translations@),
        ),
{
    proof {
        reveal(DialogView::details_taken);
    }
    if dialog.is_pdf_selected() {
        pdf_details_loaded(dialog, options, media, translations)
    } else {
        printer_details_loaded(dialog, options, media, translations)
    }
}

/// Changes the dialog by a message that asks for no task.
fn settle(dialog: &mut PrintDialog, msg: Msg, millis: u64)
    ensures
        final(dialog)@ == settled(old(dialog)@, msg, millis),
{
    match msg {
        Msg::PrinterDetailsLoaded(options, media, translations) => take_details(
            dialog,
            options,
            media,
            translations,
        ),
        Msg::NavigateTo(view) => navigate(dialog, view),
        Msg::CustomRangeInputChanged(val) => range_typed(dialog, val),
        Msg::IncrementCopies => increment_copies(dialog),
        Msg::DecrementCopies => decrement_copies(dialog),
        Msg::IncrementScaling => increment_scaling(dialog),
        Msg::DecrementScaling => decrement_scaling(dialog),
        Msg::ToggleCollate => toggle_collate(dialog),
        Msg::TogglePrintHeaderFooter => toggle_header_footer(dialog),
        Msg::TogglePrintBackground => toggle_background(dialog),
        Msg::ToggleReverseOrder => toggle_reverse(dialog),
        Msg::PaperSizeSelected(index) => choose_size(dialog, index),
        Msg::DuplexSelected(index) => choose_duplex(dialog, index),
        Msg::PagesPerSheetSelected(index) => choose_pages_per_sheet(dialog, index),
        Msg::MarginsSelected(margins) => choose_margins(dialog, margins),
        Msg::CustomMarginVtSelected(index) => choose_vertical_margins(dialog, index),
        Msg::CustomMarginHzSelected(index) => choose_horizontal_margins(dialog, index),
        Msg::BorderSelected(border) => choose_border(dialog, border),
        Msg::ScalingSelected(scaling) => choose_scaling(dialog, scaling),
        Msg::PaperTraySelected(index) => choose_tray(dialog, index),
        Msg::PaperTypeSelected(index) => choose_paper_type(dialog, index),
        Msg::PrintQualitySelected(index) => choose_quality(dialog, index),
        Msg::PresetSelected(index) => dialog.apply_preset(index),
        Msg::OpenSavePresetDialog(name) => ask_preset_name(dialog, name),
        Msg::AddNewPresetInEditor(name) => ask_preset_name(dialog, name),
        Msg::SavePresetNameInputChanged(val) => type_preset_name(dialog, val),
        Msg::ConfirmSavePreset => save_preset(dialog, millis),
        Msg::OpenEditPresetsDialog => open_preset_list(dialog),
        Msg::PresetRowNameInputChanged(val) => type_row_name(dialog, val),
        Msg::SavePresetRowName(idx) => save_row_name(dialog, idx),
        Msg::DeletePresetRow(idx) => delete_row(dialog, idx),
        Msg::CommitEdit => commit_preset_edit(dialog),
        _ => {},
    }
}

/// Selects a printer.
fn select_printer(dialog: &mut PrintDialog, index: usize) -> (r: DialogTask)
    ensures
        (final(dialog)@, r@) == old(dialog)@.printer_selected(index),
{
    proof {
        reveal(DialogView::printer_selected);
        reveal(PrintDialog::model);
    }
    if index < dialog.printers.len() {
        assert(dialog@.printers[index as int] == dialog.printers@[index as int]@);
        dialog.selected_printer_index = Some(index);
        DialogTask::LoadDetails(fetch_printer_details(&dialog.printers[index]))
    } else {
        DialogTask::Nothing
    }
}

/// Leaves what is being done: the typing of a name first, then the part of the dialog.
fn escape(dialog: &mut PrintDialog)
    ensures
        final(dialog)@ == old(dialog)@.escaped(),
{
    proof {
        reveal(DialogView::escaped);
        reveal(PrintDialog::model);
    }
    if dialog.editing_preset_row.is_some() {
        commit_preset_edit(dialog);
    } else {
        dialog.active_view = ActiveView::Main;
    }
}

/// Whatever happens, the printer that writes a PDF file stays in the list, before all others.
pub proof fn law_pdf_printer_stays_first(d: DialogView, msg: Msg, millis: u64)
    requires
        d.wf(),
    ensures
        step(d, msg, millis).0.wf(),
{
    match msg {
        Msg::PrintersLoaded(_) => {
            reveal(DialogView::printers_loaded);
            reveal(DialogView::with_printers);
        },
        Msg::DiscoveryEvent(DiscoveryEvent::PrinterAdded(printer)) => {
            reveal(DialogView::printer_added);
        },
        Msg::DiscoveryEvent(DiscoveryEvent::PrinterRemoved { id, backend }) => {
            reveal(DialogView::printer_removed);
            lemma_without_printer_first(d.printers, id@, backend@);
        },
        Msg::DiscoveryEvent(DiscoveryEvent::PrinterStateChanged { .. }) => {
            reveal(DialogView::printer_changed);
        },
        Msg::DiscoveryEvent(DiscoveryEvent::Other) => {},
        Msg::PrinterSelected(_) => {
            reveal(DialogView::printer_selected);
        },
        Msg::EscapePressed => {
            reveal(DialogView::escaped);
            reveal(DialogView::edit_committed);
        },
        Msg::ToggleEditPresetRow(_) => {
            reveal(DialogView::row_toggled);
            reveal(DialogView::edit_committed);
        },
        _ => {
            lemma_settled_keeps_printers(d, msg, millis);
        },
    }
}

/// A message that asks for no task leaves the list of printers as it is.
proof fn lemma_settled_keeps_printers(d: DialogView, msg: Msg, millis: u64)
    ensures
        settled(d, msg, millis).printers == d.printers,
{
    match msg {
        Msg::PrinterDetailsLoaded(_, _, _) => {
            reveal(DialogView::details_taken);
            reveal(DialogView::with_pdf_details);
            reveal(DialogView::with_printer_details);
        },
        Msg::NavigateTo(_) => {
            reveal(DialogView::navigated);
            reveal(DialogView::edit_committed);
        },
        Msg::CustomRangeInputChanged(_) => {
            reveal(DialogView::range_typed);
        },
        Msg::IncrementCopies => {
            reveal(DialogView::copies_incremented);
        },
        Msg::DecrementCopies => {
            reveal(DialogView::copies_decremented);
        },
        Msg::IncrementScaling => {
            reveal(DialogView::scaling_incremented);
        },
        Msg::DecrementScaling => {
            reveal(DialogView::scaling_decremented);
        },
        Msg::ToggleCollate => {
            reveal(DialogView::collate_toggled);
        },
        Msg::TogglePrintHeaderFooter => {
            reveal(DialogView::header_footer_toggled);
        },
        Msg::TogglePrintBackground => {
            reveal(DialogView::background_toggled);
        },
        Msg::ToggleReverseOrder => {
            reveal(DialogView::reverse_toggled);
        },
        Msg::PaperSizeSelected(_) => {
            reveal(DialogView::size_chosen);
        },
        Msg::DuplexSelected(_) => {
            reveal(DialogView::duplex_chosen);
        },
        Msg::PagesPerSheetSelected(_) => {
            reveal(DialogView::pages_per_sheet_chosen);
        },
        Msg::MarginsSelected(_) => {
            reveal(DialogView::margins_chosen);
        },
        Msg::CustomMarginVtSelected(_) => {
            reveal(DialogView::vertical_margins_chosen);
        },
        Msg::CustomMarginHzSelected(_) => {
            reveal(DialogView::horizontal_margins_chosen);
        },
        Msg::BorderSelected(_) => {
            reveal(DialogView::border_chosen);
        },
        Msg::ScalingSelected(_) => {
            reveal(DialogView::scaling_chosen);
        },
        Msg::PaperTraySelected(_) => {
            reveal(DialogView::tray_chosen);
        },
        Msg::PaperTypeSelected(_) => {
            reveal(DialogView::paper_type_chosen);
        },
        Msg::PrintQualitySelected(_) => {
            reveal(DialogView::quality_chosen);
        },
        Msg::PresetSelected(_) => {
            reveal(DialogView::with_preset);
        },
        Msg::SavePresetNameInputChanged(_) => {
            reveal(DialogView::preset_name_typed);
        },
        Msg::ConfirmSavePreset => {
            reveal(DialogView::preset_saved);
        },
        Msg::PresetRowNameInputChanged(_) => {
            reveal(DialogView::row_name_typed);
        },
        Msg::SavePresetRowName(_) => {
            reveal(DialogView::row_name_saved);
        },
        Msg::DeletePresetRow(_) => {
            reveal(DialogView::row_deleted);
        },
        Msg::CommitEdit => {
            reveal(DialogView::edit_committed);
        },
        Msg::OpenSavePresetDialog(_) | Msg::AddNewPresetInEditor(_) => {
            reveal(DialogView::preset_name_asked);
            reveal(DialogView::edit_committed);
        },
        Msg::OpenEditPresetsDialog => {
            reveal(DialogView::preset_list_opened);
            reveal(DialogView::edit_committed);
        },
        _ => {},
    }
}

/// Changes the dialog by a message that is handled at a time, and says what is to be done next.
pub fn update_at(dialog: &mut PrintDialog, msg: Msg, millis: u64) -> (r: DialogTask)
    requires
        old(dialog).wf(),
    ensures
        (final(dialog)@, r@) == step(old(dialog)@, msg, millis),
        final(dialog).wf(),
{
    proof {
        law_pdf_printer_stays_first(dialog@, msg, millis);
    }
    match msg {
        Msg::PrintersLoaded(printers) => printers_loaded(dialog, printers),
        Msg::DiscoveryEvent(event) => match event {
            DiscoveryEvent::PrinterAdded(printer) => printer_added(dialog, printer),
            DiscoveryEvent::PrinterRemoved { id, backend } => printer_removed(
                dialog,
                id.as_str(),
                backend.as_str(),
            ),
            DiscoveryEvent::PrinterStateChanged { id, backend, state, accepting_jobs } => {
                printer_changed(dialog, id.as_str(), backend.as_str(), state, accepting_jobs);
                DialogTask::Nothing
            },
            DiscoveryEvent::Other => DialogTask::Nothing,
        },
        Msg::PrinterSelected(index) => select_printer(dialog, index),
        Msg::EscapePressed => {
            escape(dialog);
            DialogTask::Nothing
        },
        Msg::ToggleEditPresetRow(idx) => toggle_row(dialog, idx),
        other => {
            settle(dialog, other, millis);
            DialogTask::Nothing
        },
    }
}

/// Changes the dialog by a message, and says what is to be done next.
pub fn update(dialog: &mut PrintDialog, msg: Msg) -> (r: DialogTask)
    requires
        old(dialog).wf(),
    ensures
        exists|millis: u64| (final(dialog)@, r@) == #[trigger] step(old(dialog)@, msg, millis),
        final(dialog).wf(),
{
    let millis: u64 = unix_millis();
    update_at(dialog, msg, millis)
}

/// The name to begin with for a preset that is made at a time of day.
pub fn preset_name_at(now: String) -> (r: Label)
    ensures
        r@ == message_with("preset-default-name"@, "timestamp"@, PhraseView::Text(now@)),
{
    Label::message_with("preset-default-name", "timestamp", Phrase::Text(now))
}

/// The name to begin with for a preset that is made now.
pub fn default_preset_name() -> (r: Label)
    ensures
        exists|now: Seq<char>|
            r@ == #[trigger] message_with("preset-default-name"@, "timestamp"@, PhraseView::Text(now)),
{
    preset_name_at(local_minute())
}

/// What was learnt of a printer by asking for its details.
#[derive(Debug)]
pub struct DetailsReply {
    /// The labels of values, if they could be had.
    pub translations: Option<Dict<String>>,
    /// The options and the sizes of paper, if they could be had.
    pub details: Option<(Dict<OptionInfo>, MediaCollection)>,
}

/// The message that follows from the details of a printer. Without a reply from the service there
/// are neither options nor sizes nor labels; what of a reply is missing is empty.
pub fn details_loaded(reply: Option<DetailsReply>) -> (r: Msg)
    ensures
        match r {
            Msg::PrinterDetailsLoaded(options, media, translations) => match reply {
                Some(reply) => {
                    &&& match reply.translations {
                        Some(given) => translations == given,
                        None => translations@ == Map::<Seq<char>, String>::empty(),
                    }
                    &&& match reply.details {
                        Some(given) => options == given.0 && media == given.1,
                        None => {
                            &&& options@ == Map::<Seq<char>, OptionInfo>::empty()
                            &&& media@ == Seq::<MediaView>::empty()
                        },
                    }
                },
                None => {
                    &&& options@ == Map::<Seq<char>, OptionInfo>::empty()
                    &&& media@ == Seq::<MediaView>::empty()
                    &&& translations@ == Map::<Seq<char>, String>::empty()
                },
            },
            _ => false,
        },
{
    match reply {
        Some(reply) => {
            let translations = match reply.translations {
                Some(given) => given,
                None => Dict::new(),
            };
            match reply.details {
                Some((options, media)) => Msg::PrinterDetailsLoaded(options, media, translations),
                None => Msg::PrinterDetailsLoaded(
                    Dict::new(),
                    MediaCollection::default(),
                    translations,
                ),
            }
        },
        None => Msg::PrinterDetailsLoaded(Dict::new(), MediaCollection::default(), Dict::new()),
    }
}

/// The message with the details of the printer that writes a PDF file.
pub fn pdf_details() -> (r: Msg)
    ensures
        match r {
            Msg::PrinterDetailsLoaded(options, media, translations) => {
                &&& options@ == Map::<Seq<char>, OptionInfo>::empty()
                &&& media@ == pdf_media()
                &&& translations@ == Map::<Seq<char>, String>::empty()
            },
            _ => false,
        },
{
    Msg::PrinterDetailsLoaded(Dict::new(), default_pdf_media(), Dict::new())
}


/// The presets that are always there, of a list.
pub open spec fn builtin_rows(presets: Seq<PresetView>) -> Seq<PresetView>
    decreases presets.len(),
{
    if presets.len() == 0 {
        Seq::empty()
    } else if presets.last().is_builtin {
        builtin_rows(presets.drop_last()).push(presets.last())
    } else {
        builtin_rows(presets.drop_last())
    }
}

/// Renaming a custom preset leaves the built-in ones as they are.
proof fn lemma_row_named_keeps_builtin(presets: Seq<PresetView>, idx: usize, typed: Seq<char>)
    ensures
        builtin_rows(row_named(presets, idx, typed)) == builtin_rows(presets),
    decreases presets.len(),
{
    let new = row_named(presets, idx, typed);
    if presets.len() > 0 {
        if idx < presets.len() - 1 {
            assert(new.drop_last() =~= row_named(presets.drop_last(), idx, typed));
            lemma_row_named_keeps_builtin(presets.drop_last(), idx, typed);
        } else {
            assert(new.drop_last() =~= presets.drop_last());
        }
    }
}

/// Removing a custom preset leaves the built-in ones as they are.
proof fn lemma_remove_keeps_builtin(presets: Seq<PresetView>, idx: int)
    requires
        0 <= idx < presets.len(),
        !presets[idx].is_builtin,
    ensures
        builtin_rows(presets.remove(idx)) == builtin_rows(presets),
    decreases presets.len(),
{
    if idx < presets.len() - 1 {
        assert(presets.remove(idx).drop_last() =~= presets.drop_last().remove(idx));
        assert(presets.remove(idx).last() == presets.last());
        lemma_remove_keeps_builtin(presets.drop_last(), idx);
    } else {
        assert(presets.remove(idx) =~= presets.drop_last());
    }
}

/// Taking over a name that was being typed leaves the built-in presets as they are.
proof fn lemma_edit_keeps_builtin(d: DialogView)
    ensures
        builtin_rows(d.edit_committed().presets) == builtin_rows(d.presets),
{
    reveal(DialogView::edit_committed);
    if let Some(idx) = d.editing_preset_row {
        lemma_row_named_keeps_builtin(d.presets, idx, d.editing_preset_name_input);
    }
}

/// No message renames, changes, removes or adds a preset that is always there.
pub proof fn law_builtin_presets_stay(d: DialogView, msg: Msg, millis: u64)
    ensures
        builtin_rows(step(d, msg, millis).0.presets) == builtin_rows(d.presets),
{
    lemma_edit_keeps_builtin(d);
    match msg {
        Msg::PrintersLoaded(_) => {
            reveal(DialogView::printers_loaded);
            reveal(DialogView::with_printers);
        },
        Msg::DiscoveryEvent(DiscoveryEvent::PrinterAdded(_)) => {
            reveal(DialogView::printer_added);
        },
        Msg::DiscoveryEvent(DiscoveryEvent::PrinterRemoved { .. }) => {
            reveal(DialogView::printer_removed);
        },
        Msg::DiscoveryEvent(DiscoveryEvent::PrinterStateChanged { .. }) => {
            reveal(DialogView::printer_changed);
        },
        Msg::DiscoveryEvent(DiscoveryEvent::Other) => {},
        Msg::PrinterSelected(_) => {
            reveal(DialogView::printer_selected);
        },
        Msg::EscapePressed => {
            reveal(DialogView::escaped);
        },
        Msg::ToggleEditPresetRow(_) => {
            reveal(DialogView::row_toggled);
        },
        Msg::ConfirmSavePreset => {
            reveal(DialogView::preset_saved);
            let preset = d.current_preset(trimmed(d.save_preset_name_input), millis);
            assert(d.presets.push(preset).drop_last() =~= d.presets);
        },
        Msg::SavePresetRowName(idx) => {
            reveal(DialogView::row_name_saved);
            lemma_row_named_keeps_builtin(d.presets, idx, d.editing_preset_name_input);
        },
        Msg::DeletePresetRow(idx) => {
            reveal(DialogView::row_deleted);
            if d.is_custom_row(idx) {
                lemma_remove_keeps_builtin(d.presets, idx as int);
            }
        },
        _ => {
            lemma_settled_keeps_presets(d, msg, millis);
        },
    }
}

/// A message that neither saves, renames nor removes a preset changes them at most by taking over a
/// name that was being typed.
proof fn lemma_settled_keeps_presets(d: DialogView, msg: Msg, millis: u64)
    requires
        !(msg is ConfirmSavePreset),
        !(msg is SavePresetRowName),
        !(msg is DeletePresetRow),
    ensures
        settled(d, msg, millis).presets == d.presets || settled(d, msg, millis).presets
            == d.edit_committed().presets,
{
    match msg {
        Msg::PrinterDetailsLoaded(_, _, _) => {
            reveal(DialogView::details_taken);
            reveal(DialogView::with_pdf_details);
            reveal(DialogView::with_printer_details);
        },
        Msg::NavigateTo(_) => {
            reveal(DialogView::navigated);
        },
        Msg::CustomRangeInputChanged(_) => {
            reveal(DialogView::range_typed);
        },
        Msg::IncrementCopies => {
            reveal(DialogView::copies_incremented);
        },
        Msg::DecrementCopies => {
            reveal(DialogView::copies_decremented);
        },
        Msg::IncrementScaling => {
            reveal(DialogView::scaling_incremented);
        },
        Msg::DecrementScaling => {
            reveal(DialogView::scaling_decremented);
        },
        Msg::ToggleCollate => {
            reveal(DialogView::collate_toggled);
        },
        Msg::TogglePrintHeaderFooter => {
            reveal(DialogView::header_footer_toggled);
        },
        Msg::TogglePrintBackground => {
            reveal(DialogView::background_toggled);
        },
        Msg::ToggleReverseOrder => {
            reveal(DialogView::reverse_toggled);
        },
        Msg::PaperSizeSelected(_) => {
            reveal(DialogView::size_chosen);
        },
        Msg::DuplexSelected(_) => {
            reveal(DialogView::duplex_chosen);
        },
        Msg::PagesPerSheetSelected(_) => {
            reveal(DialogView::pages_per_sheet_chosen);
        },
        Msg::MarginsSelected(_) => {
            reveal(DialogView::margins_chosen);
        },
        Msg::CustomMarginVtSelected(_) => {
            reveal(DialogView::vertical_margins_chosen);
        },
        Msg::CustomMarginHzSelected(_) => {
            reveal(DialogView::horizontal_margins_chosen);
        },
        Msg::BorderSelected(_) => {
            reveal(DialogView::border_chosen);
        },
        Msg::ScalingSelected(_) => {
            reveal(DialogView::scaling_chosen);
        },
        Msg::PaperTraySelected(_) => {
            reveal(DialogView::tray_chosen);
        },
        Msg::PaperTypeSelected(_) => {
            reveal(DialogView::paper_type_chosen);
        },
        Msg::PrintQualitySelected(_) => {
            reveal(DialogView::quality_chosen);
        },
        Msg::PresetSelected(_) => {
            reveal(DialogView::with_preset);
        },
        Msg::SavePresetNameInputChanged(_) => {
            reveal(DialogView::preset_name_typed);
        },
        Msg::PresetRowNameInputChanged(_) => {
            reveal(DialogView::row_name_typed);
        },
        Msg::OpenEditPresetsDialog => {
            reveal(DialogView::preset_list_opened);
        },
        Msg::OpenSavePresetDialog(_) | Msg::AddNewPresetInEditor(_) => {
            reveal(DialogView::preset_name_asked);
        },
        _ => {},
    }
}

/// A preset that was just saved gives the options back when it is chosen. The number of copies is
/// at least one, colours need a printer that has them, and a custom range is the one that was
/// typed last.
pub proof fn law_saved_preset_restores_options(d: DialogView, millis: u64)
    requires
        trimmed(d.save_preset_name_input).len() > 0,
        d.presets.len() < usize::MAX,
    ensures
        ({
            let saved = d.preset_saved(millis);
            let restored = saved.with_preset(d.presets.len() as usize);
            &&& saved.selected_preset_index == Some(d.presets.len() as usize)
            &&& restored.presets == saved.presets
            &&& restored.orientation == d.orientation
            &&& restored.collate == d.collate
            &&& restored.pages_per_sheet_index == d.pages_per_sheet_index
            &&& restored.layout_direction == d.layout_direction
            &&& restored.margins == d.margins
            &&& restored.scaling == d.scaling
            &&& restored.custom_scaling_input == d.custom_scaling_input
            &&& restored.custom_range_input == d.custom_range_input
            &&& restored.page_selection == match d.page_selection {
                PageSetView::Custom(_) => PageSetView::Custom(d.custom_range_input),
                other => other,
            }
            &&& d.copies >= 1 ==> restored.copies == d.copies
            &&& d.color_supported ==> restored.color_mode == d.color_mode
            &&& !d.color_supported ==> restored.color_mode == ColorMode::Monochrome
            &&& restored.duplex_index == sanitized(d.duplex_index, d.duplex_values.len())
        }),
{
    reveal(DialogView::preset_saved);
    reveal(DialogView::with_preset);
    law_identifiers_name_choices(
        match d.page_selection {
            PageSetView::Custom(_) => PageSetView::Custom(d.custom_range_input),
            other => other,
        },
        d.color_mode,
        d.orientation,
        d.layout_direction,
        d.margins,
        d.scaling,
    );
    lemma_page_set_from_id(d.page_selection, d.custom_range_input);
}

/// The custom text matters for a custom selection alone.
proof fn lemma_page_set_from_id(pages: PageSetView, text: Seq<char>)
    ensures
        PageSetView::from_id(pages.id(), text) == match pages {
            PageSetView::Custom(_) => PageSetView::Custom(text),
            other => other,
        },
{
    let shown = match pages {
        PageSetView::Custom(_) => PageSetView::Custom(text),
        other => other,
    };
    law_identifiers_name_choices(
        shown,
        ColorMode::Color,
        Orientation::Portrait,
        LayoutDirection::LeftToRightTopToBottom,
        Margins::Default,
        ScalingMode::Auto,
    );
}

} // verus!
