//! The state of the dialog and how messages change it.

use crate::clock::unix_millis;
use crate::config::print::{preset_views, builtin_presets, PresetView, Print, PrintPreset};
use crate::dict::Dict;
use crate::print_dialog::choices::{
    ActiveView, Border, ColorMode, LayoutDirection, Margins, Orientation, PageSetSelection,
    PageSetView, ScalingMode,
};
use crate::print_dialog::page_range::{valid_range, validate_page_range};
use crate::print_dialog::printers::{
    default_pdf_margins, default_pdf_media, is_pdf_printer, margin_options, option_views,
    pdf_margin_options, pdf_media, pdf_printer, pdf_printer_id, printer_views, sanitize_index,
    sanitized, save_as_pdf_printer, MarginOptions, MarginOptionsView, MediaCollection, MediaView,
    OptionInfo, OptionView, PrinterSnapshot, PrinterView,
};
use crate::seqs::at;
use crate::text::{concat, decimal, to_decimal, trimmed, view_opt, views};
use vstd::prelude::*;

verus! {

/// The state of the dialog.
#[derive(Debug)]
pub struct PrintDialog {
    pub is_discovering: bool,
    pub printers: Vec<PrinterSnapshot>,
    pub selected_printer_index: Option<usize>,
    pub printer_options: Option<Dict<OptionInfo>>,
    pub printer_media: Option<MediaCollection>,
    /// Labels that the backend gives to values of options.
    pub translations: Dict<String>,
    pub active_view: ActiveView,
    pub page_selection: PageSetSelection,
    pub custom_range_input: String,
    pub custom_range_valid: bool,
    pub copies: u32,
    pub collate: bool,
    pub selected_paper_size_index: Option<usize>,
    pub color_supported: bool,
    pub duplex_values: Vec<String>,
    pub duplex_index: Option<usize>,
    pub media_source_values: Vec<String>,
    pub paper_tray_index: Option<usize>,
    pub media_type_values: Vec<String>,
    pub paper_type_index: Option<usize>,
    pub print_quality_values: Vec<String>,
    pub print_quality_index: Option<usize>,
    pub color_mode: ColorMode,
    pub orientation: Orientation,
    pub pages_per_sheet_index: Option<usize>,
    pub layout_direction: LayoutDirection,
    pub margins: Margins,
    pub margin_options: MarginOptions,
    pub custom_margins_vertical_index: Option<usize>,
    pub custom_margins_horizontal_index: Option<usize>,
    pub border: Border,
    pub scaling: ScalingMode,
    pub custom_scaling_input: u32,
    pub show_print_header_footer_toggle: bool,
    pub print_header_footer: bool,
    pub show_print_background_toggle: bool,
    pub print_background: bool,
    pub reverse_order: bool,
    pub accept_label: Option<String>,
    pub presets: Vec<PrintPreset>,
    pub selected_preset_index: Option<usize>,
    pub save_preset_name_input: String,
    pub editing_preset_row: Option<usize>,
    pub editing_preset_name_input: String,
}

/// The state of the dialog, as a value.
pub struct DialogView {
    pub is_discovering: bool,
    pub printers: Seq<PrinterView>,
    pub selected_printer_index: Option<usize>,
    pub printer_options: Option<Map<Seq<char>, OptionView>>,
    pub printer_media: Option<Seq<MediaView>>,
    pub translations: Map<Seq<char>, Seq<char>>,
    pub active_view: ActiveView,
    pub page_selection: PageSetView,
    pub custom_range_input: Seq<char>,
    pub custom_range_valid: bool,
    pub copies: u32,
    pub collate: bool,
    pub selected_paper_size_index: Option<usize>,
    pub color_supported: bool,
    pub duplex_values: Seq<Seq<char>>,
    pub duplex_index: Option<usize>,
    pub media_source_values: Seq<Seq<char>>,
    pub paper_tray_index: Option<usize>,
    pub media_type_values: Seq<Seq<char>>,
    pub paper_type_index: Option<usize>,
    pub print_quality_values: Seq<Seq<char>>,
    pub print_quality_index: Option<usize>,
    pub color_mode: ColorMode,
    pub orientation: Orientation,
    pub pages_per_sheet_index: Option<usize>,
    pub layout_direction: LayoutDirection,
    pub margins: Margins,
    pub margin_options: MarginOptionsView,
    pub custom_margins_vertical_index: Option<usize>,
    pub custom_margins_horizontal_index: Option<usize>,
    pub border: Border,
    pub scaling: ScalingMode,
    pub custom_scaling_input: u32,
    pub show_print_header_footer_toggle: bool,
    pub print_header_footer: bool,
    pub show_print_background_toggle: bool,
    pub print_background: bool,
    pub reverse_order: bool,
    pub accept_label: Option<Seq<char>>,
    pub presets: Seq<PresetView>,
    pub selected_preset_index: Option<usize>,
    pub save_preset_name_input: Seq<char>,
    pub editing_preset_row: Option<usize>,
    pub editing_preset_name_input: Seq<char>,
}

/// Texts by name, as values.
pub open spec fn text_views(texts: Map<Seq<char>, String>) -> Map<Seq<char>, Seq<char>> {
    texts.map_values(|text: String| text@)
}

impl PrintDialog {
    /// The state as a value, field by field.
    #[verifier::opaque]
    pub open spec fn model(&self) -> DialogView {
        DialogView {
            is_discovering: self.is_discovering,
            printers: printer_views(self.printers@),
            selected_printer_index: self.selected_printer_index,
            printer_options: match self.printer_options {
                Some(options) => Some(option_views(options@)),
                None => None,
            },
            printer_media: match self.printer_media {
                Some(media) => Some(media@),
                None => None,
            },
            translations: text_views(self.translations@),
            active_view: self.active_view,
            page_selection: self.page_selection@,
            custom_range_input: self.custom_range_input@,
            custom_range_valid: self.custom_range_valid,
            copies: self.copies,
            collate: self.collate,
            selected_paper_size_index: self.selected_paper_size_index,
            color_supported: self.color_supported,
            duplex_values: views(self.duplex_values@),
            duplex_index: self.duplex_index,
            media_source_values: views(self.media_source_values@),
            paper_tray_index: self.paper_tray_index,
            media_type_values: views(self.media_type_values@),
            paper_type_index: self.paper_type_index,
            print_quality_values: views(self.print_quality_values@),
            print_quality_index: self.print_quality_index,
            color_mode: self.color_mode,
            orientation: self.orientation,
            pages_per_sheet_index: self.pages_per_sheet_index,
            layout_direction: self.layout_direction,
            margins: self.margins,
            margin_options: self.margin_options@,
            custom_margins_vertical_index: self.custom_margins_vertical_index,
            custom_margins_horizontal_index: self.custom_margins_horizontal_index,
            border: self.border,
            scaling: self.scaling,
            custom_scaling_input: self.custom_scaling_input,
            show_print_header_footer_toggle: self.show_print_header_footer_toggle,
            print_header_footer: self.print_header_footer,
            show_print_background_toggle: self.show_print_background_toggle,
            print_background: self.print_background,
            reverse_order: self.reverse_order,
            accept_label: view_opt(self.accept_label),
            presets: preset_views(self.presets@),
            selected_preset_index: self.selected_preset_index,
            save_preset_name_input: self.save_preset_name_input@,
            editing_preset_row: self.editing_preset_row,
            editing_preset_name_input: self.editing_preset_name_input@,
        }
    }
}

impl View for PrintDialog {
    type V = DialogView;

    open spec fn view(&self) -> DialogView {
        self.model()
    }
}

/// The state in which a dialog opens.
pub open spec fn initial_dialog() -> DialogView {
    DialogView {
        is_discovering: true,
        printers: seq![pdf_printer()],
        selected_printer_index: Some(0usize),
        printer_options: None,
        printer_media: Some(pdf_media()),
        translations: Map::empty(),
        active_view: ActiveView::Main,
        page_selection: PageSetView::All,
        custom_range_input: Seq::empty(),
        custom_range_valid: true,
        copies: 1,
        collate: false,
        selected_paper_size_index: Some(0usize),
        color_supported: true,
        duplex_values: Seq::empty(),
        duplex_index: None,
        media_source_values: Seq::empty(),
        paper_tray_index: None,
        media_type_values: Seq::empty(),
        paper_type_index: None,
        print_quality_values: Seq::empty(),
        print_quality_index: None,
        color_mode: ColorMode::Color,
        orientation: Orientation::Portrait,
        pages_per_sheet_index: Some(0usize),
        layout_direction: LayoutDirection::LeftToRightTopToBottom,
        margins: Margins::Default,
        margin_options: pdf_margin_options(),
        custom_margins_vertical_index: Some(0usize),
        custom_margins_horizontal_index: Some(0usize),
        border: Border::NoBorder,
        scaling: ScalingMode::Auto,
        custom_scaling_input: 100,
        show_print_header_footer_toggle: false,
        print_header_footer: false,
        show_print_background_toggle: false,
        print_background: false,
        reverse_order: false,
        accept_label: None,
        presets: builtin_presets(),
        selected_preset_index: Some(0usize),
        save_preset_name_input: Seq::empty(),
        editing_preset_row: None,
        editing_preset_name_input: Seq::empty(),
    }
}

/// Presets with a custom one renamed to what was typed, unless that is blank.
pub open spec fn row_named(presets: Seq<PresetView>, idx: usize, typed: Seq<char>) -> Seq<PresetView> {
    let name = trimmed(typed);
    if idx < presets.len() && !presets[idx as int].is_builtin && name.len() > 0 {
        presets.update(idx as int, PresetView { name, ..presets[idx as int] })
    } else {
        presets
    }
}

impl DialogView {
    /// The printer that writes a PDF file is always there, before all others.
    pub open spec fn wf(self) -> bool {
        self.printers.len() > 0 && self.printers[0].id == pdf_printer_id()
    }

    /// The printer that is selected.
    pub open spec fn selected_printer(self) -> Option<PrinterView> {
        at(self.printers, self.selected_printer_index)
    }

    /// Whether the selected printer writes a file.
    pub open spec fn pdf_selected(self) -> bool {
        match self.selected_printer() {
            Some(printer) => printer.is_pdf(),
            None => false,
        }
    }

    /// The state with every index made to point into its list.
    pub open spec fn sanitized_options(self) -> DialogView {
        DialogView {
            color_mode: if self.color_supported {
                self.color_mode
            } else {
                ColorMode::Monochrome
            },
            duplex_index: sanitized(self.duplex_index, self.duplex_values.len()),
            paper_tray_index: sanitized(self.paper_tray_index, self.media_source_values.len()),
            paper_type_index: sanitized(self.paper_type_index, self.media_type_values.len()),
            print_quality_index: sanitized(
                self.print_quality_index,
                self.print_quality_values.len(),
            ),
            selected_paper_size_index: sanitized(
                self.selected_paper_size_index,
                match self.printer_media {
                    Some(media) => media.len(),
                    None => 0,
                },
            ),
            ..self
        }
    }

    /// The state after a preset was chosen. Nothing happens where there is no such preset.
    #[verifier::opaque]
    pub open spec fn with_preset(self, index: usize) -> DialogView {
        if index < self.presets.len() {
            let preset = self.presets[index as int];
            let pages = PageSetView::from_id(preset.page_selection, preset.custom_range_input);
            (DialogView {
                selected_preset_index: Some(index),
                color_mode: ColorMode::spec_from_id(preset.color_mode),
                orientation: Orientation::spec_from_id(preset.orientation),
                duplex_index: preset.duplex_index,
                copies: if preset.copies > 1 {
                    preset.copies
                } else {
                    1
                },
                collate: preset.collate,
                pages_per_sheet_index: preset.pages_per_sheet_index,
                layout_direction: LayoutDirection::spec_from_id(preset.layout_direction),
                margins: Margins::spec_from_id(preset.margins),
                scaling: ScalingMode::spec_from_id(preset.scaling),
                custom_scaling_input: preset.custom_scaling_input,
                page_selection: pages,
                custom_range_input: preset.custom_range_input,
                custom_range_valid: if pages is Custom {
                    valid_range(preset.custom_range_input)
                } else {
                    self.custom_range_valid
                },
                ..self
            }).sanitized_options()
        } else {
            self
        }
    }

    /// The options that are chosen, as a preset that was made at a time.
    pub open spec fn current_preset(self, name: Seq<char>, millis: u64) -> PresetView {
        PresetView {
            id: "custom-"@ + decimal(millis as nat),
            name,
            is_builtin: false,
            color_mode: self.color_mode.spec_id(),
            orientation: self.orientation.spec_id(),
            duplex_index: self.duplex_index,
            copies: self.copies,
            collate: self.collate,
            pages_per_sheet_index: self.pages_per_sheet_index,
            layout_direction: self.layout_direction.spec_id(),
            margins: self.margins.spec_id(),
            scaling: self.scaling.spec_id(),
            custom_scaling_input: self.custom_scaling_input,
            page_selection: self.page_selection.id(),
            custom_range_input: self.custom_range_input,
        }
    }

    /// Whether a row of the list of presets can be renamed and removed.
    pub open spec fn is_custom_row(self, idx: usize) -> bool {
        idx < self.presets.len() && !self.presets[idx as int].is_builtin
    }

    /// The state with a custom preset renamed to what was typed, unless that is blank.
    pub open spec fn with_row_named(self, idx: usize) -> DialogView {
        DialogView {
            presets: row_named(self.presets, idx, self.editing_preset_name_input),
            ..self
        }
    }

    /// The state after a name that was being typed has been taken over.
    #[verifier::opaque]
    pub open spec fn edit_committed(self) -> DialogView {
        match self.editing_preset_row {
            Some(idx) => DialogView { editing_preset_row: None, ..self.with_row_named(idx) },
            None => self,
        }
    }
}

impl PrintDialog {
    /// Whether the printer that writes a PDF file is there, before all others.
    pub open spec fn wf(self) -> bool {
        self@.wf()
    }
}

impl Default for PrintDialog {
    fn default() -> (r: Self)
        ensures
            r@ == initial_dialog(),
            r.wf(),
    {
        proof {
            reveal(PrintDialog::model);
        }
        let r = PrintDialog {
            is_discovering: true,
            printers: vec![save_as_pdf_printer()],
            selected_printer_index: Some(0),
            printer_options: None,
            printer_media: Some(default_pdf_media()),
            translations: Dict::new(),
            active_view: ActiveView::Main,
            page_selection: PageSetSelection::All,
            custom_range_input: String::new(),
            custom_range_valid: true,
            copies: 1,
            collate: false,
            selected_paper_size_index: Some(0),
            color_supported: true,
            duplex_values: Vec::new(),
            duplex_index: None,
            media_source_values: Vec::new(),
            paper_tray_index: None,
            media_type_values: Vec::new(),
            paper_type_index: None,
            print_quality_values: Vec::new(),
            print_quality_index: None,
            color_mode: ColorMode::Color,
            orientation: Orientation::Portrait,
            pages_per_sheet_index: Some(0),
            layout_direction: LayoutDirection::LeftToRightTopToBottom,
            margins: Margins::Default,
            margin_options: default_pdf_margins(),
            custom_margins_vertical_index: Some(0),
            custom_margins_horizontal_index: Some(0),
            border: Border::NoBorder,
            scaling: ScalingMode::Auto,
            custom_scaling_input: 100,
            show_print_header_footer_toggle: false,
            print_header_footer: false,
            show_print_background_toggle: false,
            print_background: false,
            reverse_order: false,
            accept_label: None,
            presets: Print::default().all_presets(),
            selected_preset_index: Some(0),
            save_preset_name_input: String::new(),
            editing_preset_row: None,
            editing_preset_name_input: String::new(),
        };
        proof {
            assert(r@.printers =~= initial_dialog().printers);
            assert(r@.translations =~= initial_dialog().translations);
            assert(r@.duplex_values =~= initial_dialog().duplex_values);
            assert(r@.media_source_values =~= initial_dialog().media_source_values);
            assert(r@.media_type_values =~= initial_dialog().media_type_values);
            assert(r@.print_quality_values =~= initial_dialog().print_quality_values);
            assert(preset_views(Seq::<PrintPreset>::empty()) =~= Seq::<PresetView>::empty());
            assert(r@.presets =~= initial_dialog().presets);
        }
        r
    }
}

impl PrintDialog {
    /// Whether the selected printer writes a file.
    pub fn is_pdf_selected(&self) -> (r: bool)
        ensures
            r == self@.pdf_selected(),
    {
        proof {
            reveal(PrintDialog::model);
        }
        match self.selected_printer_index {
            Some(i) => if i < self.printers.len() {
                assert(self@.printers[i as int] == self.printers@[i as int]@);
                is_pdf_printer(&self.printers[i])
            } else {
                false
            },
            None => false,
        }
    }

    /// Makes every index point into its list.
    pub fn sanitize_printer_options(&mut self)
        ensures
            final(self)@ == old(self)@.sanitized_options(),
    {
        proof {
            reveal(PrintDialog::model);
        }
        if !self.color_supported {
            self.color_mode = ColorMode::Monochrome;
        }
        self.duplex_index = sanitize_index(self.duplex_index, self.duplex_values.len());
        self.paper_tray_index = sanitize_index(
            self.paper_tray_index,
            self.media_source_values.len(),
        );
        self.paper_type_index = sanitize_index(self.paper_type_index, self.media_type_values.len());
        self.print_quality_index = sanitize_index(
            self.print_quality_index,
            self.print_quality_values.len(),
        );
        let media_len: usize = match &self.printer_media {
            Some(media) => media.len(),
            None => 0,
        };
        self.selected_paper_size_index = sanitize_index(self.selected_paper_size_index, media_len);
    }

    /// Takes over the options of a preset. Nothing happens where there is no such preset.
    pub fn apply_preset(&mut self, index: usize)
        ensures
            final(self)@ == old(self)@.with_preset(index),
    {
        proof {
            reveal(PrintDialog::model);
            reveal(DialogView::with_preset);
        }
        if index >= self.presets.len() {
            return;
        }
        let preset = self.presets[index].clone();
        assert(self@.presets[index as int] == preset@);
        self.selected_preset_index = Some(index);
        self.color_mode = ColorMode::from_id(preset.color_mode.as_str());
        self.orientation = Orientation::from_id(preset.orientation.as_str());
        self.duplex_index = preset.duplex_index;
        self.copies = if preset.copies > 1 {
            preset.copies
        } else {
            1
        };
        self.collate = preset.collate;
        self.pages_per_sheet_index = preset.pages_per_sheet_index;
        self.layout_direction = LayoutDirection::from_id(preset.layout_direction.as_str());
        self.margins = Margins::from_id(preset.margins.as_str());
        self.scaling = ScalingMode::from_id(preset.scaling.as_str());
        self.custom_scaling_input = preset.custom_scaling_input;
        self.page_selection = PageSetSelection::from_id(
            preset.page_selection.as_str(),
            preset.custom_range_input.as_str(),
        );
        self.custom_range_input = preset.custom_range_input.clone();
        let is_custom: bool = match &self.page_selection {
            PageSetSelection::Custom(_) => true,
            _ => false,
        };
        if is_custom {
            self.custom_range_valid = validate_page_range(self.custom_range_input.as_str());
        }
        self.sanitize_printer_options();
    }

    /// The options that are chosen, as a preset that was made at a time.
    pub fn preset_made_at(&self, name: String, millis: u64) -> (r: PrintPreset)
        ensures
            r@ == self@.current_preset(name@, millis),
    {
        proof {
            reveal(PrintDialog::model);
        }
        PrintPreset {
            id: concat("custom-", to_decimal(millis).as_str()),
            name,
            is_builtin: false,
            color_mode: self.color_mode.id().to_owned(),
            orientation: self.orientation.id().to_owned(),
            duplex_index: self.duplex_index,
            copies: self.copies,
            collate: self.collate,
            pages_per_sheet_index: self.pages_per_sheet_index,
            layout_direction: self.layout_direction.id().to_owned(),
            margins: self.margins.id().to_owned(),
            scaling: self.scaling.id().to_owned(),
            custom_scaling_input: self.custom_scaling_input,
            page_selection: self.page_selection.id().to_owned(),
            custom_range_input: self.custom_range_input.clone(),
        }
    }

    /// The options that are chosen, as a preset that is made now.
    pub fn build_current_preset(&self, name: String) -> (r: PrintPreset)
        ensures
            exists|millis: u64| r@ == self@.current_preset(name@, millis),
    {
        let millis: u64 = unix_millis();
        self.preset_made_at(name, millis)
    }
}


/// The presets that are not always there.
pub open spec fn custom_presets(presets: Seq<PresetView>) -> Seq<PresetView>
    decreases presets.len(),
{
    if presets.len() == 0 {
        Seq::empty()
    } else if presets.last().is_builtin {
        custom_presets(presets.drop_last())
    } else {
        custom_presets(presets.drop_last()).push(presets.last())
    }
}

impl PrintDialog {
    /// The settings to keep: the custom presets and which preset was selected last.
    pub fn to_config_print(&self) -> (r: Print)
        ensures
            preset_views(r.custom_presets@) == custom_presets(self@.presets),
            view_opt(r.last_used_preset_id) == match at(
                self@.presets,
                self@.selected_preset_index,
            ) {
                Some(preset) => Some(preset.id),
                None => None,
            },
    {
        proof {
            reveal(PrintDialog::model);
        }
        let ghost all = preset_views(self.presets@);
        let mut custom: Vec<PrintPreset> = Vec::new();
        let mut i: usize = 0;
        proof {
            assert(all.take(0) =~= Seq::<PresetView>::empty());
            assert(preset_views(custom@) =~= Seq::<PresetView>::empty());
        }
        while i < self.presets.len()
            invariant
                i <= self.presets@.len(),
                all == preset_views(self.presets@),
                preset_views(custom@) == custom_presets(all.take(i as int)),
            decreases self.presets@.len() - i,
        {
            proof {
                assert(all.take(i + 1).drop_last() =~= all.take(i as int));
                assert(all.take(i + 1).last() == self.presets@[i as int]@);
            }
            if !self.presets[i].is_builtin {
                let preset = self.presets[i].clone();
                proof {
                    assert(preset_views(custom@.push(preset)) =~= preset_views(custom@).push(
                        preset@,
                    ));
                }
                custom.push(preset);
            }
            i = i + 1;
        }
        proof {
            assert(all.take(all.len() as int) =~= all);
        }
        let last_used_preset_id: Option<String> = match self.selected_preset_index {
            Some(i) => if i < self.presets.len() {
                assert(all[i as int] == self.presets@[i as int]@);
                Some(self.presets[i].id.clone())
            } else {
                None
            },
            None => None,
        };
        Print { custom_presets: custom, last_used_preset_id }
    }
}

/// After sanitising, every index points into its list or the list is empty, and sanitising once
/// more changes nothing.
pub proof fn law_sanitized_indexes_are_valid(d: DialogView)
    ensures
        ({
            let s = d.sanitized_options();
            &&& s.sanitized_options() == s
            &&& s.duplex_index is Some <==> s.duplex_values.len() > 0
            &&& s.duplex_index is Some ==> s.duplex_index->0 < s.duplex_values.len()
            &&& s.paper_tray_index is Some <==> s.media_source_values.len() > 0
            &&& s.paper_tray_index is Some ==> s.paper_tray_index->0 < s.media_source_values.len()
            &&& s.paper_type_index is Some <==> s.media_type_values.len() > 0
            &&& s.paper_type_index is Some ==> s.paper_type_index->0 < s.media_type_values.len()
            &&& s.print_quality_index is Some <==> s.print_quality_values.len() > 0
            &&& s.print_quality_index is Some ==> s.print_quality_index->0
                < s.print_quality_values.len()
            &&& !s.color_supported ==> s.color_mode == ColorMode::Monochrome
        }),
{
}

} // verus!
