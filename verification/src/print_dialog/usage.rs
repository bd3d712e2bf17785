//! What the user does in the dialog is what the printer does.

use crate::print_dialog::agreement::{
    is_chosen_of, law_backend_collates_as_switched, law_backend_counts_as_shown,
    law_backend_is_told_what_is_selected, law_backend_lays_out_as_chosen,
    law_backend_orders_and_colours_as_switched, law_backend_scales_as_chosen,
};
use crate::print_dialog::choices::{ActiveView, Border, Margins, PageSetView, ScalingMode};
use crate::print_dialog::page_range::valid_range;
use crate::print_dialog::printers::{
    media_names, option_index, option_named, option_values, option_views, printer_views,
    MediaCollection, OptionInfo, OptionView, PrinterSnapshot, PrinterState, PrinterView,
};
use crate::print_dialog::response::cpdb_settings;
use crate::print_dialog::state::DialogView;
use crate::print_dialog::update::{
    printer_position, step, without_pdf, without_printer, DetailsView, DiscoveryEvent, Msg,
    TaskView,
};
use crate::seqs::{at, lemma_first_position_of};
use crate::text::{decimal, trimmed};
use vstd::prelude::*;

verus! {

/// The switch for collating turns around what the printer is told, and a second time turns it back; so
/// does the switch for the order.
pub proof fn law_switches_turn_around(d: DialogView, millis: u64)
    ensures
        ({
            let after = step(d, Msg::ToggleCollate, millis).0;
            &&& cpdb_settings(after).contains(
                ("multiple-document-handling"@, "separate-documents-collated-copies"@),
            ) <==> cpdb_settings(d).contains(
                ("multiple-document-handling"@, "separate-documents-uncollated-copies"@),
            )
            &&& step(after, Msg::ToggleCollate, millis).0 == d
        }),
        ({
            let after = step(d, Msg::ToggleReverseOrder, millis).0;
            &&& cpdb_settings(after).contains(("page-delivery"@, "reverse-order"@))
                <==> cpdb_settings(d).contains(("page-delivery"@, "same-order"@))
            &&& step(after, Msg::ToggleReverseOrder, millis).0 == d
        }),
        ({
            let after = step(d, Msg::TogglePrintHeaderFooter, millis).0;
            &&& after.print_header_footer <==> !d.print_header_footer
            &&& step(after, Msg::TogglePrintHeaderFooter, millis).0 == d
        }),
        ({
            let after = step(d, Msg::TogglePrintBackground, millis).0;
            &&& after.print_background <==> !d.print_background
            &&& step(after, Msg::TogglePrintBackground, millis).0 == d
        }),
{
    reveal(DialogView::collate_toggled);
    reveal(DialogView::reverse_toggled);
    reveal(DialogView::header_footer_toggled);
    reveal(DialogView::background_toggled);
    law_backend_collates_as_switched(d);
    law_backend_collates_as_switched(step(d, Msg::ToggleCollate, millis).0);
    law_backend_orders_and_colours_as_switched(d);
    law_backend_orders_and_colours_as_switched(step(d, Msg::ToggleReverseOrder, millis).0);
}

/// One more copy is one more for the printer, up to 9999, and one less is one less, down to one. They
/// undo each other and change nothing else.
pub proof fn law_copies_are_counted(d: DialogView, millis: u64)
    ensures
        ({
            let more = step(d, Msg::IncrementCopies, millis).0;
            &&& d.copies < 9999 ==> cpdb_settings(more).contains(
                ("copies"@, decimal((d.copies + 1) as nat)),
            ) && step(more, Msg::DecrementCopies, millis).0.copies == (if d.copies == 0 {
                1
            } else {
                d.copies
            })
            &&& 0 < d.copies < 9999 ==> step(more, Msg::DecrementCopies, millis).0 == d
            &&& d.copies >= 9999 ==> more == d
        }),
        ({
            let less = step(d, Msg::DecrementCopies, millis).0;
            &&& d.copies > 1 ==> cpdb_settings(less).contains(
                ("copies"@, decimal((d.copies - 1) as nat)),
            )
            &&& 1 < d.copies <= 9999 ==> step(less, Msg::IncrementCopies, millis).0 == d
            &&& d.copies <= 1 ==> less == d
        }),
{
    reveal(DialogView::copies_incremented);
    reveal(DialogView::copies_decremented);
    let more = step(d, Msg::IncrementCopies, millis).0;
    let less = step(d, Msg::DecrementCopies, millis).0;
    law_backend_counts_as_shown(more, more.copies);
    law_backend_counts_as_shown(less, less.copies);
}

/// One percent more or less; one percent is the least. They undo each other.
pub proof fn law_percents_are_counted(d: DialogView, millis: u64)
    ensures
        ({
            let more = step(d, Msg::IncrementScaling, millis).0;
            let less = step(d, Msg::DecrementScaling, millis).0;
            &&& d.custom_scaling_input < u32::MAX ==> more.custom_scaling_input
                == d.custom_scaling_input + 1
            &&& d.custom_scaling_input > 1 ==> less.custom_scaling_input == d.custom_scaling_input - 1
            &&& d.custom_scaling_input <= 1 ==> less == d
            &&& 0 < d.custom_scaling_input < u32::MAX ==> step(
                more,
                Msg::DecrementScaling,
                millis,
            ).0 == d
        }),
{
    reveal(DialogView::scaling_incremented);
    reveal(DialogView::scaling_decremented);
}

/// What is selected from a list is what the printer is told: sides, tray, type, quality and size of the
/// paper, by its place in the list.
pub proof fn law_selection_reaches_the_printer(d: DialogView, i: usize, millis: u64)
    ensures
        i < d.duplex_values.len() ==> cpdb_settings(
            step(d, Msg::DuplexSelected(i), millis).0,
        ).contains(("sides"@, d.duplex_values[i as int])),
        i < d.media_source_values.len() ==> cpdb_settings(
            step(d, Msg::PaperTraySelected(i), millis).0,
        ).contains(("media-source"@, d.media_source_values[i as int])),
        i < d.media_type_values.len() ==> cpdb_settings(
            step(d, Msg::PaperTypeSelected(i), millis).0,
        ).contains(("media-type"@, d.media_type_values[i as int])),
        i < d.print_quality_values.len() ==> cpdb_settings(
            step(d, Msg::PrintQualitySelected(i), millis).0,
        ).contains(("print-quality"@, d.print_quality_values[i as int])),
        d.printer_media matches Some(media) ==> (i < media.len() ==> cpdb_settings(
            step(d, Msg::PaperSizeSelected(i), millis).0,
        ).contains(("media"@, media[i as int].name))),
        i == 3 ==> cpdb_settings(step(d, Msg::PagesPerSheetSelected(i), millis).0).contains(
            ("number-up"@, decimal(6)),
        ),
        step(d, Msg::PagesPerSheetSelected(i), millis).0.pages_per_sheet_index == Some(i),
{
    reveal(DialogView::duplex_chosen);
    reveal(DialogView::tray_chosen);
    reveal(DialogView::paper_type_chosen);
    reveal(DialogView::quality_chosen);
    reveal(DialogView::size_chosen);
    reveal(DialogView::pages_per_sheet_chosen);
    if i < d.duplex_values.len() {
        law_backend_is_told_what_is_selected(
            step(d, Msg::DuplexSelected(i), millis).0,
            d.duplex_values[i as int],
        );
    }
    if i < d.media_source_values.len() {
        law_backend_is_told_what_is_selected(
            step(d, Msg::PaperTraySelected(i), millis).0,
            d.media_source_values[i as int],
        );
    }
    if i < d.media_type_values.len() {
        law_backend_is_told_what_is_selected(
            step(d, Msg::PaperTypeSelected(i), millis).0,
            d.media_type_values[i as int],
        );
    }
    if i < d.print_quality_values.len() {
        law_backend_is_told_what_is_selected(
            step(d, Msg::PrintQualitySelected(i), millis).0,
            d.print_quality_values[i as int],
        );
    }
    if let Some(media) = d.printer_media {
        if i < media.len() {
            law_backend_is_told_what_is_selected(
                step(d, Msg::PaperSizeSelected(i), millis).0,
                media[i as int].name,
            );
        }
    }
    law_backend_counts_as_shown(step(d, Msg::PagesPerSheetSelected(i), millis).0, 6);
}

/// The same holds for scalings and borders, and the margins that are chosen are those of the dialog. A
/// choice that is made again the other way is undone.
pub proof fn law_choice_reaches_the_printer(
    d: DialogView,
    scaling: ScalingMode,
    border: Border,
    margins: Margins,
    i: usize,
    millis: u64,
)
    ensures
        ({
            let after = step(d, Msg::ScalingSelected(scaling), millis).0;
            &&& after.scaling == scaling
            &&& cpdb_settings(after).contains(("print-scaling"@, "fit"@)) <==> scaling is Fit
            &&& cpdb_settings(after).contains(("print-scaling"@, "fill"@)) <==> scaling is Fill
            &&& step(after, Msg::ScalingSelected(d.scaling), millis).0 == d
        }),
        ({
            let after = step(d, Msg::BorderSelected(border), millis).0;
            &&& after.border == border
            &&& cpdb_settings(after).contains(("page-border"@, "single"@)) <==> border is Single
            &&& cpdb_settings(after).contains(("page-border"@, "double"@)) <==> border is Double
            &&& step(after, Msg::BorderSelected(d.border), millis).0 == d
        }),
        ({
            let after = step(d, Msg::MarginsSelected(margins), millis).0;
            &&& after.margins == margins
            &&& step(after, Msg::MarginsSelected(d.margins), millis).0 == d
        }),
        step(d, Msg::CustomMarginVtSelected(i), millis).0.custom_margins_vertical_index == Some(i),
        step(d, Msg::CustomMarginVtSelected(i), millis).0.custom_margins_horizontal_index
            == d.custom_margins_horizontal_index,
        step(d, Msg::CustomMarginHzSelected(i), millis).0.custom_margins_horizontal_index == Some(i),
        step(d, Msg::CustomMarginHzSelected(i), millis).0.custom_margins_vertical_index
            == d.custom_margins_vertical_index,
{
    reveal(DialogView::scaling_chosen);
    reveal(DialogView::border_chosen);
    reveal(DialogView::margins_chosen);
    reveal(DialogView::vertical_margins_chosen);
    reveal(DialogView::horizontal_margins_chosen);
    law_backend_scales_as_chosen(step(d, Msg::ScalingSelected(scaling), millis).0);
    law_backend_lays_out_as_chosen(step(d, Msg::BorderSelected(border), millis).0);
}

/// A range that is typed is kept as it is typed, is marked where it is not valid, and becomes the pages
/// to print where it is.
pub proof fn law_typed_range_is_printed_where_valid(d: DialogView, range: String, millis: u64)
    ensures
        ({
            let after = step(d, Msg::CustomRangeInputChanged(range), millis).0;
            &&& after.custom_range_input == range@
            &&& after.custom_range_valid <==> valid_range(range@)
            &&& valid_range(range@) ==> after.page_selection == PageSetView::Custom(range@)
            &&& !valid_range(range@) ==> after.page_selection == d.page_selection
            &&& after.copies == d.copies && after.collate == d.collate
        }),
{
    reveal(DialogView::range_typed);
}

/// The printer that is picked is selected, and what it offers is asked of its own backend; a printer that
/// writes a file is not asked. A place without a printer changes nothing.
pub proof fn law_picked_printer_is_selected(d: DialogView, i: usize, millis: u64)
    ensures
        ({
            let (after, task) = step(d, Msg::PrinterSelected(i), millis);
            &&& i < d.printers.len() ==> {
                let printer = d.printers[i as int];
                let file = printer.id == "save-as-pdf"@ || printer.backend == "file"@;
                &&& after.selected_printer() == Some(printer)
                &&& after.printers == d.printers
                &&& file ==> task == TaskView::LoadDetails(DetailsView::Pdf)
                &&& !file ==> task == TaskView::LoadDetails(
                    DetailsView::Query { printer_id: printer.id, backend: printer.backend },
                )
            }
            &&& i >= d.printers.len() ==> after == d && task is Nothing
        }),
{
    reveal(DialogView::printer_selected);
}

/// A printer that is not the PDF printer is kept when the others are sorted out, and no other is.
proof fn lemma_without_pdf(printers: Seq<PrinterView>, printer: PrinterView)
    ensures
        without_pdf(printers).contains(printer) <==> printers.contains(printer) && printer.id
            != "save-as-pdf"@,
    decreases printers.len(),
{
    if printers.len() > 0 {
        let init = printers.drop_last();
        let (all, rest) = (without_pdf(printers), without_pdf(init));
        lemma_without_pdf(init, printer);
        if printers.contains(printer) && printer.id != "save-as-pdf"@ {
            let k = choose|k: int| 0 <= k < printers.len() && printers[k] == printer;
            if k < init.len() {
                assert(init[k] == printer);
                let j = choose|j: int| 0 <= j < rest.len() && rest[j] == printer;
                assert(all[j] == printer);
            } else {
                assert(all.last() == printer);
            }
        }
        if all.contains(printer) {
            let j = choose|j: int| 0 <= j < all.len() && all[j] == printer;
            if j < rest.len() {
                assert(rest[j] == printer);
                let k = choose|k: int| 0 <= k < init.len() && init[k] == printer;
                assert(printers[k] == printer);
            } else {
                assert(printers[printers.len() - 1] == printer);
            }
        }
    }
}

/// The list of printers has the PDF printer first and all others behind it; the first of the others is
/// selected where there is one, and what the selected one offers is asked for.
pub proof fn law_loaded_printers_are_listed(
    d: DialogView,
    printers: Vec<PrinterSnapshot>,
    printer: PrinterView,
    millis: u64,
)
    ensures
        ({
            let (after, task) = step(d, Msg::PrintersLoaded(printers), millis);
            let others = printer_views(printers@);
            &&& after.printers.len() > 0
            &&& after.printers[0].id == "save-as-pdf"@
            &&& others.contains(printer) && printer.id != "save-as-pdf"@ ==> after.printers.contains(
                printer,
            )
            &&& after.printers.contains(printer) && printer.id != "save-as-pdf"@ ==> others.contains(
                printer,
            )
            &&& after.printers.len() > 1 ==> after.selected_printer() == Some(after.printers[1])
            &&& after.printers.len() == 1 ==> after.selected_printer() == Some(after.printers[0])
            &&& task is LoadDetails
        }),
{
    reveal(DialogView::printers_loaded);
    reveal(DialogView::with_printers);
    let others = printer_views(printers@);
    lemma_without_pdf(others, printer);
    let after = step(d, Msg::PrintersLoaded(printers), millis).0;
    let kept = without_pdf(others);
    if kept.contains(printer) {
        let k = choose|k: int| 0 <= k < kept.len() && kept[k] == printer;
        assert(after.printers[k + 1] == printer);
    }
    if after.printers.contains(printer) && printer.id != "save-as-pdf"@ {
        let k = choose|k: int| 0 <= k < after.printers.len() && after.printers[k] == printer;
        assert(kept[k - 1] == printer);
    }
}

/// The place of a printer is the first that it has.
proof fn lemma_printer_position(printers: Seq<PrinterView>, id: Seq<char>, backend: Seq<char>)
    ensures
        ({
            let pos = printer_position(printers, id, backend);
            &&& pos <= printers.len()
            &&& pos < printers.len() ==> printers[pos as int].id == id && printers[pos as int].backend
                == backend
            &&& forall|i: int|
                0 <= i < pos ==> !((#[trigger] printers[i]).id == id && printers[i].backend
                    == backend)
        }),
    decreases printers.len(),
{
    if printers.len() > 0 && !printers[0].is(id, backend) {
        let rest = printers.drop_first();
        lemma_printer_position(rest, id, backend);
        let pos = printer_position(printers, id, backend);
        assert forall|i: int| 0 <= i < pos implies !((#[trigger] printers[i]).id == id
            && printers[i].backend == backend) by {
            if i > 0 {
                assert(rest[i - 1] == printers[i]);
            }
        }
    }
}

/// A printer that is found is in the list from then on, with what is known of it now; one that was there
/// before under the same name and backend is replaced, and all others stay where they are.
pub proof fn law_found_printer_is_listed(
    d: DialogView,
    printer: PrinterSnapshot,
    millis: u64,
    k: int,
)
    requires
        printer@.id != "save-as-pdf"@,
    ensures
        ({
            let (after, task) = step(
                d,
                Msg::DiscoveryEvent(DiscoveryEvent::PrinterAdded(printer)),
                millis,
            );
            &&& after.printers.contains(printer@)
            &&& 0 <= k < d.printers.len() && !(d.printers[k].id == printer@.id
                && d.printers[k].backend == printer@.backend) ==> after.printers[k] == d.printers[k]
            &&& d.printers.len() <= after.printers.len() <= d.printers.len() + 1
            &&& d.selected_printer_index matches Some(i) ==> (i > 0 ==> after.selected_printer_index
                == Some(i) && task is Nothing)
        }),
{
    reveal(DialogView::printer_added);
    lemma_printer_position(d.printers, printer@.id, printer@.backend);
    let after = step(d, Msg::DiscoveryEvent(DiscoveryEvent::PrinterAdded(printer)), millis).0;
    let pos = printer_position(d.printers, printer@.id, printer@.backend) as int;
    assert(after.printers[pos] == printer@);
}

/// A printer is kept unless it is the one that went.
proof fn lemma_without_printer(
    printers: Seq<PrinterView>,
    id: Seq<char>,
    backend: Seq<char>,
    printer: PrinterView,
)
    ensures
        without_printer(printers, id, backend).contains(printer) <==> printers.contains(printer) && (
        printer.id == "save-as-pdf"@ || !(printer.id == id && printer.backend == backend)),
    decreases printers.len(),
{
    if printers.len() > 0 {
        let init = printers.drop_last();
        let (all, rest) = (
            without_printer(printers, id, backend),
            without_printer(init, id, backend),
        );
        lemma_without_printer(init, id, backend, printer);
        if printers.contains(printer) && (printer.id == "save-as-pdf"@ || !(printer.id == id
            && printer.backend == backend)) {
            let k = choose|k: int| 0 <= k < printers.len() && printers[k] == printer;
            if k < init.len() {
                assert(init[k] == printer);
                let j = choose|j: int| 0 <= j < rest.len() && rest[j] == printer;
                assert(all[j] == printer);
            } else {
                assert(all.last() == printer);
            }
        }
        if all.contains(printer) {
            let j = choose|j: int| 0 <= j < all.len() && all[j] == printer;
            if j < rest.len() {
                assert(rest[j] == printer);
                let k = choose|k: int| 0 <= k < init.len() && init[k] == printer;
                assert(printers[k] == printer);
            } else {
                assert(printers[printers.len() - 1] == printer);
            }
        }
    }
}

/// A printer that goes is gone from the list, and no other is.
pub proof fn law_gone_printer_is_not_listed(
    d: DialogView,
    id: String,
    backend: String,
    printer: PrinterView,
    millis: u64,
)
    requires
        id@ != "save-as-pdf"@,
    ensures
        ({
            let after = step(
                d,
                Msg::DiscoveryEvent(DiscoveryEvent::PrinterRemoved { id, backend }),
                millis,
            ).0;
            after.printers.contains(printer) <==> d.printers.contains(printer) && !(printer.id == id@
                && printer.backend == backend@)
        }),
{
    reveal(DialogView::printer_removed);
    lemma_without_printer(d.printers, id@, backend@, printer);
}

/// News of a printer changes its state and whether it takes jobs, and nothing of any other printer.
pub proof fn law_state_of_a_printer_changes_alone(
    d: DialogView,
    k: int,
    id: String,
    backend: String,
    state: PrinterState,
    accepting_jobs: bool,
    millis: u64,
    j: int,
)
    requires
        0 <= k < d.printers.len(),
        d.printers[k].id == id@,
        d.printers[k].backend == backend@,
        forall|i: int|
            0 <= i < k ==> !((#[trigger] d.printers[i]).id == id@ && d.printers[i].backend
                == backend@),
    ensures
        ({
            let (after, task) = step(
                d,
                Msg::DiscoveryEvent(
                    DiscoveryEvent::PrinterStateChanged { id, backend, state, accepting_jobs },
                ),
                millis,
            );
            &&& task is Nothing
            &&& after.printers.len() == d.printers.len()
            &&& after.printers[k].state == state@
            &&& after.printers[k].accepting_jobs == accepting_jobs
            &&& after.printers[k].id == id@ && after.printers[k].name == d.printers[k].name
            &&& 0 <= j < d.printers.len() && j != k ==> after.printers[j] == d.printers[j]
        }),
{
    reveal(DialogView::printer_changed);
    lemma_printer_position(d.printers, id@, backend@);
    let pos = printer_position(d.printers, id@, backend@) as int;
    assert(pos == k) by {
        if pos < k {
            assert(d.printers[pos].id == id@);
        }
        if k < pos {
            assert(!(d.printers[k].id == id@ && d.printers[k].backend == backend@));
        }
    }
}

/// The usual value of an option is selected where it can be chosen, and otherwise the first that can.
proof fn lemma_usual_value(options: Map<Seq<char>, OptionView>, key: Seq<char>)
    requires
        option_values(options, key).len() <= usize::MAX,
    ensures
        option_named(options, key) matches Some(option) ==> {
            let values = option_values(options, key);
            &&& values.contains(option.default_value) ==> at(values, option_index(options, key))
                == Some(option.default_value)
            &&& !values.contains(option.default_value) && values.len() > 0 ==> at(
                values,
                option_index(options, key),
            ) == Some(values[0])
            &&& values.len() == 0 ==> option_index(options, key) is None
        },
        option_named(options, key) is None ==> option_index(options, key) is None && option_values(
            options,
            key,
        ).len() == 0,
{
    if let Some(option) = option_named(options, key) {
        lemma_first_position_of(option_values(options, key), option.default_value);
    }
}

/// What a printer offers is taken over: colour where it has it, and of sides, trays, types, qualities and
/// sizes the usual one is selected where there is one.
pub proof fn law_usual_options_are_selected(
    d: DialogView,
    options: crate::dict::Dict<OptionInfo>,
    media: MediaCollection,
    translations: crate::dict::Dict<String>,
    millis: u64,
)
    requires
        d.selected_printer() matches Some(printer) && printer.id != "save-as-pdf"@ && printer.backend
            != "file"@,
        media@.len() <= usize::MAX,
        option_values(option_views(options@), "sides"@).len() <= usize::MAX,
        option_values(option_views(options@), "print-quality"@).len() <= usize::MAX,
        option_values(option_views(options@), "media-source"@).len() <= usize::MAX,
        option_values(option_views(options@), "media-type"@).len() <= usize::MAX,
    ensures
        ({
            let after = step(d, Msg::PrinterDetailsLoaded(options, media, translations), millis).0;
            let offered = option_views(options@);
            let has_color = offered.dom().contains("print-color-mode"@)
                && offered["print-color-mode"@].supported_values.contains("color"@);
            &&& after.color_supported <==> has_color
            &&& !has_color ==> after.color_mode is Monochrome
            &&& has_color ==> after.color_mode == d.color_mode
            &&& after.printer_media == Some(media@)
            &&& after.duplex_values == option_values(offered, "sides"@)
            &&& after.print_quality_values == option_values(offered, "print-quality"@)
            &&& after.media_source_values == option_values(offered, "media-source"@)
            &&& after.media_type_values == option_values(offered, "media-type"@)
            &&& offered.dom().contains("sides"@) && after.duplex_values.contains(
                offered["sides"@].default_value,
            ) ==> is_chosen_of(
                after.duplex_values,
                after.duplex_index,
                offered["sides"@].default_value,
            )
            &&& offered.dom().contains("print-quality"@) && after.print_quality_values.contains(
                offered["print-quality"@].default_value,
            ) ==> is_chosen_of(
                after.print_quality_values,
                after.print_quality_index,
                offered["print-quality"@].default_value,
            )
            &&& offered.dom().contains("media-source"@) && after.media_source_values.contains(
                offered["media-source"@].default_value,
            ) ==> is_chosen_of(
                after.media_source_values,
                after.paper_tray_index,
                offered["media-source"@].default_value,
            )
            &&& offered.dom().contains("media-type"@) && after.media_type_values.contains(
                offered["media-type"@].default_value,
            ) ==> is_chosen_of(
                after.media_type_values,
                after.paper_type_index,
                offered["media-type"@].default_value,
            )
            &&& offered.dom().contains("media"@) && media_names(media@).contains(
                offered["media"@].default_value,
            ) ==> (at(media@, after.selected_paper_size_index) matches Some(size) && size.name
                == offered["media"@].default_value)
            &&& media@.len() > 0 ==> at(media@, after.selected_paper_size_index) is Some
        }),
{
    reveal(DialogView::details_taken);
    reveal(DialogView::with_printer_details);
    let offered = option_views(options@);
    lemma_usual_value(offered, "sides"@);
    lemma_usual_value(offered, "print-quality"@);
    lemma_usual_value(offered, "media-source"@);
    lemma_usual_value(offered, "media-type"@);
    if offered.dom().contains("media"@) {
        lemma_first_position_of(media_names(media@), offered["media"@].default_value);
    }
}

/// A preset that is removed is gone, and the others stay in their order; the selection stays with its
/// preset, and falls back to the first where that was removed. Presets of the house cannot be removed.
pub proof fn law_removed_preset_is_gone(d: DialogView, i: usize, millis: u64, k: int)
    ensures
        ({
            let after = step(d, Msg::DeletePresetRow(i), millis).0;
            &&& i < d.presets.len() && !d.presets[i as int].is_builtin ==> {
                &&& after.presets.len() == d.presets.len() - 1
                &&& 0 <= k < i ==> after.presets[k] == d.presets[k]
                &&& i < k < d.presets.len() ==> after.presets[k - 1] == d.presets[k]
                &&& d.selected_preset_index == Some(i) ==> after.selected_preset_index == Some(0usize)
                &&& d.selected_preset_index matches Some(j) ==> (j != i && j < d.presets.len() ==> at(
                    after.presets,
                    after.selected_preset_index,
                ) == Some(d.presets[j as int]))
            }
            &&& i < d.presets.len() && d.presets[i as int].is_builtin ==> after == d
            &&& i >= d.presets.len() ==> after == d
        }),
{
    reveal(DialogView::row_deleted);
}

/// A preset is saved under the name that was typed, behind the others, and is selected; nothing is saved
/// under a blank name.
pub proof fn law_preset_is_saved_under_its_name(d: DialogView, millis: u64, k: int)
    requires
        d.presets.len() < usize::MAX,
    ensures
        ({
            let after = step(d, Msg::ConfirmSavePreset, millis).0;
            let name = trimmed(d.save_preset_name_input);
            &&& name.len() > 0 ==> {
                &&& after.presets.len() == d.presets.len() + 1
                &&& 0 <= k < d.presets.len() ==> after.presets[k] == d.presets[k]
                &&& at(after.presets, after.selected_preset_index) matches Some(preset)
                    && preset.name == name && !preset.is_builtin && preset.copies == d.copies
                    && preset.collate == d.collate
                &&& after.active_view is Main
            }
            &&& name.len() == 0 ==> after == d
        }),
{
    reveal(DialogView::preset_saved);
}

/// A name that is typed for a row becomes the name of its preset when it is saved, unless it is blank; no
/// other preset is renamed.
pub proof fn law_row_is_renamed_as_typed(d: DialogView, i: usize, name: String, millis: u64, k: int)
    requires
        i < d.presets.len(),
        !d.presets[i as int].is_builtin,
    ensures
        ({
            let typed = step(d, Msg::PresetRowNameInputChanged(name), millis).0;
            let after = step(typed, Msg::SavePresetRowName(i), millis).0;
            &&& after.presets.len() == d.presets.len()
            &&& trimmed(name@).len() > 0 ==> after.presets[i as int].name == trimmed(name@)
            &&& trimmed(name@).len() == 0 ==> after.presets == d.presets
            &&& 0 <= k < d.presets.len() && k != i ==> after.presets[k] == d.presets[k]
            &&& after.editing_preset_row is None
            &&& after.presets[i as int].copies == d.presets[i as int].copies
        }),
{
    reveal(DialogView::row_name_typed);
    reveal(DialogView::row_name_saved);
}

/// The part of the dialog that is called for is shown; Escape leads back to the main part, but first ends
/// the renaming of a row.
pub proof fn law_parts_of_the_dialog_are_shown(d: DialogView, view: ActiveView, millis: u64)
    ensures
        step(d, Msg::NavigateTo(view), millis).0.active_view == view,
        d.editing_preset_row is None ==> step(d, Msg::EscapePressed, millis).0.active_view is Main,
        d.editing_preset_row is Some ==> step(d, Msg::EscapePressed, millis).0.active_view
            == d.active_view && step(d, Msg::EscapePressed, millis).0.editing_preset_row is None,
        step(d, Msg::OpenEditPresetsDialog, millis).0.active_view is EditPresets,
        step(d, Msg::NavigateTo(view), millis).0.copies == d.copies,
        step(d, Msg::EscapePressed, millis).0.copies == d.copies,
{
    reveal(DialogView::navigated);
    reveal(DialogView::escaped);
    reveal(DialogView::edit_committed);
    reveal(DialogView::preset_list_opened);
}

/// A preset that is chosen sets copies, collating, colours and the rest as it was saved; at least one copy
/// is printed, and colour only where the printer has it. What has no place in a preset stays.
pub proof fn law_chosen_preset_is_applied(d: DialogView, i: usize, millis: u64)
    requires
        i < d.presets.len(),
    ensures
        ({
            let after = step(d, Msg::PresetSelected(i), millis).0;
            let preset = d.presets[i as int];
            &&& after.selected_preset_index == Some(i)
            &&& preset.copies >= 1 ==> after.copies == preset.copies
            &&& preset.copies == 0 ==> after.copies == 1
            &&& after.collate == preset.collate
            &&& after.pages_per_sheet_index == preset.pages_per_sheet_index
            &&& after.custom_scaling_input == preset.custom_scaling_input
            &&& after.custom_range_input == preset.custom_range_input
            &&& preset.color_mode == "monochrome"@ ==> after.color_mode is Monochrome
            &&& preset.color_mode == "color"@ && d.color_supported ==> after.color_mode is Color
            &&& !d.color_supported ==> after.color_mode is Monochrome
            &&& preset.orientation == "landscape"@ <==> after.orientation is Landscape
            &&& preset.margins == "none"@ <==> after.margins is NoMargins
            &&& preset.scaling == "fit"@ <==> after.scaling is Fit
            &&& preset.page_selection == "odd"@ <==> after.page_selection is Odd
            &&& after.reverse_order == d.reverse_order
            &&& after.border == d.border
            &&& after.printers == d.printers
        }),
{
    reveal(DialogView::with_preset);
    reveal_strlit("color");
    reveal_strlit("monochrome");
    reveal_strlit("none");
    reveal_strlit("minimum");
    reveal_strlit("custom");
    reveal_strlit("fit");
    reveal_strlit("auto-fit");
    reveal_strlit("fill");
    reveal_strlit("odd");
    reveal_strlit("current");
    reveal_strlit("even");
    assert("color"@.len() == 5 && "monochrome"@.len() == 10 && "none"@.len() == 4);
    assert("minimum"@.len() == 7 && "custom"@.len() == 6 && "fit"@.len() == 3);
    assert("auto-fit"@.len() == 8 && "fill"@.len() == 4 && "odd"@.len() == 3);
    assert("current"@.len() == 7 && "even"@.len() == 4);
}

} // verus!
