//! Printing.

use xdg_desktop_portal_cosmic::config::print::{Print, PrintPreset};
use xdg_desktop_portal_cosmic::dict::Dict;
use xdg_desktop_portal_cosmic::label::{Label, Phrase};
use xdg_desktop_portal_cosmic::portal::PortalResponse;
use xdg_desktop_portal_cosmic::print::{
    prepare_modal, start_print, CachedPrintSettings, PreparePrintOptions, PrintArgs, PrintEffect,
    PrintOptions, PrintPortal, PrintStart, RequestKind, TokenCache,
};
use xdg_desktop_portal_cosmic::print_dialog::choices::{
    ActiveView, Border, ColorMode, LayoutDirection, Margins, Orientation, PageSetSelection,
    ScalingMode,
};
use xdg_desktop_portal_cosmic::print_dialog::execution::{
    after_choice, after_pdf_copy, copy_to, job_response, pdf_response, print_plan, sanitize_pdf_filename,
    save_request, ChooserReply, CopyReply, JobReply, PrintPlan, SavePdfResult, SaveStep,
};
use xdg_desktop_portal_cosmic::print_dialog::hints::apply_xdg_hints;
use xdg_desktop_portal_cosmic::print_dialog::labels::{preset_display_name, sides_label};
use xdg_desktop_portal_cosmic::print_dialog::models::sync_print_models;
use xdg_desktop_portal_cosmic::print_dialog::page_range::{
    page_range_has_successors, page_range_to_one_based, page_range_to_zero_based,
    validate_page_range,
};
use xdg_desktop_portal_cosmic::print_dialog::panel::{view_options_panel, Control, DropdownKind};
use xdg_desktop_portal_cosmic::print_dialog::printers::{
    clean_supported_values, default_pdf_margins, default_pdf_media, is_pdf_printer,
    load_option_values, printer_state_icon, printer_state_label, sanitize_index, save_as_pdf_printer,
    MarginOptions, MediaCollection, MediaInfo, OptionInfo, PrinterSnapshot, PrinterState,
};
use xdg_desktop_portal_cosmic::print_dialog::response::{
    build_cpdb_settings, build_xdg_response, hundredths_to_text,
};
use xdg_desktop_portal_cosmic::print_dialog::screens::{
    view, view_edit_presets, view_pages_selection, view_save_preset, view_status_row, Base, Overlay,
};
use xdg_desktop_portal_cosmic::print_dialog::state::PrintDialog;
use xdg_desktop_portal_cosmic::print_dialog::update::{
    default_preset_name, details_loaded, fetch_printer_details, preset_name_at, update, update_at,
    DetailsReply, DetailsRequest, DialogTask, DiscoveryEvent, Msg,
};
use xdg_desktop_portal_cosmic::value::{get_flag, get_length, get_str, text_value, Value};

fn printer(id: &str) -> PrinterSnapshot {
    PrinterSnapshot {
        id: id.to_string(),
        name: Phrase::Text(id.to_string()),
        info: Phrase::Text(String::new()),
        location: String::new(),
        make_model: String::new(),
        state: PrinterState::Idle,
        accepting_jobs: true,
        backend: "CUPS".to_string(),
    }
}

fn option(default_value: &str, values: &[&str]) -> OptionInfo {
    OptionInfo {
        default_value: default_value.to_string(),
        supported_values: values.iter().map(|value| value.to_string()).collect(),
    }
}

/// A dialog in which a printer with two papers is selected.
fn dialog_with_printer() -> PrintDialog {
    let mut dialog = PrintDialog::default();
    update(
        &mut dialog,
        Msg::DiscoveryEvent(DiscoveryEvent::PrinterAdded(printer("laser"))),
    );
    update(&mut dialog, Msg::PrinterSelected(1));
    let mut options = Dict::new();
    options.insert(
        "sides",
        option("one-sided", &["one-sided", "two-sided-long-edge"]),
    );
    options.insert("print-color-mode", option("color", &["monochrome", "color"]));
    let media = MediaCollection {
        media: vec![
            MediaInfo {
                name: "iso_a4_210x297mm".to_string(),
                width: 21000,
                length: 29700,
            },
            MediaInfo {
                name: "iso_a5_148x210mm".to_string(),
                width: 14800,
                length: 21000,
            },
        ],
    };
    update(
        &mut dialog,
        Msg::PrinterDetailsLoaded(options, media, Dict::new()),
    );
    dialog
}

fn setting<'a>(settings: &'a [(String, String)], key: &str) -> Option<&'a str> {
    settings
        .iter()
        .find(|entry| entry.0 == key)
        .map(|entry| entry.1.as_str())
}

#[test]
fn ranges_of_pages_are_checked() {
    assert!(validate_page_range("1-3, 5"));
    assert!(validate_page_range(" 7 "));
    for wrong in ["", "0", "3-1", "1-2-3", "a", "1,,2", "1-", "0-4", "4294967296"] {
        assert!(!validate_page_range(wrong), "{wrong}");
    }
}

#[test]
fn ranges_of_pages_return() {
    let zero = page_range_to_zero_based("1-3, 5");
    assert_eq!(zero, "0-2,4");
    assert!(page_range_has_successors(&zero));
    assert_eq!(page_range_to_one_based(&zero), "1-3,5");
    assert!(!page_range_has_successors("4294967295"));
    // What spells no page stands for the first one.
    let zero = page_range_to_zero_based("x, 0-4294967295");
    assert_eq!(zero, "0,0-4294967294");
    assert!(page_range_has_successors(&zero));
    assert_eq!(page_range_to_one_based(&zero), "1,1-4294967295");
    assert_eq!(page_range_to_zero_based(&page_range_to_one_based(&zero)), zero);
    assert_eq!(page_range_to_zero_based(&page_range_to_one_based(" 03,+7 ")), "3,7");
}

#[test]
fn identifiers_name_choices() {
    for mode in [ColorMode::Color, ColorMode::Monochrome] {
        assert_eq!(ColorMode::from_id(mode.id()), mode);
    }
    for orientation in [Orientation::Portrait, Orientation::Landscape] {
        assert_eq!(Orientation::from_id(orientation.id()), orientation);
    }
    for scaling in ScalingMode::all() {
        assert_eq!(ScalingMode::from_id(scaling.id()), scaling);
        assert_eq!(ScalingMode::all()[scaling.index()], scaling);
    }
    for margins in Margins::all() {
        assert_eq!(Margins::from_id(margins.id()), margins);
        assert_eq!(Margins::all()[margins.index()], margins);
    }
    for border in Border::all() {
        assert_eq!(Border::all()[border.index()], border);
    }
    let direction = LayoutDirection::TopToBottomRightToLeft;
    assert_eq!(LayoutDirection::from_id(direction.id()), direction);
    assert_eq!(
        PageSetSelection::from_id("custom", "2-4"),
        PageSetSelection::Custom("2-4".to_string())
    );
    assert_eq!(PageSetSelection::from_id("?", ""), PageSetSelection::All);
}

#[test]
fn files_have_plain_names() {
    assert_eq!(sanitize_pdf_filename("a/b"), "a_b.pdf");
    assert_eq!(sanitize_pdf_filename("Report.PDF"), "Report.PDF");
    assert_eq!(sanitize_pdf_filename("  "), "document.pdf");
    assert_eq!(save_request("x").current_name, "x.pdf");
}

#[test]
fn a_pdf_is_saved_or_not() {
    let chosen = |url: &str| after_choice(&ChooserReply::Files(vec![url.to_string()]));
    assert_eq!(
        chosen("file:///home/a/My%20file.pdf"),
        SaveStep::Copy(b"/home/a/My file.pdf".to_vec())
    );
    assert_eq!(
        chosen("https://example.org/a.pdf"),
        SaveStep::Done(SavePdfResult::Failed)
    );
    assert_eq!(chosen("no address"), SaveStep::Done(SavePdfResult::Failed));
    assert_eq!(
        after_choice(&ChooserReply::Files(Vec::new())),
        SaveStep::Done(SavePdfResult::Cancelled)
    );
    assert_eq!(
        after_choice(&ChooserReply::Cancelled),
        SaveStep::Done(SavePdfResult::Cancelled)
    );
    assert_eq!(
        after_choice(&ChooserReply::Failed),
        SaveStep::Done(SavePdfResult::Failed)
    );
    assert_eq!(copy_to(None), SaveStep::Done(SavePdfResult::Failed));
    assert_eq!(copy_to(Some(vec![47])), SaveStep::Copy(vec![47]));
    assert_eq!(after_pdf_copy(CopyReply::Copied), SavePdfResult::Saved);
    assert_eq!(after_pdf_copy(CopyReply::NotOpened), SavePdfResult::Failed);
    assert_eq!(pdf_response(SavePdfResult::Saved), PortalResponse::Success(()));
    assert_eq!(pdf_response(SavePdfResult::Cancelled), PortalResponse::Cancelled);
    assert_eq!(pdf_response(SavePdfResult::Failed), PortalResponse::Other);
    assert_eq!(
        job_response(JobReply::Copied(CopyReply::Copied)),
        PortalResponse::Success(())
    );
    assert_eq!(job_response(JobReply::Refused), PortalResponse::Other);
    let pdf = save_as_pdf_printer();
    assert_eq!(print_plan(&pdf.id, &pdf.backend), PrintPlan::SavePdf);
    assert_eq!(print_plan("laser", "CUPS"), PrintPlan::Submit);
}

fn kept(app_id: &str) -> CachedPrintSettings {
    CachedPrintSettings {
        app_id: app_id.to_string(),
        printed_id: "laser".to_string(),
        backend: "CUPS".to_string(),
        cpdb_settings: vec![],
    }
}

#[test]
fn a_token_is_good_once_and_for_its_application() {
    let mut cache = TokenCache::new();
    let token = cache.remember(kept("org.a"));
    let other = cache.remember(kept("org.b"));
    assert_ne!(token, other);
    assert!(cache.redeem(token, "org.b").is_none());
    let options = PrintOptions {
        modal: None,
        token: Some(token),
    };
    assert!(matches!(
        start_print(&mut cache, "org.a", &options),
        PrintStart::Print(_)
    ));
    assert!(matches!(
        start_print(&mut cache, "org.a", &options),
        PrintStart::OpenDialog { modal: true }
    ));
    cache.expire(other);
    assert!(cache.redeem(other, "org.b").is_none());
    assert!(!prepare_modal(&PreparePrintOptions {
        modal: Some(false),
        accept_label: None
    }));
}

#[test]
fn the_pdf_printer_stays_first() {
    let mut dialog = dialog_with_printer();
    assert!(is_pdf_printer(&dialog.printers[0]));
    assert_eq!(dialog.printers.len(), 2);
    let pdf = save_as_pdf_printer();
    update(
        &mut dialog,
        Msg::DiscoveryEvent(DiscoveryEvent::PrinterRemoved {
            id: pdf.id.clone(),
            backend: pdf.backend.clone(),
        }),
    );
    assert!(is_pdf_printer(&dialog.printers[0]));
    let task = update(
        &mut dialog,
        Msg::DiscoveryEvent(DiscoveryEvent::PrinterRemoved {
            id: "laser".to_string(),
            backend: "CUPS".to_string(),
        }),
    );
    assert_eq!(dialog.printers.len(), 1);
    assert_eq!(dialog.selected_printer_index, Some(0));
    assert_eq!(task, DialogTask::LoadDetails(DetailsRequest::Pdf));
    assert!(dialog.is_pdf_selected());
}

#[test]
fn copies_and_scaling_stay_in_bounds() {
    let mut dialog = PrintDialog::default();
    update(&mut dialog, Msg::DecrementCopies);
    assert_eq!(dialog.copies, 1);
    update(&mut dialog, Msg::IncrementCopies);
    assert_eq!(dialog.copies, 2);
    let before = dialog.custom_scaling_input;
    update(&mut dialog, Msg::IncrementScaling);
    assert!(dialog.custom_scaling_input > before);
}

#[test]
fn settings_are_told_to_the_service() {
    let mut dialog = dialog_with_printer();
    update(&mut dialog, Msg::DuplexSelected(1));
    update(&mut dialog, Msg::PaperSizeSelected(1));
    update(&mut dialog, Msg::IncrementCopies);
    update(&mut dialog, Msg::ToggleReverseOrder);
    let settings = build_cpdb_settings(&dialog);
    assert_eq!(setting(&settings, "sides"), Some("two-sided-long-edge"));
    assert_eq!(setting(&settings, "media"), Some("iso_a5_148x210mm"));
    assert_eq!(setting(&settings, "copies"), Some("2"));
    assert_eq!(setting(&settings, "page-delivery"), Some("reverse-order"));
    assert_eq!(setting(&settings, "number-up"), Some("1"));
    assert_eq!(setting(&settings, "media-type"), None);
}

#[test]
fn an_answer_opens_the_dialog_as_it_was() {
    let mut dialog = dialog_with_printer();
    update(&mut dialog, Msg::DuplexSelected(1));
    update(&mut dialog, Msg::IncrementCopies);
    update(&mut dialog, Msg::PaperSizeSelected(1));
    let (settings, page_setup) = build_xdg_response(&dialog);
    assert_eq!(get_str(&settings, "n-copies").map(String::as_str), Some("2"));
    let mut again = dialog_with_printer();
    apply_xdg_hints(&mut again, &settings, &page_setup, None);
    assert_eq!(again.copies, 2);
    assert_eq!(again.duplex_index, Some(1));
    assert_eq!(again.selected_paper_size_index, Some(1));
}

#[test]
fn a_saved_preset_restores_its_options() {
    let mut dialog = PrintDialog::default();
    assert_eq!(dialog.presets.len(), 3);
    update(&mut dialog, Msg::IncrementCopies);
    update(&mut dialog, Msg::ToggleCollate);
    update_at(
        &mut dialog,
        Msg::OpenSavePresetDialog("Two".to_string()),
        7,
    );
    assert_eq!(view(&dialog), (Base::Main, Overlay::SavePreset));
    assert_eq!(view_save_preset(&dialog).name, "Two");
    assert!(view_save_preset(&dialog).can_save);
    update_at(&mut dialog, Msg::ConfirmSavePreset, 8);
    assert_eq!(dialog.presets.len(), 4);
    assert_eq!(dialog.presets[3].name, "Two");
    update(&mut dialog, Msg::DecrementCopies);
    update(&mut dialog, Msg::ToggleCollate);
    update(&mut dialog, Msg::PresetSelected(3));
    assert_eq!(dialog.copies, 2);
    assert!(dialog.collate);
    let config = dialog.to_config_print();
    assert_eq!(config.custom_presets.len(), 1);
    assert_eq!(view_edit_presets(&dialog).len(), 1);
}

#[test]
fn built_in_presets_stay() {
    let mut dialog = PrintDialog::default();
    update(&mut dialog, Msg::DeletePresetRow(0));
    update(&mut dialog, Msg::DeletePresetRow(1));
    assert_eq!(dialog.presets.len(), 3);
    let all = Print::default().all_presets();
    assert_eq!(all[0], PrintPreset::default_preset());
    assert_eq!(all[1], PrintPreset::bw_preset());
    assert_eq!(all[2], PrintPreset::color_preset());
    assert!(matches!(preset_display_name(&all[0]).phrase, Phrase::Message(_)));
}

#[test]
fn indexes_beyond_their_lists_fall_back_to_the_first() {
    assert_eq!(sanitize_index(Some(2), 2), Some(0));
    assert_eq!(sanitize_index(Some(1), 2), Some(1));
    assert_eq!(sanitize_index(None, 2), Some(0));
    assert_eq!(sanitize_index(Some(0), 0), None);
    let mut dialog = dialog_with_printer();
    dialog.duplex_index = Some(9);
    dialog.sanitize_printer_options();
    assert_eq!(dialog.duplex_index, Some(0));
}

#[test]
fn values_of_options_are_cleaned() {
    let values = clean_supported_values(&vec![
        " a ".to_string(),
        String::new(),
        "b".to_string(),
        "a".to_string(),
    ]);
    assert!(values.contains(&"b".to_string()));
    assert!(!values.contains(&String::new()));
    let mut options = Dict::new();
    options.insert("media-type", option("gloss", &["plain", "gloss"]));
    let (values, index) = load_option_values(&options, "media-type");
    assert_eq!(values, vec!["plain", "gloss"]);
    assert_eq!(index, Some(1));
    assert_eq!(load_option_values(&options, "none"), (vec![], None));
}

#[test]
fn margins_of_a_side_ascend() {
    let side = MarginOptions::parse_side(Some(&option("", &["300", "100", "x", "300", "0"])));
    let mut sorted = side.clone();
    sorted.sort();
    assert_eq!(side, sorted);
    assert!(side.contains(&100));
    assert_eq!(MarginOptions::parse_side(None), Vec::<u32>::new());
    assert!(!default_pdf_margins().top.is_empty());
    assert!(default_pdf_media().len() > 0);
}

#[test]
fn states_of_printers_have_labels() {
    assert!(printer_state_icon(&PrinterState::Stopped).is_some());
    assert_eq!(
        printer_state_label(&PrinterState::Unknown("odd".to_string())),
        Phrase::Text("odd".to_string())
    );
    assert!(matches!(
        printer_state_label(&PrinterState::Idle),
        Phrase::Message(_)
    ));
    let dialog = dialog_with_printer();
    assert_ne!(
        sides_label(&dialog, "one-sided"),
        sides_label(&dialog, "two-sided-long-edge")
    );
    assert!(!matches!(view_status_row(&dialog).confirm.phrase, Phrase::Millimetres(_)));
}

#[test]
fn details_are_asked_for() {
    assert_eq!(
        fetch_printer_details(&save_as_pdf_printer()),
        DetailsRequest::Pdf
    );
    assert_eq!(
        fetch_printer_details(&printer("laser")),
        DetailsRequest::Query {
            printer_id: "laser".to_string(),
            backend: "CUPS".to_string()
        }
    );
    let reply = DetailsReply {
        translations: None,
        details: None,
    };
    assert!(matches!(
        details_loaded(Some(reply)),
        Msg::PrinterDetailsLoaded(..)
    ));
}

#[test]
fn the_panel_has_groups_of_rows() {
    let dialog = dialog_with_printer();
    let groups = view_options_panel(&dialog);
    let first = &groups[0].items[0][0];
    match &first.control {
        Control::Dropdown {
            options,
            selected,
            kind,
        } => {
            assert_eq!(*kind, DropdownKind::Printer);
            assert_eq!(options.len(), 2);
            assert_eq!(*selected, Some(1));
        }
        other => panic!("{other:?}"),
    }
    let models = sync_print_models(&dialog);
    assert_eq!(models.orientation.segments.len(), 2);
    assert_eq!(models.color.active_data(), Some(&ColorMode::Color));
}

#[test]
fn pages_are_chosen_on_their_own_screen() {
    let mut dialog = PrintDialog::default();
    update(&mut dialog, Msg::NavigateTo(ActiveView::PageSelection));
    assert_eq!(view(&dialog).0, Base::PageSelection);
    dialog.page_selection = PageSetSelection::Custom(String::new());
    update(&mut dialog, Msg::CustomRangeInputChanged("3-1".to_string()));
    assert!(!dialog.custom_range_valid);
    assert!(view_pages_selection(&dialog).show_error);
    update(&mut dialog, Msg::CustomRangeInputChanged("1-3".to_string()));
    assert!(dialog.custom_range_valid);
}

fn portal() -> PrintPortal {
    let mut portal = PrintPortal {
        args: None,
        models: None,
    };
    let opened = portal.update_args(PrintArgs {
        request_id: 5,
        handle: "/print/5".to_string(),
        app_id: "org.a".to_string(),
        title: "Letter".to_string(),
        modal: true,
        window_id: 9,
        dialog: dialog_with_printer(),
        request: RequestKind::PreparePrint {
            settings: Dict::new(),
            page_setup: Dict::new(),
            accept_label: Some("Go".to_string()),
        },
    });
    assert!(opened.open_window);
    assert_eq!(opened.cancelled, None);
    portal
}

#[test]
fn a_prepared_print_gives_a_token() {
    let mut cache = TokenCache::new();
    let mut portal = portal();
    match portal.update_msg(&mut cache, Msg::Confirm) {
        PrintEffect::Prepared { closing, token, .. } => {
            assert_eq!((closing.request_id, closing.window_id), (5, 9));
            let settings = cache.redeem(token, "org.a").unwrap();
            assert_eq!(settings.printed_id, "laser");
        }
        other => panic!("{other:?}"),
    }
    assert!(portal.args.is_none());
}

#[test]
fn a_second_print_cancels_the_first() {
    let mut portal = portal();
    let opened = portal.update_args(PrintArgs {
        request_id: 6,
        handle: "/print/6".to_string(),
        app_id: "org.b".to_string(),
        title: String::new(),
        modal: false,
        window_id: 10,
        dialog: PrintDialog::default(),
        request: RequestKind::Print,
    });
    assert_eq!(opened.cancelled, Some(5));
    assert!(!opened.open_window);
    assert!(portal.cancel("/print/5").is_none());
    assert_eq!(portal.cancel("/print/6").unwrap().request_id, 6);
}

#[test]
fn lengths_are_written_in_hundredths() {
    for n in [2100, 29_710, 5, 0, -1250] {
        assert_eq!(hundredths_to_text(n), (n as f64 / 100.0).to_string());
    }
    assert_eq!(hundredths_to_text(-5), "-0.05");
}

#[test]
fn values_have_types() {
    let mut values = Dict::new();
    values.insert("name", text_value("x"));
    values.insert("on", Value::Flag(true));
    assert_eq!(get_str(&values, "name").map(String::as_str), Some("x"));
    assert_eq!(get_str(&values, "on"), None);
    assert_eq!(get_flag(&values, "on"), Some(true));
    assert_eq!(get_length(&values, "name"), None);
}

#[test]
fn presets_are_named_after_the_minute() {
    let label: Label = default_preset_name();
    assert_ne!(label, preset_name_at("?".to_string()));
    let dialog = PrintDialog::default();
    let preset = dialog.build_current_preset("Mine".to_string());
    assert_eq!(preset.name, "Mine");
    assert!(!preset.is_builtin);
    assert!(!preset.id.is_empty());
}
