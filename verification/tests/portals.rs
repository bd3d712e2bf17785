//! Questions to the user, settings, and what is told to all.

use xdg_desktop_portal_cosmic::access::{
    active_choices, choice_labels, on_key as access_key, AccessDialog, AccessDialogArgs, AccessDialogOptions, AccessEffect,
    Msg as AccessMsg,
};
use xdg_desktop_portal_cosmic::app::{
    on_key as key_anywhere, system_theme_mode_update, system_theme_update, view_window, OutputState, ThemeEvent,
    WindowContent,
};
use xdg_desktop_portal_cosmic::app_chooser::{
    app_info, choose_application, list_apps, lookup_app_info, AppChooserDialog, AppChooserEffect,
    ChooseApplicationOptions, Msg as ChooserMsg,
};
use xdg_desktop_portal_cosmic::background::{
    on_key as background_key, BackgroundDialog, BackgroundDialogArgs, BackgroundEffect, BackgroundOptions, Msg as BackgroundMsg,
};
use xdg_desktop_portal_cosmic::color_picker::{
    on_key as pick_key, Args as PickArgs, ColorPicker, Msg as PickMsg, PickEffect,
};
use xdg_desktop_portal_cosmic::desktop_entries::DesktopFile;
use xdg_desktop_portal_cosmic::file_chooser::{
    dialog_choices, dialog_filters, filter_answer, kind_for, respond, respond_with_urls, set_up,
    DialogChoice, DialogKind, FileChooserOptions, FileChoosers, OpenFileOptions, SaveFileOptions,
};
use xdg_desktop_portal_cosmic::label::{Label, Phrase};
use xdg_desktop_portal_cosmic::portal::{
    Appearance, Color, PortalResponse, Settings, SettingsError,
};
use xdg_desktop_portal_cosmic::print::on_key as print_key;
use xdg_desktop_portal_cosmic::print_dialog::update::Msg as PrintMsg;
use xdg_desktop_portal_cosmic::screencast::dialog::DialogKey;
use xdg_desktop_portal_cosmic::screenshot::session::Msg as ScreenshotMsg;
use xdg_desktop_portal_cosmic::subscription::{
    drops_more, is_own_name, process_event, process_wayland, Event, Reaction, SignalValue,
    WaylandReaction, WaylandReceipt,
};

fn pair(a: &str, b: &str) -> (String, String) {
    (a.to_string(), b.to_string())
}

fn colour(n: u64) -> Color {
    Color {
        red: n,
        green: n + 1,
        blue: n + 2,
    }
}

fn access_args(handle: &str) -> AccessDialogArgs {
    let choices = Some(vec![
        (
            "device".to_string(),
            "Device".to_string(),
            vec![pair("a", "First"), pair("b", "Second")],
            "b".to_string(),
        ),
        (
            "mode".to_string(),
            "Mode".to_string(),
            vec![pair("x", "Ten")],
            String::new(),
        ),
    ]);
    let active = active_choices(&choices);
    let labels = choice_labels(&choices);
    AccessDialogArgs {
        handle: handle.to_string(),
        app_id: String::new(),
        parent_window: String::new(),
        title: "Title".to_string(),
        subtitle: "Subtitle".to_string(),
        body: "Body".to_string(),
        options: AccessDialogOptions {
            modal: Some(true),
            deny_label: None,
            grant_label: Some("Yes".to_string()),
            icon: None,
            choices,
        },
        active_choices: active,
        choice_labels: labels,
        access_id: 0,
    }
}

#[test]
fn a_granted_access_answers_what_was_chosen() {
    let mut dialog = AccessDialog::new();
    let opened = dialog.update_args(access_args("/1"), 7);
    assert!(opened.replaced.is_none());
    assert_eq!(opened.surface.id, 7);
    assert!(opened.surface.modal);
    dialog.update_msg(AccessMsg::Choice(1, 0));
    dialog.update_msg(AccessMsg::Choice(0, 9));
    match dialog.update_msg(AccessMsg::Allow) {
        AccessEffect::Answer {
            handle, response, ..
        } => {
            assert_eq!(handle, "/1");
            match response {
                PortalResponse::Success(result) => {
                    let mut choices = result.choices;
                    choices.sort();
                    assert_eq!(choices, vec![pair("device", "b"), pair("mode", "x")]);
                }
                other => panic!("{other:?}"),
            }
        }
        other => panic!("{other:?}"),
    }
    assert!(dialog.args.is_none());
}

#[test]
fn a_second_question_cancels_the_first() {
    let mut dialog = AccessDialog::new();
    dialog.update_args(access_args("/1"), 7);
    let opened = dialog.update_args(access_args("/2"), 8);
    let (handle, surface) = opened.replaced.unwrap();
    assert_eq!(handle, "/1");
    assert_eq!(surface.id, 7);
    match dialog.update_msg(AccessMsg::Cancel) {
        AccessEffect::Answer {
            handle, response, ..
        } => {
            assert_eq!(handle, "/2");
            assert!(matches!(response, PortalResponse::Cancelled));
        }
        other => panic!("{other:?}"),
    }
}

#[test]
fn questions_show_their_choices() {
    let mut dialog = AccessDialog::new();
    assert!(dialog.view().is_none());
    dialog.update_args(access_args("/1"), 7);
    let content = dialog.view().unwrap();
    assert_eq!(content.choices.len(), 2);
    assert_eq!(content.choices[0].selected, Some(1));
    assert_eq!(content.choices[0].options, vec!["First", "Second"]);
    assert_eq!(content.choices[1].selected, None);
    assert_eq!(content.grant, Label::text("Yes".to_string()));
}

#[test]
fn choices_are_shown_with_the_labels_that_were_made() {
    let mut dialog = AccessDialog::new();
    let mut args = access_args("/1");
    args.choice_labels = vec![vec!["One".to_string()]];
    dialog.update_args(args, 7);
    let content = dialog.view().unwrap();
    assert_eq!(content.choices.len(), 1);
    assert_eq!(content.choices[0].options, vec!["One"]);
    assert_eq!(content.choices[0].selected, Some(1));
}

#[test]
fn keys_answer_dialogs() {
    assert!(matches!(access_key(DialogKey::Enter), Some(AccessMsg::Allow)));
    assert!(matches!(access_key(DialogKey::Escape), Some(AccessMsg::Cancel)));
    assert!(access_key(DialogKey::Other).is_none());
    assert!(matches!(background_key(DialogKey::Enter), Some(BackgroundMsg::Allow)));
    assert!(matches!(background_key(DialogKey::Escape), Some(BackgroundMsg::Cancel)));
    assert!(background_key(DialogKey::Other).is_none());
    assert!(matches!(print_key(DialogKey::Enter), Some(PrintMsg::EnterPressed)));
    assert!(matches!(print_key(DialogKey::Escape), Some(PrintMsg::EscapePressed)));
    assert!(print_key(DialogKey::Other).is_none());
    assert!(matches!(pick_key(DialogKey::Escape), Some(PickMsg::Cancel)));
    assert!(pick_key(DialogKey::Enter).is_none());
    assert!(matches!(key_anywhere(DialogKey::Escape), Some(ScreenshotMsg::Cancel)));
    assert!(key_anywhere(DialogKey::Enter).is_none());
}

fn background_args(reason: &str) -> BackgroundDialogArgs {
    BackgroundDialogArgs {
        handle: "/b".to_string(),
        app_id: "org.example.App".to_string(),
        parent_window: String::new(),
        options: BackgroundOptions {
            handle_token: None,
            reason: Some(reason.to_string()),
            autostart: Some(true),
            commandline: None,
            dbus_activatable: None,
        },
        background_id: 0,
    }
}

#[test]
fn background_is_allowed_without_autostart() {
    let mut dialog = BackgroundDialog::new();
    dialog.update_args(background_args("music"), 3);
    let lines = dialog.view().unwrap();
    assert_eq!(lines.len(), 3);
    assert_eq!(
        lines[1],
        Label::message_with(
            "background-permission-reason",
            "reason",
            Phrase::Text("music".to_string())
        )
    );
    match dialog.update_msg(BackgroundMsg::Allow) {
        BackgroundEffect::Answer {
            handle,
            window,
            response: PortalResponse::Success(result),
        } => {
            assert_eq!((handle.as_str(), window), ("/b", 3));
            assert!(result.background);
            assert!(!result.autostart);
        }
        other => panic!("{other:?}"),
    }
    dialog.update_args(background_args(""), 4);
    assert_eq!(dialog.view().unwrap().len(), 2);
    assert!(matches!(
        dialog.update_msg(BackgroundMsg::Cancel),
        BackgroundEffect::Answer {
            response: PortalResponse::Cancelled,
            ..
        }
    ));
}

fn chooser_options(last: Option<&str>) -> ChooseApplicationOptions {
    ChooseApplicationOptions {
        last_choice: last.map(str::to_string),
        modal: None,
        content_type: Some("text/plain".to_string()),
        uri: None,
        filename: None,
        activation_token: None,
    }
}

#[test]
fn the_last_choice_is_offered_again() {
    let choices = vec!["org.a".to_string(), "org.b".to_string()];
    let args = choose_application("/c".to_string(), choices, chooser_options(Some("org.b"))).unwrap();
    let mut dialog = AppChooserDialog::new();
    dialog.update_args(args, 5);
    let (title, can_open) = dialog.view().unwrap();
    assert!(can_open);
    assert_eq!(
        title,
        Label::message_with(
            "open-item-with",
            "name",
            Phrase::Text("text/plain".to_string())
        )
    );
    match dialog.update_msg(ChooserMsg::Open) {
        AppChooserEffect::Answer {
            response: PortalResponse::Success(result),
            ..
        } => assert_eq!(result.choice, "org.b"),
        other => panic!("{other:?}"),
    }
}

#[test]
fn nothing_is_opened_without_a_choice() {
    assert!(choose_application("/c".to_string(), vec![], chooser_options(None)).is_none());
    let args = choose_application(
        "/c".to_string(),
        vec!["org.a".to_string()],
        chooser_options(None),
    )
    .unwrap();
    let mut dialog = AppChooserDialog::new();
    dialog.update_args(args, 5);
    assert!(matches!(
        dialog.update_msg(ChooserMsg::Open),
        AppChooserEffect::Nothing
    ));
    dialog.update_msg(ChooserMsg::Select(4));
    assert!(matches!(
        dialog.update_msg(ChooserMsg::Open),
        AppChooserEffect::Nothing
    ));
    assert!(dialog.args.is_some());
    assert!(matches!(
        dialog.update_msg(ChooserMsg::Cancel),
        AppChooserEffect::Answer {
            response: PortalResponse::Cancelled,
            ..
        }
    ));
}

#[test]
fn applications_are_shown_by_their_files() {
    let files = vec![
        DesktopFile {
            path: "/usr/share/applications/broken.desktop".to_string(),
            data: "no group".to_string(),
            message: None,
        },
        DesktopFile {
            path: "/usr/share/applications/org.a.desktop".to_string(),
            data: "[Desktop Entry]\nType=Application\nName=Alpha\nIcon=alpha-icon\n".to_string(),
            message: None,
        },
        DesktopFile {
            path: "/usr/share/applications/org.plain.desktop".to_string(),
            data: "[Desktop Entry]\nType=Application\n".to_string(),
            message: None,
        },
    ];
    let known = lookup_app_info("org.a", &files);
    assert_eq!(known.name, "Alpha");
    assert_eq!(known.icon_name, "alpha-icon");
    let named = DesktopFile {
        message: Some("Alfa".to_string()),
        path: files[1].path.clone(),
        data: files[1].data.clone(),
    };
    assert_eq!(lookup_app_info("org.a", &vec![named]).name, "Alfa");
    let plain = lookup_app_info("org.plain", &files);
    assert_eq!(plain.name, "plain");
    assert_eq!(plain.icon_name, "application-x-executable");
    let unknown = lookup_app_info("org.example.Unknown", &files);
    assert_eq!(unknown.name, "Unknown");
    let args = choose_application(
        "/c".to_string(),
        vec!["org.x".to_string(), "org.a".to_string()],
        chooser_options(None),
    )
    .unwrap();
    let listed = list_apps(&args, &files);
    assert_eq!(listed[1].info.name, "Alpha");
    assert_eq!(listed[1].msg, ChooserMsg::Select(1));
    assert!(!listed[1].selected);
}

#[test]
fn what_a_file_does_not_tell_is_made_up() {
    let info = app_info("org.a", Some("A".to_string()), None);
    assert_eq!(info.name, "A");
    assert_eq!(info.icon_name, "application-x-executable");
}

fn open_options() -> OpenFileOptions {
    OpenFileOptions {
        accept_label: Some("Take".to_string()),
        modal: Some(true),
        multiple: Some(true),
        directory: None,
        filters: Some(vec![(
            "Text".to_string(),
            vec![(0, "*.txt".to_string()), (9, "?".to_string())],
        )]),
        current_filter: None,
        choices: Some(vec![(
            "enc".to_string(),
            "Encoding".to_string(),
            vec![pair("utf8", "UTF-8"), pair("latin", "Latin")],
            "latin".to_string(),
        )]),
        current_folder: Some(b"/home\0".to_vec()),
    }
}

#[test]
fn file_dialogs_are_set_up_as_asked() {
    let options = FileChooserOptions::OpenFile(open_options());
    assert!(matches!(kind_for(&options), DialogKind::OpenMultipleFiles));
    let setup = set_up(&options);
    assert_eq!(setup.path.as_deref(), Some(&b"/home"[..]));
    assert_eq!(setup.accept_label.as_deref(), Some("Take"));
    assert_eq!(setup.filter_selected, Some(0));
    assert_eq!(setup.filters[0].patterns.len(), 1);
    let save = FileChooserOptions::SaveFile(SaveFileOptions {
        accept_label: None,
        modal: None,
        filters: None,
        current_filter: None,
        choices: None,
        current_name: Some("a.txt".to_string()),
        current_folder: None,
        current_file: None,
    });
    match kind_for(&save) {
        DialogKind::SaveFile { filename } => assert_eq!(filename, "a.txt"),
        other => panic!("{other:?}"),
    }
}

#[test]
fn untouched_choices_and_filters_answer_as_asked() {
    let options = open_options();
    let choices = dialog_choices(options.choices.as_ref().unwrap());
    let wanted = ("Images".to_string(), vec![(1, "image/png".to_string())]);
    let (filters, selected) = dialog_filters(options.filters.as_ref(), Some(&wanted));
    assert_eq!(filters.len(), 2);
    assert_eq!(selected, Some(0));
    assert_eq!(filter_answer(&filters, selected), Some(wanted.clone()));
    match respond(&vec!["/tmp/a b.txt".to_string()], &choices, &filters, selected) {
        PortalResponse::Success(result) => {
            assert_eq!(result.uris, vec!["file:///tmp/a%20b.txt"]);
            assert_eq!(result.choices, vec![pair("enc", "latin")]);
            assert_eq!(result.current_filter, Some(wanted));
        }
        other => panic!("{other:?}"),
    }
}

#[test]
fn boxes_are_answered_by_words() {
    let asked = vec![(
        "box".to_string(),
        "Box".to_string(),
        vec![],
        "true".to_string(),
    )];
    let choices = dialog_choices(&asked);
    assert!(matches!(choices[0], DialogChoice::CheckBox { value: true, .. }));
    match respond_with_urls(vec![Some("file:///a".to_string())], &choices, &vec![], None) {
        PortalResponse::Success(result) => assert_eq!(result.choices, vec![pair("box", "true")]),
        other => panic!("{other:?}"),
    }
}

#[test]
fn paths_that_are_no_places_are_left_out() {
    match respond(&vec!["relative".to_string()], &vec![], &vec![], None) {
        PortalResponse::Success(result) => assert!(result.uris.is_empty()),
        PortalResponse::Other => {}
        other => panic!("{other:?}"),
    }
}

#[test]
fn file_dialogs_are_answered_once() {
    let mut choosers = FileChoosers::new();
    choosers.update_args(4, "/f".to_string());
    assert_eq!(choosers.take_request(5), None);
    assert_eq!(choosers.take_request(4).as_deref(), Some("/f"));
    assert_eq!(choosers.take_request(4), None);
}

fn output(id: u64) -> OutputState {
    OutputState {
        output: id,
        id: id + 100,
        name: format!("O{id}"),
        logical_size: (1, 1),
        logical_pos: (0, 0),
        has_pointer: false,
        pointer_position: None,
        window_pointer_anchor: None,
        bg_source: None,
    }
}

#[test]
fn colours_are_sampled_one_at_a_time() {
    let outputs = vec![output(1)];
    let mut picker = ColorPicker::new();
    let args = PickArgs::new("/p".to_string(), String::new(), String::new());
    assert!(matches!(picker.update_args(args, &outputs), PickEffect::Open(_)));
    assert!(matches!(
        picker.update_msg(PickMsg::Motion, 0, &outputs),
        PickEffect::Sample
    ));
    // The sample is under way.
    assert!(matches!(
        picker.update_msg(PickMsg::Motion, 100, &outputs),
        PickEffect::Nothing
    ));
    // The motion is made up for.
    assert!(matches!(
        picker.update_msg(PickMsg::Previewed(Some(colour(1))), 101, &outputs),
        PickEffect::Sample
    ));
    // The next one is too soon.
    picker.update_msg(PickMsg::Previewed(None), 102, &outputs);
    assert!(matches!(
        picker.update_msg(PickMsg::Motion, 103, &outputs),
        PickEffect::Nothing
    ));
    match picker.update_msg(PickMsg::Clicked, 104, &outputs) {
        PickEffect::SampleClick { windows } => assert_eq!(windows, vec![101]),
        other => panic!("{other:?}"),
    }
    match picker.update_msg(PickMsg::Picked(Some(colour(5))), 105, &outputs) {
        PickEffect::Answer {
            handle, response, ..
        } => {
            assert_eq!(handle.as_deref(), Some("/p"));
            assert!(matches!(response, PortalResponse::Success(c) if c == colour(5)));
        }
        other => panic!("{other:?}"),
    }
}

#[test]
fn settings_are_read_by_namespace_and_key() {
    let settings = Settings::new(true, false, colour(3));
    let appearance = "org.freedesktop.appearance";
    assert_eq!(
        settings.read_one(appearance, "color-scheme"),
        Ok(Appearance::Number(1))
    );
    assert_eq!(
        settings.read(appearance, "contrast"),
        Ok(Appearance::Number(0))
    );
    assert_eq!(
        settings.read_one(appearance, "accent-color"),
        Ok(Appearance::Color(colour(3)))
    );
    assert_eq!(
        settings.read_one("org.example", "color-scheme"),
        Err(SettingsError::UnknownKey)
    );
    assert_eq!(
        settings.read_one(appearance, "font"),
        Err(SettingsError::UnknownKey)
    );
    let all = settings.read_all(&vec![appearance.to_string()]);
    assert_eq!(
        all.get(appearance).and_then(|d| d.get("color-scheme")),
        Some(&Appearance::Number(1))
    );
}

#[test]
fn a_told_setting_is_read() {
    let mut settings = Settings::new(true, false, colour(3));
    let reaction = process_event(&mut settings, Event::Theme(ThemeEvent::IsDark(false)));
    assert_eq!(
        reaction,
        Reaction::SettingChanged {
            key: "color-scheme",
            value: SignalValue::Number(2)
        }
    );
    assert_eq!(
        settings.read_one("org.freedesktop.appearance", "color-scheme"),
        Ok(Appearance::Number(2))
    );
    assert_eq!(
        settings.read_one("org.freedesktop.appearance", "accent-color"),
        Ok(Appearance::Color(colour(3)))
    );
    assert_eq!(process_event(&mut settings, Event::Request), Reaction::Forward);
    assert_eq!(process_event(&mut settings, Event::Init), Reaction::Nothing);
}

#[test]
fn windows_that_came_or_went_are_told() {
    assert_eq!(
        process_wayland(WaylandReceipt::ToplevelsUpdated),
        WaylandReaction::TellRunningApplications
    );
    assert_eq!(process_wayland(WaylandReceipt::Closed), WaylandReaction::Stop);
    assert!(drops_more(WaylandReceipt::ToplevelsUpdated));
    assert!(!drops_more(WaylandReceipt::Empty));
    assert!(is_own_name("org.freedesktop.impl.portal.desktop.cosmic"));
    assert!(!is_own_name("org.freedesktop.impl.portal.desktop.gtk"));
}

#[test]
fn themes_are_told_when_they_change() {
    assert_eq!(
        system_theme_mode_update(true, false),
        Some(ThemeEvent::IsDark(false))
    );
    assert_eq!(system_theme_mode_update(true, true), None);
    assert_eq!(
        system_theme_update(true, true, Some(colour(1)), false, true),
        vec![
            ThemeEvent::Accent(colour(1)),
            ThemeEvent::HighContrast(true)
        ]
    );
    assert_eq!(
        system_theme_update(false, true, Some(colour(1)), false, true),
        vec![]
    );
}

#[test]
fn windows_show_what_they_are_for() {
    let outputs = vec![output(1)];
    assert_eq!(view_window(&outputs, 9, 9), WindowContent::Access);
    assert_eq!(view_window(&outputs, 9, 101), WindowContent::Screenshot);
    assert_eq!(view_window(&outputs, 9, 55), WindowContent::FileChooser);
}

#[test]
fn answers_have_their_codes() {
    assert_eq!(PortalResponse::Success(5).code(), 0);
    assert_eq!(PortalResponse::<u8>::Cancelled.code(), 1);
    assert_eq!(PortalResponse::<u8>::Other.code(), 2);
    assert_eq!(PortalResponse::Success(5).result(), Some(5));
    assert_eq!(PortalResponse::<u8>::Other.result(), None);
}
