//! Applications by their files, and what is asked when they want to see the screen.

use xdg_desktop_portal_cosmic::desktop_entries::{
    describe, load_desktop_entries, name_and_icon, DesktopFile,
};
use xdg_desktop_portal_cosmic::remote_desktop::RemoteStart;
use xdg_desktop_portal_cosmic::screencast::prompt::{
    gather_capture_sources, show_remote_desktop_prompt, show_screencast_prompt, ToplevelListing,
};
use xdg_desktop_portal_cosmic::screencast::OutputSource;

fn file(name: &str, data: &str) -> DesktopFile {
    DesktopFile {
        path: format!("/usr/share/applications/{name}.desktop"),
        data: data.to_string(),
        message: None,
    }
}

fn files() -> Vec<DesktopFile> {
    vec![
        file("broken", "no group"),
        file(
            "org.example.Paint",
            "[Desktop Entry]\nType=Application\nName=Paint\nName[de]=Malen\nIcon=paint\n",
        ),
        file(
            "org.example.Term",
            "[Desktop Entry]\nType=Application\nName=Terminal\nExec=term --new\nStartupWMClass=XTerm\n",
        ),
    ]
}

fn languages(names: &[&str]) -> Vec<String> {
    names.iter().map(|name| name.to_string()).collect()
}

fn described(app_id: &str, names: &[&str]) -> (Option<String>, Option<String>) {
    describe(&files(), &languages(names), app_id)
}

fn output(id: u64, known: bool, name: Option<&str>) -> OutputSource {
    OutputSource {
        id,
        known,
        name: name.map(str::to_string),
        position: Some((0, 0)),
        size: Some((800, 600)),
    }
}

fn window(id: u64, title: &str, app_id: &str) -> ToplevelListing {
    ToplevelListing {
        id,
        title: title.to_string(),
        app_id: app_id.to_string(),
    }
}

fn start(screen_cast_enabled: bool) -> RemoteStart {
    RemoteStart {
        device_types: 3,
        clipboard_enabled: false,
        persist_mode: 1,
        screen_cast_enabled,
        multiple: true,
        source_types: 3,
        restored: false,
    }
}

#[test]
fn applications_are_found_by_identifier_class_and_command() {
    assert_eq!(described("org.example.paint", &[]), (Some("Paint".into()), Some("paint".into())));
    assert_eq!(described("xterm", &[]), (Some("Terminal".into()), None));
    assert_eq!(described("term", &[]), (Some("Terminal".into()), None));
    assert_eq!(described("org.example.Nothing", &[]), (None, None));
    assert_eq!(described("broken", &[]), (None, None));
}

#[test]
fn applications_are_named_in_the_language_that_is_kept() {
    assert_eq!(described("org.example.Paint", &["de"]).0, Some("Malen".into()));
    assert_eq!(described("org.example.Paint", &["de_AT"]).0, Some("Malen".into()));
    assert_eq!(described("org.example.Paint", &["fr"]).0, Some("Paint".into()));
}

#[test]
fn a_class_comes_before_an_identifier_and_that_before_a_name() {
    let kept = languages(&[]);
    let files = vec![
        file("one", "[Desktop Entry]\nName=three\nIcon=1\n"),
        file("two", "[Desktop Entry]\nName=four\nIcon=2\n"),
        file("four", "[Desktop Entry]\nName=five\nIcon=3\nStartupWMClass=ONE\n"),
    ];
    let icon = |app_id: &str| describe(&files, &kept, app_id).1;
    assert_eq!(icon("one").as_deref(), Some("3"));
    assert_eq!(icon("four").as_deref(), Some("3"));
    assert_eq!(icon("org.example.two").as_deref(), Some("2"));
    assert_eq!(icon("THREE").as_deref(), Some("1"));
}

#[test]
fn messages_of_the_machine_stand_for_names_without_translation() {
    let contents = "[Desktop Entry]\nName=Paint\nName[de]=Malen\nX-Ubuntu-Gettext-Domain=paint\n";
    let mut files = vec![file("org.example.Paint", contents)];
    let name = |files: &Vec<DesktopFile>, app_id: &str, wanted: &[&str]| {
        describe(files, &languages(wanted), app_id).0
    };
    assert_eq!(name(&files, "org.example.Paint", &[]).as_deref(), Some("Paint"));
    assert_eq!(name(&files, "paint", &[]).as_deref(), Some("Paint"));
    files[0].message = Some("Peinture".to_string());
    assert_eq!(name(&files, "org.example.Paint", &["fr"]).as_deref(), Some("Peinture"));
    assert_eq!(name(&files, "org.example.Paint", &["de"]).as_deref(), Some("Malen"));
    assert_eq!(name(&files, "peinture", &["de"]).as_deref(), Some("Malen"));
}

#[test]
fn files_that_cannot_be_read_are_left_out() {
    let kept = load_desktop_entries(&files(), &languages(&[]));
    let paths: Vec<&str> = kept.iter().map(|file| file.path.as_str()).collect();
    assert_eq!(
        paths,
        [
            "/usr/share/applications/org.example.Paint.desktop",
            "/usr/share/applications/org.example.Term.desktop",
        ]
    );
    assert_eq!(kept[0].data, files()[1].data);
    let paint = name_and_icon(&kept, &languages(&[]), Some(0));
    assert_eq!(paint, (Some("Paint".to_string()), Some("paint".to_string())));
    assert_eq!(name_and_icon(&kept, &languages(&[]), None), (None, None));
    assert_eq!(name_and_icon(&files(), &languages(&[]), Some(0)), (None, None));
}

#[test]
fn known_outputs_and_all_windows_are_offered() {
    let outputs = vec![output(1, true, Some("DP-1")), output(2, false, None), output(3, true, None)];
    let windows = vec![
        window(7, "Picture", "org.example.Paint"),
        window(8, "Shell", "XTERM"),
        window(9, "Other", "org.example.Other"),
    ];
    let (shown, choices) = gather_capture_sources(&outputs, &windows, &files(), &languages(&[]));
    let shown: Vec<(u64, Option<String>)> = shown.into_iter().map(|o| (o.id, o.name)).collect();
    assert_eq!(shown, [(1, Some("DP-1".to_string())), (3, None)]);
    let icons: Vec<(u64, String, Option<String>)> =
        choices.into_iter().map(|choice| (choice.id, choice.title, choice.icon)).collect();
    assert_eq!(
        icons,
        [
            (7, "Picture".to_string(), Some("paint".to_string())),
            (8, "Shell".to_string(), None),
            (9, "Other".to_string(), None),
        ]
    );
}

#[test]
fn request_to_share_names_the_application() {
    let outputs = vec![output(1, true, Some("DP-1"))];
    let args = show_screencast_prompt(
        "/session".to_string(),
        "org.example.Paint",
        true,
        3,
        &outputs,
        &Vec::new(),
        &files(),
        &languages(&["de"]),
    );
    assert_eq!(args.session_handle, "/session");
    assert_eq!(args.app_name.as_deref(), Some("Malen"));
    assert!(args.multiple);
    assert_eq!(args.source_types, 3);
    assert_eq!(args.outputs.len(), 1);
    assert!(args.toplevels.is_empty());
    assert!(args.capture_sources.is_empty());
}

#[test]
fn request_to_control_offers_sources_only_to_be_shared() {
    let outputs = vec![output(1, true, Some("DP-1"))];
    let windows = vec![window(7, "Picture", "org.example.Paint")];
    let ask = |shared: bool| {
        show_remote_desktop_prompt(
            "/session".to_string(),
            "org.example.Paint",
            start(shared),
            &outputs,
            &windows,
            &files(),
            &languages(&[]),
        )
    };
    let shared = ask(true);
    assert_eq!(shared.app_name.as_deref(), Some("Paint"));
    assert_eq!(shared.app_icon.as_deref(), Some("paint"));
    assert_eq!(shared.persist_options, [0, 1]);
    assert_eq!((shared.outputs.len(), shared.toplevels.len()), (1, 1));
    let alone = ask(false);
    assert_eq!(alone.app_icon.as_deref(), Some("paint"));
    assert_eq!((alone.outputs.len(), alone.toplevels.len()), (0, 0));
}
