//! Names of applications, and texts.

use xdg_desktop_portal_cosmic::cgroup::{
    app_id_from_cgroup, cosmic_flatpak_name, is_process_dir, running_app_ids,
};
use xdg_desktop_portal_cosmic::systemd::{ActiveState, LoadState, SubState, Unit};
use xdg_desktop_portal_cosmic::text;

const APPID: &str = "com.system76.CosmicFiles";

fn unit_with_name(name: &str) -> Unit {
    Unit {
        name: name.to_owned(),
        description: String::new(),
        load_state: LoadState::Stub,
        active_state: ActiveState::Active,
        sub_state: SubState::Dead,
        following: String::new(),
        unit_object: String::new(),
        job_id: 0,
        job_type: String::new(),
        job_object: String::new(),
    }
}

#[test]
fn cgroup_parse_appid_without_scope_fails() {
    let name = cosmic_flatpak_name(APPID);
    assert!(
        name.is_none(),
        "Only apps launched by COSMIC or Flatpak should be parsed; got: {name:?}"
    );
}

#[test]
fn cgroup_parse_appid_with_scope_pid() {
    let scope = format!("app-cosmic-{APPID}-1234.scope");
    let name = cosmic_flatpak_name(&scope).expect("Should parse app launched by COSMIC");
    assert_eq!(APPID, name);
}

#[test]
fn scope_names_hold_the_application_before_a_number() {
    for (scope, app_id) in [
        ("app-flatpak-org.a-b-7.scope", Some("org.a-b")),
        ("app-cosmic-org.a-+7.scope", Some("org.a")),
        ("app-cosmic-org.a-7-.scope", None),
        ("app-cosmic-org.a-4294967296.scope", None),
        ("app-other-org.a-7.scope", None),
    ] {
        assert_eq!(cosmic_flatpak_name(scope).as_deref(), app_id, "{scope}");
    }
}

#[test]
fn cgroup_parse_appid_with_scope_no_pid_fails() {
    let scope = format!("app-cosmic-{APPID}.scope");
    let name = cosmic_flatpak_name(&scope);
    assert!(
        name.is_none(),
        "Apps launched by COSMIC/Flatpak should have a PID in its scope name"
    );
}

#[test]
fn parse_appid_from_cgroup_v2() {
    let contents = format!(
        "0::/user.slice/user-1000.slice/user@1000.service/app.slice/app-cosmic-{APPID}-1234.scope\n"
    );
    assert_eq!(Some(APPID), app_id_from_cgroup(&contents).as_deref());
}

#[test]
fn parse_appid_from_cgroup_flatpak() {
    let contents = format!(
        "0::/user.slice/user-1000.slice/user@1000.service/app.slice/app-flatpak-{APPID}-99.scope\n"
    );
    assert_eq!(Some(APPID), app_id_from_cgroup(&contents).as_deref());
}

#[test]
fn parse_appid_from_nested_cgroup() {
    let contents = format!(
        "0::/user.slice/user-1000.slice/user@1000.service/app.slice/app-cosmic-{APPID}-1234.scope/tab-7\n"
    );
    assert_eq!(Some(APPID), app_id_from_cgroup(&contents).as_deref());
}

#[test]
fn parse_appid_from_unrelated_cgroup_fails() {
    let contents = "0::/user.slice/user-1000.slice/session.slice/foo.service\n";
    assert!(app_id_from_cgroup(contents).is_none());
}

#[test]
fn systemd_parse_appid_without_scope_fails() {
    let unit = unit_with_name(APPID);
    let name = unit.cosmic_flatpak_name();
    assert!(
        name.is_none(),
        "Only apps launched by COSMIC or Flatpak should be parsed; got: {name:?}"
    );
}

#[test]
fn systemd_parse_appid_with_scope_pid() {
    let unit = unit_with_name(&format!("app-cosmic-{APPID}-1234.scope"));
    let name = unit
        .cosmic_flatpak_name()
        .expect("Should parse app launched by COSMIC");
    assert_eq!(APPID, name);
}

#[test]
fn systemd_parse_appid_with_scope_no_pid_fails() {
    let unit = unit_with_name(&format!("app-cosmic-{APPID}.scope"));
    let name = unit.cosmic_flatpak_name();
    assert!(
        name.is_none(),
        "Apps launched by COSMIC/Flatpak should have a PID in its scope name"
    );
}

#[test]
fn processes_are_directories_named_by_numbers() {
    assert!(is_process_dir("1234"));
    assert!(!is_process_dir("self"));
    assert!(!is_process_dir("12a"));
}

#[test]
fn every_running_application_is_listed_once() {
    let one = format!("0::/app.slice/app-cosmic-{APPID}-1.scope\n");
    let again = format!("0::/app.slice/app-cosmic-{APPID}-2.scope\n");
    let other = "0::/app.slice/app-flatpak-org.gnome.Maps-3.scope\n".to_string();
    let none = "0::/init.scope\n".to_string();
    let mut ids = running_app_ids(&vec![one, none, again, other]);
    ids.sort();
    assert_eq!(ids, vec![APPID.to_string(), "org.gnome.Maps".to_string()]);
}

#[test]
fn texts_are_taken_apart_and_put_together() {
    assert_eq!(text::split("a,b,,c", ','), vec!["a", "b", "", "c"]);
    assert_eq!(text::split("", ','), vec![""]);
    let parts = text::split("x/y/z", '/');
    assert_eq!(text::join(&parts, "/"), "x/y/z");
    assert_eq!(
        text::split_once("key=a=b", '='),
        Some(("key".to_string(), "a=b".to_string()))
    );
    assert_eq!(
        text::rsplit_once("key=a=b", '='),
        Some(("key=a".to_string(), "b".to_string()))
    );
    assert_eq!(text::split_once("none", '='), None);
    assert_eq!(text::split_lines("a\r\nb\n"), vec!["a", "b"]);
    assert_eq!(text::trim(" \t a b \u{3000}"), "a b");
    assert_eq!(text::strip_prefix("app-x", "app-").as_deref(), Some("x"));
    assert_eq!(text::strip_suffix("x.scope", ".scope").as_deref(), Some("x"));
    assert_eq!(text::strip_suffix("x.service", ".scope"), None);
    assert!(text::str_eq_ignore_ascii_case("Pdf", "pDF"));
    assert!(!text::str_eq_ignore_ascii_case("Pdf", "pd"));
}

#[test]
fn numbers_are_read_and_written() {
    assert_eq!(text::parse_u32("4294967295"), Some(u32::MAX));
    assert_eq!(text::parse_u32("4294967296"), None);
    assert_eq!(text::parse_u32("+7"), Some(7));
    assert_eq!(text::parse_u32("-7"), None);
    assert_eq!(text::parse_u32(""), None);
    assert_eq!(text::parse_u32("+"), None);
    assert_eq!(text::to_decimal(u64::MAX), u64::MAX.to_string());
    for n in [0u32, 1, 9, 10, 123_456_789, u32::MAX] {
        assert_eq!(text::parse_u32(&text::to_decimal(n as u64)), Some(n));
    }
}
