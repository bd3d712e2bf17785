//! Sessions in which an application sees the screen or moves the pointer.

use xdg_desktop_portal_cosmic::remote_desktop::dialog::{
    device_type_icon_label, list_devices, list_modes, offered_modes, on_key as remote_key,
    persist_mode_label, Args as RemoteArgs, DialogEffect as RemoteEffect, Msg as RemoteMsg,
    RemoteDesktopDialog,
};
use xdg_desktop_portal_cosmic::remote_desktop::ei::{
    capabilities_for, handle_command, micros, Action, Command, DeviceCapability, EiEffect, EiEvent,
    State,
};
use xdg_desktop_portal_cosmic::remote_desktop::{
    PersistedRemoteDesktop, PromptResponse, RemoteStep, SelectDevicesOptions, ALL_DEVICE_TYPES,
    DEVICE_KEYBOARD, DEVICE_POINTER, PERSIST_NONE, PERSIST_UNTIL_REVOKED, PERSIST_WHILE_RUNNING,
};
use xdg_desktop_portal_cosmic::portal::PortalResponse;
use xdg_desktop_portal_cosmic::restore::RestoreData;
use xdg_desktop_portal_cosmic::screencast::buffers::{
    dmabuf_datas, BufferPlan, CaptureReply, DataKind, ProcessStep, DATA_DMABUF_BIT,
};
use xdg_desktop_portal_cosmic::screencast::dialog::{
    Args, DialogEffect, DialogKey, Msg, OutputChoice, ScreencastDialog, Tab, TabModel, ToplevelChoice,
};
use xdg_desktop_portal_cosmic::screencast::session::{
    all_have_areas, plan_capture, plan_streams, start_response, CaptureOutcome, CapturePlan, SelectSourcesOptions,
    SessionData, Stream, StreamSource,
};
use xdg_desktop_portal_cosmic::screencast::thread::{
    convert_transform, cursor_meta, cursor_meta_size, format_params, other_params, shm_format,
    shm_format_to_gbm, spa_format, spa_format_to_gbm, BufferDamage, DamageRect, Formats,
    ModifierChoice, ModifierParam, OtherParam, ParamAction, ParamEvent, StreamData, VideoFormat,
    FOURCC_ABGR8888, FOURCC_ARGB8888, MODIFIER_INVALID, SHM_ARGB8888,
};
use xdg_desktop_portal_cosmic::screencast::{
    CaptureSources, LiveSources, OutputSource, PersistedCaptureSources, ToplevelSource,
    CURSOR_MODE_EMBEDDED, CURSOR_MODE_HIDDEN, SOURCE_TYPE_MONITOR, SOURCE_TYPE_WINDOW,
};
use xdg_desktop_portal_cosmic::screenshot::geometry::Transform;
use xdg_desktop_portal_cosmic::wayland::dmabuf::Plane;

fn live() -> LiveSources {
    LiveSources {
        outputs: vec![
            OutputSource {
                id: 1,
                known: true,
                name: Some("DP-1".to_string()),
                position: Some((10, 0)),
                size: Some((800, 600)),
            },
            OutputSource {
                id: 2,
                known: true,
                name: Some("DP-2".to_string()),
                position: None,
                size: None,
            },
        ],
        toplevels: vec![ToplevelSource {
            id: 7,
            identifier: "win-7".to_string(),
            sizes: vec![(2, 3), (4, 5), (5, 4)],
        }],
    }
}

fn sources(outputs: Vec<u64>, toplevels: Vec<u64>) -> CaptureSources {
    CaptureSources { outputs, toplevels }
}

fn selection(types: Option<u32>) -> SelectSourcesOptions {
    SelectSourcesOptions {
        types,
        multiple: Some(true),
        cursor_mode: Some(CURSOR_MODE_EMBEDDED),
        restore_data: None,
        persist_mode: None,
    }
}

#[test]
fn kept_sources_return() {
    let live = live();
    let chosen = sources(vec![1], vec![7]);
    let kept = PersistedCaptureSources::from_capture_sources(&live, &chosen).unwrap();
    assert_eq!(kept.outputs, vec!["DP-1"]);
    assert_eq!(kept.toplevels, vec!["win-7"]);
    assert_eq!(kept.to_capture_sources(&live), Some(chosen));
    assert!(kept.resolves(&live));
    let mut fewer = self::live();
    fewer.toplevels.clear();
    assert_eq!(kept.to_capture_sources(&fewer), None);
}

#[test]
fn some_source_is_always_offered() {
    let mut session = SessionData::new();
    session.select_sources(selection(None));
    assert_eq!(session.source_types, SOURCE_TYPE_MONITOR);
    session.select_sources(selection(Some(8 | SOURCE_TYPE_WINDOW)));
    assert_eq!(session.source_types, SOURCE_TYPE_WINDOW);
}

#[test]
fn sources_are_restored_or_asked_for() {
    let live = live();
    let mut session = SessionData::new();
    session.select_sources(selection(Some(3)));
    assert!(matches!(
        plan_capture(&session, &live),
        CapturePlan::Prompt {
            multiple: true,
            source_types: 3
        }
    ));
    let mut options = selection(Some(3));
    options.restore_data = Some(RestoreData::cosmic_v1(PersistedCaptureSources {
        outputs: vec!["DP-2".to_string()],
        toplevels: vec![],
    }));
    session.select_sources(options);
    match plan_capture(&session, &live) {
        CapturePlan::Restore(restored) => assert_eq!(restored, sources(vec![2], vec![])),
        other => panic!("{other:?}"),
    }
    let none = LiveSources {
        outputs: vec![],
        toplevels: vec![],
    };
    assert!(matches!(plan_capture(&session, &none), CapturePlan::Refuse));
}

#[test]
fn streams_are_planned_for_all_sources() {
    let mut live = live();
    let mut session = SessionData::new();
    session.select_sources(SelectSourcesOptions {
        cursor_mode: Some(CURSOR_MODE_HIDDEN),
        ..selection(Some(3))
    });
    let wanted = sources(vec![1, 2], vec![7]);
    assert!(all_have_areas(&wanted, &live));
    let requests = plan_streams(&session, &live, &wanted);
    assert_eq!(requests.len(), 3);
    assert_eq!(requests[0].source, StreamSource::Output(1));
    assert_eq!(requests[0].props.position, Some((10, 0)));
    assert_eq!(requests[0].props.size, (800, 600));
    assert!(!requests[0].overlay_cursor);
    assert_eq!(requests[1].props.size, (0, 0));
    assert_eq!(requests[2].source, StreamSource::Toplevel(7));
    // The last of the largest.
    assert_eq!(requests[2].props.size, (5, 4));
    live.toplevels[0].sizes.push((65536, 32768));
    assert!(!all_have_areas(&wanted, &live));
    // A window that is not captured may be as large as it likes.
    let outputs = sources(vec![1, 2], vec![]);
    assert!(all_have_areas(&outputs, &live));
    assert_eq!(plan_streams(&session, &live, &outputs).len(), 2);
}

#[test]
fn a_capture_answers_with_its_streams() {
    let live = live();
    let mut session = SessionData::new();
    session.select_sources(selection(Some(3)));
    let chosen = sources(vec![1], vec![]);
    let props = plan_streams(&session, &live, &chosen).remove(0).props;
    let streams = vec![Some(Stream {
        thread: 4,
        node_id: 44,
        props,
    })];
    let outcome = session.finish_capture(&live, &chosen, &streams);
    assert_eq!(session.screencast_threads, vec![4]);
    match start_response(outcome) {
        PortalResponse::Success(result) => {
            assert_eq!(result.streams[0].0, 44);
            let kept = result.restore_data.unwrap();
            assert_eq!(kept.vendor, "COSMIC");
            assert_eq!(kept.version, 1);
            assert_eq!(kept.cosmic_v1_data().unwrap().outputs, vec!["DP-1"]);
        }
        other => panic!("{other:?}"),
    }
    assert_eq!(session.close(), vec![4]);
    assert!(session.closed);
}

#[test]
fn a_stream_that_fails_stops_the_others() {
    let live = live();
    let mut session = SessionData::new();
    session.select_sources(selection(Some(3)));
    let chosen = sources(vec![1, 2], vec![]);
    let props = plan_streams(&session, &live, &chosen).remove(0).props;
    let streams = vec![
        Some(Stream {
            thread: 4,
            node_id: 44,
            props,
        }),
        None,
    ];
    match session.finish_capture(&live, &chosen, &streams) {
        CaptureOutcome::Other { stopped } => assert_eq!(stopped, vec![4]),
        other => panic!("{other:?}"),
    }
}

fn dialog_args() -> Args {
    Args {
        session_handle: "/s".to_string(),
        multiple: false,
        source_types: 3,
        outputs: vec![OutputChoice {
            id: 1,
            name: Some("DP-1".to_string()),
        }],
        toplevels: vec![ToplevelChoice {
            id: 7,
            title: "Terminal".to_string(),
            icon: None,
        }],
        app_name: None,
        capture_sources: CaptureSources::new(),
    }
}

#[test]
fn a_single_choice_stays_single() {
    let mut dialog = ScreencastDialog::new();
    let taken = dialog.update_args(dialog_args());
    assert!(taken.open);
    assert!(!dialog.view().unwrap().can_share);
    dialog.update_msg(Msg::SelectOutput(1));
    dialog.update_msg(Msg::SelectToplevel(7));
    assert!(dialog.view().unwrap().can_share);
    match dialog.update_msg(Msg::Share) {
        DialogEffect::Answer { handle, sources } => {
            assert_eq!(handle, "/s");
            assert_eq!(sources, Some(self::sources(vec![], vec![7])));
        }
        other => panic!("{other:?}"),
    }
    assert!(dialog.args.is_none());
}

#[test]
fn choosing_twice_takes_it_back() {
    let mut chosen = CaptureSources::new();
    chosen.toggle_output(1, true);
    chosen.toggle_output(2, true);
    chosen.toggle_output(2, true);
    assert_eq!(chosen, sources(vec![1], vec![]));
    chosen.toggle_toplevel(7, true);
    assert!(!chosen.is_empty());
    chosen.clear();
    assert!(chosen.is_empty());
}

#[test]
fn dialogs_show_the_list_of_a_tab() {
    let mut dialog = ScreencastDialog::new();
    dialog.update_args(dialog_args());
    assert_eq!(dialog.view().unwrap().tab, Tab::Outputs);
    dialog.update_msg(Msg::ActivateTab(1));
    let content = dialog.view().unwrap();
    assert_eq!(content.tab, Tab::Windows);
    assert_eq!(content.entries[0].label, "Terminal");
    assert!(!content.scrolls);
    assert!(matches!(
        dialog.cancel("/other"),
        DialogEffect::Nothing
    ));
    assert!(matches!(
        dialog.cancel("/s"),
        DialogEffect::Answer { sources: None, .. }
    ));
}

fn remote_session(persist: u32) -> SessionData {
    let mut session = SessionData::new_remote_desktop();
    session
        .remote_desktop
        .as_mut()
        .unwrap()
        .select_devices(SelectDevicesOptions {
            types: Some(DEVICE_KEYBOARD | DEVICE_POINTER),
            restore_data: None,
            persist_mode: Some(persist),
        });
    session
}

#[test]
fn devices_are_started_when_the_user_agrees() {
    let mut session = remote_session(PERSIST_UNTIL_REVOKED);
    let start = session.begin_remote_start(&live()).unwrap();
    assert!(!start.restored);
    let step = session.after_prompt(
        start,
        Some(PromptResponse {
            persist_mode: PERSIST_WHILE_RUNNING,
            capture_sources: CaptureSources::new(),
        }),
    );
    let granted = match step {
        RemoteStep::Finish { granted } => granted,
        other => panic!("{other:?}"),
    };
    assert_eq!(granted, PERSIST_WHILE_RUNNING);
    let result = session.finish_remote_start(start, granted, None);
    assert_eq!(result.devices, DEVICE_KEYBOARD | DEVICE_POINTER);
    assert_eq!(result.persist_mode, PERSIST_WHILE_RUNNING);
    // What was handed out holds the next time.
    let kept = result.restore_data.unwrap();
    let mut again = remote_session(PERSIST_UNTIL_REVOKED);
    again
        .remote_desktop
        .as_mut()
        .unwrap()
        .select_devices(SelectDevicesOptions {
            types: Some(DEVICE_KEYBOARD | DEVICE_POINTER),
            restore_data: Some(kept),
            persist_mode: Some(PERSIST_UNTIL_REVOKED),
        });
    assert!(again.begin_remote_start(&live()).unwrap().restored);
}

#[test]
fn consent_does_not_spread_to_other_devices() {
    let mut session = SessionData::new_remote_desktop();
    session
        .remote_desktop
        .as_mut()
        .unwrap()
        .select_devices(SelectDevicesOptions {
            types: None,
            restore_data: Some(RestoreData::cosmic_v1(PersistedRemoteDesktop {
                device_types: DEVICE_KEYBOARD,
                clipboard_enabled: false,
                screen_cast_enabled: false,
                sources: PersistedCaptureSources::default(),
            })),
            persist_mode: None,
        });
    let start = session.begin_remote_start(&live()).unwrap();
    assert_eq!(start.device_types, ALL_DEVICE_TYPES);
    assert!(!start.restored);
    assert!(matches!(
        session.after_prompt(start, None),
        RemoteStep::Cancelled
    ));
}

#[test]
fn consent_is_not_kept_longer_than_asked() {
    assert_eq!(offered_modes(PERSIST_NONE), vec![PERSIST_NONE]);
    assert_eq!(
        offered_modes(PERSIST_WHILE_RUNNING),
        vec![PERSIST_NONE, PERSIST_WHILE_RUNNING]
    );
    assert_eq!(
        list_modes(&offered_modes(PERSIST_UNTIL_REVOKED)).len(),
        3
    );
    assert!(persist_mode_label(9).is_none());
    assert!(device_type_icon_label(DEVICE_POINTER).is_some());
    assert!(device_type_icon_label(64).is_none());
    assert_eq!(list_devices(ALL_DEVICE_TYPES).len(), 3);
}

#[test]
fn remote_dialogs_answer_with_mode_and_sources() {
    let mut session = remote_session(PERSIST_UNTIL_REVOKED);
    session.select_sources(selection(Some(3)));
    let start = session.begin_remote_start(&live()).unwrap();
    assert!(start.screen_cast_enabled);
    let args = RemoteArgs::new(
        "/r".to_string(),
        None,
        None,
        start,
        vec![OutputChoice { id: 1, name: None }],
        vec![],
    );
    let mut tabs = TabModel::new();
    let mut dialog = RemoteDesktopDialog::new();
    dialog.update_args(&mut tabs, args);
    dialog.update_msg(&mut tabs, RemoteMsg::SelectOutput(1));
    dialog.update_msg(&mut tabs, RemoteMsg::SelectPersist(1));
    assert_eq!(remote_key(DialogKey::Enter), Some(RemoteMsg::Allow));
    match dialog.update_msg(&mut tabs, RemoteMsg::Allow) {
        RemoteEffect::Answer { handle, response } => {
            let response = response.unwrap();
            assert_eq!(handle, "/r");
            assert_eq!(response.persist_mode, PERSIST_WHILE_RUNNING);
            assert_eq!(response.capture_sources, sources(vec![1], vec![]));
        }
        other => panic!("{other:?}"),
    }
}

#[test]
fn a_paused_device_takes_no_input() {
    let caps = capabilities_for(DEVICE_POINTER);
    assert!(caps.has_capability(DeviceCapability::Pointer));
    assert!(!caps.has_capability(DeviceCapability::Keyboard));
    let mut state = State::new(caps);
    assert_eq!(state.handle_event(EiEvent::SeatAdded), EiEffect::Bind(caps));
    state.handle_event(EiEvent::DeviceAdded {
        id: 5,
        capabilities: caps,
    });
    assert_eq!(state.device_for(DeviceCapability::Pointer), None);
    let first = state.handle_event(EiEvent::DeviceResumed(5));
    assert_eq!(state.device_for(DeviceCapability::Pointer), Some(5));
    state.handle_event(EiEvent::DevicePaused(5));
    assert_eq!(state.device_for(DeviceCapability::Pointer), None);
    let second = state.handle_event(EiEvent::DeviceResumed(5));
    match (first, second) {
        (
            EiEffect::StartEmulating { sequence: a, .. },
            EiEffect::StartEmulating { sequence: b, .. },
        ) => assert_eq!(b, a + 1),
        other => panic!("{other:?}"),
    }
}

#[test]
fn commands_become_actions() {
    assert_eq!(
        handle_command(Command::PointerButton {
            button: 272,
            state: 1
        }),
        (
            DeviceCapability::Button,
            Action::Button {
                button: 272,
                pressed: true
            }
        )
    );
    assert_eq!(
        handle_command(Command::KeyboardKeycode {
            keycode: 30,
            state: 0
        }),
        (
            DeviceCapability::Keyboard,
            Action::Key {
                keycode: 30,
                pressed: false
            }
        )
    );
    assert_eq!(
        handle_command(Command::PointerAxisDiscrete { axis: 0, steps: 2 }).1,
        Action::ScrollDiscrete { x: 0, y: 240 }
    );
    assert_eq!(micros(2, 3_500), 2_000_003);
}

fn formats() -> Formats {
    Formats {
        buffer_size: (8, 4),
        dmabuf_device: None,
        dmabuf_formats: vec![(FOURCC_ABGR8888, vec![5, MODIFIER_INVALID])],
        shm_formats: vec![SHM_ARGB8888, FOURCC_ABGR8888],
    }
}

#[test]
fn formats_lead_to_codes_and_back() {
    for fourcc in [FOURCC_ABGR8888, FOURCC_ARGB8888] {
        let format = spa_format(fourcc).unwrap();
        assert_eq!(spa_format_to_gbm(format), fourcc);
        assert_eq!(shm_format_to_gbm(shm_format(fourcc).unwrap(), true), Some(fourcc));
    }
    assert_eq!(spa_format(1), None);
    assert_eq!(shm_format(FOURCC_ARGB8888), Some(SHM_ARGB8888));
    assert_eq!(shm_format(FOURCC_ABGR8888), Some(FOURCC_ABGR8888));
    assert_eq!(shm_format(0x7fff_ffff), None);
    assert_eq!(shm_format_to_gbm(SHM_ARGB8888, false), Some(FOURCC_ARGB8888));
    assert_eq!(shm_format_to_gbm(FOURCC_ABGR8888, false), None);
}

#[test]
fn formats_of_the_card_are_offered_first() {
    let params = format_params(true, None, &formats());
    assert_eq!(params[0].format, VideoFormat::Rgba);
    assert!(matches!(params[0].modifier, ModifierParam::Choice(_)));
    let plain = format_params(false, None, &formats());
    assert!(plain
        .iter()
        .all(|param| matches!(param.modifier, ModifierParam::Absent)));
    let fixed = format_params(true, Some((FOURCC_ABGR8888, 5)), &formats());
    assert!(matches!(fixed[0].modifier, ModifierParam::Fixed(5)));
}

#[test]
fn a_stream_settles_on_a_modifier() {
    let mut stream = StreamData::new(true, formats());
    let open = ParamEvent::Format {
        format: Some(VideoFormat::Rgba),
        modifier: ModifierChoice::Open(vec![5, 6]),
    };
    match stream.param_changed(open) {
        ParamAction::ChooseModifier {
            fourcc,
            modifiers,
            implicit,
        } => {
            assert_eq!(fourcc, FOURCC_ABGR8888);
            assert_eq!(modifiers, vec![5, 6]);
            assert!(!implicit);
        }
        other => panic!("{other:?}"),
    }
    stream.modifier_chosen(Some(6));
    let settled = ParamEvent::Format {
        format: Some(VideoFormat::Rgba),
        modifier: ModifierChoice::Settled,
    };
    assert!(matches!(
        stream.param_changed(settled),
        ParamAction::SetUpBuffers
    ));
    match stream.set_up_buffers(Some(2))[0] {
        OtherParam::Buffers(buffers) => {
            assert!(buffers.allow_dmabuf);
            assert_eq!(buffers.blocks, 2);
            assert_eq!(buffers.size, 128);
            assert_eq!(buffers.stride, 32);
        }
        other => panic!("{other:?}"),
    }
    assert!(matches!(
        stream.param_changed(ParamEvent::Other),
        ParamAction::Nothing
    ));
}

#[test]
fn buffers_are_made_where_they_are_taken() {
    let mut stream = StreamData::new(true, formats());
    match stream.add_buffer(4, 0) {
        BufferPlan::Shm { buffer, data } => {
            assert_eq!(buffer.pool_size, 128);
            assert_eq!(buffer.stride, 32);
            assert_eq!(buffer.format, FOURCC_ABGR8888);
            assert_eq!(data.kind, DataKind::MemFd);
            assert_eq!(data.chunk.size, 128);
        }
        other => panic!("{other:?}"),
    }
    stream.modifier_chosen(Some(5));
    assert_eq!(
        stream.add_buffer(4 | DATA_DMABUF_BIT, 9),
        BufferPlan::Dmabuf {
            device: 9,
            format: FOURCC_ABGR8888,
            modifier: 5,
            width: 8,
            height: 4
        }
    );
    let planes = vec![Plane {
        fd: 3,
        offset: 64,
        stride: 32,
    }];
    let datas = dmabuf_datas(&planes, 4);
    assert_eq!(datas[0].chunk.size, 128);
    assert_eq!(datas[0].chunk.offset, 64);
    assert_eq!(datas[0].kind, DataKind::DmaBuf);
}

fn damage(x: i32) -> DamageRect {
    DamageRect {
        x,
        y: 0,
        width: 1,
        height: 1,
    }
}

#[test]
fn damage_adds_up_for_the_other_buffers() {
    let mut stream = StreamData::new(false, formats());
    let frame = |x: i32| CaptureReply::Frame {
        damage: vec![damage(x)],
        transform: Transform::Rotated90,
    };
    let whole = stream.damage.damage_for(1, 8, 4);
    assert_eq!(whole.len(), 1);
    assert_eq!((whole[0].width, whole[0].height), (8, 4));
    assert_eq!(
        stream.process(1, frame(1)),
        ProcessStep::Tell { transform: 1 }
    );
    stream.process(2, frame(2));
    stream.process(2, frame(3));
    assert_eq!(stream.damage.damage_for(1, 8, 4), vec![damage(2), damage(3)]);
    assert_eq!(stream.damage.damage_for(2, 8, 4), vec![]);
    stream.damage.remove_buffer(1);
    assert_eq!(stream.damage.damage_for(1, 8, 4).len(), 1);
    assert_eq!(
        stream.process(2, CaptureReply::BufferConstraints),
        ProcessStep::UpdateFormats
    );
    assert_eq!(
        stream.process(2, CaptureReply::Failed),
        ProcessStep::Nothing
    );
}

#[test]
fn formats_are_offered_again_only_when_they_change() {
    let mut stream = StreamData::new(false, formats());
    assert!(stream.update_formats(formats()).is_none());
    let mut other = formats();
    other.buffer_size = (9, 4);
    assert!(stream.update_formats(other).is_some());
    assert_eq!(stream.formats.buffer_size, (9, 4));
    assert_eq!(stream.device(9), 9);
    let mut elsewhere = formats();
    elsewhere.buffer_size = (9, 4);
    elsewhere.dmabuf_device = Some(7);
    assert!(stream.update_formats(elsewhere).is_some());
    assert_eq!(stream.device(9), 7);
    assert!(!stream.state_changed(false));
    assert!(stream.state_changed(true));
    assert!(!stream.state_changed(true));
}

#[test]
fn pointers_are_told_with_their_picture() {
    assert_eq!(cursor_meta_size(64, 64), 28 + 20 + 64 * 64 * 4);
    let meta = cursor_meta(Some((24, 32)), (5, 6));
    assert_eq!(meta.position, (5, 6));
    assert_eq!(meta.bitmap_offset, 28);
    assert_eq!(meta.bitmap.unwrap().stride, 96);
    assert_eq!(cursor_meta(None, (0, 0)).bitmap_offset, 0);
    assert_eq!(other_params(8, 4, 1, false).len(), 3);
    assert_eq!(convert_transform(Transform::Flipped270), 7);
    assert!(BufferDamage::new().buffers.is_empty());
}
