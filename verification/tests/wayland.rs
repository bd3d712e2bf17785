//! Outputs, windows and memory.

use xdg_desktop_portal_cosmic::screenshot::capture::OutputInfo;
use xdg_desktop_portal_cosmic::screenshot::geometry::Transform;
use xdg_desktop_portal_cosmic::screenshot::picture::{fill, write_png};
use xdg_desktop_portal_cosmic::screencast::thread::{FOURCC_ABGR8888, MODIFIER_INVALID};
use xdg_desktop_portal_cosmic::wayland::cursor_stream::{CursorStep, CursorStream, Reply, State};
use xdg_desktop_portal_cosmic::wayland::dmabuf::{
    create_dmabuf, create_dmabuf_buffer, device_to_open, dmabuf_feedback, find_gbm_device,
    modifier_halves, plan_dmabuf, DeviceNode, DmabufFeedback, DmabufFormat, DmabufFrame, DmabufHelper,
    GbmDevice, GbmDevices, Plane,
};
use xdg_desktop_portal_cosmic::wayland::shm::{
    capture_output_shm_fd, create_shm_buffer, find_plain, memfd_size, swap_red_and_blue, BufferInfo,
    BufferType, ShmError, ShmImage,
};
use xdg_desktop_portal_cosmic::wayland::toplevel::{
    toplevels_changed, CaptureSource, Toplevel, ToplevelDetails, ToplevelEvent, WaylandHelper,
    Workspace, WorkspaceGroup,
};

/// Two pixels wide and three high; every pixel has its number in all four bytes.
fn numbered(transform: Transform) -> ShmImage {
    let mut data = Vec::new();
    for n in 1..=6u8 {
        data.extend([n, n, n, n]);
    }
    ShmImage {
        width: 2,
        height: 3,
        transform,
        data,
    }
}

fn numbers(transform: Transform) -> (u32, u32, Vec<u8>) {
    let picture = numbered(transform).image_transformed().unwrap();
    let firsts = picture.data.chunks(4).map(|pixel| pixel[0]).collect();
    (picture.width, picture.height, firsts)
}

#[test]
fn pictures_are_turned_as_the_output_is() {
    assert_eq!(numbers(Transform::Normal), (2, 3, vec![1, 2, 3, 4, 5, 6]));
    assert_eq!(numbers(Transform::Rotated90), (3, 2, vec![5, 3, 1, 6, 4, 2]));
    assert_eq!(numbers(Transform::Rotated180), (2, 3, vec![6, 5, 4, 3, 2, 1]));
    assert_eq!(numbers(Transform::Rotated270), (3, 2, vec![2, 4, 6, 1, 3, 5]));
    assert_eq!(numbers(Transform::Flipped), (2, 3, vec![2, 1, 4, 3, 6, 5]));
    assert_eq!(numbers(Transform::Flipped90), (3, 2, vec![1, 3, 5, 2, 4, 6]));
    assert_eq!(numbers(Transform::Flipped180), (2, 3, vec![5, 6, 3, 4, 1, 2]));
    assert_eq!(numbers(Transform::Flipped270), (3, 2, vec![6, 4, 2, 5, 3, 1]));
}

#[test]
fn turning_back_gives_the_same_picture() {
    let turned = numbered(Transform::Rotated90).image_transformed().unwrap();
    let back = ShmImage {
        width: turned.width,
        height: turned.height,
        transform: Transform::Rotated270,
        data: turned.data,
    };
    assert_eq!(back.image_transformed(), numbered(Transform::Normal).image());
}

#[test]
fn memory_that_is_too_small_is_no_picture() {
    let mut short = numbered(Transform::Normal);
    short.data.pop();
    assert_eq!(short.image(), Err(ShmError::IncorrectSize));
    assert_eq!(short.image_transformed(), Err(ShmError::IncorrectSize));
    assert_eq!(short.write_to_png(), None);
    let whole = ShmImage {
        width: 1,
        height: 1,
        transform: Transform::Normal,
        data: vec![1, 2, 3, 4],
    };
    assert_eq!(whole.write_to_png(), write_png(&fill(1, 1, 1, 2, 3, 4)));
}

#[test]
fn red_and_blue_change_places() {
    let mut bytes = vec![1, 2, 3, 4, 5, 6, 7, 8];
    swap_red_and_blue(&mut bytes);
    assert_eq!(bytes, vec![3, 2, 1, 4, 7, 6, 5, 8]);
    swap_red_and_blue(&mut bytes);
    assert_eq!(bytes, vec![1, 2, 3, 4, 5, 6, 7, 8]);
}

#[test]
fn shared_memory_is_laid_out_in_rows() {
    assert_eq!(memfd_size(10, 3), 120);
    let buffer = create_shm_buffer(10, 3, 40, FOURCC_ABGR8888);
    assert_eq!(buffer.pool_size, 120);
    let plain = BufferInfo {
        kind: BufferType::WlShm,
        format: FOURCC_ABGR8888,
        width: 10,
        height: 3,
        stride: 40,
    };
    let other = BufferInfo {
        kind: BufferType::Dmabuf,
        ..plain
    };
    assert_eq!(find_plain(&vec![other, plain]), Some(plain));
    assert_eq!(find_plain(&vec![other]), None);
    assert_eq!(capture_output_shm_fd(plain, Some(119)), None);
    assert_eq!(capture_output_shm_fd(plain, Some(120)).unwrap().resize, None);
    assert_eq!(
        capture_output_shm_fd(plain, None).unwrap().resize,
        Some(120)
    );
}

#[test]
fn the_cursor_is_captured_once_its_size_is_known() {
    let mut stream = CursorStream::new();
    assert_eq!(stream.prepare(None), None);
    assert!(matches!(stream.next_step(), CursorStep::Wait));
    assert_eq!(stream.prepare(Some((1, 1))), Some((1, 1)));
    assert!(matches!(stream.next_step(), CursorStep::Capture));
    assert_eq!(stream.prepare(Some((1, 1))), None);
    assert!(matches!(stream.next_step(), CursorStep::Poll));
    assert!(matches!(
        stream.on_reply(Reply::Pending),
        Some(CursorStep::Wait)
    ));
    assert!(matches!(
        stream.on_reply(Reply::Gone),
        Some(CursorStep::Capture)
    ));
    assert!(stream.on_reply(Reply::Done).is_none());
    let frame = stream.read_frame(Some((2, 3)), vec![1, 2, 3, 4]).unwrap();
    assert_eq!(frame.hotspot, (2, 3));
    assert_eq!(frame.image.data, vec![3, 2, 1, 4]);
    assert!(stream.read_frame(None, vec![1, 2, 3, 4]).is_none());
    assert!(stream.read_frame(Some((0, 0)), vec![]).is_none());
    // A cursor of another size needs another buffer.
    assert_eq!(stream.prepare(Some((2, 1))), Some((2, 1)));
    assert_eq!(stream.state, State::WaitingForFormats);
}

fn feedback(main_device: u64) -> DmabufFeedback {
    DmabufFeedback {
        main_device,
        tranches: vec![vec![1, 0], vec![9, 2]],
        format_table: vec![
            DmabufFormat {
                format: 1,
                modifier: 10,
            },
            DmabufFormat {
                format: 2,
                modifier: 20,
            },
            DmabufFormat {
                format: 1,
                modifier: 30,
            },
        ],
    }
}

#[test]
fn modifiers_come_from_all_tranches() {
    let helper = DmabufHelper {
        feedback: feedback(5),
        gbm: 1,
    };
    assert_eq!(helper.feedback_formats().len(), 3);
    assert_eq!(helper.modifiers_for_format(1), vec![10, 30]);
    assert_eq!(helper.modifiers_for_format(3), vec![]);
}

#[test]
fn the_device_stays_open_while_it_is_the_main_one() {
    let mut helper = None;
    assert_eq!(device_to_open(&helper, &feedback(5)), Some(5));
    dmabuf_feedback(&mut helper, feedback(5), Some(77));
    assert_eq!(helper.as_ref().unwrap().gbm, 77);
    assert_eq!(device_to_open(&helper, &feedback(5)), None);
    dmabuf_feedback(&mut helper, feedback(5), None);
    assert_eq!(helper.as_ref().unwrap().gbm, 77);
    assert_eq!(device_to_open(&helper, &feedback(6)), Some(6));
    dmabuf_feedback(&mut helper, feedback(6), None);
    assert!(helper.is_none());
}

#[test]
fn devices_are_found_by_number_and_kept() {
    let nodes = vec![
        DeviceNode {
            path: "/dev/dri/card0".to_string(),
            rdev: 1,
        },
        DeviceNode {
            path: "/dev/dri/renderD128".to_string(),
            rdev: 2,
        },
    ];
    assert_eq!(
        find_gbm_device(&nodes, 2).map(|node| node.path.as_str()),
        Some("/dev/dri/renderD128")
    );
    assert!(find_gbm_device(&nodes, 3).is_none());
    let mut devices = GbmDevices::default();
    assert!(devices.open_device(2).is_none());
    devices.gbm_device(
        2,
        Some(GbmDevice {
            path: "/dev/dri/renderD128".to_string(),
            gbm: 8,
        }),
    );
    devices.gbm_device(3, None);
    assert_eq!(devices.open_device(2).map(|device| device.gbm), Some(8));
    assert!(devices.open_device(3).is_none());
}

#[test]
fn modifiers_are_told_in_halves() {
    assert_eq!(modifier_halves(0x1234_5678_9abc_def0), (0x1234_5678, 0x9abc_def0));
    let planes = vec![
        Plane {
            fd: 3,
            offset: 0,
            stride: 64,
        },
        Plane {
            fd: 4,
            offset: 128,
            stride: 32,
        },
    ];
    let params = create_dmabuf_buffer(&create_dmabuf(0x5_0000_0006, 8, 8, planes));
    assert_eq!((params[1].index, params[1].offset), (1, 128));
    assert_eq!((params[1].modifier_hi, params[1].modifier_lo), (5, 6));
    assert_eq!(plan_dmabuf(7, 8, 8).modifier, Some(7));
    assert_eq!(plan_dmabuf(MODIFIER_INVALID, 8, 8).modifier, None);
}

#[test]
fn frames_of_devices_become_png_files() {
    let frame = DmabufFrame {
        width: 1,
        height: 1,
        ..DmabufFrame::default()
    };
    assert_eq!(
        frame.write_to_png(vec![9, 8, 7, 6]),
        write_png(&fill(1, 1, 9, 8, 7, 6))
    );
    assert_eq!(frame.write_to_png(vec![9, 8, 7]), None);
}

fn window(handle: u64, workspaces: Vec<u64>, outputs: Vec<u64>) -> Toplevel {
    Toplevel {
        handle,
        info: Some(ToplevelDetails {
            workspaces,
            outputs,
        }),
    }
}

#[test]
fn windows_are_listed_where_they_are_shown() {
    let groups = vec![WorkspaceGroup {
        workspaces: vec![
            Workspace {
                handle: 1,
                active: true,
            },
            Workspace {
                handle: 2,
                active: false,
            },
        ],
    }];
    let toplevels = vec![
        window(10, vec![1], vec![100, 200]),
        window(11, vec![2], vec![100]),
        Toplevel {
            handle: 12,
            info: None,
        },
        window(13, vec![2, 1], vec![100]),
    ];
    let mut helper = WaylandHelper::new();
    helper.update_output_toplevels(&toplevels, &groups);
    assert_eq!(
        helper.capture_output_toplevels(100),
        vec![CaptureSource::Toplevel(10), CaptureSource::Toplevel(13)]
    );
    assert_eq!(
        helper.capture_output_toplevels(200),
        vec![CaptureSource::Toplevel(10)]
    );
    assert_eq!(helper.capture_output_toplevels(300), vec![]);
    assert_eq!(helper.toplevels, vec![10, 11, 13]);
}

#[test]
fn outputs_are_remembered_until_they_go() {
    let mut helper = WaylandHelper::new();
    let info = OutputInfo {
        id: 1,
        name: Some("DP-1".to_string()),
        logical_position: None,
        logical_size: None,
    };
    helper.new_output(1, Some(info));
    helper.new_output(2, None);
    assert_eq!(helper.outputs, vec![1, 2]);
    assert!(helper.output_info(1).is_some());
    assert!(helper.output_info(2).is_none());
    helper.output_destroyed(1);
    assert_eq!(helper.outputs, vec![2]);
    assert!(helper.output_info(1).is_none());
    assert!(toplevels_changed(ToplevelEvent::New));
    assert!(toplevels_changed(ToplevelEvent::Closed));
    assert!(!toplevels_changed(ToplevelEvent::Updated));
}
