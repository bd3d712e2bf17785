//! Screenshots.

use xdg_desktop_portal_cosmic::app::{OutputEvent, OutputState, Outputs};
use xdg_desktop_portal_cosmic::config::screenshot::{
    Choice as ConfigChoice, ImageSaveLocation, Screenshot,
};
use xdg_desktop_portal_cosmic::dict::Dict;
use xdg_desktop_portal_cosmic::portal::PortalResponse;
use xdg_desktop_portal_cosmic::rounding::{to_single, Float, DOUBLE, SINGLE};
use xdg_desktop_portal_cosmic::screenshot::capture::{
    capture_order, fallback_toplevel_images, toplevel_captures, usable_outputs, Output, OutputInfo,
    PointerSnapshot, ToplevelInfo,
};
use xdg_desktop_portal_cosmic::screenshot::compose::{
    can_be_combined, combined_image, lay_frames, rect_of_output, union_bounds, Frame,
};
use xdg_desktop_portal_cosmic::screenshot::gather::{Cursor, OutputGather, ToplevelGather};
use xdg_desktop_portal_cosmic::screenshot::geometry::{
    logical_pointer_position, toplevel_geometry, transformed_output_size, Mode, Point, Rect,
    Transform, WindowGeometry, PRECISE_SIDE,
};
use xdg_desktop_portal_cosmic::screenshot::picture::{
    crop_output_image, fill, placeholder, write_png, Picture, LONGEST_SIDE,
};
use xdg_desktop_portal_cosmic::screenshot::request::{
    capture_response, direct_response, image_dir, on_key, plan_screenshot, Action, Choice, ImageDir,
    Key, KeyAction, KnownDirs, ScreenshotOptions, ScreenshotPlan,
};
use xdg_desktop_portal_cosmic::screenshot::session::{
    Args, Msg, ScreenshotEffect, ScreenshotPortal, ToplevelImageUpdate,
};
use xdg_desktop_portal_cosmic::widget::rectangle_selection::DragState;

fn value(float: Float) -> f64 {
    float.mantissa as f64 * 2f64.powi(float.exponent)
}

fn place(point: Point) -> (f64, f64) {
    (value(point.x), value(point.y))
}

/// Numbers of all sizes, the same each time.
fn numbers(count: usize) -> Vec<u32> {
    let mut state: u64 = 0x2545_f491_4f6c_dd1d;
    let mut numbers = Vec::new();
    for i in 0..count {
        state ^= state << 13;
        state ^= state >> 7;
        state ^= state << 17;
        numbers.push(((state >> 32) as u32) >> (i % 31));
    }
    numbers
}

fn rect(left: i32, top: i32, right: i32, bottom: i32) -> Rect {
    Rect {
        left,
        top,
        right,
        bottom,
    }
}

fn info(id: u64, name: &str, x: i32) -> OutputInfo {
    OutputInfo {
        id,
        name: Some(name.to_string()),
        logical_position: Some((x, 0)),
        logical_size: Some((4, 2)),
    }
}

fn two_outputs() -> Vec<Output> {
    usable_outputs(&vec![Some(info(1, "A", 0)), Some(info(2, "B", 4))])
}

fn options(interactive: bool) -> ScreenshotOptions {
    ScreenshotOptions {
        modal: None,
        interactive: Some(interactive),
        choose_destination: None,
    }
}

fn pixel(p: &Picture, x: u32, y: u32) -> [u8; 4] {
    let at = 4 * (y * p.width + x) as usize;
    [p.data[at], p.data[at + 1], p.data[at + 2], p.data[at + 3]]
}

fn read_png(bytes: &[u8]) -> Picture {
    let decoder = png::Decoder::new(std::io::Cursor::new(bytes));
    let mut reader = decoder.read_info().unwrap();
    let mut data = vec![0; reader.output_buffer_size().unwrap()];
    let info = reader.next_frame(&mut data).unwrap();
    Picture {
        width: info.width,
        height: info.height,
        data,
    }
}

#[test]
fn cursor_buffer_position_is_converted_to_logical_coordinates() {
    let point = logical_pointer_position((1500, 500), (3000, 2000), (1500, 1000));
    assert_eq!(point.map(place), Some((750.0, 250.0)));
}

#[test]
fn cursor_hotspot_outside_output_is_ignored() {
    assert_eq!(
        logical_pointer_position((-1, 500), (3000, 2000), (1500, 1000)),
        None
    );
    assert_eq!(
        logical_pointer_position((3000, 500), (3000, 2000), (1500, 1000)),
        None
    );
}

#[test]
fn fallback_window_preview_uses_logical_output_scaling() {
    let output = fill(200, 100, 0, 0, 0, 0);
    let preview = crop_output_image(
        &output,
        Rect {
            left: 25,
            top: 25,
            right: 75,
            bottom: 75,
        },
        (100, 100),
    )
    .unwrap();

    assert_eq!((preview.width, preview.height), (100, 50));
}

#[test]
fn placeholder_preserves_window_aspect_ratio() {
    let placeholder = placeholder(1600, 200);

    assert_eq!((placeholder.width, placeholder.height), (640, 80));
}

#[test]
fn whole_numbers_round_as_in_single_precision() {
    for n in numbers(2000) {
        let single = n as f32 as f64;
        assert_eq!(value(Float::from_whole(n as u64, SINGLE)), single);
        assert_eq!(to_single(n as i64) as f64, single);
        assert_eq!(to_single(-(n as i64)) as f64, -single);
        let double = (n as u64 * 0x7654_3211) as f64;
        assert_eq!(value(Float::from_whole(n as u64 * 0x7654_3211, DOUBLE)), double);
    }
}

#[test]
fn products_and_quotients_round() {
    for pair in numbers(2000).windows(2) {
        let (a, b) = (pair[0].max(1), pair[1].max(1));
        let (x, y) = (Float::from_whole(a as u64, SINGLE), Float::from_whole(b as u64, SINGLE));
        let (f, g) = (a as f32, b as f32);
        assert_eq!(value(x.multiply(&y, SINGLE)), (f * g) as f64);
        assert_eq!(value(x.divide(&y, SINGLE)), (f / g) as f64);
        assert_eq!(x.divide(&y, SINGLE).floor_u32(), (f / g).floor() as u32);
        assert_eq!(x.divide(&y, SINGLE).ceiling_u32(), (f / g).ceil() as u32);
        assert_eq!(x.divide(&y, SINGLE).half_up_u32(), (f / g).round() as u32);
        assert_eq!(x.divide(&y, SINGLE).is_at_least(3), f / g >= 3.0);
        let (x, y) = (Float::from_whole(a as u64, DOUBLE), Float::from_whole(b as u64, DOUBLE));
        let (f, g) = (a as f64, b as f64);
        assert_eq!(value(x.multiply(&y, DOUBLE)), f * g);
        assert_eq!(value(x.divide(&y, DOUBLE)), f / g);
    }
}

fn placeholder_sides(width: u32, height: u32) -> (u32, u32) {
    let width = width.max(1);
    let height = height.max(1);
    let scale = (640.0 / width.max(height) as f32).min(1.0);
    (
        (width as f32 * scale).round().max(1.0) as u32,
        (height as f32 * scale).round().max(1.0) as u32,
    )
}

#[test]
fn sides_of_placeholders_round_in_single_precision() {
    let placed = placeholder(6912, 5481);
    assert_eq!((placed.width, placed.height), (640, 507));
    let none = placeholder(0, 0);
    assert_eq!((none.width, none.height), (1, 1));
    for pair in numbers(200).windows(2) {
        let placed = placeholder(pair[0], pair[1]);
        assert_eq!((placed.width, placed.height), placeholder_sides(pair[0], pair[1]));
    }
}

#[test]
fn crops_round_in_double_precision() {
    // The edge comes out just before the pixel.
    assert!(49.0 * (1.0f64 / 49.0) < 1.0);
    let dot = fill(1, 1, 1, 1, 1, 255);
    let part = crop_output_image(&dot, rect(0, 0, 49, 49), (49, 49)).unwrap();
    assert_eq!((part.width, part.height), (1, 1));
    let bounds = rect(0, 0, 49, 49);
    let frames = vec![Frame {
        picture: dot,
        rect: bounds,
    }];
    assert!(can_be_combined(bounds, &frames));
    let whole = combined_image(bounds, &frames);
    assert_eq!((whole.width, whole.height), (0, 0));
    for trio in numbers(600).windows(3) {
        let side = trio[0] % 64 + 1;
        let span = (trio[1] % 4000 + 2) as i32;
        let left = (trio[2] % (span as u32 - 1)) as i32;
        let right = left + 1 + (trio[0] % (span - left) as u32) as i32;
        let scale = side as f64 / span as f64;
        let from = (left as f64 * scale).floor().max(0.0) as u32;
        let to = (right as f64 * scale).ceil().clamp(0.0, side as f64) as u32;
        let part = crop_output_image(&fill(side, 1, 0, 0, 0, 0), rect(left, 0, right, 1), (span, 1));
        assert_eq!(part.map(|part| part.width), Some(to - from).filter(|width| *width > 0));
    }
}

#[test]
fn positions_round_in_single_precision() {
    for trio in numbers(2000).windows(3) {
        let buffer = (trio[0] & 0x7fff_ffff).max(1);
        let logical = (trio[1] & 0x7fff_ffff).max(1) as i32;
        let x = (trio[2] % buffer) as i32;
        let point = logical_pointer_position((x, 0), (buffer, 1), (logical, 1)).unwrap();
        let f = x as f32 * (logical as u32) as f32 / buffer as f32;
        assert_eq!(place(point), (f as f64, 0.0));
        let right = trio[1] as i32;
        let left = right.saturating_sub(trio[2] as i32 & 0xffff);
        let inside = f >= left as f32 && f < right as f32;
        assert_eq!(rect(left, 0, right, 1).contains(point), inside);
    }
}

#[test]
fn positions_lie_on_their_output() {
    let lies_on = |buffer: u32, logical: i32| {
        let last = (buffer - 1) as i32;
        let point = logical_pointer_position((last, 0), (buffer, 1), (logical, 1)).unwrap();
        rect(0, 0, logical, 1).contains(point)
    };
    for n in numbers(200) {
        assert!(lies_on(n % PRECISE_SIDE + 1, (n & 0x7fff_ffff).max(1) as i32));
    }
    assert!(lies_on(PRECISE_SIDE, 524_335));
    // The last pixel of a wider buffer comes out at the edge.
    assert!(!lies_on(9_438_250, 16_777_257));
}

#[test]
fn cropping_takes_the_pixels_of_the_window() {
    let mut output = fill(4, 2, 1, 1, 1, 255);
    // The pixel in the second row and the third column.
    output.data[4 * 6] = 9;
    let preview = crop_output_image(&output, rect(2, 1, 4, 2), (4, 2)).unwrap();
    assert_eq!((preview.width, preview.height), (2, 1));
    assert_eq!(pixel(&preview, 0, 0), [9, 1, 1, 255]);
    assert_eq!(pixel(&preview, 1, 0), [1, 1, 1, 255]);
    assert_eq!(crop_output_image(&output, rect(5, 5, 6, 6), (4, 2)), None);
}

#[test]
fn pictures_become_png_files() {
    let red = write_png(&fill(2, 1, 255, 0, 0, 255)).unwrap();
    let blue = write_png(&fill(2, 1, 0, 0, 255, 255)).unwrap();
    assert_eq!(&red[..8], &[0x89, b'P', b'N', b'G', 13, 10, 26, 10]);
    assert_ne!(red, blue);
    assert_eq!(write_png(&fill(0, 1, 0, 0, 0, 0)), None);
    assert_eq!(read_png(&red), fill(2, 1, 255, 0, 0, 255));
}

#[test]
fn pictures_of_outputs_are_laid_side_by_side() {
    let frames = vec![
        Frame {
            picture: fill(2, 1, 10, 0, 0, 255),
            rect: rect(0, 0, 2, 1),
        },
        Frame {
            picture: fill(4, 2, 0, 20, 0, 255),
            rect: rect(2, 0, 4, 1),
        },
    ];
    let bounds = rect(0, 0, 4, 1);
    assert!(can_be_combined(bounds, &frames));
    let whole = combined_image(bounds, &frames);
    let scale = whole.width / 4;
    assert_eq!(whole.height, scale);
    assert_eq!(pixel(&whole, 0, 0), [10, 0, 0, 255]);
    assert_eq!(pixel(&whole, whole.width - 1, 0), [0, 20, 0, 255]);
}

#[test]
fn pictures_that_fit_are_laid_as_they_are() {
    let mut striped = fill(2, 1, 1, 2, 3, 255);
    striped.data[4] = 9;
    let frames = vec![
        Frame {
            picture: striped,
            rect: rect(5, 5, 7, 6),
        },
        Frame {
            picture: fill(1, 1, 0, 0, 7, 255),
            rect: rect(7, 5, 8, 6),
        },
    ];
    let bounds = rect(5, 5, 9, 6);
    let laid = lay_frames(bounds, &frames);
    assert_eq!(laid.data, [1, 2, 3, 255, 9, 2, 3, 255, 0, 0, 7, 255, 0, 0, 0, 0]);
    assert_eq!(combined_image(bounds, &frames), laid);
}

#[test]
fn sides_that_are_too_long_are_not_brought_to_another_size() {
    let frames = |width: u32| {
        vec![
            Frame {
                picture: fill(width, 1, 0, 0, 0, 255),
                rect: rect(0, 0, 2, 1),
            },
            Frame {
                picture: fill(1, 1, 0, 0, 0, 255),
                rect: rect(2, 0, 3, 1),
            },
        ]
    };
    let bounds = rect(0, 0, 3, 1);
    assert!(can_be_combined(bounds, &frames(8)));
    assert!(can_be_combined(bounds, &frames(LONGEST_SIDE)));
    assert!(!can_be_combined(bounds, &frames(LONGEST_SIDE + 1)));
    let mut fitting = frames(LONGEST_SIDE + 1);
    fitting[0].rect = rect(0, 0, LONGEST_SIDE as i32 + 1, 1);
    assert!(can_be_combined(bounds, &fitting));
}

#[test]
fn bounds_hold_all_rectangles() {
    let a = rect_of_output((0, 0), (10, 5));
    let b = rect_of_output((-3, 4), (2, 9));
    assert_eq!(a, rect(0, 0, 10, 5));
    assert_eq!(b, rect(-3, 4, -1, 13));
    assert_eq!(union_bounds(&vec![a, b]), rect(-3, 0, 10, 13));
}

#[test]
fn rectangles_have_a_common_part() {
    let a = rect(0, 0, 10, 10);
    let b = rect(5, -5, 15, 5);
    assert_eq!(a.intersect(b), Some(rect(5, 0, 10, 5)));
    assert_eq!(b.intersect(a), a.intersect(b));
    assert_eq!(a.intersect(rect(10, 0, 12, 5)), None);
    assert_eq!(rect(4, 4, 1, 2).dimensions().map(|d| (d.width, d.height)), Some((3, 2)));
    assert_eq!(rect(4, 4, 4, 2).dimensions(), None);
    assert_eq!(rect(4, 4, 4, 2).dimensions_or_default(), (1, 2));
}

#[test]
fn windows_are_upright() {
    let turned = WindowGeometry {
        x: 10,
        y: 20,
        width: -4,
        height: 5,
    };
    assert_eq!(toplevel_geometry(Some(turned)), Some(rect(6, 20, 10, 25)));
    assert_eq!(toplevel_geometry(None), None);
}

#[test]
fn turned_outputs_change_width_and_height() {
    let modes = vec![
        Mode {
            width: 800,
            height: 600,
            current: false,
        },
        Mode {
            width: 1920,
            height: 1080,
            current: true,
        },
    ];
    assert_eq!(
        transformed_output_size(&modes, Transform::Normal),
        Some((1920, 1080))
    );
    assert_eq!(
        transformed_output_size(&modes, Transform::Flipped270),
        Some((1080, 1920))
    );
    assert_eq!(transformed_output_size(&vec![], Transform::Normal), None);
}

#[test]
fn outputs_need_a_name_a_place_and_a_size() {
    let mut nameless = info(3, "C", 0);
    nameless.name = None;
    let usable = usable_outputs(&vec![Some(info(1, "A", 0)), None, Some(nameless)]);
    assert_eq!(usable.len(), 1);
    assert_eq!(usable[0].name, "A");
}

#[test]
fn the_window_under_the_pointer_is_captured_first() {
    let outputs = two_outputs();
    let window = |x: i32, activated: bool| ToplevelInfo {
        geometry: Some(WindowGeometry {
            x,
            y: 0,
            width: 1,
            height: 2,
        }),
        activated,
    };
    let captures = toplevel_captures(
        &outputs,
        &vec![vec![window(0, false), window(1, true), window(2, false)], vec![]],
    );
    assert_eq!(captures.len(), 3);
    let nowhere = capture_order(&captures, &None);
    assert_eq!(nowhere, vec![1, 0, 2]);
    let pointer = PointerSnapshot {
        output: "A".to_string(),
        position: logical_pointer_position((2, 1), (4, 2), (4, 2)).unwrap(),
    };
    assert_eq!(capture_order(&captures, &Some(pointer)), vec![2, 1, 0]);
}

#[test]
fn windows_that_were_not_captured_are_cut_out() {
    let outputs = two_outputs();
    let window = ToplevelInfo {
        geometry: Some(WindowGeometry {
            x: 1,
            y: 0,
            width: 2,
            height: 2,
        }),
        activated: false,
    };
    let captures = toplevel_captures(&outputs, &vec![vec![window], vec![]]);
    let mut pictures = Dict::new();
    pictures.insert("A", fill(4, 2, 7, 7, 7, 255));
    let images = fallback_toplevel_images(&captures, &pictures);
    let windows = images.get("A").unwrap();
    assert_eq!((windows[0].image.width, windows[0].image.height), (2, 2));
    assert_eq!(pixel(&windows[0].image, 0, 0), [7, 7, 7, 255]);
}

#[test]
fn every_output_gets_a_picture() {
    let outputs = two_outputs();
    let mut gather = OutputGather::new();
    let cursor = Cursor {
        entered: true,
        position: (2, 0),
    };
    gather.on_frame(&outputs, 1, fill(4, 2, 5, 5, 5, 255), Some(cursor));
    let (images, pointer) = gather.finish(&outputs, &vec![None, None], &vec![None, None]);
    assert_eq!(pixel(images.get("A").unwrap(), 0, 0), [5, 5, 5, 255]);
    assert_eq!(pixel(images.get("B").unwrap(), 0, 0), [38, 38, 38, 255]);
    assert_eq!(pointer.map(|p| p.output), Some("A".to_string()));
}

#[test]
fn frames_of_windows_stay_in_order() {
    let mut gather = ToplevelGather::new();
    gather.on_frame("A", 3, fill(1, 1, 0, 0, 0, 0));
    gather.on_frame("A", 1, fill(1, 1, 0, 0, 0, 0));
    let order: Vec<usize> = gather.images.get("A").unwrap().iter().map(|f| f.0).collect();
    assert_eq!(order, vec![1, 3]);
}

#[test]
fn requests_are_planned() {
    let config = Screenshot {
        save_location: ImageSaveLocation::Documents,
        choice: ConfigChoice::Output(Some("B".to_string())),
        last_rectangle: None,
    };
    assert!(matches!(
        plan_screenshot(&config, options(true), &vec![]),
        ScreenshotPlan::Refuse
    ));
    assert!(matches!(
        plan_screenshot(&config, options(false), &two_outputs()),
        ScreenshotPlan::Direct
    ));
    match plan_screenshot(&config, options(true), &two_outputs()) {
        ScreenshotPlan::Interactive {
            choice,
            action,
            location,
        } => {
            assert_eq!(choice, Choice::Output("B".to_string()));
            assert_eq!(action, Action::ReturnPath);
            assert_eq!(location, ImageSaveLocation::Documents);
        }
        other => panic!("{other:?}"),
    }
}

#[test]
fn screenshots_are_answered_with_their_place() {
    match direct_response(Some("/tmp/a.png")) {
        PortalResponse::Success(result) => assert_eq!(result.uri, "file:////tmp/a.png"),
        other => panic!("{other:?}"),
    }
    assert_eq!(direct_response(None), PortalResponse::Other);
    match capture_response(true, None) {
        PortalResponse::Success(result) => assert_eq!(result.uri, "clipboard:///"),
        other => panic!("{other:?}"),
    }
    assert_eq!(capture_response(false, Some("/x")), PortalResponse::Other);
}

#[test]
fn directories_are_chosen_by_what_is_known() {
    let home = KnownDirs {
        environment: false,
        pictures: false,
        documents: false,
        home: true,
    };
    assert_eq!(
        image_dir(ImageSaveLocation::Pictures, home),
        Some(ImageDir::HomePicturesScreenshots)
    );
    let set = KnownDirs {
        environment: true,
        ..home
    };
    assert_eq!(
        image_dir(ImageSaveLocation::Pictures, set),
        Some(ImageDir::Environment)
    );
    assert_eq!(
        image_dir(ImageSaveLocation::Documents, set),
        Some(ImageDir::HomeDocuments)
    );
    assert_eq!(image_dir(ImageSaveLocation::Clipboard, set), None);
}

#[test]
fn keys_capture_and_cancel() {
    let c = Key::Character("C".to_string());
    assert_eq!(
        on_key(&c, true),
        Some(KeyAction::CaptureWithLocation(ImageSaveLocation::Clipboard))
    );
    assert_eq!(on_key(&c, false), None);
    assert_eq!(on_key(&Key::Enter, false), Some(KeyAction::Capture));
    assert_eq!(on_key(&Key::Escape, true), Some(KeyAction::Cancel));
}

fn portal_with(choice: Choice) -> ScreenshotPortal {
    let mut outputs = Outputs::new();
    outputs.update_output(1, OutputEvent::Created(Some(info(1, "A", 0))), 11);
    outputs.update_output(2, OutputEvent::Created(Some(info(2, "B", 4))), 12);
    let mut images = Dict::new();
    images.insert("A", fill(4, 2, 1, 2, 3, 255));
    images.insert("B", fill(4, 2, 4, 5, 6, 255));
    let mut portal = ScreenshotPortal {
        outputs,
        args: None,
        location_options: Vec::new(),
        config: Screenshot::default(),
        active_output: None,
    };
    let args = Args {
        handle: "/request/1".to_string(),
        app_id: String::new(),
        parent_window: String::new(),
        options: options(true),
        output_images: images,
        toplevel_images: Dict::new(),
        initial_pointer: None,
        choice,
        location: ImageSaveLocation::Pictures,
        action: Action::ReturnPath,
    };
    let opened = portal.update_args(args, &vec!["B".to_string()]);
    assert!(matches!(opened, ScreenshotEffect::Open(_)));
    portal
}

#[test]
fn a_captured_output_is_answered_once() {
    let mut portal = portal_with(Choice::Output("B".to_string()));
    assert!(portal.can_capture());
    match portal.update_msg(Msg::Capture) {
        ScreenshotEffect::Captured(capture) => {
            assert_eq!(capture.windows, vec![11, 12]);
            assert_eq!(capture.handle, "/request/1");
            assert_eq!(capture.png, write_png(&fill(4, 2, 4, 5, 6, 255)));
        }
        other => panic!("{other:?}"),
    }
    assert!(portal.args.is_none());
    assert!(matches!(
        portal.update_msg(Msg::Cancel),
        ScreenshotEffect::Close(_)
    ));
}

#[test]
fn a_captured_rectangle_reaches_over_outputs() {
    let mut portal = portal_with(Choice::Rectangle(rect(3, 0, 5, 2), DragState::Idle));
    match portal.update_msg(Msg::Capture) {
        ScreenshotEffect::Captured(capture) => {
            let png = capture.png.unwrap();
            let back = read_png(&png);
            assert_eq!((back.width, back.height), (2, 2));
            assert_eq!(pixel(&back, 0, 0), [1, 2, 3, 255]);
            assert_eq!(pixel(&back, 1, 1), [4, 5, 6, 255]);
        }
        other => panic!("{other:?}"),
    }
}

#[test]
fn a_dragged_rectangle_is_not_kept_yet() {
    let mut portal = portal_with(Choice::Output("A".to_string()));
    let dragged = Choice::Rectangle(rect(0, 0, 1, 1), DragState::SE);
    assert!(matches!(
        portal.update_msg(Msg::Choice(dragged)),
        ScreenshotEffect::Nothing
    ));
    let dropped = Choice::Rectangle(rect(0, 0, 1, 1), DragState::Idle);
    match portal.update_msg(Msg::Choice(dropped)) {
        ScreenshotEffect::SaveConfig(config) => {
            assert_eq!(config.choice, ConfigChoice::Rectangle);
            assert_eq!(config.last_rectangle, Some(rect(0, 0, 1, 1)));
        }
        other => panic!("{other:?}"),
    }
}

#[test]
fn a_cancelled_request_is_answered() {
    let mut portal = portal_with(Choice::Output("A".to_string()));
    match portal.update_msg(Msg::Cancel) {
        ScreenshotEffect::Cancelled { windows, handle } => {
            assert_eq!(windows, vec![11, 12]);
            assert_eq!(handle, "/request/1");
        }
        other => panic!("{other:?}"),
    }
}

#[test]
fn later_pictures_of_another_request_are_dropped() {
    let mut portal = portal_with(Choice::Output("A".to_string()));
    portal.update_toplevel_images(ToplevelImageUpdate {
        handle: "/request/2".to_string(),
        images: Dict::new(),
    });
    assert_eq!(portal.args.as_ref().unwrap().handle, "/request/1");
}

#[test]
fn outputs_come_and_go() {
    let mut outputs = Outputs::new();
    outputs.update_output(1, OutputEvent::Created(Some(info(1, "A", 0))), 11);
    outputs.update_output(2, OutputEvent::Created(None), 12);
    let mut moved = info(1, "A", 7);
    moved.logical_size = Some((9, 9));
    outputs.update_output(1, OutputEvent::InfoUpdate(moved), 0);
    let first: &OutputState = &outputs.states[0];
    assert_eq!(first.logical_pos, (7, 0));
    assert_eq!(first.logical_size, (9, 9));
    assert_eq!(first.id, 11);
    outputs.update_output(1, OutputEvent::Removed, 0);
    assert!(outputs.states.iter().all(|state| state.output != 1));
}
