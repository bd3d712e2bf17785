//! The screenshot that the user is about to take.

use crate::app::{
    edges_fit, find_output, has_fitting_edges, output_position, rect_of_state, state_rect, BgSource,
    OutputState, Outputs,
};
use crate::config::screenshot::{Choice as ConfigChoice, ImageSaveLocation, Screenshot};
use crate::dict::{has_name, lists, Dict};
use crate::label::{label_views, plain_attribute, Label};
use crate::screenshot::capture::{
    picture_views, pictures_wf, placeholder_picture, toplevel_maps, toplevel_views, toplevels_wf,
    PointerSnapshot, ToplevelImage, ToplevelView,
};
use crate::screenshot::compose::{can_be_combined, can_combine, combined_image, is_combined, Frame};
use crate::screenshot::gather::{numbered_maps, numbered_views, numbered_wf};
use crate::screenshot::geometry::{Rect, Point};
use crate::screenshot::picture::{placeholder, png_file, write_png, Picture, PictureView};
use crate::screenshot::request::{Action, Choice, ScreenshotOptions};
use crate::seqs::{position, position_of_str};
use crate::text::{str_eq, views};
use crate::widget::rectangle_selection::DragState;
use vstd::prelude::*;

verus! {

/// A request that waits for the user.
#[derive(Debug)]
pub struct Args {
    /// The handle under which the request is answered.
    pub handle: String,
    pub app_id: String,
    pub parent_window: String,
    pub options: ScreenshotOptions,
    pub output_images: Dict<Picture>,
    pub toplevel_images: Dict<Vec<ToplevelImage>>,
    pub initial_pointer: Option<PointerSnapshot>,
    pub choice: Choice,
    pub location: ImageSaveLocation,
    pub action: Action,
}

impl Args {
    /// All pictures hold exactly their pixels.
    pub open spec fn wf(self) -> bool {
        pictures_wf(self.output_images@) && toplevels_wf(self.toplevel_images@)
    }
}

/// Later pictures of the windows of a request.
#[derive(Debug)]
pub struct ToplevelImageUpdate {
    pub handle: String,
    pub images: Dict<Vec<(usize, Picture)>>,
}

/// What the user does.
#[derive(Debug)]
pub enum Msg {
    Capture,
    CaptureWithLocation(ImageSaveLocation),
    Cancel,
    Choice(Choice),
    OutputChanged(u64),
    WindowChosen(String, usize),
    Location(usize),
}

/// A picture that was captured. It goes to the place that is asked for, and to the clipboard where
/// that has succeeded.
#[derive(Debug)]
pub struct Capture {
    /// The windows to be closed.
    pub windows: Vec<u64>,
    /// The request to be answered.
    pub handle: String,
    pub location: ImageSaveLocation,
    /// The picture as a PNG file; none where there is nothing to be captured.
    pub png: Option<Vec<u8>>,
}

/// What follows from what the user does.
#[derive(Debug)]
pub enum ScreenshotEffect {
    Nothing,
    /// The windows are closed.
    Close(Vec<u64>),
    /// The windows are closed, the picture is saved, and the request is answered.
    Captured(Capture),
    /// The windows are closed, and it is answered that the request was cancelled.
    Cancelled { windows: Vec<u64>, handle: String },
    /// The settings are kept.
    SaveConfig(Screenshot),
    /// These windows are opened on their outputs.
    Open(Vec<u64>),
}

/// The request that an effect answers.
pub open spec fn answered(effect: ScreenshotEffect) -> Option<String> {
    match effect {
        ScreenshotEffect::Captured(capture) => Some(capture.handle),
        ScreenshotEffect::Cancelled { windows, handle } => Some(handle),
        _ => None,
    }
}

/// The outputs, the request that waits, and what is kept for the next one.
#[derive(Debug)]
pub struct ScreenshotPortal {
    pub outputs: Outputs,
    pub args: Option<Args>,
    pub location_options: Vec<Label>,
    pub config: Screenshot,
    pub active_output: Option<u64>,
}

/// The numbers of the windows on the outputs.
pub open spec fn window_ids(outputs: Seq<OutputState>) -> Seq<u64> {
    outputs.map_values(|output: OutputState| output.id)
}

/// The first output with a name.
pub open spec fn output_named(outputs: Seq<OutputState>, name: Seq<char>) -> Option<OutputState>
    decreases outputs.len(),
{
    if outputs.len() == 0 {
        None
    } else if outputs[0].name@ == name {
        Some(outputs[0])
    } else {
        output_named(outputs.skip(1), name)
    }
}

/// Whether the output of a picture has a part in a rectangle.
pub open spec fn has_part(
    name: Seq<char>,
    rect: Rect,
    images: Map<Seq<char>, Picture>,
    outputs: Seq<OutputState>,
) -> bool {
    &&& images.dom().contains(name)
    &&& output_named(outputs, name) is Some
    &&& rect.intersection(state_rect(output_named(outputs, name)->0)) is Some
}

/// Whether frames are the pictures of all outputs that have a part in a rectangle, each once, with
/// the rectangles of their outputs. The order is not fixed.
pub open spec fn are_parts(
    frames: Seq<Frame>,
    names: Seq<Seq<char>>,
    rect: Rect,
    images: Map<Seq<char>, Picture>,
    outputs: Seq<OutputState>,
) -> bool {
    &&& frames.len() == names.len()
    &&& names.no_duplicates()
    &&& forall|i: int|
        0 <= i < names.len() ==> has_part(#[trigger] names[i], rect, images, outputs)
            && frames[i].picture@ == images[names[i]]@ && frames[i].rect == state_rect(
            output_named(outputs, names[i])->0,
        )
    &&& forall|name: Seq<char>| #[trigger]
        has_part(name, rect, images, outputs) ==> names.contains(name)
}

/// Whether frames are the pictures of all outputs that have a part in a rectangle, in some order.
pub open spec fn cover(
    frames: Seq<Frame>,
    rect: Rect,
    images: Map<Seq<char>, Picture>,
    outputs: Seq<OutputState>,
) -> bool {
    exists|names: Seq<Seq<char>>| #[trigger] are_parts(frames, names, rect, images, outputs)
}

/// Whether the width and height of a rectangle are numbers.
pub open spec fn sides_fit(rect: Rect) -> bool {
    &&& i32::MIN <= rect.spec_width() <= i32::MAX
    &&& i32::MIN <= rect.spec_height() <= i32::MAX
}

/// Whether the edges of the outputs that have pictures are numbers.
pub open spec fn named_edges_fit(
    images: Map<Seq<char>, Picture>,
    outputs: Seq<OutputState>,
) -> bool {
    forall|name: Seq<char>| #[trigger]
        images.dom().contains(name) && output_named(outputs, name) is Some ==> edges_fit(
            output_named(outputs, name)->0,
        )
}

/// Whether the picture of a rectangle can be made, in whichever order the outputs come.
pub open spec fn rect_fits(
    rect: Rect,
    images: Map<Seq<char>, Picture>,
    outputs: Seq<OutputState>,
) -> bool {
    &&& sides_fit(rect)
    &&& rect.spec_width() != 0 && rect.spec_height() != 0 ==> {
        &&& named_edges_fit(images, outputs)
        &&& forall|frames: Seq<Frame>| #[trigger]
            cover(frames, rect, images, outputs) ==> can_combine(rect, frames)
    }
}

/// Whether a picture is what was chosen; none where there is nothing to be captured.
pub open spec fn is_chosen(
    picture: Option<PictureView>,
    args: Args,
    outputs: Seq<OutputState>,
) -> bool {
    match args.choice {
        Choice::Output(name) => picture == if args.output_images@.dom().contains(name@) {
            Some(args.output_images@[name@]@)
        } else {
            None
        },
        Choice::Rectangle(rect, _) => if rect.spec_width() != 0 && rect.spec_height() != 0 {
            exists|frames: Seq<Frame>| #[trigger]
                cover(frames, rect, args.output_images@, outputs) && picture is Some && is_combined(
                    picture->0,
                    rect,
                    frames,
                )
        } else {
            picture is None
        },
        Choice::Window(name, Some(i)) => picture == if args.toplevel_images@.dom().contains(name@)
            && i < args.toplevel_images@[name@]@.len() {
            Some(args.toplevel_images@[name@]@[i as int].image@)
        } else {
            None
        },
        Choice::Window(_, None) => picture is None,
    }
}

/// A picture as a PNG file.
pub open spec fn as_png(picture: Option<PictureView>) -> Option<Seq<u8>> {
    match picture {
        Some(picture) => png_file(picture.width, picture.height, picture.data),
        None => None,
    }
}

/// Bytes, as a value.
pub open spec fn bytes_view(bytes: Option<Vec<u8>>) -> Option<Seq<u8>> {
    match bytes {
        Some(bytes) => Some(bytes@),
        None => None,
    }
}

/// The outputs without anchors.
pub open spec fn without_anchors(outputs: Seq<OutputState>) -> Seq<OutputState> {
    outputs.map_values(
        |output: OutputState| OutputState { window_pointer_anchor: None, ..output },
    )
}

/// The outputs of which the first with a name and the pointer on it is anchored.
pub open spec fn with_anchor(outputs: Seq<OutputState>, name: Seq<char>) -> Seq<OutputState>
    decreases outputs.len(),
{
    if outputs.len() == 0 {
        outputs
    } else if outputs[0].name@ == name && outputs[0].has_pointer {
        outputs.update(
            0,
            OutputState { window_pointer_anchor: outputs[0].pointer_position, ..outputs[0] },
        )
    } else {
        seq![outputs[0]] + with_anchor(outputs.skip(1), name)
    }
}

/// The outputs after a choice. The anchor is where the pointer was when the choice turned to
/// windows; other choices have none.
pub open spec fn anchored(
    outputs: Seq<OutputState>,
    was_window: bool,
    choice: Choice,
) -> Seq<OutputState> {
    match choice {
        Choice::Window(name, _) => if was_window {
            outputs
        } else {
            with_anchor(without_anchors(outputs), name@)
        },
        _ => without_anchors(outputs),
    }
}

/// The place with a number; another number changes nothing.
pub open spec fn location_at(i: usize, otherwise: ImageSaveLocation) -> ImageSaveLocation {
    if i == 0 {
        ImageSaveLocation::Clipboard
    } else if i == 1 {
        ImageSaveLocation::Pictures
    } else if i == 2 {
        ImageSaveLocation::Documents
    } else {
        otherwise
    }
}

/// A step in which what was chosen is captured.
pub open spec fn capture_step(
    pre: ScreenshotPortal,
    post: ScreenshotPortal,
    effect: ScreenshotEffect,
) -> bool {
    match pre.args {
        Some(args) => {
            &&& post == (ScreenshotPortal { args: None, ..pre })
            &&& effect matches ScreenshotEffect::Captured(capture)
            &&& capture.windows@ == window_ids(pre.outputs.states@)
            &&& capture.handle == args.handle
            &&& capture.location == args.location
            &&& exists|picture: Option<PictureView>| #[trigger]
                is_chosen(picture, args, pre.outputs.states@) && bytes_view(capture.png) == as_png(
                    picture,
                )
        },
        None => {
            &&& post == pre
            &&& effect matches ScreenshotEffect::Close(windows)
            &&& windows@ == window_ids(pre.outputs.states@)
        },
    }
}

/// A step in which the request is cancelled.
pub open spec fn cancel_step(
    pre: ScreenshotPortal,
    post: ScreenshotPortal,
    effect: ScreenshotEffect,
) -> bool {
    match pre.args {
        Some(args) => {
            &&& post == (ScreenshotPortal { args: None, ..pre })
            &&& effect matches ScreenshotEffect::Cancelled { windows, handle }
            &&& windows@ == window_ids(pre.outputs.states@)
            &&& handle == args.handle
        },
        None => {
            &&& post == pre
            &&& effect matches ScreenshotEffect::Close(windows)
            &&& windows@ == window_ids(pre.outputs.states@)
        },
    }
}

/// The portal with another choice for the request that waits.
pub open spec fn with_choice(pre: ScreenshotPortal, choice: Choice) -> ScreenshotPortal {
    ScreenshotPortal {
        args: match pre.args {
            Some(args) => Some(Args { choice, ..args }),
            None => None,
        },
        ..pre
    }
}

/// Whether the choice is one of windows.
pub open spec fn chooses_window(args: Option<Args>) -> bool {
    args matches Some(args) && args.choice is Window
}

/// The rectangle that was chosen last, after a choice.
pub open spec fn rectangle_after(choice: Choice, before: Option<Rect>) -> Option<Rect> {
    match choice {
        Choice::Rectangle(rect, _) => Some(rect),
        _ => before,
    }
}

/// A step in which something else is chosen. The settings are not kept while a rectangle is dragged.
pub open spec fn choice_step(
    pre: ScreenshotPortal,
    choice: Choice,
    post: ScreenshotPortal,
    effect: ScreenshotEffect,
) -> bool {
    &&& post.outputs.states@ == anchored(
        pre.outputs.states@,
        chooses_window(pre.args),
        choice,
    )
    &&& post.outputs.prev_rectangle == rectangle_after(choice, pre.outputs.prev_rectangle)
    &&& post.args == with_choice(pre, choice).args
    &&& post.location_options == pre.location_options
    &&& post.config == pre.config
    &&& post.active_output == pre.active_output
    &&& if choice matches Choice::Rectangle(_, state) && state != DragState::Idle {
        effect == ScreenshotEffect::Nothing
    } else {
        effect == ScreenshotEffect::SaveConfig(
            Screenshot {
                save_location: pre.config.save_location,
                choice: choice.kept(),
                last_rectangle: rectangle_after(choice, pre.config.last_rectangle),
            },
        )
    }
}

/// A step in which another place is chosen.
pub open spec fn location_step(
    pre: ScreenshotPortal,
    i: usize,
    post: ScreenshotPortal,
    effect: ScreenshotEffect,
) -> bool {
    match pre.args {
        Some(args) => {
            let location = location_at(i, args.location);
            &&& post == (ScreenshotPortal {
                args: Some(Args { location, ..args }),
                config: Screenshot {
                    choice: match pre.config.choice {
                        ConfigChoice::Output(_) => ConfigChoice::Output(None),
                        other => other,
                    },
                    ..pre.config
                },
                ..pre
            })
            &&& effect == ScreenshotEffect::SaveConfig(
                Screenshot { save_location: location, ..pre.config },
            )
        },
        None => post == pre && effect == ScreenshotEffect::Nothing,
    }
}

/// What follows from what the user does.
pub open spec fn step(
    pre: ScreenshotPortal,
    msg: Msg,
    post: ScreenshotPortal,
    effect: ScreenshotEffect,
) -> bool {
    match msg {
        Msg::Capture => capture_step(pre, post, effect),
        Msg::CaptureWithLocation(location) => match pre.args {
            Some(args) => capture_step(
                ScreenshotPortal { args: Some(Args { location, ..args }), ..pre },
                post,
                effect,
            ),
            None => post == pre && effect == ScreenshotEffect::Nothing,
        },
        Msg::Cancel => cancel_step(pre, post, effect),
        Msg::Choice(choice) => choice_step(pre, choice, post, effect),
        Msg::OutputChanged(output) => {
            let name = match output_position(pre.outputs.states@, output) {
                Some(i) => Some(pre.outputs.states@[i].name),
                None => None,
            };
            let changed = match name {
                Some(name) => with_choice(pre, Choice::Output(name)),
                None => pre,
            };
            &&& post == (ScreenshotPortal { active_output: Some(output), ..changed })
            &&& effect == ScreenshotEffect::Nothing
        },
        Msg::WindowChosen(name, i) => capture_step(
            with_choice(pre, Choice::Window(name, Some(i))),
            post,
            effect,
        ),
        Msg::Location(i) => location_step(pre, i, post, effect),
    }
}

/// A request is answered once: after the step that answers it, no step does until there is another
/// request.
pub proof fn law_request_is_answered_once(
    before: ScreenshotPortal,
    msg: Msg,
    between: ScreenshotPortal,
    effect: ScreenshotEffect,
    next_msg: Msg,
    after: ScreenshotPortal,
    next_effect: ScreenshotEffect,
)
    requires
        step(before, msg, between, effect),
        step(between, next_msg, after, next_effect),
        answered(effect) is Some,
    ensures
        before.args matches Some(args) && answered(effect) == Some(args.handle),
        answered(next_effect) is None,
        after.args is None,
{
}

/// Whatever the user does, the outputs stay the same in number, name, place and window.
pub proof fn law_steps_keep_outputs(
    pre: ScreenshotPortal,
    msg: Msg,
    post: ScreenshotPortal,
    effect: ScreenshotEffect,
    i: int,
)
    requires
        step(pre, msg, post, effect),
        0 <= i < pre.outputs.states@.len(),
    ensures
        post.outputs.states@.len() == pre.outputs.states@.len(),
        same_output(post.outputs.states@[i], pre.outputs.states@[i]),
{
    if let Msg::Choice(Choice::Window(name, _)) = msg {
        lemma_anchor_keeps_outputs(without_anchors(pre.outputs.states@), name@, i);
    }
}

/// Whether two outputs differ in their anchor at most.
pub open spec fn same_output(a: OutputState, b: OutputState) -> bool {
    a == (OutputState { window_pointer_anchor: a.window_pointer_anchor, ..b })
}

/// An anchor changes nothing else of the outputs.
proof fn lemma_anchor_keeps_outputs(outputs: Seq<OutputState>, name: Seq<char>, i: int)
    ensures
        with_anchor(outputs, name).len() == outputs.len(),
        0 <= i < outputs.len() ==> same_output(with_anchor(outputs, name)[i], outputs[i]),
    decreases outputs.len(),
{
    if outputs.len() > 0 && !(outputs[0].name@ == name && outputs[0].has_pointer) {
        lemma_anchor_keeps_outputs(outputs.skip(1), name, i - 1);
        if i > 0 && i < outputs.len() {
            assert(outputs.skip(1)[i - 1] == outputs[i]);
        }
    }
}

/// The frames of one order can be put together where those of another order can.
proof fn lemma_order_does_not_matter(
    a: Seq<Frame>,
    a_names: Seq<Seq<char>>,
    b: Seq<Frame>,
    b_names: Seq<Seq<char>>,
    rect: Rect,
    images: Map<Seq<char>, Picture>,
    outputs: Seq<OutputState>,
)
    requires
        are_parts(a, a_names, rect, images, outputs),
        are_parts(b, b_names, rect, images, outputs),
        can_combine(rect, a),
    ensures
        can_combine(rect, b),
{
    assert(a_names.to_set() =~= b_names.to_set()) by {
        assert forall|name: Seq<char>| a_names.to_set().contains(name)
            == b_names.to_set().contains(name) by {
            if a_names.contains(name) {
                let i = choose|i: int| 0 <= i < a_names.len() && a_names[i] == name;
                assert(has_part(a_names[i], rect, images, outputs));
            }
            if b_names.contains(name) {
                let i = choose|i: int| 0 <= i < b_names.len() && b_names[i] == name;
                assert(has_part(b_names[i], rect, images, outputs));
            }
        }
    }
    a_names.unique_seq_to_set();
    b_names.unique_seq_to_set();
    assert(a.len() == b.len());
    assert forall|j: int| 0 <= j < b.len() implies exists|i: int|
        0 <= i < a.len() && (#[trigger] a[i]).picture@ == (#[trigger] b[j]).picture@ && a[i].rect
            == b[j].rect by {
        assert(has_part(b_names[j], rect, images, outputs));
        assert(a_names.contains(b_names[j]));
        let i = choose|i: int| 0 <= i < a_names.len() && a_names[i] == b_names[j];
        assert(a[i].picture@ == b[j].picture@);
    }
    assert forall|j: int| 0 <= j < b.len() implies (#[trigger] b[j]).wf() by {
        let i = choose|i: int|
            0 <= i < a.len() && (#[trigger] a[i]).picture@ == b[j].picture@ && a[i].rect
                == b[j].rect;
        assert(a[i].wf());
    }
    if b.len() != 1 {
        assert forall|j: int| 0 <= j < b.len() implies (#[trigger] b[j]).can_fill_rect() by {
            let i = choose|i: int|
                0 <= i < a.len() && (#[trigger] a[i]).picture@ == b[j].picture@ && a[i].rect
                    == b[j].rect;
            assert(a[i].can_fill_rect());
            assert(a[i].picture@.width == b[j].picture@.width);
        }
    } else {
        let i = choose|i: int|
            0 <= i < a.len() && (#[trigger] a[i]).picture@ == b[0].picture@ && a[i].rect
                == b[0].rect;
        assert(a[0].rect == b[0].rect);
    }
}

/// The position of the first output with a name.
fn find_named(outputs: &Vec<OutputState>, name: &str) -> (r: Option<usize>)
    ensures
        match r {
            Some(i) => i < outputs@.len() && output_named(outputs@, name@) == Some(
                outputs@[i as int],
            ),
            None => output_named(outputs@, name@) is None,
        },
{
    let mut i: usize = 0;
    proof {
        assert(outputs@.skip(0) =~= outputs@);
    }
    while i < outputs.len()
        invariant
            i <= outputs@.len(),
            output_named(outputs@, name@) == output_named(outputs@.skip(i as int), name@),
        decreases outputs@.len() - i,
    {
        proof {
            assert(outputs@.skip(i as int)[0] == outputs@[i as int]);
            assert(outputs@.skip(i as int).skip(1) =~= outputs@.skip(i + 1));
        }
        if str_eq(outputs[i].name.as_str(), name) {
            return Some(i);
        }
        i = i + 1;
    }
    None
}

/// The frames of the outputs that have a part in a rectangle; none where an edge of an output is no
/// number.
fn part_frames(rect: Rect, images: &Dict<Picture>, outputs: &Vec<OutputState>) -> (r: Option<
    Vec<Frame>,
>)
    requires
        pictures_wf(images@),
    ensures
        match r {
            Some(frames) => {
                &&& named_edges_fit(images@, outputs@)
                &&& cover(frames@, rect, images@, outputs@)
                &&& forall|i: int| 0 <= i < frames@.len() ==> (#[trigger] frames@[i]).picture.wf()
            },
            None => !named_edges_fit(images@, outputs@),
        },
{
    let names = images.names();
    let mut frames: Vec<Frame> = Vec::new();
    let ghost mut shown: Seq<Seq<char>> = Seq::empty();
    let mut i: usize = 0;
    while i < names.len()
        invariant
            i <= names@.len(),
            pictures_wf(images@),
            views(names@).no_duplicates(),
            forall|j: int|
                0 <= j < names@.len() ==> images@.dom().contains((#[trigger] names@[j])@),
            forall|j: int|
                0 <= j < i && output_named(outputs@, (#[trigger] names@[j])@) is Some ==> edges_fit(
                    output_named(outputs@, names@[j]@)->0,
                ),
            frames@.len() == shown.len(),
            shown.no_duplicates(),
            forall|j: int|
                0 <= j < shown.len() ==> has_part(#[trigger] shown[j], rect, images@, outputs@)
                    && frames@[j].picture@ == images@[shown[j]]@ && frames@[j].rect == state_rect(
                    output_named(outputs@, shown[j])->0,
                ),
            forall|j: int|
                0 <= j < i && has_part((#[trigger] names@[j])@, rect, images@, outputs@)
                    ==> shown.contains(names@[j]@),
            forall|j: int|
                0 <= j < shown.len() ==> exists|k: int|
                    0 <= k < i && (#[trigger] names@[k])@ == #[trigger] shown[j],
            forall|j: int| 0 <= j < frames@.len() ==> (#[trigger] frames@[j]).picture.wf(),
        decreases names@.len() - i,
    {
        let name = names[i].as_str();
        let ghost had = shown;
        if let Some(o) = find_named(outputs, name) {
            if !has_fitting_edges(&outputs[o]) {
                assert(images@.dom().contains(names@[i as int]@));
                return None;
            }
            let output_rect = rect_of_state(&outputs[o]);
            if rect.intersect(output_rect).is_some() {
                if let Some(picture) = images.get(name) {
                    proof {
                        assert(images@[name@].wf());
                        assert(has_part(name@, rect, images@, outputs@));
                        shown = had.push(name@);
                        if had.contains(name@) {
                            let j = choose|j: int| 0 <= j < had.len() && had[j] == name@;
                            let k = choose|k: int|
                                0 <= k < i && (#[trigger] names@[k])@ == had[j];
                            assert(views(names@)[k] == views(names@)[i as int]);
                        }
                        assert(names@[i as int]@ == shown[had.len() as int]);
                        assert forall|j: int|
                            0 <= j < i && has_part(
                                (#[trigger] names@[j])@,
                                rect,
                                images@,
                                outputs@,
                            ) implies shown.contains(names@[j]@) by {
                            let m = choose|m: int| 0 <= m < had.len() && had[m] == names@[j]@;
                            assert(shown[m] == names@[j]@);
                        }
                    }
                    frames.push(Frame { picture: picture.clone(), rect: output_rect });
                }
            }
        }
        i = i + 1;
    }
    proof {
        assert forall|name: Seq<char>| #[trigger]
            images@.dom().contains(name) && output_named(outputs@, name) is Some implies edges_fit(
            output_named(outputs@, name)->0,
        ) by {
            assert(views(names@).contains(name));
            let j = choose|j: int| 0 <= j < views(names@).len() && views(names@)[j] == name;
            assert(names@[j]@ == name);
        }
        assert forall|name: Seq<char>| #[trigger]
            has_part(name, rect, images@, outputs@) implies shown.contains(name) by {
            assert(views(names@).contains(name));
            let j = choose|j: int| 0 <= j < views(names@).len() && views(names@)[j] == name;
            assert(names@[j]@ == name);
        }
        assert(named_edges_fit(images@, outputs@));
        assert(are_parts(frames@, shown, rect, images@, outputs@));
        assert(cover(frames@, rect, images@, outputs@));
    }
    Some(frames)
}

/// Whether the picture of a rectangle can be made.
fn rect_can_be_captured(rect: Rect, images: &Dict<Picture>, outputs: &Vec<OutputState>) -> (r: bool)
    requires
        pictures_wf(images@),
    ensures
        r == rect_fits(rect, images@, outputs@),
{
    if rect.right.checked_sub(rect.left).is_none() || rect.bottom.checked_sub(rect.top).is_none() {
        return false;
    }
    if rect.width() == 0 || rect.height() == 0 {
        return true;
    }
    match part_frames(rect, images, outputs) {
        Some(frames) => {
            let fits = can_be_combined(rect, &frames);
            proof {
                if fits {
                    assert forall|others: Seq<Frame>| #[trigger]
                        cover(others, rect, images@, outputs@) implies can_combine(rect, others) by {
                        let a = choose|a: Seq<Seq<char>>| #[trigger]
                            are_parts(frames@, a, rect, images@, outputs@);
                        let b = choose|b: Seq<Seq<char>>| #[trigger]
                            are_parts(others, b, rect, images@, outputs@);
                        lemma_order_does_not_matter(
                            frames@,
                            a,
                            others,
                            b,
                            rect,
                            images@,
                            outputs@,
                        );
                    }
                }
            }
            fits
        },
        None => false,
    }
}

/// The picture of a rectangle, put together from the pictures of the outputs.
fn rect_picture(rect: Rect, images: &Dict<Picture>, outputs: &Vec<OutputState>) -> (r: Option<
    Picture,
>)
    requires
        pictures_wf(images@),
        rect_fits(rect, images@, outputs@),
    ensures
        if rect.spec_width() != 0 && rect.spec_height() != 0 {
            r matches Some(picture) && picture.wf() && exists|frames: Seq<Frame>| #[trigger]
                cover(frames, rect, images@, outputs@) && is_combined(picture@, rect, frames)
        } else {
            r is None
        },
{
    if rect.dimensions().is_none() {
        return None;
    }
    match part_frames(rect, images, outputs) {
        Some(frames) => Some(combined_image(rect, &frames)),
        None => None,
    }
}

/// What was chosen, as a PNG file.
fn chosen_png(args: &Args, outputs: &Vec<OutputState>) -> (r: Option<Vec<u8>>)
    requires
        args.wf(),
        args.choice matches Choice::Rectangle(rect, _) ==> rect_fits(
            rect,
            args.output_images@,
            outputs@,
        ),
    ensures
        exists|picture: Option<PictureView>| #[trigger]
            is_chosen(picture, *args, outputs@) && bytes_view(r) == as_png(picture),
{
    let ghost none: Option<PictureView> = None;
    match &args.choice {
        Choice::Output(name) => match args.output_images.get(name.as_str()) {
            Some(picture) => {
                proof {
                    assert(args.output_images@[name@].wf());
                    assert(is_chosen(Some(picture@), *args, outputs@));
                }
                write_png(picture)
            },
            None => {
                assert(is_chosen(none, *args, outputs@));
                None
            },
        },
        Choice::Rectangle(rect, _) => match rect_picture(*rect, &args.output_images, outputs) {
            Some(picture) => {
                assert(is_chosen(Some(picture@), *args, outputs@));
                write_png(&picture)
            },
            None => {
                assert(is_chosen(none, *args, outputs@));
                None
            },
        },
        Choice::Window(name, Some(i)) => {
            if let Some(images) = args.toplevel_images.get(name.as_str()) {
                if *i < images.len() {
                    proof {
                        assert(args.toplevel_images@[name@]@[*i as int].image.wf());
                        assert(is_chosen(Some(images@[*i as int].image@), *args, outputs@));
                    }
                    return write_png(&images[*i].image);
                }
            }
            assert(is_chosen(none, *args, outputs@));
            None
        },
        Choice::Window(_, None) => {
            assert(is_chosen(none, *args, outputs@));
            None
        },
    }
}

/// The numbers of the windows on the outputs.
fn ids_of(outputs: &Vec<OutputState>) -> (r: Vec<u64>)
    ensures
        r@ == window_ids(outputs@),
{
    let mut r: Vec<u64> = Vec::new();
    let mut i: usize = 0;
    while i < outputs.len()
        invariant
            i <= outputs@.len(),
            r@ == window_ids(outputs@).take(i as int),
        decreases outputs@.len() - i,
    {
        r.push(outputs[i].id);
        proof {
            assert(r@ =~= window_ids(outputs@).take(i + 1));
        }
        i = i + 1;
    }
    proof {
        assert(r@ =~= window_ids(outputs@));
    }
    r
}

/// Takes the anchors from the outputs.
fn clear_anchors(outputs: &mut Vec<OutputState>)
    ensures
        final(outputs)@ == without_anchors(old(outputs)@),
{
    let ghost all = outputs@;
    let mut i: usize = 0;
    while i < outputs.len()
        invariant
            i <= outputs@.len(),
            outputs@.len() == all.len(),
            all == old(outputs)@,
            forall|j: int| 0 <= j < i ==> (#[trigger] outputs@[j]) == without_anchors(all)[j],
            forall|j: int| i <= j < all.len() ==> (#[trigger] outputs@[j]) == all[j],
        decreases outputs@.len() - i,
    {
        outputs[i].window_pointer_anchor = None;
        i = i + 1;
    }
    proof {
        assert(outputs@ =~= without_anchors(all));
    }
}

/// Anchors the first output with a name and the pointer on it.
fn set_anchor(outputs: &mut Vec<OutputState>, name: &str)
    ensures
        final(outputs)@ == with_anchor(old(outputs)@, name@),
{
    let ghost all = outputs@;
    let mut i: usize = 0;
    proof {
        assert(all.skip(0) =~= all);
        assert(all.take(0) + with_anchor(all, name@) =~= with_anchor(all, name@));
    }
    while i < outputs.len()
        invariant
            i <= outputs@.len(),
            outputs@ == all,
            all == old(outputs)@,
            with_anchor(all, name@) == all.take(i as int) + with_anchor(
                all.skip(i as int),
                name@,
            ),
        decreases outputs@.len() - i,
    {
        proof {
            let rest = all.skip(i as int);
            assert(rest[0] == all[i as int]);
            assert(rest.skip(1) =~= all.skip(i + 1));
            assert(all.take(i as int) + (seq![rest[0]] + with_anchor(rest.skip(1), name@)) =~= (
            all.take(i + 1) + with_anchor(all.skip(i + 1), name@)));
        }
        if str_eq(outputs[i].name.as_str(), name) && outputs[i].has_pointer {
            outputs[i].window_pointer_anchor = outputs[i].pointer_position;
            proof {
                let rest = all.skip(i as int);
                assert(outputs@ =~= all.take(i as int) + rest.update(
                    0,
                    OutputState { window_pointer_anchor: rest[0].pointer_position, ..rest[0] },
                ));
            }
            return;
        }
        i = i + 1;
    }
    proof {
        assert(all.take(all.len() as int) + with_anchor(all.skip(all.len() as int), name@) =~= all);
    }
}

/// The windows with later pictures of some of them. Numbers that no window has are left out.
pub open spec fn replaced(
    windows: Seq<ToplevelView>,
    images: Seq<(usize, PictureView)>,
) -> Seq<ToplevelView>
    decreases images.len(),
{
    if images.len() == 0 {
        windows
    } else {
        let rest = replaced(windows, images.drop_last());
        let (i, image) = images.last();
        if i < windows.len() {
            rest.update(i as int, ToplevelView { image, ..rest[i as int] })
        } else {
            rest
        }
    }
}

/// Later pictures keep the windows as they are otherwise.
pub proof fn law_later_pictures_keep_windows(
    windows: Seq<ToplevelView>,
    images: Seq<(usize, PictureView)>,
    i: int,
)
    requires
        0 <= i < windows.len(),
    ensures
        replaced(windows, images).len() == windows.len(),
        replaced(windows, images)[i] == (ToplevelView {
            image: replaced(windows, images)[i].image,
            ..windows[i]
        }),
    decreases images.len(),
{
    if images.len() > 0 {
        law_later_pictures_keep_windows(windows, images.drop_last(), i);
    }
}

/// The windows of all outputs with later pictures of some of them. Outputs that are not known are
/// left out.
pub open spec fn all_replaced(
    windows: Map<Seq<char>, Seq<ToplevelView>>,
    images: Map<Seq<char>, Seq<(usize, PictureView)>>,
) -> Map<Seq<char>, Seq<ToplevelView>> {
    windows.map_entries(
        |name: Seq<char>, list: Seq<ToplevelView>|
            if images.dom().contains(name) {
                replaced(list, images[name])
            } else {
                list
            },
    )
}

/// Whether all pictures of windows hold exactly their pixels.
pub open spec fn windows_wf(windows: Seq<ToplevelImage>) -> bool {
    forall|i: int| 0 <= i < windows.len() ==> (#[trigger] windows[i]).image.wf()
}

/// Puts later pictures in the place of earlier ones.
fn replace_images(windows: &mut Vec<ToplevelImage>, images: Vec<(usize, Picture)>)
    requires
        windows_wf(old(windows)@),
        numbered_wf(images@),
    ensures
        toplevel_views(final(windows)@) == replaced(
            toplevel_views(old(windows)@),
            numbered_views(images@),
        ),
        windows_wf(final(windows)@),
{
    let ghost first = toplevel_views(windows@);
    let ghost all = images@;
    let ghost shown = numbered_views(all);
    proof {
        assert(shown.take(0) =~= Seq::<(usize, PictureView)>::empty());
    }
    for image in it: images
        invariant
            it.seq() == all,
            shown == numbered_views(all),
            numbered_wf(all),
            windows_wf(windows@),
            toplevel_views(windows@) == replaced(first, shown.take(it.index() as int)),
            windows@.len() == first.len(),
    {
        let ghost before = windows@;
        proof {
            let i = it.index() as int;
            assert(shown.take(i + 1).drop_last() =~= shown.take(i));
            assert(shown.take(i + 1).last() == (all[i].0, all[i].1@));
            assert(image == all[i]);
            assert(image.1.wf());
        }
        let (index, picture) = image;
        if index < windows.len() {
            windows[index].image = picture;
            proof {
                assert(toplevel_views(windows@) =~= toplevel_views(before).update(
                    index as int,
                    ToplevelView {
                        image: picture@,
                        ..toplevel_views(before)[index as int]
                    },
                ));
            }
        }
    }
    proof {
        assert(shown.take(shown.len() as int) =~= shown);
    }
}

/// Puts later pictures of the windows of all outputs in the place of earlier ones.
fn replace_all_images(
    windows: &mut Dict<Vec<ToplevelImage>>,
    images: Dict<Vec<(usize, Picture)>>,
)
    requires
        toplevels_wf(old(windows)@),
        forall|name: Seq<char>|
            images@.dom().contains(name) ==> numbered_wf((#[trigger] images@[name])@),
    ensures
        toplevel_maps(final(windows)@) == all_replaced(
            toplevel_maps(old(windows)@),
            numbered_maps(images@),
        ),
        toplevels_wf(final(windows)@),
{
    let ghost first = windows@;
    let ghost later = images@;
    let entries = images.into_entries();
    let ghost all = entries@;
    for entry in it: entries
        invariant
            it.seq() == all,
            lists(all, later),
            forall|name: Seq<char>|
                later.dom().contains(name) ==> numbered_wf((#[trigger] later[name])@),
            toplevels_wf(windows@),
            windows@.dom() == first.dom(),
            forall|name: Seq<char>|
                #![trigger windows@[name]]
                first.dom().contains(name) ==> toplevel_views(windows@[name]@) == if has_name(
                    all.take(it.index() as int),
                    name,
                ) {
                    replaced(toplevel_views(first[name]@), numbered_views(later[name]@))
                } else {
                    toplevel_views(first[name]@)
                },
    {
        let ghost i = it.index() as int;
        let ghost before = windows@;
        let ghost key = entry.0@;
        proof {
            assert(entry == all[i]);
            assert(later[key] == entry.1);
            assert(!has_name(all.take(i), key)) by {
                if has_name(all.take(i), key) {
                    let j = choose|j: int| 0 <= j < i && (#[trigger] all.take(i)[j]).0@ == key;
                    assert(all[j].0@ != all[i].0@);
                }
            }
            assert forall|name: Seq<char>| #[trigger]
                has_name(all.take(i + 1), name) <==> has_name(all.take(i), name) || name == key by {
                if has_name(all.take(i + 1), name) {
                    let j = choose|j: int|
                        0 <= j < i + 1 && (#[trigger] all.take(i + 1)[j]).0@ == name;
                    if j < i {
                        assert(all.take(i)[j].0@ == name);
                    }
                }
                if has_name(all.take(i), name) {
                    let j = choose|j: int| 0 <= j < i && (#[trigger] all.take(i)[j]).0@ == name;
                    assert(all.take(i + 1)[j].0@ == name);
                }
                if name == key {
                    assert(all.take(i + 1)[i].0@ == name);
                }
            }
        }
        let (name, pictures) = entry;
        match windows.get_mut(name.as_str()) {
            Some(list) => {
                proof {
                    assert forall|k: int| 0 <= k < list@.len() implies (#[trigger] list@[k]).image.wf() by {
                        assert(before[key]@[k].image.wf());
                    }
                }
                replace_images(list, pictures);
            },
            None => {},
        }
        proof {
            assert(windows@.dom() =~= first.dom());
            assert forall|other: Seq<char>, k: int|
                #![trigger windows@[other]@[k]]
                windows@.dom().contains(other) && 0 <= k < windows@[other]@.len() implies windows@[other]@[k].image.wf() by {
                if other != key {
                    assert(before[other]@[k].image.wf());
                }
            }
        }
    }
    proof {
        assert(all.take(all.len() as int) =~= all);
        let shown = numbered_maps(later);
        assert(toplevel_maps(windows@) =~= all_replaced(toplevel_maps(first), shown)) by {
            assert forall|name: Seq<char>| first.dom().contains(name) implies #[trigger] toplevel_maps(
                windows@,
            )[name] == all_replaced(toplevel_maps(first), shown)[name] by {
                assert(toplevel_views(windows@[name]@) == toplevel_maps(windows@)[name]);
                if later.dom().contains(name) {
                    assert(has_name(all, name));
                }
                if has_name(all, name) {
                    let j = choose|j: int| 0 <= j < all.len() && (#[trigger] all[j]).0@ == name;
                    assert(later.dom().contains(all[j].0@));
                }
            }
        }
    }
}

/// The pictures, with a placeholder for each output that has none.
pub open spec fn all_pictured(
    images: Map<Seq<char>, PictureView>,
    outputs: Seq<OutputState>,
) -> Map<Seq<char>, PictureView>
    decreases outputs.len(),
{
    if outputs.len() == 0 {
        images
    } else {
        let rest = all_pictured(images, outputs.drop_last());
        let output = outputs.last();
        if rest.dom().contains(output.name@) {
            rest
        } else {
            rest.insert(output.name@, placeholder_picture(output.logical_size))
        }
    }
}

/// The lists of windows, with an empty one for each output that has none.
pub open spec fn all_listed(
    windows: Map<Seq<char>, Seq<ToplevelView>>,
    outputs: Seq<OutputState>,
) -> Map<Seq<char>, Seq<ToplevelView>>
    decreases outputs.len(),
{
    if outputs.len() == 0 {
        windows
    } else {
        let rest = all_listed(windows, outputs.drop_last());
        let output = outputs.last();
        if rest.dom().contains(output.name@) {
            rest
        } else {
            rest.insert(output.name@, Seq::empty())
        }
    }
}

/// Gives each output a picture and a list of windows.
fn complete_args(args: &mut Args, outputs: &Vec<OutputState>)
    requires
        old(args).wf(),
    ensures
        *final(args) == (Args {
            output_images: final(args).output_images,
            toplevel_images: final(args).toplevel_images,
            ..*old(args)
        }),
        picture_views(final(args).output_images@) == all_pictured(
            picture_views(old(args).output_images@),
            outputs@,
        ),
        toplevel_maps(final(args).toplevel_images@) == all_listed(
            toplevel_maps(old(args).toplevel_images@),
            outputs@,
        ),
        final(args).wf(),
{
    let ghost first = *args;
    let mut i: usize = 0;
    proof {
        assert(outputs@.take(0) =~= Seq::<OutputState>::empty());
    }
    while i < outputs.len()
        invariant
            i <= outputs@.len(),
            first == *old(args),
            *args == (Args {
                output_images: args.output_images,
                toplevel_images: args.toplevel_images,
                ..first
            }),
            args.wf(),
            picture_views(args.output_images@) == all_pictured(
                picture_views(first.output_images@),
                outputs@.take(i as int),
            ),
            toplevel_maps(args.toplevel_images@) == all_listed(
                toplevel_maps(first.toplevel_images@),
                outputs@.take(i as int),
            ),
        decreases outputs@.len() - i,
    {
        proof {
            assert(outputs@.take(i + 1).drop_last() =~= outputs@.take(i as int));
            assert(outputs@.take(i + 1).last() == outputs@[i as int]);
        }
        let ghost before = *args;
        let name = outputs[i].name.as_str();
        if !args.output_images.contains(name) {
            let picture = placeholder(outputs[i].logical_size.0, outputs[i].logical_size.1);
            args.output_images.insert(name, picture);
            proof {
                assert(picture_views(args.output_images@) =~= picture_views(
                    before.output_images@,
                ).insert(name@, picture@));
            }
        }
        if !args.toplevel_images.contains(name) {
            let list: Vec<ToplevelImage> = Vec::new();
            args.toplevel_images.insert(name, list);
            proof {
                assert(toplevel_views(list@) =~= Seq::empty());
                assert(toplevel_maps(args.toplevel_images@) =~= toplevel_maps(
                    before.toplevel_images@,
                ).insert(name@, Seq::empty()));
                assert forall|other: Seq<char>, k: int|
                    #![trigger args.toplevel_images@[other]@[k]]
                    args.toplevel_images@.dom().contains(other) && 0 <= k
                        < args.toplevel_images@[other]@.len() implies args.toplevel_images@[other]@[k].image.wf() by {
                    if other != name@ {
                        assert(before.toplevel_images@[other]@[k].image.wf());
                    }
                }
            }
        }
        i = i + 1;
    }
    proof {
        assert(outputs@.take(outputs@.len() as int) =~= outputs@);
    }
}

/// The background of an output: its wallpaper, if it has one.
pub open spec fn background_of(name: Seq<char>, wallpapers: Seq<Seq<char>>) -> BgSource {
    match position(wallpapers, name) {
        Some(i) => BgSource::Wallpaper(i),
        None => BgSource::Fallback,
    }
}

/// An output when a request begins: where the pointer is, and what is in the background.
pub open spec fn begun(
    output: OutputState,
    pointer: Option<PointerSnapshot>,
    of_window: bool,
    wallpapers: Seq<Seq<char>>,
) -> OutputState {
    let position = match pointer {
        Some(pointer) => if pointer.output@ == output.name@ {
            Some(pointer.position)
        } else {
            None
        },
        None => None,
    };
    OutputState {
        has_pointer: position is Some,
        pointer_position: position,
        window_pointer_anchor: if of_window {
            position
        } else {
            None
        },
        bg_source: Some(background_of(output.name@, wallpapers)),
        ..output
    }
}

/// The outputs when a request begins.
pub open spec fn all_begun(
    outputs: Seq<OutputState>,
    pointer: Option<PointerSnapshot>,
    of_window: bool,
    wallpapers: Seq<Seq<char>>,
) -> Seq<OutputState> {
    outputs.map_values(|output: OutputState| begun(output, pointer, of_window, wallpapers))
}

/// Sets the outputs up when a request begins.
fn begin_outputs(
    outputs: &mut Vec<OutputState>,
    pointer: &Option<PointerSnapshot>,
    of_window: bool,
    wallpapers: &Vec<String>,
)
    ensures
        final(outputs)@ == all_begun(old(outputs)@, *pointer, of_window, views(wallpapers@)),
{
    let ghost all = outputs@;
    let mut i: usize = 0;
    while i < outputs.len()
        invariant
            i <= outputs@.len(),
            outputs@.len() == all.len(),
            all == old(outputs)@,
            forall|j: int|
                0 <= j < i ==> (#[trigger] outputs@[j]) == begun(
                    all[j],
                    *pointer,
                    of_window,
                    views(wallpapers@),
                ),
            forall|j: int| i <= j < all.len() ==> (#[trigger] outputs@[j]) == all[j],
        decreases outputs@.len() - i,
    {
        let position = match pointer {
            Some(pointer) => if str_eq(pointer.output.as_str(), outputs[i].name.as_str()) {
                Some(pointer.position)
            } else {
                None
            },
            None => None,
        };
        let anchor: Option<Point> = if of_window {
            position
        } else {
            None
        };
        let source = match position_of_str(wallpapers, outputs[i].name.as_str()) {
            Some(w) => BgSource::Wallpaper(w),
            None => BgSource::Fallback,
        };
        let output = &mut outputs[i];
        output.has_pointer = position.is_some();
        output.pointer_position = position;
        output.window_pointer_anchor = anchor;
        output.bg_source = Some(source);
        i = i + 1;
    }
    proof {
        assert(outputs@ =~= all_begun(all, *pointer, of_window, views(wallpapers@)));
    }
}

/// The names of the places where a screenshot can go.
pub open spec fn location_labels() -> Seq<crate::label::LabelView> {
    seq![
        plain_attribute("save-to"@, "clipboard"@),
        plain_attribute("save-to"@, "pictures"@),
        plain_attribute("save-to"@, "documents"@),
    ]
}

/// The names of the places where a screenshot can go.
fn name_locations() -> (r: Vec<Label>)
    ensures
        label_views(r@) == location_labels(),
{
    let mut r: Vec<Label> = Vec::new();
    r.push(Label::attribute("save-to", "clipboard"));
    r.push(Label::attribute("save-to", "pictures"));
    r.push(Label::attribute("save-to", "documents"));
    proof {
        assert(label_views(r@) =~= location_labels());
    }
    r
}

impl ScreenshotPortal {
    /// Takes later pictures of windows. Those for another request than the one that waits are
    /// dropped.
    pub fn update_toplevel_images(&mut self, update: ToplevelImageUpdate)
        requires
            old(self).wf(),
            forall|name: Seq<char>|
                update.images@.dom().contains(name) ==> numbered_wf(
                    (#[trigger] update.images@[name])@,
                ),
        ensures
            final(self).wf(),
            match old(self).args {
                Some(args) => if args.handle@ == update.handle@ {
                    &&& final(self).args matches Some(new_args)
                    &&& *final(self) == (ScreenshotPortal {
                        args: Some(
                            Args { toplevel_images: new_args.toplevel_images, ..args },
                        ),
                        ..*old(self)
                    })
                    &&& toplevel_maps(new_args.toplevel_images@) == all_replaced(
                        toplevel_maps(args.toplevel_images@),
                        numbered_maps(update.images@),
                    )
                } else {
                    *final(self) == *old(self)
                },
                None => *final(self) == *old(self),
            },
    {
        if let Some(args) = &mut self.args {
            if str_eq(args.handle.as_str(), update.handle.as_str()) {
                replace_all_images(&mut args.toplevel_images, update.images);
            }
        }
    }

    /// Takes up a request: each output gets a picture and a list of windows, the pointer is set down
    /// where it was, and windows are opened on the outputs unless another request has them open. The
    /// wallpapers are given by the names of their outputs.
    pub fn update_args(&mut self, args: Args, wallpapers: &Vec<String>) -> (r: ScreenshotEffect)
        requires
            args.wf(),
        ensures
            final(self).wf(),
            final(self).args matches Some(new_args) && {
                &&& new_args == (Args {
                    output_images: new_args.output_images,
                    toplevel_images: new_args.toplevel_images,
                    ..args
                })
                &&& picture_views(new_args.output_images@) == all_pictured(
                    picture_views(args.output_images@),
                    old(self).outputs.states@,
                )
                &&& toplevel_maps(new_args.toplevel_images@) == all_listed(
                    toplevel_maps(args.toplevel_images@),
                    old(self).outputs.states@,
                )
            },
            final(self).outputs.states@ == all_begun(
                old(self).outputs.states@,
                args.initial_pointer,
                args.choice is Window,
                views(wallpapers@),
            ),
            final(self).outputs.prev_rectangle == old(self).outputs.prev_rectangle,
            label_views(final(self).location_options@) == location_labels(),
            final(self).config == old(self).config,
            final(self).active_output == old(self).active_output,
            match old(self).args {
                Some(_) => r == ScreenshotEffect::Nothing,
                None => r matches ScreenshotEffect::Open(windows) && windows@ == window_ids(
                    old(self).outputs.states@,
                ),
            },
    {
        let mut args = args;
        complete_args(&mut args, &self.outputs.states);
        let of_window = match &args.choice {
            Choice::Window(..) => true,
            _ => false,
        };
        let windows = ids_of(&self.outputs.states);
        begin_outputs(&mut self.outputs.states, &args.initial_pointer, of_window, wallpapers);
        self.location_options = name_locations();
        let had = self.args.is_some();
        self.args = Some(args);
        if had {
            ScreenshotEffect::Nothing
        } else {
            ScreenshotEffect::Open(windows)
        }
    }

    /// All pictures of the request hold exactly their pixels.
    pub open spec fn wf(self) -> bool {
        self.args matches Some(args) ==> args.wf()
    }

    /// Whether what is chosen can be captured.
    pub open spec fn capture_fits(self) -> bool {
        self.args matches Some(args) ==> (args.choice matches Choice::Rectangle(rect, _)
            ==> rect_fits(rect, args.output_images@, self.outputs.states@))
    }

    /// Whether what is chosen can be captured: sizes and memory set a limit to rectangles.
    pub fn can_capture(&self) -> (r: bool)
        requires
            self.wf(),
        ensures
            r == self.capture_fits(),
    {
        match &self.args {
            Some(args) => match &args.choice {
                Choice::Rectangle(rect, _) => rect_can_be_captured(
                    *rect,
                    &args.output_images,
                    &self.outputs.states,
                ),
                _ => true,
            },
            None => true,
        }
    }

    /// Captures what is chosen.
    fn capture(&mut self) -> (r: ScreenshotEffect)
        requires
            old(self).wf(),
            old(self).capture_fits(),
        ensures
            capture_step(*old(self), *final(self), r),
    {
        let windows = ids_of(&self.outputs.states);
        match self.args.take() {
            Some(args) => {
                let png = chosen_png(&args, &self.outputs.states);
                ScreenshotEffect::Captured(
                    Capture { windows, handle: args.handle, location: args.location, png },
                )
            },
            None => ScreenshotEffect::Close(windows),
        }
    }

    /// Sets another choice for the request that waits.
    fn set_choice(&mut self, choice: Choice)
        ensures
            *final(self) == with_choice(*old(self), choice),
    {
        if let Some(args) = &mut self.args {
            args.choice = choice;
        }
    }

    /// Takes up a choice of the user.
    fn choose_target(&mut self, choice: Choice) -> (r: ScreenshotEffect)
        ensures
            choice_step(*old(self), choice, *final(self), r),
    {
        let was_window = match &self.args {
            Some(args) => match &args.choice {
                Choice::Window(..) => true,
                _ => false,
            },
            None => false,
        };
        match &choice {
            Choice::Window(name, _) => {
                if !was_window {
                    clear_anchors(&mut self.outputs.states);
                    set_anchor(&mut self.outputs.states, name.as_str());
                }
            },
            _ => {
                clear_anchors(&mut self.outputs.states);
            },
        }
        let kept = choice.to_config();
        let mut dragging = false;
        let mut last_rectangle = self.config.last_rectangle;
        if let Choice::Rectangle(rect, state) = &choice {
            dragging = *state != DragState::Idle;
            last_rectangle = Some(*rect);
            self.outputs.prev_rectangle = Some(*rect);
        }
        let save_location = self.config.save_location;
        self.set_choice(choice);
        if dragging {
            ScreenshotEffect::Nothing
        } else {
            ScreenshotEffect::SaveConfig(Screenshot { save_location, choice: kept, last_rectangle })
        }
    }

    /// Takes up the choice of a place.
    fn choose_location(&mut self, i: usize) -> (r: ScreenshotEffect)
        ensures
            location_step(*old(self), i, *final(self), r),
    {
        match &mut self.args {
            Some(args) => {
                let location = if i == 0 {
                    ImageSaveLocation::Clipboard
                } else if i == 1 {
                    ImageSaveLocation::Pictures
                } else if i == 2 {
                    ImageSaveLocation::Documents
                } else {
                    args.location
                };
                args.location = location;
                let choice = ConfigChoice::take(&mut self.config.choice);
                ScreenshotEffect::SaveConfig(
                    Screenshot {
                        save_location: location,
                        choice,
                        last_rectangle: self.config.last_rectangle,
                    },
                )
            },
            None => ScreenshotEffect::Nothing,
        }
    }

    /// Does what the user wants.
    pub fn update_msg(&mut self, msg: Msg) -> (r: ScreenshotEffect)
        requires
            old(self).wf(),
            msg is Capture || msg is CaptureWithLocation ==> old(self).capture_fits(),
        ensures
            step(*old(self), msg, *final(self), r),
            final(self).wf(),
    {
        match msg {
            Msg::Capture => self.capture(),
            Msg::CaptureWithLocation(location) => {
                match &mut self.args {
                    Some(args) => {
                        args.location = location;
                    },
                    None => {
                        return ScreenshotEffect::Nothing;
                    },
                }
                self.capture()
            },
            Msg::Cancel => {
                let windows = ids_of(&self.outputs.states);
                match self.args.take() {
                    Some(args) => ScreenshotEffect::Cancelled { windows, handle: args.handle },
                    None => ScreenshotEffect::Close(windows),
                }
            },
            Msg::Choice(choice) => self.choose_target(choice),
            Msg::OutputChanged(output) => {
                if let Some(i) = find_output(&self.outputs.states, output) {
                    let name = self.outputs.states[i].name.clone();
                    self.set_choice(Choice::Output(name));
                }
                self.active_output = Some(output);
                ScreenshotEffect::Nothing
            },
            Msg::WindowChosen(name, i) => {
                self.set_choice(Choice::Window(name, Some(i)));
                self.capture()
            },
            Msg::Location(i) => self.choose_location(i),
        }
    }
}

/// Whether bytes are the file of a picture; none where the picture has none.
pub open spec fn is_file_of(png: Option<Vec<u8>>, picture: PictureView) -> bool {
    match png {
        Some(bytes) => png_file(picture.width, picture.height, picture.data) == Some(bytes@),
        None => png_file(picture.width, picture.height, picture.data) is None,
    }
}

/// The window that is picked is the window that is captured: the file is that of the picture at its
/// place among the windows of its output. A place where no window is gives no file.
pub proof fn law_picked_window_is_captured(
    pre: ScreenshotPortal,
    args: Args,
    name: String,
    i: usize,
    post: ScreenshotPortal,
    effect: ScreenshotEffect,
)
    requires
        pre.args == Some(args),
        step(pre, Msg::WindowChosen(name, i), post, effect),
    ensures
        effect matches ScreenshotEffect::Captured(capture) && {
            let windows = args.toplevel_images@;
            &&& windows.dom().contains(name@) && i < windows[name@]@.len() ==> is_file_of(
                capture.png,
                windows[name@]@[i as int].image@,
            )
            &&& !windows.dom().contains(name@) || i >= windows[name@]@.len() ==> capture.png is None
        },
{
}

/// Only the window that is picked matters: two requests that differ in other windows, and in the
/// pictures of the outputs, give the same file. Two windows whose files differ give different files.
pub proof fn law_other_windows_do_not_matter(
    one: ScreenshotPortal,
    one_args: Args,
    two: ScreenshotPortal,
    two_args: Args,
    name: String,
    i: usize,
    j: usize,
    one_post: ScreenshotPortal,
    one_effect: ScreenshotEffect,
    two_post: ScreenshotPortal,
    two_effect: ScreenshotEffect,
)
    requires
        one.args == Some(one_args),
        two.args == Some(two_args),
        one_args.toplevel_images@.dom().contains(name@),
        two_args.toplevel_images@.dom().contains(name@),
        i < one_args.toplevel_images@[name@]@.len(),
        j < two_args.toplevel_images@[name@]@.len(),
        step(one, Msg::WindowChosen(name, i), one_post, one_effect),
        step(two, Msg::WindowChosen(name, j), two_post, two_effect),
    ensures
        one_effect matches ScreenshotEffect::Captured(a) && two_effect matches
            ScreenshotEffect::Captured(b) && {
            let first = one_args.toplevel_images@[name@]@[i as int].image@;
            let second = two_args.toplevel_images@[name@]@[j as int].image@;
            &&& first == second ==> bytes_view(a.png) == bytes_view(b.png)
            &&& png_file(first.width, first.height, first.data) != png_file(
                second.width,
                second.height,
                second.data,
            ) ==> bytes_view(a.png) != bytes_view(b.png)
        },
{
}

/// What is chosen is what is captured: a window by its place, an output by its name. It makes no
/// difference whether the place to save it comes with the message.
pub proof fn law_choice_is_captured(
    pre: ScreenshotPortal,
    args: Args,
    msg: Msg,
    post: ScreenshotPortal,
    effect: ScreenshotEffect,
)
    requires
        pre.args == Some(args),
        msg is Capture || msg is CaptureWithLocation,
        step(pre, msg, post, effect),
    ensures
        effect matches ScreenshotEffect::Captured(capture) && {
            &&& args.choice matches Choice::Output(name) ==> {
                &&& args.output_images@.dom().contains(name@) ==> is_file_of(
                    capture.png,
                    args.output_images@[name@]@,
                )
                &&& !args.output_images@.dom().contains(name@) ==> capture.png is None
            }
            &&& args.choice matches Choice::Window(name, Some(i)) ==> {
                let windows = args.toplevel_images@;
                &&& windows.dom().contains(name@) && i < windows[name@]@.len() ==> is_file_of(
                    capture.png,
                    windows[name@]@[i as int].image@,
                )
                &&& !windows.dom().contains(name@) || i >= windows[name@]@.len()
                    ==> capture.png is None
            }
            &&& args.choice matches Choice::Window(_, None) ==> capture.png is None
            &&& args.choice matches Choice::Rectangle(rect, _) ==> (rect.left == rect.right
                || rect.top == rect.bottom ==> capture.png is None)
        },
{
}

/// A captured picture answers its request, goes to the place that was chosen for it, and closes the
/// window on each output. The place that comes with a message goes before the one that was chosen.
pub proof fn law_capture_goes_where_it_should(
    pre: ScreenshotPortal,
    args: Args,
    msg: Msg,
    post: ScreenshotPortal,
    effect: ScreenshotEffect,
    i: int,
)
    requires
        pre.args == Some(args),
        msg is Capture || msg is CaptureWithLocation || msg is WindowChosen,
        step(pre, msg, post, effect),
    ensures
        post.args is None,
        effect matches ScreenshotEffect::Captured(capture) && {
            &&& capture.handle == args.handle
            &&& msg matches Msg::CaptureWithLocation(location) ==> capture.location == location
            &&& !(msg is CaptureWithLocation) ==> capture.location == args.location
            &&& capture.windows@.len() == pre.outputs.states@.len()
            &&& 0 <= i < pre.outputs.states@.len() ==> capture.windows@[i]
                == pre.outputs.states@[i].id
        },
{
}

/// A request that is cancelled is answered as cancelled, and nothing is captured; without a request
/// the windows are closed all the same.
pub proof fn law_cancelling_captures_nothing(
    pre: ScreenshotPortal,
    post: ScreenshotPortal,
    effect: ScreenshotEffect,
    i: int,
)
    requires
        step(pre, Msg::Cancel, post, effect),
    ensures
        post.args is None,
        pre.args matches Some(args) ==> (effect matches ScreenshotEffect::Cancelled {
            windows,
            handle,
        } && handle == args.handle && windows@.len() == pre.outputs.states@.len() && (0 <= i
            < windows@.len() ==> windows@[i] == pre.outputs.states@[i].id)),
        pre.args is None ==> (effect matches ScreenshotEffect::Close(windows) && windows@.len()
            == pre.outputs.states@.len() && (0 <= i < windows@.len() ==> windows@[i]
            == pre.outputs.states@[i].id)),
{
}

/// A choice holds until the next one: what is captured after it is what was chosen.
pub proof fn law_choice_holds_until_the_capture(
    pre: ScreenshotPortal,
    args: Args,
    choice: Choice,
    between: ScreenshotPortal,
    effect: ScreenshotEffect,
    post: ScreenshotPortal,
    captured: ScreenshotEffect,
)
    requires
        pre.args == Some(args),
        step(pre, Msg::Choice(choice), between, effect),
        step(between, Msg::Capture, post, captured),
    ensures
        captured matches ScreenshotEffect::Captured(capture) && {
            &&& capture.handle == args.handle
            &&& capture.location == args.location
            &&& choice matches Choice::Output(name) ==> (args.output_images@.dom().contains(name@)
                ==> is_file_of(capture.png, args.output_images@[name@]@))
            &&& choice matches Choice::Window(name, Some(i)) ==> (
            args.toplevel_images@.dom().contains(name@) && i
                < args.toplevel_images@[name@]@.len() ==> is_file_of(
                capture.png,
                args.toplevel_images@[name@]@[i as int].image@,
            ))
        },
{
}

/// A choice is remembered for the next time, with the rectangle if it is one; not while a rectangle is
/// still dragged.
pub proof fn law_choice_is_remembered(
    pre: ScreenshotPortal,
    choice: Choice,
    post: ScreenshotPortal,
    effect: ScreenshotEffect,
)
    requires
        step(pre, Msg::Choice(choice), post, effect),
    ensures
        choice matches Choice::Rectangle(rect, state) ==> {
            &&& post.outputs.prev_rectangle == Some(rect)
            &&& state is Idle ==> (effect matches ScreenshotEffect::SaveConfig(kept)
                && kept.last_rectangle == Some(rect) && kept.choice is Rectangle)
            &&& !(state is Idle) ==> effect is Nothing
        },
        !(choice is Rectangle) ==> {
            &&& post.outputs.prev_rectangle == pre.outputs.prev_rectangle
            &&& effect matches ScreenshotEffect::SaveConfig(kept)
            &&& kept.last_rectangle == pre.config.last_rectangle
            &&& kept.save_location == pre.config.save_location
            &&& choice is Output ==> kept.choice is Output
            &&& choice is Window ==> kept.choice is Window
        },
        pre.args matches Some(args) ==> (post.args matches Some(new) && new.choice == choice
            && new.handle == args.handle),
{
}

/// The first place is the clipboard, the second the pictures, the third the documents. The place that
/// is chosen is the one where the picture goes, and it is remembered; another number changes nothing.
pub proof fn law_place_is_chosen_by_number(
    pre: ScreenshotPortal,
    args: Args,
    i: usize,
    between: ScreenshotPortal,
    effect: ScreenshotEffect,
    post: ScreenshotPortal,
    captured: ScreenshotEffect,
)
    requires
        pre.args == Some(args),
        step(pre, Msg::Location(i), between, effect),
        step(between, Msg::Capture, post, captured),
    ensures
        effect matches ScreenshotEffect::SaveConfig(kept) && captured matches
            ScreenshotEffect::Captured(capture) && {
            &&& kept.save_location == capture.location
            &&& i == 0 ==> capture.location is Clipboard
            &&& i == 1 ==> capture.location is Pictures
            &&& i == 2 ==> capture.location is Documents
            &&& i > 2 ==> capture.location == args.location
            &&& kept.choice == pre.config.choice
            &&& kept.last_rectangle == pre.config.last_rectangle
            &&& capture.handle == args.handle
        },
{
}

/// An output that the pointer moves to is the one that is captured next.
pub proof fn law_output_under_pointer_is_captured(
    pre: ScreenshotPortal,
    args: Args,
    k: int,
    between: ScreenshotPortal,
    effect: ScreenshotEffect,
    post: ScreenshotPortal,
    captured: ScreenshotEffect,
)
    requires
        pre.args == Some(args),
        0 <= k < pre.outputs.states@.len(),
        forall|a: int|
            0 <= a < k ==> (#[trigger] pre.outputs.states@[a]).output
                != pre.outputs.states@[k].output,
        step(pre, Msg::OutputChanged(pre.outputs.states@[k].output), between, effect),
        step(between, Msg::Capture, post, captured),
        args.output_images@.dom().contains(pre.outputs.states@[k].name@),
    ensures
        effect is Nothing,
        between.active_output == Some(pre.outputs.states@[k].output),
        captured matches ScreenshotEffect::Captured(capture) && is_file_of(
            capture.png,
            args.output_images@[pre.outputs.states@[k].name@]@,
        ),
{
    crate::app::law_output_is_found(pre.outputs.states@, k);
}

/// A later picture of a window takes the place of the earlier one: of the window with its number, the last
/// that came for it; a window for which none came keeps its picture.
pub proof fn law_later_picture_is_shown(
    windows: Seq<ToplevelView>,
    images: Seq<(usize, PictureView)>,
    i: int,
    k: int,
)
    requires
        0 <= i < windows.len(),
    ensures
        0 <= k < images.len() && images[k].0 == i && (forall|j: int|
            k < j < images.len() ==> (#[trigger] images[j]).0 != i) ==> replaced(
            windows,
            images,
        )[i].image == images[k].1,
        (forall|j: int| 0 <= j < images.len() ==> (#[trigger] images[j]).0 != i) ==> replaced(
            windows,
            images,
        )[i] == windows[i],
    decreases images.len(),
{
    if images.len() > 0 {
        let init = images.drop_last();
        law_later_picture_is_shown(windows, init, i, k);
        law_later_pictures_keep_windows(windows, init, i);
        if forall|j: int| 0 <= j < images.len() ==> (#[trigger] images[j]).0 != i {
            assert forall|j: int| 0 <= j < init.len() implies (#[trigger] init[j]).0 != i by {
                assert(init[j] == images[j]);
            }
            assert(images[images.len() - 1].0 != i);
        }
        if 0 <= k < init.len() && (forall|j: int|
            k < j < images.len() ==> (#[trigger] images[j]).0 != i) {
            assert forall|j: int| k < j < init.len() implies (#[trigger] init[j]).0 != i by {
                assert(init[j] == images[j]);
            }
            assert(images[images.len() - 1].0 != i);
        }
    }
}

/// Later pictures change the windows of their own output and of no other.
pub proof fn law_later_pictures_stay_on_their_output(
    windows: Map<Seq<char>, Seq<ToplevelView>>,
    images: Map<Seq<char>, Seq<(usize, PictureView)>>,
    name: Seq<char>,
)
    requires
        windows.dom().contains(name),
    ensures
        all_replaced(windows, images).dom() =~= windows.dom(),
        !images.dom().contains(name) ==> all_replaced(windows, images)[name] == windows[name],
        images.dom().contains(name) ==> all_replaced(windows, images)[name] == replaced(
            windows[name],
            images[name],
        ),
{
}

/// Every output has a picture and a list of windows in the end; those that had them before keep them.
pub proof fn law_every_output_is_shown(
    images: Map<Seq<char>, PictureView>,
    windows: Map<Seq<char>, Seq<ToplevelView>>,
    outputs: Seq<OutputState>,
    k: int,
    name: Seq<char>,
)
    ensures
        0 <= k < outputs.len() ==> all_pictured(images, outputs).dom().contains(outputs[k].name@)
            && all_listed(windows, outputs).dom().contains(outputs[k].name@),
        images.dom().contains(name) ==> all_pictured(images, outputs).dom().contains(name)
            && all_pictured(images, outputs)[name] == images[name],
        windows.dom().contains(name) ==> all_listed(windows, outputs).dom().contains(name)
            && all_listed(windows, outputs)[name] == windows[name],
        !windows.dom().contains(name) && all_listed(windows, outputs).dom().contains(name)
            ==> all_listed(windows, outputs)[name].len() == 0,
    decreases outputs.len(),
{
    if outputs.len() > 0 {
        let init = outputs.drop_last();
        law_every_output_is_shown(images, windows, init, k, name);
        if 0 <= k < init.len() {
            assert(init[k] == outputs[k]);
        }
    }
}

/// When a request begins, the pointer is on the output that the compositor names, at its place, and on no
/// other; it is kept as an anchor where windows are chosen. An output shows its own wallpaper where there
/// is one. Nothing else of the outputs changes.
pub proof fn law_outputs_begin_with_their_pointer(
    outputs: Seq<OutputState>,
    pointer: PointerSnapshot,
    of_window: bool,
    wallpapers: Seq<Seq<char>>,
    i: int,
)
    requires
        0 <= i < outputs.len(),
        wallpapers.len() <= usize::MAX,
    ensures
        ({
            let after = all_begun(outputs, Some(pointer), of_window, wallpapers);
            let here = pointer.output@ == outputs[i].name@;
            &&& after.len() == outputs.len()
            &&& after[i].has_pointer <==> here
            &&& here ==> after[i].pointer_position == Some(pointer.position)
            &&& !here ==> after[i].pointer_position is None
            &&& of_window && here ==> after[i].window_pointer_anchor == Some(pointer.position)
            &&& !of_window || !here ==> after[i].window_pointer_anchor is None
            &&& wallpapers.contains(outputs[i].name@) ==> (after[i].bg_source matches Some(
                BgSource::Wallpaper(w),
            ) && w < wallpapers.len() && wallpapers[w as int] == outputs[i].name@)
            &&& !wallpapers.contains(outputs[i].name@) ==> after[i].bg_source == Some(
                BgSource::Fallback,
            )
            &&& after[i].id == outputs[i].id && after[i].output == outputs[i].output
            &&& after[i].name == outputs[i].name && after[i].logical_pos == outputs[i].logical_pos
            &&& !all_begun(outputs, None, of_window, wallpapers)[i].has_pointer
        }),
{
    crate::seqs::lemma_first_position_of(wallpapers, outputs[i].name@);
}

/// An anchor is where the pointer was when the choice turned to the windows of its output; it stays while
/// windows are chosen and goes with another choice.
pub proof fn law_anchor_is_where_the_pointer_was(outputs: Seq<OutputState>, choice: Choice, i: int)
    requires
        0 <= i < outputs.len(),
    ensures
        choice !is Window ==> anchored(outputs, true, choice)[i].window_pointer_anchor is None
            && anchored(outputs, false, choice)[i].window_pointer_anchor is None,
        choice is Window ==> anchored(outputs, true, choice) == outputs,
        choice matches Choice::Window(name, _) ==> (outputs[i].name@ == name@ && outputs[i].has_pointer
            && (forall|j: int| 0 <= j < i ==> !((#[trigger] outputs[j]).name@ == name@
            && outputs[j].has_pointer)) ==> anchored(outputs, false, choice)[i].window_pointer_anchor
            == outputs[i].pointer_position),
        choice matches Choice::Window(name, _) ==> (outputs[i].name@ != name@ ==> anchored(
            outputs,
            false,
            choice,
        )[i].window_pointer_anchor is None),
{
    if let Choice::Window(name, _) = choice {
        lemma_anchor_at(without_anchors(outputs), name@, i);
        if forall|j: int|
            0 <= j < i ==> !((#[trigger] outputs[j]).name@ == name@ && outputs[j].has_pointer) {
            assert forall|j: int| 0 <= j < i implies !((#[trigger] without_anchors(outputs)[j]).name@
                == name@ && without_anchors(outputs)[j].has_pointer) by {
                assert(!(outputs[j].name@ == name@ && outputs[j].has_pointer));
            }
        }
    }
}

/// The first output with a name and the pointer on it is anchored, and no output with another name.
proof fn lemma_anchor_at(outputs: Seq<OutputState>, name: Seq<char>, i: int)
    requires
        0 <= i < outputs.len(),
    ensures
        outputs[i].name@ == name && outputs[i].has_pointer && (forall|j: int|
            0 <= j < i ==> !((#[trigger] outputs[j]).name@ == name && outputs[j].has_pointer))
            ==> with_anchor(outputs, name)[i].window_pointer_anchor == outputs[i].pointer_position,
        outputs[i].name@ != name ==> with_anchor(outputs, name)[i] == outputs[i],
    decreases outputs.len(),
{
    if outputs[0].name@ == name && outputs[0].has_pointer {
        assert(i > 0 ==> with_anchor(outputs, name)[i] == outputs[i]);
    } else if i > 0 {
        let rest = outputs.skip(1);
        lemma_anchor_at(rest, name, i - 1);
        lemma_anchor_keeps_outputs(rest, name, i - 1);
        assert(rest[i - 1] == outputs[i]);
        assert(with_anchor(outputs, name)[i] == with_anchor(rest, name)[i - 1]);
        if forall|j: int|
            0 <= j < i ==> !((#[trigger] outputs[j]).name@ == name && outputs[j].has_pointer) {
            assert forall|j: int| 0 <= j < i - 1 implies !((#[trigger] rest[j]).name@ == name
                && rest[j].has_pointer) by {
                assert(rest[j] == outputs[j + 1]);
            }
        }
    }
}

} // verus!
