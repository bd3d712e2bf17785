//! Requests for a screenshot: how they are taken up, and how they are answered.

use crate::config::screenshot::{Choice as ConfigChoice, ChoiceView as ConfigChoiceView};
use crate::config::screenshot::{ImageSaveLocation, Screenshot};
use crate::portal::PortalResponse;
use crate::screenshot::capture::{output_views, Output, OutputView};
use crate::screenshot::compose::{bounds_of, output_rect, rect_of_output, union_bounds, Frame};
use crate::screenshot::geometry::Rect;
use crate::screenshot::picture::Picture;
use crate::text::{concat, str_eq, str_eq_ignore_ascii_case, eq_ignore_ascii_case};
use crate::widget::rectangle_selection::DragState;
use vstd::prelude::*;

verus! {

/// What a client asks for.
#[derive(Debug, Clone, Copy, PartialEq, Eq, Structural)]
pub struct ScreenshotOptions {
    pub modal: Option<bool>,
    pub interactive: Option<bool>,
    /// Whether the user shall choose where the screenshot goes. Without a word the user does not.
    pub choose_destination: Option<bool>,
}

/// What a client gets.
#[derive(Debug, PartialEq, Eq)]
pub struct ScreenshotResult {
    /// Where the screenshot is.
    pub uri: String,
}

/// A picture for the clipboard.
#[derive(Debug, PartialEq, Eq)]
pub struct ScreenshotBytes {
    pub bytes: Vec<u8>,
}

impl ScreenshotBytes {
    /// The bytes of a PNG file for the clipboard.
    pub fn new(bytes: Vec<u8>) -> (r: Self)
        ensures
            r.bytes == bytes,
    {
        ScreenshotBytes { bytes }
    }
}

/// What a screenshot is taken of.
#[derive(Debug, PartialEq, Eq)]
pub enum Choice {
    /// A whole output.
    Output(String),
    /// A rectangle, which is dragged at a corner or an edge.
    Rectangle(Rect, DragState),
    /// A window of an output, once one was picked.
    Window(String, Option<usize>),
}

/// What a screenshot is taken of, as a value.
pub enum ChoiceView {
    Output(Seq<char>),
    Rectangle(Rect, DragState),
    Window(Seq<char>, Option<usize>),
}

impl View for Choice {
    type V = ChoiceView;

    open spec fn view(&self) -> ChoiceView {
        match self {
            Choice::Output(name) => ChoiceView::Output(name@),
            Choice::Rectangle(rect, state) => ChoiceView::Rectangle(*rect, *state),
            Choice::Window(name, index) => ChoiceView::Window(name@, *index),
        }
    }
}

impl Clone for Choice {
    fn clone(&self) -> (r: Self)
        ensures
            r == *self,
    {
        match self {
            Choice::Output(name) => Choice::Output(name.clone()),
            Choice::Rectangle(rect, state) => Choice::Rectangle(*rect, *state),
            Choice::Window(name, index) => Choice::Window(name.clone(), *index),
        }
    }
}

impl Choice {
    /// What is kept of a choice for the next time.
    pub open spec fn kept(self) -> ConfigChoice {
        match self {
            Choice::Output(name) => ConfigChoice::Output(Some(name)),
            Choice::Rectangle(..) => ConfigChoice::Rectangle,
            Choice::Window(..) => ConfigChoice::Window,
        }
    }

    /// What is kept of a choice for the next time.
    pub fn to_config(&self) -> (r: ConfigChoice)
        ensures
            r == self.kept(),
    {
        match self {
            Choice::Output(name) => ConfigChoice::Output(Some(name.clone())),
            Choice::Rectangle(..) => ConfigChoice::Rectangle,
            Choice::Window(..) => ConfigChoice::Window,
        }
    }
}

/// What is done with a screenshot.
#[derive(Debug, PartialEq, Eq)]
pub enum Action {
    ReturnPath,
    SaveToClipboard,
    SaveToPictures,
    SaveToDocuments,
    ChooseFolder,
    Choice(Choice),
}

impl Default for Action {
    fn default() -> (r: Self)
        ensures
            r == Action::ReturnPath,
    {
        Action::ReturnPath
    }
}

/// Whether an output has a name.
pub open spec fn has_output(outputs: Seq<OutputView>, name: Seq<char>) -> bool {
    exists|i: int| 0 <= i < outputs.len() && (#[trigger] outputs[i]).name == name
}

/// What the screenshot is taken of at first: what was kept, on the first output where the kept one
/// is not there.
pub open spec fn initial_choice(
    kept: ConfigChoiceView,
    last_rectangle: Option<Rect>,
    outputs: Seq<OutputView>,
) -> ChoiceView {
    match kept {
        ConfigChoiceView::Output(Some(name)) => if has_output(outputs, name) {
            ChoiceView::Output(name)
        } else {
            ChoiceView::Output(outputs[0].name)
        },
        ConfigChoiceView::Output(None) => ChoiceView::Output(outputs[0].name),
        ConfigChoiceView::Rectangle => ChoiceView::Rectangle(
            match last_rectangle {
                Some(rect) => rect,
                None => Rect { left: 0, top: 0, right: 0, bottom: 0 },
            },
            DragState::Idle,
        ),
        ConfigChoiceView::Window => ChoiceView::Window(outputs[0].name, None),
    }
}

/// How a request is taken up.
#[derive(Debug)]
pub enum ScreenshotPlan {
    /// There is no output: the request fails.
    Refuse,
    /// The user chooses, beginning with this.
    Interactive { choice: Choice, action: Action, location: ImageSaveLocation },
    /// All outputs are captured at once.
    Direct,
}

/// Whether an output has a name.
fn names_output(outputs: &Vec<Output>, name: &str) -> (r: bool)
    ensures
        r == has_output(output_views(outputs@), name@),
{
    let ghost all = output_views(outputs@);
    let mut i: usize = 0;
    while i < outputs.len()
        invariant
            i <= outputs@.len(),
            all == output_views(outputs@),
            forall|j: int| 0 <= j < i ==> (#[trigger] all[j]).name != name@,
        decreases outputs@.len() - i,
    {
        assert(all[i as int] == outputs@[i as int]@);
        if str_eq(outputs[i].name.as_str(), name) {
            return true;
        }
        i = i + 1;
    }
    false
}

/// What the screenshot is taken of at first.
pub fn first_choice(config: &Screenshot, outputs: &Vec<Output>) -> (r: Choice)
    requires
        outputs@.len() > 0,
    ensures
        r@ == initial_choice(config.choice@, config.last_rectangle, output_views(outputs@)),
{
    assert(output_views(outputs@)[0] == outputs@[0]@);
    match &config.choice {
        ConfigChoice::Output(Some(name)) => if names_output(outputs, name.as_str()) {
            Choice::Output(name.clone())
        } else {
            Choice::Output(outputs[0].name.clone())
        },
        ConfigChoice::Output(None) => Choice::Output(outputs[0].name.clone()),
        ConfigChoice::Rectangle => {
            let rect = match config.last_rectangle {
                Some(rect) => rect,
                None => Rect::default(),
            };
            Choice::Rectangle(rect, DragState::default())
        },
        ConfigChoice::Window => Choice::Window(outputs[0].name.clone(), None),
    }
}

/// Takes up a request.
pub fn plan_screenshot(
    config: &Screenshot,
    options: ScreenshotOptions,
    outputs: &Vec<Output>,
) -> (r: ScreenshotPlan)
    ensures
        if outputs@.len() == 0 {
            r == ScreenshotPlan::Refuse
        } else if options.interactive == Some(true) {
            &&& r matches ScreenshotPlan::Interactive { choice, action, location }
            &&& choice@ == initial_choice(
                config.choice@,
                config.last_rectangle,
                output_views(outputs@),
            )
            &&& action == if options.choose_destination == Some(true) {
                Action::SaveToClipboard
            } else {
                Action::ReturnPath
            }
            &&& location == config.save_location
        } else {
            r == ScreenshotPlan::Direct
        },
{
    if outputs.len() == 0 {
        return ScreenshotPlan::Refuse;
    }
    match options.interactive {
        Some(true) => {
            let action = match options.choose_destination {
                Some(true) => Action::SaveToClipboard,
                _ => Action::ReturnPath,
            };
            ScreenshotPlan::Interactive {
                choice: first_choice(config, outputs),
                action,
                location: config.save_location,
            }
        },
        _ => ScreenshotPlan::Direct,
    }
}

/// The rectangles of the outputs.
pub open spec fn output_rects(outputs: Seq<Output>) -> Seq<Rect> {
    outputs.map_values(|output: Output| output_rect(output.logical_position, output.logical_size))
}

/// The smallest rectangle that holds all outputs.
pub fn whole_bounds(outputs: &Vec<Output>) -> (r: Rect)
    ensures
        r == bounds_of(output_rects(outputs@)),
{
    let mut rects: Vec<Rect> = Vec::new();
    let mut i: usize = 0;
    while i < outputs.len()
        invariant
            i <= outputs@.len(),
            rects@ == output_rects(outputs@).take(i as int),
        decreases outputs@.len() - i,
    {
        let rect = rect_of_output(outputs[i].logical_position, outputs[i].logical_size);
        rects.push(rect);
        proof {
            assert(rects@ =~= output_rects(outputs@).take(i + 1));
        }
        i = i + 1;
    }
    proof {
        assert(rects@ =~= output_rects(outputs@));
    }
    union_bounds(&rects)
}

/// The pictures of the outputs, each with the rectangle that its output takes.
pub fn whole_frames(outputs: &Vec<Output>, pictures: Vec<Picture>) -> (r: Vec<Frame>)
    requires
        outputs@.len() == pictures@.len(),
    ensures
        r@.len() == outputs@.len(),
        forall|i: int|
            0 <= i < r@.len() ==> (#[trigger] r@[i]).picture == pictures@[i] && r@[i].rect
                == output_rects(outputs@)[i],
{
    let ghost all = pictures@;
    let mut r: Vec<Frame> = Vec::new();
    for picture in it: pictures
        invariant
            it.seq() == all,
            outputs@.len() == all.len(),
            r@.len() == it.index(),
            forall|i: int|
                0 <= i < r@.len() ==> (#[trigger] r@[i]).picture == all[i] && r@[i].rect
                    == output_rects(outputs@)[i],
    {
        let i: usize = r.len();
        let rect = rect_of_output(outputs[i].logical_position, outputs[i].logical_size);
        r.push(Frame { picture, rect });
    }
    r
}

/// The address of a file.
pub open spec fn file_uri_of(path: Seq<char>) -> Seq<char> {
    "file:///"@ + path
}

/// The address of a file.
fn file_uri(path: &str) -> (r: String)
    ensures
        r@ == file_uri_of(path@),
{
    concat("file:///", path)
}

/// The answer to a request that was taken up at once: where the file is, if one was made.
pub fn direct_response(path: Option<&str>) -> (r: PortalResponse<ScreenshotResult>)
    ensures
        match path {
            Some(path) => r matches PortalResponse::Success(result) && result.uri@ == file_uri_of(
                path@,
            ),
            None => r == PortalResponse::<ScreenshotResult>::Other,
        },
{
    match path {
        Some(path) => PortalResponse::Success(ScreenshotResult { uri: file_uri(path) }),
        None => PortalResponse::Other,
    }
}

/// The answer when the user has captured a picture: where the file is, or that it is on the
/// clipboard. A picture that could not be saved fails.
pub fn capture_response(saved: bool, path: Option<&str>) -> (r: PortalResponse<ScreenshotResult>)
    ensures
        if saved {
            r matches PortalResponse::Success(result) && result.uri@ == match path {
                Some(path) => file_uri_of(path@),
                None => "clipboard:///"@,
            }
        } else {
            r == PortalResponse::<ScreenshotResult>::Other
        },
{
    if saved {
        let uri = match path {
            Some(path) => file_uri(path),
            None => "clipboard:///".to_owned(),
        };
        PortalResponse::Success(ScreenshotResult { uri })
    } else {
        PortalResponse::Other
    }
}

/// The directory for a screenshot: one that is known, and what is below it.
#[derive(Debug, Clone, Copy, PartialEq, Eq, Structural)]
pub enum ImageDir {
    /// The directory that the environment names for screenshots.
    Environment,
    /// `Screenshots` in the directory for pictures.
    PicturesScreenshots,
    /// `Pictures/Screenshots` in the home directory.
    HomePicturesScreenshots,
    /// The directory for documents.
    Documents,
    /// `Documents` in the home directory.
    HomeDocuments,
}

/// The directories that there are.
#[derive(Debug, Clone, Copy, PartialEq, Eq, Structural)]
pub struct KnownDirs {
    /// The environment names a directory for screenshots, from the root on.
    pub environment: bool,
    pub pictures: bool,
    pub documents: bool,
    pub home: bool,
}

/// The directory for a screenshot; none for one that goes to the clipboard.
pub fn image_dir(location: ImageSaveLocation, known: KnownDirs) -> (r: Option<ImageDir>)
    ensures
        r == match location {
            ImageSaveLocation::Pictures => if known.environment {
                Some(ImageDir::Environment)
            } else if known.pictures {
                Some(ImageDir::PicturesScreenshots)
            } else if known.home {
                Some(ImageDir::HomePicturesScreenshots)
            } else {
                None
            },
            ImageSaveLocation::Documents => if known.documents {
                Some(ImageDir::Documents)
            } else if known.home {
                Some(ImageDir::HomeDocuments)
            } else {
                None
            },
            ImageSaveLocation::Clipboard => None,
        },
{
    match location {
        ImageSaveLocation::Pictures => if known.environment {
            Some(ImageDir::Environment)
        } else if known.pictures {
            Some(ImageDir::PicturesScreenshots)
        } else if known.home {
            Some(ImageDir::HomePicturesScreenshots)
        } else {
            None
        },
        ImageSaveLocation::Documents => if known.documents {
            Some(ImageDir::Documents)
        } else if known.home {
            Some(ImageDir::HomeDocuments)
        } else {
            None
        },
        ImageSaveLocation::Clipboard => None,
    }
}

/// A key.
#[derive(Debug, PartialEq, Eq)]
pub enum Key {
    Copy,
    Save,
    Enter,
    Escape,
    Character(String),
    Other,
}

/// What a key does.
#[derive(Debug, Clone, Copy, PartialEq, Eq, Structural)]
pub enum KeyAction {
    Capture,
    CaptureWithLocation(ImageSaveLocation),
    Cancel,
}

/// What a key does with the control key held down or not.
pub open spec fn key_action(key: Key, control: bool) -> Option<KeyAction> {
    match key {
        Key::Copy => if control {
            Some(KeyAction::CaptureWithLocation(ImageSaveLocation::Clipboard))
        } else {
            None
        },
        Key::Save => if control {
            Some(KeyAction::CaptureWithLocation(ImageSaveLocation::Pictures))
        } else {
            None
        },
        Key::Character(value) => if control && eq_ignore_ascii_case(value@, "c"@) {
            Some(KeyAction::CaptureWithLocation(ImageSaveLocation::Clipboard))
        } else if control && eq_ignore_ascii_case(value@, "s"@) {
            Some(KeyAction::CaptureWithLocation(ImageSaveLocation::Pictures))
        } else {
            None
        },
        Key::Enter => Some(KeyAction::Capture),
        Key::Escape => Some(KeyAction::Cancel),
        Key::Other => None,
    }
}

/// What a key does with the control key held down or not.
pub fn on_key(key: &Key, control: bool) -> (r: Option<KeyAction>)
    ensures
        r == key_action(*key, control),
{
    if control {
        match key {
            Key::Copy => {
                return Some(KeyAction::CaptureWithLocation(ImageSaveLocation::Clipboard));
            },
            Key::Save => {
                return Some(KeyAction::CaptureWithLocation(ImageSaveLocation::Pictures));
            },
            Key::Character(value) => {
                if str_eq_ignore_ascii_case(value.as_str(), "c") {
                    return Some(KeyAction::CaptureWithLocation(ImageSaveLocation::Clipboard));
                } else if str_eq_ignore_ascii_case(value.as_str(), "s") {
                    return Some(KeyAction::CaptureWithLocation(ImageSaveLocation::Pictures));
                }
            },
            _ => {},
        }
    }
    match key {
        Key::Enter => Some(KeyAction::Capture),
        Key::Escape => Some(KeyAction::Cancel),
        _ => None,
    }
}

/// The key for copying and the letter C capture into the clipboard, the key for saving and the letter S
/// into the folder of pictures, all of them with the control key alone; Enter captures and Escape cancels
/// with it or without.
pub proof fn law_keys_capture_where_they_say(key: Key, control: bool)
    ensures
        key_action(key, control) == Some(KeyAction::Cancel) <==> key is Escape,
        key_action(key, control) == Some(KeyAction::Capture) <==> key is Enter,
        key_action(key, control) == Some(
            KeyAction::CaptureWithLocation(ImageSaveLocation::Clipboard),
        ) <==> control && (key is Copy || (key matches Key::Character(value) && eq_ignore_ascii_case(
            value@,
            "c"@,
        ))),
        key is Save && control ==> key_action(key, control) == Some(
            KeyAction::CaptureWithLocation(ImageSaveLocation::Pictures),
        ),
        key matches Key::Character(value) ==> (control && eq_ignore_ascii_case(value@, "s"@)
            && !eq_ignore_ascii_case(value@, "c"@) ==> key_action(key, control) == Some(
            KeyAction::CaptureWithLocation(ImageSaveLocation::Pictures),
        )),
        !control && !(key is Enter) && !(key is Escape) ==> key_action(key, control) is None,
{
}

/// What was captured last is proposed again: a window, the last rectangle, or the output of that name
/// where it is still there; the first output takes its place where it is not.
pub proof fn law_last_choice_is_proposed(
    last: Choice,
    last_rectangle: Option<Rect>,
    outputs: Seq<OutputView>,
    k: int,
    rect: Rect,
)
    ensures
        last is Window ==> initial_choice(last.kept()@, last_rectangle, outputs)
            == ChoiceView::Window(outputs[0].name, None),
        last is Rectangle ==> initial_choice(last.kept()@, Some(rect), outputs)
            == ChoiceView::Rectangle(rect, DragState::Idle),
        last is Rectangle ==> (initial_choice(last.kept()@, None, outputs) matches ChoiceView::Rectangle(
            none,
            state,
        ) && none.left == none.right && none.top == none.bottom && state is Idle),
        last matches Choice::Output(name) ==> {
            &&& 0 <= k < outputs.len() && outputs[k].name == name@ ==> initial_choice(
                last.kept()@,
                last_rectangle,
                outputs,
            ) == ChoiceView::Output(outputs[k].name)
            &&& (forall|i: int| 0 <= i < outputs.len() ==> (#[trigger] outputs[i]).name != name@)
                ==> initial_choice(last.kept()@, last_rectangle, outputs) == ChoiceView::Output(
                outputs[0].name,
            )
        },
{
}

} // verus!
