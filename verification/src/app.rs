//! The outputs that the portal shows its windows on, and what it tells of changes of the theme.

use crate::portal::Color;
use crate::screencast::dialog::DialogKey;
use crate::screenshot::capture::OutputInfo;
use crate::screenshot::geometry::{Point, Rect};
use crate::screenshot::session::Msg;
use vstd::prelude::*;

verus! {

/// The picture in the background of an output.
#[derive(Debug, Clone, Copy, PartialEq, Eq, Structural)]
pub enum BgSource {
    /// The wallpaper at this position in the list of wallpapers.
    Wallpaper(usize),
    /// The picture that is there when no wallpaper is set.
    Fallback,
}

/// The picture that is there when no wallpaper is set.
pub const FALLBACK_BACKGROUND: &'static str =
    "/usr/share/backgrounds/cosmic/orion_nebula_nasa_heic0601a.jpg";

/// An output, with what is known of the pointer on it.
#[derive(Debug)]
pub struct OutputState {
    /// The number by which the output is told from others.
    pub output: u64,
    /// The number of the window on the output.
    pub id: u64,
    pub name: String,
    pub logical_size: (u32, u32),
    pub logical_pos: (i32, i32),
    pub has_pointer: bool,
    pub pointer_position: Option<Point>,
    /// Where the pointer was when the choice of windows was opened.
    pub window_pointer_anchor: Option<Point>,
    pub bg_source: Option<BgSource>,
}

/// What became of an output.
#[derive(Debug)]
pub enum OutputEvent {
    Created(Option<OutputInfo>),
    Removed,
    InfoUpdate(OutputInfo),
}

/// Whether name, size and position of an output are known.
pub open spec fn is_complete(info: OutputInfo) -> bool {
    info.name is Some && info.logical_size is Some && info.logical_position is Some
}

/// The first position of an output.
pub open spec fn output_position(outputs: Seq<OutputState>, output: u64) -> Option<int>
    decreases outputs.len(),
{
    if outputs.len() == 0 {
        None
    } else {
        match output_position(outputs.drop_last(), output) {
            Some(i) => Some(i),
            None => if outputs.last().output == output {
                Some(outputs.len() - 1)
            } else {
                None
            },
        }
    }
}

/// The outputs without one of them.
pub open spec fn without_output(outputs: Seq<OutputState>, output: u64) -> Seq<OutputState>
    decreases outputs.len(),
{
    if outputs.len() == 0 {
        Seq::empty()
    } else {
        let rest = without_output(outputs.drop_last(), output);
        if outputs.last().output == output {
            rest
        } else {
            rest.push(outputs.last())
        }
    }
}

/// A number as one without sign.
pub open spec fn unsigned_pair(pair: (i32, i32)) -> (u32, u32) {
    (pair.0 as u32, pair.1 as u32)
}

/// An output that has just come, with the number of the window that will be on it.
pub open spec fn fresh_output(info: OutputInfo, output: u64, id: u64) -> OutputState {
    OutputState {
        output,
        id,
        name: info.name->0,
        logical_size: unsigned_pair(info.logical_size->0),
        logical_pos: info.logical_position->0,
        has_pointer: false,
        pointer_position: None,
        window_pointer_anchor: None,
        bg_source: None,
    }
}

/// An output with what is newly known of it.
pub open spec fn refreshed(state: OutputState, info: OutputInfo) -> OutputState {
    OutputState {
        name: info.name->0,
        logical_size: unsigned_pair(info.logical_size->0),
        logical_pos: info.logical_position->0,
        ..state
    }
}

/// The outputs after an event. What is not completely known changes nothing.
pub open spec fn outputs_after(
    outputs: Seq<OutputState>,
    output: u64,
    event: OutputEvent,
    id: u64,
) -> Seq<OutputState> {
    match event {
        OutputEvent::Created(Some(info)) => if is_complete(info) {
            outputs.push(fresh_output(info, output, id))
        } else {
            outputs
        },
        OutputEvent::Created(None) => outputs,
        OutputEvent::Removed => without_output(outputs, output),
        OutputEvent::InfoUpdate(info) => if is_complete(info) {
            match output_position(outputs, output) {
                Some(i) => outputs.update(i, refreshed(outputs[i], info)),
                None => outputs.push(fresh_output(info, output, id)),
            }
        } else {
            outputs
        },
    }
}

/// The far edge of an output.
pub open spec fn far_edge(near: i32, size: u32) -> int {
    near + size as i32
}

/// Whether the far edges of an output are numbers.
pub open spec fn edges_fit(output: OutputState) -> bool {
    &&& i32::MIN <= far_edge(output.logical_pos.0, output.logical_size.0) <= i32::MAX
    &&& i32::MIN <= far_edge(output.logical_pos.1, output.logical_size.1) <= i32::MAX
}

/// The rectangle that an output takes.
pub open spec fn state_rect(output: OutputState) -> Rect {
    Rect {
        left: output.logical_pos.0,
        top: output.logical_pos.1,
        right: far_edge(output.logical_pos.0, output.logical_size.0) as i32,
        bottom: far_edge(output.logical_pos.1, output.logical_size.1) as i32,
    }
}

/// The smallest rectangle that holds the origin and all outputs.
pub open spec fn desktop_rect(outputs: Seq<OutputState>) -> Rect
    decreases outputs.len(),
{
    if outputs.len() == 0 {
        Rect { left: 0, top: 0, right: 0, bottom: 0 }
    } else {
        desktop_rect(outputs.drop_last()).union(state_rect(outputs.last()))
    }
}

/// The rectangle that an output takes.
pub fn rect_of_state(output: &OutputState) -> (r: Rect)
    requires
        edges_fit(*output),
    ensures
        r == state_rect(*output),
{
    let width: i32 = output.logical_size.0 as i32;
    let height: i32 = output.logical_size.1 as i32;
    Rect {
        left: output.logical_pos.0,
        top: output.logical_pos.1,
        right: output.logical_pos.0 + width,
        bottom: output.logical_pos.1 + height,
    }
}

/// Whether the far edges of an output are numbers.
pub fn has_fitting_edges(output: &OutputState) -> (r: bool)
    ensures
        r == edges_fit(*output),
{
    let right: i64 = output.logical_pos.0 as i64 + (output.logical_size.0 as i32) as i64;
    let bottom: i64 = output.logical_pos.1 as i64 + (output.logical_size.1 as i32) as i64;
    let least: i64 = i32::MIN as i64;
    let greatest: i64 = i32::MAX as i64;
    least <= right && right <= greatest && least <= bottom && bottom <= greatest
}

/// The smallest rectangle that holds the origin and all outputs.
pub fn whole_desktop(outputs: &Vec<OutputState>) -> (r: Rect)
    requires
        forall|i: int| 0 <= i < outputs@.len() ==> edges_fit(#[trigger] outputs@[i]),
    ensures
        r == desktop_rect(outputs@),
{
    let mut rect = Rect::default();
    let mut i: usize = 0;
    proof {
        assert(outputs@.take(0) =~= Seq::<OutputState>::empty());
    }
    while i < outputs.len()
        invariant
            i <= outputs@.len(),
            forall|j: int| 0 <= j < outputs@.len() ==> edges_fit(#[trigger] outputs@[j]),
            rect == desktop_rect(outputs@.take(i as int)),
        decreases outputs@.len() - i,
    {
        proof {
            assert(outputs@.take(i + 1).drop_last() =~= outputs@.take(i as int));
            assert(outputs@.take(i + 1).last() == outputs@[i as int]);
        }
        rect = rect.joined(rect_of_state(&outputs[i]));
        i = i + 1;
    }
    proof {
        assert(outputs@.take(outputs@.len() as int) =~= outputs@);
    }
    rect
}

/// Every output lies in the rectangle of the desktop.
pub proof fn law_desktop_holds_outputs(outputs: Seq<OutputState>, i: int)
    requires
        0 <= i < outputs.len(),
    ensures
        desktop_rect(outputs).left <= state_rect(outputs[i]).left,
        desktop_rect(outputs).top <= state_rect(outputs[i]).top,
        state_rect(outputs[i]).right <= desktop_rect(outputs).right,
        state_rect(outputs[i]).bottom <= desktop_rect(outputs).bottom,
    decreases outputs.len(),
{
    if i < outputs.len() - 1 {
        law_desktop_holds_outputs(outputs.drop_last(), i);
        assert(outputs.drop_last()[i] == outputs[i]);
    }
}

/// The first position of an output.
pub fn find_output(outputs: &Vec<OutputState>, output: u64) -> (r: Option<usize>)
    ensures
        match r {
            Some(i) => i < outputs@.len() && output_position(outputs@, output) == Some(i as int)
                && outputs@[i as int].output == output,
            None => output_position(outputs@, output) is None,
        },
{
    let mut i: usize = 0;
    proof {
        assert(outputs@.take(0) =~= Seq::<OutputState>::empty());
    }
    while i < outputs.len()
        invariant
            i <= outputs@.len(),
            output_position(outputs@.take(i as int), output) is None,
        decreases outputs@.len() - i,
    {
        proof {
            assert(outputs@.take(i + 1).drop_last() =~= outputs@.take(i as int));
            assert(outputs@.take(i + 1).last() == outputs@[i as int]);
        }
        if outputs[i].output == output {
            proof {
                lemma_position_in_prefix(outputs@, output, i + 1);
            }
            return Some(i);
        }
        i = i + 1;
    }
    proof {
        assert(outputs@.take(outputs@.len() as int) =~= outputs@);
    }
    None
}

/// A position in a prefix is the position in the whole.
proof fn lemma_position_in_prefix(outputs: Seq<OutputState>, output: u64, n: int)
    requires
        0 <= n <= outputs.len(),
        output_position(outputs.take(n), output) is Some,
    ensures
        output_position(outputs, output) == output_position(outputs.take(n), output),
    decreases outputs.len(),
{
    if n < outputs.len() {
        assert(outputs.drop_last().take(n) =~= outputs.take(n));
        lemma_position_in_prefix(outputs.drop_last(), output, n);
    } else {
        assert(outputs.take(n) =~= outputs);
    }
}

/// The outputs without one of them.
fn remove_output(outputs: Vec<OutputState>, output: u64) -> (r: Vec<OutputState>)
    ensures
        r@ == without_output(outputs@, output),
{
    let ghost all = outputs@;
    let mut r: Vec<OutputState> = Vec::new();
    proof {
        assert(all.take(0) =~= Seq::<OutputState>::empty());
    }
    for state in it: outputs
        invariant
            it.seq() == all,
            r@ == without_output(all.take(it.index() as int), output),
    {
        proof {
            let i = it.index() as int;
            assert(all.take(i + 1).drop_last() =~= all.take(i));
            assert(all.take(i + 1).last() == all[i]);
        }
        if state.output != output {
            r.push(state);
        }
    }
    proof {
        assert(all.take(all.len() as int) =~= all);
    }
    r
}

/// The outputs and the rectangle that was last chosen.
#[derive(Debug)]
pub struct Outputs {
    pub states: Vec<OutputState>,
    pub prev_rectangle: Option<Rect>,
}

impl Outputs {
    /// No output, and no rectangle chosen.
    pub fn new() -> (r: Self)
        ensures
            r.states@ == Seq::<OutputState>::empty(),
            r.prev_rectangle is None,
    {
        Outputs { states: Vec::new(), prev_rectangle: None }
    }

    /// Takes notice of what became of an output. A window that may be opened on it gets a number.
    /// The first event of all makes the whole desktop the chosen rectangle.
    pub fn update_output(&mut self, output: u64, event: OutputEvent, id: u64)
        requires
            old(self).prev_rectangle is None ==> forall|i: int|
                0 <= i < outputs_after(old(self).states@, output, event, id).len() ==> edges_fit(
                    #[trigger] outputs_after(old(self).states@, output, event, id)[i],
                ),
        ensures
            final(self).states@ == outputs_after(old(self).states@, output, event, id),
            final(self).prev_rectangle == (match old(self).prev_rectangle {
                Some(rect) => Some(rect),
                None => Some(
                    desktop_rect(outputs_after(old(self).states@, output, event, id)),
                ),
            }),
    {
        match event {
            OutputEvent::Created(Some(info)) => {
                if let (Some(name), Some((w, h)), Some(pos)) = (
                    info.name,
                    info.logical_size,
                    info.logical_position,
                ) {
                    self.states.push(Self::fresh(name, (w, h), pos, output, id));
                }
            },
            OutputEvent::Created(None) => {},
            OutputEvent::Removed => {
                let mut states: Vec<OutputState> = Vec::new();
                std::mem::swap(&mut states, &mut self.states);
                self.states = remove_output(states, output);
            },
            OutputEvent::InfoUpdate(info) => {
                if let (Some(name), Some((w, h)), Some(pos)) = (
                    info.name,
                    info.logical_size,
                    info.logical_position,
                ) {
                    match find_output(&self.states, output) {
                        Some(i) => {
                            let state = &mut self.states[i];
                            state.name = name;
                            state.logical_size = (w as u32, h as u32);
                            state.logical_pos = pos;
                        },
                        None => {
                            self.states.push(Self::fresh(name, (w, h), pos, output, id));
                        },
                    }
                }
            },
        }
        proof {
            assert(self.states@ =~= outputs_after(old(self).states@, output, event, id));
        }
        if self.prev_rectangle.is_none() {
            self.prev_rectangle = Some(whole_desktop(&self.states));
        }
    }

    /// An output that has just come.
    fn fresh(name: String, size: (i32, i32), pos: (i32, i32), output: u64, id: u64) -> (r:
        OutputState)
        ensures
            r == (OutputState {
                output,
                id,
                name,
                logical_size: unsigned_pair(size),
                logical_pos: pos,
                has_pointer: false,
                pointer_position: None,
                window_pointer_anchor: None,
                bg_source: None,
            }),
    {
        OutputState {
            output,
            id,
            name,
            logical_size: (size.0 as u32, size.1 as u32),
            logical_pos: pos,
            has_pointer: false,
            pointer_position: None,
            window_pointer_anchor: None,
            bg_source: None,
        }
    }
}

impl Default for Outputs {
    fn default() -> (r: Self)
        ensures
            r.states@ == Seq::<OutputState>::empty(),
            r.prev_rectangle is None,
    {
        Outputs::new()
    }
}

/// An output that is removed is found no more, and the others stay in their order.
pub proof fn law_removed_output_is_gone(outputs: Seq<OutputState>, output: u64, id: u64)
    ensures
        output_position(
            outputs_after(outputs, output, OutputEvent::Removed, id),
            output,
        ) is None,
        output_position(outputs, output) is None ==> outputs_after(
            outputs,
            output,
            OutputEvent::Removed,
            id,
        ) == outputs,
    decreases outputs.len(),
{
    if outputs.len() > 0 {
        let init = outputs.drop_last();
        law_removed_output_is_gone(init, output, id);
        if outputs.last().output != output {
            let rest = without_output(init, output);
            assert(rest.push(outputs.last()).drop_last() =~= rest);
            assert(init.push(outputs.last()) =~= outputs);
        }
    } else {
        assert(outputs =~= Seq::<OutputState>::empty());
    }
}

/// What is shown in a window.
#[derive(Debug, Clone, Copy, PartialEq, Eq, Structural)]
pub enum WindowContent {
    Access,
    Screenshot,
    FileChooser,
}

/// What is shown in a window: the question for access in the window that is kept for it, a
/// screenshot in the windows of the outputs, and files in all others.
pub fn view_window(outputs: &Vec<OutputState>, access_id: u64, id: u64) -> (r: WindowContent)
    ensures
        r == if id == access_id {
            WindowContent::Access
        } else if exists|i: int| 0 <= i < outputs@.len() && (#[trigger] outputs@[i]).id == id {
            WindowContent::Screenshot
        } else {
            WindowContent::FileChooser
        },
{
    if id == access_id {
        return WindowContent::Access;
    }
    let mut i: usize = 0;
    while i < outputs.len()
        invariant
            i <= outputs@.len(),
            id != access_id,
            forall|j: int| 0 <= j < i ==> (#[trigger] outputs@[j]).id != id,
        decreases outputs@.len() - i,
    {
        if outputs[i].id == id {
            return WindowContent::Screenshot;
        }
        i = i + 1;
    }
    WindowContent::FileChooser
}

/// A change of the theme that the service is told of.
#[derive(Debug, Clone, Copy, PartialEq, Eq, Structural)]
pub enum ThemeEvent {
    Accent(Color),
    IsDark(bool),
    HighContrast(bool),
}

/// What is told when the theme turns dark or light.
pub fn system_theme_mode_update(was_dark: bool, is_dark: bool) -> (r: Option<ThemeEvent>)
    ensures
        r == if was_dark != is_dark {
            Some(ThemeEvent::IsDark(is_dark))
        } else {
            None
        },
{
    if was_dark != is_dark {
        Some(ThemeEvent::IsDark(is_dark))
    } else {
        None
    }
}

/// What is told when the theme changes.
pub open spec fn theme_events(
    was_dark: bool,
    is_dark: bool,
    new_accent: Option<Color>,
    was_high_contrast: bool,
    is_high_contrast: bool,
) -> Seq<ThemeEvent> {
    if was_dark != is_dark {
        Seq::empty()
    } else {
        (match new_accent {
            Some(color) => seq![ThemeEvent::Accent(color)],
            None => Seq::empty(),
        }) + (if was_high_contrast != is_high_contrast {
            seq![ThemeEvent::HighContrast(is_high_contrast)]
        } else {
            Seq::empty()
        })
    }
}

/// What is told when the theme changes: the accent, if it is another one, and then the contrast. The
/// theme of the other darkness tells nothing.
pub fn system_theme_update(
    was_dark: bool,
    is_dark: bool,
    new_accent: Option<Color>,
    was_high_contrast: bool,
    is_high_contrast: bool,
) -> (r: Vec<ThemeEvent>)
    ensures
        r@ == theme_events(was_dark, is_dark, new_accent, was_high_contrast, is_high_contrast),
{
    let mut events: Vec<ThemeEvent> = Vec::new();
    if was_dark != is_dark {
        return events;
    }
    if let Some(color) = new_accent {
        events.push(ThemeEvent::Accent(color));
    }
    if was_high_contrast != is_high_contrast {
        events.push(ThemeEvent::HighContrast(is_high_contrast));
    }
    proof {
        assert(events@ =~= theme_events(
            was_dark,
            is_dark,
            new_accent,
            was_high_contrast,
            is_high_contrast,
        ));
    }
    events
}

/// What a key does whatever window it is pressed in: Escape gives up the screenshot.
pub fn on_key(key: DialogKey) -> (r: Option<Msg>)
    ensures
        r == match key {
            DialogKey::Escape => Some(Msg::Cancel),
            DialogKey::Enter | DialogKey::Other => None,
        },
{
    match key {
        DialogKey::Escape => Some(Msg::Cancel),
        DialogKey::Enter | DialogKey::Other => None,
    }
}

/// An output that is not there is not found.
proof fn lemma_no_output(outputs: Seq<OutputState>, output: u64)
    requires
        forall|a: int| 0 <= a < outputs.len() ==> (#[trigger] outputs[a]).output != output,
    ensures
        output_position(outputs, output) is None,
    decreases outputs.len(),
{
    if outputs.len() > 0 {
        let init = outputs.drop_last();
        assert forall|a: int| 0 <= a < init.len() implies (#[trigger] init[a]).output != output by {
            assert(outputs[a].output != output);
        }
        lemma_no_output(init, output);
        assert(outputs[outputs.len() - 1].output != output);
    }
}

/// The first output with a number is found by it.
pub proof fn law_output_is_found(outputs: Seq<OutputState>, k: int)
    requires
        0 <= k < outputs.len(),
        forall|a: int| 0 <= a < k ==> (#[trigger] outputs[a]).output != outputs[k].output,
    ensures
        output_position(outputs, outputs[k].output) == Some(k),
    decreases outputs.len(),
{
    let init = outputs.drop_last();
    assert forall|a: int| 0 <= a < init.len() && a < k implies (#[trigger] init[a]).output
        != outputs[k].output by {
        assert(outputs[a].output != outputs[k].output);
    }
    if k < init.len() {
        assert(init[k] == outputs[k]);
        law_output_is_found(init, k);
    } else {
        lemma_no_output(init, outputs[k].output);
    }
}

/// An output that comes is there from then on, under its number and name, with its size and place, and
/// with the number of its window; the others stay. One that is not completely known changes nothing.
pub proof fn law_new_output_is_there(
    outputs: Seq<OutputState>,
    output: u64,
    info: OutputInfo,
    id: u64,
    k: int,
)
    ensures
        ({
            let after = outputs_after(outputs, output, OutputEvent::Created(Some(info)), id);
            let complete = info.name is Some && info.logical_size is Some
                && info.logical_position is Some;
            &&& complete ==> {
                &&& after.len() == outputs.len() + 1
                &&& after.last().output == output
                &&& after.last().id == id
                &&& after.last().name == info.name->0
                &&& (info.logical_size->0).0 >= 0 ==> after.last().logical_size.0
                    == (info.logical_size->0).0
                &&& (info.logical_size->0).1 >= 0 ==> after.last().logical_size.1
                    == (info.logical_size->0).1
                &&& after.last().logical_pos == info.logical_position->0
                &&& !after.last().has_pointer
                &&& 0 <= k < outputs.len() ==> after[k] == outputs[k]
            }
            &&& !complete ==> after == outputs
        }),
{
}

/// News of an output changes its name, size and place and nothing else, and no other output.
pub proof fn law_news_changes_the_output_alone(
    outputs: Seq<OutputState>,
    k: int,
    info: OutputInfo,
    id: u64,
    j: int,
)
    requires
        0 <= k < outputs.len(),
        forall|a: int| 0 <= a < k ==> (#[trigger] outputs[a]).output != outputs[k].output,
        info.name is Some,
        info.logical_size is Some,
        info.logical_position is Some,
    ensures
        ({
            let after = outputs_after(
                outputs,
                outputs[k].output,
                OutputEvent::InfoUpdate(info),
                id,
            );
            &&& after.len() == outputs.len()
            &&& after[k].output == outputs[k].output
            &&& after[k].id == outputs[k].id
            &&& after[k].has_pointer == outputs[k].has_pointer
            &&& after[k].name == info.name->0
            &&& after[k].logical_pos == info.logical_position->0
            &&& (info.logical_size->0).0 >= 0 ==> after[k].logical_size.0 == (info.logical_size->0).0
            &&& (info.logical_size->0).1 >= 0 ==> after[k].logical_size.1 == (info.logical_size->0).1
            &&& 0 <= j < outputs.len() && j != k ==> after[j] == outputs[j]
        }),
{
    law_output_is_found(outputs, k);
}

/// An output takes the rectangle from its place that is as wide and high as it is.
pub proof fn law_output_takes_its_rectangle(output: OutputState)
    requires
        output.logical_size.0 <= i32::MAX,
        output.logical_size.1 <= i32::MAX,
        output.logical_pos.0 + output.logical_size.0 <= i32::MAX,
        output.logical_pos.1 + output.logical_size.1 <= i32::MAX,
    ensures
        edges_fit(output),
        ({
            let rect = state_rect(output);
            &&& rect.left == output.logical_pos.0
            &&& rect.top == output.logical_pos.1
            &&& rect.right - rect.left == output.logical_size.0
            &&& rect.bottom - rect.top == output.logical_size.1
        }),
{
}

/// A new accent is told first, and a change of the contrast as it is now; nothing is told where nothing
/// has changed or where the theme of the other darkness is meant.
pub proof fn law_changes_of_the_theme_are_told(
    was_dark: bool,
    is_dark: bool,
    new_accent: Option<Color>,
    was_high: bool,
    is_high: bool,
)
    ensures
        ({
            let events = theme_events(was_dark, is_dark, new_accent, was_high, is_high);
            &&& was_dark != is_dark ==> events.len() == 0
            &&& was_dark == is_dark ==> {
                &&& new_accent matches Some(accent) ==> events.len() > 0 && events[0]
                    == ThemeEvent::Accent(accent)
                &&& was_high != is_high ==> events.len() > 0 && events.last()
                    == ThemeEvent::HighContrast(is_high)
                &&& events.len() == (if new_accent is Some {
                    1int
                } else {
                    0
                }) + (if was_high != is_high {
                    1int
                } else {
                    0
                })
            }
        }),
{
}

} // verus!
