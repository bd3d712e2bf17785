//! The choice of a colour on the screen.

use crate::app::OutputState;
use crate::portal::{Color, PortalResponse};
use crate::screencast::dialog::DialogKey;
use crate::screenshot::session::window_ids;
use vstd::prelude::*;

verus! {

/// How many milliseconds lie between two samples at least.
pub const MIN_INTERVAL_MILLIS: u64 = 16;

/// A request that waits for the user.
#[derive(Debug)]
pub struct Args {
    pub handle: String,
    pub app_id: String,
    pub parent_window: String,
    /// The colour under the pointer, as it was sampled last.
    pub preview: Option<Color>,
    /// A sample was asked for and has not come.
    pub pick_in_flight: bool,
    /// When the last sample was asked for, in milliseconds.
    pub last_dispatch: Option<u64>,
    /// The pointer was moved since a sample was asked for.
    pub pending: bool,
    /// The user has clicked.
    pub finalizing: bool,
}

impl Args {
    /// A request for which nothing was sampled.
    pub fn new(handle: String, app_id: String, parent_window: String) -> (r: Self)
        ensures
            r == (Args {
                handle,
                app_id,
                parent_window,
                preview: None,
                pick_in_flight: false,
                last_dispatch: None,
                pending: false,
                finalizing: false,
            }),
    {
        Args {
            handle,
            app_id,
            parent_window,
            preview: None,
            pick_in_flight: false,
            last_dispatch: None,
            pending: false,
            finalizing: false,
        }
    }
}

/// What happens.
#[derive(Debug, Clone, Copy, PartialEq, Eq, Structural)]
pub enum Msg {
    Motion,
    Clicked,
    Cancel,
    /// A sample has come, or failed.
    Previewed(Option<Color>),
    /// The sample for the click has come, or failed.
    Picked(Option<Color>),
}

/// What follows.
#[derive(Debug)]
pub enum PickEffect {
    Nothing,
    /// A sample is asked for.
    Sample,
    /// The windows are closed, and the sample for the click is asked for.
    SampleClick { windows: Vec<u64> },
    /// The windows are closed, and the request is answered, if one waits.
    Answer {
        windows: Vec<u64>,
        handle: Option<String>,
        response: PortalResponse<Color>,
    },
    /// Windows are opened on the outputs.
    Open(Vec<u64>),
}

/// Whether a sample is to be asked for now.
pub open spec fn is_due(args: Args, now: u64) -> bool {
    &&& !args.pick_in_flight
    &&& !args.finalizing
    &&& args.last_dispatch matches Some(last) ==> now >= last + MIN_INTERVAL_MILLIS
    &&& args.pending
}

/// The request after a sample was asked for, if it is due.
pub open spec fn dispatched(args: Args, now: u64) -> Args {
    if is_due(args, now) {
        Args { pending: false, pick_in_flight: true, last_dispatch: Some(now), ..args }
    } else {
        args
    }
}

/// Asks for a sample, if it is due.
fn try_dispatch_preview(args: &mut Args, now: u64) -> (r: bool)
    ensures
        r == is_due(*old(args), now),
        *final(args) == dispatched(*old(args), now),
{
    if args.pick_in_flight || args.finalizing {
        return false;
    }
    if let Some(last) = args.last_dispatch {
        if now < last || now - last < MIN_INTERVAL_MILLIS {
            return false;
        }
    }
    if !args.pending {
        return false;
    }
    args.pending = false;
    args.pick_in_flight = true;
    args.last_dispatch = Some(now);
    true
}

/// The numbers of the windows on the outputs.
fn window_numbers(outputs: &Vec<OutputState>) -> (r: Vec<u64>)
    ensures
        r@ == window_ids(outputs@),
{
    let mut r: Vec<u64> = Vec::new();
    let mut i: usize = 0;
    while i < outputs.len()
        invariant
            i <= outputs@.len(),
            r@ == window_ids(outputs@).take(i as int),
        decreases outputs@.len() - i,
    {
        r.push(outputs[i].id);
        proof {
            assert(r@ =~= window_ids(outputs@).take(i + 1));
        }
        i = i + 1;
    }
    proof {
        assert(r@ =~= window_ids(outputs@));
    }
    r
}

/// The choice of a colour.
#[derive(Debug)]
pub struct ColorPicker {
    pub args: Option<Args>,
}

/// The request before a sample is asked for, after the pointer was moved or a sample has come.
pub open spec fn moved_or_previewed(args: Args, msg: Msg) -> Args {
    match msg {
        Msg::Motion => Args { pending: true, ..args },
        Msg::Previewed(color) => Args {
            pick_in_flight: false,
            preview: match color {
                Some(color) => Some(color),
                None => args.preview,
            },
            ..args
        },
        _ => args,
    }
}

/// The request after something has happened.
pub open spec fn args_after(args: Option<Args>, msg: Msg, now: u64) -> Option<Args> {
    match args {
        Some(args) => match msg {
            Msg::Motion => if args.finalizing {
                Some(args)
            } else {
                Some(dispatched(moved_or_previewed(args, msg), now))
            },
            Msg::Previewed(_) => Some(dispatched(moved_or_previewed(args, msg), now)),
            Msg::Clicked => Some(Args { finalizing: true, ..args }),
            Msg::Picked(_) | Msg::Cancel => None,
        },
        None => None,
    }
}

/// Whether this follows from what has happened.
pub open spec fn is_effect(
    args: Option<Args>,
    msg: Msg,
    now: u64,
    outputs: Seq<OutputState>,
    effect: PickEffect,
) -> bool {
    match msg {
        Msg::Motion => effect == if args is Some && !args->0.finalizing && is_due(
            moved_or_previewed(args->0, msg),
            now,
        ) {
            PickEffect::Sample
        } else {
            PickEffect::Nothing
        },
        Msg::Previewed(_) => effect == if args is Some && is_due(
            moved_or_previewed(args->0, msg),
            now,
        ) {
            PickEffect::Sample
        } else {
            PickEffect::Nothing
        },
        Msg::Clicked => match args {
            Some(_) => effect matches PickEffect::SampleClick { windows } && windows@
                == window_ids(outputs),
            None => effect == PickEffect::Nothing,
        },
        Msg::Picked(color) => {
            &&& effect matches PickEffect::Answer { windows, handle, response }
            &&& windows@.len() == 0
            &&& handle == (match args {
                Some(args) => Some(args.handle),
                None => None,
            })
            &&& response == match color {
                Some(color) => PortalResponse::Success(color),
                None => PortalResponse::Other,
            }
        },
        Msg::Cancel => {
            &&& effect matches PickEffect::Answer { windows, handle, response }
            &&& windows@ == window_ids(outputs)
            &&& handle == (match args {
                Some(args) => Some(args.handle),
                None => None,
            })
            &&& response == PortalResponse::<Color>::Cancelled
        },
    }
}

impl ColorPicker {
    /// No request waits.
    pub fn new() -> (r: Self)
        ensures
            r.args is None,
    {
        ColorPicker { args: None }
    }

    /// Takes up a request. Windows are opened, unless another request has them open.
    pub fn update_args(&mut self, args: Args, outputs: &Vec<OutputState>) -> (r: PickEffect)
        ensures
            final(self).args == Some(args),
            match old(self).args {
                Some(_) => r == PickEffect::Nothing,
                None => r matches PickEffect::Open(windows) && windows@ == window_ids(outputs@),
            },
    {
        let had = self.args.is_some();
        self.args = Some(args);
        if had {
            PickEffect::Nothing
        } else {
            PickEffect::Open(window_numbers(outputs))
        }
    }

    /// Takes notice of what happens at a time in milliseconds.
    pub fn update_msg(&mut self, msg: Msg, now: u64, outputs: &Vec<OutputState>) -> (r: PickEffect)
        ensures
            final(self).args == args_after(old(self).args, msg, now),
            is_effect(old(self).args, msg, now, outputs@, r),
    {
        match msg {
            Msg::Motion => {
                let mut due = false;
                if let Some(args) = &mut self.args {
                    if !args.finalizing {
                        args.pending = true;
                        due = try_dispatch_preview(args, now);
                    }
                }
                if due {
                    PickEffect::Sample
                } else {
                    PickEffect::Nothing
                }
            },
            Msg::Previewed(color) => {
                let mut due = false;
                if let Some(args) = &mut self.args {
                    args.pick_in_flight = false;
                    if let Some(color) = color {
                        args.preview = Some(color);
                    }
                    due = try_dispatch_preview(args, now);
                }
                if due {
                    PickEffect::Sample
                } else {
                    PickEffect::Nothing
                }
            },
            Msg::Clicked => {
                let waits = self.args.is_some();
                if let Some(args) = &mut self.args {
                    args.finalizing = true;
                }
                if waits {
                    PickEffect::SampleClick { windows: window_numbers(outputs) }
                } else {
                    PickEffect::Nothing
                }
            },
            Msg::Picked(color) => {
                let response = match color {
                    Some(color) => PortalResponse::Success(color),
                    None => PortalResponse::Other,
                };
                self.finish(response, Vec::new())
            },
            Msg::Cancel => self.finish(PortalResponse::Cancelled, window_numbers(outputs)),
        }
    }

    /// Answers the request.
    fn finish(&mut self, response: PortalResponse<Color>, windows: Vec<u64>) -> (r: PickEffect)
        ensures
            final(self).args is None,
            r == (PickEffect::Answer {
                windows,
                handle: match old(self).args {
                    Some(args) => Some(args.handle),
                    None => None,
                },
                response,
            }),
    {
        let handle = match self.args.take() {
            Some(args) => Some(args.handle),
            None => None,
        };
        PickEffect::Answer { windows, handle, response }
    }
}

/// At most one sample is on its way: none is asked for while one has not come.
pub proof fn law_one_sample_at_a_time(args: Args, msg: Msg, now: u64)
    requires
        args.pick_in_flight,
        msg == Msg::Motion,
    ensures
        !is_due(moved_or_previewed(args, msg), now),
        args_after(Some(args), msg, now) matches Some(after) && after.pick_in_flight,
{
}

/// Samples are asked for no faster than the interval allows.
pub proof fn law_samples_keep_their_distance(args: Args, msg: Msg, now: u64)
    requires
        args.last_dispatch is Some,
        is_due(moved_or_previewed(args, msg), now),
    ensures
        now - args.last_dispatch->0 >= MIN_INTERVAL_MILLIS,
{
}

/// A motion that comes while a sample is on its way is not forgotten: when the sample comes, another
/// one is asked for, if enough time has gone by.
pub proof fn law_motion_is_not_forgotten(args: Args, color: Option<Color>, now: u64, later: u64)
    requires
        args.pick_in_flight,
        !args.finalizing,
        args.last_dispatch matches Some(last) ==> later >= last + MIN_INTERVAL_MILLIS,
    ensures
        args_after(Some(args), Msg::Motion, now) matches Some(between) && is_due(
            moved_or_previewed(between, Msg::Previewed(color)),
            later,
        ),
{
}

/// What a key does while a colour is picked.
pub open spec fn key_does(key: DialogKey) -> Option<Msg> {
    match key {
        DialogKey::Escape => Some(Msg::Cancel),
        DialogKey::Enter | DialogKey::Other => None,
    }
}

/// What a key does while a colour is picked.
pub fn on_key(key: DialogKey) -> (r: Option<Msg>)
    ensures
        r == match key {
            DialogKey::Escape => Some(Msg::Cancel),
            DialogKey::Enter | DialogKey::Other => None,
        },
        r == key_does(key),
{
    match key {
        DialogKey::Escape => Some(Msg::Cancel),
        DialogKey::Enter | DialogKey::Other => None,
    }
}

/// The colour that was picked is the one that is answered; a sample that failed is answered as a
/// failure, and cancelling as cancelled. The answer goes to the request that waits, which waits no
/// longer.
pub proof fn law_picked_colour_is_answered(
    args: Args,
    msg: Msg,
    now: u64,
    outputs: Seq<OutputState>,
    effect: PickEffect,
)
    requires
        is_effect(Some(args), msg, now, outputs, effect),
    ensures
        msg matches Msg::Picked(color) ==> (effect matches PickEffect::Answer {
            windows,
            handle,
            response,
        } && handle == Some(args.handle) && windows@.len() == 0 && match color {
            Some(color) => response == PortalResponse::Success(color),
            None => response is Other,
        }) && args_after(Some(args), msg, now) is None,
        msg is Cancel ==> (effect matches PickEffect::Answer { windows, handle, response } && handle
            == Some(args.handle) && response is Cancelled && windows@.len() == outputs.len())
            && args_after(Some(args), msg, now) is None,
        msg is Motion || msg is Previewed || msg is Clicked ==> !(effect is Answer) && args_after(
            Some(args),
            msg,
            now,
        ) is Some,
{
}

/// A click closes the window on each output before the last sample is taken, and from then on no other
/// sample is asked for.
pub proof fn law_click_ends_the_preview(
    args: Args,
    now: u64,
    outputs: Seq<OutputState>,
    effect: PickEffect,
    next: Msg,
    later: u64,
    next_effect: PickEffect,
    i: int,
)
    requires
        is_effect(Some(args), Msg::Clicked, now, outputs, effect),
        next is Motion || next is Previewed,
        is_effect(args_after(Some(args), Msg::Clicked, now), next, later, outputs, next_effect),
    ensures
        effect matches PickEffect::SampleClick { windows } && windows@.len() == outputs.len() && (0
            <= i < outputs.len() ==> windows@[i] == outputs[i].id),
        next_effect is Nothing,
{
}

/// A motion asks for a sample where none is on its way, none was asked for within the last sixteen
/// milliseconds, and nothing was clicked.
pub proof fn law_motion_asks_for_a_sample(
    args: Args,
    now: u64,
    outputs: Seq<OutputState>,
    effect: PickEffect,
)
    requires
        is_effect(Some(args), Msg::Motion, now, outputs, effect),
    ensures
        effect is Sample <==> !args.finalizing && !args.pick_in_flight && (match args.last_dispatch {
            Some(last) => now >= last + 16,
            None => true,
        }),
        effect is Sample || effect is Nothing,
{
}

/// The preview shows the colour that came last; a sample that failed leaves the one before it.
pub proof fn law_preview_shows_the_last_colour(args: Args, color: Option<Color>, now: u64)
    ensures
        args_after(Some(args), Msg::Previewed(color), now) matches Some(after) && after.preview
            == match color {
            Some(color) => Some(color),
            None => args.preview,
        } && after.handle == args.handle,
{
}

/// Escape cancels; no other key does anything.
pub proof fn law_escape_cancels(
    args: Args,
    key: DialogKey,
    now: u64,
    outputs: Seq<OutputState>,
    effect: PickEffect,
)
    ensures
        key_does(key) is Some <==> key is Escape,
        key is Escape && is_effect(Some(args), key_does(key)->0, now, outputs, effect) ==> (
        effect matches PickEffect::Answer { handle, response, .. } && handle == Some(args.handle)
            && response is Cancelled),
{
}

} // verus!
