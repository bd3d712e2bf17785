//! Questions whether an application may go on without a window.

use crate::label::{label_views, message_with, plain_text, Label, LabelView, Phrase, PhraseView};
use crate::portal::PortalResponse;
use crate::screencast::dialog::DialogKey;
use crate::text::view_opt;
use vstd::prelude::*;

verus! {

/// What an application asks for.
#[derive(Debug)]
pub struct BackgroundOptions {
    /// The last element of the handle.
    pub handle_token: Option<String>,
    /// Why the application asks, for the user.
    pub reason: Option<String>,
    /// Whether the application wants to be started at login, too.
    pub autostart: Option<bool>,
    /// The command by which it is started.
    pub commandline: Option<Vec<String>>,
    /// Whether it is started over the bus.
    pub dbus_activatable: Option<bool>,
}

/// What an application gets.
#[derive(Debug, Clone, Copy, PartialEq, Eq, Structural)]
pub struct BackgroundResult {
    /// Whether it may go on without a window.
    pub background: bool,
    /// Whether it is started at login, which is never so.
    pub autostart: bool,
}

/// What an application says of its state.
#[derive(Debug)]
pub struct StatusOptions {
    pub message: Option<String>,
}

/// What the user does.
#[derive(Debug, Clone, Copy, PartialEq, Eq, Structural)]
pub enum Msg {
    Allow,
    Cancel,
    Ignore,
}

/// A question that waits for the user.
#[derive(Debug)]
pub struct BackgroundDialogArgs {
    pub handle: String,
    pub app_id: String,
    pub parent_window: String,
    pub options: BackgroundOptions,
    /// The number of the window.
    pub background_id: u64,
}

/// What follows.
#[derive(Debug)]
pub enum BackgroundEffect {
    Nothing,
    /// The window is closed, and the request is answered.
    Answer { handle: String, window: u64, response: PortalResponse<BackgroundResult> },
}

/// What follows from a new question.
#[derive(Debug)]
pub struct BackgroundOpened {
    /// The question that waited before: its window is closed, and it is answered that it was
    /// cancelled.
    pub replaced: Option<(String, u64)>,
    /// The window that is opened.
    pub window: u64,
}

/// The question that waits, if any.
#[derive(Debug)]
pub struct BackgroundDialog {
    pub args: Option<BackgroundDialogArgs>,
}

/// The answer to what the user does.
pub open spec fn answer(args: BackgroundDialogArgs, msg: Msg) -> BackgroundEffect {
    match msg {
        Msg::Allow => BackgroundEffect::Answer {
            handle: args.handle,
            window: args.background_id,
            response: PortalResponse::Success(
                BackgroundResult { background: true, autostart: false },
            ),
        },
        Msg::Cancel => BackgroundEffect::Answer {
            handle: args.handle,
            window: args.background_id,
            response: PortalResponse::Cancelled,
        },
        Msg::Ignore => BackgroundEffect::Nothing,
    }
}

impl BackgroundDialog {
    /// No question waits.
    pub fn new() -> (r: Self)
        ensures
            r.args is None,
    {
        BackgroundDialog { args: None }
    }

    /// Does what the user wants. Only while a question waits is there anything to do.
    pub fn update_msg(&mut self, msg: Msg) -> (r: BackgroundEffect)
        requires
            msg != Msg::Ignore ==> old(self).args is Some,
        ensures
            match old(self).args {
                Some(args) => {
                    &&& r == answer(args, msg)
                    &&& final(self).args == if msg == Msg::Ignore {
                        Some(args)
                    } else {
                        None
                    }
                },
                None => r == BackgroundEffect::Nothing && final(self).args is None,
            },
    {
        match msg {
            Msg::Allow => match self.args.take() {
                Some(args) => BackgroundEffect::Answer {
                    handle: args.handle,
                    window: args.background_id,
                    response: PortalResponse::Success(
                        BackgroundResult { background: true, autostart: false },
                    ),
                },
                None => BackgroundEffect::Nothing,
            },
            Msg::Cancel => match self.args.take() {
                Some(args) => BackgroundEffect::Answer {
                    handle: args.handle,
                    window: args.background_id,
                    response: PortalResponse::Cancelled,
                },
                None => BackgroundEffect::Nothing,
            },
            Msg::Ignore => BackgroundEffect::Nothing,
        }
    }

    /// Takes up a question, with the number of its window. One that waited is cancelled.
    pub fn update_args(&mut self, args: BackgroundDialogArgs, window: u64) -> (r: BackgroundOpened)
        ensures
            final(self).args == Some(BackgroundDialogArgs { background_id: window, ..args }),
            r.window == window,
            r.replaced == match old(self).args {
                Some(before) => Some((before.handle, before.background_id)),
                None => None,
            },
    {
        let replaced = match self.args.take() {
            Some(before) => Some((before.handle, before.background_id)),
            None => None,
        };
        let mut args = args;
        args.background_id = window;
        self.args = Some(args);
        BackgroundOpened { replaced, window }
    }
}

/// The note that an application is not started at login.
pub const AUTOSTART_NOTE: &'static str = "Note: Automatic startup at login is not yet supported.";

/// Who asks: an application without an identifier is not known.
pub open spec fn asker(app_id: Seq<char>) -> PhraseView {
    if app_id.len() == 0 {
        PhraseView::Message("unknown-application"@)
    } else {
        PhraseView::Text(app_id)
    }
}

/// The lines of the question: who asks, why, and that it is not started at login if it wants to be.
pub open spec fn question_lines(
    app_id: Seq<char>,
    reason: Option<Seq<char>>,
    autostart: bool,
) -> Seq<LabelView> {
    seq![message_with("background-permission-body"@, "app_id"@, asker(app_id))] + (match reason {
        Some(reason) => if reason.len() > 0 {
            seq![
                message_with(
                    "background-permission-reason"@,
                    "reason"@,
                    PhraseView::Text(reason),
                ),
            ]
        } else {
            Seq::empty()
        },
        None => Seq::empty(),
    }) + (if autostart {
        seq![plain_text(AUTOSTART_NOTE@)]
    } else {
        Seq::empty()
    })
}

impl BackgroundDialog {
    /// The lines of the question; none where none waits.
    pub fn view(&self) -> (r: Option<Vec<Label>>)
        ensures
            match self.args {
                Some(args) => r matches Some(lines) && label_views(lines@)
                    == question_lines(
                    args.app_id@,
                    view_opt(args.options.reason),
                    args.options.autostart == Some(true),
                ),
                None => r is None,
            },
    {
        match &self.args {
            Some(args) => {
                let mut lines: Vec<Label> = Vec::new();
                let who = if args.app_id.as_str().unicode_len() == 0 {
                    Phrase::Message("unknown-application")
                } else {
                    Phrase::Text(args.app_id.clone())
                };
                lines.push(Label::message_with("background-permission-body", "app_id", who));
                if let Some(reason) = &args.options.reason {
                    if reason.as_str().unicode_len() > 0 {
                        lines.push(
                            Label::message_with(
                                "background-permission-reason",
                                "reason",
                                Phrase::Text(reason.clone()),
                            ),
                        );
                    }
                }
                if let Some(true) = args.options.autostart {
                    lines.push(Label::text(AUTOSTART_NOTE.to_owned()));
                }
                proof {
                    assert(label_views(lines@) =~= question_lines(
                        args.app_id@,
                        view_opt(args.options.reason),
                        args.options.autostart == Some(true),
                    ));
                }
                Some(lines)
            },
            None => None,
        }
    }
}

/// What a key does in the question.
pub open spec fn key_does(key: DialogKey) -> Option<Msg> {
    match key {
        DialogKey::Enter => Some(Msg::Allow),
        DialogKey::Escape => Some(Msg::Cancel),
        DialogKey::Other => None,
    }
}

/// What a key does in the question.
pub fn on_key(key: DialogKey) -> (r: Option<Msg>)
    ensures
        r == match key {
            DialogKey::Enter => Some(Msg::Allow),
            DialogKey::Escape => Some(Msg::Cancel),
            DialogKey::Other => None,
        },
        r == key_does(key),
{
    match key {
        DialogKey::Enter => Some(Msg::Allow),
        DialogKey::Escape => Some(Msg::Cancel),
        DialogKey::Other => None,
    }
}

/// An application that may run in the background is told so, and that it is not started at login; one
/// that may not is told that the request was cancelled.
pub proof fn law_background_is_answered_as_decided(args: BackgroundDialogArgs, msg: Msg)
    ensures
        msg is Allow ==> (answer(args, msg) matches BackgroundEffect::Answer {
            handle,
            window,
            response: PortalResponse::Success(result),
        } && handle == args.handle && window == args.background_id && result.background
            && !result.autostart),
        msg is Cancel ==> (answer(args, msg) matches BackgroundEffect::Answer {
            handle,
            window,
            response,
        } && handle == args.handle && window == args.background_id && response is Cancelled),
        msg is Ignore ==> answer(args, msg) is Nothing,
{
}

/// Return lets the application run in the background, and Escape does not; no other key answers.
pub proof fn law_keys_decide(args: BackgroundDialogArgs, key: DialogKey)
    ensures
        key is Enter ==> key_does(key) is Some && (answer(
            args,
            key_does(key)->0,
        ) matches BackgroundEffect::Answer { response, .. } && response is Success),
        key is Escape ==> key_does(key) is Some && (answer(
            args,
            key_does(key)->0,
        ) matches BackgroundEffect::Answer { response, .. } && response is Cancelled),
        key is Other ==> key_does(key) is None,
{
}

/// The question names the application by its identifier, gives the reason where there is one, and says
/// where starting at login is asked for that this is not done.
pub proof fn law_question_says_who_and_why(
    app_id: Seq<char>,
    reason: Option<Seq<char>>,
    autostart: bool,
)
    ensures
        ({
            let lines = question_lines(app_id, reason, autostart);
            let gives_reason = reason is Some && reason->0.len() > 0;
            &&& lines.len() == 1 + (if gives_reason {
                1int
            } else {
                0
            }) + (if autostart {
                1int
            } else {
                0
            })
            &&& app_id.len() > 0 ==> lines[0] == message_with(
                "background-permission-body"@,
                "app_id"@,
                PhraseView::Text(app_id),
            )
            &&& gives_reason ==> lines[1] == message_with(
                "background-permission-reason"@,
                "reason"@,
                PhraseView::Text(reason->0),
            )
            &&& autostart ==> lines.last() == plain_text(AUTOSTART_NOTE@)
        }),
{
}

} // verus!
