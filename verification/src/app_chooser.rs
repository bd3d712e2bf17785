//! The choice of an application to open something with.

use crate::access::Surface;
use crate::desktop_entries::{
    desktop_entry_name, entry_name, entry_of, file_stem, read_entry, stem_of, DesktopFile,
};
use crate::label::{message_with, plain_message, Label, LabelView, Phrase, PhraseView};
use crate::portal::PortalResponse;
use crate::screencast::dialog::DialogKey;
use crate::seqs::{position, position_of_str};
use crate::text::{pieces, split, str_eq, view_opt, views};
use vstd::prelude::*;

verus! {

/// What a client asks for.
#[derive(Debug)]
pub struct ChooseApplicationOptions {
    pub last_choice: Option<String>,
    pub modal: Option<bool>,
    pub content_type: Option<String>,
    pub uri: Option<String>,
    pub filename: Option<String>,
    pub activation_token: Option<String>,
}

/// What a client gets.
#[derive(Debug)]
pub struct ChooseApplicationResult {
    pub choice: String,
}

/// A request that waits for the user.
#[derive(Debug)]
pub struct AppChooserArgs {
    pub handle: String,
    /// The identifiers of the applications.
    pub choices: Vec<String>,
    pub last_choice: Option<String>,
    pub content_type: Option<String>,
    pub uri: Option<String>,
    pub filename: Option<String>,
    pub modal: bool,
    /// The number of the window.
    pub surface_id: u64,
    pub selected: Option<usize>,
}

/// Takes up a request: nothing where there is nothing to choose from, which is answered as if the
/// user had cancelled.
pub fn choose_application(
    handle: String,
    choices: Vec<String>,
    options: ChooseApplicationOptions,
) -> (r: Option<AppChooserArgs>)
    ensures
        if choices@.len() == 0 {
            r is None
        } else {
            r == Some(
                AppChooserArgs {
                    handle,
                    choices,
                    last_choice: options.last_choice,
                    content_type: options.content_type,
                    uri: options.uri,
                    filename: options.filename,
                    modal: options.modal == Some(true),
                    surface_id: 0,
                    selected: None,
                },
            )
        },
{
    if choices.len() == 0 {
        return None;
    }
    let modal = match options.modal {
        Some(modal) => modal,
        None => false,
    };
    Some(
        AppChooserArgs {
            handle,
            choices,
            last_choice: options.last_choice,
            content_type: options.content_type,
            uri: options.uri,
            filename: options.filename,
            modal,
            surface_id: 0,
            selected: None,
        },
    )
}

/// What the user does.
#[derive(Debug, Clone, Copy, PartialEq, Eq, Structural)]
pub enum Msg {
    Select(usize),
    Open,
    Cancel,
    Ignore,
}

/// What follows.
#[derive(Debug)]
pub enum AppChooserEffect {
    Nothing,
    /// The window is closed, and the request is answered.
    Answer { handle: String, surface: Surface, response: PortalResponse<ChooseApplicationResult> },
}

/// What follows from a new request.
#[derive(Debug)]
pub struct AppChooserOpened {
    /// The request that waited before: its window is closed, and it is answered that it was
    /// cancelled.
    pub replaced: Option<(String, Surface)>,
    /// The window that is opened.
    pub surface: Surface,
}

/// The request that waits, if any.
#[derive(Debug)]
pub struct AppChooserDialog {
    pub args: Option<AppChooserArgs>,
}

impl AppChooserArgs {
    /// The window of the request.
    pub open spec fn spec_surface(self) -> Surface {
        Surface { id: self.surface_id, modal: self.modal }
    }
}

/// The application that is chosen.
pub open spec fn chosen(args: AppChooserArgs) -> Option<Seq<char>> {
    match args.selected {
        Some(i) => if i < args.choices@.len() {
            Some(args.choices@[i as int]@)
        } else {
            None
        },
        None => None,
    }
}

/// What follows from what the user does while a request waits.
pub open spec fn step(
    args: AppChooserArgs,
    msg: Msg,
    post: Option<AppChooserArgs>,
    effect: AppChooserEffect,
) -> bool {
    match msg {
        Msg::Select(i) => {
            &&& post == Some(AppChooserArgs { selected: Some(i), ..args })
            &&& effect == AppChooserEffect::Nothing
        },
        Msg::Open => match chosen(args) {
            Some(choice) => {
                &&& post is None
                &&& effect matches AppChooserEffect::Answer { handle, surface, response }
                &&& handle == args.handle
                &&& surface == args.spec_surface()
                &&& response matches PortalResponse::Success(result)
                &&& result.choice@ == choice
            },
            None => post == Some(args) && effect == AppChooserEffect::Nothing,
        },
        Msg::Cancel => {
            &&& post is None
            &&& effect == (AppChooserEffect::Answer {
                handle: args.handle,
                surface: args.spec_surface(),
                response: PortalResponse::Cancelled,
            })
        },
        Msg::Ignore => post == Some(args) && effect == AppChooserEffect::Nothing,
    }
}

impl AppChooserDialog {
    /// No request waits.
    pub fn new() -> (r: Self)
        ensures
            r.args is None,
    {
        AppChooserDialog { args: None }
    }

    /// Does what the user wants; nothing without a request.
    pub fn update_msg(&mut self, msg: Msg) -> (r: AppChooserEffect)
        ensures
            match old(self).args {
                Some(args) => step(args, msg, final(self).args, r),
                None => final(self).args is None && r == AppChooserEffect::Nothing,
            },
    {
        match msg {
            Msg::Select(i) => {
                if let Some(args) = &mut self.args {
                    args.selected = Some(i);
                }
                AppChooserEffect::Nothing
            },
            Msg::Open => {
                if let Some(args) = self.args.take() {
                    if let Some(i) = args.selected {
                        if i < args.choices.len() {
                            let choice = args.choices[i].clone();
                            return AppChooserEffect::Answer {
                                handle: args.handle,
                                surface: Surface { id: args.surface_id, modal: args.modal },
                                response: PortalResponse::Success(
                                    ChooseApplicationResult { choice },
                                ),
                            };
                        }
                    }
                    self.args = Some(args);
                }
                AppChooserEffect::Nothing
            },
            Msg::Cancel => match self.args.take() {
                Some(args) => AppChooserEffect::Answer {
                    handle: args.handle,
                    surface: Surface { id: args.surface_id, modal: args.modal },
                    response: PortalResponse::Cancelled,
                },
                None => AppChooserEffect::Nothing,
            },
            Msg::Ignore => AppChooserEffect::Nothing,
        }
    }

    /// Takes up a request, with the number of its window. One that waited is cancelled. The
    /// application that was chosen the last time is chosen at first, if it is there.
    pub fn update_args(&mut self, args: AppChooserArgs, surface_id: u64) -> (r: AppChooserOpened)
        ensures
            final(self).args == Some(
                AppChooserArgs {
                    surface_id,
                    selected: match args.last_choice {
                        Some(last) => position(views(args.choices@), last@),
                        None => args.selected,
                    },
                    ..args
                },
            ),
            r.surface == (Surface { id: surface_id, modal: args.modal }),
            r.replaced == match old(self).args {
                Some(before) => Some((before.handle, before.spec_surface())),
                None => None,
            },
    {
        let replaced = match self.args.take() {
            Some(before) => Some(
                (before.handle, Surface { id: before.surface_id, modal: before.modal }),
            ),
            None => None,
        };
        let mut args = args;
        if let Some(last) = &args.last_choice {
            args.selected = position_of_str(&args.choices, last.as_str());
        }
        args.surface_id = surface_id;
        let surface = Surface { id: surface_id, modal: args.modal };
        self.args = Some(args);
        AppChooserOpened { replaced, surface }
    }
}

/// The application that was chosen the last time is answered when the user does not choose another
/// one, if it is there.
pub proof fn law_last_choice_is_offered(args: AppChooserArgs, last: String)
    requires
        args.last_choice == Some(last),
        args.choices@.len() <= usize::MAX,
        views(args.choices@).contains(last@),
    ensures
        chosen(
            AppChooserArgs { selected: position(views(args.choices@), last@), ..args },
        ) == Some(last@),
{
    crate::seqs::lemma_first_position_of(views(args.choices@), last@);
}

/// The language of the translations that are read.
pub const LANGUAGE: &'static str = "en";

/// The languages of the translations that are read.
pub open spec fn kept_languages() -> Seq<Seq<char>> {
    seq![LANGUAGE@]
}

/// The icon of an application that has none.
pub const FALLBACK_ICON: &'static str = "application-x-executable";

/// How an application is shown.
#[derive(Debug)]
pub struct AppInfo {
    pub name: String,
    pub icon_name: String,
}

/// The name of an application of which nothing is known: the last part of its identifier.
pub open spec fn fallback_name(app_id: Seq<char>) -> Seq<char> {
    pieces(app_id, '.').last()
}

/// The name of an application of which nothing is known.
fn name_from_id(app_id: &str) -> (r: String)
    ensures
        r@ == fallback_name(app_id@),
{
    let parts = split(app_id, '.');
    let last: usize = parts.len() - 1;
    proof {
        assert(views(parts@).last() == parts@[last as int]@);
    }
    parts[last].clone()
}

/// How an application is shown, given the name and the icon that its file tells: by the last part of
/// its identifier and a plain icon where the file does not say or where there is none.
pub fn app_info(app_id: &str, name: Option<String>, icon: Option<String>) -> (r: AppInfo)
    ensures
        r.name@ == match name {
            Some(name) => name@,
            None => fallback_name(app_id@),
        },
        r.icon_name@ == match icon {
            Some(icon) => icon@,
            None => FALLBACK_ICON@,
        },
{
    let name = match name {
        Some(name) => name,
        None => name_from_id(app_id),
    };
    let icon_name = match icon {
        Some(icon) => icon,
        None => FALLBACK_ICON.to_owned(),
    };
    AppInfo { name, icon_name }
}

/// Whether a file tells of an application: by the identifier in it or by its own name.
pub open spec fn tells_of(file: DesktopFile, app_id: Seq<char>) -> bool {
    match entry_of(file@, kept_languages()) {
        Some((id, _, _)) => id == app_id || file_stem(file.path@) == app_id,
        None => false,
    }
}

/// The first file that tells of an application.
pub open spec fn first_file(files: Seq<DesktopFile>, app_id: Seq<char>) -> Option<DesktopFile>
    decreases files.len(),
{
    if files.len() == 0 {
        None
    } else if tells_of(files[0], app_id) {
        Some(files[0])
    } else {
        first_file(files.skip(1), app_id)
    }
}

/// Whether an application is shown by what is known of it.
pub open spec fn shows(info: AppInfo, files: Seq<DesktopFile>, app_id: Seq<char>) -> bool {
    match first_file(files, app_id) {
        Some(file) => {
            &&& info.icon_name@ == match entry_of(file@, kept_languages()) {
                Some((_, Some(icon), _)) => icon,
                _ => FALLBACK_ICON@,
            }
            &&& info.name@ == match desktop_entry_name(
                file@.path,
                file@.data,
                file@.message,
                kept_languages(),
                Seq::empty(),
            ) {
                Some(name) => name,
                None => fallback_name(app_id),
            }
        },
        None => info.name@ == fallback_name(app_id) && info.icon_name@ == FALLBACK_ICON@,
    }
}

/// How an application is shown: by the first file that tells of it.
pub fn lookup_app_info(app_id: &str, files: &Vec<DesktopFile>) -> (r: AppInfo)
    ensures
        shows(r, files@, app_id@),
{
    let mut i: usize = 0;
    let kept: Vec<String> = vec![LANGUAGE.to_owned()];
    let languages: Vec<String> = Vec::new();
    proof {
        assert(files@.skip(0) =~= files@);
        assert(views(kept@) =~= kept_languages());
        assert(views(languages@) =~= Seq::<Seq<char>>::empty());
    }
    while i < files.len()
        invariant
            i <= files@.len(),
            views(kept@) == kept_languages(),
            views(languages@) == Seq::<Seq<char>>::empty(),
            first_file(files@, app_id@) == first_file(files@.skip(i as int), app_id@),
        decreases files@.len() - i,
    {
        proof {
            assert(files@.skip(i as int)[0] == files@[i as int]);
            assert(files@.skip(i as int).skip(1) =~= files@.skip(i + 1));
        }
        let file = &files[i];
        if let Some(entry) = read_entry(file.path.as_str(), file.data.as_str(), &kept) {
            if str_eq(entry.id.as_str(), app_id) || str_eq(
                stem_of(file.path.as_str()).as_str(),
                app_id,
            ) {
                return app_info(app_id, entry_name(file, &kept, &languages), entry.icon);
            }
        }
        i = i + 1;
    }
    app_info(app_id, None, None)
}

/// The title of the dialog: what is opened, by the name of the file, the address or the type.
pub open spec fn title_of(args: AppChooserArgs) -> LabelView {
    match (view_opt(args.filename), view_opt(args.uri), view_opt(args.content_type)) {
        (Some(name), _, _) => message_with("open-item-with"@, "name"@, PhraseView::Text(name)),
        (None, Some(uri), _) => message_with("open-item-with"@, "name"@, PhraseView::Text(uri)),
        (None, None, Some(content)) => message_with(
            "open-item-with"@,
            "name"@,
            PhraseView::Text(content),
        ),
        (None, None, None) => plain_message("open-with"@),
    }
}

/// An application in the list.
#[derive(Debug)]
pub struct AppEntry {
    pub info: AppInfo,
    pub selected: bool,
    /// What a click does.
    pub msg: Msg,
}

/// The list of applications, in the order of the request.
pub fn list_apps(args: &AppChooserArgs, files: &Vec<DesktopFile>) -> (r: Vec<AppEntry>)
    ensures
        r@.len() == args.choices@.len(),
        forall|i: int|
            0 <= i < r@.len() ==> {
                &&& shows((#[trigger] r@[i]).info, files@, args.choices@[i]@)
                &&& r@[i].selected == (args.selected == Some(i as usize))
                &&& r@[i].msg == Msg::Select(i as usize)
            },
{
    let mut r: Vec<AppEntry> = Vec::new();
    let mut i: usize = 0;
    while i < args.choices.len()
        invariant
            i <= args.choices@.len(),
            r@.len() == i,
            forall|j: int|
                0 <= j < i ==> {
                    &&& shows((#[trigger] r@[j]).info, files@, args.choices@[j]@)
                    &&& r@[j].selected == (args.selected == Some(j as usize))
                    &&& r@[j].msg == Msg::Select(j as usize)
                },
        decreases args.choices@.len() - i,
    {
        let info = lookup_app_info(args.choices[i].as_str(), files);
        let selected = match args.selected {
            Some(chosen) => chosen == i,
            None => false,
        };
        r.push(AppEntry { info, selected, msg: Msg::Select(i) });
        i = i + 1;
    }
    r
}

/// What a key does in the dialog.
pub open spec fn key_does(key: DialogKey) -> Option<Msg> {
    match key {
        DialogKey::Enter => Some(Msg::Open),
        DialogKey::Escape => Some(Msg::Cancel),
        DialogKey::Other => None,
    }
}

/// What a key does in the dialog.
pub fn on_key(key: DialogKey) -> (r: Option<Msg>)
    ensures
        r == match key {
            DialogKey::Enter => Some(Msg::Open),
            DialogKey::Escape => Some(Msg::Cancel),
            DialogKey::Other => None,
        },
        r == key_does(key),
{
    match key {
        DialogKey::Enter => Some(Msg::Open),
        DialogKey::Escape => Some(Msg::Cancel),
        DialogKey::Other => None,
    }
}

impl AppChooserDialog {
    /// The title of the dialog and whether something is chosen; nothing without a request.
    pub fn view(&self) -> (r: Option<(Label, bool)>)
        ensures
            match self.args {
                Some(args) => r matches Some((title, can_open)) && title@ == title_of(args)
                    && can_open == args.selected is Some,
                None => r is None,
            },
    {
        match &self.args {
            Some(args) => {
                let item = match (&args.filename, &args.uri, &args.content_type) {
                    (Some(name), _, _) => Some(name),
                    (None, Some(uri), _) => Some(uri),
                    (None, None, Some(content)) => Some(content),
                    (None, None, None) => None,
                };
                let title = match item {
                    Some(item) => Label::message_with(
                        "open-item-with",
                        "name",
                        Phrase::Text(item.clone()),
                    ),
                    None => Label::message("open-with"),
                };
                Some((title, args.selected.is_some()))
            },
            None => None,
        }
    }
}

/// The application that is selected is the one that is answered, by its place in the list. Nothing is
/// answered before one is selected.
pub proof fn law_selected_application_is_answered(
    args: AppChooserArgs,
    i: usize,
    between: Option<AppChooserArgs>,
    effect: AppChooserEffect,
    post: Option<AppChooserArgs>,
    answer: AppChooserEffect,
)
    requires
        step(args, Msg::Select(i), between, effect),
        between is Some,
        step(between->0, Msg::Open, post, answer),
    ensures
        effect is Nothing,
        i < args.choices@.len() ==> post is None && (answer matches AppChooserEffect::Answer {
            handle,
            surface,
            response: PortalResponse::Success(result),
        } && handle == args.handle && surface.id == args.surface_id && surface.modal == args.modal
            && result.choice@ == args.choices@[i as int]@),
        i >= args.choices@.len() ==> answer is Nothing && post is Some,
{
}

/// Nothing is answered where nothing is selected; a request that is cancelled is answered as cancelled.
pub proof fn law_nothing_selected_nothing_answered(
    args: AppChooserArgs,
    msg: Msg,
    post: Option<AppChooserArgs>,
    effect: AppChooserEffect,
)
    requires
        step(args, msg, post, effect),
    ensures
        msg is Open && args.selected is None ==> effect is Nothing && post == Some(args),
        msg is Cancel ==> post is None && (effect matches AppChooserEffect::Answer {
            handle,
            surface,
            response,
        } && handle == args.handle && surface.id == args.surface_id && response is Cancelled),
        msg is Ignore || msg is Select ==> effect is Nothing && post is Some && post->0.handle
            == args.handle,
{
}

/// Return answers with what is selected, and Escape cancels; no other key does anything.
pub proof fn law_keys_decide(
    args: AppChooserArgs,
    key: DialogKey,
    post: Option<AppChooserArgs>,
    effect: AppChooserEffect,
)
    requires
        key_does(key) is Some,
        step(args, key_does(key)->0, post, effect),
        args.selected is Some,
        args.selected->0 < args.choices@.len(),
    ensures
        effect matches AppChooserEffect::Answer { response, .. } && (key is Enter
            <==> response is Success) && (key is Escape <==> response is Cancelled),
        !(key is Other),
{
}

/// The dialog names the file; without one the address, and without that the type of the content.
pub proof fn law_title_names_what_is_opened(args: AppChooserArgs)
    ensures
        args.filename matches Some(name) ==> title_of(args) == message_with(
            "open-item-with"@,
            "name"@,
            PhraseView::Text(name@),
        ),
        args.filename is None ==> (args.uri matches Some(uri) ==> title_of(args) == message_with(
            "open-item-with"@,
            "name"@,
            PhraseView::Text(uri@),
        )),
        args.filename is None && args.uri is None ==> (args.content_type matches Some(content)
            ==> title_of(args) == message_with(
            "open-item-with"@,
            "name"@,
            PhraseView::Text(content@),
        )),
        args.filename is None && args.uri is None && args.content_type is None ==> title_of(args)
            == plain_message("open-with"@),
{
}

} // verus!
