//! The print portal: requests, the dialog that is open for one, and settings kept under tokens.

use crate::clock::unix_millis;
use crate::dict::Dict;
use crate::print_dialog::choices::{ActiveView, ColorMode, PageSetSelection};
use crate::print_dialog::hints::{apply_xdg_hints, hinted_ranges};
use crate::print_dialog::models::{sync_print_models, PrintModels};
use crate::print_dialog::page_range::has_successors;
use crate::print_dialog::response::{
    build_cpdb_settings, build_xdg_response, cpdb_settings, pair_views, xdg_page_setup, xdg_settings,
};
use crate::print_dialog::state::{DialogView, PrintDialog};
use crate::print_dialog::update::{step, update_at, DialogTask, Msg};
use crate::screencast::dialog::DialogKey;
use crate::text::view_opt;
use crate::value::{value_views, Value};
use std::collections::HashMap;
use vstd::prelude::*;

verus! {

broadcast use vstd::std_specs::hash::group_hash_axioms;

/// What was chosen in a dialog, kept until the document comes.
#[derive(Debug, PartialEq, Eq)]
pub struct CachedPrintSettings {
    pub app_id: String,
    pub printed_id: String,
    pub backend: String,
    pub cpdb_settings: Vec<(String, String)>,
}

/// Seconds after which settings that were not used are forgotten.
pub const TOKEN_LIFETIME_SECONDS: u64 = 300;

/// Settings that were chosen, by token.
#[derive(Debug)]
pub struct TokenCache {
    pub next_token: u32,
    pub tokens: HashMap<u32, CachedPrintSettings>,
}

impl TokenCache {
    /// No settings; the first token is one.
    pub fn new() -> (r: Self)
        ensures
            r.next_token == 1,
            r.tokens@ == Map::<u32, CachedPrintSettings>::empty(),
    {
        TokenCache { next_token: 1, tokens: HashMap::new() }
    }

    /// Keeps settings and gives the token for them. Tokens start again from zero when they run out.
    pub fn remember(&mut self, settings: CachedPrintSettings) -> (token: u32)
        ensures
            token == old(self).next_token,
            final(self).next_token == if token == u32::MAX {
                0
            } else {
                (token + 1) as u32
            },
            final(self).tokens@ == old(self).tokens@.insert(token, settings),
    {
        let token: u32 = self.next_token;
        self.next_token = if token == u32::MAX {
            0
        } else {
            token + 1
        };
        self.tokens.insert(token, settings);
        token
    }

    /// Gives out the settings of a token to the application for which they were kept, once.
    pub fn redeem(&mut self, token: u32, app_id: &str) -> (r: Option<CachedPrintSettings>)
        ensures
            final(self).next_token == old(self).next_token,
            match r {
                Some(settings) => {
                    &&& old(self).tokens@.dom().contains(token)
                    &&& old(self).tokens@[token] == settings
                    &&& settings.app_id@ == app_id@
                    &&& final(self).tokens@ == old(self).tokens@.remove(token)
                },
                None => {
                    &&& final(self).tokens@ == old(self).tokens@
                    &&& !(old(self).tokens@.dom().contains(token) && old(
                        self,
                    ).tokens@[token].app_id@ == app_id@)
                },
            },
    {
        let owned: bool = match self.tokens.get(&token) {
            Some(settings) => crate::text::str_eq(settings.app_id.as_str(), app_id),
            None => false,
        };
        if owned {
            self.tokens.remove(&token)
        } else {
            None
        }
    }

    /// Forgets the settings of a token.
    pub fn expire(&mut self, token: u32)
        ensures
            final(self).next_token == old(self).next_token,
            final(self).tokens@ == old(self).tokens@.remove(token),
    {
        self.tokens.remove(&token);
        proof {
            assert(self.tokens@ =~= old(self).tokens@.remove(token));
        }
    }
}

/// The settings of a token can be had once, by the application they were kept for and by no other.
pub proof fn law_token_is_good_once(
    tokens: Map<u32, CachedPrintSettings>,
    token: u32,
    settings: CachedPrintSettings,
)
    ensures
        tokens.insert(token, settings).dom().contains(token),
        tokens.insert(token, settings)[token] == settings,
        !tokens.insert(token, settings).remove(token).dom().contains(token),
        forall|other: u32|
            other != token ==> (#[trigger] tokens.insert(token, settings).remove(
                token,
            ).dom().contains(other) <==> tokens.dom().contains(other)),
{
}

/// Options of a request to prepare printing.
#[derive(Debug, PartialEq, Eq)]
pub struct PreparePrintOptions {
    pub modal: Option<bool>,
    pub accept_label: Option<String>,
}

/// Options of a request to print.
#[derive(Debug, Clone, Copy, PartialEq, Eq, Structural)]
pub struct PrintOptions {
    pub modal: Option<bool>,
    pub token: Option<u32>,
}

/// What an application asks for.
#[derive(Debug)]
pub enum RequestKind {
    /// To choose how a document will be printed.
    PreparePrint { settings: Dict<Value>, page_setup: Dict<Value>, accept_label: Option<String> },
    /// To print a document.
    Print,
}

/// A request with the dialog for it. Requests and windows are known by numbers.
#[derive(Debug)]
pub struct PrintArgs {
    pub request_id: u64,
    pub handle: String,
    pub app_id: String,
    pub title: String,
    pub modal: bool,
    pub window_id: u64,
    pub dialog: PrintDialog,
    pub request: RequestKind,
}

/// How a request to print goes on.
#[derive(Debug)]
pub enum PrintStart {
    /// Print with settings that were chosen before.
    Print(CachedPrintSettings),
    /// Open a dialog.
    OpenDialog { modal: bool },
}

/// How a request to print goes on: settings that were kept for the application are used up, else a
/// dialog opens, a modal one unless the application says otherwise.
pub fn start_print(cache: &mut TokenCache, app_id: &str, options: &PrintOptions) -> (r: PrintStart)
    ensures
        final(cache).next_token == old(cache).next_token,
        match r {
            PrintStart::Print(settings) => {
                &&& options.token matches Some(token)
                &&& old(cache).tokens@.dom().contains(token)
                &&& old(cache).tokens@[token] == settings
                &&& settings.app_id@ == app_id@
                &&& final(cache).tokens@ == old(cache).tokens@.remove(token)
            },
            PrintStart::OpenDialog { modal } => {
                &&& final(cache).tokens@ == old(cache).tokens@
                &&& modal == (options.modal != Some(false))
                &&& options.token matches Some(token) ==> !(old(cache).tokens@.dom().contains(token)
                    && old(cache).tokens@[token].app_id@ == app_id@)
            },
        },
{
    if let Some(token) = options.token {
        if let Some(settings) = cache.redeem(token, app_id) {
            return PrintStart::Print(settings);
        }
    }
    PrintStart::OpenDialog { modal: options.modal.unwrap_or(true) }
}

/// Whether the dialog of a request to prepare printing is modal.
pub fn prepare_modal(options: &PreparePrintOptions) -> (r: bool)
    ensures
        r == (options.modal != Some(false)),
{
    options.modal.unwrap_or(true)
}

/// The print portal: at most one dialog is open.
#[derive(Debug)]
pub struct PrintPortal {
    pub args: Option<PrintArgs>,
    pub models: Option<PrintModels>,
}

/// A window that is to be closed.
#[derive(Debug, Clone, Copy, PartialEq, Eq, Structural)]
pub struct Closing {
    pub request_id: u64,
    pub window_id: u64,
    pub modal: bool,
}

/// What follows when a request opens the dialog.
#[derive(Debug, Clone, Copy, PartialEq, Eq, Structural)]
pub struct Opened {
    /// The request that is to be answered as cancelled.
    pub cancelled: Option<u64>,
    /// Whether a window has to be opened.
    pub open_window: bool,
}

impl PrintArgs {
    /// Whether the hints of the request can be shown: their pages have successors.
    pub open spec fn hints_fit(self) -> bool {
        match self.request {
            RequestKind::PreparePrint { settings, .. } => hinted_ranges(value_views(settings@)) is Some
                ==> has_successors(hinted_ranges(value_views(settings@))->0),
            RequestKind::Print => true,
        }
    }

    /// The state of the dialog with the hints of the request.
    pub open spec fn hinted_dialog(self) -> DialogView {
        match self.request {
            RequestKind::PreparePrint { settings, page_setup, accept_label } => self.dialog@.with_hints(
                value_views(settings@),
                value_views(page_setup@),
                view_opt(accept_label),
            ),
            RequestKind::Print => self.dialog@,
        }
    }

    /// The window of the dialog.
    pub open spec fn closing(self) -> Closing {
        Closing { request_id: self.request_id, window_id: self.window_id, modal: self.modal }
    }
}

impl PrintPortal {
    /// The rows of buttons show the state of the dialog.
    pub open spec fn in_step(self) -> bool {
        self.args is Some ==> self.models is Some && self.models->0.shows(self.args->0.dialog@)
    }

    /// The PDF printer is in the list of the dialog.
    pub open spec fn wf(self) -> bool {
        self.args is Some ==> self.args->0.dialog.wf()
    }

    /// Opens the dialog for a request. A dialog that is open already gives its window to the new
    /// request, and its own request is cancelled.
    pub fn update_args(&mut self, args: PrintArgs) -> (r: Opened)
        requires
            args.hints_fit(),
        ensures
            r.cancelled == match old(self).args {
                Some(previous) => Some(previous.request_id),
                None => None,
            },
            r.open_window == old(self).args is None,
            final(self).args matches Some(new) && {
                &&& new.dialog@ == args.hinted_dialog()
                &&& new.window_id == match old(self).args {
                    Some(previous) => previous.window_id,
                    None => args.window_id,
                }
                &&& new.request_id == args.request_id
                &&& new.handle == args.handle
                &&& new.app_id == args.app_id
                &&& new.title == args.title
                &&& new.modal == args.modal
                &&& new.request == args.request
            },
            final(self).in_step(),
            args.dialog.wf() ==> final(self).wf(),
    {
        let mut args = args;
        let previous = self.args.take();
        let (cancelled, open_window): (Option<u64>, bool) = match &previous {
            Some(previous) => (Some(previous.request_id), false),
            None => (None, true),
        };
        if let Some(previous) = &previous {
            args.window_id = previous.window_id;
        }
        if let RequestKind::PreparePrint { settings, page_setup, accept_label } = &args.request {
            let label: Option<String> = match accept_label {
                Some(label) => Some(label.clone()),
                None => None,
            };
            apply_xdg_hints(&mut args.dialog, settings, page_setup, label);
        }
        self.models = Some(sync_print_models(&args.dialog));
        self.args = Some(args);
        Opened { cancelled, open_window }
    }

    /// Closes the dialog of a request that was withdrawn.
    pub fn cancel(&mut self, handle: &str) -> (r: Option<Closing>)
        ensures
            match old(self).args {
                Some(args) => if args.handle@ == handle@ {
                    final(self).args is None && r == Some(args.closing())
                } else {
                    final(self).args == old(self).args && r is None
                },
                None => final(self).args is None && r is None,
            },
            final(self).models == old(self).models,
    {
        let same: bool = match &self.args {
            Some(args) => crate::text::str_eq(args.handle.as_str(), handle),
            None => false,
        };
        if !same {
            return None;
        }
        match self.args.take() {
            Some(args) => Some(
                Closing {
                    request_id: args.request_id,
                    window_id: args.window_id,
                    modal: args.modal,
                },
            ),
            None => None,
        }
    }
}


/// What follows from a message.
#[allow(inconsistent_fields)]
#[derive(Debug)]
pub enum PrintEffect {
    Nothing,
    /// A task of the dialog.
    Task(DialogTask),
    /// The request is cancelled and the window closed.
    Cancelled(Closing),
    /// The request is answered with settings, page setup and token, and the window closed.
    Prepared { closing: Closing, settings: Dict<Value>, page_setup: Dict<Value>, token: u32 },
    /// The document is printed and the window closed.
    Print {
        closing: Closing,
        printer_id: String,
        backend: String,
        settings: Vec<(String, String)>,
        title: String,
    },
}

/// Where a message goes.
#[derive(Debug, Clone, Copy, PartialEq, Eq, Structural)]
pub enum Route {
    /// Nothing happens: the range that is typed is invalid.
    Blocked,
    /// Back from the selection of pages.
    LeavePages,
    Confirm,
    Cancel,
    /// A button for the pages.
    Pages(usize),
    /// A button for colours.
    Color(usize),
    /// A button for the orientation.
    Orientation(usize),
    /// A button for the layout.
    Direction(usize),
    /// The dialog handles the message.
    Dialog,
}

/// Where a key goes that would else be `otherwise`: out of the selection of pages first, unless the
/// range that is typed is invalid.
pub open spec fn key_route(d: DialogView, otherwise: Route) -> Route {
    if d.active_view == ActiveView::PageSelection {
        if d.page_selection is Custom && !d.custom_range_valid {
            Route::Blocked
        } else {
            Route::LeavePages
        }
    } else {
        otherwise
    }
}

/// Where a message goes.
pub open spec fn route(d: DialogView, msg: Msg) -> Route {
    match msg {
        Msg::EnterPressed => key_route(d, Route::Confirm),
        Msg::EscapePressed => key_route(d, Route::Cancel),
        Msg::Confirm => Route::Confirm,
        Msg::Cancel => Route::Cancel,
        Msg::PageSelectionModelActivated(i) => Route::Pages(i),
        Msg::ColorModelActivated(i) => Route::Color(i),
        Msg::OrientationModelActivated(i) => Route::Orientation(i),
        Msg::LayoutDirectionModelActivated(i) => Route::Direction(i),
        _ => Route::Dialog,
    }
}

/// Where a key goes that would else be `otherwise`.
fn find_key_route(dialog: &PrintDialog, otherwise: Route) -> (r: Route)
    ensures
        r == key_route(dialog@, otherwise),
{
    proof {
        reveal(PrintDialog::model);
    }
    let is_custom: bool = match &dialog.page_selection {
        PageSetSelection::Custom(_) => true,
        _ => false,
    };
    if dialog.active_view == ActiveView::PageSelection {
        if is_custom && !dialog.custom_range_valid {
            Route::Blocked
        } else {
            Route::LeavePages
        }
    } else {
        otherwise
    }
}

/// Where a message goes.
fn find_route(dialog: &PrintDialog, msg: &Msg) -> (r: Route)
    ensures
        r == route(dialog@, *msg),
{
    match msg {
        Msg::EnterPressed => find_key_route(dialog, Route::Confirm),
        Msg::EscapePressed => find_key_route(dialog, Route::Cancel),
        Msg::Confirm => Route::Confirm,
        Msg::Cancel => Route::Cancel,
        Msg::PageSelectionModelActivated(i) => Route::Pages(*i),
        Msg::ColorModelActivated(i) => Route::Color(*i),
        Msg::OrientationModelActivated(i) => Route::Orientation(*i),
        Msg::LayoutDirectionModelActivated(i) => Route::Direction(*i),
        _ => Route::Dialog,
    }
}

/// Whether two requests are the same but for the state of their dialogs.
pub open spec fn same_request(a: PrintArgs, b: PrintArgs) -> bool {
    &&& a.request_id == b.request_id
    &&& a.handle == b.handle
    &&& a.app_id == b.app_id
    &&& a.title == b.title
    &&& a.modal == b.modal
    &&& a.window_id == b.window_id
    &&& a.request == b.request
}

/// The identifier of the selected printer; empty where none is selected.
pub open spec fn chosen_printer(d: DialogView) -> Seq<char> {
    match d.selected_printer() {
        Some(printer) => printer.id,
        None => Seq::empty(),
    }
}

/// The backend of the selected printer; empty where none is selected.
pub open spec fn chosen_backend(d: DialogView) -> Seq<char> {
    match d.selected_printer() {
        Some(printer) => printer.backend,
        None => Seq::empty(),
    }
}

/// Identifier and backend of the selected printer.
fn selected_printer(dialog: &PrintDialog) -> (r: (String, String))
    ensures
        r.0@ == chosen_printer(dialog@),
        r.1@ == chosen_backend(dialog@),
{
    proof {
        reveal(PrintDialog::model);
    }
    match dialog.selected_printer_index {
        Some(i) => if i < dialog.printers.len() {
            assert(dialog@.printers[i as int] == dialog.printers@[i as int]@);
            (dialog.printers[i].id.clone(), dialog.printers[i].backend.clone())
        } else {
            (String::new(), String::new())
        },
        None => (String::new(), String::new()),
    }
}

/// Whether settings are those that were chosen in the dialog of a request.
pub open spec fn caches(kept: CachedPrintSettings, args: PrintArgs) -> bool {
    &&& kept.app_id == args.app_id
    &&& kept.printed_id@ == chosen_printer(args.dialog@)
    &&& kept.backend@ == chosen_backend(args.dialog@)
    &&& pair_views(kept.cpdb_settings@) == cpdb_settings(args.dialog@)
}

/// Whether an effect is that of confirming the dialog of a request. To prepare is to answer with the
/// settings and to keep them under a token; to print is to hand them to the printer.
pub open spec fn confirms(
    effect: PrintEffect,
    args: PrintArgs,
    before: TokenCache,
    after: TokenCache,
) -> bool {
    match args.request {
        RequestKind::PreparePrint { .. } => match effect {
            PrintEffect::Prepared { closing, settings, page_setup, token } => {
                &&& closing == args.closing()
                &&& value_views(settings@) == xdg_settings(args.dialog@)
                &&& value_views(page_setup@) == xdg_page_setup(args.dialog@)
                &&& token == before.next_token
                &&& after.next_token == if token == u32::MAX {
                    0
                } else {
                    (token + 1) as u32
                }
                &&& after.tokens@.dom() == before.tokens@.dom().insert(token)
                &&& caches(after.tokens@[token], args)
                &&& forall|other: u32|
                    other != token && before.tokens@.dom().contains(other)
                        ==> #[trigger] after.tokens@[other] == before.tokens@[other]
            },
            _ => false,
        },
        RequestKind::Print => match effect {
            PrintEffect::Print { closing, printer_id, backend, settings, title } => {
                &&& closing == args.closing()
                &&& printer_id@ == chosen_printer(args.dialog@)
                &&& backend@ == chosen_backend(args.dialog@)
                &&& pair_views(settings@) == cpdb_settings(args.dialog@)
                &&& title == args.title
                &&& after.next_token == before.next_token
                &&& after.tokens@ == before.tokens@
            },
            _ => false,
        },
    }
}

/// Confirms the dialog of a request.
fn confirm(args: PrintArgs, cache: &mut TokenCache) -> (r: PrintEffect)
    ensures
        confirms(r, args, *old(cache), *final(cache)),
{
    let closing = Closing {
        request_id: args.request_id,
        window_id: args.window_id,
        modal: args.modal,
    };
    let (printer_id, backend) = selected_printer(&args.dialog);
    let settings = build_cpdb_settings(&args.dialog);
    match args.request {
        RequestKind::PreparePrint { .. } => {
            let (xdg, page_setup) = build_xdg_response(&args.dialog);
            let token: u32 = cache.remember(
                CachedPrintSettings {
                    app_id: args.app_id,
                    printed_id: printer_id,
                    backend,
                    cpdb_settings: settings,
                },
            );
            PrintEffect::Prepared { closing, settings: xdg, page_setup, token }
        },
        RequestKind::Print => PrintEffect::Print {
            closing,
            printer_id,
            backend,
            settings,
            title: args.title,
        },
    }
}

/// Shows the main part of the dialog again.
fn leave_pages(dialog: &mut PrintDialog)
    ensures
        final(dialog)@ == (DialogView { active_view: ActiveView::Main, ..old(dialog)@ }),
{
    proof {
        reveal(PrintDialog::model);
    }
    dialog.active_view = ActiveView::Main;
}

/// The state after a button for the pages was pressed.
pub open spec fn with_pages_pressed(d: DialogView, models: PrintModels, i: usize) -> DialogView {
    if i < models.page_selection.segments@.len() {
        DialogView {
            page_selection: models.page_selection.segments@[i as int].data@,
            ..d
        }
    } else {
        d
    }
}

/// The state after a button for colours was pressed. Colour needs a printer that has it.
pub open spec fn with_color_pressed(d: DialogView, models: PrintModels, i: usize) -> DialogView {
    if i < models.color.segments@.len() {
        let mode = models.color.segments@[i as int].data;
        if mode == ColorMode::Color && !d.color_supported {
            d
        } else {
            DialogView { color_mode: mode, ..d }
        }
    } else {
        d
    }
}

/// The state after a button for the orientation was pressed.
pub open spec fn with_orientation_pressed(
    d: DialogView,
    models: PrintModels,
    i: usize,
) -> DialogView {
    if i < models.orientation.segments@.len() {
        DialogView { orientation: models.orientation.segments@[i as int].data, ..d }
    } else {
        d
    }
}

/// The state after a button for the layout was pressed.
pub open spec fn with_direction_pressed(d: DialogView, models: PrintModels, i: usize) -> DialogView {
    if i < models.layout_direction.segments@.len() {
        DialogView { layout_direction: models.layout_direction.segments@[i as int].data, ..d }
    } else {
        d
    }
}

/// Takes over the button for the pages that was pressed.
fn press_pages(dialog: &mut PrintDialog, models: &mut PrintModels, i: usize)
    ensures
        final(dialog)@ == with_pages_pressed(old(dialog)@, *old(models), i),
{
    proof {
        reveal(PrintDialog::model);
    }
    models.page_selection.activate(i);
    if let Some(selection) = models.page_selection.active_data() {
        dialog.page_selection = selection.clone();
    }
}

/// Takes over the button for colours that was pressed.
fn press_color(dialog: &mut PrintDialog, models: &mut PrintModels, i: usize) -> (refused: bool)
    ensures
        refused == (i < old(models).color.segments@.len() && old(models).color.segments@[i as int].data
            == ColorMode::Color && !old(dialog)@.color_supported),
        final(dialog)@ == with_color_pressed(old(dialog)@, *old(models), i),
        final(models).orientation == old(models).orientation,
        final(models).layout_direction == old(models).layout_direction,
        final(models).page_selection == old(models).page_selection,
        final(models).color.segments == old(models).color.segments,
        final(models).color.active == Some(i),
{
    proof {
        reveal(PrintDialog::model);
    }
    models.color.activate(i);
    if let Some(mode) = models.color.active_data() {
        let mode: ColorMode = *mode;
        if mode == ColorMode::Color && !dialog.color_supported {
            return true;
        }
        dialog.color_mode = mode;
    }
    false
}

/// Takes over the button for the orientation that was pressed.
fn press_orientation(dialog: &mut PrintDialog, models: &mut PrintModels, i: usize)
    ensures
        final(dialog)@ == with_orientation_pressed(old(dialog)@, *old(models), i),
        final(models).color == old(models).color,
        final(models).layout_direction == old(models).layout_direction,
        final(models).page_selection == old(models).page_selection,
        final(models).orientation.segments == old(models).orientation.segments,
        final(models).orientation.active == Some(i),
{
    proof {
        reveal(PrintDialog::model);
    }
    models.orientation.activate(i);
    if let Some(orientation) = models.orientation.active_data() {
        dialog.orientation = *orientation;
    }
}

/// Takes over the button for the layout that was pressed.
fn press_direction(dialog: &mut PrintDialog, models: &mut PrintModels, i: usize)
    ensures
        final(dialog)@ == with_direction_pressed(old(dialog)@, *old(models), i),
        final(models).color == old(models).color,
        final(models).orientation == old(models).orientation,
        final(models).page_selection == old(models).page_selection,
        final(models).layout_direction.segments == old(models).layout_direction.segments,
        final(models).layout_direction.active == Some(i),
{
    proof {
        reveal(PrintDialog::model);
    }
    models.layout_direction.activate(i);
    if let Some(direction) = models.layout_direction.active_data() {
        dialog.layout_direction = *direction;
    }
}

/// Whether a button that was pressed is there.
pub open spec fn button_exists(models: PrintModels, r: Route) -> bool {
    match r {
        Route::Pages(i) => i < models.page_selection.segments@.len(),
        Route::Color(i) => i < models.color.segments@.len(),
        Route::Orientation(i) => i < models.orientation.segments@.len(),
        Route::Direction(i) => i < models.layout_direction.segments@.len(),
        _ => true,
    }
}

/// The state of the dialog after a message that leaves it open.
pub open spec fn dialog_after(
    d: DialogView,
    models: PrintModels,
    msg: Msg,
    millis: u64,
) -> DialogView {
    match route(d, msg) {
        Route::LeavePages => DialogView { active_view: ActiveView::Main, ..d },
        Route::Pages(i) => with_pages_pressed(d, models, i),
        Route::Color(i) => with_color_pressed(d, models, i),
        Route::Orientation(i) => with_orientation_pressed(d, models, i),
        Route::Direction(i) => with_direction_pressed(d, models, i),
        Route::Dialog => step(d, msg, millis).0,
        _ => d,
    }
}

/// Whether a message that came at a time was handled as it should. Without an open dialog nothing
/// happens; confirming and cancelling close it; else the rows of buttons stay in step with it.
pub open spec fn handled(
    before: PrintPortal,
    cache_before: TokenCache,
    msg: Msg,
    millis: u64,
    after: PrintPortal,
    cache_after: TokenCache,
    effect: PrintEffect,
) -> bool {
    match before.args {
        None => after.args is None && effect is Nothing && cache_after == cache_before,
        Some(args) => match route(args.dialog@, msg) {
            Route::Confirm => after.args is None && confirms(
                effect,
                args,
                cache_before,
                cache_after,
            ),
            Route::Cancel => {
                &&& after.args is None
                &&& effect == PrintEffect::Cancelled(args.closing())
                &&& cache_after == cache_before
            },
            go => {
                &&& cache_after == cache_before
                &&& after.args matches Some(new) && same_request(new, args) && new.dialog@
                    == dialog_after(args.dialog@, before.models->0, msg, millis)
                &&& if go == Route::Dialog {
                    effect matches PrintEffect::Task(task) && task@ == step(
                        args.dialog@,
                        msg,
                        millis,
                    ).1
                } else {
                    effect is Nothing
                }
                &&& button_exists(before.models->0, go) ==> after.in_step()
            },
        },
    }
}

impl PrintPortal {
    /// Handles a message that came at a time.
    pub fn update_msg_at(&mut self, cache: &mut TokenCache, msg: Msg, millis: u64) -> (r:
        PrintEffect)
        requires
            old(self).wf(),
            old(self).in_step(),
        ensures
            final(self).wf(),
            handled(*old(self), *old(cache), msg, millis, *final(self), *final(cache), r),
    {
        let mut args: PrintArgs = match self.args.take() {
            Some(args) => args,
            None => {
                return PrintEffect::Nothing;
            },
        };
        let mut models: PrintModels = match self.models.take() {
            Some(models) => models,
            None => sync_print_models(&args.dialog),
        };
        let go = find_route(&args.dialog, &msg);
        let mut effect = PrintEffect::Nothing;
        match go {
            Route::Confirm => {
                return confirm(args, cache);
            },
            Route::Cancel => {
                return PrintEffect::Cancelled(
                    Closing {
                        request_id: args.request_id,
                        window_id: args.window_id,
                        modal: args.modal,
                    },
                );
            },
            Route::Blocked => {},
            Route::LeavePages => {
                leave_pages(&mut args.dialog);
            },
            Route::Pages(i) => {
                press_pages(&mut args.dialog, &mut models, i);
                models = sync_print_models(&args.dialog);
            },
            Route::Color(i) => {
                let refused = press_color(&mut args.dialog, &mut models, i);
                if refused {
                    models = sync_print_models(&args.dialog);
                }
            },
            Route::Orientation(i) => {
                press_orientation(&mut args.dialog, &mut models, i);
            },
            Route::Direction(i) => {
                press_direction(&mut args.dialog, &mut models, i);
            },
            Route::Dialog => {
                effect = PrintEffect::Task(update_at(&mut args.dialog, msg, millis));
                models = sync_print_models(&args.dialog);
            },
        }
        self.args = Some(args);
        self.models = Some(models);
        effect
    }

    /// Handles a message that comes now.
    pub fn update_msg(&mut self, cache: &mut TokenCache, msg: Msg) -> (r: PrintEffect)
        requires
            old(self).wf(),
            old(self).in_step(),
        ensures
            final(self).wf(),
            exists|millis: u64| #[trigger]
                handled(*old(self), *old(cache), msg, millis, *final(self), *final(cache), r),
    {
        let millis: u64 = unix_millis();
        self.update_msg_at(cache, msg, millis)
    }
}

/// What a key does in the dialog.
pub open spec fn key_does(key: DialogKey) -> Option<Msg> {
    match key {
        DialogKey::Enter => Some(Msg::EnterPressed),
        DialogKey::Escape => Some(Msg::EscapePressed),
        DialogKey::Other => None,
    }
}

/// What a key does in the dialog.
pub fn on_key(key: DialogKey) -> (r: Option<Msg>)
    ensures
        r == key_does(key),
        r == match key {
            DialogKey::Enter => Some(Msg::EnterPressed),
            DialogKey::Escape => Some(Msg::EscapePressed),
            DialogKey::Other => None,
        },
{
    match key {
        DialogKey::Enter => Some(Msg::EnterPressed),
        DialogKey::Escape => Some(Msg::EscapePressed),
        DialogKey::Other => None,
    }
}

/// A request to prepare that is confirmed closes its window and is answered with a token; under the token
/// stand the selected printer and what it is told, for the application that asked and no other, and what
/// other tokens stand for stays.
pub proof fn law_confirmed_settings_are_kept(
    before: PrintPortal,
    cache_before: TokenCache,
    millis: u64,
    after: PrintPortal,
    cache_after: TokenCache,
    effect: PrintEffect,
    other: u32,
)
    requires
        before.args matches Some(args) && args.request is PreparePrint,
        handled(before, cache_before, Msg::Confirm, millis, after, cache_after, effect),
    ensures
        ({
            let args = before.args->0;
            &&& after.args is None
            &&& effect matches PrintEffect::Prepared { closing, settings, page_setup, token } && {
                &&& closing.request_id == args.request_id
                &&& closing.window_id == args.window_id
                &&& closing.modal == args.modal
                &&& token == cache_before.next_token
                &&& cache_after.next_token != token
                &&& cache_after.tokens@.dom().contains(token)
                &&& cache_after.tokens@[token].app_id@ == args.app_id@
                &&& args.dialog@.selected_printer() matches Some(printer)
                    ==> cache_after.tokens@[token].printed_id@ == printer.id
                    && cache_after.tokens@[token].backend@ == printer.backend
                &&& pair_views(cache_after.tokens@[token].cpdb_settings@) == cpdb_settings(
                    args.dialog@,
                )
                &&& value_views(settings@) == xdg_settings(args.dialog@)
                &&& value_views(page_setup@) == xdg_page_setup(args.dialog@)
                &&& other != token ==> (cache_after.tokens@.dom().contains(other)
                    <==> cache_before.tokens@.dom().contains(other))
                &&& other != token && cache_before.tokens@.dom().contains(other)
                    ==> cache_after.tokens@[other] == cache_before.tokens@[other]
            }
        }),
{
    assert(other != cache_before.next_token && cache_before.tokens@.dom().contains(other)
        ==> cache_after.tokens@[other] == cache_before.tokens@[other]);
}

/// A request to print that is confirmed closes its window and goes to the selected printer under its
/// title; no token is given.
pub proof fn law_confirmed_document_is_printed(
    before: PrintPortal,
    cache_before: TokenCache,
    millis: u64,
    after: PrintPortal,
    cache_after: TokenCache,
    effect: PrintEffect,
)
    requires
        before.args matches Some(args) && args.request is Print,
        handled(before, cache_before, Msg::Confirm, millis, after, cache_after, effect),
    ensures
        ({
            let args = before.args->0;
            &&& after.args is None
            &&& cache_after.tokens@ == cache_before.tokens@
            &&& cache_after.next_token == cache_before.next_token
            &&& effect matches PrintEffect::Print { closing, printer_id, backend, settings, title } && {
                &&& closing.request_id == args.request_id
                &&& closing.window_id == args.window_id
                &&& closing.modal == args.modal
                &&& title@ == args.title@
                &&& args.dialog@.selected_printer() matches Some(printer) ==> printer_id@
                    == printer.id && backend@ == printer.backend
                &&& args.dialog@.selected_printer() is None ==> printer_id@.len() == 0
                    && backend@.len() == 0
                &&& pair_views(settings@) == cpdb_settings(args.dialog@)
            }
        }),
{
}

/// A request that is cancelled closes its own window and leaves nothing behind.
pub proof fn law_cancelled_request_leaves_nothing(
    before: PrintPortal,
    cache_before: TokenCache,
    millis: u64,
    after: PrintPortal,
    cache_after: TokenCache,
    effect: PrintEffect,
)
    requires
        before.args is Some,
        handled(before, cache_before, Msg::Cancel, millis, after, cache_after, effect),
    ensures
        after.args is None,
        cache_after == cache_before,
        effect matches PrintEffect::Cancelled(closing) && closing.request_id
            == before.args->0.request_id && closing.window_id == before.args->0.window_id
            && closing.modal == before.args->0.modal,
{
}

/// Enter confirms and Escape cancels. From the selection of pages they lead back to the dialog instead,
/// but not from a range that is not valid; nothing else changes by it. No other key does anything.
pub proof fn law_keys_decide(
    before: PrintPortal,
    cache_before: TokenCache,
    millis: u64,
    after: PrintPortal,
    cache_after: TokenCache,
    effect: PrintEffect,
    key: DialogKey,
)
    requires
        before.args is Some,
    ensures
        key_does(key) is None <==> key is Other,
        ({
            let d = before.args->0.dialog@;
            let msg = key_does(key)->0;
            let same = if key is Enter {
                Msg::Confirm
            } else {
                Msg::Cancel
            };
            &&& key !is Other && !(d.active_view is PageSelection) ==> (handled(
                before,
                cache_before,
                msg,
                millis,
                after,
                cache_after,
                effect,
            ) <==> handled(before, cache_before, same, millis, after, cache_after, effect))
            &&& key !is Other && d.active_view is PageSelection && handled(
                before,
                cache_before,
                msg,
                millis,
                after,
                cache_after,
                effect,
            ) ==> {
                &&& after.args is Some
                &&& effect is Nothing
                &&& cache_after == cache_before
                &&& d.page_selection is Custom && !d.custom_range_valid ==> after.args->0.dialog@ == d
                &&& !(d.page_selection is Custom) || d.custom_range_valid
                    ==> after.args->0.dialog@.active_view is Main
                    && after.args->0.dialog@.page_selection == d.page_selection
                    && after.args->0.dialog@.copies == d.copies
                    && after.args->0.dialog@.collate == d.collate
            }
        }),
{
}

/// A button does what it shows. The first of two buttons for colours is for colour, where the printer has
/// it, and the second for none; the first for the orientation is upright. Of the buttons for pages the
/// first is for all, and the others for the current, the odd, the even and the typed ones.
pub proof fn law_buttons_do_what_they_show(d: DialogView, models: PrintModels, millis: u64)
    requires
        models.shows(d),
    ensures
        d.color_supported ==> dialog_after(
            d,
            models,
            Msg::ColorModelActivated(0),
            millis,
        ).color_mode is Color,
        !d.color_supported ==> dialog_after(d, models, Msg::ColorModelActivated(0), millis) == d,
        dialog_after(d, models, Msg::ColorModelActivated(1), millis).color_mode is Monochrome,
        dialog_after(d, models, Msg::OrientationModelActivated(0), millis).orientation is Portrait,
        dialog_after(d, models, Msg::OrientationModelActivated(1), millis).orientation is Landscape,
        dialog_after(d, models, Msg::PageSelectionModelActivated(0), millis).page_selection is All,
        dialog_after(
            d,
            models,
            Msg::PageSelectionModelActivated(1),
            millis,
        ).page_selection is Current,
        dialog_after(d, models, Msg::PageSelectionModelActivated(2), millis).page_selection is Odd,
        dialog_after(d, models, Msg::PageSelectionModelActivated(3), millis).page_selection is Even,
        dialog_after(
            d,
            models,
            Msg::PageSelectionModelActivated(4),
            millis,
        ).page_selection is Custom,
        dialog_after(
            d,
            models,
            Msg::LayoutDirectionModelActivated(0),
            millis,
        ).layout_direction is LeftToRightTopToBottom,
        dialog_after(
            d,
            models,
            Msg::LayoutDirectionModelActivated(1),
            millis,
        ).layout_direction is RightToLeftTopToBottom,
        dialog_after(
            d,
            models,
            Msg::LayoutDirectionModelActivated(2),
            millis,
        ).layout_direction is TopToBottomLeftToRight,
        dialog_after(
            d,
            models,
            Msg::LayoutDirectionModelActivated(3),
            millis,
        ).layout_direction is TopToBottomRightToLeft,
{
    let colors = models.color.values();
    assert(colors.len() == 2);
    assert(colors[0] == models.color.segments@[0].data);
    assert(colors[1] == models.color.segments@[1].data);
    let turns = models.orientation.values();
    assert(turns.len() == 2);
    assert(turns[0] == models.orientation.segments@[0].data);
    assert(turns[1] == models.orientation.segments@[1].data);
    let ways = models.layout_direction.values();
    assert(ways.len() == 4);
    assert(ways[0] == models.layout_direction.segments@[0].data);
    assert(ways[1] == models.layout_direction.segments@[1].data);
    assert(ways[2] == models.layout_direction.segments@[2].data);
    assert(ways[3] == models.layout_direction.segments@[3].data);
    let pages = models.page_selection.values().map_values(
        |selection: PageSetSelection| selection@,
    );
    assert(pages.len() == 5);
    assert(pages[0] == models.page_selection.segments@[0].data@);
    assert(pages[1] == models.page_selection.segments@[1].data@);
    assert(pages[2] == models.page_selection.segments@[2].data@);
    assert(pages[3] == models.page_selection.segments@[3].data@);
    assert(pages[4] == models.page_selection.segments@[4].data@);
}

/// A request that takes over the window of another one keeps the window, and the hints of a request to
/// print are none: its dialog begins as it is.
pub proof fn law_document_has_no_hints(args: PrintArgs)
    requires
        args.request is Print,
    ensures
        args.hinted_dialog() == args.dialog@,
        args.hints_fit(),
{
}

} // verus!
