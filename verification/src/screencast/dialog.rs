//! The dialog in which the user chooses what an application gets to see.

use crate::label::{plain_message, Label, LabelView, Phrase, PhraseView};
use crate::screencast::session::StreamSource;
use crate::screencast::{CaptureSources, CaptureView, SOURCE_TYPE_MONITOR, SOURCE_TYPE_WINDOW};
use crate::seqs::{lemma_first_position, position};
use crate::text::{str_eq, view_opt};
use vstd::prelude::*;

verus! {

/// The first position of a number.
fn find_id(ids: &Vec<u64>, id: u64) -> (r: Option<usize>)
    ensures
        r == position(ids@, id),
        r matches Some(i) ==> i < ids@.len(),
{
    let mut i: usize = 0;
    while i < ids.len()
        invariant
            i <= ids@.len(),
            forall|j: int| 0 <= j < i ==> ids@[j] != id,
        decreases ids@.len() - i,
    {
        if ids[i] == id {
            proof {
                lemma_first_position(ids@, id, i as int);
            }
            return Some(i);
        }
        i = i + 1;
    }
    proof {
        lemma_first_position(ids@, id, ids@.len() as int);
    }
    None
}

/// The numbers with one more, or with one less where it is among them.
pub open spec fn toggled(ids: Seq<u64>, id: u64) -> Seq<u64> {
    match position(ids, id) {
        Some(i) => ids.remove(i as int),
        None => ids.push(id),
    }
}

/// The sources after an output was chosen. Where one source is all that can be chosen, it takes the
/// place of the one that was.
pub open spec fn with_output(sources: CaptureView, id: u64, multiple: bool) -> CaptureView {
    if position(sources.outputs, id) is None && !multiple {
        CaptureView { outputs: seq![id], toplevels: Seq::empty() }
    } else {
        CaptureView { outputs: toggled(sources.outputs, id), toplevels: sources.toplevels }
    }
}

/// The sources after a window was chosen.
pub open spec fn with_toplevel(sources: CaptureView, id: u64, multiple: bool) -> CaptureView {
    if position(sources.toplevels, id) is None && !multiple {
        CaptureView { outputs: Seq::empty(), toplevels: seq![id] }
    } else {
        CaptureView { outputs: sources.outputs, toplevels: toggled(sources.toplevels, id) }
    }
}

impl CaptureSources {
    /// Nothing.
    pub fn new() -> (r: Self)
        ensures
            r@ == (CaptureView { outputs: Seq::empty(), toplevels: Seq::empty() }),
    {
        CaptureSources { outputs: Vec::new(), toplevels: Vec::new() }
    }

    /// Whether nothing is chosen.
    pub fn is_empty(&self) -> (r: bool)
        ensures
            r == (self@.outputs.len() == 0 && self@.toplevels.len() == 0),
    {
        self.outputs.len() == 0 && self.toplevels.len() == 0
    }

    /// Takes everything from the choice.
    pub fn clear(&mut self)
        ensures
            final(self)@ == (CaptureView { outputs: Seq::empty(), toplevels: Seq::empty() }),
    {
        self.outputs.clear();
        self.toplevels.clear();
    }

    /// Chooses an output, or takes it from the choice.
    pub fn toggle_output(&mut self, id: u64, multiple: bool)
        ensures
            final(self)@ == with_output(old(self)@, id, multiple),
    {
        match find_id(&self.outputs, id) {
            Some(i) => {
                self.outputs.remove(i);
            },
            None => {
                if !multiple && !self.is_empty() {
                    self.clear();
                }
                self.outputs.push(id);
            },
        }
        proof {
            assert(self@.outputs =~= with_output(old(self)@, id, multiple).outputs);
            assert(self@.toplevels =~= with_output(old(self)@, id, multiple).toplevels);
        }
    }

    /// Chooses a window, or takes it from the choice.
    pub fn toggle_toplevel(&mut self, id: u64, multiple: bool)
        ensures
            final(self)@ == with_toplevel(old(self)@, id, multiple),
    {
        match find_id(&self.toplevels, id) {
            Some(i) => {
                self.toplevels.remove(i);
            },
            None => {
                if !multiple && !self.is_empty() {
                    self.clear();
                }
                self.toplevels.push(id);
            },
        }
        proof {
            assert(self@.outputs =~= with_toplevel(old(self)@, id, multiple).outputs);
            assert(self@.toplevels =~= with_toplevel(old(self)@, id, multiple).toplevels);
        }
    }
}

/// Whether at most one source is chosen.
pub open spec fn at_most_one(sources: CaptureView) -> bool {
    sources.outputs.len() + sources.toplevels.len() <= 1
}

/// Where one source is all that can be chosen, no more than one is chosen ever.
pub proof fn law_single_choice_stays_single(sources: CaptureView, id: u64)
    requires
        at_most_one(sources),
        sources.outputs.len() <= usize::MAX,
    ensures
        at_most_one(with_output(sources, id, false)),
        at_most_one(with_toplevel(sources, id, false)),
{
    crate::seqs::lemma_first_position_of(sources.outputs, id);
    crate::seqs::lemma_first_position_of(sources.toplevels, id);
}

/// Choosing what is not chosen and then choosing it again leaves the choice as it was, where several
/// sources can be chosen.
pub proof fn law_choosing_twice_undoes(sources: CaptureView, id: u64)
    requires
        sources.outputs.len() < usize::MAX,
        sources.toplevels.len() < usize::MAX,
    ensures
        !sources.outputs.contains(id) ==> with_output(
            with_output(sources, id, true),
            id,
            true,
        ) == sources,
        !sources.toplevels.contains(id) ==> with_toplevel(
            with_toplevel(sources, id, true),
            id,
            true,
        ) == sources,
{
    if !sources.outputs.contains(id) {
        lemma_toggle_twice(sources.outputs, id);
    }
    if !sources.toplevels.contains(id) {
        lemma_toggle_twice(sources.toplevels, id);
    }
}

/// A number that is put behind others and then taken away leaves the others.
proof fn lemma_toggle_twice(ids: Seq<u64>, id: u64)
    requires
        !ids.contains(id),
        ids.len() < usize::MAX,
    ensures
        toggled(ids, id) == ids.push(id),
        toggled(toggled(ids, id), id) == ids,
{
    assert forall|j: int| 0 <= j < ids.len() implies ids[j] != id by {
        assert(ids.contains(ids[j]));
    }
    lemma_first_position(ids, id, ids.len() as int);
    let more = ids.push(id);
    assert forall|j: int| 0 <= j < ids.len() implies more[j] != id by {}
    lemma_first_position(more, id, ids.len() as int);
    assert(more.remove(ids.len() as int) =~= ids);
}

/// A list of sources.
#[derive(Debug, Clone, Copy, PartialEq, Eq, Structural)]
pub enum Tab {
    Outputs,
    Windows,
}

/// The lists that there are, and the one that is shown.
#[derive(Debug)]
pub struct TabModel {
    pub tabs: Vec<Tab>,
    pub active: Option<usize>,
}

/// The lists for kinds of sources.
pub open spec fn tabs_for(source_types: u32) -> Seq<Tab> {
    (if source_types & SOURCE_TYPE_MONITOR != 0 {
        seq![Tab::Outputs]
    } else {
        Seq::empty()
    }) + (if source_types & SOURCE_TYPE_WINDOW != 0 {
        seq![Tab::Windows]
    } else {
        Seq::empty()
    })
}

impl TabModel {
    /// No lists.
    pub fn new() -> (r: Self)
        ensures
            r.tabs@ == Seq::<Tab>::empty(),
            r.active is None,
    {
        TabModel { tabs: Vec::new(), active: None }
    }

    /// Takes all lists away.
    pub fn clear(&mut self)
        ensures
            final(self).tabs@ == Seq::<Tab>::empty(),
            final(self).active is None,
    {
        self.tabs.clear();
        self.active = None;
    }

    /// Sets up the lists for kinds of sources; the first one is shown.
    pub fn set_up(&mut self, source_types: u32)
        ensures
            final(self).tabs@ == tabs_for(source_types),
            final(self).active == if tabs_for(source_types).len() > 0 {
                Some(0usize)
            } else {
                None
            },
    {
        self.clear();
        if source_types & SOURCE_TYPE_MONITOR != 0 {
            self.tabs.push(Tab::Outputs);
        }
        if source_types & SOURCE_TYPE_WINDOW != 0 {
            self.tabs.push(Tab::Windows);
        }
        proof {
            assert(self.tabs@ =~= tabs_for(source_types));
        }
        if self.tabs.len() > 0 {
            self.active = Some(0);
        }
    }

    /// Shows a list.
    pub fn activate(&mut self, i: usize)
        requires
            i < old(self).tabs@.len(),
        ensures
            *final(self) == (TabModel { active: Some(i), ..*old(self) }),
    {
        self.active = Some(i);
    }

    /// The list that is shown.
    pub open spec fn shown(self) -> Option<Tab> {
        match self.active {
            Some(i) => if i < self.tabs@.len() {
                Some(self.tabs@[i as int])
            } else {
                None
            },
            None => None,
        }
    }

    /// The list that is shown.
    pub fn active_tab(&self) -> (r: Option<Tab>)
        ensures
            r == self.shown(),
    {
        match self.active {
            Some(i) => if i < self.tabs.len() {
                Some(self.tabs[i])
            } else {
                None
            },
            None => None,
        }
    }
}

/// An output in the dialog.
#[derive(Debug)]
pub struct OutputChoice {
    pub id: u64,
    pub name: Option<String>,
}

/// A window in the dialog.
#[derive(Debug)]
pub struct ToplevelChoice {
    pub id: u64,
    pub title: String,
    pub icon: Option<String>,
}

/// A request that waits for the user.
#[derive(Debug)]
pub struct Args {
    pub session_handle: String,
    pub multiple: bool,
    pub source_types: u32,
    pub outputs: Vec<OutputChoice>,
    pub toplevels: Vec<ToplevelChoice>,
    pub app_name: Option<String>,
    pub capture_sources: CaptureSources,
}

/// What the user does.
#[derive(Debug, Clone, Copy, PartialEq, Eq, Structural)]
pub enum Msg {
    ActivateTab(usize),
    SelectOutput(u64),
    SelectToplevel(u64),
    Share,
    Cancel,
}

/// What follows.
#[derive(Debug)]
pub enum DialogEffect {
    Nothing,
    /// The dialog is closed, and the request is answered with what was chosen, or without.
    Answer { handle: String, sources: Option<CaptureSources> },
}

/// The dialog.
#[derive(Debug)]
pub struct ScreencastDialog {
    pub args: Option<Args>,
    pub tab_model: TabModel,
}

/// What follows from what the user does, while a request waits.
pub open spec fn step(
    pre: ScreencastDialog,
    args: Args,
    msg: Msg,
    post: ScreencastDialog,
    effect: DialogEffect,
) -> bool {
    match msg {
        Msg::ActivateTab(i) => {
            &&& post == (ScreencastDialog {
                tab_model: TabModel { active: Some(i), ..pre.tab_model },
                ..pre
            })
            &&& effect == DialogEffect::Nothing
        },
        Msg::SelectOutput(id) => {
            &&& post.args matches Some(new)
            &&& post == (ScreencastDialog {
                args: Some(Args { capture_sources: new.capture_sources, ..args }),
                ..pre
            })
            &&& new.capture_sources@ == with_output(args.capture_sources@, id, args.multiple)
            &&& effect == DialogEffect::Nothing
        },
        Msg::SelectToplevel(id) => {
            &&& post.args matches Some(new)
            &&& post == (ScreencastDialog {
                args: Some(Args { capture_sources: new.capture_sources, ..args }),
                ..pre
            })
            &&& new.capture_sources@ == with_toplevel(args.capture_sources@, id, args.multiple)
            &&& effect == DialogEffect::Nothing
        },
        Msg::Share => {
            &&& post == (ScreencastDialog { args: None, ..pre })
            &&& effect == (DialogEffect::Answer {
                handle: args.session_handle,
                sources: Some(args.capture_sources),
            })
        },
        Msg::Cancel => {
            &&& post == (ScreencastDialog { args: None, ..pre })
            &&& effect == (DialogEffect::Answer { handle: args.session_handle, sources: None })
        },
    }
}

/// What follows from a new request.
#[derive(Debug)]
pub struct Taken {
    /// The request that waited before and is answered without a choice.
    pub replaced: Option<String>,
    /// Whether the dialog is to be opened.
    pub open: bool,
}

impl ScreencastDialog {
    /// A dialog without a request.
    pub fn new() -> (r: Self)
        ensures
            r.args is None,
            r.tab_model.tabs@ == Seq::<Tab>::empty(),
            r.tab_model.active is None,
    {
        ScreencastDialog { args: None, tab_model: TabModel::new() }
    }

    /// Does what the user wants; nothing without a request.
    pub fn update_msg(&mut self, msg: Msg) -> (r: DialogEffect)
        requires
            msg matches Msg::ActivateTab(i) ==> i < old(self).tab_model.tabs@.len(),
        ensures
            match old(self).args {
                Some(args) => step(*old(self), args, msg, *final(self), r),
                None => *final(self) == *old(self) && r == DialogEffect::Nothing,
            },
    {
        if self.args.is_none() {
            return DialogEffect::Nothing;
        }
        match msg {
            Msg::ActivateTab(i) => {
                self.tab_model.activate(i);
                DialogEffect::Nothing
            },
            Msg::SelectOutput(id) => {
                if let Some(args) = &mut self.args {
                    args.capture_sources.toggle_output(id, args.multiple);
                }
                DialogEffect::Nothing
            },
            Msg::SelectToplevel(id) => {
                if let Some(args) = &mut self.args {
                    args.capture_sources.toggle_toplevel(id, args.multiple);
                }
                DialogEffect::Nothing
            },
            Msg::Share => match self.args.take() {
                Some(args) => DialogEffect::Answer {
                    handle: args.session_handle,
                    sources: Some(args.capture_sources),
                },
                None => DialogEffect::Nothing,
            },
            Msg::Cancel => match self.args.take() {
                Some(args) => DialogEffect::Answer { handle: args.session_handle, sources: None },
                None => DialogEffect::Nothing,
            },
        }
    }

    /// Takes up a request. One that waited is answered without a choice, and its dialog is used.
    pub fn update_args(&mut self, args: Args) -> (r: Taken)
        ensures
            final(self).args == Some(args),
            final(self).tab_model.tabs@ == tabs_for(args.source_types),
            final(self).tab_model.active == if tabs_for(args.source_types).len() > 0 {
                Some(0usize)
            } else {
                None
            },
            r.open == old(self).args is None,
            r.replaced == match old(self).args {
                Some(before) => Some(before.session_handle),
                None => None,
            },
    {
        let replaced = match self.args.take() {
            Some(before) => Some(before.session_handle),
            None => None,
        };
        let open = replaced.is_none();
        self.tab_model.set_up(args.source_types);
        self.args = Some(args);
        Taken { replaced, open }
    }

    /// Cancels a request, if it is the one that waits.
    pub fn cancel(&mut self, session_handle: &str) -> (r: DialogEffect)
        ensures
            match old(self).args {
                Some(args) if args.session_handle@ == session_handle@ => {
                    &&& *final(self) == (ScreencastDialog { args: None, ..*old(self) })
                    &&& r == (DialogEffect::Answer { handle: args.session_handle, sources: None })
                },
                _ => *final(self) == *old(self) && r == DialogEffect::Nothing,
            },
    {
        let own = match &self.args {
            Some(args) => str_eq(args.session_handle.as_str(), session_handle),
            None => false,
        };
        if own {
            self.update_msg(Msg::Cancel)
        } else {
            DialogEffect::Nothing
        }
    }
}

/// A source in the list.
#[derive(Debug)]
pub struct SourceEntry {
    pub label: String,
    pub icon: Option<String>,
    pub selected: bool,
    pub source: StreamSource,
}

/// A source in the list, as a value.
pub struct EntryView {
    pub label: Seq<char>,
    pub icon: Option<Seq<char>>,
    pub selected: bool,
    pub source: StreamSource,
}

impl View for SourceEntry {
    type V = EntryView;

    open spec fn view(&self) -> EntryView {
        EntryView {
            label: self.label@,
            icon: view_opt(self.icon),
            selected: self.selected,
            source: self.source,
        }
    }
}

/// Sources in the list, as values.
pub open spec fn entry_views(entries: Seq<SourceEntry>) -> Seq<EntryView> {
    entries.map_values(|entry: SourceEntry| entry@)
}

/// The outputs in the list.
pub open spec fn output_entries(outputs: Seq<OutputChoice>, chosen: Seq<u64>) -> Seq<EntryView> {
    outputs.map_values(
        |output: OutputChoice|
            EntryView {
                label: output.name->0@,
                icon: None,
                selected: chosen.contains(output.id),
                source: StreamSource::Output(output.id),
            },
    )
}

/// The windows in the list.
pub open spec fn toplevel_entries(
    toplevels: Seq<ToplevelChoice>,
    chosen: Seq<u64>,
) -> Seq<EntryView> {
    toplevels.map_values(
        |toplevel: ToplevelChoice|
            EntryView {
                label: toplevel.title@,
                icon: view_opt(toplevel.icon),
                selected: chosen.contains(toplevel.id),
                source: StreamSource::Toplevel(toplevel.id),
            },
    )
}

/// Whether all outputs have names.
pub open spec fn all_named(outputs: Seq<OutputChoice>) -> bool {
    forall|i: int| 0 <= i < outputs.len() ==> (#[trigger] outputs[i]).name is Some
}

/// Whether a number is among others.
fn contains_id(ids: &Vec<u64>, id: u64) -> (r: bool)
    ensures
        r == ids@.contains(id),
{
    let mut i: usize = 0;
    while i < ids.len()
        invariant
            i <= ids@.len(),
            forall|j: int| 0 <= j < i ==> ids@[j] != id,
        decreases ids@.len() - i,
    {
        if ids[i] == id {
            return true;
        }
        i = i + 1;
    }
    false
}

/// The outputs in the list.
pub fn list_outputs(outputs: &Vec<OutputChoice>, sources: &CaptureSources) -> (r: Vec<SourceEntry>)
    requires
        all_named(outputs@),
    ensures
        entry_views(r@) == output_entries(outputs@, sources@.outputs),
{
    let ghost all = output_entries(outputs@, sources@.outputs);
    let mut r: Vec<SourceEntry> = Vec::new();
    let mut i: usize = 0;
    proof {
        assert(entry_views(r@) =~= all.take(0));
    }
    while i < outputs.len()
        invariant
            i <= outputs@.len(),
            all_named(outputs@),
            all == output_entries(outputs@, sources@.outputs),
            entry_views(r@) == all.take(i as int),
        decreases outputs@.len() - i,
    {
        let ghost before = r@;
        assert(outputs@[i as int].name is Some);
        if let Some(name) = &outputs[i].name {
            let entry = SourceEntry {
                label: name.clone(),
                icon: None,
                selected: contains_id(&sources.outputs, outputs[i].id),
                source: StreamSource::Output(outputs[i].id),
            };
            r.push(entry);
            proof {
                assert(entry@ == all[i as int]);
                assert(entry_views(r@) =~= entry_views(before).push(entry@));
                assert(all.take(i + 1) =~= all.take(i as int).push(all[i as int]));
            }
        }
        i = i + 1;
    }
    proof {
        assert(all.take(all.len() as int) =~= all);
    }
    r
}

/// The windows in the list.
pub fn list_toplevels(toplevels: &Vec<ToplevelChoice>, sources: &CaptureSources) -> (r: Vec<
    SourceEntry,
>)
    ensures
        entry_views(r@) == toplevel_entries(toplevels@, sources@.toplevels),
{
    let ghost all = toplevel_entries(toplevels@, sources@.toplevels);
    let mut r: Vec<SourceEntry> = Vec::new();
    let mut i: usize = 0;
    proof {
        assert(entry_views(r@) =~= all.take(0));
    }
    while i < toplevels.len()
        invariant
            i <= toplevels@.len(),
            all == toplevel_entries(toplevels@, sources@.toplevels),
            entry_views(r@) == all.take(i as int),
        decreases toplevels@.len() - i,
    {
        let ghost before = r@;
        let entry = SourceEntry {
            label: toplevels[i].title.clone(),
            icon: toplevels[i].icon.clone(),
            selected: contains_id(&sources.toplevels, toplevels[i].id),
            source: StreamSource::Toplevel(toplevels[i].id),
        };
        r.push(entry);
        proof {
            assert(entry@ == all[i as int]);
            assert(entry_views(r@) =~= entry_views(before).push(entry@));
            assert(all.take(i + 1) =~= all.take(i as int).push(all[i as int]));
        }
        i = i + 1;
    }
    proof {
        assert(all.take(all.len() as int) =~= all);
    }
    r
}

/// How many windows are shown without a scroll bar.
pub const UNSCROLLED_TOPLEVELS: usize = 8;

/// What the dialog shows.
#[derive(Debug)]
pub struct DialogContent {
    pub title: Label,
    pub body: Label,
    pub tab: Tab,
    pub entries: Vec<SourceEntry>,
    /// Whether the list has a scroll bar.
    pub scrolls: bool,
    /// Whether the choice can be shared.
    pub can_share: bool,
}

/// The name of an application.
pub open spec fn app_phrase(name: Option<Seq<char>>) -> PhraseView {
    match name {
        Some(name) => PhraseView::Text(name),
        None => PhraseView::Message("unknown-application"@),
    }
}

/// A message attribute with the name of an application filled in.
pub open spec fn app_description(id: Seq<char>, name: Option<Seq<char>>) -> LabelView {
    crate::label::attribute_with(id, "description"@, "app_name"@, app_phrase(name))
}

/// The name of an application.
pub(crate) fn phrase_of_app(name: &Option<String>) -> (r: Phrase)
    ensures
        r@ == app_phrase(view_opt(*name)),
{
    match name {
        Some(name) => Phrase::Text(name.clone()),
        None => Phrase::Message("unknown-application"),
    }
}

impl ScreencastDialog {
    /// What the dialog shows; nothing without a request.
    pub fn view(&self) -> (r: Option<DialogContent>)
        requires
            self.args matches Some(args) ==> self.tab_model.shown() is Some && (
            self.tab_model.shown() == Some(Tab::Outputs) ==> all_named(args.outputs@)),
        ensures
            match self.args {
                Some(args) => {
                    &&& r matches Some(content)
                    &&& content.title@ == plain_message("share-screen"@)
                    &&& content.body@ == app_description("share-screen"@, view_opt(args.app_name))
                    &&& Some(content.tab) == self.tab_model.shown()
                    &&& entry_views(content.entries@) == match content.tab {
                        Tab::Outputs => output_entries(
                            args.outputs@,
                            args.capture_sources@.outputs,
                        ),
                        Tab::Windows => toplevel_entries(
                            args.toplevels@,
                            args.capture_sources@.toplevels,
                        ),
                    }
                    &&& content.scrolls == (content.tab == Tab::Windows && args.toplevels@.len()
                        > UNSCROLLED_TOPLEVELS)
                    &&& content.can_share == (args.capture_sources@.outputs.len()
                        + args.capture_sources@.toplevels.len() > 0)
                },
                None => r is None,
            },
    {
        match &self.args {
            Some(args) => {
                let title = Label::message("share-screen");
                let body = Label::attribute_with(
                    "share-screen",
                    "description",
                    "app_name",
                    phrase_of_app(&args.app_name),
                );
                let can_share = !args.capture_sources.is_empty();
                match self.tab_model.active_tab() {
                    Some(Tab::Outputs) => Some(
                        DialogContent {
                            title,
                            body,
                            tab: Tab::Outputs,
                            entries: list_outputs(&args.outputs, &args.capture_sources),
                            scrolls: false,
                            can_share,
                        },
                    ),
                    Some(Tab::Windows) => Some(
                        DialogContent {
                            title,
                            body,
                            tab: Tab::Windows,
                            entries: list_toplevels(&args.toplevels, &args.capture_sources),
                            scrolls: args.toplevels.len() > UNSCROLLED_TOPLEVELS,
                            can_share,
                        },
                    ),
                    None => None,
                }
            },
            None => None,
        }
    }
}

/// A key of a dialog.
#[derive(Debug, Clone, Copy, PartialEq, Eq, Structural)]
pub enum DialogKey {
    Enter,
    Escape,
    Other,
}

/// What a key does in the dialog.
pub open spec fn key_does(key: DialogKey) -> Option<Msg> {
    match key {
        DialogKey::Enter => Some(Msg::Share),
        DialogKey::Escape => Some(Msg::Cancel),
        DialogKey::Other => None,
    }
}

/// What a key does in the dialog.
pub fn on_key(key: DialogKey) -> (r: Option<Msg>)
    ensures
        r == match key {
            DialogKey::Enter => Some(Msg::Share),
            DialogKey::Escape => Some(Msg::Cancel),
            DialogKey::Other => None,
        },
        r == key_does(key),
{
    match key {
        DialogKey::Enter => Some(Msg::Share),
        DialogKey::Escape => Some(Msg::Cancel),
        DialogKey::Other => None,
    }
}

/// A source that is chosen where it was not is shared then. The other sources stay where several can be
/// shared, and go where only one can.
pub proof fn law_chosen_source_is_shared(sources: CaptureView, id: u64, other: u64, multiple: bool)
    requires
        id != other,
        sources.outputs.len() < usize::MAX,
        sources.toplevels.len() < usize::MAX,
    ensures
        !sources.outputs.contains(id) ==> {
            let after = with_output(sources, id, multiple);
            &&& after.outputs.contains(id)
            &&& multiple ==> after.toplevels == sources.toplevels && (after.outputs.contains(other)
                <==> sources.outputs.contains(other))
            &&& !multiple ==> after.toplevels.len() == 0 && !after.outputs.contains(other)
        },
        !sources.toplevels.contains(id) ==> {
            let after = with_toplevel(sources, id, multiple);
            &&& after.toplevels.contains(id)
            &&& multiple ==> after.outputs == sources.outputs && (after.toplevels.contains(other)
                <==> sources.toplevels.contains(other))
            &&& !multiple ==> after.outputs.len() == 0 && !after.toplevels.contains(other)
        },
{
    if !sources.outputs.contains(id) {
        lemma_choice_grows(sources.outputs, id, other);
        assert(seq![id][0] == id);
    }
    if !sources.toplevels.contains(id) {
        lemma_choice_grows(sources.toplevels, id, other);
        assert(seq![id][0] == id);
    }
}

/// A number that is not there is put behind the others.
proof fn lemma_choice_grows(ids: Seq<u64>, id: u64, other: u64)
    requires
        !ids.contains(id),
        id != other,
        ids.len() < usize::MAX,
    ensures
        position(ids, id) is None,
        toggled(ids, id).contains(id),
        toggled(ids, id).contains(other) <==> ids.contains(other),
{
    lemma_toggle_twice(ids, id);
    crate::seqs::lemma_first_position_of(ids, id);
    let more = ids.push(id);
    assert(more[ids.len() as int] == id);
    if ids.contains(other) {
        let k = choose|k: int| 0 <= k < ids.len() && ids[k] == other;
        assert(more[k] == other);
    }
    if more.contains(other) {
        let k = choose|k: int| 0 <= k < more.len() && more[k] == other;
        assert(ids[k] == other);
    }
}

/// There is a list of outputs where they may be shared, and behind it one of windows where those may.
pub proof fn law_lists_are_those_of_the_kinds(source_types: u32)
    ensures
        tabs_for(source_types).contains(Tab::Outputs) <==> source_types & 1 != 0,
        tabs_for(source_types).contains(Tab::Windows) <==> source_types & 2 != 0,
        tabs_for(source_types).len() == (if source_types & 1 != 0 {
            1int
        } else {
            0
        }) + (if source_types & 2 != 0 {
            1int
        } else {
            0
        }),
        source_types & 1 != 0 ==> tabs_for(source_types)[0] == Tab::Outputs,
{
    let tabs = tabs_for(source_types);
    if source_types & 1 != 0 {
        assert(tabs[0] == Tab::Outputs);
        if source_types & 2 != 0 {
            assert(tabs[1] == Tab::Windows);
        }
    } else if source_types & 2 != 0 {
        assert(tabs[0] == Tab::Windows);
    }
}

/// Sharing answers the request with what was chosen, cancelling answers it without; either way the
/// request waits no longer. Nothing else answers it.
pub proof fn law_request_is_answered_with_the_choice(
    pre: ScreencastDialog,
    args: Args,
    msg: Msg,
    post: ScreencastDialog,
    effect: DialogEffect,
)
    requires
        pre.args == Some(args),
        step(pre, args, msg, post, effect),
    ensures
        msg is Share ==> (effect matches DialogEffect::Answer { handle, sources } && handle
            == args.session_handle && sources == Some(args.capture_sources)) && post.args is None,
        msg is Cancel ==> (effect matches DialogEffect::Answer { handle, sources } && handle
            == args.session_handle && sources is None) && post.args is None,
        !(msg is Share) && !(msg is Cancel) ==> effect is Nothing && (post.args matches Some(new)
            && new.session_handle == args.session_handle && new.multiple == args.multiple),
        msg is ActivateTab ==> post.args == pre.args,
        msg matches Msg::ActivateTab(i) ==> (i < pre.tab_model.tabs@.len() ==> post.tab_model.shown()
            == Some(pre.tab_model.tabs@[i as int])),
        msg is SelectOutput || msg is SelectToplevel ==> post.tab_model == pre.tab_model,
{
}

/// A source that the user picks and shares is among what the request is answered with.
pub proof fn law_picked_source_is_answered(
    pre: ScreencastDialog,
    args: Args,
    id: u64,
    between: ScreencastDialog,
    between_args: Args,
    effect: DialogEffect,
    post: ScreencastDialog,
    answer: DialogEffect,
)
    requires
        pre.args == Some(args),
        between.args == Some(between_args),
        step(between, between_args, Msg::Share, post, answer),
        args.capture_sources.outputs@.len() < usize::MAX,
        args.capture_sources.toplevels@.len() < usize::MAX,
    ensures
        step(pre, args, Msg::SelectOutput(id), between, effect)
            && !args.capture_sources.outputs@.contains(id) ==> (answer matches DialogEffect::Answer {
            sources: Some(sources),
            ..
        } && sources.outputs@.contains(id)),
        step(pre, args, Msg::SelectToplevel(id), between, effect)
            && !args.capture_sources.toplevels@.contains(id) ==> (
        answer matches DialogEffect::Answer { sources: Some(sources), .. }
            && sources.toplevels@.contains(id)),
{
    let other: u64 = if id == 0 {
        1
    } else {
        0
    };
    law_chosen_source_is_shared(args.capture_sources@, id, other, args.multiple);
}

/// Return shares what is chosen, and Escape cancels; no other key does anything.
pub proof fn law_keys_decide(
    pre: ScreencastDialog,
    args: Args,
    key: DialogKey,
    post: ScreencastDialog,
    effect: DialogEffect,
)
    requires
        key_does(key) is Some,
        step(pre, args, key_does(key)->0, post, effect),
    ensures
        effect matches DialogEffect::Answer { sources, .. } && (key is Enter <==> sources is Some)
            && (key is Escape <==> sources is None),
        !(key is Other),
{
}

/// The list of outputs has each of them under its name, the list of windows each under its title; what
/// is chosen is shown as chosen, and picking an entry picks its own source.
pub proof fn law_entries_stand_for_their_sources(
    outputs: Seq<OutputChoice>,
    toplevels: Seq<ToplevelChoice>,
    chosen: Seq<u64>,
    i: int,
)
    ensures
        output_entries(outputs, chosen).len() == outputs.len(),
        0 <= i < outputs.len() ==> {
            let entry = output_entries(outputs, chosen)[i];
            &&& outputs[i].name matches Some(name) ==> entry.label == name@
            &&& entry.selected <==> chosen.contains(outputs[i].id)
            &&& entry.source == StreamSource::Output(outputs[i].id)
        },
        toplevel_entries(toplevels, chosen).len() == toplevels.len(),
        0 <= i < toplevels.len() ==> {
            let entry = toplevel_entries(toplevels, chosen)[i];
            &&& entry.label == toplevels[i].title@
            &&& entry.icon == view_opt(toplevels[i].icon)
            &&& entry.selected <==> chosen.contains(toplevels[i].id)
            &&& entry.source == StreamSource::Toplevel(toplevels[i].id)
        },
{
}

} // verus!
