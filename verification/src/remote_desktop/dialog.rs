//! The dialog in which the user lets an application move the pointer and press keys.

use crate::label::{attribute_with, label_views, plain_attribute, plain_message, Label, LabelView};
use crate::remote_desktop::{
    PromptResponse, RemoteStart, DEVICE_KEYBOARD, DEVICE_POINTER, DEVICE_TOUCHSCREEN, PERSIST_NONE,
    PERSIST_UNTIL_REVOKED, PERSIST_WHILE_RUNNING,
};
use crate::screencast::dialog::{
    all_named, app_description, entry_views, list_outputs, list_toplevels, output_entries,
    phrase_of_app, tabs_for, toplevel_entries, with_output, with_toplevel, DialogKey, OutputChoice,
    SourceEntry, Tab, TabModel, Taken, ToplevelChoice,
};
use crate::screencast::{CaptureSources, CaptureView};
use crate::text::{str_eq, view_opt};
use vstd::prelude::*;

verus! {

/// The icon and the name of a device.
pub open spec fn device_icon_label(device_type: u32) -> Option<(Seq<char>, LabelView)> {
    if device_type == DEVICE_KEYBOARD {
        Some(("input-keyboard-symbolic"@, plain_attribute("remote-desktop"@, "keyboard"@)))
    } else if device_type == DEVICE_POINTER {
        Some(("input-mouse-symbolic"@, plain_attribute("remote-desktop"@, "pointer"@)))
    } else if device_type == DEVICE_TOUCHSCREEN {
        Some(("input-touchpad-symbolic"@, plain_attribute("remote-desktop"@, "touchscreen"@)))
    } else {
        None
    }
}

/// A device in the dialog.
#[derive(Debug)]
pub struct DeviceEntry {
    pub icon: &'static str,
    pub label: Label,
}

/// A device in the dialog, as a value.
pub open spec fn device_view(entry: DeviceEntry) -> (Seq<char>, LabelView) {
    (entry.icon@, entry.label@)
}

/// The icon and the name of a device, if there is such a device.
pub fn device_type_icon_label(device_type: u32) -> (r: Option<DeviceEntry>)
    ensures
        match r {
            Some(entry) => device_icon_label(device_type) == Some(device_view(entry)),
            None => device_icon_label(device_type) is None,
        },
{
    if device_type == DEVICE_KEYBOARD {
        Some(
            DeviceEntry {
                icon: "input-keyboard-symbolic",
                label: Label::attribute("remote-desktop", "keyboard"),
            },
        )
    } else if device_type == DEVICE_POINTER {
        Some(
            DeviceEntry {
                icon: "input-mouse-symbolic",
                label: Label::attribute("remote-desktop", "pointer"),
            },
        )
    } else if device_type == DEVICE_TOUCHSCREEN {
        Some(
            DeviceEntry {
                icon: "input-touchpad-symbolic",
                label: Label::attribute("remote-desktop", "touchscreen"),
            },
        )
    } else {
        None
    }
}

/// The name of how long consent is kept.
pub open spec fn persist_label(persist_mode: u32) -> Option<LabelView> {
    if persist_mode == PERSIST_NONE {
        Some(plain_attribute("remote-desktop"@, "persist-none"@))
    } else if persist_mode == PERSIST_WHILE_RUNNING {
        Some(plain_attribute("remote-desktop"@, "persist-while-running"@))
    } else if persist_mode == PERSIST_UNTIL_REVOKED {
        Some(plain_attribute("remote-desktop"@, "persist-until-revoked"@))
    } else {
        None
    }
}

/// The name of how long consent is kept, if there is such a mode.
pub fn persist_mode_label(persist_mode: u32) -> (r: Option<Label>)
    ensures
        match r {
            Some(label) => persist_label(persist_mode) == Some(label@),
            None => persist_label(persist_mode) is None,
        },
{
    if persist_mode == PERSIST_NONE {
        Some(Label::attribute("remote-desktop", "persist-none"))
    } else if persist_mode == PERSIST_WHILE_RUNNING {
        Some(Label::attribute("remote-desktop", "persist-while-running"))
    } else if persist_mode == PERSIST_UNTIL_REVOKED {
        Some(Label::attribute("remote-desktop", "persist-until-revoked"))
    } else {
        None
    }
}

/// The modes that the user can choose from: all that keep consent no longer than was asked.
pub open spec fn persist_options(persist_mode: u32) -> Seq<u32> {
    let last = if persist_mode < PERSIST_UNTIL_REVOKED {
        persist_mode
    } else {
        PERSIST_UNTIL_REVOKED
    };
    Seq::new((last + 1) as nat, |i: int| i as u32)
}

/// The modes that the user can choose from.
pub fn offered_modes(persist_mode: u32) -> (r: Vec<u32>)
    ensures
        r@ == persist_options(persist_mode),
{
    let last: u32 = if persist_mode < PERSIST_UNTIL_REVOKED {
        persist_mode
    } else {
        PERSIST_UNTIL_REVOKED
    };
    let mut r: Vec<u32> = Vec::new();
    let mut mode: u32 = 0;
    while mode <= last
        invariant
            mode <= last + 1,
            last <= 2,
            last == if persist_mode < PERSIST_UNTIL_REVOKED {
                persist_mode
            } else {
                PERSIST_UNTIL_REVOKED
            },
            r@ == persist_options(persist_mode).take(mode as int),
        decreases last + 1 - mode,
    {
        r.push(mode);
        proof {
            assert(r@ =~= persist_options(persist_mode).take(mode + 1));
        }
        mode = mode + 1;
    }
    proof {
        assert(r@ =~= persist_options(persist_mode));
    }
    r
}

/// A request that waits for the user.
#[derive(Debug)]
pub struct Args {
    pub session_handle: String,
    pub app_name: Option<String>,
    pub app_icon: Option<String>,
    pub device_types: u32,
    pub persist_options: Vec<u32>,
    pub selected_persist: usize,
    pub screen_cast_enabled: bool,
    pub multiple: bool,
    pub source_types: u32,
    pub outputs: Vec<OutputChoice>,
    pub toplevels: Vec<ToplevelChoice>,
    pub capture_sources: CaptureSources,
}

impl Args {
    /// The request to start a session, with what is known of the application and of the sources.
    pub fn new(
        session_handle: String,
        app_name: Option<String>,
        app_icon: Option<String>,
        start: RemoteStart,
        outputs: Vec<OutputChoice>,
        toplevels: Vec<ToplevelChoice>,
    ) -> (r: Self)
        ensures
            r.session_handle == session_handle,
            r.app_name == app_name,
            r.app_icon == app_icon,
            r.device_types == start.device_types,
            r.persist_options@ == persist_options(start.persist_mode),
            r.selected_persist == 0,
            r.screen_cast_enabled == start.screen_cast_enabled,
            r.multiple == start.multiple,
            r.source_types == start.source_types,
            start.screen_cast_enabled ==> r.outputs == outputs && r.toplevels == toplevels,
            !start.screen_cast_enabled ==> r.outputs@.len() == 0 && r.toplevels@.len() == 0,
            r.capture_sources@ == (CaptureView { outputs: Seq::empty(), toplevels: Seq::empty() }),
    {
        let (outputs, toplevels) = if start.screen_cast_enabled {
            (outputs, toplevels)
        } else {
            (Vec::new(), Vec::new())
        };
        Args {
            session_handle,
            app_name,
            app_icon,
            device_types: start.device_types,
            persist_options: offered_modes(start.persist_mode),
            selected_persist: 0,
            screen_cast_enabled: start.screen_cast_enabled,
            multiple: start.multiple,
            source_types: start.source_types,
            outputs,
            toplevels,
            capture_sources: CaptureSources::new(),
        }
    }
}

/// What the user does.
#[derive(Debug, Clone, Copy, PartialEq, Eq, Structural)]
pub enum Msg {
    SelectPersist(usize),
    ActivateTab(usize),
    SelectOutput(u64),
    SelectToplevel(u64),
    Allow,
    Cancel,
}

/// What follows.
#[derive(Debug)]
pub enum DialogEffect {
    Nothing,
    /// The dialog is closed, and the request is answered.
    Answer { handle: String, response: Option<PromptResponse> },
}

/// The dialog. Its lists of sources are shared with the dialog for the screen alone.
#[derive(Debug)]
pub struct RemoteDesktopDialog {
    pub args: Option<Args>,
}

/// How long consent is kept as the user chose.
pub open spec fn chosen_mode(args: Args) -> u32 {
    if args.selected_persist < args.persist_options@.len() {
        args.persist_options@[args.selected_persist as int]
    } else {
        PERSIST_NONE
    }
}

/// The request after something else was chosen; nothing where none waits.
pub open spec fn changed(args: Option<Args>, new: Option<Args>, msg: Msg) -> bool {
    match args {
        Some(args) => match msg {
            Msg::SelectPersist(i) => new == Some(Args { selected_persist: i, ..args }),
            Msg::SelectOutput(id) => {
                &&& new matches Some(new)
                &&& new == (Args { capture_sources: new.capture_sources, ..args })
                &&& new.capture_sources@ == with_output(args.capture_sources@, id, args.multiple)
            },
            Msg::SelectToplevel(id) => {
                &&& new matches Some(new)
                &&& new == (Args { capture_sources: new.capture_sources, ..args })
                &&& new.capture_sources@ == with_toplevel(args.capture_sources@, id, args.multiple)
            },
            Msg::ActivateTab(_) => new == Some(args),
            Msg::Allow | Msg::Cancel => new is None,
        },
        None => new is None,
    }
}

/// What the user's doing is answered with.
pub open spec fn answer(args: Option<Args>, msg: Msg) -> DialogEffect {
    match args {
        Some(args) => match msg {
            Msg::Allow => DialogEffect::Answer {
                handle: args.session_handle,
                response: Some(
                    PromptResponse {
                        persist_mode: chosen_mode(args),
                        capture_sources: args.capture_sources,
                    },
                ),
            },
            Msg::Cancel => DialogEffect::Answer { handle: args.session_handle, response: None },
            _ => DialogEffect::Nothing,
        },
        None => DialogEffect::Nothing,
    }
}

impl RemoteDesktopDialog {
    /// A dialog without a request.
    pub fn new() -> (r: Self)
        ensures
            r.args is None,
    {
        RemoteDesktopDialog { args: None }
    }

    /// Does what the user wants.
    pub fn update_msg(&mut self, tabs: &mut TabModel, msg: Msg) -> (r: DialogEffect)
        requires
            msg matches Msg::ActivateTab(i) ==> i < old(tabs).tabs@.len(),
        ensures
            changed(old(self).args, final(self).args, msg),
            r == answer(old(self).args, msg),
            *final(tabs) == match msg {
                Msg::ActivateTab(i) => TabModel { active: Some(i), ..*old(tabs) },
                _ => *old(tabs),
            },
    {
        match msg {
            Msg::SelectPersist(i) => {
                if let Some(args) = &mut self.args {
                    args.selected_persist = i;
                }
                DialogEffect::Nothing
            },
            Msg::ActivateTab(i) => {
                tabs.activate(i);
                DialogEffect::Nothing
            },
            Msg::SelectOutput(id) => {
                if let Some(args) = &mut self.args {
                    args.capture_sources.toggle_output(id, args.multiple);
                }
                DialogEffect::Nothing
            },
            Msg::SelectToplevel(id) => {
                if let Some(args) = &mut self.args {
                    args.capture_sources.toggle_toplevel(id, args.multiple);
                }
                DialogEffect::Nothing
            },
            Msg::Allow => match self.args.take() {
                Some(args) => {
                    let persist_mode: u32 = if args.selected_persist < args.persist_options.len() {
                        args.persist_options[args.selected_persist]
                    } else {
                        PERSIST_NONE
                    };
                    DialogEffect::Answer {
                        handle: args.session_handle,
                        response: Some(
                            PromptResponse { persist_mode, capture_sources: args.capture_sources },
                        ),
                    }
                },
                None => DialogEffect::Nothing,
            },
            Msg::Cancel => match self.args.take() {
                Some(args) => DialogEffect::Answer { handle: args.session_handle, response: None },
                None => DialogEffect::Nothing,
            },
        }
    }

    /// Takes up a request. One that waited is answered without consent, and its dialog is used.
    pub fn update_args(&mut self, tabs: &mut TabModel, args: Args) -> (r: Taken)
        ensures
            final(self).args == Some(args),
            final(tabs).tabs@ == if args.screen_cast_enabled {
                tabs_for(args.source_types)
            } else {
                Seq::empty()
            },
            final(tabs).active == if args.screen_cast_enabled && tabs_for(args.source_types).len()
                > 0 {
                Some(0usize)
            } else {
                None
            },
            r.open == old(self).args is None,
            r.replaced == match old(self).args {
                Some(before) => Some(before.session_handle),
                None => None,
            },
    {
        let replaced = match self.args.take() {
            Some(before) => Some(before.session_handle),
            None => None,
        };
        let open = replaced.is_none();
        tabs.clear();
        if args.screen_cast_enabled {
            tabs.set_up(args.source_types);
        }
        self.args = Some(args);
        Taken { replaced, open }
    }

    /// Cancels a request, if it is the one that waits.
    pub fn cancel(&mut self, session_handle: &str) -> (r: DialogEffect)
        ensures
            match old(self).args {
                Some(args) if args.session_handle@ == session_handle@ => {
                    &&& final(self).args is None
                    &&& r == (DialogEffect::Answer { handle: args.session_handle, response: None })
                },
                _ => *final(self) == *old(self) && r == DialogEffect::Nothing,
            },
    {
        let own = match &self.args {
            Some(args) => str_eq(args.session_handle.as_str(), session_handle),
            None => false,
        };
        if own {
            match self.args.take() {
                Some(args) => DialogEffect::Answer { handle: args.session_handle, response: None },
                None => DialogEffect::Nothing,
            }
        } else {
            DialogEffect::Nothing
        }
    }
}

/// The user never grants consent for longer than was asked, nor for longer than until it is revoked.
pub proof fn law_consent_is_not_kept_longer_than_asked(args: Args, persist_mode: u32)
    requires
        args.persist_options@ == persist_options(persist_mode),
    ensures
        chosen_mode(args) <= persist_mode,
        chosen_mode(args) <= PERSIST_UNTIL_REVOKED,
        persist_label(chosen_mode(args)) is Some,
{
}

/// The devices of a request, in order.
pub open spec fn device_list(device_types: u32) -> Seq<(Seq<char>, LabelView)> {
    device_part(device_types, DEVICE_KEYBOARD) + device_part(device_types, DEVICE_POINTER)
        + device_part(device_types, DEVICE_TOUCHSCREEN)
}

/// A device, if it is among those of a request.
pub open spec fn device_part(device_types: u32, device: u32) -> Seq<(Seq<char>, LabelView)> {
    if device_types & device != 0 {
        seq![device_icon_label(device)->0]
    } else {
        Seq::empty()
    }
}

/// Devices, as values.
pub open spec fn device_views(entries: Seq<DeviceEntry>) -> Seq<(Seq<char>, LabelView)> {
    entries.map_values(|entry: DeviceEntry| device_view(entry))
}

/// Adds a device, if it is among those of a request.
fn add_device(entries: &mut Vec<DeviceEntry>, device_types: u32, device: u32)
    requires
        device == DEVICE_KEYBOARD || device == DEVICE_POINTER || device == DEVICE_TOUCHSCREEN,
    ensures
        device_views(final(entries)@) == device_views(old(entries)@) + device_part(
            device_types,
            device,
        ),
{
    let ghost before = entries@;
    if device_types & device != 0 {
        if let Some(entry) = device_type_icon_label(device) {
            entries.push(entry);
            proof {
                assert(device_views(entries@) =~= device_views(before).push(device_view(entry)));
            }
        }
    }
    proof {
        assert(device_views(entries@) =~= device_views(before) + device_part(device_types, device));
    }
}

/// The devices of a request, in order.
pub fn list_devices(device_types: u32) -> (r: Vec<DeviceEntry>)
    ensures
        device_views(r@) == device_list(device_types),
{
    let mut entries: Vec<DeviceEntry> = Vec::new();
    proof {
        assert(device_views(entries@) =~= Seq::empty());
    }
    add_device(&mut entries, device_types, DEVICE_KEYBOARD);
    add_device(&mut entries, device_types, DEVICE_POINTER);
    add_device(&mut entries, device_types, DEVICE_TOUCHSCREEN);
    proof {
        assert(device_views(entries@) =~= device_list(device_types));
    }
    entries
}

/// The names of the modes that have names.
pub open spec fn mode_labels(modes: Seq<u32>) -> Seq<LabelView>
    decreases modes.len(),
{
    if modes.len() == 0 {
        Seq::empty()
    } else {
        match persist_label(modes.last()) {
            Some(label) => mode_labels(modes.drop_last()).push(label),
            None => mode_labels(modes.drop_last()),
        }
    }
}

/// The names of the modes that have names.
pub fn list_modes(modes: &Vec<u32>) -> (r: Vec<Label>)
    ensures
        label_views(r@) == mode_labels(modes@),
{
    let mut labels: Vec<Label> = Vec::new();
    let mut i: usize = 0;
    proof {
        assert(modes@.take(0) =~= Seq::<u32>::empty());
        assert(label_views(labels@) =~= Seq::empty());
    }
    while i < modes.len()
        invariant
            i <= modes@.len(),
            label_views(labels@) == mode_labels(modes@.take(i as int)),
        decreases modes@.len() - i,
    {
        let ghost before = labels@;
        proof {
            assert(modes@.take(i + 1).drop_last() =~= modes@.take(i as int));
            assert(modes@.take(i + 1).last() == modes@[i as int]);
        }
        if let Some(label) = persist_mode_label(modes[i]) {
            labels.push(label);
            proof {
                assert(label_views(labels@) =~= label_views(before).push(label@));
            }
        }
        i = i + 1;
    }
    proof {
        assert(modes@.take(modes@.len() as int) =~= modes@);
    }
    labels
}

/// What the dialog shows.
#[derive(Debug)]
pub struct DialogContent {
    pub title: Label,
    pub body: Label,
    pub icon: String,
    pub devices: Vec<DeviceEntry>,
    /// The modes to choose from and the one that is chosen, where there is a choice.
    pub persist: Option<(Vec<Label>, usize)>,
    /// The sources to choose from, where the screen is wanted.
    pub sources: Option<(Tab, Vec<SourceEntry>)>,
}

impl RemoteDesktopDialog {
    /// What the dialog shows; nothing without a request.
    pub fn view(&self, tabs: &TabModel) -> (r: Option<DialogContent>)
        requires
            self.args matches Some(args) ==> args.screen_cast_enabled ==> tabs.shown() is Some && (
            tabs.shown() == Some(Tab::Outputs) ==> all_named(args.outputs@)),
        ensures
            match self.args {
                Some(args) => {
                    &&& r matches Some(content)
                    &&& content.title@ == plain_message("remote-desktop"@)
                    &&& content.body@ == app_description("remote-desktop"@, view_opt(args.app_name))
                    &&& content.icon@ == match args.app_icon {
                        Some(icon) => icon@,
                        None => "image-missing"@,
                    }
                    &&& device_views(content.devices@) == device_list(args.device_types)
                    &&& match content.persist {
                        Some((labels, selected)) => {
                            &&& args.persist_options@.len() > 1
                            &&& label_views(labels@) == mode_labels(args.persist_options@)
                            &&& selected == args.selected_persist
                        },
                        None => args.persist_options@.len() <= 1,
                    }
                    &&& match content.sources {
                        Some((tab, entries)) => {
                            &&& args.screen_cast_enabled
                            &&& Some(tab) == tabs.shown()
                            &&& entry_views(entries@) == match tab {
                                Tab::Outputs => output_entries(
                                    args.outputs@,
                                    args.capture_sources@.outputs,
                                ),
                                Tab::Windows => toplevel_entries(
                                    args.toplevels@,
                                    args.capture_sources@.toplevels,
                                ),
                            }
                        },
                        None => !args.screen_cast_enabled,
                    }
                },
                None => r is None,
            },
    {
        match &self.args {
            Some(args) => {
                let body = Label::attribute_with(
                    "remote-desktop",
                    "description",
                    "app_name",
                    phrase_of_app(&args.app_name),
                );
                let icon = match &args.app_icon {
                    Some(icon) => icon.clone(),
                    None => "image-missing".to_owned(),
                };
                let persist = if args.persist_options.len() > 1 {
                    Some((list_modes(&args.persist_options), args.selected_persist))
                } else {
                    None
                };
                let sources = if args.screen_cast_enabled {
                    match tabs.active_tab() {
                        Some(Tab::Outputs) => Some(
                            (Tab::Outputs, list_outputs(&args.outputs, &args.capture_sources)),
                        ),
                        Some(Tab::Windows) => Some(
                            (Tab::Windows, list_toplevels(&args.toplevels, &args.capture_sources)),
                        ),
                        None => None,
                    }
                } else {
                    None
                };
                Some(
                    DialogContent {
                        title: Label::message("remote-desktop"),
                        body,
                        icon,
                        devices: list_devices(args.device_types),
                        persist,
                        sources,
                    },
                )
            },
            None => None,
        }
    }
}

/// What a key does in the dialog.
pub open spec fn key_does(key: DialogKey) -> Option<Msg> {
    match key {
        DialogKey::Enter => Some(Msg::Allow),
        DialogKey::Escape => Some(Msg::Cancel),
        DialogKey::Other => None,
    }
}

/// What a key does in the dialog.
pub fn on_key(key: DialogKey) -> (r: Option<Msg>)
    ensures
        r == match key {
            DialogKey::Enter => Some(Msg::Allow),
            DialogKey::Escape => Some(Msg::Cancel),
            DialogKey::Other => None,
        },
        r == key_does(key),
{
    match key {
        DialogKey::Enter => Some(Msg::Allow),
        DialogKey::Escape => Some(Msg::Cancel),
        DialogKey::Other => None,
    }
}

/// Who is let in is answered with what was chosen, who is not without; either way the request waits no
/// longer. Nothing else answers it.
pub proof fn law_request_is_answered_as_decided(
    args: Args,
    new: Option<Args>,
    msg: Msg,
)
    requires
        changed(Some(args), new, msg),
    ensures
        msg is Allow ==> new is None && (answer(Some(args), msg) matches DialogEffect::Answer {
            handle,
            response: Some(response),
        } && handle == args.session_handle && response.capture_sources == args.capture_sources && (
        args.selected_persist < args.persist_options@.len() ==> response.persist_mode
            == args.persist_options@[args.selected_persist as int]) && (args.selected_persist
            >= args.persist_options@.len() ==> response.persist_mode == 0)),
        msg is Cancel ==> new is None && (answer(Some(args), msg) matches DialogEffect::Answer {
            handle,
            response,
        } && handle == args.session_handle && response is None),
        !(msg is Allow) && !(msg is Cancel) ==> answer(Some(args), msg) is Nothing && (
        new matches Some(new) && new.session_handle == args.session_handle && new.device_types
            == args.device_types && new.persist_options == args.persist_options),
        answer(None, msg) is Nothing,
{
}

/// How long consent is kept is what the user selected, by its place among what is offered.
pub proof fn law_selected_mode_is_granted(args: Args, i: usize, new: Option<Args>)
    requires
        changed(Some(args), new, Msg::SelectPersist(i)),
        i < args.persist_options@.len(),
    ensures
        answer(new, Msg::Allow) matches DialogEffect::Answer { response: Some(response), .. }
            && response.persist_mode == args.persist_options@[i as int]
            && response.capture_sources == args.capture_sources,
{
}

/// A source that the user picks is among those that are granted.
pub proof fn law_picked_source_is_granted(args: Args, id: u64, new: Option<Args>)
    requires
        args.capture_sources.outputs@.len() < usize::MAX,
        args.capture_sources.toplevels@.len() < usize::MAX,
    ensures
        changed(Some(args), new, Msg::SelectOutput(id)) && !args.capture_sources.outputs@.contains(
            id,
        ) ==> (answer(new, Msg::Allow) matches DialogEffect::Answer {
            response: Some(response),
            ..
        } && response.capture_sources.outputs@.contains(id)),
        changed(Some(args), new, Msg::SelectToplevel(id))
            && !args.capture_sources.toplevels@.contains(id) ==> (answer(
            new,
            Msg::Allow,
        ) matches DialogEffect::Answer { response: Some(response), .. }
            && response.capture_sources.toplevels@.contains(id)),
{
    let other: u64 = if id == 0 {
        1
    } else {
        0
    };
    crate::screencast::dialog::law_chosen_source_is_shared(
        args.capture_sources@,
        id,
        other,
        args.multiple,
    );
}

/// The user can choose from not keeping consent up to what was asked, in this order; until it is revoked
/// is the longest.
pub proof fn law_offered_modes_go_up_to_what_was_asked(persist_mode: u32)
    ensures
        ({
            let offered = persist_options(persist_mode);
            &&& offered[0] == 0
            &&& persist_mode <= 2 ==> offered.len() == persist_mode + 1 && offered.last()
                == persist_mode
            &&& persist_mode > 2 ==> offered.len() == 3 && offered.last() == 2
            &&& forall|i: int| 0 <= i < offered.len() ==> #[trigger] offered[i] == i
        }),
{
}

/// The dialog shows the devices that are asked for and no others: the keyboard, the pointer and the touch
/// screen, in this order.
pub proof fn law_asked_devices_are_shown(device_types: u32)
    ensures
        ({
            let shown = device_list(device_types);
            let n: int = (if device_types & 1 != 0 {
                1int
            } else {
                0
            }) + (if device_types & 2 != 0 {
                1int
            } else {
                0
            }) + (if device_types & 4 != 0 {
                1int
            } else {
                0
            });
            &&& shown.len() == n
            &&& device_types & 1 != 0 ==> shown[0] == (
                "input-keyboard-symbolic"@,
                plain_attribute("remote-desktop"@, "keyboard"@),
            )
            &&& device_types & 4 != 0 ==> shown.last() == (
                "input-touchpad-symbolic"@,
                plain_attribute("remote-desktop"@, "touchscreen"@),
            )
            &&& device_types & 2 != 0 ==> shown.contains(
                ("input-mouse-symbolic"@, plain_attribute("remote-desktop"@, "pointer"@)),
            )
        }),
{
    let shown = device_list(device_types);
    if device_types & 2 != 0 {
        let i: int = if device_types & 1 != 0 {
            1
        } else {
            0
        };
        assert(shown[i] == (
            "input-mouse-symbolic"@,
            plain_attribute("remote-desktop"@, "pointer"@),
        ));
    }
}

/// Return lets the application in, and Escape does not; no other key answers.
pub proof fn law_keys_decide(args: Args, key: DialogKey)
    ensures
        key is Enter ==> key_does(key) is Some && (answer(
            Some(args),
            key_does(key)->0,
        ) matches DialogEffect::Answer { response, .. } && response is Some),
        key is Escape ==> key_does(key) is Some && (answer(
            Some(args),
            key_does(key)->0,
        ) matches DialogEffect::Answer { response, .. } && response is None),
        key is Other ==> key_does(key) is None,
{
}

} // verus!
