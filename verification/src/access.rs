//! Questions whether an application may do something.

use crate::dict::{lists, Dict};
use crate::file_chooser::{option_position, pair_views, Choices};
use crate::label::{plain_message, plain_text, Label, LabelView};
use crate::portal::PortalResponse;
use crate::screencast::dialog::DialogKey;
use crate::text::{clone_texts, view_opt, views};
use vstd::prelude::*;

verus! {

/// How a question is put.
#[derive(Debug)]
pub struct AccessDialogOptions {
    pub modal: Option<bool>,
    pub deny_label: Option<String>,
    pub grant_label: Option<String>,
    pub icon: Option<String>,
    /// Choices beside the question: an identifier, a label, the options by identifier and label, and
    /// the option that is chosen at first, if any.
    pub choices: Option<Choices>,
}

/// What a client gets: the options that were chosen, by the identifiers of their choices.
#[derive(Debug)]
pub struct AccessDialogResult {
    pub choices: Vec<(String, String)>,
}

/// A question that waits for the user.
#[derive(Debug)]
pub struct AccessDialogArgs {
    pub handle: String,
    pub app_id: String,
    pub parent_window: String,
    pub title: String,
    pub subtitle: String,
    pub body: String,
    pub options: AccessDialogOptions,
    /// The option that is chosen, by the identifier of its choice.
    pub active_choices: Dict<String>,
    /// The labels of the options of each choice.
    pub choice_labels: Vec<Vec<String>>,
    /// The number of the window.
    pub access_id: u64,
}

/// The labels of options.
pub open spec fn labels_of(options: Seq<(Seq<char>, Seq<char>)>) -> Seq<Seq<char>> {
    options.map_values(|option: (Seq<char>, Seq<char>)| option.1)
}

/// Texts by name, as values.
pub open spec fn text_map(map: Map<Seq<char>, String>) -> Map<Seq<char>, Seq<char>> {
    map.map_values(|text: String| text@)
}

/// The options that are chosen at first, by the identifiers of their choices: of choices with the
/// same identifier the last one.
pub open spec fn initial_choices(
    choices: Seq<(String, String, Vec<(String, String)>, String)>,
) -> Map<Seq<char>, Seq<char>>
    decreases choices.len(),
{
    if choices.len() == 0 {
        Map::empty()
    } else {
        let rest = initial_choices(choices.drop_last());
        if choices.last().3@.len() > 0 {
            rest.insert(choices.last().0@, choices.last().3@)
        } else {
            rest
        }
    }
}

/// Lists of texts, as values.
pub open spec fn list_views(lists: Seq<Vec<String>>) -> Seq<Seq<Seq<char>>> {
    lists.map_values(|list: Vec<String>| views(list@))
}

/// The labels of the options of choices.
pub open spec fn all_labels(
    choices: Seq<(String, String, Vec<(String, String)>, String)>,
) -> Seq<Seq<Seq<char>>> {
    choices.map_values(
        |choice: (String, String, Vec<(String, String)>, String)| labels_of(pair_views(choice.2@)),
    )
}

/// The choices, of which there may be none.
pub open spec fn wanted_choices(choices: Option<Choices>) -> Seq<
    (String, String, Vec<(String, String)>, String),
> {
    match choices {
        Some(choices) => choices@,
        None => Seq::empty(),
    }
}

/// The labels of options.
fn collect_labels(options: &Vec<(String, String)>) -> (r: Vec<String>)
    ensures
        views(r@) == labels_of(pair_views(options@)),
{
    let ghost all = labels_of(pair_views(options@));
    let mut r: Vec<String> = Vec::new();
    let mut i: usize = 0;
    proof {
        assert(views(r@) =~= all.take(0));
    }
    while i < options.len()
        invariant
            i <= options@.len(),
            all == labels_of(pair_views(options@)),
            views(r@) == all.take(i as int),
        decreases options@.len() - i,
    {
        let ghost before = r@;
        let label = options[i].1.clone();
        r.push(label);
        proof {
            assert(all[i as int] == label@);
            assert(views(r@) =~= views(before).push(label@));
            assert(all.take(i + 1) =~= all.take(i as int).push(all[i as int]));
        }
        i = i + 1;
    }
    proof {
        assert(all.take(all.len() as int) =~= all);
    }
    r
}

/// The labels of the options of choices.
pub fn choice_labels(choices: &Option<Choices>) -> (r: Vec<Vec<String>>)
    ensures
        list_views(r@) == all_labels(wanted_choices(*choices)),
{
    let ghost all = all_labels(wanted_choices(*choices));
    let mut r: Vec<Vec<String>> = Vec::new();
    proof {
        assert(list_views(r@) =~= all.take(0));
    }
    if let Some(choices) = choices {
        let mut i: usize = 0;
        while i < choices.len()
            invariant
                i <= choices@.len(),
                all == all_labels(choices@),
                list_views(r@) == all.take(i as int),
            decreases choices@.len() - i,
        {
            let ghost before = r@;
            let labels = collect_labels(&choices[i].2);
            r.push(labels);
            proof {
                assert(all[i as int] == views(labels@));
                assert(list_views(r@) =~= list_views(before).push(views(labels@)));
                assert(all.take(i + 1) =~= all.take(i as int).push(all[i as int]));
            }
            i = i + 1;
        }
    }
    proof {
        assert(all.take(all.len() as int) =~= all);
    }
    r
}

/// The options that are chosen at first.
pub fn active_choices(choices: &Option<Choices>) -> (r: Dict<String>)
    ensures
        text_map(r@) == initial_choices(wanted_choices(*choices)),
{
    let mut r: Dict<String> = Dict::new();
    proof {
        assert(text_map(r@) =~= Map::<Seq<char>, Seq<char>>::empty());
    }
    if let Some(choices) = choices {
        let mut i: usize = 0;
        proof {
            assert(choices@.take(0) =~= Seq::empty());
        }
        while i < choices.len()
            invariant
                i <= choices@.len(),
                text_map(r@) == initial_choices(choices@.take(i as int)),
            decreases choices@.len() - i,
        {
            let ghost before = r@;
            proof {
                assert(choices@.take(i + 1).drop_last() =~= choices@.take(i as int));
                assert(choices@.take(i + 1).last() == choices@[i as int]);
            }
            let choice = &choices[i];
            if choice.3.as_str().unicode_len() > 0 {
                let initial = choice.3.clone();
                r.insert(choice.0.as_str(), initial);
                proof {
                    assert(text_map(r@) =~= text_map(before).insert(choice.0@, initial@));
                }
            }
            i = i + 1;
        }
        proof {
            assert(choices@.take(choices@.len() as int) =~= choices@);
        }
    }
    r
}

/// What the user does.
#[derive(Debug, Clone, Copy, PartialEq, Eq, Structural)]
pub enum Msg {
    Allow,
    Cancel,
    /// Chooses an option of a choice, by their positions.
    Choice(usize, usize),
    Ignore,
}

/// The window of a question.
#[derive(Debug, Clone, Copy, PartialEq, Eq, Structural)]
pub struct Surface {
    pub id: u64,
    /// Whether it is a window of its own; it is laid over others otherwise.
    pub modal: bool,
}

/// What follows.
#[derive(Debug)]
pub enum AccessEffect {
    Nothing,
    /// The window is closed, and the request is answered.
    Answer { handle: String, surface: Surface, response: PortalResponse<AccessDialogResult> },
}

/// What follows from a new question.
#[derive(Debug)]
pub struct AccessOpened {
    /// The question that waited before: its window is closed, and it is answered that it was
    /// cancelled.
    pub replaced: Option<(String, Surface)>,
    /// The window that is opened.
    pub surface: Surface,
}

impl AccessDialogArgs {
    /// The window of the question.
    pub open spec fn spec_surface(self) -> Surface {
        Surface { id: self.access_id, modal: self.options.modal == Some(true) }
    }

    /// The window of the question.
    pub fn surface(&self) -> (r: Surface)
        ensures
            r == self.spec_surface(),
    {
        let modal = match self.options.modal {
            Some(modal) => modal,
            None => false,
        };
        Surface { id: self.access_id, modal }
    }
}

/// The question that waits, if any.
#[derive(Debug)]
pub struct AccessDialog {
    pub args: Option<AccessDialogArgs>,
}

/// The options that are chosen after an option was chosen by position; none where there is no such
/// option.
pub open spec fn choice_made(
    args: AccessDialogArgs,
    i: usize,
    j: usize,
) -> Map<Seq<char>, Seq<char>> {
    let choices = wanted_choices(args.options.choices);
    if i < choices.len() && j < choices[i as int].2@.len() {
        text_map(args.active_choices@).insert(
            choices[i as int].0@,
            choices[i as int].2@[j as int].0@,
        )
    } else {
        text_map(args.active_choices@)
    }
}

/// What follows from what the user does while a question waits.
pub open spec fn step(
    args: AccessDialogArgs,
    msg: Msg,
    post: Option<AccessDialogArgs>,
    effect: AccessEffect,
) -> bool {
    match msg {
        Msg::Allow => {
            &&& post is None
            &&& effect matches AccessEffect::Answer { handle, surface, response }
            &&& handle == args.handle
            &&& surface == args.spec_surface()
            &&& response matches PortalResponse::Success(result)
            &&& lists(result.choices@, args.active_choices@)
        },
        Msg::Cancel => {
            &&& post is None
            &&& effect == (AccessEffect::Answer {
                handle: args.handle,
                surface: args.spec_surface(),
                response: PortalResponse::Cancelled,
            })
        },
        Msg::Choice(i, j) => {
            &&& post matches Some(new)
            &&& new == (AccessDialogArgs { active_choices: new.active_choices, ..args })
            &&& text_map(new.active_choices@) == choice_made(args, i, j)
            &&& effect == AccessEffect::Nothing
        },
        Msg::Ignore => post == Some(args) && effect == AccessEffect::Nothing,
    }
}

impl AccessDialog {
    /// No question waits.
    pub fn new() -> (r: Self)
        ensures
            r.args is None,
    {
        AccessDialog { args: None }
    }

    /// Does what the user wants. Only while a question waits is there anything to do.
    pub fn update_msg(&mut self, msg: Msg) -> (r: AccessEffect)
        requires
            msg != Msg::Ignore ==> old(self).args is Some,
        ensures
            match old(self).args {
                Some(args) => step(args, msg, final(self).args, r),
                None => final(self).args is None && r == AccessEffect::Nothing,
            },
    {
        match msg {
            Msg::Allow => match self.args.take() {
                Some(args) => {
                    let surface = args.surface();
                    let choices = args.active_choices.into_entries();
                    AccessEffect::Answer {
                        handle: args.handle,
                        surface,
                        response: PortalResponse::Success(AccessDialogResult { choices }),
                    }
                },
                None => AccessEffect::Nothing,
            },
            Msg::Cancel => match self.args.take() {
                Some(args) => {
                    let surface = args.surface();
                    AccessEffect::Answer {
                        handle: args.handle,
                        surface,
                        response: PortalResponse::Cancelled,
                    }
                },
                None => AccessEffect::Nothing,
            },
            Msg::Choice(i, j) => {
                if let Some(args) = &mut self.args {
                    choose_option(args, i, j);
                }
                AccessEffect::Nothing
            },
            Msg::Ignore => AccessEffect::Nothing,
        }
    }

    /// Takes up a question, with the number of its window. One that waited is cancelled.
    pub fn update_args(&mut self, args: AccessDialogArgs, access_id: u64) -> (r: AccessOpened)
        ensures
            final(self).args == Some(AccessDialogArgs { access_id, ..args }),
            r.surface == (AccessDialogArgs { access_id, ..args }).spec_surface(),
            r.replaced == match old(self).args {
                Some(before) => Some((before.handle, before.spec_surface())),
                None => None,
            },
    {
        let replaced = match self.args.take() {
            Some(before) => {
                let surface = before.surface();
                Some((before.handle, surface))
            },
            None => None,
        };
        let mut args = args;
        args.access_id = access_id;
        let surface = args.surface();
        self.args = Some(args);
        AccessOpened { replaced, surface }
    }
}

/// Chooses an option of a choice.
fn choose_option(args: &mut AccessDialogArgs, i: usize, j: usize)
    ensures
        *final(args) == (AccessDialogArgs { active_choices: final(args).active_choices, ..*old(args) }),
        text_map(final(args).active_choices@) == choice_made(*old(args), i, j),
{
    let ghost before = args.active_choices@;
    if let Some(choices) = &args.options.choices {
        if i < choices.len() {
            let choice = &choices[i];
            if j < choice.2.len() {
                let option = choice.2[j].0.clone();
                args.active_choices.insert(choice.0.as_str(), option);
                proof {
                    assert(text_map(args.active_choices@) =~= text_map(before).insert(
                        choice.0@,
                        option@,
                    ));
                }
            }
        }
    }
}

/// An option that is chosen is answered under the identifier of its choice, and the other choices
/// stay as they were.
pub proof fn law_chosen_option_is_answered(args: AccessDialogArgs, i: usize, j: usize)
    requires
        i < wanted_choices(args.options.choices).len(),
        j < wanted_choices(args.options.choices)[i as int].2@.len(),
    ensures
        choice_made(args, i, j).dom().contains(wanted_choices(args.options.choices)[i as int].0@),
        choice_made(args, i, j)[wanted_choices(args.options.choices)[i as int].0@]
            == wanted_choices(args.options.choices)[i as int].2@[j as int].0@,
        forall|id: Seq<char>| #[trigger]
            args.active_choices@.dom().contains(id) && id != wanted_choices(
                args.options.choices,
            )[i as int].0@ ==> choice_made(args, i, j)[id] == args.active_choices@[id]@,
{
}

/// A choice as it is shown.
#[derive(Debug)]
pub struct ShownChoice {
    pub label: String,
    pub options: Vec<String>,
    pub selected: Option<usize>,
}

/// A choice as it is shown, as a value.
pub struct ShownView {
    pub label: Seq<char>,
    pub options: Seq<Seq<char>>,
    pub selected: Option<usize>,
}

impl View for ShownChoice {
    type V = ShownView;

    open spec fn view(&self) -> ShownView {
        ShownView { label: self.label@, options: views(self.options@), selected: self.selected }
    }
}

/// Choices as they are shown, as values.
pub open spec fn shown_views(choices: Seq<ShownChoice>) -> Seq<ShownView> {
    choices.map_values(|choice: ShownChoice| choice@)
}

/// A choice as it is shown, with the labels of its options and the option that is chosen.
pub open spec fn shown_choice(
    choice: (String, String, Vec<(String, String)>, String),
    labels: Seq<Seq<char>>,
    active: Map<Seq<char>, Seq<char>>,
) -> ShownView {
    ShownView {
        label: choice.1@,
        options: labels,
        selected: if active.dom().contains(choice.0@) {
            option_position(pair_views(choice.2@), active[choice.0@])
        } else {
            None
        },
    }
}

/// The choices as they are shown, each with the labels at its place; one without labels is left out.
pub open spec fn shown_choices(
    choices: Seq<(String, String, Vec<(String, String)>, String)>,
    labels: Seq<Seq<Seq<char>>>,
    active: Map<Seq<char>, Seq<char>>,
) -> Seq<ShownView> {
    Seq::new(
        if choices.len() <= labels.len() {
            choices.len()
        } else {
            labels.len()
        },
        |i: int| shown_choice(choices[i], labels[i], active),
    )
}

/// What a question shows.
#[derive(Debug)]
pub struct AccessContent {
    pub title: String,
    pub body: String,
    pub text: String,
    pub icon: String,
    pub deny: Label,
    pub grant: Label,
    pub choices: Vec<ShownChoice>,
}

/// A label that was given, or a message.
pub open spec fn label_or(label: Option<Seq<char>>, id: Seq<char>) -> LabelView {
    match label {
        Some(label) => plain_text(label),
        None => plain_message(id),
    }
}

/// A label that was given, or a message.
fn choose_label(label: &Option<String>, id: &'static str) -> (r: Label)
    ensures
        r@ == label_or(view_opt(*label), id@),
{
    match label {
        Some(label) => Label::text(label.clone()),
        None => Label::message(id),
    }
}

/// A choice as it is shown.
fn show_choice(
    choice: &(String, String, Vec<(String, String)>, String),
    labels: &Vec<String>,
    active: &Dict<String>,
) -> (r: ShownChoice)
    ensures
        r@ == shown_choice(*choice, views(labels@), text_map(active@)),
{
    let selected = match active.get(choice.0.as_str()) {
        Some(id) => crate::file_chooser::find_option(&choice.2, id.as_str()),
        None => None,
    };
    ShownChoice { label: choice.1.clone(), options: clone_texts(labels), selected }
}

/// What a key does in the question.
pub open spec fn key_does(key: DialogKey) -> Option<Msg> {
    match key {
        DialogKey::Enter => Some(Msg::Allow),
        DialogKey::Escape => Some(Msg::Cancel),
        DialogKey::Other => None,
    }
}

/// What a key does in the question.
pub fn on_key(key: DialogKey) -> (r: Option<Msg>)
    ensures
        r == match key {
            DialogKey::Enter => Some(Msg::Allow),
            DialogKey::Escape => Some(Msg::Cancel),
            DialogKey::Other => None,
        },
        r == key_does(key),
{
    match key {
        DialogKey::Enter => Some(Msg::Allow),
        DialogKey::Escape => Some(Msg::Cancel),
        DialogKey::Other => None,
    }
}

impl AccessDialog {
    /// What the question shows; nothing where none waits.
    pub fn view(&self) -> (r: Option<AccessContent>)
        ensures
            match self.args {
                Some(args) => {
                    &&& r matches Some(content)
                    &&& content.title == args.title
                    &&& content.body == args.subtitle
                    &&& content.text == args.body
                    &&& content.icon@ == match args.options.icon {
                        Some(icon) => icon@,
                        None => "image-missing"@,
                    }
                    &&& content.deny@ == label_or(view_opt(args.options.deny_label), "cancel"@)
                    &&& content.grant@ == label_or(view_opt(args.options.grant_label), "allow"@)
                    &&& shown_views(content.choices@) == shown_choices(
                        wanted_choices(args.options.choices),
                        list_views(args.choice_labels@),
                        text_map(args.active_choices@),
                    )
                },
                None => r is None,
            },
    {
        match &self.args {
            Some(args) => {
                let ghost all = shown_choices(
                    wanted_choices(args.options.choices),
                    list_views(args.choice_labels@),
                    text_map(args.active_choices@),
                );
                let mut shown: Vec<ShownChoice> = Vec::new();
                proof {
                    assert(shown_views(shown@) =~= all.take(0));
                }
                if let Some(choices) = &args.options.choices {
                    let mut i: usize = 0;
                    while i < choices.len() && i < args.choice_labels.len()
                        invariant
                            i <= choices@.len(),
                            i <= args.choice_labels@.len(),
                            all == shown_choices(
                                choices@,
                                list_views(args.choice_labels@),
                                text_map(args.active_choices@),
                            ),
                            shown_views(shown@) == all.take(i as int),
                        decreases choices@.len() - i,
                    {
                        let ghost before = shown@;
                        let choice = show_choice(
                            &choices[i],
                            &args.choice_labels[i],
                            &args.active_choices,
                        );
                        shown.push(choice);
                        proof {
                            assert(all[i as int] == choice@);
                            assert(shown_views(shown@) =~= shown_views(before).push(choice@));
                            assert(all.take(i + 1) =~= all.take(i as int).push(all[i as int]));
                        }
                        i = i + 1;
                    }
                }
                proof {
                    assert(all.take(all.len() as int) =~= all);
                }
                let icon = match &args.options.icon {
                    Some(icon) => icon.clone(),
                    None => "image-missing".to_owned(),
                };
                Some(
                    AccessContent {
                        title: args.title.clone(),
                        body: args.subtitle.clone(),
                        text: args.body.clone(),
                        icon,
                        deny: choose_label(&args.options.deny_label, "cancel"),
                        grant: choose_label(&args.options.grant_label, "allow"),
                        choices: shown,
                    },
                )
            },
            None => None,
        }
    }
}

/// Who may pass is answered that the request succeeded, with each choice as it was made; who may not is
/// answered that it was cancelled. Either way the question is gone, and its own window is closed.
pub proof fn law_question_is_answered_as_decided(
    args: AccessDialogArgs,
    msg: Msg,
    post: Option<AccessDialogArgs>,
    effect: AccessEffect,
    id: Seq<char>,
)
    requires
        step(args, msg, post, effect),
    ensures
        msg is Allow || msg is Cancel ==> post is None && (effect matches AccessEffect::Answer {
            handle,
            surface,
            response,
        } && handle == args.handle && surface.id == args.access_id && (surface.modal
            <==> args.options.modal == Some(true)) && (msg is Allow <==> response is Success) && (
        msg is Cancel <==> response is Cancelled)),
        msg is Allow && args.active_choices@.dom().contains(id) ==> (
        effect matches AccessEffect::Answer { response: PortalResponse::Success(result), .. }
            && exists|i: int|
            0 <= i < result.choices@.len() && (#[trigger] result.choices@[i]).0@ == id
                && result.choices@[i].1 == args.active_choices@[id]),
        msg is Choice || msg is Ignore ==> effect is Nothing && post is Some && post->0.handle
            == args.handle,
{
    if msg is Allow && args.active_choices@.dom().contains(id) {
        if let AccessEffect::Answer { response: PortalResponse::Success(result), .. } = effect {
            assert(crate::dict::has_name(result.choices@, id));
            let i = choose|i: int|
                0 <= i < result.choices@.len() && (#[trigger] result.choices@[i]).0@ == id;
            assert(result.choices@[i].0@ == id);
        }
    }
}

/// Return lets the application pass, and Escape does not; no other key answers.
pub proof fn law_keys_decide(
    args: AccessDialogArgs,
    key: DialogKey,
    post: Option<AccessDialogArgs>,
    effect: AccessEffect,
)
    requires
        key_does(key) is Some,
        step(args, key_does(key)->0, post, effect),
    ensures
        effect matches AccessEffect::Answer { response, .. } && (key is Enter
            <==> response is Success) && (key is Escape <==> response is Cancelled),
        !(key is Other),
{
}

/// The option that an application proposes for a choice is chosen at first, if it proposes one.
pub proof fn law_proposed_option_is_chosen_at_first(
    choices: Seq<(String, String, Vec<(String, String)>, String)>,
    i: int,
)
    requires
        0 <= i < choices.len(),
        forall|a: int, b: int|
            #![trigger choices[a], choices[b]]
            0 <= a < b < choices.len() ==> choices[a].0@ != choices[b].0@,
    ensures
        choices[i].3@.len() > 0 ==> initial_choices(choices).dom().contains(choices[i].0@)
            && initial_choices(choices)[choices[i].0@] == choices[i].3@,
        choices[i].3@.len() == 0 ==> !initial_choices(choices).dom().contains(choices[i].0@),
    decreases choices.len(),
{
    let init = choices.drop_last();
    assert forall|a: int, b: int|
        #![trigger init[a], init[b]]
        0 <= a < b < init.len() implies init[a].0@ != init[b].0@ by {
        assert(choices[a].0@ != choices[b].0@);
    }
    let last = choices.len() - 1;
    if i < last {
        assert(init[i] == choices[i]);
        assert(choices[i].0@ != choices[last].0@);
        law_proposed_option_is_chosen_at_first(init, i);
    } else {
        assert forall|a: int| 0 <= a < init.len() implies (#[trigger] init[a]).0@
            != choices[last].0@ by {
            assert(choices[a].0@ != choices[last].0@);
        }
        lemma_not_proposed(init, choices[last].0@);
    }
}

/// A choice that is not there has no option.
proof fn lemma_not_proposed(
    choices: Seq<(String, String, Vec<(String, String)>, String)>,
    id: Seq<char>,
)
    requires
        forall|a: int| 0 <= a < choices.len() ==> (#[trigger] choices[a]).0@ != id,
    ensures
        !initial_choices(choices).dom().contains(id),
    decreases choices.len(),
{
    if choices.len() > 0 {
        let init = choices.drop_last();
        assert forall|a: int| 0 <= a < init.len() implies (#[trigger] init[a]).0@ != id by {
            assert(choices[a].0@ != id);
        }
        lemma_not_proposed(init, id);
        assert(choices[choices.len() - 1].0@ != id);
    }
}

/// A choice is shown under its label, with the option selected that is answered for it.
pub proof fn law_shown_option_is_the_answered_one(
    choice: (String, String, Vec<(String, String)>, String),
    labels: Seq<Seq<char>>,
    active: Map<Seq<char>, Seq<char>>,
)
    requires
        choice.2@.len() <= usize::MAX,
    ensures
        ({
            let shown = shown_choice(choice, labels, active);
            &&& shown.label == choice.1@
            &&& shown.options == labels
            &&& !active.dom().contains(choice.0@) ==> shown.selected is None
            &&& shown.selected matches Some(j) ==> j < choice.2@.len()
                && active.dom().contains(choice.0@) && choice.2@[j as int].0@ == active[choice.0@]
        }),
{
    crate::file_chooser::law_option_is_found(pair_views(choice.2@), active[choice.0@]);
}

/// A label that the application gives is shown as it is, and otherwise the message for it.
pub proof fn law_given_label_is_shown(label: Seq<char>, id: Seq<char>)
    ensures
        label_or(Some(label), id) == plain_text(label),
        label_or(None, id) == plain_message(id),
{
}

} // verus!
