//! Dialogs in which the user chooses files for an application.

use crate::portal::PortalResponse;
use crate::text::{has_prefix, str_eq, view_opt, views};
use std::collections::HashMap;
use vstd::prelude::*;

verus! {

broadcast use vstd::std_specs::hash::group_hash_axioms;

/// Choices that an application wants beside the files: an identifier, a label, the options by
/// identifier and label, and the option that is chosen at first. A choice without options is a box to
/// be ticked.
pub type Choices = Vec<(String, String, Vec<(String, String)>, String)>;

/// A filter for files: a label, and patterns with their kinds.
pub type Filter = (String, Vec<(u32, String)>);

/// Filters for files.
pub type Filters = Vec<Filter>;

/// The kind of a pattern that names match.
pub const PATTERN_GLOB: u32 = 0;

/// The kind of a pattern that types match.
pub const PATTERN_MIME: u32 = 1;

/// What is asked for when files are opened.
#[derive(Debug)]
pub struct OpenFileOptions {
    pub accept_label: Option<String>,
    pub modal: Option<bool>,
    pub multiple: Option<bool>,
    pub directory: Option<bool>,
    pub filters: Option<Filters>,
    pub current_filter: Option<Filter>,
    pub choices: Option<Choices>,
    pub current_folder: Option<Vec<u8>>,
}

/// What is asked for when a file is saved.
#[derive(Debug)]
pub struct SaveFileOptions {
    pub accept_label: Option<String>,
    pub modal: Option<bool>,
    pub filters: Option<Filters>,
    pub current_filter: Option<Filter>,
    pub choices: Option<Choices>,
    pub current_name: Option<String>,
    pub current_folder: Option<Vec<u8>>,
    pub current_file: Option<Vec<u8>>,
}

/// What is asked for when several files are saved.
#[derive(Debug)]
pub struct SaveFilesOptions {
    pub accept_label: Option<String>,
    pub modal: Option<bool>,
    pub choices: Option<Choices>,
    pub current_folder: Option<Vec<u8>>,
    pub files: Option<Vec<Vec<u8>>>,
}

/// What is asked for.
#[derive(Debug)]
pub enum FileChooserOptions {
    OpenFile(OpenFileOptions),
    SaveFile(SaveFileOptions),
    SaveFiles(SaveFilesOptions),
}

/// Bytes without the zeros behind them.
pub open spec fn without_zeros(bytes: Seq<u8>) -> Seq<u8>
    decreases bytes.len(),
{
    if bytes.len() > 0 && bytes.last() == 0 {
        without_zeros(bytes.drop_last())
    } else {
        bytes
    }
}

/// Bytes without the zeros behind them.
fn trim_zeros(bytes: &Vec<u8>) -> (r: Vec<u8>)
    ensures
        r@ == without_zeros(bytes@),
{
    let mut n: usize = bytes.len();
    proof {
        assert(bytes@.take(n as int) =~= bytes@);
    }
    while n > 0 && bytes[n - 1] == 0
        invariant
            n <= bytes@.len(),
            without_zeros(bytes@) == without_zeros(bytes@.take(n as int)),
        decreases n,
    {
        proof {
            assert(bytes@.take(n as int).last() == bytes@[n - 1]);
            assert(bytes@.take(n as int).drop_last() =~= bytes@.take(n - 1));
        }
        n = n - 1;
    }
    proof {
        if n > 0 {
            assert(bytes@.take(n as int).last() == bytes@[n - 1]);
        }
    }
    let mut r: Vec<u8> = Vec::new();
    let mut i: usize = 0;
    while i < n
        invariant
            i <= n <= bytes@.len(),
            r@ == bytes@.take(i as int),
        decreases n - i,
    {
        r.push(bytes[i]);
        proof {
            assert(r@ =~= bytes@.take(i + 1));
        }
        i = i + 1;
    }
    r
}

impl FileChooserOptions {
    /// The label of the button that accepts.
    pub open spec fn spec_accept_label(self) -> Option<String> {
        match self {
            FileChooserOptions::OpenFile(x) => x.accept_label,
            FileChooserOptions::SaveFile(x) => x.accept_label,
            FileChooserOptions::SaveFiles(x) => x.accept_label,
        }
    }

    /// The label of the button that accepts.
    pub fn accept_label(&self) -> (r: Option<String>)
        ensures
            r == self.spec_accept_label(),
    {
        match self {
            FileChooserOptions::OpenFile(x) => x.accept_label.clone(),
            FileChooserOptions::SaveFile(x) => x.accept_label.clone(),
            FileChooserOptions::SaveFiles(x) => x.accept_label.clone(),
        }
    }

    /// The choices beside the files.
    pub open spec fn spec_choices(self) -> Option<Choices> {
        match self {
            FileChooserOptions::OpenFile(x) => x.choices,
            FileChooserOptions::SaveFile(x) => x.choices,
            FileChooserOptions::SaveFiles(x) => x.choices,
        }
    }

    /// The choices beside the files.
    pub fn choices(&self) -> (r: Option<&Choices>)
        ensures
            match r {
                Some(choices) => self.spec_choices() == Some(*choices),
                None => self.spec_choices() is None,
            },
    {
        match self {
            FileChooserOptions::OpenFile(x) => x.choices.as_ref(),
            FileChooserOptions::SaveFile(x) => x.choices.as_ref(),
            FileChooserOptions::SaveFiles(x) => x.choices.as_ref(),
        }
    }

    /// The filters. There are none where several files are saved.
    pub open spec fn spec_filters(self) -> Option<Filters> {
        match self {
            FileChooserOptions::OpenFile(x) => x.filters,
            FileChooserOptions::SaveFile(x) => x.filters,
            FileChooserOptions::SaveFiles(_) => None,
        }
    }

    /// The filters.
    pub fn filters(&self) -> (r: Option<&Filters>)
        ensures
            match r {
                Some(filters) => self.spec_filters() == Some(*filters),
                None => self.spec_filters() is None,
            },
    {
        match self {
            FileChooserOptions::OpenFile(x) => x.filters.as_ref(),
            FileChooserOptions::SaveFile(x) => x.filters.as_ref(),
            FileChooserOptions::SaveFiles(_) => None,
        }
    }

    /// The filter that is chosen at first. There is none where several files are saved.
    pub open spec fn spec_current_filter(self) -> Option<Filter> {
        match self {
            FileChooserOptions::OpenFile(x) => x.current_filter,
            FileChooserOptions::SaveFile(x) => x.current_filter,
            FileChooserOptions::SaveFiles(_) => None,
        }
    }

    /// The filter that is chosen at first.
    pub fn current_filter(&self) -> (r: Option<&Filter>)
        ensures
            match r {
                Some(filter) => self.spec_current_filter() == Some(*filter),
                None => self.spec_current_filter() is None,
            },
    {
        match self {
            FileChooserOptions::OpenFile(x) => x.current_filter.as_ref(),
            FileChooserOptions::SaveFile(x) => x.current_filter.as_ref(),
            FileChooserOptions::SaveFiles(_) => None,
        }
    }

    /// Whether the dialog is modal: it is where nothing is said.
    pub fn modal(&self) -> (r: bool)
        ensures
            r == match *self {
                FileChooserOptions::OpenFile(x) => x.modal != Some(false),
                FileChooserOptions::SaveFile(x) => x.modal != Some(false),
                FileChooserOptions::SaveFiles(x) => x.modal != Some(false),
            },
    {
        let modal = match self {
            FileChooserOptions::OpenFile(x) => x.modal,
            FileChooserOptions::SaveFile(x) => x.modal,
            FileChooserOptions::SaveFiles(x) => x.modal,
        };
        match modal {
            Some(modal) => modal,
            None => true,
        }
    }

    /// The bytes that are said of the folder.
    pub open spec fn folder_bytes(self) -> Option<Vec<u8>> {
        match self {
            FileChooserOptions::OpenFile(x) => x.current_folder,
            FileChooserOptions::SaveFile(x) => x.current_folder,
            FileChooserOptions::SaveFiles(x) => x.current_folder,
        }
    }

    /// The folder that is shown at first, as the bytes of its path. Zeros that end it are no part of
    /// it.
    pub fn current_folder(&self) -> (r: Option<Vec<u8>>)
        ensures
            match self.folder_bytes() {
                Some(bytes) => r matches Some(folder) && folder@ == without_zeros(bytes@),
                None => r is None,
            },
    {
        let bytes = match self {
            FileChooserOptions::OpenFile(x) => x.current_folder.as_ref(),
            FileChooserOptions::SaveFile(x) => x.current_folder.as_ref(),
            FileChooserOptions::SaveFiles(x) => x.current_folder.as_ref(),
        };
        match bytes {
            Some(bytes) => Some(trim_zeros(bytes)),
            None => None,
        }
    }
}

/// The path of a folder does not end with a zero, and begins as it was said.
pub proof fn law_folder_has_no_zero_behind(bytes: Seq<u8>)
    ensures
        without_zeros(bytes).len() > 0 ==> without_zeros(bytes).last() != 0,
        without_zeros(bytes) == bytes.take(without_zeros(bytes).len() as int),
        without_zeros(bytes).len() <= bytes.len(),
    decreases bytes.len(),
{
    if bytes.len() > 0 && bytes.last() == 0 {
        law_folder_has_no_zero_behind(bytes.drop_last());
        let n = without_zeros(bytes).len() as int;
        assert(bytes.drop_last().take(n) =~= bytes.take(n));
    } else {
        assert(bytes.take(bytes.len() as int) =~= bytes);
    }
}

/// A kind of dialog.
#[derive(Debug)]
pub enum DialogKind {
    OpenFile,
    OpenMultipleFiles,
    OpenFolder,
    OpenMultipleFolders,
    SaveFile { filename: String },
}

/// Whether a dialog is of the kind that is asked for.
pub open spec fn is_kind_for(kind: DialogKind, options: FileChooserOptions) -> bool {
    match options {
        FileChooserOptions::OpenFile(x) => {
            let directory = x.directory == Some(true);
            let multiple = x.multiple == Some(true);
            kind == if directory && multiple {
                DialogKind::OpenMultipleFolders
            } else if directory {
                DialogKind::OpenFolder
            } else if multiple {
                DialogKind::OpenMultipleFiles
            } else {
                DialogKind::OpenFile
            }
        },
        FileChooserOptions::SaveFile(x) => kind matches DialogKind::SaveFile { filename }
            && filename@ == match x.current_name {
            Some(name) => name@,
            None => Seq::empty(),
        },
        FileChooserOptions::SaveFiles(_) => kind == DialogKind::OpenFolder,
    }
}

/// The kind of dialog that is asked for. Several files are saved into a folder.
pub fn kind_for(options: &FileChooserOptions) -> (r: DialogKind)
    ensures
        is_kind_for(r, *options),
{
    match options {
        FileChooserOptions::OpenFile(x) => {
            let directory = match x.directory {
                Some(directory) => directory,
                None => false,
            };
            let multiple = match x.multiple {
                Some(multiple) => multiple,
                None => false,
            };
            if directory {
                if multiple {
                    DialogKind::OpenMultipleFolders
                } else {
                    DialogKind::OpenFolder
                }
            } else if multiple {
                DialogKind::OpenMultipleFiles
            } else {
                DialogKind::OpenFile
            }
        },
        FileChooserOptions::SaveFile(x) => {
            let filename = match &x.current_name {
                Some(name) => name.clone(),
                None => String::new(),
            };
            DialogKind::SaveFile { filename }
        },
        FileChooserOptions::SaveFiles(_) => DialogKind::OpenFolder,
    }
}

/// A choice in a dialog.
#[derive(Debug)]
pub enum DialogChoice {
    CheckBox { id: String, label: String, value: bool },
    ComboBox {
        id: String,
        label: String,
        /// Options by identifier and label.
        options: Vec<(String, String)>,
        selected: Option<usize>,
    },
}

/// A choice in a dialog, as a value.
pub enum DialogChoiceView {
    CheckBox { id: Seq<char>, label: Seq<char>, value: bool },
    ComboBox {
        id: Seq<char>,
        label: Seq<char>,
        options: Seq<(Seq<char>, Seq<char>)>,
        selected: Option<usize>,
    },
}

/// Pairs of texts, as values.
pub open spec fn pair_views(pairs: Seq<(String, String)>) -> Seq<(Seq<char>, Seq<char>)> {
    pairs.map_values(|pair: (String, String)| (pair.0@, pair.1@))
}

impl View for DialogChoice {
    type V = DialogChoiceView;

    open spec fn view(&self) -> DialogChoiceView {
        match self {
            DialogChoice::CheckBox { id, label, value } => DialogChoiceView::CheckBox {
                id: id@,
                label: label@,
                value: *value,
            },
            DialogChoice::ComboBox { id, label, options, selected } => DialogChoiceView::ComboBox {
                id: id@,
                label: label@,
                options: pair_views(options@),
                selected: *selected,
            },
        }
    }
}

/// Choices in a dialog, as values.
pub open spec fn choice_views(choices: Seq<DialogChoice>) -> Seq<DialogChoiceView> {
    choices.map_values(|choice: DialogChoice| choice@)
}

/// The first option with an identifier.
pub open spec fn option_position(options: Seq<(Seq<char>, Seq<char>)>, id: Seq<char>) -> Option<usize>
    decreases options.len(),
{
    if options.len() == 0 {
        None
    } else {
        match option_position(options.drop_last(), id) {
            Some(i) => Some(i),
            None => if options.last().0 == id {
                Some((options.len() - 1) as usize)
            } else {
                None
            },
        }
    }
}

/// The choice in a dialog for one that an application wants.
pub open spec fn shown_choice(
    choice: (String, String, Vec<(String, String)>, String),
) -> DialogChoiceView {
    if choice.2@.len() == 0 {
        DialogChoiceView::CheckBox {
            id: choice.0@,
            label: choice.1@,
            value: choice.3@ == "true"@,
        }
    } else {
        DialogChoiceView::ComboBox {
            id: choice.0@,
            label: choice.1@,
            options: pair_views(choice.2@),
            selected: option_position(pair_views(choice.2@), choice.3@),
        }
    }
}

/// The choices in a dialog for those that an application wants.
pub open spec fn shown_choices(
    choices: Seq<(String, String, Vec<(String, String)>, String)>,
) -> Seq<DialogChoiceView> {
    choices.map_values(
        |choice: (String, String, Vec<(String, String)>, String)| shown_choice(choice),
    )
}

/// Copies of pairs.
fn copy_pairs(pairs: &Vec<(String, String)>) -> (r: Vec<(String, String)>)
    ensures
        pair_views(r@) == pair_views(pairs@),
        r@.len() == pairs@.len(),
{
    let mut r: Vec<(String, String)> = Vec::new();
    let mut i: usize = 0;
    while i < pairs.len()
        invariant
            i <= pairs@.len(),
            r@.len() == i,
            pair_views(r@) == pair_views(pairs@).take(i as int),
        decreases pairs@.len() - i,
    {
        let ghost before = r@;
        let pair = (pairs[i].0.clone(), pairs[i].1.clone());
        r.push(pair);
        proof {
            assert(pair_views(r@) =~= pair_views(before).push((pair.0@, pair.1@)));
            assert(pair_views(pairs@).take(i + 1) =~= pair_views(pairs@).take(i as int).push(
                pair_views(pairs@)[i as int],
            ));
        }
        i = i + 1;
    }
    proof {
        assert(pair_views(pairs@).take(pairs@.len() as int) =~= pair_views(pairs@));
    }
    r
}

/// The first option with an identifier.
pub(crate) fn find_option(options: &Vec<(String, String)>, id: &str) -> (r: Option<usize>)
    ensures
        r == option_position(pair_views(options@), id@),
{
    let ghost all = pair_views(options@);
    let mut i: usize = 0;
    proof {
        assert(all.take(0) =~= Seq::<(Seq<char>, Seq<char>)>::empty());
    }
    while i < options.len()
        invariant
            i <= options@.len(),
            all == pair_views(options@),
            option_position(all.take(i as int), id@) is None,
        decreases options@.len() - i,
    {
        proof {
            assert(all.take(i + 1).drop_last() =~= all.take(i as int));
            assert(all.take(i + 1).last() == all[i as int]);
            assert(all[i as int].0 == options@[i as int].0@);
        }
        if str_eq(options[i].0.as_str(), id) {
            proof {
                lemma_option_in_prefix(all, id@, i + 1);
            }
            return Some(i);
        }
        i = i + 1;
    }
    proof {
        assert(all.take(all.len() as int) =~= all);
    }
    None
}

/// A position in a prefix is the position in the whole.
proof fn lemma_option_in_prefix(options: Seq<(Seq<char>, Seq<char>)>, id: Seq<char>, n: int)
    requires
        0 <= n <= options.len(),
        option_position(options.take(n), id) is Some,
    ensures
        option_position(options, id) == option_position(options.take(n), id),
    decreases options.len(),
{
    if n < options.len() {
        assert(options.drop_last().take(n) =~= options.take(n));
        lemma_option_in_prefix(options.drop_last(), id, n);
    } else {
        assert(options.take(n) =~= options);
    }
}

/// The choices in a dialog for those that an application wants.
pub fn dialog_choices(choices: &Choices) -> (r: Vec<DialogChoice>)
    ensures
        choice_views(r@) == shown_choices(choices@),
{
    let mut r: Vec<DialogChoice> = Vec::new();
    let mut i: usize = 0;
    proof {
        assert(choice_views(r@) =~= shown_choices(choices@).take(0));
    }
    while i < choices.len()
        invariant
            i <= choices@.len(),
            choice_views(r@) == shown_choices(choices@).take(i as int),
        decreases choices@.len() - i,
    {
        let ghost before = r@;
        let wanted = &choices[i];
        let choice = if wanted.2.len() == 0 {
            DialogChoice::CheckBox {
                id: wanted.0.clone(),
                label: wanted.1.clone(),
                value: str_eq(wanted.3.as_str(), "true"),
            }
        } else {
            let options = copy_pairs(&wanted.2);
            let selected = find_option(&options, wanted.3.as_str());
            DialogChoice::ComboBox {
                id: wanted.0.clone(),
                label: wanted.1.clone(),
                options,
                selected,
            }
        };
        r.push(choice);
        proof {
            assert(choice@ == shown_choice(choices@[i as int]));
            assert(choice_views(r@) =~= choice_views(before).push(choice@));
            assert(shown_choices(choices@).take(i + 1) =~= shown_choices(choices@).take(
                i as int,
            ).push(choice@));
        }
        i = i + 1;
    }
    proof {
        assert(shown_choices(choices@).take(choices@.len() as int) =~= shown_choices(choices@));
    }
    r
}

/// What is answered for a choice: a tick as a word, an option by its identifier. Where nothing is
/// chosen the first option is meant; where there is no such option, nothing is answered.
pub open spec fn answered_choice(choice: DialogChoiceView) -> Option<(Seq<char>, Seq<char>)> {
    match choice {
        DialogChoiceView::CheckBox { id, label, value } => Some(
            (
                id,
                if value {
                    "true"@
                } else {
                    "false"@
                },
            ),
        ),
        DialogChoiceView::ComboBox { id, label, options, selected } => {
            let i = match selected {
                Some(i) => i,
                None => 0,
            };
            if i < options.len() {
                Some((id, options[i as int].0))
            } else {
                None
            }
        },
    }
}

/// What is answered for choices.
pub open spec fn answered_choices(choices: Seq<DialogChoiceView>) -> Seq<(Seq<char>, Seq<char>)>
    decreases choices.len(),
{
    if choices.len() == 0 {
        Seq::empty()
    } else {
        match answered_choice(choices.last()) {
            Some(answer) => answered_choices(choices.drop_last()).push(answer),
            None => answered_choices(choices.drop_last()),
        }
    }
}

/// What is answered for choices.
pub fn choice_answers(choices: &Vec<DialogChoice>) -> (r: Vec<(String, String)>)
    ensures
        pair_views(r@) == answered_choices(choice_views(choices@)),
{
    let ghost all = choice_views(choices@);
    let mut r: Vec<(String, String)> = Vec::new();
    let mut i: usize = 0;
    proof {
        assert(all.take(0) =~= Seq::<DialogChoiceView>::empty());
        assert(pair_views(r@) =~= Seq::empty());
    }
    while i < choices.len()
        invariant
            i <= choices@.len(),
            all == choice_views(choices@),
            pair_views(r@) == answered_choices(all.take(i as int)),
        decreases choices@.len() - i,
    {
        let ghost before = r@;
        proof {
            assert(all.take(i + 1).drop_last() =~= all.take(i as int));
            assert(all.take(i + 1).last() == choices@[i as int]@);
        }
        let answer: Option<(String, String)> = match &choices[i] {
            DialogChoice::CheckBox { id, value, .. } => {
                let word = if *value {
                    "true"
                } else {
                    "false"
                };
                Some((id.clone(), word.to_owned()))
            },
            DialogChoice::ComboBox { id, options, selected, .. } => {
                let k: usize = match selected {
                    Some(k) => *k,
                    None => 0,
                };
                if k < options.len() {
                    Some((id.clone(), options[k].0.clone()))
                } else {
                    None
                }
            },
        };
        if let Some(answer) = answer {
            r.push(answer);
            proof {
                assert(pair_views(r@) =~= pair_views(before).push((answer.0@, answer.1@)));
            }
        }
        i = i + 1;
    }
    proof {
        assert(all.take(all.len() as int) =~= all);
    }
    r
}

/// An option that is chosen at first and is one of the options is answered, if nothing else is
/// chosen; a tick is answered as it was.
pub proof fn law_untouched_choice_answers_as_asked(
    choice: (String, String, Vec<(String, String)>, String),
)
    ensures
        choice.2@.len() == 0 ==> answered_choice(shown_choice(choice)) == Some(
            (
                choice.0@,
                if choice.3@ == "true"@ {
                    "true"@
                } else {
                    "false"@
                },
            ),
        ),
        choice.2@.len() > 0 && option_position(pair_views(choice.2@), choice.3@) is Some
            && choice.2@.len() <= usize::MAX ==> answered_choice(shown_choice(choice)) == Some(
            (choice.0@, choice.3@),
        ),
{
    if choice.2@.len() > 0 && choice.2@.len() <= usize::MAX {
        lemma_option_position(pair_views(choice.2@), choice.3@);
    }
}

/// The option at the position of an identifier has that identifier.
proof fn lemma_option_position(options: Seq<(Seq<char>, Seq<char>)>, id: Seq<char>)
    requires
        options.len() <= usize::MAX,
    ensures
        option_position(options, id) matches Some(i) ==> i < options.len() && options[i as int].0
            == id,
    decreases options.len(),
{
    if options.len() > 0 {
        lemma_option_position(options.drop_last(), id);
    }
}

/// A pattern of a filter in a dialog.
#[derive(Debug)]
pub enum DialogFilterPattern {
    Glob(String),
    Mime(String),
}

/// A filter in a dialog.
#[derive(Debug)]
pub struct DialogFilter {
    pub label: String,
    pub patterns: Vec<DialogFilterPattern>,
}

/// A filter, as a value.
pub struct FilterView {
    pub label: Seq<char>,
    /// Patterns with their kinds.
    pub patterns: Seq<(u32, Seq<char>)>,
}

/// Patterns with their kinds, as values.
pub open spec fn pattern_views(patterns: Seq<(u32, String)>) -> Seq<(u32, Seq<char>)> {
    patterns.map_values(|pattern: (u32, String)| (pattern.0, pattern.1@))
}

/// A filter that an application wants, as a value.
pub open spec fn filter_view(filter: Filter) -> FilterView {
    FilterView { label: filter.0@, patterns: pattern_views(filter.1@) }
}

/// Filters that an application wants, as values.
pub open spec fn filter_views(filters: Seq<Filter>) -> Seq<FilterView> {
    filters.map_values(|filter: Filter| filter_view(filter))
}

/// A pattern in a dialog, with its kind.
pub open spec fn dialog_pattern_view(pattern: DialogFilterPattern) -> (u32, Seq<char>) {
    match pattern {
        DialogFilterPattern::Glob(glob) => (PATTERN_GLOB, glob@),
        DialogFilterPattern::Mime(mime) => (PATTERN_MIME, mime@),
    }
}

impl View for DialogFilter {
    type V = FilterView;

    open spec fn view(&self) -> FilterView {
        FilterView {
            label: self.label@,
            patterns: self.patterns@.map_values(
                |pattern: DialogFilterPattern| dialog_pattern_view(pattern),
            ),
        }
    }
}

/// Filters in a dialog, as values.
pub open spec fn dialog_filter_views(filters: Seq<DialogFilter>) -> Seq<FilterView> {
    filters.map_values(|filter: DialogFilter| filter@)
}

/// The patterns whose kinds are known.
pub open spec fn known_patterns(patterns: Seq<(u32, Seq<char>)>) -> Seq<(u32, Seq<char>)>
    decreases patterns.len(),
{
    if patterns.len() == 0 {
        Seq::empty()
    } else if patterns.last().0 == PATTERN_GLOB || patterns.last().0 == PATTERN_MIME {
        known_patterns(patterns.drop_last()).push(patterns.last())
    } else {
        known_patterns(patterns.drop_last())
    }
}

/// A filter in a dialog for one that an application wants.
pub open spec fn shown_filter(filter: FilterView) -> FilterView {
    FilterView { label: filter.label, patterns: known_patterns(filter.patterns) }
}

/// The first position of a filter.
pub open spec fn filter_position(filters: Seq<FilterView>, filter: FilterView) -> Option<usize>
    decreases filters.len(),
{
    if filters.len() == 0 {
        None
    } else {
        match filter_position(filters.drop_last(), filter) {
            Some(i) => Some(i),
            None => if filters.last() == filter {
                Some((filters.len() - 1) as usize)
            } else {
                None
            },
        }
    }
}

/// The filters that a dialog has: those that are wanted, and before them the one that is chosen at
/// first, if it is not among them.
pub open spec fn all_filters(filters: Seq<FilterView>, current: Option<FilterView>) -> Seq<FilterView> {
    match current {
        Some(filter) => if filter_position(filters, filter) is Some {
            filters
        } else {
            seq![filter] + filters
        },
        None => filters,
    }
}

/// The filter that is chosen at first: the one that is wanted, or else the first.
pub open spec fn selected_filter(filters: Seq<FilterView>, current: Option<FilterView>) -> Option<
    usize,
> {
    match current {
        Some(filter) => match filter_position(filters, filter) {
            Some(i) => Some(i),
            None => Some(0),
        },
        None => if filters.len() > 0 {
            Some(0)
        } else {
            None
        },
    }
}

/// Whether patterns are the same.
fn same_patterns(a: &Vec<(u32, String)>, b: &Vec<(u32, String)>) -> (r: bool)
    ensures
        r == (pattern_views(a@) == pattern_views(b@)),
{
    if a.len() != b.len() {
        assert(pattern_views(a@).len() == a@.len());
        assert(pattern_views(b@).len() == b@.len());
        return false;
    }
    let mut i: usize = 0;
    while i < a.len()
        invariant
            i <= a@.len(),
            a@.len() == b@.len(),
            forall|j: int|
                0 <= j < i ==> (#[trigger] pattern_views(a@)[j]) == pattern_views(b@)[j],
        decreases a@.len() - i,
    {
        proof {
            let k = i as int;
            assert(pattern_views(a@)[k] == (a@[k].0, a@[k].1@));
            assert(pattern_views(b@)[k] == (b@[k].0, b@[k].1@));
        }
        if a[i].0 != b[i].0 || !str_eq(a[i].1.as_str(), b[i].1.as_str()) {
            return false;
        }
        i = i + 1;
    }
    proof {
        assert(pattern_views(a@) =~= pattern_views(b@));
    }
    true
}

/// The first position of a filter.
fn find_filter(filters: &Filters, filter: &Filter) -> (r: Option<usize>)
    ensures
        r == filter_position(filter_views(filters@), filter_view(*filter)),
{
    let ghost all = filter_views(filters@);
    let ghost wanted = filter_view(*filter);
    let mut i: usize = 0;
    proof {
        assert(all.take(0) =~= Seq::<FilterView>::empty());
    }
    while i < filters.len()
        invariant
            i <= filters@.len(),
            all == filter_views(filters@),
            wanted == filter_view(*filter),
            filter_position(all.take(i as int), wanted) is None,
        decreases filters@.len() - i,
    {
        proof {
            assert(all.take(i + 1).drop_last() =~= all.take(i as int));
            assert(all.take(i + 1).last() == all[i as int]);
            assert(all[i as int] == filter_view(filters@[i as int]));
        }
        if str_eq(filters[i].0.as_str(), filter.0.as_str()) && same_patterns(
            &filters[i].1,
            &filter.1,
        ) {
            proof {
                lemma_filter_in_prefix(all, wanted, i + 1);
            }
            return Some(i);
        }
        i = i + 1;
    }
    proof {
        assert(all.take(all.len() as int) =~= all);
    }
    None
}

/// A position in a prefix is the position in the whole.
proof fn lemma_filter_in_prefix(filters: Seq<FilterView>, filter: FilterView, n: int)
    requires
        0 <= n <= filters.len(),
        filter_position(filters.take(n), filter) is Some,
    ensures
        filter_position(filters, filter) == filter_position(filters.take(n), filter),
    decreases filters.len(),
{
    if n < filters.len() {
        assert(filters.drop_last().take(n) =~= filters.take(n));
        lemma_filter_in_prefix(filters.drop_last(), filter, n);
    } else {
        assert(filters.take(n) =~= filters);
    }
}

/// A filter in a dialog for one that an application wants.
fn dialog_filter(filter: &Filter) -> (r: DialogFilter)
    ensures
        r@ == shown_filter(filter_view(*filter)),
{
    let ghost all = pattern_views(filter.1@);
    let mut patterns: Vec<DialogFilterPattern> = Vec::new();
    let ghost mut kept: Seq<(u32, Seq<char>)> = Seq::empty();
    let mut i: usize = 0;
    proof {
        assert(all.take(0) =~= Seq::<(u32, Seq<char>)>::empty());
        assert(patterns@.map_values(|p: DialogFilterPattern| dialog_pattern_view(p)) =~= kept);
    }
    while i < filter.1.len()
        invariant
            i <= filter.1@.len(),
            all == pattern_views(filter.1@),
            kept == known_patterns(all.take(i as int)),
            patterns@.map_values(|p: DialogFilterPattern| dialog_pattern_view(p)) == kept,
        decreases filter.1@.len() - i,
    {
        let ghost before = patterns@;
        let ghost had = kept;
        proof {
            assert(all.take(i + 1).drop_last() =~= all.take(i as int));
            assert(all.take(i + 1).last() == all[i as int]);
            assert(all[i as int] == (filter.1@[i as int].0, filter.1@[i as int].1@));
        }
        let kind: u32 = filter.1[i].0;
        if kind == PATTERN_GLOB {
            patterns.push(DialogFilterPattern::Glob(filter.1[i].1.clone()));
        } else if kind == PATTERN_MIME {
            patterns.push(DialogFilterPattern::Mime(filter.1[i].1.clone()));
        }
        proof {
            kept = known_patterns(all.take(i + 1));
            assert(patterns@.map_values(|p: DialogFilterPattern| dialog_pattern_view(p)) =~= kept);
        }
        i = i + 1;
    }
    proof {
        assert(all.take(all.len() as int) =~= all);
    }
    DialogFilter { label: filter.0.clone(), patterns }
}

/// The filters that a dialog has, and the one that is chosen at first.
pub fn dialog_filters(filters: Option<&Filters>, current: Option<&Filter>) -> (r: (
    Vec<DialogFilter>,
    Option<usize>,
))
    ensures
        ({
            let wanted = match filters {
                Some(filters) => filter_views(filters@),
                None => Seq::empty(),
            };
            let first = match current {
                Some(current) => Some(filter_view(*current)),
                None => None,
            };
            &&& dialog_filter_views(r.0@) == all_filters(wanted, first).map_values(
                |filter: FilterView| shown_filter(filter),
            )
            &&& r.1 == selected_filter(wanted, first)
        }),
{
    let ghost wanted = match filters {
        Some(filters) => filter_views(filters@),
        None => Seq::empty(),
    };
    let mut shown: Vec<DialogFilter> = Vec::new();
    let mut selected: Option<usize> = None;
    let ghost shows = |filter: FilterView| shown_filter(filter);
    if let Some(current) = current {
        let found = match filters {
            Some(filters) => find_filter(filters, current),
            None => None,
        };
        match found {
            Some(i) => {
                selected = Some(i);
            },
            None => {
                selected = Some(0);
                shown.push(dialog_filter(current));
            },
        }
    } else {
        if let Some(filters) = filters {
            if filters.len() > 0 {
                selected = Some(0);
            }
        }
    }
    let ghost first = dialog_filter_views(shown@);
    if let Some(filters) = filters {
        let mut i: usize = 0;
        proof {
            assert(first + wanted.map_values(shows).take(0) =~= first);
        }
        while i < filters.len()
            invariant
                i <= filters@.len(),
                wanted == filter_views(filters@),
                shows == (|filter: FilterView| shown_filter(filter)),
                dialog_filter_views(shown@) == first + wanted.map_values(shows).take(i as int),
            decreases filters@.len() - i,
        {
            let ghost before = shown@;
            let filter = dialog_filter(&filters[i]);
            shown.push(filter);
            proof {
                assert(wanted[i as int] == filter_view(filters@[i as int]));
                assert(dialog_filter_views(shown@) =~= dialog_filter_views(before).push(filter@));
                assert(first + wanted.map_values(shows).take(i + 1) =~= (first
                    + wanted.map_values(shows).take(i as int)).push(filter@));
            }
            i = i + 1;
        }
        proof {
            assert(wanted.map_values(shows).take(wanted.len() as int) =~= wanted.map_values(
                shows,
            ));
        }
    }
    proof {
        let current_view = match current {
            Some(current) => Some(filter_view(*current)),
            None => None,
        };
        assert(dialog_filter_views(shown@) =~= first + wanted.map_values(shows));
        assert(dialog_filter_views(shown@) =~= all_filters(wanted, current_view).map_values(shows));
    }
    (shown, selected)
}

/// The filter that is answered: the one that is chosen, as it is in the dialog.
pub fn filter_answer(filters: &Vec<DialogFilter>, selected: Option<usize>) -> (r: Option<Filter>)
    ensures
        match selected {
            Some(i) if i < filters@.len() => r matches Some(filter) && filter_view(filter)
                == filters@[i as int]@,
            _ => r is None,
        },
{
    match selected {
        Some(i) => if i < filters.len() {
            let filter = &filters[i];
            let ghost all = filter@.patterns;
            let mut patterns: Vec<(u32, String)> = Vec::new();
            let mut k: usize = 0;
            proof {
                assert(pattern_views(patterns@) =~= all.take(0));
            }
            while k < filter.patterns.len()
                invariant
                    k <= filter.patterns@.len(),
                    all == filter@.patterns,
                    pattern_views(patterns@) == all.take(k as int),
                decreases filter.patterns@.len() - k,
            {
                let ghost before = patterns@;
                let pattern = match &filter.patterns[k] {
                    DialogFilterPattern::Glob(glob) => (PATTERN_GLOB, glob.clone()),
                    DialogFilterPattern::Mime(mime) => (PATTERN_MIME, mime.clone()),
                };
                patterns.push(pattern);
                proof {
                    assert(all[k as int] == dialog_pattern_view(filter.patterns@[k as int]));
                    assert(pattern_views(patterns@) =~= pattern_views(before).push(
                        (pattern.0, pattern.1@),
                    ));
                    assert(all.take(k + 1) =~= all.take(k as int).push(all[k as int]));
                }
                k = k + 1;
            }
            proof {
                assert(all.take(all.len() as int) =~= all);
            }
            Some((filter.label.clone(), patterns))
        } else {
            None
        },
        None => None,
    }
}

/// Patterns of known kinds are all kept.
proof fn lemma_known_patterns(patterns: Seq<(u32, Seq<char>)>)
    requires
        forall|i: int|
            0 <= i < patterns.len() ==> (#[trigger] patterns[i]).0 == PATTERN_GLOB || patterns[i].0
                == PATTERN_MIME,
    ensures
        known_patterns(patterns) == patterns,
    decreases patterns.len(),
{
    if patterns.len() > 0 {
        let init = patterns.drop_last();
        assert forall|i: int| 0 <= i < init.len() implies (#[trigger] init[i]).0 == PATTERN_GLOB
            || init[i].0 == PATTERN_MIME by {
            assert(patterns[i].0 == PATTERN_GLOB || patterns[i].0 == PATTERN_MIME);
        }
        lemma_known_patterns(init);
        assert(patterns[patterns.len() - 1] == patterns.last());
        assert(init.push(patterns.last()) =~= patterns);
    } else {
        assert(patterns =~= Seq::<(u32, Seq<char>)>::empty());
    }
}

/// The filter that is chosen at first is the one that was wanted, and is answered as it was asked,
/// if it has patterns of known kinds alone.
pub proof fn law_untouched_filter_answers_as_asked(filters: Seq<FilterView>, current: FilterView)
    requires
        filters.len() <= usize::MAX,
        forall|i: int|
            0 <= i < current.patterns.len() ==> (#[trigger] current.patterns[i]).0 == PATTERN_GLOB
                || current.patterns[i].0 == PATTERN_MIME,
    ensures
        selected_filter(filters, Some(current)) is Some,
        selected_filter(filters, Some(current))->0 < all_filters(filters, Some(current)).len(),
        shown_filter(
            all_filters(filters, Some(current))[selected_filter(filters, Some(current))->0 as int],
        ) == current,
{
    lemma_known_patterns(current.patterns);
    lemma_filter_position(filters, current);
}

/// The filter at the position of a filter is that filter.
proof fn lemma_filter_position(filters: Seq<FilterView>, filter: FilterView)
    requires
        filters.len() <= usize::MAX,
    ensures
        filter_position(filters, filter) matches Some(i) ==> i < filters.len() && filters[i as int]
            == filter,
    decreases filters.len(),
{
    if filters.len() > 0 {
        lemma_filter_position(filters.drop_last(), filter);
    }
}

/// A dialog as it is set up.
#[derive(Debug)]
pub struct DialogSetup {
    pub kind: DialogKind,
    pub path: Option<Vec<u8>>,
    pub accept_label: Option<String>,
    pub choices: Option<Vec<DialogChoice>>,
    pub filters: Vec<DialogFilter>,
    pub filter_selected: Option<usize>,
}

/// Sets a dialog up as it is asked for.
pub fn set_up(options: &FileChooserOptions) -> (r: DialogSetup)
    ensures
        is_kind_for(r.kind, *options),
        match options.folder_bytes() {
            Some(bytes) => r.path matches Some(path) && path@ == without_zeros(bytes@),
            None => r.path is None,
        },
        r.accept_label == options.spec_accept_label(),
        match options.spec_choices() {
            Some(wanted) => r.choices matches Some(choices) && choice_views(choices@)
                == shown_choices(wanted@),
            None => r.choices is None,
        },
        ({
            let wanted = match options.spec_filters() {
                Some(filters) => filter_views(filters@),
                None => Seq::empty(),
            };
            let first = match options.spec_current_filter() {
                Some(current) => Some(filter_view(current)),
                None => None,
            };
            &&& dialog_filter_views(r.filters@) == all_filters(wanted, first).map_values(
                |filter: FilterView| shown_filter(filter),
            )
            &&& r.filter_selected == selected_filter(wanted, first)
        }),
{
    let kind = kind_for(options);
    let path = options.current_folder();
    let accept_label = options.accept_label();
    let choices = match options.choices() {
        Some(choices) => Some(dialog_choices(choices)),
        None => None,
    };
    let (filters, filter_selected) = dialog_filters(options.filters(), options.current_filter());
    DialogSetup { kind, path, accept_label, choices, filters, filter_selected }
}

/// The address of the file at a path.
pub uninterp spec fn file_url_of(path: Seq<char>) -> Option<Seq<char>>;

/// The address of a file, as `url::Url::from_file_path` makes it from the path. It depends on the
/// path alone; there is one where the path begins at the root, and it begins with `file:///`.
#[verifier::external_body]
fn file_url(path: &str) -> (r: Option<String>)
    ensures
        view_opt(r) == file_url_of(path@),
        r is Some <==> has_prefix(path@, seq!['/']),
        r matches Some(url) ==> has_prefix(url@, "file:///"@),
{
    match url::Url::from_file_path(path) {
        Ok(url) => Some(url.to_string()),
        Err(()) => None,
    }
}

/// What a client gets.
#[derive(Debug)]
pub struct FileChooserResult {
    pub uris: Vec<String>,
    pub choices: Vec<(String, String)>,
    pub current_filter: Option<Filter>,
}

/// The addresses that there are.
pub open spec fn present(urls: Seq<Option<Seq<char>>>) -> Seq<Seq<char>>
    decreases urls.len(),
{
    if urls.len() == 0 {
        Seq::empty()
    } else {
        match urls.last() {
            Some(url) => present(urls.drop_last()).push(url),
            None => present(urls.drop_last()),
        }
    }
}

/// Texts that may be there, as values.
pub open spec fn opt_views(texts: Seq<Option<String>>) -> Seq<Option<Seq<char>>> {
    texts.map_values(|text: Option<String>| view_opt(text))
}

/// Whether an answer is the right one: a failure where no path has an address, and otherwise the
/// addresses, the choices and the filter.
pub open spec fn is_answer(
    response: PortalResponse<FileChooserResult>,
    urls: Seq<Option<Seq<char>>>,
    choices: Seq<DialogChoice>,
    filters: Seq<DialogFilter>,
    selected: Option<usize>,
) -> bool {
    if present(urls).len() == 0 {
        response == PortalResponse::<FileChooserResult>::Other
    } else {
        &&& response matches PortalResponse::Success(result)
        &&& views(result.uris@) == present(urls)
        &&& pair_views(result.choices@) == answered_choices(choice_views(choices))
        &&& match selected {
            Some(i) if i < filters.len() => {
                result.current_filter matches Some(filter) && filter_view(filter)
                    == filters[i as int]@
            },
            _ => result.current_filter is None,
        }
    }
}

/// The answer when files were chosen, given the addresses of their paths.
pub fn respond_with_urls(
    urls: Vec<Option<String>>,
    choices: &Vec<DialogChoice>,
    filters: &Vec<DialogFilter>,
    filter_selected: Option<usize>,
) -> (r: PortalResponse<FileChooserResult>)
    ensures
        is_answer(r, opt_views(urls@), choices@, filters@, filter_selected),
{
    let ghost given = urls@;
    let ghost all = opt_views(urls@);
    let mut uris: Vec<String> = Vec::new();
    proof {
        assert(all.take(0) =~= Seq::<Option<Seq<char>>>::empty());
        assert(views(uris@) =~= Seq::<Seq<char>>::empty());
    }
    for url in it: urls
        invariant
            it.seq() == given,
            all == opt_views(given),
            views(uris@) == present(all.take(it.index() as int)),
    {
        let ghost before = uris@;
        proof {
            let i = it.index() as int;
            assert(all.take(i + 1).drop_last() =~= all.take(i));
            assert(all.take(i + 1).last() == view_opt(given[i]));
        }
        if let Some(uri) = url {
            uris.push(uri);
            proof {
                assert(views(uris@) =~= views(before).push(uri@));
            }
        }
    }
    proof {
        assert(all.take(all.len() as int) =~= all);
        assert(views(uris@).len() == uris@.len());
    }
    if uris.len() == 0 {
        return PortalResponse::Other;
    }
    PortalResponse::Success(
        FileChooserResult {
            uris,
            choices: choice_answers(choices),
            current_filter: filter_answer(filters, filter_selected),
        },
    )
}

/// The answer when files were chosen, given their paths.
pub fn respond(
    paths: &Vec<String>,
    choices: &Vec<DialogChoice>,
    filters: &Vec<DialogFilter>,
    filter_selected: Option<usize>,
) -> (r: PortalResponse<FileChooserResult>)
    ensures
        is_answer(
            r,
            views(paths@).map_values(|path: Seq<char>| file_url_of(path)),
            choices@,
            filters@,
            filter_selected,
        ),
{
    let ghost all = views(paths@).map_values(|path: Seq<char>| file_url_of(path));
    let mut urls: Vec<Option<String>> = Vec::new();
    let mut i: usize = 0;
    proof {
        assert(opt_views(urls@) =~= all.take(0));
    }
    while i < paths.len()
        invariant
            i <= paths@.len(),
            all == views(paths@).map_values(|path: Seq<char>| file_url_of(path)),
            opt_views(urls@) == all.take(i as int),
        decreases paths@.len() - i,
    {
        let ghost before = urls@;
        let url = file_url(paths[i].as_str());
        urls.push(url);
        proof {
            assert(all[i as int] == file_url_of(paths@[i as int]@));
            assert(opt_views(urls@) =~= opt_views(before).push(view_opt(url)));
            assert(all.take(i + 1) =~= all.take(i as int).push(all[i as int]));
        }
        i = i + 1;
    }
    proof {
        assert(all.take(all.len() as int) =~= all);
    }
    respond_with_urls(urls, choices, filters, filter_selected)
}

/// The dialogs that are open, by their windows. Each belongs to a request.
#[derive(Debug)]
pub struct FileChoosers {
    pub requests: HashMap<u64, String>,
}

impl FileChoosers {
    /// No dialog is open.
    pub fn new() -> (r: Self)
        ensures
            r.requests@ == Map::<u64, String>::empty(),
    {
        FileChoosers { requests: HashMap::new() }
    }

    /// Takes notice of a dialog for a request.
    pub fn update_args(&mut self, window: u64, handle: String)
        ensures
            final(self).requests@ == old(self).requests@.insert(window, handle),
    {
        self.requests.insert(window, handle);
    }

    /// The request that is answered when a dialog has a result; the dialog is gone then. There is
    /// none for a window that is no dialog.
    pub fn take_request(&mut self, window: u64) -> (r: Option<String>)
        ensures
            final(self).requests@ == old(self).requests@.remove(window),
            match r {
                Some(handle) => old(self).requests@.dom().contains(window) && handle
                    == old(self).requests@[window],
                None => !old(self).requests@.dom().contains(window),
            },
    {
        self.requests.remove(&window)
    }
}

/// Whether a dialog is one for folders.
pub open spec fn chooses_folders(kind: DialogKind) -> bool {
    kind is OpenFolder || kind is OpenMultipleFolders
}

/// Whether several can be chosen in a dialog.
pub open spec fn chooses_several(kind: DialogKind) -> bool {
    kind is OpenMultipleFiles || kind is OpenMultipleFolders
}

/// The dialog of a request to open is one for folders where folders are asked for, and only there.
pub proof fn law_folders_are_chosen_where_asked(kind: DialogKind, options: OpenFileOptions)
    requires
        is_kind_for(kind, FileChooserOptions::OpenFile(options)),
    ensures
        chooses_folders(kind) <==> options.directory == Some(true),
        !(kind is SaveFile),
{
}

/// The dialog of a request to open is one for several where several are asked for, and only there.
pub proof fn law_several_are_chosen_where_asked(kind: DialogKind, options: OpenFileOptions)
    requires
        is_kind_for(kind, FileChooserOptions::OpenFile(options)),
    ensures
        chooses_several(kind) <==> options.multiple == Some(true),
        !(kind is SaveFile),
{
}

/// A file is saved under the name that was proposed, and several are saved into one folder.
pub proof fn law_saving_asks_for_a_name_or_a_folder(
    kind: DialogKind,
    file: SaveFileOptions,
    folder_kind: DialogKind,
    files: SaveFilesOptions,
)
    requires
        is_kind_for(kind, FileChooserOptions::SaveFile(file)),
        is_kind_for(folder_kind, FileChooserOptions::SaveFiles(files)),
    ensures
        kind matches DialogKind::SaveFile { filename } && (file.current_name matches Some(name)
            ==> filename@ == name@) && (file.current_name is None ==> filename@.len() == 0),
        chooses_folders(folder_kind) && !chooses_several(folder_kind),
{
}

/// An option that is found has the identifier; it is found where there is one.
pub proof fn law_option_is_found(options: Seq<(Seq<char>, Seq<char>)>, id: Seq<char>)
    requires
        options.len() <= usize::MAX,
    ensures
        option_position(options, id) matches Some(i) ==> i < options.len() && options[i as int].0
            == id,
        option_position(options, id) is None ==> forall|i: int|
            0 <= i < options.len() ==> (#[trigger] options[i]).0 != id,
    decreases options.len(),
{
    if options.len() > 0 {
        let init = options.drop_last();
        law_option_is_found(init, id);
        if option_position(options, id) is None {
            assert forall|i: int| 0 <= i < options.len() implies (#[trigger] options[i]).0 != id by {
                if i < init.len() {
                    assert(init[i].0 != id);
                }
            }
        }
    }
}

/// All files that were chosen are answered, in their order, where each has an address. Where none has,
/// nothing was chosen.
pub proof fn law_chosen_files_are_answered(
    response: PortalResponse<FileChooserResult>,
    urls: Seq<Option<Seq<char>>>,
    choices: Seq<DialogChoice>,
    filters: Seq<DialogFilter>,
    selected: Option<usize>,
    i: int,
)
    requires
        is_answer(response, urls, choices, filters, selected),
    ensures
        response is Success <==> exists|k: int| 0 <= k < urls.len() && (#[trigger] urls[k]) is Some,
        response is Other <==> forall|k: int| 0 <= k < urls.len() ==> (#[trigger] urls[k]) is None,
        response matches PortalResponse::Success(result) ==> {
            &&& (forall|k: int| 0 <= k < urls.len() ==> (#[trigger] urls[k]) is Some) ==> {
                &&& result.uris@.len() == urls.len()
                &&& 0 <= i < urls.len() ==> result.uris@[i]@ == urls[i]->0
            }
            &&& 0 <= i < urls.len() ==> (urls[i] matches Some(url) ==> views(
                result.uris@,
            ).contains(url))
            &&& 0 <= i < result.uris@.len() ==> urls.contains(Some(result.uris@[i]@))
        },
{
    lemma_present(urls, i);
    if let PortalResponse::Success(result) = response {
        assert(views(result.uris@).len() == result.uris@.len());
        if 0 <= i < result.uris@.len() {
            assert(views(result.uris@)[i] == result.uris@[i]@);
            lemma_present_only(urls, i);
        }
        if present(urls).len() > 0 {
            lemma_present_only(urls, 0);
            let k = choose|k: int| 0 <= k < urls.len() && urls[k] == Some(present(urls)[0]);
            assert(urls[k] is Some);
        }
    }
    if exists|k: int| 0 <= k < urls.len() && (#[trigger] urls[k]) is Some {
        let k = choose|k: int| 0 <= k < urls.len() && (#[trigger] urls[k]) is Some;
        lemma_present(urls, k);
        assert(present(urls).len() > 0);
    } else {
        if present(urls).len() > 0 {
            lemma_present_only(urls, 0);
            let k = choose|k: int| 0 <= k < urls.len() && urls[k] == Some(present(urls)[0]);
            assert(urls[k] is Some);
        }
    }
}

/// An address that is there is among those that are present, in its place where all are there.
proof fn lemma_present(urls: Seq<Option<Seq<char>>>, i: int)
    ensures
        present(urls).len() <= urls.len(),
        0 <= i < urls.len() && urls[i] is Some ==> present(urls).contains(urls[i]->0),
        (forall|k: int| 0 <= k < urls.len() ==> (#[trigger] urls[k]) is Some) ==> {
            &&& present(urls).len() == urls.len()
            &&& 0 <= i < urls.len() ==> present(urls)[i] == urls[i]->0
        },
    decreases urls.len(),
{
    if urls.len() > 0 {
        let init = urls.drop_last();
        let last = urls.len() - 1;
        lemma_present(init, i);
        if forall|k: int| 0 <= k < urls.len() ==> (#[trigger] urls[k]) is Some {
            assert forall|k: int| 0 <= k < init.len() implies (#[trigger] init[k]) is Some by {
                assert(urls[k] is Some);
            }
            assert(urls[last] is Some);
        }
        if 0 <= i < urls.len() && urls[i] is Some {
            if i < last {
                assert(init[i] == urls[i]);
                let k = choose|k: int| 0 <= k < present(init).len() && present(init)[k] == urls[i]->0;
                assert(present(urls)[k] == urls[i]->0);
            } else {
                assert(present(urls).last() == urls[i]->0);
            }
        }
    }
}

/// What is present is one of the addresses.
proof fn lemma_present_only(urls: Seq<Option<Seq<char>>>, i: int)
    requires
        0 <= i < present(urls).len(),
    ensures
        urls.contains(Some(present(urls)[i])),
    decreases urls.len(),
{
    if urls.len() > 0 {
        let init = urls.drop_last();
        if i < present(init).len() {
            lemma_present_only(init, i);
            let k = choose|k: int| 0 <= k < init.len() && init[k] == Some(present(init)[i]);
            assert(urls[k] == Some(present(urls)[i]));
        } else {
            assert(urls[urls.len() - 1] == Some(present(urls)[i]));
        }
    }
}

/// A tick is answered as true and its absence as false; of options the one that is selected is answered,
/// and the first where none is.
pub proof fn law_choice_is_answered_as_made(
    id: Seq<char>,
    label: Seq<char>,
    value: bool,
    options: Seq<(Seq<char>, Seq<char>)>,
    selected: Option<usize>,
)
    ensures
        value ==> answered_choice(DialogChoiceView::CheckBox { id, label, value }) == Some(
            (id, "true"@),
        ),
        !value ==> answered_choice(DialogChoiceView::CheckBox { id, label, value }) == Some(
            (id, "false"@),
        ),
        selected matches Some(i) ==> (i < options.len() ==> answered_choice(
            DialogChoiceView::ComboBox { id, label, options, selected },
        ) == Some((id, options[i as int].0))),
        selected is None && options.len() > 0 ==> answered_choice(
            DialogChoiceView::ComboBox { id, label, options, selected },
        ) == Some((id, options[0].0)),
{
}

/// Each choice that has an answer is answered, and no other, in the order of the choices.
pub proof fn law_all_choices_are_answered(choices: Seq<DialogChoiceView>, i: int)
    requires
        0 <= i < choices.len(),
    ensures
        answered_choice(choices[i]) matches Some(answer) ==> answered_choices(choices).contains(
            answer,
        ),
        (forall|k: int| 0 <= k < choices.len() ==> answered_choice(#[trigger] choices[k]) is Some)
            ==> answered_choices(choices).len() == choices.len() && answered_choices(choices)[i]
            == answered_choice(choices[i])->0,
    decreases choices.len(),
{
    let init = choices.drop_last();
    let last = choices.len() - 1;
    if init.len() > 0 {
        law_all_choices_are_answered(
            init,
            if i < last {
                i
            } else {
                0
            },
        );
    } else {
        reveal_with_fuel(answered_choices, 2);
    }
    if forall|k: int| 0 <= k < choices.len() ==> answered_choice(#[trigger] choices[k]) is Some {
        assert forall|k: int| 0 <= k < init.len() implies answered_choice(#[trigger] init[k]) is Some by {
            assert(answered_choice(choices[k]) is Some);
        }
        assert(answered_choice(choices[last]) is Some);
    }
    if let Some(answer) = answered_choice(choices[i]) {
        if i < last {
            assert(init[i] == choices[i]);
            let rest = answered_choices(init);
            let k = choose|k: int| 0 <= k < rest.len() && rest[k] == answer;
            assert(answered_choices(choices)[k] == answer);
        } else {
            assert(answered_choices(choices).last() == answer);
        }
    }
}

/// A choice without options is a box that is ticked where the application says true; one with options
/// offers them all, under the same identifier and label.
pub proof fn law_choice_is_shown_as_asked(choice: (String, String, Vec<(String, String)>, String))
    ensures
        choice.2@.len() == 0 ==> (shown_choice(choice) matches DialogChoiceView::CheckBox {
            id,
            label,
            value,
        } && id == choice.0@ && label == choice.1@ && (value <==> choice.3@ == "true"@)),
        choice.2@.len() > 0 ==> (shown_choice(choice) matches DialogChoiceView::ComboBox {
            id,
            label,
            options,
            selected,
        } && id == choice.0@ && label == choice.1@ && options.len() == choice.2@.len() && (forall|
            k: int,
        |
            0 <= k < options.len() ==> #[trigger] options[k] == (
                choice.2@[k].0@,
                choice.2@[k].1@,
            ))),
{
}

/// Patterns of names have the kind zero and patterns of types the kind one; a dialog has all of these and
/// no others.
pub proof fn law_patterns_of_known_kinds_are_kept(patterns: Seq<(u32, Seq<char>)>, kind: u32, text: Seq<char>)
    ensures
        known_patterns(patterns).contains((kind, text)) <==> patterns.contains((kind, text)) && (kind
            == 0 || kind == 1),
    decreases patterns.len(),
{
    let x = (kind, text);
    if patterns.len() > 0 {
        let init = patterns.drop_last();
        law_patterns_of_known_kinds_are_kept(init, kind, text);
        let (all, rest) = (known_patterns(patterns), known_patterns(init));
        if patterns.contains(x) && (kind == 0 || kind == 1) {
            let k = choose|k: int| 0 <= k < patterns.len() && patterns[k] == x;
            if k < init.len() {
                assert(init[k] == x);
                let j = choose|j: int| 0 <= j < rest.len() && rest[j] == x;
                assert(all[j] == x);
            } else {
                assert(all.last() == x);
            }
        }
        if all.contains(x) {
            let j = choose|j: int| 0 <= j < all.len() && all[j] == x;
            if j < rest.len() {
                assert(rest[j] == x);
                let k = choose|k: int| 0 <= k < init.len() && init[k] == x;
                assert(patterns[k] == x);
            } else {
                assert(patterns[patterns.len() - 1] == x);
            }
        }
    }
}

/// All filters that are wanted are offered, and so is the one that is chosen at first; the first is
/// chosen where none is named, and none where there are none.
pub proof fn law_wanted_filters_are_offered(
    filters: Seq<FilterView>,
    current: Option<FilterView>,
    i: int,
)
    requires
        filters.len() < usize::MAX,
    ensures
        0 <= i < filters.len() ==> all_filters(filters, current).contains(filters[i]),
        current matches Some(filter) ==> all_filters(filters, current).contains(filter),
        all_filters(filters, current).len() <= filters.len() + 1,
        current is None ==> all_filters(filters, current) == filters,
        current is None && filters.len() > 0 ==> selected_filter(filters, current) == Some(0usize),
        current is None && filters.len() == 0 ==> selected_filter(filters, current) is None,
{
    let all = all_filters(filters, current);
    if 0 <= i < filters.len() {
        if all == filters {
            assert(all[i] == filters[i]);
        } else {
            assert(all[i + 1] == filters[i]);
        }
    }
    if let Some(filter) = current {
        lemma_filter_position(filters, filter);
        if let Some(k) = filter_position(filters, filter) {
            assert(filters[k as int] == filter);
        } else {
            assert(all[0] == filter);
        }
    }
}

/// What is cut off behind the path of a folder is zeros and nothing else.
pub proof fn law_only_zeros_are_cut_off(bytes: Seq<u8>, i: int)
    requires
        without_zeros(bytes).len() <= i < bytes.len(),
    ensures
        bytes[i] == 0,
    decreases bytes.len(),
{
    if bytes.len() > 0 && bytes.last() == 0 {
        if i < bytes.len() - 1 {
            assert(bytes.drop_last()[i] == bytes[i]);
            law_only_zeros_are_cut_off(bytes.drop_last(), i);
        }
    }
}

/// A request to open or to save one file says how the dialog begins: button, choices, filters and folder
/// are its own. One to save several has no filters.
pub proof fn law_dialog_begins_as_asked(
    open: OpenFileOptions,
    save: SaveFileOptions,
    several: SaveFilesOptions,
)
    ensures
        ({
            let asked = FileChooserOptions::OpenFile(open);
            &&& asked.spec_accept_label() == open.accept_label
            &&& asked.spec_choices() == open.choices
            &&& asked.spec_filters() == open.filters
            &&& asked.spec_current_filter() == open.current_filter
            &&& asked.folder_bytes() == open.current_folder
        }),
        ({
            let asked = FileChooserOptions::SaveFile(save);
            &&& asked.spec_accept_label() == save.accept_label
            &&& asked.spec_choices() == save.choices
            &&& asked.spec_filters() == save.filters
            &&& asked.spec_current_filter() == save.current_filter
            &&& asked.folder_bytes() == save.current_folder
        }),
        ({
            let asked = FileChooserOptions::SaveFiles(several);
            &&& asked.spec_accept_label() == several.accept_label
            &&& asked.spec_choices() == several.choices
            &&& asked.spec_filters() is None
            &&& asked.spec_current_filter() is None
            &&& asked.folder_bytes() == several.current_folder
        }),
{
}

} // verus!
