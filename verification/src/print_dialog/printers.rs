//! Printers, the options they offer and the paper they take.

use crate::dict::Dict;
use crate::label::{Phrase, PhraseView};
use crate::seqs::{position, position_of_str};
use crate::text::{
    eq_ignore_ascii_case, number_u32, parse_u32, str_eq, str_eq_ignore_ascii_case, trim, trimmed, views,
};
use vstd::prelude::*;

verus! {

/// What a printer does.
#[derive(Debug, PartialEq, Eq)]
pub enum PrinterState {
    Idle,
    Processing,
    Stopped,
    /// A state by the name that the backend gives it.
    Unknown(String),
}

/// What a printer does, as a value.
pub enum PrinterStateView {
    Idle,
    Processing,
    Stopped,
    Unknown(Seq<char>),
}

impl View for PrinterState {
    type V = PrinterStateView;

    open spec fn view(&self) -> PrinterStateView {
        match self {
            PrinterState::Idle => PrinterStateView::Idle,
            PrinterState::Processing => PrinterStateView::Processing,
            PrinterState::Stopped => PrinterStateView::Stopped,
            PrinterState::Unknown(raw) => PrinterStateView::Unknown(raw@),
        }
    }
}

impl PrinterStateView {
    /// What the state is called.
    pub open spec fn label(self) -> PhraseView {
        match self {
            PrinterStateView::Idle => PhraseView::Message("printer-state-idle"@),
            PrinterStateView::Processing => PhraseView::Message("printer-state-processing"@),
            PrinterStateView::Stopped => PhraseView::Message("printer-state-stopped"@),
            PrinterStateView::Unknown(raw) => PhraseView::Text(raw),
        }
    }

    /// The name of the icon that shows the state.
    pub open spec fn icon(self) -> Option<Seq<char>> {
        match self {
            PrinterStateView::Idle => Some("process-completed-symbolic"@),
            PrinterStateView::Stopped => Some("media-playback-pause-symbolic"@),
            PrinterStateView::Unknown(_) => Some("dialog-error-symbolic"@),
            PrinterStateView::Processing => None,
        }
    }
}

/// What the state of a printer is called.
pub fn printer_state_label(state: &PrinterState) -> (r: Phrase)
    ensures
        r@ == state@.label(),
{
    match state {
        PrinterState::Idle => Phrase::Message("printer-state-idle"),
        PrinterState::Processing => Phrase::Message("printer-state-processing"),
        PrinterState::Stopped => Phrase::Message("printer-state-stopped"),
        PrinterState::Unknown(raw) => Phrase::Text(raw.clone()),
    }
}

/// The name of the icon that shows the state of a printer.
pub fn printer_state_icon(state: &PrinterState) -> (r: Option<&'static str>)
    ensures
        match r {
            Some(name) => state@.icon() == Some(name@),
            None => state@.icon() is None,
        },
{
    match state {
        PrinterState::Idle => Some("process-completed-symbolic"),
        PrinterState::Stopped => Some("media-playback-pause-symbolic"),
        PrinterState::Unknown(_) => Some("dialog-error-symbolic"),
        PrinterState::Processing => None,
    }
}

/// A printer as it was last seen.
#[derive(Debug, PartialEq, Eq)]
pub struct PrinterSnapshot {
    pub id: String,
    pub name: Phrase,
    pub info: Phrase,
    pub location: String,
    pub make_model: String,
    pub state: PrinterState,
    pub accepting_jobs: bool,
    pub backend: String,
}

/// A printer as it was last seen, as a value.
pub struct PrinterView {
    pub id: Seq<char>,
    pub name: PhraseView,
    pub info: PhraseView,
    pub location: Seq<char>,
    pub make_model: Seq<char>,
    pub state: PrinterStateView,
    pub accepting_jobs: bool,
    pub backend: Seq<char>,
}

impl View for PrinterSnapshot {
    type V = PrinterView;

    open spec fn view(&self) -> PrinterView {
        PrinterView {
            id: self.id@,
            name: self.name@,
            info: self.info@,
            location: self.location@,
            make_model: self.make_model@,
            state: self.state@,
            accepting_jobs: self.accepting_jobs,
            backend: self.backend@,
        }
    }
}

/// A sequence of printers, as values.
pub open spec fn printer_views(printers: Seq<PrinterSnapshot>) -> Seq<PrinterView> {
    printers.map_values(|printer: PrinterSnapshot| printer@)
}

/// The identifier of the printer that writes a PDF file.
pub open spec fn pdf_printer_id() -> Seq<char> {
    "save-as-pdf"@
}

/// Whether an identifier or a backend is that of a printer that writes a file.
pub open spec fn writes_file(printer_id: Seq<char>, backend: Seq<char>) -> bool {
    printer_id == pdf_printer_id() || backend == "file"@
}

impl PrinterView {
    /// Whether the printer writes a file.
    pub open spec fn is_pdf(self) -> bool {
        writes_file(self.id, self.backend)
    }

    /// Whether the printer has this identifier at this backend.
    pub open spec fn is(self, id: Seq<char>, backend: Seq<char>) -> bool {
        self.id == id && self.backend == backend
    }
}

/// The printer that writes a PDF file.
pub open spec fn pdf_printer() -> PrinterView {
    PrinterView {
        id: pdf_printer_id(),
        name: PhraseView::Message("save-as-pdf"@),
        info: PhraseView::Message("save-output-to-pdf"@),
        location: Seq::empty(),
        make_model: "PDF Converter"@,
        state: PrinterStateView::Idle,
        accepting_jobs: true,
        backend: "file"@,
    }
}

/// Whether a printer writes a file.
pub fn is_pdf_printer(printer: &PrinterSnapshot) -> (r: bool)
    ensures
        r == printer@.is_pdf(),
{
    is_pdf_printer_by_id(printer.id.as_str(), printer.backend.as_str())
}

/// Whether an identifier or a backend is that of a printer that writes a file.
pub fn is_pdf_printer_by_id(printer_id: &str, backend: &str) -> (r: bool)
    ensures
        r == writes_file(printer_id@, backend@),
{
    str_eq(printer_id, "save-as-pdf") || str_eq(backend, "file")
}

/// The printer that writes a PDF file.
pub fn save_as_pdf_printer() -> (r: PrinterSnapshot)
    ensures
        r@ == pdf_printer(),
{
    PrinterSnapshot {
        id: "save-as-pdf".to_owned(),
        name: Phrase::Message("save-as-pdf"),
        info: Phrase::Message("save-output-to-pdf"),
        location: String::new(),
        make_model: "PDF Converter".to_owned(),
        state: PrinterState::Idle,
        accepting_jobs: true,
        backend: "file".to_owned(),
    }
}

/// A size of paper. Width and length are hundredths of a millimetre.
#[derive(Debug, PartialEq, Eq)]
pub struct MediaInfo {
    pub name: String,
    pub width: i32,
    pub length: i32,
}

/// A size of paper, as a value.
pub struct MediaView {
    pub name: Seq<char>,
    pub width: i32,
    pub length: i32,
}

impl View for MediaInfo {
    type V = MediaView;

    open spec fn view(&self) -> MediaView {
        MediaView { name: self.name@, width: self.width, length: self.length }
    }
}

/// The sizes of paper that a printer takes.
#[derive(Debug, PartialEq, Eq)]
pub struct MediaCollection {
    pub media: Vec<MediaInfo>,
}

/// A sequence of sizes of paper, as values.
pub open spec fn media_views(media: Seq<MediaInfo>) -> Seq<MediaView> {
    media.map_values(|size: MediaInfo| size@)
}

/// The names of a sequence of sizes of paper.
pub open spec fn media_names(media: Seq<MediaView>) -> Seq<Seq<char>> {
    media.map_values(|size: MediaView| size.name)
}

impl View for MediaCollection {
    type V = Seq<MediaView>;

    open spec fn view(&self) -> Seq<MediaView> {
        media_views(self.media@)
    }
}

impl Default for MediaCollection {
    fn default() -> (r: Self)
        ensures
            r@ == Seq::<MediaView>::empty(),
    {
        let r = MediaCollection { media: Vec::new() };
        assert(r@ =~= Seq::<MediaView>::empty());
        r
    }
}

impl MediaCollection {
    /// How many sizes there are.
    pub fn len(&self) -> (r: usize)
        ensures
            r == self@.len(),
    {
        self.media.len()
    }

    /// Whether there is no size.
    pub fn is_empty(&self) -> (r: bool)
        ensures
            r == (self@.len() == 0),
    {
        self.media.len() == 0
    }

    /// The position of the first size with this name.
    pub fn position_of(&self, name: &str) -> (r: Option<usize>)
        ensures
            r == position(media_names(self@), name@),
    {
        let names = self.names();
        position_of_str(&names, name)
    }

    /// The names of the sizes.
    pub fn names(&self) -> (r: Vec<String>)
        ensures
            views(r@) == media_names(self@),
    {
        let mut r: Vec<String> = Vec::new();
        let ghost all = media_names(self@);
        let mut i: usize = 0;
        while i < self.media.len()
            invariant
                i <= self.media@.len(),
                all == media_names(self@),
                views(r@) == all.take(i as int),
            decreases self.media@.len() - i,
        {
            let name = self.media[i].name.clone();
            proof {
                assert(all[i as int] == name@);
                assert(views(r@.push(name)) =~= views(r@).push(name@));
                assert(all.take(i + 1) =~= all.take(i as int).push(name@));
            }
            r.push(name);
            i = i + 1;
        }
        proof {
            assert(all.take(all.len() as int) =~= all);
        }
        r
    }
}

/// The sizes that are offered for PDF files.
pub open spec fn pdf_media() -> Seq<MediaView> {
    seq![
        MediaView { name: "iso_a4_210x297mm"@, width: 21000, length: 29700 },
        MediaView { name: "na_letter_8.5x11in"@, width: 21590, length: 27940 },
        MediaView { name: "na_legal_8.5x14in"@, width: 21590, length: 35560 },
        MediaView { name: "iso_a3_297x420mm"@, width: 29700, length: 42000 },
        MediaView { name: "iso_a5_148x210mm"@, width: 14800, length: 21000 },
    ]
}

/// The sizes that are offered for PDF files.
pub fn default_pdf_media() -> (r: MediaCollection)
    ensures
        r@ == pdf_media(),
{
    let r = MediaCollection {
        media: vec![
            MediaInfo { name: "iso_a4_210x297mm".to_owned(), width: 21000, length: 29700 },
            MediaInfo { name: "na_letter_8.5x11in".to_owned(), width: 21590, length: 27940 },
            MediaInfo { name: "na_legal_8.5x14in".to_owned(), width: 21590, length: 35560 },
            MediaInfo { name: "iso_a3_297x420mm".to_owned(), width: 29700, length: 42000 },
            MediaInfo { name: "iso_a5_148x210mm".to_owned(), width: 14800, length: 21000 },
        ],
    };
    assert(r@ =~= pdf_media());
    r
}

/// An option of a printer: the values that can be chosen and the one that is usual.
#[derive(Debug, PartialEq, Eq)]
pub struct OptionInfo {
    pub default_value: String,
    pub supported_values: Vec<String>,
}

/// An option of a printer, as a value.
pub struct OptionView {
    pub default_value: Seq<char>,
    pub supported_values: Seq<Seq<char>>,
}

impl View for OptionInfo {
    type V = OptionView;

    open spec fn view(&self) -> OptionView {
        OptionView {
            default_value: self.default_value@,
            supported_values: views(self.supported_values@),
        }
    }
}

/// The options of a printer by name, as values.
pub open spec fn option_views(options: Map<Seq<char>, OptionInfo>) -> Map<Seq<char>, OptionView> {
    options.map_values(|option: OptionInfo| option@)
}

/// The option with a name.
pub open spec fn option_named(
    options: Map<Seq<char>, OptionView>,
    name: Seq<char>,
) -> Option<OptionView> {
    if options.dom().contains(name) {
        Some(options[name])
    } else {
        None
    }
}

/// The option with a name.
pub fn find_option<'a>(options: &'a Dict<OptionInfo>, name: &str) -> (r: Option<&'a OptionInfo>)
    ensures
        match r {
            Some(option) => option_named(option_views(options@), name@) == Some(option@),
            None => option_named(option_views(options@), name@) is None,
        },
{
    options.get(name)
}

/// An index that points into a list, the first one where it does not, none where the list is empty.
pub open spec fn sanitized(index: Option<usize>, len: nat) -> Option<usize> {
    match index {
        Some(i) if i < len => Some(i),
        _ => if len > 0 {
            Some(0usize)
        } else {
            None
        },
    }
}

/// An index that points into a list, the first one where it does not, none where the list is empty.
pub fn sanitize_index(index: Option<usize>, len: usize) -> (r: Option<usize>)
    ensures
        r == sanitized(index, len as nat),
{
    match index {
        Some(i) if i < len => Some(i),
        _ => if len > 0 {
            Some(0)
        } else {
            None
        },
    }
}

/// Whether a value says something: it is neither blank nor a word for "not applicable".
pub open spec fn is_applicable(value: Seq<char>) -> bool {
    let v = trimmed(value);
    v.len() > 0 && !eq_ignore_ascii_case(v, "NA"@) && !eq_ignore_ascii_case(v, "N/A"@)
}

/// The values that say something.
pub open spec fn applicable_values(values: Seq<Seq<char>>) -> Seq<Seq<char>>
    decreases values.len(),
{
    if values.len() == 0 {
        Seq::empty()
    } else {
        let rest = applicable_values(values.drop_last());
        if is_applicable(values.last()) {
            rest.push(values.last())
        } else {
            rest
        }
    }
}

/// The values that say something.
pub fn clean_supported_values(values: &Vec<String>) -> (r: Vec<String>)
    ensures
        views(r@) == applicable_values(views(values@)),
{
    let mut r: Vec<String> = Vec::new();
    let ghost all = views(values@);
    let mut i: usize = 0;
    proof {
        assert(all.take(0) =~= Seq::<Seq<char>>::empty());
        assert(views(r@) =~= Seq::<Seq<char>>::empty());
    }
    while i < values.len()
        invariant
            i <= values@.len(),
            all == views(values@),
            views(r@) == applicable_values(all.take(i as int)),
        decreases values@.len() - i,
    {
        proof {
            assert(all.take(i + 1).drop_last() =~= all.take(i as int));
            assert(all.take(i + 1).last() == values@[i as int]@);
        }
        let v = trim(values[i].as_str());
        if !v.as_str().is_empty() && !str_eq_ignore_ascii_case(v.as_str(), "NA")
            && !str_eq_ignore_ascii_case(v.as_str(), "N/A") {
            let value = values[i].clone();
            proof {
                assert(views(r@.push(value)) =~= views(r@).push(value@));
            }
            r.push(value);
        }
        i = i + 1;
    }
    proof {
        assert(all.take(all.len() as int) =~= all);
    }
    r
}

/// The values that can be chosen of an option.
pub open spec fn option_values(
    options: Map<Seq<char>, OptionView>,
    key: Seq<char>,
) -> Seq<Seq<char>> {
    match option_named(options, key) {
        Some(option) => applicable_values(option.supported_values),
        None => Seq::empty(),
    }
}

/// The index of the usual value of an option among those that can be chosen; the first one where
/// the usual value cannot be chosen.
pub open spec fn option_index(options: Map<Seq<char>, OptionView>, key: Seq<char>) -> Option<usize> {
    let values = option_values(options, key);
    match option_named(options, key) {
        Some(option) => match position(values, option.default_value) {
            Some(i) => Some(i),
            None => if values.len() > 0 {
                Some(0usize)
            } else {
                None
            },
        },
        None => None,
    }
}

/// The values that can be chosen of an option, and the index of the usual one.
pub fn load_option_values(options: &Dict<OptionInfo>, key: &str) -> (r: (Vec<String>, Option<usize>))
    ensures
        views(r.0@) == option_values(option_views(options@), key@),
        r.1 == option_index(option_views(options@), key@),
{
    match find_option(options, key) {
        Some(option) => {
            let values = clean_supported_values(&option.supported_values);
            let index = match position_of_str(&values, option.default_value.as_str()) {
                Some(i) => Some(i),
                None => if values.len() > 0 {
                    Some(0)
                } else {
                    None
                },
            };
            (values, index)
        },
        None => {
            let values: Vec<String> = Vec::new();
            assert(views(values@) =~= Seq::<Seq<char>>::empty());
            (values, None)
        },
    }
}

/// The margins that a printer offers on each side, in hundredths of a millimetre.
#[derive(Debug, PartialEq, Eq)]
pub struct MarginOptions {
    pub top: Vec<u32>,
    pub bottom: Vec<u32>,
    pub left: Vec<u32>,
    pub right: Vec<u32>,
    /// True when all four sides include 0.
    pub supports_borderless: bool,
}

/// The margins that a printer offers, as a value.
pub struct MarginOptionsView {
    pub top: Seq<u32>,
    pub bottom: Seq<u32>,
    pub left: Seq<u32>,
    pub right: Seq<u32>,
    pub supports_borderless: bool,
}

impl View for MarginOptions {
    type V = MarginOptionsView;

    open spec fn view(&self) -> MarginOptionsView {
        MarginOptionsView {
            top: self.top@,
            bottom: self.bottom@,
            left: self.left@,
            right: self.right@,
            supports_borderless: self.supports_borderless,
        }
    }
}

impl Default for MarginOptions {
    fn default() -> (r: Self)
        ensures
            r@ == (MarginOptionsView {
                top: Seq::empty(),
                bottom: Seq::empty(),
                left: Seq::empty(),
                right: Seq::empty(),
                supports_borderless: false,
            }),
    {
        MarginOptions {
            top: Vec::new(),
            bottom: Vec::new(),
            left: Vec::new(),
            right: Vec::new(),
            supports_borderless: false,
        }
    }
}

/// Numbers in ascending order, each of them once.
pub open spec fn ascending(s: Seq<u32>) -> bool {
    forall|i: int, j: int| 0 <= i < j < s.len() ==> s[i] < s[j]
}

/// Ascending numbers with one more among them.
pub open spec fn with_number(s: Seq<u32>, n: u32) -> Seq<u32>
    decreases s.len(),
{
    if s.len() == 0 || s.last() < n {
        s.push(n)
    } else if s.last() == n {
        s
    } else {
        with_number(s.drop_last(), n).push(s.last())
    }
}

/// The numbers that a sequence of texts spells, in ascending order, each of them once.
pub open spec fn ascending_numbers(values: Seq<Seq<char>>) -> Seq<u32>
    decreases values.len(),
{
    if values.len() == 0 {
        Seq::empty()
    } else {
        let rest = ascending_numbers(values.drop_last());
        match number_u32(values.last()) {
            Some(n) => with_number(rest, n),
            None => rest,
        }
    }
}

/// One more number among ascending ones keeps the order and adds nothing else.
proof fn lemma_with_number(s: Seq<u32>, n: u32)
    requires
        ascending(s),
    ensures
        ascending(with_number(s, n)),
        forall|v: u32| #[trigger] with_number(s, n).contains(v) <==> s.contains(v) || v == n,
    decreases s.len(),
{
    let r = with_number(s, n);
    if s.len() == 0 || s.last() < n {
        assert forall|v: u32| #[trigger] r.contains(v) <==> s.contains(v) || v == n by {
            if s.contains(v) {
                let i = choose|i: int| 0 <= i < s.len() && s[i] == v;
                assert(r[i] == v);
            }
            assert(r[s.len() as int] == n);
        }
        assert forall|i: int, j: int| 0 <= i < j < r.len() implies r[i] < r[j] by {
            if j == s.len() && i < s.len() - 1 {
                assert(s[i] < s[s.len() - 1]);
            }
        }
    } else if s.last() == n {
        assert(s[s.len() - 1] == n);
    } else {
        let rest = s.drop_last();
        assert(ascending(rest));
        lemma_with_number(rest, n);
        let inner = with_number(rest, n);
        assert forall|v: u32| #[trigger] r.contains(v) <==> s.contains(v) || v == n by {
            if r.contains(v) {
                let i = choose|i: int| 0 <= i < r.len() && r[i] == v;
                if i < inner.len() {
                    assert(inner[i] == v);
                    assert(inner.contains(v));
                    if rest.contains(v) {
                        let k = choose|k: int| 0 <= k < rest.len() && rest[k] == v;
                        assert(s[k] == v);
                    }
                } else {
                    assert(s[s.len() - 1] == v);
                }
            }
            if s.contains(v) || v == n {
                if v == s.last() {
                    assert(r[inner.len() as int] == v);
                } else {
                    if s.contains(v) {
                        let k = choose|k: int| 0 <= k < s.len() && s[k] == v;
                        assert(rest[k] == v);
                    }
                    assert(inner.contains(v));
                    let k = choose|k: int| 0 <= k < inner.len() && inner[k] == v;
                    assert(r[k] == v);
                }
            }
        }
        assert forall|i: int, j: int| 0 <= i < j < r.len() implies r[i] < r[j] by {
            if j == inner.len() {
                assert(inner.contains(inner[i]));
                if inner[i] != n {
                    let k = choose|k: int| 0 <= k < rest.len() && rest[k] == inner[i];
                    assert(s[k] < s[s.len() - 1]);
                }
            } else {
                assert(inner[i] < inner[j]);
            }
        }
    }
}

/// The margins of a side ascend, and they are exactly the numbers that the values spell.
pub proof fn law_side_is_ascending(values: Seq<Seq<char>>)
    ensures
        ascending(ascending_numbers(values)),
        forall|n: u32|
            #[trigger] ascending_numbers(values).contains(n) <==> exists|i: int|
                0 <= i < values.len() && number_u32(#[trigger] values[i]) == Some(n),
    decreases values.len(),
{
    if values.len() > 0 {
        let rest = values.drop_last();
        law_side_is_ascending(rest);
        let inner = ascending_numbers(rest);
        if let Some(n) = number_u32(values.last()) {
            lemma_with_number(inner, n);
        }
        assert forall|n: u32| #[trigger] ascending_numbers(values).contains(n) <==> exists|i: int|
            0 <= i < values.len() && number_u32(#[trigger] values[i]) == Some(n) by {
            if ascending_numbers(values).contains(n) {
                if inner.contains(n) {
                    let i = choose|i: int|
                        0 <= i < rest.len() && number_u32(#[trigger] rest[i]) == Some(n);
                    assert(number_u32(values[i]) == Some(n));
                } else {
                    assert(number_u32(values[values.len() - 1]) == Some(n));
                }
            }
            if exists|i: int| 0 <= i < values.len() && number_u32(#[trigger] values[i]) == Some(n) {
                let i = choose|i: int|
                    0 <= i < values.len() && number_u32(#[trigger] values[i]) == Some(n);
                if i < rest.len() {
                    assert(number_u32(rest[i]) == Some(n));
                }
            }
        }
    }
}

/// Puts a number among ascending ones.
fn insert_number(numbers: &mut Vec<u32>, n: u32)
    ensures
        final(numbers)@ == with_number(old(numbers)@, n),
{
    let ghost start = numbers@;
    let mut i: usize = numbers.len();
    proof {
        assert(start.take(start.len() as int) =~= start);
        assert(start.skip(start.len() as int) =~= Seq::<u32>::empty());
        assert(with_number(start, n) =~= with_number(start, n) + Seq::<u32>::empty());
    }
    while i > 0 && numbers[i - 1] > n
        invariant
            i <= numbers@.len(),
            numbers@ == start,
            with_number(start, n) == with_number(start.take(i as int), n) + start.skip(i as int),
        decreases i,
    {
        proof {
            let s = start.take(i as int);
            assert(s.last() == start[i - 1]);
            assert(s.drop_last() =~= start.take(i - 1));
            assert(with_number(s, n) == with_number(start.take(i - 1), n).push(start[i - 1]));
            assert(with_number(start.take(i - 1), n).push(start[i - 1]) + start.skip(i as int)
                =~= with_number(start.take(i - 1), n) + start.skip(i - 1));
        }
        i = i - 1;
    }
    proof {
        let s = start.take(i as int);
        if i > 0 {
            assert(s.last() == start[i - 1]);
        }
        if i == 0 || start[i - 1] < n {
            assert(start.insert(i as int, n) =~= s.push(n) + start.skip(i as int));
        } else {
            assert(start =~= s + start.skip(i as int));
        }
    }
    if i == 0 || numbers[i - 1] < n {
        numbers.insert(i, n);
    }
}

impl MarginOptions {
    /// The margins of one side.
    pub fn parse_side(option: Option<&OptionInfo>) -> (r: Vec<u32>)
        ensures
            r@ == match option {
                Some(option) => ascending_numbers(option@.supported_values),
                None => Seq::empty(),
            },
    {
        let mut r: Vec<u32> = Vec::new();
        if let Some(option) = option {
            let values = &option.supported_values;
            let ghost all = views(values@);
            let mut i: usize = 0;
            proof {
                assert(all.take(0) =~= Seq::<Seq<char>>::empty());
            }
            while i < values.len()
                invariant
                    i <= values@.len(),
                    all == views(values@),
                    r@ == ascending_numbers(all.take(i as int)),
                decreases values@.len() - i,
            {
                proof {
                    assert(all.take(i + 1).drop_last() =~= all.take(i as int));
                    assert(all.take(i + 1).last() == values@[i as int]@);
                }
                if let Some(n) = parse_u32(values[i].as_str()) {
                    insert_number(&mut r, n);
                }
                i = i + 1;
            }
            proof {
                assert(all.take(all.len() as int) =~= all);
            }
        }
        r
    }

    /// The margins that the options of a printer name.
    pub fn from_options(options: &Dict<OptionInfo>) -> (r: Self)
        ensures
            r@ == margin_options(option_views(options@)),
    {
        let top = MarginOptions::parse_side(find_option(options, "media-top-margin"));
        let bottom = MarginOptions::parse_side(find_option(options, "media-bottom-margin"));
        let left = MarginOptions::parse_side(find_option(options, "media-left-margin"));
        let right = MarginOptions::parse_side(find_option(options, "media-right-margin"));
        let supports_borderless = contains_zero(&top) && contains_zero(&bottom) && contains_zero(
            &left,
        ) && contains_zero(&right);
        MarginOptions { top, bottom, left, right, supports_borderless }
    }
}

/// Whether zero is among the numbers.
fn contains_zero(numbers: &Vec<u32>) -> (r: bool)
    ensures
        r == numbers@.contains(0u32),
{
    let mut i: usize = 0;
    while i < numbers.len()
        invariant
            i <= numbers@.len(),
            forall|j: int| 0 <= j < i ==> numbers@[j] != 0,
        decreases numbers@.len() - i,
    {
        if numbers[i] == 0 {
            assert(numbers@[i as int] == 0u32);
            return true;
        }
        i = i + 1;
    }
    false
}

/// The margins that an option of a printer names.
pub open spec fn margin_side(options: Map<Seq<char>, OptionView>, name: Seq<char>) -> Seq<u32> {
    match option_named(options, name) {
        Some(option) => ascending_numbers(option.supported_values),
        None => Seq::empty(),
    }
}

/// The margins that the options of a printer name.
pub open spec fn margin_options(options: Map<Seq<char>, OptionView>) -> MarginOptionsView {
    let top = margin_side(options, "media-top-margin"@);
    let bottom = margin_side(options, "media-bottom-margin"@);
    let left = margin_side(options, "media-left-margin"@);
    let right = margin_side(options, "media-right-margin"@);
    MarginOptionsView {
        top,
        bottom,
        left,
        right,
        supports_borderless: top.contains(0u32) && bottom.contains(0u32) && left.contains(0u32)
            && right.contains(0u32),
    }
}

/// The margins that are offered for PDF files.
pub open spec fn pdf_margin_options() -> MarginOptionsView {
    MarginOptionsView {
        top: seq![0u32, 500u32, 1000u32],
        bottom: seq![0u32, 500u32, 1000u32],
        left: seq![0u32, 500u32, 1000u32],
        right: seq![0u32, 500u32, 1000u32],
        supports_borderless: true,
    }
}

/// The margins that are offered for PDF files.
pub fn default_pdf_margins() -> (r: MarginOptions)
    ensures
        r@ == pdf_margin_options(),
{
    let r = MarginOptions {
        top: vec![0, 500, 1000],
        bottom: vec![0, 500, 1000],
        left: vec![0, 500, 1000],
        right: vec![0, 500, 1000],
        supports_borderless: true,
    };
    assert(r@.top =~= pdf_margin_options().top);
    assert(r@.bottom =~= pdf_margin_options().bottom);
    assert(r@.left =~= pdf_margin_options().left);
    assert(r@.right =~= pdf_margin_options().right);
    r
}

/// A printer writes a file exactly where it is the PDF printer or its backend is that of files; the PDF
/// printer is one that does, is ready and takes jobs.
pub proof fn law_file_printers_are_told_apart(printer_id: Seq<char>, backend: Seq<char>)
    ensures
        writes_file(printer_id, backend) <==> printer_id == "save-as-pdf"@ || backend == "file"@,
        pdf_printer().is_pdf(),
        pdf_printer().id == "save-as-pdf"@,
        pdf_printer().backend == "file"@,
        pdf_printer().state is Idle,
        pdf_printer().accepting_jobs,
{
}

/// Each state of a printer has its own name and icon; a state that is not known is shown as the printer
/// names it.
pub proof fn law_states_are_told_apart(state: PrinterStateView)
    ensures
        state is Idle ==> state.label() == PhraseView::Message("printer-state-idle"@)
            && state.icon() == Some("process-completed-symbolic"@),
        state is Processing ==> state.label() == PhraseView::Message("printer-state-processing"@)
            && state.icon() is None,
        state is Stopped ==> state.label() == PhraseView::Message("printer-state-stopped"@)
            && state.icon() == Some("media-playback-pause-symbolic"@),
        state matches PrinterStateView::Unknown(raw) ==> state.label() == PhraseView::Text(raw)
            && state.icon() == Some("dialog-error-symbolic"@),
{
}

/// A value can be chosen exactly where the printer has it and it says something.
pub proof fn law_values_that_say_something_can_be_chosen(values: Seq<Seq<char>>, value: Seq<char>)
    ensures
        applicable_values(values).contains(value) <==> values.contains(value) && trimmed(value).len()
            > 0 && !eq_ignore_ascii_case(trimmed(value), "NA"@) && !eq_ignore_ascii_case(
            trimmed(value),
            "N/A"@,
        ),
    decreases values.len(),
{
    if values.len() > 0 {
        let init = values.drop_last();
        let (all, rest) = (applicable_values(values), applicable_values(init));
        law_values_that_say_something_can_be_chosen(init, value);
        if values.contains(value) && is_applicable(value) {
            let k = choose|k: int| 0 <= k < values.len() && values[k] == value;
            if k < init.len() {
                assert(init[k] == value);
                let j = choose|j: int| 0 <= j < rest.len() && rest[j] == value;
                assert(all[j] == value);
            } else {
                assert(all.last() == value);
            }
        }
        if all.contains(value) {
            let j = choose|j: int| 0 <= j < all.len() && all[j] == value;
            if j < rest.len() {
                assert(rest[j] == value);
                let k = choose|k: int| 0 <= k < init.len() && init[k] == value;
                assert(values[k] == value);
            } else {
                assert(values[values.len() - 1] == value);
            }
        }
    }
}

/// The sizes for PDF files are in hundredths of a millimetre, as their names say: A4 is 210 by 297
/// millimetres and the first, and A3 is as wide as A4 is long and twice A4.
pub proof fn law_sizes_are_those_of_their_names()
    ensures
        pdf_media()[0].name == "iso_a4_210x297mm"@,
        pdf_media()[0].width == 210 * 100 && pdf_media()[0].length == 297 * 100,
        pdf_media()[1].name == "na_letter_8.5x11in"@,
        10 * pdf_media()[1].width == 85 * 2540 && pdf_media()[1].length == 11 * 2540,
        pdf_media()[2].name == "na_legal_8.5x14in"@,
        pdf_media()[2].width == pdf_media()[1].width && pdf_media()[2].length == 14 * 2540,
        pdf_media()[3].name == "iso_a3_297x420mm"@,
        pdf_media()[3].width == pdf_media()[0].length && pdf_media()[3].length == 2
            * pdf_media()[0].width,
        pdf_media()[4].name == "iso_a5_148x210mm"@,
        pdf_media()[4].width == 148 * 100 && pdf_media()[4].length == pdf_media()[0].width,
        forall|i: int|
            0 <= i < pdf_media().len() ==> (#[trigger] pdf_media()[i]).width < pdf_media()[i].length,
{
}

/// The margins of a side are the numbers that the printer names for this very side, and a sheet can be
/// printed to its edges exactly where all four sides can be zero.
pub proof fn law_margins_are_of_their_sides(options: Map<Seq<char>, OptionView>, n: u32, i: int)
    ensures
        options.dom().contains("media-top-margin"@) && 0 <= i
            < options["media-top-margin"@].supported_values.len() && number_u32(
            options["media-top-margin"@].supported_values[i],
        ) == Some(n) ==> margin_options(options).top.contains(n),
        options.dom().contains("media-bottom-margin"@) && 0 <= i
            < options["media-bottom-margin"@].supported_values.len() && number_u32(
            options["media-bottom-margin"@].supported_values[i],
        ) == Some(n) ==> margin_options(options).bottom.contains(n),
        options.dom().contains("media-left-margin"@) && 0 <= i
            < options["media-left-margin"@].supported_values.len() && number_u32(
            options["media-left-margin"@].supported_values[i],
        ) == Some(n) ==> margin_options(options).left.contains(n),
        options.dom().contains("media-right-margin"@) && 0 <= i
            < options["media-right-margin"@].supported_values.len() && number_u32(
            options["media-right-margin"@].supported_values[i],
        ) == Some(n) ==> margin_options(options).right.contains(n),
        !options.dom().contains("media-top-margin"@) ==> margin_options(options).top.len() == 0,
        !options.dom().contains("media-left-margin"@) ==> margin_options(options).left.len() == 0,
        margin_options(options).supports_borderless <==> margin_options(options).top.contains(0)
            && margin_options(options).bottom.contains(0) && margin_options(options).left.contains(0)
            && margin_options(options).right.contains(0),
{
    if options.dom().contains("media-top-margin"@) {
        law_side_is_ascending(options["media-top-margin"@].supported_values);
    }
    if options.dom().contains("media-bottom-margin"@) {
        law_side_is_ascending(options["media-bottom-margin"@].supported_values);
    }
    if options.dom().contains("media-left-margin"@) {
        law_side_is_ascending(options["media-left-margin"@].supported_values);
    }
    if options.dom().contains("media-right-margin"@) {
        law_side_is_ascending(options["media-right-margin"@].supported_values);
    }
}

} // verus!
