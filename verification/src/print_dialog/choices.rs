//! The choices that the dialog offers, with their identifiers and labels.

use crate::label::{message_with, plain_message, Label, LabelView, Phrase, PhraseView};
use crate::text::{str_eq, trim, trimmed};
use vstd::prelude::*;

verus! {

/// The part of the dialog that is shown.
#[derive(Debug, Clone, Copy, PartialEq, Eq, Structural)]
pub enum ActiveView {
    Main,
    PageSelection,
    SavePreset,
    EditPresets,
}

/// The pages to print.
#[derive(Debug, PartialEq, Eq)]
pub enum PageSetSelection {
    All,
    Current,
    Odd,
    Even,
    Custom(String),
}

/// The pages to print, as a value.
pub enum PageSetView {
    All,
    Current,
    Odd,
    Even,
    Custom(Seq<char>),
}

impl View for PageSetSelection {
    type V = PageSetView;

    open spec fn view(&self) -> PageSetView {
        match self {
            PageSetSelection::All => PageSetView::All,
            PageSetSelection::Current => PageSetView::Current,
            PageSetSelection::Odd => PageSetView::Odd,
            PageSetSelection::Even => PageSetView::Even,
            PageSetSelection::Custom(range) => PageSetView::Custom(range@),
        }
    }
}

impl Clone for PageSetSelection {
    fn clone(&self) -> (r: Self)
        ensures
            r == *self,
    {
        match self {
            PageSetSelection::All => PageSetSelection::All,
            PageSetSelection::Current => PageSetSelection::Current,
            PageSetSelection::Odd => PageSetSelection::Odd,
            PageSetSelection::Even => PageSetSelection::Even,
            PageSetSelection::Custom(range) => PageSetSelection::Custom(range.clone()),
        }
    }
}

impl PageSetView {
    /// The identifier of the selection.
    pub open spec fn id(self) -> Seq<char> {
        match self {
            PageSetView::All => "all"@,
            PageSetView::Current => "current"@,
            PageSetView::Odd => "odd"@,
            PageSetView::Even => "even"@,
            PageSetView::Custom(_) => "custom"@,
        }
    }

    /// The selection with an identifier; any other identifier stands for all pages.
    pub open spec fn from_id(id: Seq<char>, custom_input: Seq<char>) -> PageSetView {
        if id == "current"@ {
            PageSetView::Current
        } else if id == "odd"@ {
            PageSetView::Odd
        } else if id == "even"@ {
            PageSetView::Even
        } else if id == "custom"@ {
            PageSetView::Custom(custom_input)
        } else {
            PageSetView::All
        }
    }

    /// The label of the selection.
    pub open spec fn label(self) -> LabelView {
        plain_message(
            match self {
                PageSetView::All => "page-set-all"@,
                PageSetView::Current => "page-set-current"@,
                PageSetView::Odd => "page-set-odd"@,
                PageSetView::Even => "page-set-even"@,
                PageSetView::Custom(_) => "page-set-custom"@,
            },
        )
    }

    /// The label, or the range itself where there is one.
    pub open spec fn summary(self) -> LabelView {
        match self {
            PageSetView::Custom(range) if trimmed(range).len() > 0 => message_with(
                "page-set-custom-value"@,
                "range"@,
                PhraseView::Text(range),
            ),
            other => other.label(),
        }
    }
}

impl PageSetSelection {
    /// The identifier of the selection.
    pub fn id(&self) -> (r: &'static str)
        ensures
            r@ == self@.id(),
    {
        match self {
            PageSetSelection::All => "all",
            PageSetSelection::Current => "current",
            PageSetSelection::Odd => "odd",
            PageSetSelection::Even => "even",
            PageSetSelection::Custom(_) => "custom",
        }
    }

    /// The selection with an identifier; any other identifier stands for all pages.
    pub fn from_id(id: &str, custom_input: &str) -> (r: Self)
        ensures
            r@ == PageSetView::from_id(id@, custom_input@),
    {
        if str_eq(id, "current") {
            PageSetSelection::Current
        } else if str_eq(id, "odd") {
            PageSetSelection::Odd
        } else if str_eq(id, "even") {
            PageSetSelection::Even
        } else if str_eq(id, "custom") {
            PageSetSelection::Custom(custom_input.to_owned())
        } else {
            PageSetSelection::All
        }
    }

    /// The label of the selection.
    pub fn label(&self) -> (r: Label)
        ensures
            r@ == self@.label(),
    {
        Label::message(
            match self {
                PageSetSelection::All => "page-set-all",
                PageSetSelection::Current => "page-set-current",
                PageSetSelection::Odd => "page-set-odd",
                PageSetSelection::Even => "page-set-even",
                PageSetSelection::Custom(_) => "page-set-custom",
            },
        )
    }

    /// The label, or the range itself where there is one.
    pub fn summary(&self) -> (r: Label)
        ensures
            r@ == self@.summary(),
    {
        if let PageSetSelection::Custom(range) = self {
            if !trim(range.as_str()).as_str().is_empty() {
                return Label::message_with(
                    "page-set-custom-value",
                    "range",
                    Phrase::Text(range.clone()),
                );
            }
        }
        self.label()
    }
}

/// Whether colours are printed.
#[derive(Debug, Clone, Copy, PartialEq, Eq, Structural)]
pub enum ColorMode {
    Color,
    Monochrome,
}

impl ColorMode {
    pub open spec fn spec_id(self) -> Seq<char> {
        match self {
            ColorMode::Color => "color"@,
            ColorMode::Monochrome => "monochrome"@,
        }
    }

    pub open spec fn spec_from_id(s: Seq<char>) -> ColorMode {
        if s == "monochrome"@ {
            ColorMode::Monochrome
        } else {
            ColorMode::Color
        }
    }

    pub open spec fn spec_label(self) -> LabelView {
        plain_message(
            match self {
                ColorMode::Color => "color-mode-color"@,
                ColorMode::Monochrome => "color-mode-monochrome"@,
            },
        )
    }

    /// The identifier of the mode.
    pub fn id(&self) -> (r: &'static str)
        ensures
            r@ == self.spec_id(),
    {
        match self {
            ColorMode::Color => "color",
            ColorMode::Monochrome => "monochrome",
        }
    }

    /// The mode with an identifier; any other identifier stands for colour.
    pub fn from_id(s: &str) -> (r: Self)
        ensures
            r == ColorMode::spec_from_id(s@),
    {
        if str_eq(s, "monochrome") {
            ColorMode::Monochrome
        } else {
            ColorMode::Color
        }
    }

    /// The label of the mode.
    pub fn label(&self) -> (r: Label)
        ensures
            r@ == self.spec_label(),
    {
        Label::message(
            match self {
                ColorMode::Color => "color-mode-color",
                ColorMode::Monochrome => "color-mode-monochrome",
            },
        )
    }
}

/// How the page is turned.
#[derive(Debug, Clone, Copy, PartialEq, Eq, Structural)]
pub enum Orientation {
    Portrait,
    Landscape,
}

impl Orientation {
    pub open spec fn spec_id(self) -> Seq<char> {
        match self {
            Orientation::Portrait => "portrait"@,
            Orientation::Landscape => "landscape"@,
        }
    }

    pub open spec fn spec_from_id(s: Seq<char>) -> Orientation {
        if s == "landscape"@ {
            Orientation::Landscape
        } else {
            Orientation::Portrait
        }
    }

    pub open spec fn spec_label(self) -> LabelView {
        plain_message(
            match self {
                Orientation::Portrait => "orientation-portrait"@,
                Orientation::Landscape => "orientation-landscape"@,
            },
        )
    }

    /// The identifier of the orientation.
    pub fn id(&self) -> (r: &'static str)
        ensures
            r@ == self.spec_id(),
    {
        match self {
            Orientation::Portrait => "portrait",
            Orientation::Landscape => "landscape",
        }
    }

    /// The orientation with an identifier; any other identifier stands for portrait.
    pub fn from_id(s: &str) -> (r: Self)
        ensures
            r == Orientation::spec_from_id(s@),
    {
        if str_eq(s, "landscape") {
            Orientation::Landscape
        } else {
            Orientation::Portrait
        }
    }

    /// The label of the orientation.
    pub fn label(&self) -> (r: Label)
        ensures
            r@ == self.spec_label(),
    {
        Label::message(
            match self {
                Orientation::Portrait => "orientation-portrait",
                Orientation::Landscape => "orientation-landscape",
            },
        )
    }
}

/// The order in which several pages are laid out on one sheet.
#[derive(Debug, Clone, Copy, PartialEq, Eq, Structural)]
pub enum LayoutDirection {
    LeftToRightTopToBottom,
    RightToLeftTopToBottom,
    TopToBottomLeftToRight,
    TopToBottomRightToLeft,
}

impl LayoutDirection {
    pub open spec fn spec_id(self) -> Seq<char> {
        match self {
            LayoutDirection::LeftToRightTopToBottom => "lrtb"@,
            LayoutDirection::RightToLeftTopToBottom => "rltb"@,
            LayoutDirection::TopToBottomLeftToRight => "tblr"@,
            LayoutDirection::TopToBottomRightToLeft => "tbrl"@,
        }
    }

    pub open spec fn spec_from_id(s: Seq<char>) -> LayoutDirection {
        if s == "rltb"@ {
            LayoutDirection::RightToLeftTopToBottom
        } else if s == "tblr"@ {
            LayoutDirection::TopToBottomLeftToRight
        } else if s == "tbrl"@ {
            LayoutDirection::TopToBottomRightToLeft
        } else {
            LayoutDirection::LeftToRightTopToBottom
        }
    }

    pub open spec fn spec_icon_name(self) -> Seq<char> {
        match self {
            LayoutDirection::LeftToRightTopToBottom => "left-to-right-symbolic"@,
            LayoutDirection::RightToLeftTopToBottom => "right-to-left-symbolic"@,
            LayoutDirection::TopToBottomLeftToRight => "top-bottom-right-symbolic"@,
            LayoutDirection::TopToBottomRightToLeft => "top-bottom-left-symbolic"@,
        }
    }

    /// The identifier of the direction.
    pub fn id(&self) -> (r: &'static str)
        ensures
            r@ == self.spec_id(),
    {
        match self {
            LayoutDirection::LeftToRightTopToBottom => "lrtb",
            LayoutDirection::RightToLeftTopToBottom => "rltb",
            LayoutDirection::TopToBottomLeftToRight => "tblr",
            LayoutDirection::TopToBottomRightToLeft => "tbrl",
        }
    }

    /// The direction with an identifier; any other identifier stands for left to right.
    pub fn from_id(s: &str) -> (r: Self)
        ensures
            r == LayoutDirection::spec_from_id(s@),
    {
        if str_eq(s, "rltb") {
            LayoutDirection::RightToLeftTopToBottom
        } else if str_eq(s, "tblr") {
            LayoutDirection::TopToBottomLeftToRight
        } else if str_eq(s, "tbrl") {
            LayoutDirection::TopToBottomRightToLeft
        } else {
            LayoutDirection::LeftToRightTopToBottom
        }
    }

    /// The name of the icon that shows the direction.
    pub fn icon_name(&self) -> (r: &'static str)
        ensures
            r@ == self.spec_icon_name(),
    {
        match self {
            LayoutDirection::LeftToRightTopToBottom => "left-to-right-symbolic",
            LayoutDirection::RightToLeftTopToBottom => "right-to-left-symbolic",
            LayoutDirection::TopToBottomLeftToRight => "top-bottom-right-symbolic",
            LayoutDirection::TopToBottomRightToLeft => "top-bottom-left-symbolic",
        }
    }
}

/// The margins of the page.
#[derive(Debug, Clone, Copy, PartialEq, Eq, Structural)]
pub enum Margins {
    Default,
    NoMargins,
    Minimum,
    Custom,
}

impl Margins {
    pub open spec fn spec_id(self) -> Seq<char> {
        match self {
            Margins::Default => "default"@,
            Margins::NoMargins => "none"@,
            Margins::Minimum => "minimum"@,
            Margins::Custom => "custom"@,
        }
    }

    pub open spec fn spec_from_id(s: Seq<char>) -> Margins {
        if s == "none"@ {
            Margins::NoMargins
        } else if s == "minimum"@ {
            Margins::Minimum
        } else if s == "custom"@ {
            Margins::Custom
        } else {
            Margins::Default
        }
    }

    pub open spec fn spec_label(self) -> LabelView {
        plain_message(
            match self {
                Margins::Default => "margins-default"@,
                Margins::NoMargins => "margins-none"@,
                Margins::Minimum => "margins-minimum"@,
                Margins::Custom => "margins-custom"@,
            },
        )
    }

    /// All margins, in the order in which they are offered.
    pub open spec fn spec_all() -> Seq<Margins> {
        seq![Margins::Default, Margins::NoMargins, Margins::Minimum, Margins::Custom]
    }

    /// The identifier of the margins.
    pub fn id(&self) -> (r: &'static str)
        ensures
            r@ == self.spec_id(),
    {
        match self {
            Margins::Default => "default",
            Margins::NoMargins => "none",
            Margins::Minimum => "minimum",
            Margins::Custom => "custom",
        }
    }

    /// The margins with an identifier; any other identifier stands for the default.
    pub fn from_id(s: &str) -> (r: Self)
        ensures
            r == Margins::spec_from_id(s@),
    {
        if str_eq(s, "none") {
            Margins::NoMargins
        } else if str_eq(s, "minimum") {
            Margins::Minimum
        } else if str_eq(s, "custom") {
            Margins::Custom
        } else {
            Margins::Default
        }
    }

    /// The label of the margins.
    pub fn label(&self) -> (r: Label)
        ensures
            r@ == self.spec_label(),
    {
        Label::message(
            match self {
                Margins::Default => "margins-default",
                Margins::NoMargins => "margins-none",
                Margins::Minimum => "margins-minimum",
                Margins::Custom => "margins-custom",
            },
        )
    }

    /// All margins, in the order in which they are offered.
    pub fn all() -> (r: Vec<Margins>)
        ensures
            r@ == Margins::spec_all(),
    {
        vec![Margins::Default, Margins::NoMargins, Margins::Minimum, Margins::Custom]
    }

    /// The position of the margins among all of them.
    pub open spec fn spec_index(self) -> nat {
        match self {
            Margins::Default => 0,
            Margins::NoMargins => 1,
            Margins::Minimum => 2,
            Margins::Custom => 3,
        }
    }

    /// The position of the margins among all of them.
    pub fn index(&self) -> (r: usize)
        ensures
            r == self.spec_index(),
            Margins::spec_all()[r as int] == *self,
    {
        match self {
            Margins::Default => 0,
            Margins::NoMargins => 1,
            Margins::Minimum => 2,
            Margins::Custom => 3,
        }
    }
}

/// The line around a page.
#[derive(Debug, Clone, Copy, PartialEq, Eq, Structural)]
pub enum Border {
    NoBorder,
    Single,
    Double,
}

impl Border {
    pub open spec fn spec_id(self) -> Seq<char> {
        match self {
            Border::NoBorder => "none"@,
            Border::Single => "single"@,
            Border::Double => "double"@,
        }
    }

    pub open spec fn spec_label(self) -> LabelView {
        plain_message(
            match self {
                Border::NoBorder => "border-none"@,
                Border::Single => "border-single"@,
                Border::Double => "border-double"@,
            },
        )
    }

    /// All borders, in the order in which they are offered.
    pub open spec fn spec_all() -> Seq<Border> {
        seq![Border::NoBorder, Border::Single, Border::Double]
    }

    /// The position of the border among all of them.
    pub open spec fn spec_index(self) -> nat {
        match self {
            Border::NoBorder => 0,
            Border::Single => 1,
            Border::Double => 2,
        }
    }

    /// The identifier of the border.
    pub fn id(&self) -> (r: &'static str)
        ensures
            r@ == self.spec_id(),
    {
        match self {
            Border::NoBorder => "none",
            Border::Single => "single",
            Border::Double => "double",
        }
    }

    /// The label of the border.
    pub fn label(&self) -> (r: Label)
        ensures
            r@ == self.spec_label(),
    {
        Label::message(
            match self {
                Border::NoBorder => "border-none",
                Border::Single => "border-single",
                Border::Double => "border-double",
            },
        )
    }

    /// All borders, in the order in which they are offered.
    pub fn all() -> (r: Vec<Border>)
        ensures
            r@ == Border::spec_all(),
    {
        vec![Border::NoBorder, Border::Single, Border::Double]
    }

    /// The position of the border among all of them.
    pub fn index(&self) -> (r: usize)
        ensures
            r == self.spec_index(),
            Border::spec_all()[r as int] == *self,
    {
        match self {
            Border::NoBorder => 0,
            Border::Single => 1,
            Border::Double => 2,
        }
    }
}

/// How the document is scaled to the page.
#[derive(Debug, Clone, Copy, PartialEq, Eq, Structural)]
pub enum ScalingMode {
    Auto,
    AutoFit,
    Fit,
    Fill,
    Custom,
}

impl ScalingMode {
    pub open spec fn spec_id(self) -> Seq<char> {
        match self {
            ScalingMode::Auto => "auto"@,
            ScalingMode::AutoFit => "auto-fit"@,
            ScalingMode::Fit => "fit"@,
            ScalingMode::Fill => "fill"@,
            ScalingMode::Custom => "custom"@,
        }
    }

    pub open spec fn spec_from_id(s: Seq<char>) -> ScalingMode {
        if s == "fit"@ {
            ScalingMode::Fit
        } else if s == "auto-fit"@ {
            ScalingMode::AutoFit
        } else if s == "fill"@ {
            ScalingMode::Fill
        } else if s == "custom"@ {
            ScalingMode::Custom
        } else {
            ScalingMode::Auto
        }
    }

    pub open spec fn spec_label(self) -> LabelView {
        plain_message(
            match self {
                ScalingMode::Auto => "scaling-auto"@,
                ScalingMode::AutoFit => "scaling-auto-fit"@,
                ScalingMode::Fit => "scaling-fit"@,
                ScalingMode::Fill => "scaling-fill"@,
                ScalingMode::Custom => "scaling-custom"@,
            },
        )
    }

    /// The value that print backends understand.
    pub open spec fn spec_cpdb(self) -> Seq<char> {
        match self {
            ScalingMode::Auto => "auto"@,
            ScalingMode::AutoFit => "auto-fit"@,
            ScalingMode::Fit => "fit"@,
            ScalingMode::Fill => "fill"@,
            ScalingMode::Custom => "none"@,
        }
    }

    /// All modes, in the order in which they are offered.
    pub open spec fn spec_all() -> Seq<ScalingMode> {
        seq![
            ScalingMode::Auto,
            ScalingMode::AutoFit,
            ScalingMode::Fit,
            ScalingMode::Fill,
            ScalingMode::Custom,
        ]
    }

    /// The position of the mode among all of them.
    pub open spec fn spec_index(self) -> nat {
        match self {
            ScalingMode::Auto => 0,
            ScalingMode::AutoFit => 1,
            ScalingMode::Fit => 2,
            ScalingMode::Fill => 3,
            ScalingMode::Custom => 4,
        }
    }

    /// The identifier of the mode.
    pub fn id(&self) -> (r: &'static str)
        ensures
            r@ == self.spec_id(),
    {
        match self {
            ScalingMode::Auto => "auto",
            ScalingMode::AutoFit => "auto-fit",
            ScalingMode::Fit => "fit",
            ScalingMode::Fill => "fill",
            ScalingMode::Custom => "custom",
        }
    }

    /// The mode with an identifier; any other identifier stands for automatic scaling.
    pub fn from_id(s: &str) -> (r: Self)
        ensures
            r == ScalingMode::spec_from_id(s@),
    {
        if str_eq(s, "fit") {
            ScalingMode::Fit
        } else if str_eq(s, "auto-fit") {
            ScalingMode::AutoFit
        } else if str_eq(s, "fill") {
            ScalingMode::Fill
        } else if str_eq(s, "custom") {
            ScalingMode::Custom
        } else {
            ScalingMode::Auto
        }
    }

    /// The label of the mode.
    pub fn label(&self) -> (r: Label)
        ensures
            r@ == self.spec_label(),
    {
        Label::message(
            match self {
                ScalingMode::Auto => "scaling-auto",
                ScalingMode::AutoFit => "scaling-auto-fit",
                ScalingMode::Fit => "scaling-fit",
                ScalingMode::Fill => "scaling-fill",
                ScalingMode::Custom => "scaling-custom",
            },
        )
    }

    /// The value that print backends understand.
    pub fn as_cpdb_str(&self) -> (r: &'static str)
        ensures
            r@ == self.spec_cpdb(),
    {
        match self {
            ScalingMode::Auto => "auto",
            ScalingMode::AutoFit => "auto-fit",
            ScalingMode::Fit => "fit",
            ScalingMode::Fill => "fill",
            ScalingMode::Custom => "none",
        }
    }

    /// All modes, in the order in which they are offered.
    pub fn all() -> (r: Vec<ScalingMode>)
        ensures
            r@ == ScalingMode::spec_all(),
    {
        vec![
            ScalingMode::Auto,
            ScalingMode::AutoFit,
            ScalingMode::Fit,
            ScalingMode::Fill,
            ScalingMode::Custom,
        ]
    }

    /// The position of the mode among all of them.
    pub fn index(&self) -> (r: usize)
        ensures
            r == self.spec_index(),
            ScalingMode::spec_all()[r as int] == *self,
    {
        match self {
            ScalingMode::Auto => 0,
            ScalingMode::AutoFit => 1,
            ScalingMode::Fit => 2,
            ScalingMode::Fill => 3,
            ScalingMode::Custom => 4,
        }
    }
}

/// Each choice is found again by its identifier.
pub proof fn law_identifiers_name_choices(
    pages: PageSetView,
    color: ColorMode,
    orientation: Orientation,
    direction: LayoutDirection,
    margins: Margins,
    scaling: ScalingMode,
)
    ensures
        PageSetView::from_id(
            pages.id(),
            match pages {
                PageSetView::Custom(range) => range,
                _ => Seq::empty(),
            },
        ) == pages,
        ColorMode::spec_from_id(color.spec_id()) == color,
        Orientation::spec_from_id(orientation.spec_id()) == orientation,
        LayoutDirection::spec_from_id(direction.spec_id()) == direction,
        Margins::spec_from_id(margins.spec_id()) == margins,
        ScalingMode::spec_from_id(scaling.spec_id()) == scaling,
{
    reveal_strlit("all");
    reveal_strlit("current");
    reveal_strlit("odd");
    reveal_strlit("even");
    reveal_strlit("custom");
    reveal_strlit("color");
    reveal_strlit("monochrome");
    reveal_strlit("portrait");
    reveal_strlit("landscape");
    reveal_strlit("lrtb");
    reveal_strlit("rltb");
    reveal_strlit("tblr");
    reveal_strlit("tbrl");
    reveal_strlit("default");
    reveal_strlit("none");
    reveal_strlit("minimum");
    reveal_strlit("auto");
    reveal_strlit("auto-fit");
    reveal_strlit("fit");
    reveal_strlit("fill");
    assert("all"@.len() == 3 && "current"@.len() == 7 && "odd"@.len() == 3 && "even"@.len() == 4 && "custom"@.len() == 6 && "color"@.len() == 5 && "monochrome"@.len() == 10 && "portrait"@.len() == 8);
    assert("landscape"@.len() == 9 && "default"@.len() == 7 && "none"@.len() == 4 && "minimum"@.len() == 7 && "auto"@.len() == 4 && "auto-fit"@.len() == 8 && "fit"@.len() == 3 && "fill"@.len() == 4);
    assert("odd"@[0] != "all"@[0]);
    assert("lrtb"@[0] == 'l' && "rltb"@[0] == 'r' && "tblr"@[2] == 'l' && "tbrl"@[2] == 'r');
    assert("lrtb"@[2] == 't' && "rltb"@[2] == 't');
    assert("auto"@[0] == 'a' && "fill"@[0] == 'f');
    assert("default"@[0] == 'd' && "minimum"@[0] == 'm');
}

/// The message that labels a choice is named by what is chosen and the identifier of the choice.
pub proof fn law_labels_are_named_by_identifiers(
    pages: PageSetView,
    color: ColorMode,
    orientation: Orientation,
    margins: Margins,
    border: Border,
    scaling: ScalingMode,
)
    ensures
        color.spec_label() == plain_message("color-mode-"@ + color.spec_id()),
        orientation.spec_label() == plain_message("orientation-"@ + orientation.spec_id()),
        pages.label() == plain_message("page-set-"@ + pages.id()),
        margins.spec_label() == plain_message("margins-"@ + margins.spec_id()),
        border.spec_label() == plain_message("border-"@ + border.spec_id()),
        scaling.spec_label() == plain_message("scaling-"@ + scaling.spec_id()),
        pages matches PageSetView::Custom(range) ==> (trimmed(range).len() > 0
            ==> pages.summary().phrase == PhraseView::Message("page-set-custom-value"@)
            && pages.summary().arguments == seq![("range"@, PhraseView::Text(range))]),
        pages !is Custom ==> pages.summary() == pages.label(),
{
    reveal_strlit("color-mode-");
    reveal_strlit("color");
    reveal_strlit("color-mode-color");
    assert("color-mode-"@ + "color"@ =~= "color-mode-color"@);
    reveal_strlit("monochrome");
    reveal_strlit("color-mode-monochrome");
    assert("color-mode-"@ + "monochrome"@ =~= "color-mode-monochrome"@);
    reveal_strlit("orientation-");
    reveal_strlit("portrait");
    reveal_strlit("orientation-portrait");
    assert("orientation-"@ + "portrait"@ =~= "orientation-portrait"@);
    reveal_strlit("landscape");
    reveal_strlit("orientation-landscape");
    assert("orientation-"@ + "landscape"@ =~= "orientation-landscape"@);
    reveal_strlit("page-set-");
    reveal_strlit("all");
    reveal_strlit("page-set-all");
    assert("page-set-"@ + "all"@ =~= "page-set-all"@);
    reveal_strlit("current");
    reveal_strlit("page-set-current");
    assert("page-set-"@ + "current"@ =~= "page-set-current"@);
    reveal_strlit("odd");
    reveal_strlit("page-set-odd");
    assert("page-set-"@ + "odd"@ =~= "page-set-odd"@);
    reveal_strlit("even");
    reveal_strlit("page-set-even");
    assert("page-set-"@ + "even"@ =~= "page-set-even"@);
    reveal_strlit("custom");
    reveal_strlit("page-set-custom");
    assert("page-set-"@ + "custom"@ =~= "page-set-custom"@);
    reveal_strlit("margins-");
    reveal_strlit("default");
    reveal_strlit("margins-default");
    assert("margins-"@ + "default"@ =~= "margins-default"@);
    reveal_strlit("none");
    reveal_strlit("margins-none");
    assert("margins-"@ + "none"@ =~= "margins-none"@);
    reveal_strlit("minimum");
    reveal_strlit("margins-minimum");
    assert("margins-"@ + "minimum"@ =~= "margins-minimum"@);
    reveal_strlit("margins-custom");
    assert("margins-"@ + "custom"@ =~= "margins-custom"@);
    reveal_strlit("border-");
    reveal_strlit("border-none");
    assert("border-"@ + "none"@ =~= "border-none"@);
    reveal_strlit("single");
    reveal_strlit("border-single");
    assert("border-"@ + "single"@ =~= "border-single"@);
    reveal_strlit("double");
    reveal_strlit("border-double");
    assert("border-"@ + "double"@ =~= "border-double"@);
    reveal_strlit("scaling-");
    reveal_strlit("auto");
    reveal_strlit("scaling-auto");
    assert("scaling-"@ + "auto"@ =~= "scaling-auto"@);
    reveal_strlit("auto-fit");
    reveal_strlit("scaling-auto-fit");
    assert("scaling-"@ + "auto-fit"@ =~= "scaling-auto-fit"@);
    reveal_strlit("fit");
    reveal_strlit("scaling-fit");
    assert("scaling-"@ + "fit"@ =~= "scaling-fit"@);
    reveal_strlit("fill");
    reveal_strlit("scaling-fill");
    assert("scaling-"@ + "fill"@ =~= "scaling-fill"@);
    reveal_strlit("scaling-custom");
    assert("scaling-"@ + "custom"@ =~= "scaling-custom"@);
}

/// Each identifier stands for its choice alone, and a text that is none for the usual choice.
pub proof fn law_identifiers_mean_what_they_say(id: Seq<char>, typed: Seq<char>)
    ensures
        ColorMode::spec_from_id(id) is Monochrome <==> id == "monochrome"@,
        Orientation::spec_from_id(id) is Landscape <==> id == "landscape"@,
        LayoutDirection::spec_from_id(id) is RightToLeftTopToBottom <==> id == "rltb"@,
        LayoutDirection::spec_from_id(id) is TopToBottomLeftToRight <==> id == "tblr"@,
        LayoutDirection::spec_from_id(id) is TopToBottomRightToLeft <==> id == "tbrl"@,
        Margins::spec_from_id(id) is NoMargins <==> id == "none"@,
        Margins::spec_from_id(id) is Minimum <==> id == "minimum"@,
        Margins::spec_from_id(id) is Custom <==> id == "custom"@,
        ScalingMode::spec_from_id(id) is Fit <==> id == "fit"@,
        ScalingMode::spec_from_id(id) is AutoFit <==> id == "auto-fit"@,
        ScalingMode::spec_from_id(id) is Fill <==> id == "fill"@,
        ScalingMode::spec_from_id(id) is Custom <==> id == "custom"@,
        PageSetView::from_id(id, typed) is Current <==> id == "current"@,
        PageSetView::from_id(id, typed) is Odd <==> id == "odd"@,
        PageSetView::from_id(id, typed) is Even <==> id == "even"@,
        PageSetView::from_id(id, typed) == PageSetView::Custom(typed) <==> id == "custom"@,
{
    reveal_strlit("rltb");
    reveal_strlit("tblr");
    reveal_strlit("tbrl");
    reveal_strlit("none");
    reveal_strlit("minimum");
    reveal_strlit("custom");
    reveal_strlit("fit");
    reveal_strlit("auto-fit");
    reveal_strlit("fill");
    reveal_strlit("current");
    reveal_strlit("odd");
    reveal_strlit("even");
    assert("rltb"@[0] == 'r' && "tblr"@[2] == 'l' && "tbrl"@[2] == 'r' && "tblr"@[0] == 't');
    assert("none"@.len() == 4 && "minimum"@.len() == 7 && "custom"@.len() == 6);
    assert("fit"@.len() == 3 && "auto-fit"@.len() == 8 && "fill"@.len() == 4);
    assert("current"@.len() == 7 && "odd"@.len() == 3 && "even"@.len() == 4);
}

/// A choice stands in its list where its index says, and the list holds nothing twice.
pub proof fn law_choices_stand_where_they_are_found(
    margins: Margins,
    border: Border,
    scaling: ScalingMode,
)
    ensures
        margins.spec_index() < Margins::spec_all().len() == 4,
        Margins::spec_all()[margins.spec_index() as int] == margins,
        border.spec_index() < Border::spec_all().len() == 3,
        Border::spec_all()[border.spec_index() as int] == border,
        scaling.spec_index() < ScalingMode::spec_all().len() == 5,
        ScalingMode::spec_all()[scaling.spec_index() as int] == scaling,
        Margins::spec_all()[0] is Default,
        Border::spec_all()[0] is NoBorder,
        ScalingMode::spec_all()[0] is Auto,
{
}

} // verus!
