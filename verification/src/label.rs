//! Texts for people: messages of the catalogue, with what is filled into them.

use vstd::prelude::*;

verus! {

/// A text as it is, or a message of the catalogue.
#[derive(Debug, PartialEq, Eq)]
pub enum Phrase {
    /// A text that is shown as it is.
    Text(String),
    /// The identifier of a message.
    Message(&'static str),
    /// A length in hundredths of a millimetre, to be shown in millimetres with one decimal.
    Millimetres(u32),
}

/// What a phrase says.
pub enum PhraseView {
    Text(Seq<char>),
    Message(Seq<char>),
    Millimetres(u32),
}

impl View for Phrase {
    type V = PhraseView;

    open spec fn view(&self) -> PhraseView {
        match self {
            Phrase::Text(text) => PhraseView::Text(text@),
            Phrase::Message(id) => PhraseView::Message(id@),
            Phrase::Millimetres(hundredths) => PhraseView::Millimetres(*hundredths),
        }
    }
}

impl Clone for Phrase {
    fn clone(&self) -> (r: Self)
        ensures
            r == *self,
    {
        match self {
            Phrase::Text(text) => Phrase::Text(text.clone()),
            Phrase::Message(id) => Phrase::Message(*id),
            Phrase::Millimetres(hundredths) => Phrase::Millimetres(*hundredths),
        }
    }
}

/// A phrase with the arguments that are filled into it.
#[derive(Debug, PartialEq, Eq)]
pub struct Label {
    pub phrase: Phrase,
    /// The attribute of the message that is meant, if not the message itself.
    pub attribute: Option<&'static str>,
    /// The arguments by name.
    pub arguments: Vec<(&'static str, Phrase)>,
}

/// What a label says.
pub struct LabelView {
    pub phrase: PhraseView,
    pub attribute: Option<Seq<char>>,
    pub arguments: Seq<(Seq<char>, PhraseView)>,
}

impl View for Label {
    type V = LabelView;

    open spec fn view(&self) -> LabelView {
        LabelView {
            phrase: self.phrase@,
            attribute: match self.attribute {
                Some(attribute) => Some(attribute@),
                None => None,
            },
            arguments: self.arguments@.map_values(
                |argument: (&'static str, Phrase)| (argument.0@, argument.1@),
            ),
        }
    }
}

/// What a sequence of labels says.
pub open spec fn label_views(labels: Seq<Label>) -> Seq<LabelView> {
    labels.map_values(|label: Label| label@)
}

/// A label made of a phrase alone.
pub open spec fn plain(phrase: PhraseView) -> LabelView {
    LabelView { phrase, attribute: None, arguments: Seq::empty() }
}

/// A label that is a text as it is.
pub open spec fn plain_text(text: Seq<char>) -> LabelView {
    plain(PhraseView::Text(text))
}

/// A label that is a message without arguments.
pub open spec fn plain_message(id: Seq<char>) -> LabelView {
    plain(PhraseView::Message(id))
}

/// A label that is a message with one argument.
pub open spec fn message_with(id: Seq<char>, name: Seq<char>, argument: PhraseView) -> LabelView {
    LabelView {
        phrase: PhraseView::Message(id),
        attribute: None,
        arguments: seq![(name, argument)],
    }
}

/// A label that is an attribute of a message, without arguments.
pub open spec fn plain_attribute(id: Seq<char>, attribute: Seq<char>) -> LabelView {
    LabelView {
        phrase: PhraseView::Message(id),
        attribute: Some(attribute),
        arguments: Seq::empty(),
    }
}

/// A label that is an attribute of a message, with one argument.
pub open spec fn attribute_with(
    id: Seq<char>,
    attribute: Seq<char>,
    name: Seq<char>,
    argument: PhraseView,
) -> LabelView {
    LabelView {
        phrase: PhraseView::Message(id),
        attribute: Some(attribute),
        arguments: seq![(name, argument)],
    }
}

impl Label {
    /// A label made of a phrase alone.
    pub fn from_phrase(phrase: Phrase) -> (r: Self)
        ensures
            r@ == plain(phrase@),
    {
        let r = Label { phrase, attribute: None, arguments: Vec::new() };
        assert(r@.arguments =~= Seq::empty());
        r
    }

    /// A label that is a text as it is.
    pub fn text(text: String) -> (r: Self)
        ensures
            r@ == plain_text(text@),
    {
        Label::from_phrase(Phrase::Text(text))
    }

    /// A label that is a message without arguments.
    pub fn message(id: &'static str) -> (r: Self)
        ensures
            r@ == plain_message(id@),
    {
        Label::from_phrase(Phrase::Message(id))
    }

    /// A label that is an attribute of a message, without arguments.
    pub fn attribute(id: &'static str, attribute: &'static str) -> (r: Self)
        ensures
            r@ == plain_attribute(id@, attribute@),
    {
        let r = Label {
            phrase: Phrase::Message(id),
            attribute: Some(attribute),
            arguments: Vec::new(),
        };
        assert(r@.arguments =~= Seq::empty());
        r
    }

    /// A label that is a message with one argument.
    pub fn message_with(id: &'static str, name: &'static str, argument: Phrase) -> (r: Self)
        ensures
            r@ == message_with(id@, name@, argument@),
    {
        let mut arguments: Vec<(&'static str, Phrase)> = Vec::new();
        arguments.push((name, argument));
        let r = Label { phrase: Phrase::Message(id), attribute: None, arguments };
        assert(r@.arguments =~= seq![(name@, argument@)]);
        r
    }

    /// A label that is an attribute of a message, with one argument.
    pub fn attribute_with(
        id: &'static str,
        attribute: &'static str,
        name: &'static str,
        argument: Phrase,
    ) -> (r: Self)
        ensures
            r@ == attribute_with(id@, attribute@, name@, argument@),
    {
        let mut arguments: Vec<(&'static str, Phrase)> = Vec::new();
        arguments.push((name, argument));
        let r = Label { phrase: Phrase::Message(id), attribute: Some(attribute), arguments };
        assert(r@.arguments =~= seq![(name@, argument@)]);
        r
    }
}

} // verus!
