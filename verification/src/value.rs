//! Values of settings that applications exchange with the portal.

use crate::dict::Dict;
use vstd::prelude::*;

verus! {

/// A length in millimetres: its hundredths, rounded, and whether it is exactly zero.
#[derive(Debug, Clone, Copy, PartialEq, Eq, Structural)]
pub struct Length {
    pub hundredths: i64,
    pub zero: bool,
}

/// A value of a setting.
#[derive(Debug, PartialEq, Eq)]
pub enum Value {
    Text(String),
    Flag(bool),
    Length(Length),
    /// A value of a type that no setting has.
    Other,
}

/// A value of a setting, as a value.
pub enum ValueView {
    Text(Seq<char>),
    Flag(bool),
    Length(Length),
    Other,
}

impl View for Value {
    type V = ValueView;

    open spec fn view(&self) -> ValueView {
        match self {
            Value::Text(text) => ValueView::Text(text@),
            Value::Flag(flag) => ValueView::Flag(*flag),
            Value::Length(length) => ValueView::Length(*length),
            Value::Other => ValueView::Other,
        }
    }
}

/// Settings by name, as values.
pub open spec fn value_views(values: Map<Seq<char>, Value>) -> Map<Seq<char>, ValueView> {
    values.map_values(|value: Value| value@)
}

/// The text under a name.
pub open spec fn text_of(values: Map<Seq<char>, ValueView>, key: Seq<char>) -> Option<Seq<char>> {
    if values.dom().contains(key) {
        match values[key] {
            ValueView::Text(text) => Some(text),
            _ => None,
        }
    } else {
        None
    }
}

/// The length under a name.
pub open spec fn length_of(values: Map<Seq<char>, ValueView>, key: Seq<char>) -> Option<Length> {
    if values.dom().contains(key) {
        match values[key] {
            ValueView::Length(length) => Some(length),
            _ => None,
        }
    } else {
        None
    }
}

/// The flag under a name.
pub open spec fn flag_of(values: Map<Seq<char>, ValueView>, key: Seq<char>) -> Option<bool> {
    if values.dom().contains(key) {
        match values[key] {
            ValueView::Flag(flag) => Some(flag),
            _ => None,
        }
    } else {
        None
    }
}

/// A length of so many hundredths of a millimetre.
pub open spec fn exact_length(hundredths: int) -> ValueView {
    ValueView::Length(Length { hundredths: hundredths as i64, zero: hundredths == 0 })
}

/// The text under a name.
pub fn get_str<'a>(values: &'a Dict<Value>, key: &str) -> (r: Option<&'a String>)
    ensures
        match r {
            Some(text) => text_of(value_views(values@), key@) == Some(text@),
            None => text_of(value_views(values@), key@) is None,
        },
{
    match values.get(key) {
        Some(value) => match value {
            Value::Text(text) => Some(text),
            _ => None,
        },
        None => None,
    }
}

/// The length under a name.
pub fn get_length(values: &Dict<Value>, key: &str) -> (r: Option<Length>)
    ensures
        r == length_of(value_views(values@), key@),
{
    match values.get(key) {
        Some(value) => match value {
            Value::Length(length) => Some(*length),
            _ => None,
        },
        None => None,
    }
}

/// The flag under a name.
pub fn get_flag(values: &Dict<Value>, key: &str) -> (r: Option<bool>)
    ensures
        r == flag_of(value_views(values@), key@),
{
    match values.get(key) {
        Some(value) => match value {
            Value::Flag(flag) => Some(*flag),
            _ => None,
        },
        None => None,
    }
}

/// A length of so many hundredths of a millimetre.
pub fn length_value(hundredths: i64) -> (r: Value)
    ensures
        r@ == exact_length(hundredths as int),
{
    Value::Length(Length { hundredths, zero: hundredths == 0 })
}

/// A text as a value.
pub fn text_value(text: &str) -> (r: Value)
    ensures
        r@ == ValueView::Text(text@),
{
    Value::Text(text.to_owned())
}

} // verus!
