//! Places of values in sequences.

use crate::text::{str_eq, views};
use vstd::prelude::*;

verus! {

/// The position of the first `value` in `s`, or the length of `s` if there is none.
pub open spec fn first_position<T>(s: Seq<T>, value: T) -> nat
    decreases s.len(),
{
    if s.len() == 0 || s[0] == value {
        0
    } else {
        1 + first_position(s.drop_first(), value)
    }
}

/// The position of the first `value` in `s`.
pub open spec fn position<T>(s: Seq<T>, value: T) -> Option<usize> {
    if first_position(s, value) < s.len() {
        Some(first_position(s, value) as usize)
    } else {
        None
    }
}

/// A position is that of the first `value` where `value` stands there and nowhere before.
pub proof fn lemma_first_position<T>(s: Seq<T>, value: T, i: int)
    requires
        0 <= i <= s.len(),
        forall|j: int| 0 <= j < i ==> s[j] != value,
        i < s.len() ==> s[i] == value,
    ensures
        first_position(s, value) == i,
    decreases s.len(),
{
    if i > 0 {
        assert(s[0] != value);
        assert forall|j: int| 0 <= j < i - 1 implies s.drop_first()[j] != value by {
            assert(s.drop_first()[j] == s[j + 1]);
        }
        lemma_first_position(s.drop_first(), value, i - 1);
    }
}

/// A value stands at its first position and nowhere before.
pub proof fn lemma_first_position_of<T>(s: Seq<T>, value: T)
    ensures
        first_position(s, value) <= s.len(),
        first_position(s, value) < s.len() <==> s.contains(value),
        first_position(s, value) < s.len() ==> s[first_position(s, value) as int] == value,
        forall|j: int| 0 <= j < first_position(s, value) ==> s[j] != value,
    decreases s.len(),
{
    if s.len() > 0 {
        if s[0] == value {
            assert(s.contains(value));
        } else {
            let rest = s.drop_first();
            lemma_first_position_of(rest, value);
            assert forall|j: int| 0 <= j < first_position(s, value) implies s[j] != value by {
                if j > 0 {
                    assert(s[j] == rest[j - 1]);
                }
            }
            if rest.contains(value) {
                let j = choose|j: int| 0 <= j < rest.len() && rest[j] == value;
                assert(s[j + 1] == value);
            }
            if s.contains(value) {
                let j = choose|j: int| 0 <= j < s.len() && s[j] == value;
                assert(rest[j - 1] == value);
            }
        }
    }
}

/// The element at an optional position, if both are there.
pub open spec fn at<T>(s: Seq<T>, index: Option<usize>) -> Option<T> {
    match index {
        Some(i) => if i < s.len() {
            Some(s[i as int])
        } else {
            None
        },
        None => None,
    }
}

/// The position of the first string that holds these characters.
pub fn position_of_str(values: &Vec<String>, value: &str) -> (r: Option<usize>)
    ensures
        r == position(views(values@), value@),
{
    let ghost all = views(values@);
    let mut i: usize = 0;
    while i < values.len()
        invariant
            i <= values@.len(),
            all == views(values@),
            forall|j: int| 0 <= j < i ==> all[j] != value@,
        decreases values@.len() - i,
    {
        let found = str_eq(values[i].as_str(), value);
        assert(all[i as int] == values@[i as int]@);
        if found {
            proof {
                lemma_first_position(all, value@, i as int);
            }
            return Some(i);
        }
        i = i + 1;
    }
    proof {
        lemma_first_position(all, value@, all.len() as int);
    }
    None
}

/// The position of the first occurrence of a number.
pub fn position_of_u32(values: &Vec<u32>, value: u32) -> (r: Option<usize>)
    ensures
        r == position(values@, value),
{
    let mut i: usize = 0;
    while i < values.len()
        invariant
            i <= values@.len(),
            forall|j: int| 0 <= j < i ==> values@[j] != value,
        decreases values@.len() - i,
    {
        if values[i] == value {
            proof {
                lemma_first_position(values@, value, i as int);
            }
            return Some(i);
        }
        i = i + 1;
    }
    proof {
        lemma_first_position(values@, value, values@.len() as int);
    }
    None
}

/// The string at an optional position.
pub fn str_at(values: &Vec<String>, index: Option<usize>) -> (r: Option<&String>)
    ensures
        r == match at(values@, index) {
            Some(value) => Some(&value),
            None => None,
        },
{
    match index {
        Some(i) => if i < values.len() {
            Some(&values[i])
        } else {
            None
        },
        None => None,
    }
}

/// The number at an optional position.
pub fn u32_at(values: &Vec<u32>, index: Option<usize>) -> (r: Option<u32>)
    ensures
        r == at(values@, index),
{
    match index {
        Some(i) => if i < values.len() {
            Some(values[i])
        } else {
            None
        },
        None => None,
    }
}

} // verus!
