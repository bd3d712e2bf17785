//! Ranges of pages as they are written: `1-3, 5`.

use crate::text::{
    contains_char, decimal, is_digit, join, joined, law_decimal_reads_back, law_join_pieces,
    lemma_decimal_value, lemma_digits_are_plain, lemma_first_index_concat, lemma_no_first_index, lemma_pieces_trimmed,
    number_u32, parse_u32, pieces, split, split_first, split_once, to_decimal, trim, trimmed, views,
};
use vstd::prelude::*;

verus! {

/// Whether one part of a range is a page, or a first and a last page in this order. Pages are
/// counted from one.
pub open spec fn valid_part(part: Seq<char>) -> bool {
    let p = trimmed(part);
    if p.contains('-') {
        let ends = pieces(p, '-');
        if ends.len() == 2 {
            match (number_u32(trimmed(ends[0])), number_u32(trimmed(ends[1]))) {
                (Some(first), Some(last)) => 1 <= first && first <= last,
                _ => false,
            }
        } else {
            false
        }
    } else {
        match number_u32(p) {
            Some(page) => page >= 1,
            None => false,
        }
    }
}

/// Whether a text is a range of pages: parts between commas, at least one.
pub open spec fn valid_range(input: Seq<char>) -> bool {
    let parts = pieces(trimmed(input), ',');
    forall|i: int| 0 <= i < parts.len() ==> valid_part(#[trigger] parts[i])
}

/// Whether one part of a range is a page, or a first and a last page in this order.
fn validate_part(part: &str) -> (r: bool)
    ensures
        r == valid_part(part@),
{
    let p = trim(part);
    if contains_char(p.as_str(), '-') {
        let ends = split(p.as_str(), '-');
        proof {
            assert(views(ends@).len() == ends@.len());
        }
        if ends.len() != 2 {
            return false;
        }
        let first = trim(ends[0].as_str());
        let last = trim(ends[1].as_str());
        proof {
            assert(views(ends@)[0] == ends@[0]@);
            assert(views(ends@)[1] == ends@[1]@);
        }
        match (parse_u32(first.as_str()), parse_u32(last.as_str())) {
            (Some(first), Some(last)) => 1 <= first && first <= last,
            _ => false,
        }
    } else {
        match parse_u32(p.as_str()) {
            Some(page) => page >= 1,
            None => false,
        }
    }
}

/// A text without characters is no page.
proof fn lemma_empty_range_is_invalid(input: Seq<char>)
    requires
        trimmed(input).len() == 0,
    ensures
        !valid_range(input),
{
    let t = trimmed(input);
    lemma_no_first_index(t, ',');
    let parts = pieces(t, ',');
    assert(parts[0] == t);
    assert(trimmed(t) =~= t);
    assert(!valid_part(parts[0]));
}

/// Whether a text is a range of pages.
pub fn validate_page_range(input: &str) -> (r: bool)
    ensures
        r == valid_range(input@),
{
    let t = trim(input);
    if t.as_str().is_empty() {
        proof {
            lemma_empty_range_is_invalid(input@);
        }
        return false;
    }
    let parts = split(t.as_str(), ',');
    let ghost all = pieces(trimmed(input@), ',');
    let mut i: usize = 0;
    while i < parts.len()
        invariant
            i <= parts@.len(),
            all == pieces(trimmed(input@), ','),
            views(parts@) == all,
            forall|j: int| 0 <= j < i ==> valid_part(#[trigger] all[j]),
        decreases parts@.len() - i,
    {
        let valid = validate_part(parts[i].as_str());
        assert(all[i as int] == parts@[i as int]@);
        if !valid {
            return false;
        }
        i = i + 1;
    }
    true
}

/// The number that a text spells, or another number where it spells none.
pub open spec fn number_or(s: Seq<char>, otherwise: u32) -> u32 {
    match number_u32(s) {
        Some(n) => n,
        None => otherwise,
    }
}

/// `n` less one, but not below zero.
pub open spec fn one_less(n: u32) -> nat {
    if n > 0 {
        (n - 1) as nat
    } else {
        0
    }
}

/// A part of a range with pages counted from zero. What spells no number stands for the first page.
pub open spec fn zero_based_part(part: Seq<char>) -> Seq<char> {
    let p = trimmed(part);
    match split_first(p, '-') {
        Some((first, last)) => decimal(one_less(number_or(trimmed(first), 1))) + "-"@ + decimal(
            one_less(number_or(trimmed(last), 1)),
        ),
        None => decimal(one_less(number_or(p, 1))),
    }
}

/// A range with pages counted from zero.
pub open spec fn zero_based(input: Seq<char>) -> Seq<char> {
    joined(pieces(input, ',').map_values(|part: Seq<char>| zero_based_part(part)), ","@)
}

/// A part of a range with pages counted from one. What spells no number stands for the first page.
pub open spec fn one_based_part(part: Seq<char>) -> Seq<char> {
    let p = trimmed(part);
    match split_first(p, '-') {
        Some((first, last)) => decimal((number_or(trimmed(first), 0) + 1) as nat) + "-"@ + decimal(
            (number_or(trimmed(last), 0) + 1) as nat,
        ),
        None => decimal((number_or(p, 0) + 1) as nat),
    }
}

/// A range with pages counted from one.
pub open spec fn one_based(input: Seq<char>) -> Seq<char> {
    joined(pieces(input, ',').map_values(|part: Seq<char>| one_based_part(part)), ","@)
}

/// Whether every page of a part has a successor.
pub open spec fn part_has_successors(part: Seq<char>) -> bool {
    let p = trimmed(part);
    match split_first(p, '-') {
        Some((first, last)) => number_or(trimmed(first), 0) < u32::MAX && number_or(
            trimmed(last),
            0,
        ) < u32::MAX,
        None => number_or(p, 0) < u32::MAX,
    }
}

/// Whether every page of a range has a successor.
pub open spec fn has_successors(input: Seq<char>) -> bool {
    let parts = pieces(input, ',');
    forall|i: int| 0 <= i < parts.len() ==> part_has_successors(#[trigger] parts[i])
}

/// A first and a last number.
fn span(first: u32, last: u32) -> (r: String)
    ensures
        r@ == decimal(first as nat) + "-"@ + decimal(last as nat),
{
    let mut r = to_decimal(first as u64);
    r.append("-");
    let end = to_decimal(last as u64);
    r.append(end.as_str());
    r
}

/// The number that a text spells, or another number where it spells none.
fn parse_or(s: &str, otherwise: u32) -> (r: u32)
    ensures
        r == number_or(s@, otherwise),
{
    match parse_u32(s) {
        Some(n) => n,
        None => otherwise,
    }
}

/// A part of a range with pages counted from zero.
fn part_to_zero_based(part: &str) -> (r: String)
    ensures
        r@ == zero_based_part(part@),
{
    let p = trim(part);
    match split_once(p.as_str(), '-') {
        Some((first, last)) => {
            let first_page = parse_or(trim(first.as_str()).as_str(), 1);
            let last_page = parse_or(trim(last.as_str()).as_str(), 1);
            span(first_page.saturating_sub(1), last_page.saturating_sub(1))
        },
        None => to_decimal(parse_or(p.as_str(), 1).saturating_sub(1) as u64),
    }
}

/// A part of a range with pages counted from one.
fn part_to_one_based(part: &str) -> (r: String)
    requires
        part_has_successors(part@),
    ensures
        r@ == one_based_part(part@),
{
    let p = trim(part);
    match split_once(p.as_str(), '-') {
        Some((first, last)) => {
            let first_page = parse_or(trim(first.as_str()).as_str(), 0);
            let last_page = parse_or(trim(last.as_str()).as_str(), 0);
            span(first_page + 1, last_page + 1)
        },
        None => to_decimal((parse_or(p.as_str(), 0) + 1) as u64),
    }
}

/// A range with pages counted from zero.
pub fn page_range_to_zero_based(input: &str) -> (r: String)
    ensures
        r@ == zero_based(input@),
{
    let parts = split(input, ',');
    let mut out: Vec<String> = Vec::new();
    let ghost all = pieces(input@, ',').map_values(|part: Seq<char>| zero_based_part(part));
    let mut i: usize = 0;
    while i < parts.len()
        invariant
            i <= parts@.len(),
            views(parts@) == pieces(input@, ','),
            all == pieces(input@, ',').map_values(|part: Seq<char>| zero_based_part(part)),
            views(out@) == all.take(i as int),
        decreases parts@.len() - i,
    {
        let part = part_to_zero_based(parts[i].as_str());
        proof {
            assert(views(parts@)[i as int] == parts@[i as int]@);
            assert(views(out@.push(part)) =~= views(out@).push(part@));
            assert(all.take(i + 1) =~= all.take(i as int).push(part@));
        }
        out.push(part);
        i = i + 1;
    }
    proof {
        assert(all.take(all.len() as int) =~= all);
    }
    join(&out, ",")
}

/// A range with pages counted from one.
pub fn page_range_to_one_based(input: &str) -> (r: String)
    requires
        has_successors(input@),
    ensures
        r@ == one_based(input@),
{
    let parts = split(input, ',');
    let mut out: Vec<String> = Vec::new();
    let ghost all = pieces(input@, ',').map_values(|part: Seq<char>| one_based_part(part));
    let mut i: usize = 0;
    while i < parts.len()
        invariant
            i <= parts@.len(),
            has_successors(input@),
            views(parts@) == pieces(input@, ','),
            all == pieces(input@, ',').map_values(|part: Seq<char>| one_based_part(part)),
            views(out@) == all.take(i as int),
        decreases parts@.len() - i,
    {
        proof {
            assert(views(parts@)[i as int] == parts@[i as int]@);
            assert(part_has_successors(pieces(input@, ',')[i as int]));
        }
        let part = part_to_one_based(parts[i].as_str());
        proof {
            assert(views(out@.push(part)) =~= views(out@).push(part@));
            assert(all.take(i + 1) =~= all.take(i as int).push(part@));
        }
        out.push(part);
        i = i + 1;
    }
    proof {
        assert(all.take(all.len() as int) =~= all);
    }
    join(&out, ",")
}

/// Whether every page of a range has a successor, so that the range can be counted from one.
pub fn page_range_has_successors(input: &str) -> (r: bool)
    ensures
        r == has_successors(input@),
{
    let parts = split(input, ',');
    let ghost all = pieces(input@, ',');
    let mut i: usize = 0;
    while i < parts.len()
        invariant
            i <= parts@.len(),
            all == pieces(input@, ','),
            views(parts@) == all,
            forall|j: int| 0 <= j < i ==> part_has_successors(#[trigger] all[j]),
        decreases parts@.len() - i,
    {
        let p = trim(parts[i].as_str());
        let fits: bool = match split_once(p.as_str(), '-') {
            Some((first, last)) => parse_or(trim(first.as_str()).as_str(), 0) < u32::MAX && parse_or(
                trim(last.as_str()).as_str(),
                0,
            ) < u32::MAX,
            None => parse_or(p.as_str(), 0) < u32::MAX,
        };
        assert(all[i as int] == parts@[i as int]@);
        if !fits {
            return false;
        }
        i = i + 1;
    }
    true
}

/// A valid part written without white space, plus signs and leading zeros.
pub open spec fn canonical_part(part: Seq<char>) -> Seq<char> {
    let p = trimmed(part);
    match split_first(p, '-') {
        Some((first, last)) => decimal(number_or(trimmed(first), 0) as nat) + "-"@ + decimal(
            number_or(trimmed(last), 0) as nat,
        ),
        None => decimal(number_or(p, 0) as nat),
    }
}

/// A valid range written without white space, plus signs and leading zeros.
pub open spec fn canonical_range(input: Seq<char>) -> Seq<char> {
    joined(
        pieces(trimmed(input), ',').map_values(|part: Seq<char>| canonical_part(part)),
        ","@,
    )
}

/// A valid part that holds a hyphen falls into a first and a last page at that hyphen.
proof fn lemma_valid_part_split(part: Seq<char>)
    requires
        valid_part(part),
    ensures
        match split_first(trimmed(part), '-') {
            Some((first, last)) => {
                &&& number_u32(trimmed(first)) is Some
                &&& number_u32(trimmed(last)) is Some
                &&& 1 <= number_or(trimmed(first), 0) <= number_or(trimmed(last), 0)
            },
            None => number_u32(trimmed(part)) is Some && number_or(trimmed(part), 0) >= 1,
        },
{
    let p = trimmed(part);
    if p.contains('-') {
        let ends = pieces(p, '-');
        reveal_with_fuel(pieces, 3);
        match split_first(p, '-') {
            Some((first, last)) => {
                assert(ends == seq![first] + pieces(last, '-'));
                assert(ends[0] == first);
                assert(pieces(last, '-').len() == 1);
                assert(pieces(last, '-')[0] == last);
                assert(ends[1] == last);
            },
            None => {
                assert(ends.len() == 1);
            },
        }
    } else {
        lemma_no_first_index(p, '-');
    }
}

/// A number in decimal is read back, white space or not.
proof fn lemma_decimal_part(n: u32)
    ensures
        trimmed(decimal(n as nat)) == decimal(n as nat),
        number_u32(decimal(n as nat)) == Some(n),
        !decimal(n as nat).contains('-'),
        !decimal(n as nat).contains(','),
        split_first(decimal(n as nat), '-') is None,
{
    lemma_decimal_value(n as nat);
    lemma_digits_are_plain(decimal(n as nat));
    law_decimal_reads_back(n);
    lemma_no_first_index(decimal(n as nat), '-');
}

/// A first and a last number in decimal are read back.
proof fn lemma_span_part(first: u32, last: u32)
    ensures
        ({
            let s = decimal(first as nat) + "-"@ + decimal(last as nat);
            &&& trimmed(s) == s
            &&& !s.contains(',')
            &&& split_first(s, '-') == Some((decimal(first as nat), decimal(last as nat)))
        }),
{
    reveal_strlit("-");
    let a = decimal(first as nat);
    let b = decimal(last as nat);
    let s = a + "-"@ + b;
    lemma_decimal_part(first);
    lemma_decimal_part(last);
    lemma_decimal_value(first as nat);
    lemma_decimal_value(last as nat);
    assert("-"@ =~= seq!['-']);
    lemma_first_index_concat(a, '-', b);
    assert(s[0] == a[0] && s.last() == b.last());
    assert(is_digit(a[0]) && is_digit(b[b.len() - 1]));
    if s.contains(',') {
        let i = choose|i: int| 0 <= i < s.len() && s[i] == ',';
        if i < a.len() {
            assert(a.contains(a[i]));
        } else if i > a.len() {
            assert(b.contains(b[i - a.len() - 1]));
        }
    }
}

/// The page that a text spells; the first one where it spells none.
pub open spec fn page_of(s: Seq<char>) -> nat {
    if number_or(s, 1) > 1 {
        number_or(s, 1) as nat
    } else {
        1
    }
}

/// A part of a range as its pages, the first page in the place of what is none.
pub open spec fn shown_part(part: Seq<char>) -> Seq<char> {
    let p = trimmed(part);
    match split_first(p, '-') {
        Some((first, last)) => decimal(page_of(trimmed(first))) + "-"@ + decimal(
            page_of(trimmed(last)),
        ),
        None => decimal(page_of(p)),
    }
}

/// A range as its pages, the first page in the place of what is none.
pub open spec fn shown_range(input: Seq<char>) -> Seq<char> {
    joined(pieces(input, ',').map_values(|part: Seq<char>| shown_part(part)), ","@)
}

/// A part that is counted from zero has successors, and is as before when it is counted from one.
proof fn lemma_part_from_zero(part: Seq<char>)
    ensures
        one_based_part(zero_based_part(part)) == shown_part(part),
        canonical_part(zero_based_part(part)) == zero_based_part(part),
        part_has_successors(zero_based_part(part)),
        !zero_based_part(part).contains(','),
        valid_part(part) ==> shown_part(part) == canonical_part(part),
{
    let p = trimmed(part);
    match split_first(p, '-') {
        Some((first, last)) => {
            let a = one_less(number_or(trimmed(first), 1)) as u32;
            let b = one_less(number_or(trimmed(last), 1)) as u32;
            lemma_span_part(a, b);
            lemma_decimal_part(a);
            lemma_decimal_part(b);
        },
        None => {
            lemma_decimal_part(one_less(number_or(p, 1)) as u32);
        },
    }
    if valid_part(part) {
        lemma_valid_part_split(part);
    }
}

/// A part that is counted from one is as before when it is counted from zero, in canonical form.
proof fn lemma_part_from_one(part: Seq<char>)
    requires
        part_has_successors(part),
    ensures
        zero_based_part(one_based_part(part)) == canonical_part(part),
        !one_based_part(part).contains(','),
{
    let p = trimmed(part);
    match split_first(p, '-') {
        Some((first, last)) => {
            let a = (number_or(trimmed(first), 0) + 1) as u32;
            let b = (number_or(trimmed(last), 0) + 1) as u32;
            lemma_span_part(a, b);
            lemma_decimal_part(a);
            lemma_decimal_part(b);
        },
        None => {
            lemma_decimal_part((number_or(p, 0) + 1) as u32);
        },
    }
}

/// White space around a range does not change its canonical form.
proof fn lemma_canonical_trimmed(input: Seq<char>)
    ensures
        canonical_range(input) == joined(
            pieces(input, ',').map_values(|part: Seq<char>| canonical_part(part)),
            ","@,
        ),
        valid_range(input) ==> forall|i: int|
            0 <= i < pieces(input, ',').len() ==> valid_part(#[trigger] pieces(input, ',')[i]),
{
    lemma_pieces_trimmed(input, ',');
    let raw = pieces(input, ',');
    let inner = pieces(trimmed(input), ',');
    let from_raw = raw.map_values(|part: Seq<char>| canonical_part(part));
    let from_inner = inner.map_values(|part: Seq<char>| canonical_part(part));
    assert forall|i: int| 0 <= i < raw.len() implies #[trigger] from_raw[i] == from_inner[i] by {
        assert(trimmed(raw[i]) == trimmed(inner[i]));
    }
    assert(from_raw =~= from_inner);
    if valid_range(input) {
        assert forall|i: int| 0 <= i < raw.len() implies valid_part(#[trigger] raw[i]) by {
            assert(trimmed(raw[i]) == trimmed(inner[i]));
            assert(valid_part(inner[i]));
        }
    }
}

/// A range that is handed out with pages counted from zero can come back. It is shown with the same
/// pages then, a valid one in canonical form, and is handed out again as it was.
pub proof fn law_page_range_round_trip(input: Seq<char>)
    ensures
        has_successors(zero_based(input)),
        one_based(zero_based(input)) == shown_range(input),
        valid_range(input) ==> one_based(zero_based(input)) == canonical_range(input),
        zero_based(one_based(zero_based(input))) == zero_based(input),
{
    reveal_strlit(",");
    assert(","@ =~= seq![',']);
    let parts = pieces(input, ',');
    let zero = parts.map_values(|part: Seq<char>| zero_based_part(part));
    assert(parts.len() > 0);
    assert forall|i: int| 0 <= i < zero.len() implies !(#[trigger] zero[i]).contains(',') by {
        lemma_part_from_zero(parts[i]);
    }
    law_join_pieces(zero, ',');
    assert forall|i: int| 0 <= i < zero.len() implies part_has_successors(#[trigger] zero[i]) by {
        lemma_part_from_zero(parts[i]);
    }
    let back = zero.map_values(|part: Seq<char>| one_based_part(part));
    let shown = parts.map_values(|part: Seq<char>| shown_part(part));
    assert forall|i: int| 0 <= i < back.len() implies #[trigger] back[i] == shown[i] by {
        lemma_part_from_zero(parts[i]);
    }
    assert(back =~= shown);
    lemma_canonical_trimmed(input);
    if valid_range(input) {
        let canonical = parts.map_values(|part: Seq<char>| canonical_part(part));
        assert forall|i: int| 0 <= i < shown.len() implies #[trigger] shown[i] == canonical[i] by {
            assert(valid_part(parts[i]));
            lemma_part_from_zero(parts[i]);
        }
        assert(shown =~= canonical);
    }
    law_page_range_returns(zero_based(input));
    lemma_canonical_trimmed(zero_based(input));
    let same = zero.map_values(|part: Seq<char>| canonical_part(part));
    assert forall|i: int| 0 <= i < same.len() implies #[trigger] same[i] == zero[i] by {
        lemma_part_from_zero(parts[i]);
    }
    assert(same =~= zero);
}

/// A range with pages counted from zero that is shown and handed out again is the same in canonical
/// form, and so the same where it has that form, unless a page has no successor.
pub proof fn law_page_range_returns(input: Seq<char>)
    requires
        has_successors(input),
    ensures
        zero_based(one_based(input)) == canonical_range(input),
        canonical_range(input) == input ==> zero_based(one_based(input)) == input,
{
    reveal_strlit(",");
    assert(","@ =~= seq![',']);
    let parts = pieces(input, ',');
    let one = parts.map_values(|part: Seq<char>| one_based_part(part));
    assert(parts.len() > 0);
    assert forall|i: int| 0 <= i < one.len() implies !(#[trigger] one[i]).contains(',') by {
        assert(part_has_successors(parts[i]));
        lemma_part_from_one(parts[i]);
    }
    law_join_pieces(one, ',');
    let back = one.map_values(|part: Seq<char>| zero_based_part(part));
    let canonical = parts.map_values(|part: Seq<char>| canonical_part(part));
    assert forall|i: int| 0 <= i < back.len() implies #[trigger] back[i] == canonical[i] by {
        assert(part_has_successors(parts[i]));
        lemma_part_from_one(parts[i]);
    }
    assert(back =~= canonical);
    lemma_canonical_trimmed(input);
}

/// A page is a valid part where it is not the zeroth, and a first and a last page are where the last is
/// not before the first; counted from zero each page is one less, and counted from one again it is the
/// same.
pub proof fn law_pages_are_counted_from_one(first: u32, last: u32)
    ensures
        ({
            let page = decimal(first as nat);
            let span = decimal(first as nat) + "-"@ + decimal(last as nat);
            &&& valid_part(page) <==> first >= 1
            &&& valid_part(span) <==> 1 <= first <= last
            &&& first >= 1 ==> zero_based_part(page) == decimal((first - 1) as nat)
            &&& first >= 1 && last >= 1 ==> zero_based_part(span) == decimal((first - 1) as nat)
                + "-"@ + decimal((last - 1) as nat)
            &&& one_based_part(page) == decimal((first + 1) as nat)
            &&& one_based_part(span) == decimal((first + 1) as nat) + "-"@ + decimal(
                (last + 1) as nat,
            )
        }),
{
    let (a, b) = (decimal(first as nat), decimal(last as nat));
    let span = a + "-"@ + b;
    lemma_decimal_part(first);
    lemma_decimal_part(last);
    lemma_span_part(first, last);
    reveal_strlit("-");
    assert("-"@ =~= seq!['-']);
    assert(span[a.len() as int] == '-');
    assert(span.contains('-'));
    lemma_first_index_concat(a, '-', b);
    lemma_no_first_index(b, '-');
    assert(span.take(a.len() as int) =~= a);
    assert(span.skip(a.len() as int + 1) =~= b);
    reveal_with_fuel(pieces, 2);
    assert(pieces(b, '-') == seq![b]);
    assert(pieces(span, '-') =~= seq![a, b]);
}

/// A text without a comma is a range where it is a valid part, white space around it aside; so a range of
/// one part is as valid as the part.
pub proof fn law_single_part_is_a_range(input: Seq<char>)
    requires
        !trimmed(input).contains(','),
    ensures
        valid_range(input) <==> valid_part(trimmed(input)),
{
    let p = trimmed(input);
    lemma_no_first_index(p, ',');
    assert(pieces(p, ',') == seq![p]);
    assert(pieces(p, ',')[0] == p);
}

} // verus!
