//! Strings as sequences of characters: splitting, trimming, numbers in decimal.

use vstd::prelude::*;

verus! {

/// `String::push` appends the given character to the end of the string.
pub assume_specification[ String::push ](string: &mut String, c: char)
    ensures
        final(string)@ == old(string)@.push(c),
;

/// The contents of a sequence of strings.
pub open spec fn views(strings: Seq<String>) -> Seq<Seq<char>> {
    strings.map_values(|s: String| s@)
}

/// The contents of an optional string.
pub open spec fn view_opt(string: Option<String>) -> Option<Seq<char>> {
    match string {
        Some(s) => Some(s@),
        None => None,
    }
}

/// The first value that is present in a sequence of optional values.
pub open spec fn first_some<T>(values: Seq<Option<T>>) -> Option<T>
    decreases values.len(),
{
    if values.len() == 0 {
        None
    } else if values[0] is Some {
        values[0]
    } else {
        first_some(values.drop_first())
    }
}

/// Whether `prefix` stands at the start of `s`.
pub open spec fn has_prefix(s: Seq<char>, prefix: Seq<char>) -> bool {
    prefix.len() <= s.len() && s.take(prefix.len() as int) == prefix
}

/// Whether `suffix` stands at the end of `s`.
pub open spec fn has_suffix(s: Seq<char>, suffix: Seq<char>) -> bool {
    suffix.len() <= s.len() && s.skip(s.len() - suffix.len()) == suffix
}

/// What follows `prefix` in `s`, if `s` starts with it.
pub open spec fn after_prefix(s: Seq<char>, prefix: Seq<char>) -> Option<Seq<char>> {
    if has_prefix(s, prefix) {
        Some(s.skip(prefix.len() as int))
    } else {
        None
    }
}

/// What precedes `suffix` in `s`, if `s` ends with it.
pub open spec fn before_suffix(s: Seq<char>, suffix: Seq<char>) -> Option<Seq<char>> {
    if has_suffix(s, suffix) {
        Some(s.take(s.len() - suffix.len()))
    } else {
        None
    }
}

/// The position of the first `c` in `s`, or the length of `s` if there is none.
pub open spec fn first_index(s: Seq<char>, c: char) -> nat
    decreases s.len(),
{
    if s.len() == 0 || s[0] == c {
        0
    } else {
        1 + first_index(s.drop_first(), c)
    }
}

/// The two sides of the first `c` in `s`.
pub open spec fn split_first(s: Seq<char>, c: char) -> Option<(Seq<char>, Seq<char>)> {
    let i = first_index(s, c) as int;
    if i < s.len() {
        Some((s.take(i), s.skip(i + 1)))
    } else {
        None
    }
}

/// The two sides of the last `c` in `s`.
pub open spec fn split_last(s: Seq<char>, c: char) -> Option<(Seq<char>, Seq<char>)>
    decreases s.len(),
{
    if s.len() == 0 {
        None
    } else if s.last() == c {
        Some((s.drop_last(), Seq::empty()))
    } else {
        match split_last(s.drop_last(), c) {
            Some((before, after)) => Some((before, after.push(s.last()))),
            None => None,
        }
    }
}

/// The pieces of `s` between the occurrences of `c`: always at least one.
pub open spec fn pieces(s: Seq<char>, c: char) -> Seq<Seq<char>>
    decreases s.len(),
{
    let i = first_index(s, c) as int;
    if i < s.len() {
        seq![s.take(i)] + pieces(s.skip(i + 1), c)
    } else {
        seq![s]
    }
}

/// A line that was ended by a line feed, without the carriage return before it.
pub open spec fn without_cr(line: Seq<char>) -> Seq<char> {
    if line.len() > 0 && line.last() == '\r' {
        line.drop_last()
    } else {
        line
    }
}

/// The lines of `s`. Each ends with a line feed, which may follow a carriage return;
/// what stands behind the last line feed is a line if it is not empty.
pub open spec fn lines(s: Seq<char>) -> Seq<Seq<char>> {
    let all = pieces(s, '\n');
    let ended = all.drop_last().map_values(|line: Seq<char>| without_cr(line));
    if all.last().len() == 0 {
        ended
    } else {
        ended.push(all.last())
    }
}

/// The characters with the Unicode property White_Space.
pub open spec fn is_white_space(c: char) -> bool {
    let n = c as u32;
    ||| 0x9 <= n <= 0xd
    ||| n == 0x20
    ||| n == 0x85
    ||| n == 0xa0
    ||| n == 0x1680
    ||| 0x2000 <= n <= 0x200a
    ||| n == 0x2028
    ||| n == 0x2029
    ||| n == 0x202f
    ||| n == 0x205f
    ||| n == 0x3000
}

/// `s` without white space at its start.
pub open spec fn trim_start(s: Seq<char>) -> Seq<char>
    decreases s.len(),
{
    if s.len() > 0 && is_white_space(s[0]) {
        trim_start(s.drop_first())
    } else {
        s
    }
}

/// `s` without white space at its end.
pub open spec fn trim_end(s: Seq<char>) -> Seq<char>
    decreases s.len(),
{
    if s.len() > 0 && is_white_space(s.last()) {
        trim_end(s.drop_last())
    } else {
        s
    }
}

/// `s` without white space at either end.
pub open spec fn trimmed(s: Seq<char>) -> Seq<char> {
    trim_end(trim_start(s))
}

/// Whether `c` is one of the ten digits.
pub open spec fn is_digit(c: char) -> bool {
    '0' <= c <= '9'
}

/// The number that a digit stands for.
pub open spec fn digit_value(c: char) -> nat {
    (c as u32 - '0' as u32) as nat
}

/// The digit that stands for a number below ten.
pub open spec fn digit(n: nat) -> char {
    if n == 0 { '0' } else if n == 1 { '1' } else if n == 2 { '2' } else if n == 3 { '3' }
    else if n == 4 { '4' } else if n == 5 { '5' } else if n == 6 { '6' } else if n == 7 { '7' }
    else if n == 8 { '8' } else { '9' }
}

/// The number that a sequence of digits stands for.
pub open spec fn digits_value(s: Seq<char>) -> nat
    decreases s.len(),
{
    if s.len() == 0 {
        0
    } else {
        digits_value(s.drop_last()) * 10 + digit_value(s.last())
    }
}

/// Whether `s` is made of digits alone.
pub open spec fn all_digits(s: Seq<char>) -> bool {
    forall|i: int| 0 <= i < s.len() ==> is_digit(#[trigger] s[i])
}

/// What follows an optional plus sign.
pub open spec fn without_plus(s: Seq<char>) -> Seq<char> {
    if s.len() > 0 && s[0] == '+' {
        s.drop_first()
    } else {
        s
    }
}

/// The unsigned number that `s` spells: digits, at least one, after an optional plus sign.
pub open spec fn number(s: Seq<char>) -> Option<nat> {
    let digits = without_plus(s);
    if digits.len() > 0 && all_digits(digits) {
        Some(digits_value(digits))
    } else {
        None
    }
}

/// The 32-bit unsigned number that `s` spells.
pub open spec fn number_u32(s: Seq<char>) -> Option<u32> {
    match number(s) {
        Some(n) => if n <= u32::MAX {
            Some(n as u32)
        } else {
            None
        },
        None => None,
    }
}

/// `n` in decimal, without leading zeros.
pub open spec fn decimal(n: nat) -> Seq<char>
    decreases n,
{
    if n < 10 {
        seq![digit(n)]
    } else {
        decimal(n / 10).push(digit(n % 10))
    }
}

/// `items` one after the other with `separator` between them.
pub open spec fn joined(items: Seq<Seq<char>>, separator: Seq<char>) -> Seq<char>
    decreases items.len(),
{
    if items.len() == 0 {
        Seq::empty()
    } else if items.len() == 1 {
        items[0]
    } else {
        joined(items.drop_last(), separator) + separator + items.last()
    }
}

/// The lower-case form of a letter from `A` to `Z`; any other character as it is.
pub open spec fn ascii_lower(c: char) -> char {
    if 'A' <= c <= 'Z' {
        (c as u32 + 32) as char
    } else {
        c
    }
}

/// Whether two strings differ at most in the case of the letters from `A` to `Z`.
pub open spec fn eq_ignore_ascii_case(a: Seq<char>, b: Seq<char>) -> bool {
    a.map_values(|c: char| ascii_lower(c)) == b.map_values(|c: char| ascii_lower(c))
}


/// The characters of a string, one by one.
pub fn chars_of(s: &str) -> (chars: Vec<char>)
    ensures
        chars@ == s@,
{
    let mut chars: Vec<char> = Vec::new();
    for c in it: s.chars()
        invariant
            it.seq() == s@,
            chars@ == s@.take(it.index() as int),
    {
        proof {
            assert(s@.take(it.index() + 1) =~= s@.take(it.index() as int).push(c));
        }
        chars.push(c);
    }
    assert(s@.take(s@.len() as int) =~= s@);
    chars
}

/// The string that holds the characters from position `from` up to position `to`.
pub fn string_between(chars: &Vec<char>, from: usize, to: usize) -> (s: String)
    requires
        from <= to <= chars@.len(),
    ensures
        s@ == chars@.subrange(from as int, to as int),
{
    let mut s = String::new();
    let mut i: usize = from;
    while i < to
        invariant
            from <= i <= to <= chars@.len(),
            s@ == chars@.subrange(from as int, i as int),
        decreases to - i,
    {
        proof {
            assert(chars@.subrange(from as int, i + 1) =~= chars@.subrange(
                from as int,
                i as int,
            ).push(chars@[i as int]));
        }
        s.push(chars[i]);
        i = i + 1;
    }
    s
}

/// Whether two strings hold the same characters.
pub fn str_eq(a: &str, b: &str) -> (r: bool)
    ensures
        r == (a@ == b@),
{
    let left: String = a.to_owned();
    let right: String = b.to_owned();
    left == right
}

/// Whether the characters of `part` stand in `chars` from position `at` on.
fn stands_at(chars: &Vec<char>, part: &Vec<char>, at: usize) -> (r: bool)
    requires
        at + part@.len() <= chars@.len(),
    ensures
        r == (chars@.subrange(at as int, at + part@.len()) == part@),
{
    let n: usize = chars.len();
    let mut i: usize = 0;
    while i < part.len()
        invariant
            i <= part@.len(),
            n == chars@.len(),
            at + part@.len() <= n,
            forall|j: int| 0 <= j < i ==> chars@[at + j] == part@[j],
        decreases part@.len() - i,
    {
        if chars[at + i] != part[i] {
            proof {
                let sub = chars@.subrange(at as int, at + part@.len());
                assert(sub[i as int] != part@[i as int]);
            }
            return false;
        }
        i = i + 1;
    }
    proof {
        assert(chars@.subrange(at as int, at + part@.len()) =~= part@);
    }
    true
}

/// What follows `prefix` in `s`, if `s` starts with it.
pub fn strip_prefix(s: &str, prefix: &str) -> (r: Option<String>)
    ensures
        view_opt(r) == after_prefix(s@, prefix@),
{
    let chars = chars_of(s);
    let part = chars_of(prefix);
    if part.len() <= chars.len() && stands_at(&chars, &part, 0) {
        proof {
            assert(s@.take(prefix@.len() as int) =~= s@.subrange(0, prefix@.len() as int));
            assert(s@.skip(prefix@.len() as int) =~= s@.subrange(
                prefix@.len() as int,
                s@.len() as int,
            ));
        }
        Some(string_between(&chars, part.len(), chars.len()))
    } else {
        proof {
            if prefix@.len() <= s@.len() {
                assert(s@.take(prefix@.len() as int) =~= s@.subrange(0, prefix@.len() as int));
            }
        }
        None
    }
}

/// What precedes `suffix` in `s`, if `s` ends with it.
pub fn strip_suffix(s: &str, suffix: &str) -> (r: Option<String>)
    ensures
        view_opt(r) == before_suffix(s@, suffix@),
{
    let chars = chars_of(s);
    let part = chars_of(suffix);
    if part.len() > chars.len() {
        return None;
    }
    let at: usize = chars.len() - part.len();
    proof {
        assert(s@.skip(at as int) =~= s@.subrange(at as int, s@.len() as int));
        assert(s@.take(at as int) =~= s@.subrange(0, at as int));
    }
    if stands_at(&chars, &part, at) {
        Some(string_between(&chars, 0, at))
    } else {
        None
    }
}

/// Whether `s` starts with `prefix`.
pub fn starts_with(s: &str, prefix: &str) -> (r: bool)
    ensures
        r == has_prefix(s@, prefix@),
{
    strip_prefix(s, prefix).is_some()
}

/// A position is that of the first `c` where `c` stands there and nowhere before.
proof fn lemma_first_index(s: Seq<char>, c: char, i: int)
    requires
        0 <= i <= s.len(),
        forall|j: int| 0 <= j < i ==> s[j] != c,
        i < s.len() ==> s[i] == c,
    ensures
        first_index(s, c) == i,
    decreases s.len(),
{
    if i > 0 {
        assert(s[0] != c);
        assert forall|j: int| 0 <= j < i - 1 implies s.drop_first()[j] != c by {
            assert(s.drop_first()[j] == s[j + 1]);
        }
        lemma_first_index(s.drop_first(), c, i - 1);
    }
}

/// The two sides of the last `c` are those of a position after which no `c` follows.
proof fn lemma_split_last(s: Seq<char>, c: char, i: int)
    requires
        -1 <= i < s.len(),
        forall|j: int| i < j < s.len() ==> s[j] != c,
        i >= 0 ==> s[i] == c,
    ensures
        split_last(s, c) == if i >= 0 {
            Some((s.take(i), s.skip(i + 1)))
        } else {
            None
        },
    decreases s.len(),
{
    if s.len() > 0 {
        if i == s.len() - 1 {
            assert(s.take(i) =~= s.drop_last());
            assert(s.skip(i + 1) =~= Seq::<char>::empty());
        } else {
            lemma_split_last(s.drop_last(), c, i);
            if i >= 0 {
                assert(s.drop_last().take(i) =~= s.take(i));
                assert(s.drop_last().skip(i + 1).push(s.last()) =~= s.skip(i + 1));
            }
        }
    }
}

/// The two sides of the first `c` in `s`.
pub fn split_once(s: &str, c: char) -> (r: Option<(String, String)>)
    ensures
        match r {
            Some((before, after)) => split_first(s@, c) == Some((before@, after@)),
            None => split_first(s@, c) is None,
        },
{
    let chars = chars_of(s);
    let mut i: usize = 0;
    while i < chars.len()
        invariant
            i <= chars@.len(),
            chars@ == s@,
            forall|j: int| 0 <= j < i ==> s@[j] != c,
        decreases chars@.len() - i,
    {
        if chars[i] == c {
            proof {
                lemma_first_index(s@, c, i as int);
                assert(s@.take(i as int) =~= s@.subrange(0, i as int));
                assert(s@.skip(i + 1) =~= s@.subrange(i + 1, s@.len() as int));
            }
            return Some((string_between(&chars, 0, i), string_between(&chars, i + 1, chars.len())));
        }
        i = i + 1;
    }
    proof {
        lemma_first_index(s@, c, s@.len() as int);
    }
    None
}

/// The two sides of the last `c` in `s`.
pub fn rsplit_once(s: &str, c: char) -> (r: Option<(String, String)>)
    ensures
        match r {
            Some((before, after)) => split_last(s@, c) == Some((before@, after@)),
            None => split_last(s@, c) is None,
        },
{
    let chars = chars_of(s);
    let mut i: usize = chars.len();
    while i > 0
        invariant
            i <= chars@.len(),
            chars@ == s@,
            forall|j: int| i <= j < s@.len() ==> s@[j] != c,
        decreases i,
    {
        i = i - 1;
        if chars[i] == c {
            proof {
                lemma_split_last(s@, c, i as int);
                assert(s@.take(i as int) =~= s@.subrange(0, i as int));
                assert(s@.skip(i + 1) =~= s@.subrange(i + 1, s@.len() as int));
            }
            return Some((string_between(&chars, 0, i), string_between(&chars, i + 1, chars.len())));
        }
    }
    proof {
        lemma_split_last(s@, c, -1);
    }
    None
}

/// The pieces of `s` between the occurrences of `c`.
pub fn split(s: &str, c: char) -> (r: Vec<String>)
    ensures
        views(r@) == pieces(s@, c),
        r@.len() >= 1,
{
    let chars = chars_of(s);
    let mut r: Vec<String> = Vec::new();
    let mut start: usize = 0;
    let mut i: usize = 0;
    proof {
        assert(s@.skip(0) =~= s@);
        assert(views(r@) + pieces(s@, c) =~= pieces(s@, c));
    }
    while i < chars.len()
        invariant
            start <= i <= chars@.len(),
            chars@ == s@,
            forall|j: int| start <= j < i ==> s@[j] != c,
            views(r@) + pieces(s@.skip(start as int), c) == pieces(s@, c),
        decreases chars@.len() - i,
    {
        if chars[i] == c {
            let piece = string_between(&chars, start, i);
            proof {
                let rest = s@.skip(start as int);
                assert forall|j: int| 0 <= j < i - start implies rest[j] != c by {
                    assert(rest[j] == s@[start + j]);
                }
                lemma_first_index(rest, c, i - start);
                assert(rest.take(i - start) =~= piece@);
                assert(rest.skip(i - start + 1) =~= s@.skip(i + 1));
                assert(views(r@.push(piece)) =~= views(r@).push(piece@));
                assert(views(r@).push(piece@) + pieces(s@.skip(i + 1), c) =~= views(r@) + pieces(
                    rest,
                    c,
                ));
            }
            r.push(piece);
            start = i + 1;
        }
        i = i + 1;
    }
    let piece = string_between(&chars, start, chars.len());
    proof {
        let rest = s@.skip(start as int);
        assert(rest =~= piece@);
        assert forall|j: int| 0 <= j < rest.len() implies rest[j] != c by {
            assert(rest[j] == s@[start + j]);
        }
        lemma_first_index(rest, c, rest.len() as int);
        assert(views(r@.push(piece)) =~= views(r@) + pieces(rest, c));
    }
    r.push(piece);
    r
}

/// The lines of `s`.
pub fn split_lines(s: &str) -> (r: Vec<String>)
    ensures
        views(r@) == lines(s@),
{
    let all = split(s, '\n');
    let mut r: Vec<String> = Vec::new();
    let last: usize = all.len() - 1;
    let mut i: usize = 0;
    let ghost all_views = views(all@);
    let ghost ended = all_views.drop_last().map_values(|line: Seq<char>| without_cr(line));
    while i < last
        invariant
            i <= last,
            last == all@.len() - 1,
            all_views == views(all@),
            ended == all_views.drop_last().map_values(|line: Seq<char>| without_cr(line)),
            views(r@) == ended.take(i as int),
        decreases last - i,
    {
        let chars = chars_of(all[i].as_str());
        let n: usize = chars.len();
        let keep: usize = if n > 0 && chars[n - 1] == '\r' {
            n - 1
        } else {
            n
        };
        let line = string_between(&chars, 0, keep);
        proof {
            assert(all_views[i as int] == chars@);
            assert(line@ =~= without_cr(chars@));
            assert(views(r@.push(line)) =~= views(r@).push(line@));
            assert(ended.take(i + 1) =~= ended.take(i as int).push(line@));
        }
        r.push(line);
        i = i + 1;
    }
    proof {
        assert(ended.take(last as int) =~= ended);
        assert(all_views.last() == all@[last as int]@);
    }
    if !all[last].as_str().is_empty() {
        let line = all[last].clone();
        proof {
            assert(views(r@.push(line)) =~= views(r@).push(line@));
        }
        r.push(line);
    }
    r
}


/// The number that a digit stands for, if `c` is one.
fn value_of_digit(c: char) -> (r: Option<u32>)
    ensures
        r is Some <==> is_digit(c),
        r is Some ==> r->0 == digit_value(c) && r->0 < 10,
{
    if '0' <= c && c <= '9' {
        Some(c as u32 - '0' as u32)
    } else {
        None
    }
}

/// The value of the digits up to a position does not exceed the value of all of them.
proof fn lemma_digits_value_monotonic(s: Seq<char>, i: int)
    requires
        0 <= i <= s.len(),
    ensures
        digits_value(s.take(i)) <= digits_value(s),
    decreases s.len() - i,
{
    if i < s.len() {
        lemma_digits_value_monotonic(s, i + 1);
        assert(s.take(i + 1).drop_last() =~= s.take(i));
    } else {
        assert(s.take(i) =~= s);
    }
}

/// The 32-bit unsigned number that `s` spells, as `str::parse` reads one.
pub fn parse_u32(s: &str) -> (r: Option<u32>)
    ensures
        r == number_u32(s@),
{
    let chars = chars_of(s);
    let n: usize = chars.len();
    let start: usize = if n > 0 && chars[0] == '+' {
        1
    } else {
        0
    };
    let ghost digits = without_plus(s@);
    proof {
        assert(digits =~= s@.skip(start as int));
    }
    if start == n {
        return None;
    }
    let mut value: u32 = 0;
    let mut i: usize = start;
    proof {
        assert(digits.take(0) =~= Seq::<char>::empty());
    }
    while i < n
        invariant
            start <= i <= n,
            n == chars@.len(),
            digits == chars@.skip(start as int),
            number(s@) == if digits.len() > 0 && all_digits(digits) {
                Some(digits_value(digits))
            } else {
                None
            },
            forall|j: int| 0 <= j < i - start ==> is_digit(#[trigger] digits[j]),
            value == digits_value(digits.take(i - start)),
        decreases n - i,
    {
        let c: char = chars[i];
        assert(digits[i - start] == c);
        let d: u32 = match value_of_digit(c) {
            Some(d) => d,
            None => {
                return None;
            },
        };
        let wide: u64 = value as u64 * 10 + d as u64;
        proof {
            assert(digits.take(i - start + 1).drop_last() =~= digits.take(i - start));
            assert(wide == digits_value(digits.take(i - start + 1)));
            lemma_digits_value_monotonic(digits, i - start + 1);
        }
        if wide > 0xffff_ffff {
            return None;
        }
        value = wide as u32;
        i = i + 1;
    }
    proof {
        assert(digits.take(digits.len() as int) =~= digits);
    }
    Some(value)
}

/// The digit that stands for a number below ten.
fn digit_of(n: u64) -> (c: char)
    requires
        n < 10,
    ensures
        c == digit(n as nat),
{
    if n == 0 { '0' } else if n == 1 { '1' } else if n == 2 { '2' } else if n == 3 { '3' }
    else if n == 4 { '4' } else if n == 5 { '5' } else if n == 6 { '6' } else if n == 7 { '7' }
    else if n == 8 { '8' } else { '9' }
}

/// `n` in decimal.
pub fn to_decimal(n: u64) -> (s: String)
    ensures
        s@ == decimal(n as nat),
    decreases n,
{
    if n < 10 {
        let mut s = String::new();
        s.push(digit_of(n));
        proof {
            assert(s@ =~= seq![digit(n as nat)]);
        }
        s
    } else {
        let mut s = to_decimal(n / 10);
        s.push(digit_of(n % 10));
        s
    }
}

/// Whether `c` has the Unicode property White_Space.
pub fn white_space(c: char) -> (r: bool)
    ensures
        r == is_white_space(c),
{
    let n: u32 = c as u32;
    (0x9 <= n && n <= 0xd) || n == 0x20 || n == 0x85 || n == 0xa0 || n == 0x1680 || (0x2000 <= n
        && n <= 0x200a) || n == 0x2028 || n == 0x2029 || n == 0x202f || n == 0x205f || n == 0x3000
}

/// `s` without white space at either end.
pub fn trim(s: &str) -> (r: String)
    ensures
        r@ == trimmed(s@),
{
    let chars = chars_of(s);
    let mut from: usize = 0;
    proof {
        assert(s@.skip(0) =~= s@);
    }
    while from < chars.len() && white_space(chars[from])
        invariant
            from <= chars@.len(),
            chars@ == s@,
            trim_start(s@) == trim_start(s@.skip(from as int)),
        decreases chars@.len() - from,
    {
        proof {
            assert(s@.skip(from as int).drop_first() =~= s@.skip(from + 1));
        }
        from = from + 1;
    }
    let ghost rest = s@.skip(from as int);
    let mut to: usize = chars.len();
    proof {
        assert(s@.subrange(from as int, to as int) =~= rest);
    }
    while to > from && white_space(chars[to - 1])
        invariant
            from <= to <= chars@.len(),
            chars@ == s@,
            trim_end(rest) == trim_end(s@.subrange(from as int, to as int)),
        decreases to,
    {
        proof {
            assert(s@.subrange(from as int, to as int).drop_last() =~= s@.subrange(
                from as int,
                to - 1,
            ));
        }
        to = to - 1;
    }
    string_between(&chars, from, to)
}

/// `items` one after the other with `separator` between them.
pub fn join(items: &Vec<String>, separator: &str) -> (r: String)
    ensures
        r@ == joined(views(items@), separator@),
{
    let mut r = String::new();
    let mut i: usize = 0;
    let ghost all = views(items@);
    proof {
        assert(all.take(0) =~= Seq::<Seq<char>>::empty());
    }
    while i < items.len()
        invariant
            i <= items@.len(),
            all == views(items@),
            r@ == joined(all.take(i as int), separator@),
        decreases items@.len() - i,
    {
        proof {
            assert(all.take(i + 1).drop_last() =~= all.take(i as int));
            assert(all.take(i + 1).last() == items@[i as int]@);
        }
        if i > 0 {
            r.append(separator);
        }
        r.append(items[i].as_str());
        proof {
            if i == 0 {
                assert(r@ =~= items@[0]@);
            }
        }
        i = i + 1;
    }
    proof {
        assert(all.take(all.len() as int) =~= all);
    }
    r
}

/// `first` followed by `second`.
pub fn concat(first: &str, second: &str) -> (r: String)
    ensures
        r@ == first@ + second@,
{
    let mut r: String = first.to_owned();
    r.append(second);
    r
}

/// The lower-case form of a letter from `A` to `Z`; any other character as it is.
fn lower(c: char) -> (r: char)
    ensures
        r == ascii_lower(c),
{
    if 'A' <= c && c <= 'Z' {
        (c as u8 + 32) as char
    } else {
        c
    }
}

/// Whether two strings differ at most in the case of the letters from `A` to `Z`.
pub fn str_eq_ignore_ascii_case(a: &str, b: &str) -> (r: bool)
    ensures
        r == eq_ignore_ascii_case(a@, b@),
{
    let left = chars_of(a);
    let right = chars_of(b);
    let ghost lower_left = a@.map_values(|c: char| ascii_lower(c));
    let ghost lower_right = b@.map_values(|c: char| ascii_lower(c));
    if left.len() != right.len() {
        assert(lower_left.len() != lower_right.len());
        return false;
    }
    let mut i: usize = 0;
    while i < left.len()
        invariant
            i <= left@.len(),
            left@.len() == right@.len(),
            left@ == a@,
            right@ == b@,
            lower_left == a@.map_values(|c: char| ascii_lower(c)),
            lower_right == b@.map_values(|c: char| ascii_lower(c)),
            forall|j: int| 0 <= j < i ==> lower_left[j] == lower_right[j],
        decreases left@.len() - i,
    {
        if lower(left[i]) != lower(right[i]) {
            assert(lower_left[i as int] != lower_right[i as int]);
            return false;
        }
        i = i + 1;
    }
    assert(lower_left =~= lower_right);
    true
}

/// A number in decimal holds digits alone, and they stand for that number.
pub proof fn lemma_decimal_value(n: nat)
    ensures
        decimal(n).len() > 0,
        all_digits(decimal(n)),
        digits_value(decimal(n)) == n,
    decreases n,
{
    reveal_with_fuel(digits_value, 2);
    if n >= 10 {
        lemma_decimal_value(n / 10);
        let last = digit(n % 10);
        assert(decimal(n).drop_last() =~= decimal(n / 10));
        assert(is_digit(last) && digit_value(last) == n % 10);
    } else {
        assert(decimal(n).drop_last() =~= Seq::<char>::empty());
    }
}

/// What is written in decimal is read back as the same number.
pub proof fn law_decimal_reads_back(n: u32)
    ensures
        number_u32(decimal(n as nat)) == Some(n),
{
    lemma_decimal_value(n as nat);
    assert(is_digit(decimal(n as nat)[0]));
    assert(without_plus(decimal(n as nat)) == decimal(n as nat));
}

/// The pieces of a string with the separator put back between them are the string.
pub proof fn law_pieces_join(s: Seq<char>, c: char)
    ensures
        joined(pieces(s, c), seq![c]) == s,
    decreases s.len(),
{
    let i = first_index(s, c) as int;
    lemma_first_index_bound(s, c);
    if i < s.len() {
        let rest = s.skip(i + 1);
        law_pieces_join(rest, c);
        lemma_joined_prepend(s.take(i), pieces(rest, c), seq![c]);
        assert(s =~= s.take(i) + seq![c] + rest);
    }
}

/// A character stands at its first index, which never exceeds the length.
proof fn lemma_first_index_bound(s: Seq<char>, c: char)
    ensures
        first_index(s, c) <= s.len(),
        first_index(s, c) < s.len() ==> s[first_index(s, c) as int] == c,
    decreases s.len(),
{
    if s.len() > 0 && s[0] != c {
        lemma_first_index_bound(s.drop_first(), c);
    }
}

/// Joining after a first item is that item, the separator and the join of the others.
proof fn lemma_joined_prepend(first: Seq<char>, items: Seq<Seq<char>>, separator: Seq<char>)
    requires
        items.len() > 0,
    ensures
        joined(seq![first] + items, separator) == first + separator + joined(items, separator),
    decreases items.len(),
{
    let all = seq![first] + items;
    assert(all.drop_last() =~= seq![first] + items.drop_last());
    assert(all.last() == items.last());
    if items.len() > 1 {
        lemma_joined_prepend(first, items.drop_last(), separator);
        assert(joined(all, separator) =~= first + separator + joined(items, separator));
    } else {
        reveal_with_fuel(joined, 2);
        assert(all.drop_last() =~= seq![first]);
        assert(joined(all, separator) =~= first + separator + joined(items, separator));
    }
}


/// Whether `c` stands in `s`.
pub fn contains_char(s: &str, c: char) -> (r: bool)
    ensures
        r == s@.contains(c),
{
    let chars = chars_of(s);
    let mut i: usize = 0;
    while i < chars.len()
        invariant
            i <= chars@.len(),
            chars@ == s@,
            forall|j: int| 0 <= j < i ==> s@[j] != c,
        decreases chars@.len() - i,
    {
        if chars[i] == c {
            return true;
        }
        i = i + 1;
    }
    false
}

/// The first separator is the one that stands behind a part without separators.
pub proof fn lemma_first_index_concat(before: Seq<char>, c: char, after: Seq<char>)
    requires
        !before.contains(c),
    ensures
        first_index(before + seq![c] + after, c) == before.len(),
        split_first(before + seq![c] + after, c) == Some((before, after)),
{
    let s = before + seq![c] + after;
    assert forall|j: int| 0 <= j < before.len() implies s[j] != c by {
        assert(before[j] == s[j]);
        assert(before.contains(before[j]));
    }
    lemma_first_index(s, c, before.len() as int);
    assert(s.take(before.len() as int) =~= before);
    assert(s.skip((before.len() + 1) as int) =~= after);
}

/// A part without separators has no first separator.
pub proof fn lemma_no_first_index(s: Seq<char>, c: char)
    requires
        !s.contains(c),
    ensures
        first_index(s, c) == s.len(),
        split_first(s, c) is None,
{
    assert forall|j: int| 0 <= j < s.len() implies s[j] != c by {
        assert(s.contains(s[j]));
    }
    lemma_first_index(s, c, s.len() as int);
}

/// Items without separators are what a join of them falls apart into.
pub proof fn law_join_pieces(items: Seq<Seq<char>>, c: char)
    requires
        items.len() > 0,
        forall|i: int| 0 <= i < items.len() ==> !(#[trigger] items[i]).contains(c),
    ensures
        pieces(joined(items, seq![c]), c) == items,
    decreases items.len(),
{
    if items.len() == 1 {
        lemma_no_first_index(items[0], c);
        assert(pieces(items[0], c) =~= items);
    } else {
        let rest = items.drop_first();
        assert forall|i: int| 0 <= i < rest.len() implies !(#[trigger] rest[i]).contains(c) by {
            assert(rest[i] == items[i + 1]);
        }
        law_join_pieces(rest, c);
        assert(items =~= seq![items[0]] + rest);
        lemma_joined_prepend(items[0], rest, seq![c]);
        lemma_first_index_concat(items[0], c, joined(rest, seq![c]));
        let s = joined(items, seq![c]);
        assert(s.len() > items[0].len());
        assert(pieces(s, c) =~= items);
    }
}

/// Digits hold neither white space nor separators.
pub proof fn lemma_digits_are_plain(s: Seq<char>)
    requires
        all_digits(s),
    ensures
        trimmed(s) == s,
        !s.contains('-'),
        !s.contains(','),
        !s.contains('/'),
{
    if s.len() > 0 {
        assert(is_digit(s[0]));
        assert(is_digit(s.last()));
    }
    if s.contains('-') {
        let i = choose|i: int| 0 <= i < s.len() && s[i] == '-';
        assert(is_digit(s[i]));
    }
    if s.contains(',') {
        let i = choose|i: int| 0 <= i < s.len() && s[i] == ',';
        assert(is_digit(s[i]));
    }
    if s.contains('/') {
        let i = choose|i: int| 0 <= i < s.len() && s[i] == '/';
        assert(is_digit(s[i]));
    }
}


/// White space in front does not change what is left after trimming.
proof fn lemma_trimmed_push_front(c: char, s: Seq<char>)
    requires
        is_white_space(c),
    ensures
        trimmed(seq![c] + s) == trimmed(s),
{
    assert((seq![c] + s).drop_first() =~= s);
}

/// What is left after trimming the start, with one more character behind it.
proof fn lemma_trim_start_push(s: Seq<char>, c: char)
    ensures
        trim_start(s.push(c)) == if trim_start(s).len() > 0 || !is_white_space(c) {
            trim_start(s).push(c)
        } else {
            Seq::empty()
        },
    decreases s.len(),
{
    if s.len() > 0 && is_white_space(s[0]) {
        assert(s.push(c).drop_first() =~= s.drop_first().push(c));
        lemma_trim_start_push(s.drop_first(), c);
    } else if s.len() == 0 {
        reveal_with_fuel(trim_start, 2);
        assert(s.push(c).drop_first() =~= Seq::<char>::empty());
        assert(trim_start(s.push(c)) =~= if is_white_space(c) {
            Seq::empty()
        } else {
            s.push(c)
        });
    }
}

/// White space behind does not change what is left after trimming.
proof fn lemma_trimmed_push(s: Seq<char>, c: char)
    requires
        is_white_space(c),
    ensures
        trimmed(s.push(c)) == trimmed(s),
{
    lemma_trim_start_push(s, c);
    if trim_start(s).len() > 0 {
        assert(trim_start(s).push(c).drop_last() =~= trim_start(s));
    } else {
        assert(trim_start(s) =~= Seq::<char>::empty());
    }
}

/// The pieces of a text with one more character behind it.
proof fn lemma_pieces_push(s: Seq<char>, c: char, separator: char)
    requires
        c != separator,
    ensures
        pieces(s, separator).len() > 0,
        pieces(s.push(c), separator) == pieces(s, separator).drop_last().push(
            pieces(s, separator).last().push(c),
        ),
    decreases s.len(),
{
    lemma_first_index_bound(s, separator);
    let i = first_index(s, separator) as int;
    lemma_first_index_of(s, separator);
    if i < s.len() {
        let rest = s.skip(i + 1);
        lemma_pieces_push(rest, c, separator);
        lemma_first_index(s.push(c), separator, i);
        assert(s.push(c).take(i) =~= s.take(i));
        assert(s.push(c).skip(i + 1) =~= rest.push(c));
        assert(pieces(s.push(c), separator) =~= pieces(s, separator).drop_last().push(
            pieces(s, separator).last().push(c),
        ));
    } else {
        lemma_first_index(s.push(c), separator, s.push(c).len() as int);
        assert(pieces(s.push(c), separator) =~= pieces(s, separator).drop_last().push(
            pieces(s, separator).last().push(c),
        ));
    }
}

/// Before its first index a character does not occur.
proof fn lemma_first_index_of(s: Seq<char>, c: char)
    ensures
        forall|j: int| 0 <= j < first_index(s, c) ==> s[j] != c,
    decreases s.len(),
{
    lemma_first_index_bound(s, c);
    if s.len() > 0 && s[0] != c {
        lemma_first_index_of(s.drop_first(), c);
        assert forall|j: int| 0 <= j < first_index(s, c) implies s[j] != c by {
            if j > 0 {
                assert(s[j] == s.drop_first()[j - 1]);
            }
        }
    }
}

/// The pieces of a text with one more character in front.
proof fn lemma_pieces_push_front(c: char, s: Seq<char>, separator: char)
    requires
        c != separator,
    ensures
        pieces(s, separator).len() > 0,
        pieces(seq![c] + s, separator) == pieces(s, separator).update(
            0,
            seq![c] + pieces(s, separator)[0],
        ),
{
    lemma_first_index_bound(s, separator);
    lemma_first_index_of(s, separator);
    let i = first_index(s, separator) as int;
    let new = seq![c] + s;
    assert forall|j: int| 0 <= j < i + 1 implies new[j] != separator by {
        if j > 0 {
            assert(new[j] == s[j - 1]);
        }
    }
    lemma_first_index(new, separator, i + 1);
    if i < s.len() {
        assert(new.take(i + 1) =~= seq![c] + s.take(i));
        assert(new.skip(i + 2) =~= s.skip(i + 1));
    }
    assert(pieces(new, separator) =~= pieces(s, separator).update(
        0,
        seq![c] + pieces(s, separator)[0],
    ));
}

/// Trimming a text trims its pieces and changes nothing else of them.
pub proof fn lemma_pieces_trimmed(s: Seq<char>, separator: char)
    requires
        !is_white_space(separator),
    ensures
        pieces(trimmed(s), separator).len() == pieces(s, separator).len(),
        forall|i: int|
            0 <= i < pieces(s, separator).len() ==> trimmed(#[trigger] pieces(s, separator)[i])
                == trimmed(pieces(trimmed(s), separator)[i]),
    decreases s.len(),
{
    if s.len() > 0 && is_white_space(s[0]) {
        let rest = s.drop_first();
        assert(s =~= seq![s[0]] + rest);
        lemma_pieces_push_front(s[0], rest, separator);
        lemma_pieces_trimmed(rest, separator);
        lemma_trimmed_push_front(s[0], rest);
        lemma_trimmed_push_front(s[0], pieces(rest, separator)[0]);
        assert forall|i: int| 0 <= i < pieces(s, separator).len() implies trimmed(
            #[trigger] pieces(s, separator)[i],
        ) == trimmed(pieces(trimmed(s), separator)[i]) by {
            assert(trimmed(pieces(rest, separator)[i]) == trimmed(
                pieces(trimmed(rest), separator)[i],
            ));
        }
    } else if s.len() > 0 && is_white_space(s.last()) {
        let rest = s.drop_last();
        assert(s =~= rest.push(s.last()));
        lemma_pieces_push(rest, s.last(), separator);
        lemma_pieces_trimmed(rest, separator);
        lemma_trimmed_push(rest, s.last());
        lemma_trimmed_push(pieces(rest, separator).last(), s.last());
        assert forall|i: int| 0 <= i < pieces(s, separator).len() implies trimmed(
            #[trigger] pieces(s, separator)[i],
        ) == trimmed(pieces(trimmed(s), separator)[i]) by {
            assert(trimmed(pieces(rest, separator)[i]) == trimmed(
                pieces(trimmed(rest), separator)[i],
            ));
        }
    } else {
        assert(trimmed(s) == s);
    }
}

/// Copies of texts.
pub fn clone_texts(texts: &Vec<String>) -> (r: Vec<String>)
    ensures
        views(r@) == views(texts@),
{
    let mut r: Vec<String> = Vec::new();
    let mut i: usize = 0;
    while i < texts.len()
        invariant
            i <= texts@.len(),
            views(r@) == views(texts@).take(i as int),
        decreases texts@.len() - i,
    {
        let ghost before = r@;
        r.push(texts[i].clone());
        proof {
            assert(views(r@) =~= views(before).push(texts@[i as int]@));
            assert(views(texts@).take(i + 1) =~= views(texts@).take(i as int).push(
                texts@[i as int]@,
            ));
        }
        i = i + 1;
    }
    proof {
        assert(views(texts@).take(texts@.len() as int) =~= views(texts@));
    }
    r
}

/// What is left of a text at its start begins with no white space, and all before it is white space.
proof fn lemma_trim_start_cuts(s: Seq<char>)
    ensures
        ({
            let n = s.len() - trim_start(s).len();
            &&& 0 <= n <= s.len()
            &&& trim_start(s) == s.skip(n)
            &&& trim_start(s).len() > 0 ==> !is_white_space(trim_start(s)[0])
            &&& forall|i: int| 0 <= i < n ==> is_white_space(#[trigger] s[i])
        }),
    decreases s.len(),
{
    if s.len() > 0 && is_white_space(s[0]) {
        let rest = s.drop_first();
        lemma_trim_start_cuts(rest);
        let n = s.len() - trim_start(s).len();
        assert(s.skip(n) =~= rest.skip(n - 1));
        assert forall|i: int| 0 <= i < n implies is_white_space(#[trigger] s[i]) by {
            if i > 0 {
                assert(rest[i - 1] == s[i]);
            }
        }
    } else {
        assert(s.skip(0) =~= s);
    }
}

/// What is left of a text at its end ends with no white space, and all behind it is white space.
proof fn lemma_trim_end_cuts(s: Seq<char>)
    ensures
        ({
            let n = trim_end(s).len();
            &&& n <= s.len()
            &&& trim_end(s) == s.take(n as int)
            &&& n > 0 ==> !is_white_space(trim_end(s).last())
            &&& forall|i: int| n <= i < s.len() ==> is_white_space(#[trigger] s[i])
        }),
    decreases s.len(),
{
    if s.len() > 0 && is_white_space(s.last()) {
        let rest = s.drop_last();
        lemma_trim_end_cuts(rest);
        let n = trim_end(s).len();
        assert(s.take(n as int) =~= rest.take(n as int));
        assert forall|i: int| n <= i < s.len() implies is_white_space(#[trigger] s[i]) by {
            if i < rest.len() {
                assert(rest[i] == s[i]);
            }
        }
    } else {
        assert(s.take(s.len() as int) =~= s);
    }
}

/// A trimmed text is a part of the text that neither begins nor ends with white space; nothing but white
/// space was cut off. So a text is blank exactly where nothing is left of it.
pub proof fn law_only_white_space_is_trimmed(s: Seq<char>)
    ensures
        trimmed(s).len() > 0 ==> !is_white_space(trimmed(s)[0]) && !is_white_space(trimmed(s).last()),
        exists|a: int, b: int|
            0 <= a <= b <= s.len() && trimmed(s) == #[trigger] s.subrange(a, b) && (forall|i: int|
                0 <= i < a || b <= i < s.len() ==> is_white_space(#[trigger] s[i])),
        trimmed(s).len() == 0 <==> (forall|i: int| 0 <= i < s.len() ==> is_white_space(#[trigger] s[i])),
{
    let t = trim_start(s);
    lemma_trim_start_cuts(s);
    lemma_trim_end_cuts(t);
    let a = s.len() - t.len();
    let b = a + trimmed(s).len();
    assert(trimmed(s) =~= s.subrange(a, b));
    assert forall|i: int| 0 <= i < a || b <= i < s.len() implies is_white_space(#[trigger] s[i]) by {
        if b <= i {
            assert(t[i - a] == s[i]);
        }
    }
    if trimmed(s).len() > 0 {
        assert(s[a] == trimmed(s)[0]);
        assert(t[0] == s[a]);
    }
}

/// Space, tabulator and line breaks are white space; letters, digits and signs are not.
pub proof fn law_signs_are_no_white_space(c: char)
    ensures
        is_white_space(' ') && is_white_space('\t') && is_white_space('\n') && is_white_space('\r'),
        '!' <= c <= '~' ==> !is_white_space(c),
{
}

/// Two texts that differ in case alone have the same length and at each place the same letter, large or
/// small; a text is equal to itself.
pub proof fn law_case_does_not_matter(a: Seq<char>, b: Seq<char>, i: int)
    ensures
        eq_ignore_ascii_case(a, a),
        eq_ignore_ascii_case(a, b) <==> eq_ignore_ascii_case(b, a),
        eq_ignore_ascii_case(a, b) ==> a.len() == b.len(),
        eq_ignore_ascii_case(a, b) && 0 <= i < a.len() && !('A' <= a[i] <= 'Z') && !('A' <= b[i]
            <= 'Z') ==> a[i] == b[i],
        ascii_lower('A') == 'a' && ascii_lower('C') == 'c' && ascii_lower('S') == 's' && ascii_lower(
            'Z',
        ) == 'z',
{
    if eq_ignore_ascii_case(a, b) {
        let (x, y) = (
            a.map_values(|c: char| ascii_lower(c)),
            b.map_values(|c: char| ascii_lower(c)),
        );
        assert(x.len() == a.len() && y.len() == b.len());
        if 0 <= i < a.len() {
            assert(x[i] == ascii_lower(a[i]) && y[i] == ascii_lower(b[i]));
        }
    }
}

/// A text spells a number exactly where it has digits, and nothing else but a plus sign in front; one more
/// digit makes the number ten times as large and adds the digit.
pub proof fn law_digits_spell_numbers(s: Seq<char>, c: char)
    ensures
        number(Seq::empty()) is None,
        s.len() > 0 && all_digits(s) && '0' <= c <= '9' ==> number(s.push(c)) == Some(
            (10 * number(s)->0 + (c as u32 - 48)) as nat,
        ),
        !('0' <= c <= '9') && s.len() > 0 ==> number(s.push(c)) is None,
        all_digits(s) ==> number(seq!['+'] + s) == number(s),
{
    let more = s.push(c);
    if s.len() > 0 {
        assert(more.last() == c);
        assert(more.drop_last() =~= s);
        assert(more[0] == s[0]);
        if all_digits(s) {
            assert(is_digit(s[0]));
            if '0' <= c <= '9' {
                assert forall|i: int| 0 <= i < more.len() implies is_digit(#[trigger] more[i]) by {
                    if i < s.len() {
                        assert(more[i] == s[i]);
                    }
                }
            }
        }
        if !('0' <= c <= '9') {
            let d = without_plus(more);
            assert(d.len() > 0 && d[d.len() - 1] == c);
        }
    }
    if all_digits(s) {
        assert((seq!['+'] + s).drop_first() =~= s);
        if s.len() > 0 {
            assert(is_digit(s[0]));
        }
    }
}

} // verus!
