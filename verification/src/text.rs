//! Text primitives: decimal numbers, splitting, trimming and escaping.
//!
//! A text is modelled by its sequence of characters.

use vstd::prelude::*;
use vstd::string::*;

verus! {

/// `String::push` appends one character at the end.
pub assume_specification[ String::push ](s: &mut String, ch: char)
    ensures
        final(s)@ == old(s)@.push(ch),
;

/// The characters of a text, in order.
pub fn chars_of(s: &str) -> (r: Vec<char>)
    ensures
        r@ == s@,
{
    let mut out: Vec<char> = Vec::new();
    for c in iter: s.chars()
        invariant
            out@ == iter.seq().take(iter.index() as int),
            iter.seq() == s@,
    {
        out.push(c);
        proof {
            assert(iter.seq().take(iter.index() as int).push(c) =~= iter.seq().take(
                iter.index() as int + 1,
            ));
        }
    }
    proof {
        assert(s@.take(s@.len() as int) =~= s@);
    }
    out
}

/// The text made of the characters `from..to` of `chars`.
pub fn text_of(chars: &Vec<char>, from: usize, to: usize) -> (r: String)
    requires
        from <= to <= chars.len(),
    ensures
        r@ == chars@.subrange(from as int, to as int),
{
    let mut out = String::new();
    let mut i: usize = from;
    proof {
        assert(chars@.subrange(from as int, from as int) =~= Seq::<char>::empty());
    }
    while i < to
        invariant
            from <= i <= to <= chars.len(),
            out@ == chars@.subrange(from as int, i as int),
        decreases to - i,
    {
        out.push(chars[i]);
        proof {
            assert(chars@.subrange(from as int, i as int).push(chars@[i as int])
                =~= chars@.subrange(from as int, i as int + 1));
        }
        i = i + 1;
    }
    out
}

/// Whether `c` is one of `0` to `9`.
pub open spec fn is_digit(c: char) -> bool {
    '0' <= c && c <= '9'
}

/// The number that a digit stands for.
pub open spec fn digit_value(c: char) -> nat {
    (c as u32 - '0' as u32) as nat
}

/// The digit of a number below ten.
pub open spec fn digit_char(d: nat) -> char {
    if d == 0 {
        '0'
    } else if d == 1 {
        '1'
    } else if d == 2 {
        '2'
    } else if d == 3 {
        '3'
    } else if d == 4 {
        '4'
    } else if d == 5 {
        '5'
    } else if d == 6 {
        '6'
    } else if d == 7 {
        '7'
    } else if d == 8 {
        '8'
    } else {
        '9'
    }
}

/// The decimal notation of a number, without leading zeros.
pub open spec fn decimal(n: nat) -> Seq<char>
    decreases n,
{
    if n < 10 {
        seq![digit_char(n)]
    } else {
        decimal(n / 10).push(digit_char(n % 10))
    }
}

/// Whether a text holds nothing but digits.
pub open spec fn all_digits(s: Seq<char>) -> bool {
    forall|i: int| 0 <= i < s.len() ==> is_digit(#[trigger] s[i])
}

/// The number that a run of digits stands for.
pub open spec fn digits_value(s: Seq<char>) -> nat
    decreases s.len(),
{
    if s.len() == 0 {
        0
    } else {
        digits_value(s.drop_last()) * 10 + digit_value(s.last())
    }
}

/// What is left of a number once one leading plus sign is taken off.
pub open spec fn unsigned_body(s: Seq<char>) -> Seq<char> {
    if s.len() > 0 && s[0] == '+' {
        s.skip(1)
    } else {
        s
    }
}

/// An unsigned number of at most `max`: an optional plus sign, then one digit or more.
pub open spec fn parsed_number(s: Seq<char>, max: nat) -> Option<nat> {
    let body = unsigned_body(s);
    if body.len() > 0 && all_digits(body) && digits_value(body) <= max {
        Some(digits_value(body))
    } else {
        None
    }
}

/// An unsigned number that fits in 64 bits.
pub open spec fn parsed_u64(s: Seq<char>) -> Option<u64> {
    match parsed_number(s, u64::MAX as nat) {
        Some(n) => Some(n as u64),
        None => None,
    }
}

pub proof fn lemma_decimal_digits(n: nat)
    ensures
        decimal(n).len() > 0,
        all_digits(decimal(n)),
        digits_value(decimal(n)) == n,
    decreases n,
{
    if n < 10 {
        let s = seq![digit_char(n)];
        assert(s.drop_last() =~= Seq::<char>::empty());
        assert(s.last() == digit_char(n));
        assert(digits_value(s.drop_last()) == 0);
    } else {
        lemma_decimal_digits(n / 10);
        let s = decimal(n);
        assert(s.drop_last() =~= decimal(n / 10));
        assert(s.last() == digit_char(n % 10));
    }
}

/// Reading the decimal notation of a 64-bit number gives the number back.
pub proof fn decimal_reads_back(n: u64)
    ensures
        parsed_u64(decimal(n as nat)) == Some(n),
{
    lemma_decimal_digits(n as nat);
    assert(is_digit(decimal(n as nat)[0]));
}

pub proof fn lemma_digits_value_monotone(s: Seq<char>, k: int)
    requires
        0 <= k <= s.len(),
    ensures
        digits_value(s.take(k)) <= digits_value(s),
    decreases s.len() - k,
{
    if k == s.len() {
        assert(s.take(k) =~= s);
    } else {
        lemma_digits_value_monotone(s, k + 1);
        assert(s.take(k + 1).drop_last() =~= s.take(k));
    }
}

/// The digit of a number below ten.
fn digit_to_char(d: u64) -> (r: char)
    requires
        d < 10,
    ensures
        r == digit_char(d as nat),
{
    match d {
        0 => '0',
        1 => '1',
        2 => '2',
        3 => '3',
        4 => '4',
        5 => '5',
        6 => '6',
        7 => '7',
        8 => '8',
        _ => '9',
    }
}

/// The number that a digit stands for, or nothing for another character.
fn char_to_digit(c: char) -> (r: Option<u64>)
    ensures
        is_digit(c) ==> r == Some(digit_value(c) as u64),
        !is_digit(c) ==> r is None,
{
    match c {
        '0' => Some(0),
        '1' => Some(1),
        '2' => Some(2),
        '3' => Some(3),
        '4' => Some(4),
        '5' => Some(5),
        '6' => Some(6),
        '7' => Some(7),
        '8' => Some(8),
        '9' => Some(9),
        _ => None,
    }
}

/// The decimal notation of a number.
pub fn decimal_text(n: u64) -> (r: String)
    ensures
        r@ == decimal(n as nat),
    decreases n,
{
    if n < 10 {
        let mut out = String::new();
        out.push(digit_to_char(n));
        proof {
            assert(out@ =~= decimal(n as nat));
        }
        out
    } else {
        let mut out = decimal_text(n / 10);
        out.push(digit_to_char(n % 10));
        out
    }
}

/// Reads an unsigned number of at most `max`.
pub fn parse_number(s: &str, max: u64) -> (r: Option<u64>)
    ensures
        match parsed_number(s@, max as nat) {
            Some(n) => r == Some(n as u64),
            None => r is None,
        },
{
    let chars = chars_of(s);
    let start: usize = if chars.len() > 0 && chars[0] == '+' {
        1
    } else {
        0
    };
    let ghost body = unsigned_body(s@);
    proof {
        if start == 0 {
            assert(s@.skip(0) =~= s@);
        }
        assert(body == s@.skip(start as int));
    }
    if start == chars.len() {
        return None;
    }
    let mut value: u64 = 0;
    let mut i: usize = start;
    proof {
        assert(body.take(0) =~= Seq::<char>::empty());
    }
    while i < chars.len()
        invariant
            chars@ == s@,
            start <= i <= chars.len(),
            body == unsigned_body(s@),
            body == s@.skip(start as int),
            body.len() == chars.len() - start,
            all_digits(body.take(i - start)),
            value == digits_value(body.take(i - start)),
            value <= max,
        decreases chars.len() - i,
    {
        let ghost k = i - start;
        assert(body[k] == chars@[i as int]);
        assert(body.take(k + 1).drop_last() =~= body.take(k));
        assert(body.take(k + 1).last() == body[k]);
        match char_to_digit(chars[i]) {
            None => {
                proof {
                    assert(!is_digit(body[k]));
                    assert(parsed_number(s@, max as nat) is None) by {
                        if all_digits(unsigned_body(s@)) {
                            assert(is_digit(unsigned_body(s@)[k]));
                        }
                    }
                }
                return None;
            },
            Some(d) => {
                assert(digits_value(body.take(k + 1)) == value * 10 + d);
                proof {
                    lemma_digits_value_monotone(body, k + 1);
                    assert forall|j: int| 0 <= j < k + 1 implies is_digit(
                        #[trigger] body.take(k + 1)[j],
                    ) by {
                        if j < k {
                            assert(body.take(k)[j] == body.take(k + 1)[j]);
                        }
                    }
                }
                match value.checked_mul(10) {
                    None => {
                        return None;
                    },
                    Some(tens) => match tens.checked_add(d) {
                        None => {
                            return None;
                        },
                        Some(next) => {
                            if next > max {
                                return None;
                            }
                            value = next;
                        },
                    },
                }
            },
        }
        i = i + 1;
    }
    proof {
        assert(body.take(body.len() as int) =~= body);
    }
    Some(value)
}

/// Reads an unsigned number that fits in 64 bits.
pub fn parse_u64(s: &str) -> (r: Option<u64>)
    ensures
        r == parsed_u64(s@),
{
    parse_number(s, u64::MAX)
}

/// Whether two texts are the same.
pub fn same_text(a: &str, b: &str) -> (r: bool)
    ensures
        r == (a@ == b@),
{
    a.to_owned() == b.to_owned()
}

/// A text at the front of another.
pub open spec fn has_prefix(s: Seq<char>, prefix: Seq<char>) -> bool {
    s.len() >= prefix.len() && s.take(prefix.len() as int) == prefix
}

/// A text at the end of another.
pub open spec fn has_suffix(s: Seq<char>, suffix: Seq<char>) -> bool {
    s.len() >= suffix.len() && s.skip(s.len() - suffix.len()) == suffix
}

/// What follows a prefix, if the text begins with it.
pub open spec fn without_prefix(s: Seq<char>, prefix: Seq<char>) -> Option<Seq<char>> {
    if has_prefix(s, prefix) {
        Some(s.skip(prefix.len() as int))
    } else {
        None
    }
}

/// What precedes a suffix, if the text ends with it.
pub open spec fn without_suffix(s: Seq<char>, suffix: Seq<char>) -> Option<Seq<char>> {
    if has_suffix(s, suffix) {
        Some(s.take(s.len() - suffix.len()))
    } else {
        None
    }
}

/// The view of an optional text.
pub open spec fn view_of(s: Option<String>) -> Option<Seq<char>> {
    match s {
        Some(t) => Some(t@),
        None => None,
    }
}

/// The view of an optional borrowed text.
pub open spec fn view_of_str(s: Option<&str>) -> Option<Seq<char>> {
    match s {
        Some(t) => Some(t@),
        None => None,
    }
}

/// The views of a list of texts.
pub open spec fn views(list: Seq<String>) -> Seq<Seq<char>> {
    list.map_values(|t: String| t@)
}

/// The position of the first `c` in a text, or the text's length where there is none.
pub open spec fn first_index(s: Seq<char>, c: char) -> int
    decreases s.len(),
{
    if s.len() == 0 {
        0
    } else if s[0] == c {
        0
    } else {
        1 + first_index(s.skip(1), c)
    }
}

/// The two sides of the first `c` in a text.
pub open spec fn split_at_first(s: Seq<char>, c: char) -> Option<(Seq<char>, Seq<char>)> {
    let i = first_index(s, c);
    if i < s.len() {
        Some((s.take(i), s.skip(i + 1)))
    } else {
        None
    }
}

/// The position after the last `c` in a text, or zero where there is none.
pub open spec fn after_last_index(s: Seq<char>, c: char) -> int
    decreases s.len(),
{
    if s.len() == 0 {
        0
    } else if s.last() == c {
        s.len() as int
    } else {
        after_last_index(s.drop_last(), c)
    }
}

/// The two sides of the last `c` in a text.
pub open spec fn split_at_last(s: Seq<char>, c: char) -> Option<(Seq<char>, Seq<char>)> {
    let i = after_last_index(s, c);
    if i > 0 {
        Some((s.take(i - 1), s.skip(i)))
    } else {
        None
    }
}

/// The position of the first occurrence of `pattern`, or the text's length where there is none.
pub open spec fn first_occurrence(s: Seq<char>, pattern: Seq<char>) -> int
    decreases s.len(),
{
    if s.len() == 0 {
        0
    } else if has_prefix(s, pattern) {
        0
    } else {
        1 + first_occurrence(s.skip(1), pattern)
    }
}

/// The two sides of the first occurrence of a pattern of at least one character.
pub open spec fn split_at_text(s: Seq<char>, pattern: Seq<char>) -> Option<
    (Seq<char>, Seq<char>),
> {
    let i = first_occurrence(s, pattern);
    if i < s.len() {
        Some((s.take(i), s.skip(i + pattern.len())))
    } else {
        None
    }
}

/// The pieces of a text between the occurrences of `c`.
pub open spec fn pieces(s: Seq<char>, c: char) -> Seq<Seq<char>>
    decreases s.len(),
    via pieces_decreases
{
    let i = first_index(s, c);
    if i >= s.len() {
        seq![s]
    } else {
        seq![s.take(i)] + pieces(s.skip(i + 1), c)
    }
}

#[via_fn]
proof fn pieces_decreases(s: Seq<char>, c: char) {
    lemma_first_index(s, c);
}

pub proof fn lemma_first_index(s: Seq<char>, c: char)
    ensures
        0 <= first_index(s, c) <= s.len(),
        first_index(s, c) < s.len() ==> s[first_index(s, c)] == c,
        forall|j: int| 0 <= j < first_index(s, c) ==> s[j] != c,
    decreases s.len(),
{
    if s.len() > 0 && s[0] != c {
        lemma_first_index(s.skip(1), c);
        assert forall|j: int| 0 <= j < first_index(s, c) implies s[j] != c by {
            if j > 0 {
                assert(s.skip(1)[j - 1] == s[j]);
            }
        }
    }
}

pub proof fn lemma_first_index_is(s: Seq<char>, c: char, i: int)
    requires
        0 <= i <= s.len(),
        i < s.len() ==> s[i] == c,
        forall|j: int| 0 <= j < i ==> s[j] != c,
    ensures
        first_index(s, c) == i,
{
    lemma_first_index(s, c);
    let f = first_index(s, c);
    if f < i {
        assert(s[f] != c);
    } else if i < f {
        assert(s[i] != c);
    }
}

/// Whether `chars[at..]` begins with `pattern`.
fn matches_at(chars: &Vec<char>, at: usize, pattern: &Vec<char>) -> (r: bool)
    requires
        at + pattern.len() <= chars.len(),
    ensures
        r == (chars@.subrange(at as int, at + pattern.len()) == pattern@),
{
    let mut i: usize = 0;
    while i < pattern.len()
        invariant
            at + pattern.len() <= chars.len(),
            i <= pattern.len(),
            forall|j: int| 0 <= j < i ==> chars@[at + j] == pattern@[j],
        decreases pattern.len() - i,
    {
        if chars[at + i] != pattern[i] {
            assert(chars@.subrange(at as int, at + pattern.len())[i as int] != pattern@[i as int]);
            return false;
        }
        i = i + 1;
    }
    assert(chars@.subrange(at as int, at + pattern.len()) =~= pattern@);
    true
}

/// Whether a text begins with a prefix.
pub fn starts_with(s: &str, prefix: &str) -> (r: bool)
    ensures
        r == has_prefix(s@, prefix@),
{
    let chars = chars_of(s);
    let pattern = chars_of(prefix);
    if pattern.len() > chars.len() {
        return false;
    }
    proof {
        assert(s@.subrange(0, prefix@.len() as int) =~= s@.take(prefix@.len() as int));
    }
    matches_at(&chars, 0, &pattern)
}

/// What follows a prefix.
pub fn strip_prefix(s: &str, prefix: &str) -> (r: Option<String>)
    ensures
        view_of(r) == without_prefix(s@, prefix@),
{
    let chars = chars_of(s);
    let pattern = chars_of(prefix);
    if pattern.len() > chars.len() {
        return None;
    }
    proof {
        assert(s@.subrange(0, prefix@.len() as int) =~= s@.take(prefix@.len() as int));
        assert(s@.subrange(prefix@.len() as int, s@.len() as int) =~= s@.skip(prefix@.len() as int));
    }
    if matches_at(&chars, 0, &pattern) {
        Some(text_of(&chars, pattern.len(), chars.len()))
    } else {
        None
    }
}

/// What precedes a suffix.
pub fn strip_suffix(s: &str, suffix: &str) -> (r: Option<String>)
    ensures
        view_of(r) == without_suffix(s@, suffix@),
{
    let chars = chars_of(s);
    let pattern = chars_of(suffix);
    if pattern.len() > chars.len() {
        return None;
    }
    let cut: usize = chars.len() - pattern.len();
    proof {
        assert(s@.subrange(cut as int, s@.len() as int) =~= s@.skip(cut as int));
        assert(s@.subrange(0, cut as int) =~= s@.take(cut as int));
    }
    if matches_at(&chars, cut, &pattern) {
        Some(text_of(&chars, 0, cut))
    } else {
        None
    }
}

/// The position of the first `c` from `from` on, or the length where there is none.
fn find_from(chars: &Vec<char>, from: usize, c: char) -> (r: usize)
    requires
        from <= chars.len(),
    ensures
        from <= r <= chars.len(),
        r - from == first_index(chars@.skip(from as int), c),
{
    let mut i: usize = from;
    while i < chars.len()
        invariant
            from <= i <= chars.len(),
            forall|j: int| from <= j < i ==> chars@[j] != c,
        decreases chars.len() - i,
    {
        if chars[i] == c {
            proof {
                lemma_first_index_is(chars@.skip(from as int), c, i - from);
            }
            return i;
        }
        i = i + 1;
    }
    proof {
        lemma_first_index_is(chars@.skip(from as int), c, i - from);
    }
    i
}

/// The two sides of the first `c` in a text.
pub fn split_once(s: &str, c: char) -> (r: Option<(String, String)>)
    ensures
        match r {
            Some((a, b)) => split_at_first(s@, c) == Some((a@, b@)),
            None => split_at_first(s@, c) is None,
        },
{
    let chars = chars_of(s);
    proof {
        assert(s@.skip(0) =~= s@);
    }
    let i: usize = find_from(&chars, 0, c);
    if i < chars.len() {
        proof {
            assert(s@.subrange(0, i as int) =~= s@.take(i as int));
            assert(s@.subrange(i + 1, s@.len() as int) =~= s@.skip(i + 1));
        }
        Some((text_of(&chars, 0, i), text_of(&chars, i + 1, chars.len())))
    } else {
        None
    }
}

/// The two sides of the last `c` in a text.
pub fn rsplit_once(s: &str, c: char) -> (r: Option<(String, String)>)
    ensures
        match r {
            Some((a, b)) => split_at_last(s@, c) == Some((a@, b@)),
            None => split_at_last(s@, c) is None,
        },
{
    let chars = chars_of(s);
    let mut i: usize = chars.len();
    proof {
        assert(s@.take(s@.len() as int) =~= s@);
    }
    while i > 0
        invariant
            chars@ == s@,
            i <= chars.len(),
            after_last_index(s@, c) == after_last_index(s@.take(i as int), c),
        decreases i,
    {
        proof {
            assert(s@.take(i as int).last() == s@[i - 1]);
            assert(s@.take(i as int).drop_last() =~= s@.take(i - 1));
        }
        if chars[i - 1] == c {
            proof {
                assert(s@.subrange(0, i - 1) =~= s@.take(i - 1));
                assert(s@.subrange(i as int, s@.len() as int) =~= s@.skip(i as int));
            }
            return Some((text_of(&chars, 0, i - 1), text_of(&chars, i, chars.len())));
        }
        i = i - 1;
    }
    None
}

/// The two sides of the first occurrence of a pattern of at least one character.
pub fn split_once_text(s: &str, pattern: &str) -> (r: Option<(String, String)>)
    requires
        pattern@.len() > 0,
    ensures
        match r {
            Some((a, b)) => split_at_text(s@, pattern@) == Some((a@, b@)),
            None => split_at_text(s@, pattern@) is None,
        },
{
    let chars = chars_of(s);
    let pat = chars_of(pattern);
    let mut i: usize = 0;
    proof {
        assert(s@.skip(0) =~= s@);
    }
    while i < chars.len()
        invariant
            chars@ == s@,
            pat@ == pattern@,
            pat.len() > 0,
            i <= chars.len(),
            first_occurrence(s@, pattern@) == i + first_occurrence(s@.skip(i as int), pattern@),
        decreases chars.len() - i,
    {
        let ghost rest = s@.skip(i as int);
        if pat.len() <= chars.len() - i {
            proof {
                assert(rest.take(pat@.len() as int) =~= s@.subrange(i as int, i + pat@.len()));
            }
            if matches_at(&chars, i, &pat) {
                proof {
                    assert(s@.subrange(0, i as int) =~= s@.take(i as int));
                    assert(s@.subrange(i + pat@.len(), s@.len() as int) =~= s@.skip(
                        i + pat@.len(),
                    ));
                }
                return Some(
                    (text_of(&chars, 0, i), text_of(&chars, i + pat.len(), chars.len())),
                );
            }
        }
        proof {
            assert(rest.skip(1) =~= s@.skip(i + 1));
        }
        i = i + 1;
    }
    None
}

/// The pieces of a text between the occurrences of `c`.
pub fn split(s: &str, c: char) -> (r: Vec<String>)
    ensures
        views(r@) == pieces(s@, c),
{
    let chars = chars_of(s);
    let mut out: Vec<String> = Vec::new();
    let mut from: usize = 0;
    proof {
        assert(s@.skip(0) =~= s@);
        assert(views(out@) + pieces(s@, c) =~= pieces(s@, c));
    }
    loop
        invariant
            chars@ == s@,
            from <= chars.len(),
            views(out@) + pieces(s@.skip(from as int), c) == pieces(s@, c),
        decreases chars.len() - from,
    {
        let i: usize = find_from(&chars, from, c);
        let piece = text_of(&chars, from, i);
        let ghost rest = s@.skip(from as int);
        let ghost before = views(out@);
        proof {
            assert(piece@ =~= rest.take(i - from));
        }
        out.push(piece);
        proof {
            assert(views(out@) =~= before.push(piece@));
        }
        if i == chars.len() {
            proof {
                assert(rest.take(i - from) =~= rest);
                assert(views(out@) =~= before + seq![rest]);
            }
            return out;
        }
        proof {
            assert(rest.skip(i - from + 1) =~= s@.skip(i + 1));
            assert(before + (seq![piece@] + pieces(s@.skip(i + 1), c)) =~= before.push(piece@)
                + pieces(s@.skip(i + 1), c));
        }
        from = i + 1;
    }
}

/// Whether a text occurs inside another.
pub open spec fn occurs_in(pattern: Seq<char>, s: Seq<char>) -> bool {
    exists|i: int|
        0 <= i <= s.len() - pattern.len() && #[trigger] s.subrange(i, i + pattern.len()) == pattern
}

/// Whether `pattern` occurs inside `s`.
pub fn contains_text(s: &str, pattern: &str) -> (r: bool)
    ensures
        r == occurs_in(pattern@, s@),
{
    let chars = chars_of(s);
    let pat = chars_of(pattern);
    if pat.len() > chars.len() {
        return false;
    }
    let last: usize = chars.len() - pat.len();
    let mut i: usize = 0;
    while i <= last
        invariant
            chars@ == s@,
            pat@ == pattern@,
            last == chars.len() - pat.len(),
            i <= last + 1,
            forall|j: int|
                0 <= j < i ==> #[trigger] s@.subrange(j, j + pattern@.len()) != pattern@,
        decreases last + 1 - i,
    {
        if matches_at(&chars, i, &pat) {
            assert(s@.subrange(i as int, i + pattern@.len()) == pattern@);
            return true;
        }
        if i == last {
            return false;
        }
        i = i + 1;
    }
    false
}

/// The characters that Unicode counts as white space.
pub open spec fn is_white_space(c: char) -> bool {
    ||| '\u{9}' <= c && c <= '\u{d}'
    ||| c == '\u{20}'
    ||| c == '\u{85}'
    ||| c == '\u{a0}'
    ||| c == '\u{1680}'
    ||| '\u{2000}' <= c && c <= '\u{200a}'
    ||| c == '\u{2028}'
    ||| c == '\u{2029}'
    ||| c == '\u{202f}'
    ||| c == '\u{205f}'
    ||| c == '\u{3000}'
}

/// A text without the white space at its front.
pub open spec fn trimmed_front(s: Seq<char>) -> Seq<char>
    decreases s.len(),
{
    if s.len() > 0 && is_white_space(s[0]) {
        trimmed_front(s.skip(1))
    } else {
        s
    }
}

/// A text without the white space at its end.
pub open spec fn trimmed_back(s: Seq<char>) -> Seq<char>
    decreases s.len(),
{
    if s.len() > 0 && is_white_space(s.last()) {
        trimmed_back(s.drop_last())
    } else {
        s
    }
}

/// A text without the white space at its front and end.
pub open spec fn trimmed(s: Seq<char>) -> Seq<char> {
    trimmed_back(trimmed_front(s))
}

/// Whether `c` is white space.
fn white_space(c: char) -> (r: bool)
    ensures
        r == is_white_space(c),
{
    ('\u{9}' <= c && c <= '\u{d}') || c == '\u{20}' || c == '\u{85}' || c == '\u{a0}' || c
        == '\u{1680}' || ('\u{2000}' <= c && c <= '\u{200a}') || c == '\u{2028}' || c
        == '\u{2029}' || c == '\u{202f}' || c == '\u{205f}' || c == '\u{3000}'
}

/// A text without the white space at its front and end.
pub fn trim(s: &str) -> (r: String)
    ensures
        r@ == trimmed(s@),
{
    let chars = chars_of(s);
    let mut from: usize = 0;
    proof {
        assert(s@.skip(0) =~= s@);
    }
    while from < chars.len() && white_space(chars[from])
        invariant
            chars@ == s@,
            from <= chars.len(),
            trimmed_front(s@) == trimmed_front(s@.skip(from as int)),
        decreases chars.len() - from,
    {
        proof {
            assert(s@.skip(from as int).skip(1) =~= s@.skip(from + 1));
        }
        from = from + 1;
    }
    let ghost front = s@.skip(from as int);
    assert(trimmed_front(s@) == front);
    let mut to: usize = chars.len();
    proof {
        assert(s@.subrange(from as int, to as int) =~= front);
    }
    while to > from && white_space(chars[to - 1])
        invariant
            chars@ == s@,
            from <= to <= chars.len(),
            trimmed_back(front) == trimmed_back(s@.subrange(from as int, to as int)),
        decreases to,
    {
        proof {
            assert(s@.subrange(from as int, to as int).drop_last() =~= s@.subrange(
                from as int,
                to - 1,
            ));
            assert(s@.subrange(from as int, to as int).last() == s@[to - 1]);
        }
        to = to - 1;
    }
    proof {
        if to > from {
            assert(s@.subrange(from as int, to as int).last() == s@[to - 1]);
        }
    }
    text_of(&chars, from, to)
}

/// The pieces of a list with a separator between each two.
pub open spec fn joined(list: Seq<Seq<char>>, separator: Seq<char>) -> Seq<char>
    decreases list.len(),
{
    if list.len() == 0 {
        Seq::empty()
    } else if list.len() == 1 {
        list[0]
    } else {
        joined(list.drop_last(), separator) + separator + list.last()
    }
}

/// The texts of a list with a separator between each two.
pub fn join(list: &Vec<String>, separator: &str) -> (r: String)
    ensures
        r@ == joined(views(list@), separator@),
{
    let mut out = String::new();
    let mut i: usize = 0;
    proof {
        assert(views(list@).take(0) =~= Seq::<Seq<char>>::empty());
    }
    while i < list.len()
        invariant
            i <= list.len(),
            out@ == joined(views(list@).take(i as int), separator@),
        decreases list.len() - i,
    {
        proof {
            assert(views(list@).take(i + 1).drop_last() =~= views(list@).take(i as int));
            assert(views(list@).take(i + 1).last() == list@[i as int]@);
        }
        if i > 0 {
            out.append(separator);
        }
        out.append(list[i].as_str());
        proof {
            assert(out@ =~= joined(views(list@).take(i + 1), separator@));
        }
        i = i + 1;
    }
    proof {
        assert(views(list@).take(i as int) =~= views(list@));
    }
    out
}

/// Another copy of an optional text.
pub fn copy_text(s: &Option<String>) -> (r: Option<String>)
    ensures
        r == *s,
{
    match s {
        Some(text) => Some(text.clone()),
        None => None,
    }
}

/// A character with an ASCII capital made small.
pub open spec fn lower_char(c: char) -> char {
    if 'A' <= c && c <= 'Z' {
        ((c as u32 + 32) as u8) as char
    } else {
        c
    }
}

/// A text with its ASCII capitals made small.
pub open spec fn lowered(s: Seq<char>) -> Seq<char> {
    s.map_values(|c: char| lower_char(c))
}

/// A text with its ASCII capitals made small.
pub fn to_ascii_lowercase(s: &str) -> (r: String)
    ensures
        r@ == lowered(s@),
{
    let chars = chars_of(s);
    let mut out = String::new();
    let mut i: usize = 0;
    while i < chars.len()
        invariant
            chars@ == s@,
            i <= chars.len(),
            out@ == lowered(s@.take(i as int)),
        decreases chars.len() - i,
    {
        let c = chars[i];
        let lower: char = if 'A' <= c && c <= 'Z' {
            ((c as u32 + 32) as u8) as char
        } else {
            c
        };
        out.push(lower);
        proof {
            assert(out@ =~= lowered(s@.take(i + 1)));
        }
        i = i + 1;
    }
    proof {
        assert(s@.take(i as int) =~= s@);
    }
    out
}

/// A text with every `from` replaced.
pub open spec fn replaced(s: Seq<char>, from: char, to: Seq<char>) -> Seq<char>
    decreases s.len(),
{
    if s.len() == 0 {
        Seq::empty()
    } else {
        replaced(s.drop_last(), from, to) + (if s.last() == from {
            to
        } else {
            seq![s.last()]
        })
    }
}

/// A text with every `from` replaced.
pub fn replace_char(s: &str, from: char, to: &str) -> (r: String)
    ensures
        r@ == replaced(s@, from, to@),
{
    let chars = chars_of(s);
    let mut out = String::new();
    let mut i: usize = 0;
    proof {
        assert(s@.take(0) =~= Seq::<char>::empty());
    }
    while i < chars.len()
        invariant
            chars@ == s@,
            i <= chars.len(),
            out@ == replaced(s@.take(i as int), from, to@),
        decreases chars.len() - i,
    {
        proof {
            assert(s@.take(i + 1).drop_last() =~= s@.take(i as int));
            assert(s@.take(i + 1).last() == s@[i as int]);
        }
        if chars[i] == from {
            out.append(to);
        } else {
            out.push(chars[i]);
        }
        proof {
            assert(out@ =~= replaced(s@.take(i + 1), from, to@));
        }
        i = i + 1;
    }
    proof {
        assert(s@.take(i as int) =~= s@);
    }
    out
}

/// Whether a text ends with another.
pub fn ends_with(s: &str, suffix: &str) -> (r: bool)
    ensures
        r == has_suffix(s@, suffix@),
{
    strip_suffix(s, suffix).is_some()
}

/// Whether a character occurs in a text.
pub fn contains_char(s: &str, c: char) -> (r: bool)
    ensures
        r == s@.contains(c),
{
    let chars = chars_of(s);
    let mut i: usize = 0;
    while i < chars.len()
        invariant
            chars@ == s@,
            i <= chars.len(),
            forall|j: int| 0 <= j < i ==> s@[j] != c,
        decreases chars.len() - i,
    {
        if chars[i] == c {
            assert(s@[i as int] == c);
            return true;
        }
        i = i + 1;
    }
    false
}

/// A text without the characters `c` at its end.
pub open spec fn without_trailing(s: Seq<char>, c: char) -> Seq<char>
    decreases s.len(),
{
    if s.len() > 0 && s.last() == c {
        without_trailing(s.drop_last(), c)
    } else {
        s
    }
}

/// A text without the characters `c` at its end.
pub fn trim_end_char(s: &str, c: char) -> (r: String)
    ensures
        r@ == without_trailing(s@, c),
{
    let chars = chars_of(s);
    let mut end: usize = chars.len();
    proof {
        assert(s@.take(s@.len() as int) =~= s@);
    }
    while end > 0 && chars[end - 1] == c
        invariant
            chars@ == s@,
            end <= chars.len(),
            without_trailing(s@.take(end as int), c) == without_trailing(s@, c),
        decreases end,
    {
        proof {
            assert(s@.take(end as int).drop_last() =~= s@.take(end - 1));
            assert(s@.take(end as int).last() == s@[end - 1]);
        }
        end = end - 1;
    }
    proof {
        if end > 0 {
            assert(s@.take(end as int).last() == s@[end - 1]);
        }
        assert(s@.subrange(0, end as int) =~= s@.take(end as int));
    }
    text_of(&chars, 0, end)
}

/// The decimal notation of a number holds nothing but digits.
pub proof fn lemma_decimal_chars(n: nat, c: char)
    requires
        !is_digit(c),
    ensures
        decimal(n).len() > 0,
        !decimal(n).contains(c),
{
    lemma_decimal_digits(n);
    assert forall|i: int| 0 <= i < decimal(n).len() implies decimal(n)[i] != c by {
        assert(is_digit(decimal(n)[i]));
    }
}

/// A pattern that begins with a character that the text before it lacks occurs first behind
/// that text.
pub proof fn lemma_first_occurrence(head: Seq<char>, pattern: Seq<char>, tail: Seq<char>)
    requires
        pattern.len() > 0,
        !head.contains(pattern[0]),
    ensures
        split_at_text(head + pattern + tail, pattern) == Some((head, tail)),
    decreases head.len(),
{
    let s = head + pattern + tail;
    lemma_occurrence_at(head, pattern, tail);
    assert(s.take(head.len() as int) =~= head);
    assert(s.skip((head.len() + pattern.len()) as int) =~= tail);
}

proof fn lemma_occurrence_at(head: Seq<char>, pattern: Seq<char>, tail: Seq<char>)
    requires
        pattern.len() > 0,
        !head.contains(pattern[0]),
    ensures
        first_occurrence(head + pattern + tail, pattern) == head.len(),
    decreases head.len(),
{
    let s = head + pattern + tail;
    if head.len() == 0 {
        assert(s.take(pattern.len() as int) =~= pattern);
    } else {
        assert(head.contains(head[0]));
        assert(s[0] == head[0]);
        if has_prefix(s, pattern) {
            assert(s.take(pattern.len() as int)[0] == s[0]);
        }
        assert(s.skip(1) =~= head.skip(1) + pattern + tail);
        assert forall|i: int| 0 <= i < head.skip(1).len() implies head.skip(1)[i] != pattern[0] by {
            assert(head.contains(head[i + 1]));
        }
        lemma_occurrence_at(head.skip(1), pattern, tail);
    }
}

/// Where a pattern is found, it stands.
pub proof fn lemma_occurrence_found(s: Seq<char>, pattern: Seq<char>)
    ensures
        0 <= first_occurrence(s, pattern) <= s.len(),
        first_occurrence(s, pattern) < s.len() ==> has_prefix(
            s.skip(first_occurrence(s, pattern)),
            pattern,
        ),
    decreases s.len(),
{
    if s.len() > 0 {
        if has_prefix(s, pattern) {
            assert(s.skip(0) =~= s);
        } else {
            lemma_occurrence_found(s.skip(1), pattern);
            let f = first_occurrence(s.skip(1), pattern);
            assert(s.skip(1).skip(f) =~= s.skip(1 + f));
        }
    }
}

/// A text begins with a prefix exactly where it is the prefix and what is left without it; the same
/// of its end.
pub proof fn prefixes_and_suffixes_are_cut_off(s: Seq<char>, part: Seq<char>, rest: Seq<char>)
    ensures
        without_prefix(s, part) == Some(rest) <==> s == part + rest,
        without_suffix(s, part) == Some(rest) <==> s == rest + part,
        has_prefix(s, part) <==> without_prefix(s, part) is Some,
        has_suffix(s, part) <==> without_suffix(s, part) is Some,
{
    lemma_prefix_cut(s, part, rest);
    lemma_suffix_cut(s, part, rest);
}

proof fn lemma_prefix_cut(s: Seq<char>, part: Seq<char>, rest: Seq<char>)
    ensures
        without_prefix(s, part) == Some(rest) <==> s == part + rest,
{
    let n = part.len() as int;
    if without_prefix(s, part) == Some(rest) {
        assert(s =~= s.take(n) + s.skip(n));
        assert(s == part + rest);
    }
    if s == part + rest {
        assert(s.take(n) =~= part);
        assert(s.skip(n) =~= rest);
        assert(has_prefix(s, part));
        assert(without_prefix(s, part) == Some(rest));
    }
}

proof fn lemma_suffix_cut(s: Seq<char>, part: Seq<char>, rest: Seq<char>)
    ensures
        without_suffix(s, part) == Some(rest) <==> s == rest + part,
{
    let m = s.len() - part.len();
    if without_suffix(s, part) == Some(rest) {
        assert(s =~= s.take(m) + s.skip(m));
        assert(s == rest + part);
    }
    if s == rest + part {
        assert(m == rest.len());
        assert(s.take(m) =~= rest);
        assert(s.skip(m) =~= part);
        assert(has_suffix(s, part));
        assert(without_suffix(s, part) == Some(rest));
    }
}

/// A text is split at the first occurrence of a character: what stands before it does not hold it.
/// There is no split only where it does not occur.
pub proof fn texts_are_split_at_the_first(s: Seq<char>, c: char, front: Seq<char>, back: Seq<char>)
    ensures
        split_at_first(s, c) == Some((front, back)) <==> s == front + seq![c] + back
            && !front.contains(c),
        split_at_first(s, c) is None <==> !s.contains(c),
{
    lemma_first_index(s, c);
    let i = first_index(s, c);
    if split_at_first(s, c) == Some((front, back)) {
        assert(s =~= s.take(i) + seq![c] + s.skip(i + 1));
    }
    if s == front + seq![c] + back && !front.contains(c) {
        let n = front.len() as int;
        assert(s[n] == c);
        assert forall|j: int| 0 <= j < n implies s[j] != c by {
            assert(s[j] == front[j]);
        }
        lemma_first_index_is(s, c, n);
        assert(s.take(n) =~= front);
        assert(s.skip(n + 1) =~= back);
    }
}

/// A text is split at the last occurrence of a character: what stands behind it does not hold it.
pub proof fn texts_are_split_at_the_last(s: Seq<char>, c: char)
    ensures
        match split_at_last(s, c) {
            Some((front, back)) => s == front + seq![c] + back && !back.contains(c),
            None => !s.contains(c),
        },
{
    lemma_after_last(s, c);
    let i = after_last_index(s, c);
    if i > 0 {
        assert(s =~= s.take(i - 1) + seq![c] + s.skip(i));
        assert forall|j: int| 0 <= j < s.skip(i).len() implies s.skip(i)[j] != c by {
            assert(s.skip(i)[j] == s[i + j]);
        }
    }
}

proof fn lemma_after_last(s: Seq<char>, c: char)
    ensures
        0 <= after_last_index(s, c) <= s.len(),
        after_last_index(s, c) > 0 ==> s[after_last_index(s, c) - 1] == c,
        forall|j: int| after_last_index(s, c) <= j < s.len() ==> s[j] != c,
    decreases s.len(),
{
    if s.len() > 0 && s.last() != c {
        lemma_after_last(s.drop_last(), c);
        assert forall|j: int| after_last_index(s, c) <= j < s.len() implies s[j] != c by {
            if j < s.len() - 1 {
                assert(s.drop_last()[j] == s[j]);
            }
        }
    }
}

/// The pieces of a text do not hold what it was split at, and make the text again where that is put
/// between them.
pub proof fn pieces_make_the_text_again(s: Seq<char>, c: char)
    ensures
        pieces(s, c).len() >= 1,
        chained(pieces(s, c), c) == s,
        forall|i: int| 0 <= i < pieces(s, c).len() ==> !(#[trigger] pieces(s, c)[i]).contains(c),
    decreases s.len(),
{
    lemma_first_index(s, c);
    let i = first_index(s, c);
    if i < s.len() {
        let rest = s.skip(i + 1);
        pieces_make_the_text_again(rest, c);
        let more = pieces(rest, c);
        let all = pieces(s, c);
        assert(all == seq![s.take(i)] + more);
        assert(all.skip(1) =~= more);
        assert(s =~= s.take(i) + seq![c] + rest);
        assert forall|j: int| 0 <= j < all.len() implies !(#[trigger] all[j]).contains(c) by {
            if j > 0 {
                assert(all[j] == more[j - 1]);
            }
        }
    } else {
        assert(seq![s].skip(1) =~= Seq::<Seq<char>>::empty());
    }
}

/// The texts of a list one behind the other, with a character between each two.
pub open spec fn chained(list: Seq<Seq<char>>, c: char) -> Seq<char>
    decreases list.len(),
{
    if list.len() == 0 {
        Seq::empty()
    } else if list.len() == 1 {
        list[0]
    } else {
        list[0] + seq![c] + chained(list.skip(1), c)
    }
}

/// What is trimmed off a text is white space and nothing else, and none is left at its ends.
pub proof fn only_white_space_is_trimmed(s: Seq<char>)
    ensures
        trimmed(s).len() > 0 ==> !is_white_space(trimmed(s)[0]) && !is_white_space(
            trimmed(s).last(),
        ),
        exists|a: int, b: int|
            0 <= a <= b <= s.len() && #[trigger] s.subrange(a, b) == trimmed(s) && (forall|i: int|
                0 <= i < a || b <= i < s.len() ==> is_white_space(#[trigger] s[i])),
{
    lemma_trimmed_front(s);
    let front = trimmed_front(s);
    lemma_trimmed_back(front);
    let a = s.len() - front.len();
    let n = trimmed(s).len() as int;
    assert(front == s.skip(a));
    assert(trimmed(s) == front.take(n));
    assert(s.subrange(a, a + n) =~= trimmed(s));
    assert forall|i: int| 0 <= i < a || a + n <= i < s.len() implies is_white_space(
        #[trigger] s[i],
    ) by {
        if i >= a + n {
            assert(front[i - a] == s[i]);
        }
    }
    if n > 0 {
        assert(trimmed(s)[0] == front[0]);
    }
}

proof fn lemma_trimmed_front(s: Seq<char>)
    ensures
        trimmed_front(s).len() <= s.len(),
        trimmed_front(s) == s.skip(s.len() - trimmed_front(s).len()),
        forall|i: int|
            0 <= i < s.len() - trimmed_front(s).len() ==> is_white_space(#[trigger] s[i]),
        trimmed_front(s).len() > 0 ==> !is_white_space(trimmed_front(s)[0]),
    decreases s.len(),
{
    if s.len() > 0 && is_white_space(s[0]) {
        let rest = s.skip(1);
        lemma_trimmed_front(rest);
        let k = rest.len() - trimmed_front(rest).len();
        assert(rest.skip(k) =~= s.skip(k + 1));
        assert forall|i: int| 0 <= i < k + 1 implies is_white_space(#[trigger] s[i]) by {
            if i > 0 {
                assert(rest[i - 1] == s[i]);
            }
        }
    } else {
        assert(s.skip(0) =~= s);
    }
}

proof fn lemma_trimmed_back(s: Seq<char>)
    ensures
        trimmed_back(s).len() <= s.len(),
        trimmed_back(s) == s.take(trimmed_back(s).len() as int),
        forall|i: int| trimmed_back(s).len() <= i < s.len() ==> is_white_space(#[trigger] s[i]),
        trimmed_back(s).len() > 0 ==> !is_white_space(trimmed_back(s).last()),
    decreases s.len(),
{
    if s.len() > 0 && is_white_space(s.last()) {
        let front = s.drop_last();
        lemma_trimmed_back(front);
        let k = trimmed_back(front).len() as int;
        assert(front.take(k) =~= s.take(k));
        assert forall|i: int| k <= i < s.len() implies is_white_space(#[trigger] s[i]) by {
            if i < s.len() - 1 {
                assert(front[i] == s[i]);
            }
        }
    } else {
        assert(s.take(s.len() as int) =~= s);
    }
}

/// Capitals are made small by their distance in the alphabet, and nothing else changes.
pub proof fn only_capitals_are_made_small(s: Seq<char>, i: int)
    requires
        0 <= i < s.len(),
    ensures
        lowered(s).len() == s.len(),
        'A' <= s[i] && s[i] <= 'Z' ==> lowered(s)[i] as int == s[i] as int + 32,
        !('A' <= s[i] && s[i] <= 'Z') ==> lowered(s)[i] == s[i],
{
}

/// A character is replaced wherever it stands, and everything else stays in its order.
pub proof fn characters_are_replaced_where_they_stand(s: Seq<char>, c: char, from: char, to: Seq<char>)
    ensures
        replaced(Seq::<char>::empty(), from, to) == Seq::<char>::empty(),
        c == from ==> replaced(s.push(c), from, to) == replaced(s, from, to) + to,
        c != from ==> replaced(s.push(c), from, to) == replaced(s, from, to).push(c),
{
    assert(s.push(c).drop_last() =~= s);
}

/// The digits of a number stand for it in tens, with the last one for the units.
pub proof fn numbers_are_written_in_tens(n: nat, digit: nat)
    requires
        n > 0,
        digit < 10,
    ensures
        decimal(n * 10 + digit) == decimal(n).push(digit_char(digit)),
        decimal(digit) == seq![digit_char(digit)],
        digit_char(digit) as int == '0' as int + digit,
        forall|s: Seq<char>| #[trigger]
            digits_value(s.push(digit_char(digit))) == digits_value(s) * 10 + digit,
{
    assert((n * 10 + digit) / 10 == n && (n * 10 + digit) % 10 == digit);
    assert forall|s: Seq<char>| #[trigger]
        digits_value(s.push(digit_char(digit))) == digits_value(s) * 10 + digit by {
        assert(s.push(digit_char(digit)).drop_last() =~= s);
    }
}

/// A number is read from digits alone, with a plus before them at most, and from no more than the
/// largest.
pub proof fn numbers_are_read_from_digits(s: Seq<char>, n: u64)
    ensures
        parsed_u64(s) == Some(n) ==> s.len() > 0 && forall|i: int|
            0 <= i < s.len() ==> is_digit(#[trigger] s[i]) || (i == 0 && s[i] == '+' && s.len()
                > 1),
        s.len() > 0 && all_digits(s) && digits_value(s) == n ==> parsed_u64(s) == Some(n),
        s.len() > 0 && all_digits(s) && digits_value(s) > u64::MAX ==> parsed_u64(s) is None,
{
    if s.len() > 0 && s[0] == '+' {
        let body = s.skip(1);
        assert forall|i: int| 0 < i < s.len() implies #[trigger] s[i] == body[i - 1] by {}
    }
}

/// A list of texts is joined with the separator between each two and nowhere else.
pub proof fn separators_stand_between(list: Seq<Seq<char>>, text: Seq<char>, separator: Seq<char>)
    ensures
        joined(Seq::<Seq<char>>::empty(), separator) == Seq::<char>::empty(),
        joined(seq![text], separator) == text,
        list.len() > 0 ==> joined(list.push(text), separator) == joined(list, separator)
            + separator + text,
{
    assert(list.push(text).drop_last() =~= list);
}

} // verus!
