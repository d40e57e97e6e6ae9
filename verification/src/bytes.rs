//! Byte primitives: prefixes, big-endian numbers and digits on the wire.

use vstd::prelude::*;
use crate::text::chars_of;

verus! {

/// The bytes of a text whose characters are all ASCII.
pub open spec fn ascii_bytes(s: Seq<char>) -> Seq<u8> {
    s.map_values(|c: char| c as u8)
}

/// A byte sequence at the front of another.
pub open spec fn has_byte_prefix(s: Seq<u8>, prefix: Seq<u8>) -> bool {
    s.len() >= prefix.len() && s.take(prefix.len() as int) == prefix
}

/// The bytes of a literal text.
pub fn bytes_of(s: &str) -> (r: Vec<u8>)
    ensures
        r@ == ascii_bytes(s@),
{
    let chars = chars_of(s);
    let mut out: Vec<u8> = Vec::new();
    let mut i: usize = 0;
    while i < chars.len()
        invariant
            i <= chars.len(),
            out@ == ascii_bytes(chars@.take(i as int)),
        decreases chars.len() - i,
    {
        #[verifier::truncate]
        let b: u8 = chars[i] as u8;
        out.push(b);
        proof {
            assert(out@ =~= ascii_bytes(chars@.take(i + 1)));
        }
        i = i + 1;
    }
    proof {
        assert(chars@.take(i as int) =~= chars@);
    }
    out
}

/// Whether two byte sequences are the same.
pub fn same_bytes(a: &[u8], b: &[u8]) -> (r: bool)
    ensures
        r == (a@ == b@),
{
    if a.len() != b.len() {
        return false;
    }
    let mut i: usize = 0;
    while i < a.len()
        invariant
            a.len() == b.len(),
            i <= a.len(),
            forall|j: int| 0 <= j < i ==> a@[j] == b@[j],
        decreases a.len() - i,
    {
        if a[i] != b[i] {
            return false;
        }
        i = i + 1;
    }
    assert(a@ =~= b@);
    true
}

/// Whether `s` begins with `prefix`.
pub fn starts_with_bytes(s: &[u8], prefix: &[u8]) -> (r: bool)
    ensures
        r == has_byte_prefix(s@, prefix@),
{
    if prefix.len() > s.len() {
        return false;
    }
    let mut i: usize = 0;
    while i < prefix.len()
        invariant
            prefix.len() <= s.len(),
            i <= prefix.len(),
            forall|j: int| 0 <= j < i ==> s@[j] == prefix@[j],
        decreases prefix.len() - i,
    {
        if s[i] != prefix[i] {
            assert(s@.take(prefix.len() as int)[i as int] != prefix@[i as int]);
            return false;
        }
        i = i + 1;
    }
    assert(s@.take(prefix.len() as int) =~= prefix@);
    true
}

/// The bytes `from..to` of a slice.
pub fn byte_range(s: &[u8], from: usize, to: usize) -> (r: Vec<u8>)
    requires
        from <= to <= s.len(),
    ensures
        r@ == s@.subrange(from as int, to as int),
{
    let mut out: Vec<u8> = Vec::new();
    let mut i: usize = from;
    proof {
        assert(s@.subrange(from as int, from as int) =~= Seq::<u8>::empty());
    }
    while i < to
        invariant
            from <= i <= to <= s.len(),
            out@ == s@.subrange(from as int, i as int),
        decreases to - i,
    {
        out.push(s[i]);
        proof {
            assert(s@.subrange(from as int, i as int).push(s@[i as int]) =~= s@.subrange(
                from as int,
                i + 1,
            ));
        }
        i = i + 1;
    }
    out
}

/// A copy of a byte slice.
pub fn copy_bytes(s: &[u8]) -> (r: Vec<u8>)
    ensures
        r@ == s@,
{
    proof {
        assert(s@.subrange(0, s@.len() as int) =~= s@);
    }
    byte_range(s, 0, s.len())
}

/// Appends `more` to `out`.
pub fn extend_bytes(out: &mut Vec<u8>, more: &[u8])
    ensures
        final(out)@ == old(out)@ + more@,
{
    let ghost start = out@;
    let mut i: usize = 0;
    proof {
        assert(start + more@.take(0) =~= start);
    }
    while i < more.len()
        invariant
            i <= more.len(),
            out@ == start + more@.take(i as int),
        decreases more.len() - i,
    {
        out.push(more[i]);
        proof {
            assert((start + more@.take(i as int)).push(more@[i as int]) =~= start + more@.take(
                i + 1,
            ));
        }
        i = i + 1;
    }
    proof {
        assert(more@.take(i as int) =~= more@);
    }
}

/// The number that a byte sequence stands for, most significant byte first.
pub open spec fn be_value(s: Seq<u8>) -> nat
    decreases s.len(),
{
    if s.len() == 0 {
        0
    } else {
        be_value(s.drop_last()) * 256 + s.last() as nat
    }
}

/// The `width` bytes of a number, most significant first.
pub open spec fn be_bytes(n: nat, width: nat) -> Seq<u8>
    decreases width,
{
    if width == 0 {
        Seq::empty()
    } else {
        be_bytes(n / 256, (width - 1) as nat).push((n % 256) as u8)
    }
}

/// 256 to the power of `width`.
pub open spec fn byte_capacity(width: nat) -> nat
    decreases width,
{
    if width == 0 {
        1
    } else {
        256 * byte_capacity((width - 1) as nat)
    }
}

/// A number that fits in `width` bytes is read back from its bytes.
pub proof fn be_reads_back(n: nat, width: nat)
    requires
        n < byte_capacity(width),
    ensures
        be_bytes(n, width).len() == width,
        be_value(be_bytes(n, width)) == n,
    decreases width,
{
    if width > 0 {
        let w1 = (width - 1) as nat;
        assert(n / 256 < byte_capacity(w1)) by (nonlinear_arith)
            requires
                n < 256 * byte_capacity(w1),
        ;
        be_reads_back(n / 256, w1);
        let s = be_bytes(n, width);
        assert(s.drop_last() =~= be_bytes(n / 256, w1));
        assert(s.last() == (n % 256) as u8);
    }
}

pub proof fn lemma_be_value_bound(s: Seq<u8>)
    ensures
        be_value(s) < byte_capacity(s.len()),
    decreases s.len(),
{
    if s.len() > 0 {
        lemma_be_value_bound(s.drop_last());
        let v = be_value(s.drop_last());
        let cap = byte_capacity((s.len() - 1) as nat);
        assert(v * 256 + s.last() < 256 * cap) by (nonlinear_arith)
            requires
                v + 1 <= cap,
                s.last() < 256,
        ;
    }
}

/// Reads the four bytes at `at` as a number.
pub fn read_be_u32(s: &[u8], at: usize) -> (r: u32)
    requires
        at + 4 <= s.len(),
    ensures
        r == be_value(s@.subrange(at as int, at + 4)),
{
    proof {
        let w = s@.subrange(at as int, at + 4);
        reveal_with_fuel(be_value, 5);
        assert(w.drop_last().drop_last().drop_last().drop_last() =~= Seq::<u8>::empty());
        assert(w.last() == s@[at + 3]);
        assert(w.drop_last().last() == s@[at + 2]);
        assert(w.drop_last().drop_last().last() == s@[at + 1]);
        assert(w.drop_last().drop_last().drop_last().last() == s@[at as int]);
    }
    let b0: u32 = s[at] as u32;
    let b1: u32 = s[at + 1] as u32;
    let b2: u32 = s[at + 2] as u32;
    let b3: u32 = s[at + 3] as u32;
    ((b0 * 256 + b1) * 256 + b2) * 256 + b3
}

/// Reads the first eight bytes as a number.
pub fn read_be_u64(s: &[u8]) -> (r: u64)
    requires
        8 <= s.len(),
    ensures
        r == be_value(s@.take(8)),
{
    let mut value: u64 = 0;
    let mut i: usize = 0;
    proof {
        assert(s@.take(0) =~= Seq::<u8>::empty());
    }
    while i < 8
        invariant
            i <= 8 <= s.len(),
            value == be_value(s@.take(i as int)),
        decreases 8 - i,
    {
        proof {
            lemma_be_value_bound(s@.take(i as int));
            reveal_with_fuel(byte_capacity, 9);
            assert(byte_capacity(i as nat) <= 72057594037927936);
            assert(s@.take(i + 1).drop_last() =~= s@.take(i as int));
            assert(s@.take(i + 1).last() == s@[i as int]);
        }
        value = value * 256 + s[i] as u64;
        i = i + 1;
    }
    value
}

/// The byte of a decimal digit.
pub open spec fn is_byte_digit(b: u8) -> bool {
    48 <= b <= 57
}

/// The number that a run of digit bytes stands for.
pub open spec fn byte_digits_value(s: Seq<u8>) -> nat
    decreases s.len(),
{
    if s.len() == 0 {
        0
    } else {
        (byte_digits_value(s.drop_last()) * 10 + (s.last() - 48)) as nat
    }
}

/// A 64-bit number written with one digit byte or more and nothing else.
pub open spec fn parsed_byte_digits(s: Seq<u8>) -> Option<u64> {
    if s.len() > 0 && (forall|i: int| 0 <= i < s.len() ==> is_byte_digit(#[trigger] s[i]))
        && byte_digits_value(s) <= u64::MAX {
        Some(byte_digits_value(s) as u64)
    } else {
        None
    }
}

proof fn lemma_byte_digits_monotone(s: Seq<u8>, k: int)
    requires
        0 <= k <= s.len(),
        forall|i: int| k <= i < s.len() ==> is_byte_digit(#[trigger] s[i]),
    ensures
        byte_digits_value(s.take(k)) <= byte_digits_value(s),
    decreases s.len() - k,
{
    if k == s.len() {
        assert(s.take(k) =~= s);
    } else {
        lemma_byte_digits_monotone(s, k + 1);
        assert(s.take(k + 1).drop_last() =~= s.take(k));
        assert(s.take(k + 1).last() == s[k]);
        assert(is_byte_digit(s[k]));
    }
}

/// Reads the digit bytes from `from` to the end.
pub fn parse_byte_digits(s: &[u8], from: usize) -> (r: Option<u64>)
    requires
        from <= s.len(),
    ensures
        r == parsed_byte_digits(s@.skip(from as int)),
{
    let ghost body = s@.skip(from as int);
    if from == s.len() {
        return None;
    }
    let mut i: usize = from;
    while i < s.len()
        invariant
            from <= i <= s.len(),
            body == s@.skip(from as int),
            forall|j: int| 0 <= j < i - from ==> is_byte_digit(#[trigger] body[j]),
        decreases s.len() - i,
    {
        assert(body[i - from] == s@[i as int]);
        if s[i] < 48 || s[i] > 57 {
            return None;
        }
        i = i + 1;
    }
    assert forall|j: int| 0 <= j < body.len() implies is_byte_digit(#[trigger] body[j]) by {}
    let mut value: u64 = 0;
    i = from;
    proof {
        assert(body.take(0) =~= Seq::<u8>::empty());
    }
    while i < s.len()
        invariant
            from <= i <= s.len(),
            body == s@.skip(from as int),
            forall|j: int| 0 <= j < body.len() ==> is_byte_digit(#[trigger] body[j]),
            value == byte_digits_value(body.take(i - from)),
        decreases s.len() - i,
    {
        let ghost k = i - from;
        let d: u64 = {
            assert(is_byte_digit(body[k]));
            (s[i] - 48) as u64
        };
        proof {
            assert(body.take(k + 1).drop_last() =~= body.take(k));
            assert(body.take(k + 1).last() == s@[i as int]);
            assert(byte_digits_value(body.take(k + 1)) == value * 10 + d);
            lemma_byte_digits_monotone(body, k + 1);
        }
        match value.checked_mul(10) {
            None => {
                return None;
            },
            Some(tens) => match tens.checked_add(d) {
                None => {
                    return None;
                },
                Some(next) => {
                    value = next;
                },
            },
        }
        i = i + 1;
    }
    proof {
        assert(body.take(body.len() as int) =~= body);
    }
    Some(value)
}

/// The digit bytes of a number.
pub open spec fn decimal_bytes(n: nat) -> Seq<u8>
    decreases n,
{
    if n < 10 {
        seq![(48 + n) as u8]
    } else {
        decimal_bytes(n / 10).push((48 + n % 10) as u8)
    }
}

/// Appends the digit bytes of a number to `out`.
pub fn push_decimal_bytes(out: &mut Vec<u8>, n: u64)
    ensures
        final(out)@ == old(out)@ + decimal_bytes(n as nat),
    decreases n,
{
    if n < 10 {
        out.push((48 + n) as u8);
        proof {
            assert(out@ =~= old(out)@ + decimal_bytes(n as nat));
        }
    } else {
        push_decimal_bytes(out, n / 10);
        out.push((48 + n % 10) as u8);
        proof {
            assert(out@ =~= old(out)@ + decimal_bytes(n as nat));
        }
    }
}

pub proof fn lemma_decimal_bytes(n: nat)
    ensures
        decimal_bytes(n).len() > 0,
        forall|i: int| 0 <= i < decimal_bytes(n).len() ==> is_byte_digit(#[trigger] decimal_bytes(n)[i]),
        byte_digits_value(decimal_bytes(n)) == n,
    decreases n,
{
    if n < 10 {
        let s = decimal_bytes(n);
        assert(s.drop_last() =~= Seq::<u8>::empty());
        assert(byte_digits_value(s.drop_last()) == 0);
    } else {
        lemma_decimal_bytes(n / 10);
        let s = decimal_bytes(n);
        assert(s.drop_last() =~= decimal_bytes(n / 10));
        assert(s.last() == (48 + n % 10) as u8);
        assert forall|i: int| 0 <= i < s.len() implies is_byte_digit(#[trigger] s[i]) by {
            if i < s.len() - 1 {
                assert(s[i] == decimal_bytes(n / 10)[i]);
            }
        }
    }
}

/// Reading the digit bytes of a 64-bit number gives the number back.
pub proof fn decimal_bytes_read_back(n: u64)
    ensures
        parsed_byte_digits(decimal_bytes(n as nat)) == Some(n),
{
    lemma_decimal_bytes(n as nat);
}

/// Numbers are written with their most significant byte first: each byte weighs as much as 256 of
/// the one behind it.
pub proof fn numbers_are_written_from_the_front(a: u8, b: u8, c: u8, d: u8)
    ensures
        be_value(seq![a, b, c, d]) == a * 0x100_0000 + b * 0x1_0000 + c * 0x100 + d,
        be_bytes(
            (a as nat * 0x100_0000 + b as nat * 0x1_0000 + c as nat * 0x100 + d as nat) as nat,
            4,
        ) == seq![a, b, c, d],
{
    reveal_with_fuel(be_value, 5);
    reveal_with_fuel(be_bytes, 5);
    let s = seq![a, b, c, d];
    assert(s.drop_last() =~= seq![a, b, c]);
    assert(seq![a, b, c].drop_last() =~= seq![a, b]);
    assert(seq![a, b].drop_last() =~= seq![a]);
    assert(seq![a].drop_last() =~= Seq::<u8>::empty());
    let n = (a as nat * 0x100_0000 + b as nat * 0x1_0000 + c as nat * 0x100 + d as nat) as nat;
    assert(n / 256 == a * 0x1_0000 + b * 0x100 + c && n % 256 == d);
    assert(n / 256 / 256 == a * 0x100 + b && n / 256 % 256 == c);
    assert(n / 256 / 256 / 256 == a && n / 256 / 256 % 256 == b);
    assert(n / 256 / 256 / 256 % 256 == a);
    assert(be_bytes(n, 4) =~= s);
}

/// A number in digits grows by its last digit: what stands before it counts tenfold.
pub proof fn digits_count_tenfold(s: Seq<u8>, digit: u8)
    requires
        48 <= digit <= 57,
    ensures
        byte_digits_value(s.push(digit)) == byte_digits_value(s) * 10 + (digit - 48),
        byte_digits_value(seq![digit]) == digit - 48,
{
    assert(s.push(digit).drop_last() =~= s);
    assert(seq![digit].drop_last() =~= Seq::<u8>::empty());
    reveal_with_fuel(byte_digits_value, 2);
}

/// Bytes begin with a prefix exactly where they are it and something behind it.
pub proof fn prefixes_stand_in_front(s: Seq<u8>, prefix: Seq<u8>, rest: Seq<u8>)
    ensures
        has_byte_prefix(prefix + rest, prefix),
        (prefix + rest).skip(prefix.len() as int) == rest,
        has_byte_prefix(s, prefix) ==> s == prefix + s.skip(prefix.len() as int),
{
    assert((prefix + rest).take(prefix.len() as int) =~= prefix);
    assert((prefix + rest).skip(prefix.len() as int) =~= rest);
    if has_byte_prefix(s, prefix) {
        assert(s =~= s.take(prefix.len() as int) + s.skip(prefix.len() as int));
    }
}

} // verus!
