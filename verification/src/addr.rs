//! Internet addresses: their textual grammar and their classification.

use vstd::prelude::*;
use vstd::string::*;
use crate::table::TableKey;
use crate::text::{
    after_last_index, all_digits, chars_of, decimal, digits_value, is_digit, lemma_decimal_chars,
    lemma_decimal_digits, lemma_first_index_is, parse_number, parsed_number, pieces, rsplit_once,
    split, split_at_first, split_at_last, split_at_text, split_once, split_once_text, text_of,
    texts_are_split_at_the_first, texts_are_split_at_the_last, unsigned_body, views,
};

verus! {

/// An address of a host.
#[derive(Clone, Copy, Debug, PartialEq, Eq, Structural)]
pub enum IpAddress {
    /// The four octets as one number, the first octet most significant.
    V4(u32),
    /// The first and the last four segments, each as one number.
    V6(u64, u64),
}

/// An address of a socket.
#[derive(Clone, Copy, Debug, PartialEq, Eq, Structural)]
pub struct SocketAddress {
    pub ip: IpAddress,
    pub port: u16,
    pub flow_info: u32,
    pub scope_id: u32,
}

impl TableKey for SocketAddress {
    fn same(self, other: Self) -> (r: bool) {
        self == other
    }
}

/// One octet: one to three digits, without a leading zero, at most 255.
pub open spec fn octet(s: Seq<char>) -> Option<u8> {
    if 1 <= s.len() <= 3 && all_digits(s) && (s.len() == 1 || s[0] != '0') && digits_value(s)
        <= 255 {
        Some(digits_value(s) as u8)
    } else {
        None
    }
}

/// The number of an address made of four octets.
pub open spec fn from_octets(a: u8, b: u8, c: u8, d: u8) -> u32 {
    (((a as int * 256 + b) * 256 + c) * 256 + d) as u32
}

/// Four octets with dots between them.
pub open spec fn dotted(s: Seq<char>) -> Option<u32> {
    let p = pieces(s, '.');
    if p.len() == 4 && octet(p[0]) is Some && octet(p[1]) is Some && octet(p[2]) is Some && octet(
        p[3],
    ) is Some {
        Some(from_octets(octet(p[0])->0, octet(p[1])->0, octet(p[2])->0, octet(p[3])->0))
    } else {
        None
    }
}

/// The number that a hexadecimal digit stands for.
pub open spec fn hex_value(c: char) -> Option<u16> {
    if '0' <= c && c <= '9' {
        Some((c as u32 - '0' as u32) as u16)
    } else if 'a' <= c && c <= 'f' {
        Some((c as u32 - 'a' as u32 + 10) as u16)
    } else if 'A' <= c && c <= 'F' {
        Some((c as u32 - 'A' as u32 + 10) as u16)
    } else {
        None
    }
}

/// The number that a run of hexadecimal digits stands for.
pub open spec fn hex_number(s: Seq<char>) -> Option<nat>
    decreases s.len(),
{
    if s.len() == 0 {
        Some(0)
    } else {
        match (hex_number(s.drop_last()), hex_value(s.last())) {
            (Some(n), Some(d)) => Some(n * 16 + d as nat),
            _ => None,
        }
    }
}

/// One segment: one to four hexadecimal digits.
pub open spec fn segment(s: Seq<char>) -> Option<u16> {
    if 1 <= s.len() <= 4 && hex_number(s) is Some {
        Some((hex_number(s)->0) as u16)
    } else {
        None
    }
}

/// The segments of pieces, where the last one may be four dotted octets.
pub open spec fn segments_of(p: Seq<Seq<char>>, dotted_end: bool) -> Option<Seq<u16>>
    decreases p.len(),
{
    if p.len() == 0 {
        Some(Seq::empty())
    } else {
        match (segments_of(p.drop_last(), false), segment(p.last()), dotted(p.last())) {
            (Some(front), Some(last), _) => Some(front.push(last)),
            (Some(front), None, Some(v4)) => if dotted_end {
                Some(front.push((v4 / 65536) as u16).push((v4 % 65536) as u16))
            } else {
                None
            },
            _ => None,
        }
    }
}

/// The segments of a possibly empty run with colons between them.
pub open spec fn segment_run(s: Seq<char>, dotted_end: bool) -> Option<Seq<u16>> {
    if s.len() == 0 {
        Some(Seq::empty())
    } else {
        segments_of(pieces(s, ':'), dotted_end)
    }
}

/// The eight segments of an address, of which a double colon may stand for one zero or more.
pub open spec fn eight_segments(s: Seq<char>) -> Option<Seq<u16>> {
    match split_at_text(s, "::"@) {
        Some((front, back)) => match (segment_run(front, false), segment_run(back, true)) {
            (Some(head), Some(tail)) => if head.len() + tail.len() <= 7 {
                Some(head + Seq::new((8 - head.len() - tail.len()) as nat, |i: int| 0u16) + tail)
            } else {
                None
            },
            _ => None,
        },
        None => match segment_run(s, true) {
            Some(all) => if all.len() == 8 {
                Some(all)
            } else {
                None
            },
            None => None,
        },
    }
}

/// Four segments as one number.
pub open spec fn four_segments(s: Seq<u16>, from: int) -> u64 {
    (((s[from] as int * 65536 + s[from + 1]) * 65536 + s[from + 2]) * 65536 + s[from + 3]) as u64
}

/// An address of the older or the newer kind.
pub open spec fn ip_address(s: Seq<char>) -> Option<IpAddress> {
    match dotted(s) {
        Some(v4) => Some(IpAddress::V4(v4)),
        None => match eight_segments(s) {
            Some(all) => Some(IpAddress::V6(four_segments(all, 0), four_segments(all, 4))),
            None => None,
        },
    }
}

/// A run of digits of at most `max`, leading zeros allowed.
pub open spec fn plain_number(s: Seq<char>, max: nat) -> Option<nat> {
    if s.len() > 0 && all_digits(s) && digits_value(s) <= max {
        Some(digits_value(s))
    } else {
        None
    }
}

/// `a.b.c.d:port`.
pub open spec fn socket_v4(s: Seq<char>) -> Option<SocketAddress> {
    match split_at_first(s, ':') {
        Some((host, port)) => match (dotted(host), plain_number(port, 65535)) {
            (Some(ip), Some(port)) => Some(
                SocketAddress {
                    ip: IpAddress::V4(ip),
                    port: port as u16,
                    flow_info: 0,
                    scope_id: 0,
                },
            ),
            _ => None,
        },
        None => None,
    }
}

/// `address` or `address%scope`.
pub open spec fn scoped(s: Seq<char>) -> Option<(Seq<u16>, u32)> {
    match split_at_first(s, '%') {
        Some((host, scope)) => match (eight_segments(host), plain_number(scope, u32::MAX as nat)) {
            (Some(all), Some(scope)) => Some((all, scope as u32)),
            _ => None,
        },
        None => match eight_segments(s) {
            Some(all) => Some((all, 0)),
            None => None,
        },
    }
}

/// `[address]:port` or `[address%scope]:port`.
pub open spec fn socket_v6(s: Seq<char>) -> Option<SocketAddress> {
    if s.len() > 0 && s[0] == '[' {
        match split_at_first(s.skip(1), ']') {
            Some((inside, after)) => if after.len() > 0 && after[0] == ':' {
                match (scoped(inside), plain_number(after.skip(1), 65535)) {
                    (Some((all, scope)), Some(port)) => Some(
                        SocketAddress {
                            ip: IpAddress::V6(four_segments(all, 0), four_segments(all, 4)),
                            port: port as u16,
                            flow_info: 0,
                            scope_id: scope,
                        },
                    ),
                    _ => None,
                }
            } else {
                None
            },
            None => None,
        }
    } else {
        None
    }
}

/// The address that a text names.
pub open spec fn socket_address(s: Seq<char>) -> Option<SocketAddress> {
    match socket_v4(s) {
        Some(a) => Some(a),
        None => socket_v6(s),
    }
}

fn read_plain_number(s: &str, max: u64) -> (r: Option<u64>)
    ensures
        match plain_number(s@, max as nat) {
            Some(n) => r == Some(n as u64),
            None => r is None,
        },
{
    let chars = chars_of(s);
    if chars.len() > 0 && chars[0] == '+' {
        assert(!crate::text::is_digit(s@[0]));
        return None;
    }
    parse_number(s, max)
}

fn read_octet(s: &str) -> (r: Option<u8>)
    ensures
        r == octet(s@),
{
    let chars = chars_of(s);
    if chars.len() < 1 || chars.len() > 3 {
        return None;
    }
    if chars.len() > 1 && chars[0] == '0' {
        return None;
    }
    match read_plain_number(s, 255) {
        Some(n) => Some(n as u8),
        None => None,
    }
}

fn read_dotted(s: &str) -> (r: Option<u32>)
    ensures
        r == dotted(s@),
{
    let p = split(s, '.');
    let ghost model = pieces(s@, '.');
    assert(p@.len() == views(p@).len());
    if p.len() != 4 {
        return None;
    }
    assert(p@[0]@ == model[0] && p@[1]@ == model[1] && p@[2]@ == model[2] && p@[3]@ == model[3]);
    let a = read_octet(p[0].as_str());
    let b = read_octet(p[1].as_str());
    let c = read_octet(p[2].as_str());
    let d = read_octet(p[3].as_str());
    match (a, b, c, d) {
        (Some(a), Some(b), Some(c), Some(d)) => Some(
            ((a as u32 * 256 + b as u32) * 256 + c as u32) * 256 + d as u32,
        ),
        _ => None,
    }
}

fn read_hex_digit(c: char) -> (r: Option<u16>)
    ensures
        r == hex_value(c),
{
    if '0' <= c && c <= '9' {
        Some((c as u32 - '0' as u32) as u16)
    } else if 'a' <= c && c <= 'f' {
        Some((c as u32 - 'a' as u32 + 10) as u16)
    } else if 'A' <= c && c <= 'F' {
        Some((c as u32 - 'A' as u32 + 10) as u16)
    } else {
        None
    }
}

proof fn lemma_hex_prefix(s: Seq<char>, k: int)
    requires
        0 <= k <= s.len(),
        hex_number(s.take(k)) is None,
    ensures
        hex_number(s) is None,
    decreases s.len() - k,
{
    if k == s.len() {
        assert(s.take(k) =~= s);
    } else {
        assert(s.take(k + 1).drop_last() =~= s.take(k));
        lemma_hex_prefix(s, k + 1);
    }
}

fn read_segment(s: &str) -> (r: Option<u16>)
    ensures
        r == segment(s@),
{
    let chars = chars_of(s);
    if chars.len() < 1 || chars.len() > 4 {
        return None;
    }
    let mut value: u32 = 0;
    let mut bound: u32 = 1;
    let mut i: usize = 0;
    proof {
        assert(s@.take(0) =~= Seq::<char>::empty());
    }
    while i < chars.len()
        invariant
            chars@ == s@,
            i <= chars.len() <= 4,
            hex_number(s@.take(i as int)) == Some(value as nat),
            value < bound,
            i == 0 ==> bound == 1,
            i == 1 ==> bound == 16,
            i == 2 ==> bound == 256,
            i == 3 ==> bound == 4096,
            i == 4 ==> bound == 65536,
        decreases chars.len() - i,
    {
        proof {
            assert(s@.take(i + 1).drop_last() =~= s@.take(i as int));
            assert(s@.take(i + 1).last() == s@[i as int]);
        }
        match read_hex_digit(chars[i]) {
            Some(d) => {
                value = value * 16 + d as u32;
                bound = bound * 16;
            },
            None => {
                proof {
                    lemma_hex_prefix(s@, i + 1);
                }
                return None;
            },
        }
        i = i + 1;
    }
    proof {
        assert(s@.take(i as int) =~= s@);
    }
    Some(value as u16)
}

proof fn lemma_segments_prefix(p: Seq<Seq<char>>, k: int)
    requires
        0 <= k < p.len(),
        segments_of(p.take(k), false) is None,
    ensures
        segments_of(p, true) is None,
        segments_of(p, false) is None,
    decreases p.len() - k,
{
    if k == p.len() - 1 {
        assert(p.drop_last() =~= p.take(k));
    } else {
        assert(p.take(k + 1).drop_last() =~= p.take(k));
        lemma_segments_prefix(p, k + 1);
    }
}

fn read_segment_run(s: &str, dotted_end: bool) -> (r: Option<Vec<u16>>)
    ensures
        match r {
            Some(v) => segment_run(s@, dotted_end) == Some(v@),
            None => segment_run(s@, dotted_end) is None,
        },
{
    let mut out: Vec<u16> = Vec::new();
    if s.is_empty() {
        return Some(out);
    }
    let p = split(s, ':');
    let ghost model = pieces(s@, ':');
    assert(p@.len() == views(p@).len());
    let mut i: usize = 0;
    proof {
        assert(model.take(0) =~= Seq::<Seq<char>>::empty());
    }
    while i < p.len()
        invariant
            s@.len() > 0,
            model == pieces(s@, ':'),
            views(p@) == model,
            p@.len() == model.len(),
            i <= p.len(),
            i < p.len() ==> segments_of(model.take(i as int), false) == Some(out@),
            i == p.len() ==> segments_of(model, dotted_end) == Some(out@),
            i == p.len() == 0 ==> out@.len() == 0,
        decreases p.len() - i,
    {
        assert(p@[i as int]@ == model[i as int]);
        proof {
            assert(model.take(i + 1).drop_last() =~= model.take(i as int));
            assert(model.take(i + 1).last() == model[i as int]);
            if i + 1 == p.len() {
                assert(model.take(i + 1) =~= model);
            }
        }
        match read_segment(p[i].as_str()) {
            Some(g) => {
                out.push(g);
            },
            None => match read_dotted(p[i].as_str()) {
                Some(v4) => {
                    if i + 1 == p.len() && dotted_end {
                        out.push((v4 / 65536) as u16);
                        out.push((v4 % 65536) as u16);
                    } else {
                        proof {
                            if i + 1 < p.len() {
                                lemma_segments_prefix(model, i + 1);
                            }
                        }
                        return None;
                    }
                },
                None => {
                    proof {
                        if i + 1 < p.len() {
                            lemma_segments_prefix(model, i + 1);
                        }
                    }
                    return None;
                },
            },
        }
        i = i + 1;
    }
    Some(out)
}

fn read_eight_segments(s: &str) -> (r: Option<Vec<u16>>)
    ensures
        match r {
            Some(v) => eight_segments(s@) == Some(v@) && v@.len() == 8,
            None => eight_segments(s@) is None,
        },
{
    proof {
        reveal_strlit("::");
    }
    match split_once_text(s, "::") {
        Some((front, back)) => {
            let head = read_segment_run(front.as_str(), false);
            let tail = read_segment_run(back.as_str(), true);
            match (head, tail) {
                (Some(head), Some(tail)) => {
                    if head.len() > 7 || tail.len() > 7 - head.len() {
                        return None;
                    }
                    let mut out: Vec<u16> = head;
                    let ghost front_segments = out@;
                    let zeros: usize = 8 - out.len() - tail.len();
                    let mut i: usize = 0;
                    while i < zeros
                        invariant
                            i <= zeros,
                            out@ == front_segments + Seq::new(i as nat, |j: int| 0u16),
                        decreases zeros - i,
                    {
                        out.push(0);
                        proof {
                            assert(out@ =~= front_segments + Seq::new((i + 1) as nat, |j: int| 0u16));
                        }
                        i = i + 1;
                    }
                    let ghost padded = out@;
                    i = 0;
                    while i < tail.len()
                        invariant
                            i <= tail.len(),
                            out@ == padded + tail@.take(i as int),
                        decreases tail.len() - i,
                    {
                        out.push(tail[i]);
                        proof {
                            assert(out@ =~= padded + tail@.take(i + 1));
                        }
                        i = i + 1;
                    }
                    proof {
                        assert(tail@.take(i as int) =~= tail@);
                    }
                    Some(out)
                },
                _ => None,
            }
        },
        None => match read_segment_run(s, true) {
            Some(all) => if all.len() == 8 {
                Some(all)
            } else {
                None
            },
            None => None,
        },
    }
}

fn join_four(s: &Vec<u16>, from: usize) -> (r: u64)
    requires
        from + 4 <= s.len(),
    ensures
        r == four_segments(s@, from as int),
{
    let a: u64 = s[from] as u64;
    let b: u64 = s[from + 1] as u64;
    let c: u64 = s[from + 2] as u64;
    let d: u64 = s[from + 3] as u64;
    ((a * 65536 + b) * 65536 + c) * 65536 + d
}

/// Reads an address of a host.
pub fn parse_ip_address(s: &str) -> (r: Option<IpAddress>)
    ensures
        r == ip_address(s@),
{
    match read_dotted(s) {
        Some(v4) => Some(IpAddress::V4(v4)),
        None => match read_eight_segments(s) {
            Some(all) => Some(IpAddress::V6(join_four(&all, 0), join_four(&all, 4))),
            None => None,
        },
    }
}

fn read_socket_v4(s: &str) -> (r: Option<SocketAddress>)
    ensures
        r == socket_v4(s@),
{
    match split_once(s, ':') {
        Some((host, port)) => match (read_dotted(host.as_str()), read_plain_number(
            port.as_str(),
            65535,
        )) {
            (Some(ip), Some(port)) => Some(
                SocketAddress {
                    ip: IpAddress::V4(ip),
                    port: port as u16,
                    flow_info: 0,
                    scope_id: 0,
                },
            ),
            _ => None,
        },
        None => None,
    }
}

fn read_scoped(s: &str) -> (r: Option<(Vec<u16>, u32)>)
    ensures
        match r {
            Some((all, scope)) => scoped(s@) == Some((all@, scope)) && all@.len() == 8,
            None => scoped(s@) is None,
        },
{
    match split_once(s, '%') {
        Some((host, scope)) => match (
            read_eight_segments(host.as_str()),
            read_plain_number(scope.as_str(), u32::MAX as u64),
        ) {
            (Some(all), Some(scope)) => Some((all, scope as u32)),
            _ => None,
        },
        None => match read_eight_segments(s) {
            Some(all) => Some((all, 0)),
            None => None,
        },
    }
}

fn read_socket_v6(s: &str) -> (r: Option<SocketAddress>)
    ensures
        r == socket_v6(s@),
{
    let chars = chars_of(s);
    if chars.len() == 0 || chars[0] != '[' {
        return None;
    }
    let rest = text_of(&chars, 1, chars.len());
    assert(rest@ =~= s@.skip(1));
    match split_once(rest.as_str(), ']') {
        Some((inside, after)) => {
            let tail = chars_of(after.as_str());
            if tail.len() == 0 || tail[0] != ':' {
                return None;
            }
            let port_text = text_of(&tail, 1, tail.len());
            assert(port_text@ =~= after@.skip(1));
            match (read_scoped(inside.as_str()), read_plain_number(port_text.as_str(), 65535)) {
                (Some((all, scope)), Some(port)) => Some(
                    SocketAddress {
                        ip: IpAddress::V6(join_four(&all, 0), join_four(&all, 4)),
                        port: port as u16,
                        flow_info: 0,
                        scope_id: scope,
                    },
                ),
                _ => None,
            }
        },
        None => None,
    }
}

/// Reads an address of a socket.
pub fn parse_socket_address(s: &str) -> (r: Option<SocketAddress>)
    ensures
        r == socket_address(s@),
{
    match read_socket_v4(s) {
        Some(a) => Some(a),
        None => read_socket_v6(s),
    }
}

impl IpAddress {
    /// The address that stands for every local one.
    pub open spec fn unspecified(self) -> bool {
        match self {
            IpAddress::V4(v4) => v4 == 0,
            IpAddress::V6(hi, lo) => hi == 0 && lo == 0,
        }
    }

    /// Whether this is the address that stands for every local one.
    pub fn is_unspecified(&self) -> (r: bool)
        ensures
            r == self.unspecified(),
    {
        match self {
            IpAddress::V4(v4) => *v4 == 0,
            IpAddress::V6(hi, lo) => *hi == 0 && *lo == 0,
        }
    }

    /// An address that the public internet does not route.
    ///
    /// For four octets: 10.x, 172.16 to 172.31, 192.168 and 127.x. For eight segments: the
    /// loopback address and those whose first seven bits are 1111110.
    pub open spec fn private_or_loopback(self) -> bool {
        match self {
            IpAddress::V4(v4) => {
                ||| v4 / 16777216 == 10
                ||| v4 / 1048576 == 172 * 16 + 1
                ||| v4 / 65536 == 192 * 256 + 168
                ||| v4 / 16777216 == 127
            },
            IpAddress::V6(hi, lo) => (hi == 0 && lo == 1) || hi / 144115188075855872 == 126,
        }
    }

    /// Whether the public internet does not route this address.
    pub fn is_private_or_loopback(&self) -> (r: bool)
        ensures
            r == self.private_or_loopback(),
    {
        match self {
            IpAddress::V4(v4) => *v4 / 16777216 == 10 || *v4 / 1048576 == 172 * 16 + 1 || *v4
                / 65536 == 192 * 256 + 168 || *v4 / 16777216 == 127,
            IpAddress::V6(hi, lo) => (*hi == 0 && *lo == 1) || *hi / 144115188075855872 == 126,
        }
    }
}

/// A text without brackets at its front.
pub open spec fn unbracketed_front(s: Seq<char>) -> Seq<char>
    decreases s.len(),
{
    if s.len() > 0 && (s[0] == '[' || s[0] == ']') {
        unbracketed_front(s.skip(1))
    } else {
        s
    }
}

/// A text without brackets at its end.
pub open spec fn unbracketed_back(s: Seq<char>) -> Seq<char>
    decreases s.len(),
{
    if s.len() > 0 && (s.last() == '[' || s.last() == ']') {
        unbracketed_back(s.drop_last())
    } else {
        s
    }
}

fn strip_brackets(s: &str) -> (r: String)
    ensures
        r@ == unbracketed_back(unbracketed_front(s@)),
{
    let chars = chars_of(s);
    let mut from: usize = 0;
    proof {
        assert(s@.skip(0) =~= s@);
    }
    while from < chars.len() && (chars[from] == '[' || chars[from] == ']')
        invariant
            chars@ == s@,
            from <= chars.len(),
            unbracketed_front(s@) == unbracketed_front(s@.skip(from as int)),
        decreases chars.len() - from,
    {
        proof {
            assert(s@.skip(from as int).skip(1) =~= s@.skip(from + 1));
        }
        from = from + 1;
    }
    let ghost front = s@.skip(from as int);
    let mut to: usize = chars.len();
    proof {
        assert(unbracketed_front(s@) == front);
        assert(s@.subrange(from as int, to as int) =~= front);
    }
    while to > from && (chars[to - 1] == '[' || chars[to - 1] == ']')
        invariant
            chars@ == s@,
            from <= to <= chars.len(),
            unbracketed_back(front) == unbracketed_back(s@.subrange(from as int, to as int)),
        decreases to,
    {
        proof {
            assert(s@.subrange(from as int, to as int).drop_last() =~= s@.subrange(
                from as int,
                to - 1,
            ));
            assert(s@.subrange(from as int, to as int).last() == s@[to - 1]);
        }
        to = to - 1;
    }
    proof {
        if to > from {
            assert(s@.subrange(from as int, to as int).last() == s@[to - 1]);
        }
    }
    text_of(&chars, from, to)
}

/// The host part of a mesh target: what stands between the last `@` and the last colon after
/// it, or the whole target where there is no such colon, without brackets around it.
pub open spec fn mesh_target_host(target: Seq<char>) -> Seq<char> {
    let after_at = match split_at_last(target, '@') {
        Some((_, after)) => after,
        None => target,
    };
    let host = match split_at_last(after_at, ':') {
        Some((host, _)) => host,
        None => target,
    };
    unbracketed_back(unbracketed_front(host))
}

/// Whether a mesh target names a private or loopback address.
pub open spec fn private_mesh_target(target: Seq<char>) -> bool {
    match ip_address(mesh_target_host(target)) {
        Some(ip) => ip.private_or_loopback(),
        None => false,
    }
}

/// Whether a mesh target names a private or loopback address.
pub fn is_private_mesh_target(target: &str) -> (r: bool)
    ensures
        r == private_mesh_target(target@),
{
    let after_at = match rsplit_once(target, '@') {
        Some((_, after)) => after,
        None => target.to_owned(),
    };
    let host = match rsplit_once(after_at.as_str(), ':') {
        Some((host, _)) => host,
        None => target.to_owned(),
    };
    let bare = strip_brackets(host.as_str());
    match parse_ip_address(bare.as_str()) {
        Some(ip) => ip.is_private_or_loopback(),
        None => false,
    }
}

/// An address is made of its four octets, the first one as the most significant.
pub proof fn octets_make_the_address(a: u8, b: u8, c: u8, d: u8)
    ensures
        from_octets(a, b, c, d) / 0x100_0000 == a,
        from_octets(a, b, c, d) / 0x1_0000 % 0x100 == b,
        from_octets(a, b, c, d) / 0x100 % 0x100 == c,
        from_octets(a, b, c, d) % 0x100 == d,
{
}

/// Private are the addresses that begin with 10, with 172 and 16 to 31, with 192 and 168, and those
/// of the loopback, which begin with 127; and no other of four octets.
pub proof fn private_addresses_are_known_by_their_front(a: u8, b: u8, c: u8, d: u8)
    ensures
        IpAddress::V4(from_octets(a, b, c, d)).private_or_loopback() <==> a == 10 || (a == 172
            && 16 <= b <= 31) || (a == 192 && b == 168) || a == 127,
        IpAddress::V4(from_octets(a, b, c, d)).unspecified() <==> a == 0 && b == 0 && c == 0 && d
            == 0,
{
}

/// Of the longer addresses, private are those whose first segment begins with the seven bits of fc,
/// and the loopback, whose segments are all nothing but the last, which is one.
pub proof fn private_segments_are_known_by_their_front(s: Seq<u16>)
    requires
        s.len() == 8,
    ensures
        IpAddress::V6(four_segments(s, 0), four_segments(s, 4)).private_or_loopback() <==> 0xfc00
            <= s[0] <= 0xfdff || (s[7] == 1 && forall|i: int|
            0 <= i < 7 ==> #[trigger] s[i] == 0),
{
    let hi = four_segments(s, 0);
    let lo = four_segments(s, 4);
    assert(hi == ((s[0] as int * 65536 + s[1]) * 65536 + s[2]) * 65536 + s[3]);
    assert(lo == ((s[4] as int * 65536 + s[5]) * 65536 + s[6]) * 65536 + s[7]);
    assert(hi / 144115188075855872 == s[0] / 512);
    if s[7] == 1 && forall|i: int| 0 <= i < 7 ==> #[trigger] s[i] == 0 {
        assert(s[0] == 0 && s[1] == 0 && s[2] == 0 && s[3] == 0);
        assert(s[4] == 0 && s[5] == 0 && s[6] == 0);
    }
    if hi == 0 && lo == 1 {
        assert forall|i: int| 0 <= i < 7 implies #[trigger] s[i] == 0 by {
            assert(s[0] == 0 && s[1] == 0 && s[2] == 0 && s[3] == 0);
            assert(s[4] == 0 && s[5] == 0 && s[6] == 0);
        }
    }
}

proof fn lemma_octet(n: u8)
    ensures
        octet(decimal(n as nat)) == Some(n),
        !decimal(n as nat).contains('.'),
        !decimal(n as nat).contains(':'),
{
    lemma_decimal_digits(n as nat);
    lemma_decimal_chars(n as nat, '.');
    lemma_decimal_chars(n as nat, ':');
    reveal_with_fuel(decimal, 4);
}

proof fn lemma_pieces_front(front: Seq<char>, c: char, back: Seq<char>)
    requires
        !front.contains(c),
    ensures
        pieces(front + seq![c] + back, c) == seq![front] + pieces(back, c),
        pieces(front, c) == seq![front],
{
    let s = front + seq![c] + back;
    let n = front.len() as int;
    assert forall|j: int| 0 <= j < n implies s[j] != c && front[j] != c by {
        assert(s[j] == front[j]);
        assert(front.contains(front[j]));
    }
    assert(s[n] == c);
    lemma_first_index_is(s, c, n);
    lemma_first_index_is(front, c, n);
    assert(s.take(n) =~= front);
    assert(s.skip(n + 1) =~= back);
}

/// An address as it is written: four numbers with dots between them.
pub open spec fn dotted_text(a: u8, b: u8, c: u8, d: u8) -> Seq<char> {
    decimal(a as nat) + seq!['.'] + (decimal(b as nat) + seq!['.'] + (decimal(c as nat) + seq!['.']
        + decimal(d as nat)))
}

/// An address that is written as four numbers with dots between them is read back.
pub proof fn dotted_addresses_are_read_back(a: u8, b: u8, c: u8, d: u8)
    ensures
        dotted(dotted_text(a, b, c, d)) == Some(from_octets(a, b, c, d)),
        ip_address(dotted_text(a, b, c, d)) == Some(IpAddress::V4(from_octets(a, b, c, d))),
        !dotted_text(a, b, c, d).contains(':'),
{
    lemma_octet(a);
    lemma_octet(b);
    lemma_octet(c);
    lemma_octet(d);
    let da = decimal(a as nat);
    let db = decimal(b as nat);
    let dc = decimal(c as nat);
    let dd = decimal(d as nat);
    lemma_pieces_front(da, '.', db + seq!['.'] + (dc + seq!['.'] + dd));
    lemma_pieces_front(db, '.', dc + seq!['.'] + dd);
    lemma_pieces_front(dc, '.', dd);
    lemma_pieces_front(dd, '.', dd);
    let s = dotted_text(a, b, c, d);
    let p = pieces(s, '.');
    assert(p =~= seq![da, db, dc, dd]);
    assert forall|i: int| 0 <= i < s.len() implies s[i] != ':' by {
        lemma_not_in(da, ':');
        lemma_not_in(db, ':');
        lemma_not_in(dc, ':');
        lemma_not_in(dd, ':');
    }
}

proof fn lemma_not_in(s: Seq<char>, c: char)
    requires
        !s.contains(c),
    ensures
        forall|i: int| 0 <= i < s.len() ==> #[trigger] s[i] != c,
{
    assert forall|i: int| 0 <= i < s.len() implies #[trigger] s[i] != c by {
        assert(s.contains(s[i]));
    }
}

/// A socket that is written as an address and a port, with a colon between them, is read back.
pub proof fn sockets_are_read_back(a: u8, b: u8, c: u8, d: u8, port: u16)
    ensures
        socket_address(dotted_text(a, b, c, d) + seq![':'] + decimal(port as nat)) == Some(
            SocketAddress {
                ip: IpAddress::V4(from_octets(a, b, c, d)),
                port,
                flow_info: 0,
                scope_id: 0,
            },
        ),
{
    let host = dotted_text(a, b, c, d);
    let digits = decimal(port as nat);
    dotted_addresses_are_read_back(a, b, c, d);
    texts_are_split_at_the_first(host + seq![':'] + digits, ':', host, digits);
    lemma_decimal_digits(port as nat);
}

proof fn lemma_split_at_last(front: Seq<char>, c: char, back: Seq<char>)
    requires
        !back.contains(c),
    ensures
        split_at_last(front + seq![c] + back, c) == Some((front, back)),
    decreases back.len(),
{
    let s = front + seq![c] + back;
    lemma_not_in(back, c);
    lemma_after_last_is(s, c, front.len() as int + 1);
    assert(s.take(front.len() as int) =~= front);
    assert(s.skip(front.len() as int + 1) =~= back);
}

proof fn lemma_after_last_is(s: Seq<char>, c: char, i: int)
    requires
        0 < i <= s.len(),
        s[i - 1] == c,
        forall|j: int| i <= j < s.len() ==> s[j] != c,
    ensures
        after_last_index(s, c) == i,
    decreases s.len(),
{
    if i < s.len() {
        lemma_after_last_is(s.drop_last(), c, i);
    }
}

/// A peer is private where its address is, whatever its port and whoever is named before it.
pub proof fn peers_are_private_by_their_address(
    a: u8,
    b: u8,
    c: u8,
    d: u8,
    port: u16,
    user: Seq<char>,
)
    ensures
        ({
            let target = dotted_text(a, b, c, d) + seq![':'] + decimal(port as nat);
            let is_private = a == 10 || (a == 172 && 16 <= b <= 31) || (a == 192 && b == 168) || a
                == 127;
            &&& mesh_target_host(target) == dotted_text(a, b, c, d)
            &&& private_mesh_target(target) == is_private
            &&& mesh_target_host(user + seq!['@'] + target) == dotted_text(a, b, c, d)
            &&& private_mesh_target(user + seq!['@'] + target) == is_private
        }),
{
    let host = dotted_text(a, b, c, d);
    let digits = decimal(port as nat);
    let target = host + seq![':'] + digits;
    dotted_addresses_are_read_back(a, b, c, d);
    private_addresses_are_known_by_their_front(a, b, c, d);
    lemma_decimal_chars(port as nat, ':');
    lemma_split_at_last(host, ':', digits);
    lemma_no_brackets(a, b, c, d);
    lemma_no_at(a, b, c, d, port);
    texts_are_split_at_the_last(target, '@');
    if split_at_last(target, '@') is Some {
        let (front, back) = split_at_last(target, '@')->0;
        assert((front + seq!['@'] + back)[front.len() as int] == '@');
        assert(target.contains('@'));
    }
    lemma_split_at_last(user, '@', target);
}

proof fn lemma_no_brackets(a: u8, b: u8, c: u8, d: u8)
    ensures
        unbracketed_back(unbracketed_front(dotted_text(a, b, c, d))) == dotted_text(a, b, c, d),
{
    let s = dotted_text(a, b, c, d);
    lemma_decimal_digits(a as nat);
    lemma_decimal_digits(d as nat);
    let da = decimal(a as nat);
    let dd = decimal(d as nat);
    assert(s[0] == da[0]);
    assert(s.last() == dd[dd.len() - 1]);
    assert(is_digit(da[0]) && is_digit(dd[dd.len() - 1]));
}

proof fn lemma_no_at(a: u8, b: u8, c: u8, d: u8, port: u16)
    ensures
        !(dotted_text(a, b, c, d) + seq![':'] + decimal(port as nat)).contains('@'),
{
    let s = dotted_text(a, b, c, d) + seq![':'] + decimal(port as nat);
    lemma_decimal_chars(a as nat, '@');
    lemma_decimal_chars(b as nat, '@');
    lemma_decimal_chars(c as nat, '@');
    lemma_decimal_chars(d as nat, '@');
    lemma_decimal_chars(port as nat, '@');
    lemma_not_in(decimal(a as nat), '@');
    lemma_not_in(decimal(b as nat), '@');
    lemma_not_in(decimal(c as nat), '@');
    lemma_not_in(decimal(d as nat), '@');
    lemma_not_in(decimal(port as nat), '@');
    assert forall|i: int| 0 <= i < s.len() implies s[i] != '@' by {}
}

/// A hexadecimal digit stands for its value, in capitals or small letters, and each one before it
/// counts sixteenfold.
pub proof fn hexadecimal_digits_count_sixteenfold(s: Seq<char>, c: char, n: nat, d: u16)
    requires
        hex_number(s) == Some(n),
        hex_value(c) == Some(d),
    ensures
        d < 16,
        hex_number(s.push(c)) == Some((n * 16 + d) as nat),
        '0' <= c && c <= '9' ==> d == c as int - '0' as int,
        'a' <= c && c <= 'f' ==> d == c as int - 'a' as int + 10,
        'A' <= c && c <= 'F' ==> d == c as int - 'A' as int + 10,
{
    assert(s.push(c).drop_last() =~= s);
}

/// A longer address has eight segments. Where it is shortened, the two runs around the mark stand at
/// its ends, with nothing between them but zeros.
pub proof fn longer_addresses_have_eight_segments(s: Seq<char>)
    ensures
        match eight_segments(s) {
            Some(all) => all.len() == 8 && match split_at_text(s, "::"@) {
                Some((front, back)) => match (segment_run(front, false), segment_run(back, true)) {
                    (Some(head), Some(tail)) => head.len() + tail.len() < 8 && all.take(
                        head.len() as int,
                    ) == head && all.skip(8 - tail.len()) == tail && forall|i: int|
                        head.len() <= i < 8 - tail.len() ==> #[trigger] all[i] == 0,
                    _ => false,
                },
                None => segment_run(s, true) == Some(all),
            },
            None => true,
        },
{
    match split_at_text(s, "::"@) {
        Some((front, back)) => match (segment_run(front, false), segment_run(back, true)) {
            (Some(head), Some(tail)) => {
                if head.len() + tail.len() <= 7 {
                    let all = eight_segments(s)->0;
                    assert(all.take(head.len() as int) =~= head);
                    assert(all.skip(8 - tail.len()) =~= tail);
                }
            },
            _ => {},
        },
        None => {},
    }
}

/// A socket of a longer address is read from brackets around the address and a port behind them.
pub proof fn bracketed_sockets_are_read(inside: Seq<char>, port: u16)
    requires
        !inside.contains(']'),
    ensures
        match socket_v6(seq!['['] + (inside + seq![']'] + (seq![':'] + decimal(port as nat)))) {
            Some(socket) => socket.port == port && socket.flow_info == 0 && match scoped(inside) {
                Some((all, scope)) => socket.scope_id == scope && socket.ip == IpAddress::V6(
                    four_segments(all, 0),
                    four_segments(all, 4),
                ),
                None => false,
            },
            None => scoped(inside) is None,
        },
{
    let digits = decimal(port as nat);
    let after = seq![':'] + digits;
    let rest = inside + seq![']'] + after;
    let s = seq!['['] + rest;
    assert(s.skip(1) =~= rest);
    texts_are_split_at_the_first(rest, ']', inside, after);
    assert(after.skip(1) =~= digits);
    lemma_decimal_digits(port as nat);
}

} // verus!
