//! The endpoints of relays as they are configured.

use vstd::prelude::*;
use vstd::string::*;
use crate::addr::{parse_socket_address, socket_address, IpAddress, SocketAddress};
use crate::forwarder::{RelayForwardEndpoint, RelayForwardRole};
use crate::order::{ranked, sort_by_rank, Ranked};
use crate::text::{
    rsplit_once, same_text, split_at_first, split_at_last, split_once,
    texts_are_split_at_the_first, texts_are_split_at_the_last, trim, trimmed,
};

verus! {

/// A local socket that takes a controller's commands about a child.
#[derive(Clone, Copy, Debug, PartialEq, Eq, Structural)]
pub struct RelayFailoverListenerEndpoint {
    pub bind: SocketAddress,
    pub peer: SocketAddress,
    pub forward_target: SocketAddress,
}

/// A local socket that sends commands, and where they go.
#[derive(Clone, Copy, Debug, PartialEq, Eq, Structural)]
pub struct RelayFailoverControllerEndpoint {
    pub bind: SocketAddress,
    pub target: SocketAddress,
}

/// The message about a text that is not the address of a socket.
pub open spec fn bad_address(what: Seq<char>, text: Seq<char>) -> Seq<char> {
    what + " "@ + text + ": invalid socket address syntax"@
}

fn address_error(what: &str, text: &str) -> (r: String)
    ensures
        r@ == bad_address(what@, text@),
{
    let mut out = what.to_owned();
    out.append(" ");
    out.append(text);
    out.append(": invalid socket address syntax");
    out
}

/// The role that a word stands for.
pub open spec fn role_of(word: Seq<char>) -> Option<RelayForwardRole> {
    if word == "all"@ {
        Some(RelayForwardRole::All)
    } else if word == "source"@ {
        Some(RelayForwardRole::Source)
    } else if word == "repair"@ {
        Some(RelayForwardRole::Repair)
    } else {
        None
    }
}

fn parse_role(word: &str) -> (r: Option<RelayForwardRole>)
    ensures
        r == role_of(word@),
{
    if same_text(word, "all") {
        Some(RelayForwardRole::All)
    } else if same_text(word, "source") {
        Some(RelayForwardRole::Source)
    } else if same_text(word, "repair") {
        Some(RelayForwardRole::Repair)
    } else {
        None
    }
}

/// A child out of a local address and the text about it: its address, and its role behind the
/// last comma; every role where there is none.
pub open spec fn forward_endpoint_of(bind: Seq<char>, rest: Seq<char>) -> Result<
    RelayForwardEndpoint,
    Seq<char>,
> {
    let (target, word) = match split_at_last(rest, ',') {
        Some((target, word)) => (target, word),
        None => (rest, "all"@),
    };
    match role_of(word) {
        None => Err(
            "invalid relay forward role "@ + word + "; expected source, repair, or all"@,
        ),
        Some(role) => match (socket_address(bind), socket_address(target)) {
            (None, _) => Err(bad_address("invalid relay forward bind"@, bind)),
            (_, None) => Err(bad_address("invalid relay forward target"@, target)),
            (Some(bind), Some(target)) => Ok(RelayForwardEndpoint { bind, target, role }),
        },
    }
}

/// A child: `BIND=TARGET,ROLE`.
pub open spec fn forward_endpoint(value: Seq<char>) -> Result<RelayForwardEndpoint, Seq<char>> {
    match split_at_first(value, '=') {
        Some((bind, rest)) => forward_endpoint_of(bind, rest),
        None => Err("expected BIND=TARGET,ROLE"@),
    }
}

/// Whether a result is the one that is described.
pub open spec fn as_described<T>(r: Result<T, String>, model: Result<T, Seq<char>>) -> bool {
    match (r, model) {
        (Ok(x), Ok(y)) => x == y,
        (Err(x), Err(y)) => x@ == y,
        _ => false,
    }
}

/// Reads a child: `BIND=TARGET,ROLE`, where the role is source, repair, or all.
pub fn parse_relay_forward_endpoint(value: &str) -> (r: Result<RelayForwardEndpoint, String>)
    ensures
        as_described(r, forward_endpoint(value@)),
{
    let (bind, rest) = match split_once(value, '=') {
        Some(pair) => pair,
        None => {
            return Err("expected BIND=TARGET,ROLE".to_owned());
        },
    };
    let (target, word) = match rsplit_once(rest.as_str(), ',') {
        Some(pair) => pair,
        None => (rest, "all".to_owned()),
    };
    let role = match parse_role(word.as_str()) {
        Some(role) => role,
        None => {
            let mut message = "invalid relay forward role ".to_owned();
            message.append(word.as_str());
            message.append("; expected source, repair, or all");
            return Err(message);
        },
    };
    match parse_socket_address(bind.as_str()) {
        Some(bind) => match parse_socket_address(target.as_str()) {
            Some(target) => Ok(RelayForwardEndpoint { bind, target, role }),
            None => Err(address_error("invalid relay forward target", target.as_str())),
        },
        None => Err(address_error("invalid relay forward bind", bind.as_str())),
    }
}

/// A listener: `BIND=CONTROLLER_PEER,FORWARD_TARGET`.
pub open spec fn listener_endpoint(value: Seq<char>) -> Result<
    RelayFailoverListenerEndpoint,
    Seq<char>,
> {
    match split_at_first(value, '=') {
        Some((bind, rest)) => match split_at_first(rest, ',') {
            Some((peer, target)) => if socket_address(bind) is None {
                Err(bad_address("invalid failover listener bind"@, bind))
            } else if socket_address(peer) is None {
                Err(bad_address("invalid failover controller peer"@, peer))
            } else if socket_address(target) is None {
                Err(bad_address("invalid failover forward target"@, target))
            } else {
                Ok(
                    RelayFailoverListenerEndpoint {
                        bind: socket_address(bind)->0,
                        peer: socket_address(peer)->0,
                        forward_target: socket_address(target)->0,
                    },
                )
            },
            None => Err("expected BIND=CONTROLLER_PEER,FORWARD_TARGET"@),
        },
        None => Err("expected BIND=CONTROLLER_PEER,FORWARD_TARGET"@),
    }
}

/// Reads a listener: `BIND=CONTROLLER_PEER,FORWARD_TARGET`.
pub fn parse_relay_failover_listener_endpoint(value: &str) -> (r: Result<
    RelayFailoverListenerEndpoint,
    String,
>)
    ensures
        as_described(r, listener_endpoint(value@)),
{
    let (bind, rest) = match split_once(value, '=') {
        Some(pair) => pair,
        None => {
            return Err("expected BIND=CONTROLLER_PEER,FORWARD_TARGET".to_owned());
        },
    };
    let (peer, target) = match split_once(rest.as_str(), ',') {
        Some(pair) => pair,
        None => {
            return Err("expected BIND=CONTROLLER_PEER,FORWARD_TARGET".to_owned());
        },
    };
    let bind = match parse_socket_address(bind.as_str()) {
        Some(bind) => bind,
        None => {
            return Err(address_error("invalid failover listener bind", bind.as_str()));
        },
    };
    let peer = match parse_socket_address(peer.as_str()) {
        Some(peer) => peer,
        None => {
            return Err(address_error("invalid failover controller peer", peer.as_str()));
        },
    };
    match parse_socket_address(target.as_str()) {
        Some(forward_target) => Ok(
            RelayFailoverListenerEndpoint { bind, peer, forward_target },
        ),
        None => Err(address_error("invalid failover forward target", target.as_str())),
    }
}

/// A controller: `BIND=TARGET`.
pub open spec fn controller_endpoint(value: Seq<char>) -> Result<
    RelayFailoverControllerEndpoint,
    Seq<char>,
> {
    match split_at_first(value, '=') {
        Some((bind, target)) => if socket_address(bind) is None {
            Err(bad_address("invalid failover controller bind"@, bind))
        } else if socket_address(target) is None {
            Err(bad_address("invalid failover controller target"@, target))
        } else {
            Ok(
                RelayFailoverControllerEndpoint {
                    bind: socket_address(bind)->0,
                    target: socket_address(target)->0,
                },
            )
        },
        None => Err("expected BIND=TARGET"@),
    }
}

/// Reads a controller: `BIND=TARGET`.
pub fn parse_relay_failover_controller_endpoint(value: &str) -> (r: Result<
    RelayFailoverControllerEndpoint,
    String,
>)
    ensures
        as_described(r, controller_endpoint(value@)),
{
    let (bind, target) = match split_once(value, '=') {
        Some(pair) => pair,
        None => {
            return Err("expected BIND=TARGET".to_owned());
        },
    };
    let bind = match parse_socket_address(bind.as_str()) {
        Some(bind) => bind,
        None => {
            return Err(address_error("invalid failover controller bind", bind.as_str()));
        },
    };
    match parse_socket_address(target.as_str()) {
        Some(target) => Ok(RelayFailoverControllerEndpoint { bind, target }),
        None => Err(address_error("invalid failover controller target", target.as_str())),
    }
}

/// A key and a value, both without the white space around them, and neither empty.
pub open spec fn key_value(value: Seq<char>) -> Result<(Seq<char>, Seq<char>), Seq<char>> {
    match split_at_first(value, '=') {
        Some((key, val)) => if trimmed(key).len() == 0 || trimmed(val).len() == 0 {
            Err("expected non-empty KEY=VALUE"@)
        } else {
            Ok((trimmed(key), trimmed(val)))
        },
        None => Err("expected KEY=VALUE"@),
    }
}

/// Reads a key and a value.
pub fn parse_key_value(value: &str) -> (r: Result<(String, String), String>)
    ensures
        match (r, key_value(value@)) {
            (Ok((key, val)), Ok(pair)) => (key@, val@) == pair,
            (Err(error), Err(message)) => error@ == message,
            _ => false,
        },
{
    let (key, val) = match split_once(value, '=') {
        Some(pair) => pair,
        None => {
            return Err("expected KEY=VALUE".to_owned());
        },
    };
    let key = trim(key.as_str());
    let val = trim(val.as_str());
    proof {
        reveal_strlit("");
        assert(key@.len() == 0 ==> key@ =~= ""@);
        assert(val@.len() == 0 ==> val@ =~= ""@);
    }
    if same_text(key.as_str(), "") || same_text(val.as_str(), "") {
        return Err("expected non-empty KEY=VALUE".to_owned());
    }
    Ok((key, val))
}

/// The place of a host's address in the order of addresses: those of four octets first.
pub open spec fn ip_rank(ip: IpAddress) -> (nat, nat, nat) {
    match ip {
        IpAddress::V4(bits) => (0, 0, bits as nat),
        IpAddress::V6(high, low) => (1, high as nat, low as nat),
    }
}

/// Whether three numbers come no later than three others.
pub open spec fn triple_le(a: (nat, nat, nat), b: (nat, nat, nat)) -> bool {
    if a.0 != b.0 {
        a.0 < b.0
    } else if a.1 != b.1 {
        a.1 < b.1
    } else {
        a.2 <= b.2
    }
}

impl Ranked for SocketAddress {
    /// By the host, then by the port, then by the rest.
    open spec fn le(self, other: Self) -> bool {
        if ip_rank(self.ip) != ip_rank(other.ip) {
            triple_le(ip_rank(self.ip), ip_rank(other.ip))
        } else {
            triple_le(
                (self.port as nat, self.flow_info as nat, self.scope_id as nat),
                (other.port as nat, other.flow_info as nat, other.scope_id as nat),
            )
        }
    }

    proof fn rank_laws(a: Self, b: Self, c: Self) {
    }

    fn not_after(&self, other: &Self) -> (r: bool) {
        if self.ip != other.ip {
            return match (self.ip, other.ip) {
                (IpAddress::V4(a), IpAddress::V4(b)) => a <= b,
                (IpAddress::V4(_), IpAddress::V6(_, _)) => true,
                (IpAddress::V6(_, _), IpAddress::V4(_)) => false,
                (IpAddress::V6(a, c), IpAddress::V6(b, d)) => if a != b {
                    a < b
                } else {
                    c <= d
                },
            };
        }
        if self.port != other.port {
            self.port < other.port
        } else if self.flow_info != other.flow_info {
            self.flow_info < other.flow_info
        } else {
            self.scope_id <= other.scope_id
        }
    }
}

/// A list without what repeats the item before it.
pub open spec fn without_repeats(list: Seq<SocketAddress>) -> Seq<SocketAddress>
    decreases list.len(),
{
    if list.len() == 0 {
        Seq::empty()
    } else if list.len() > 1 && list[list.len() - 2] == list.last() {
        without_repeats(list.drop_last())
    } else {
        without_repeats(list.drop_last()).push(list.last())
    }
}

/// Addresses in order, each once.
pub fn settle_addresses(addresses: Vec<SocketAddress>) -> (r: Vec<SocketAddress>)
    ensures
        r@ == without_repeats(ranked(addresses@)),
{
    let sorted = sort_by_rank(addresses);
    let mut out: Vec<SocketAddress> = Vec::new();
    let mut i: usize = 0;
    proof {
        assert(sorted@.take(0) =~= Seq::<SocketAddress>::empty());
    }
    while i < sorted.len()
        invariant
            i <= sorted.len(),
            out@ == without_repeats(sorted@.take(i as int)),
        decreases sorted.len() - i,
    {
        proof {
            let now = sorted@.take(i + 1);
            assert(now.drop_last() =~= sorted@.take(i as int));
            assert(now.last() == sorted@[i as int]);
            if i > 0 {
                assert(now[i - 1] == sorted@[i - 1]);
            }
        }
        let repeated: bool = i > 0 && sorted[i - 1] == sorted[i];
        if !repeated {
            out.push(sorted[i]);
        }
        i = i + 1;
    }
    proof {
        assert(sorted@.take(i as int) =~= sorted@);
    }
    out
}

proof fn lemma_without_repeats(list: Seq<SocketAddress>)
    requires
        forall|i: int, j: int| 0 <= i < j < list.len() ==> (#[trigger] list[i]).le(
            #[trigger] list[j],
        ),
    ensures
        forall|i: int, j: int|
            0 <= i < j < without_repeats(list).len() ==> (#[trigger] without_repeats(list)[i]).le(
                #[trigger] without_repeats(list)[j],
            ) && without_repeats(list)[i] != without_repeats(list)[j],
        forall|a: SocketAddress| #[trigger]
            without_repeats(list).contains(a) <==> list.contains(a),
        list.len() > 0 ==> without_repeats(list).len() > 0 && without_repeats(list).last()
            == list.last(),
    decreases list.len(),
{
    if list.len() > 0 {
        let front = list.drop_last();
        assert forall|i: int, j: int| 0 <= i < j < front.len() implies (#[trigger] front[i]).le(
            #[trigger] front[j],
        ) by {
            assert(list[i].le(list[j]));
        }
        lemma_without_repeats(front);
        let rest = without_repeats(front);
        let r = without_repeats(list);
        let last = list.last();
        let repeated = list.len() > 1 && list[list.len() - 2] == last;
        if front.len() > 0 {
            assert(front.last() == list[list.len() - 2]);
        }
        assert forall|a: SocketAddress| #[trigger] r.contains(a) <==> list.contains(a) by {
            if list.contains(a) {
                let k = choose|k: int| 0 <= k < list.len() && list[k] == a;
                if k < front.len() {
                    assert(front[k] == a);
                    assert(front.contains(a));
                    assert(rest.contains(a));
                    let m = choose|m: int| 0 <= m < rest.len() && rest[m] == a;
                    assert(r[m] == a);
                } else {
                    assert(r[r.len() - 1] == a);
                }
            }
            if r.contains(a) {
                let m = choose|m: int| 0 <= m < r.len() && r[m] == a;
                if m < rest.len() {
                    assert(rest[m] == a);
                    assert(rest.contains(a));
                    let k = choose|k: int| 0 <= k < front.len() && front[k] == a;
                    assert(list[k] == a);
                } else {
                    assert(list[list.len() - 1] == a);
                }
            }
        }
        if !repeated {
            assert forall|i: int, j: int| 0 <= i < j < r.len() implies (#[trigger] r[i]).le(
                #[trigger] r[j],
            ) && r[i] != r[j] by {
                assert(r[i] == rest[i]);
                if j < rest.len() {
                    assert(r[j] == rest[j]);
                } else {
                    assert(rest.contains(rest[i]));
                    let k = choose|k: int| 0 <= k < front.len() && front[k] == rest[i];
                    assert(list[k] == rest[i]);
                    assert(list[list.len() - 1] == last);
                    assert(list[k].le(list[list.len() - 1]));
                    let b = front.last();
                    assert(b == rest.last());
                    assert(list[list.len() - 2].le(list[list.len() - 1]));
                    if rest[i] == last {
                        if i < rest.len() - 1 {
                            assert(rest[i].le(rest[rest.len() - 1]));
                        }
                        assert(b.le(last) && last.le(b));
                        assert(b == last);
                    }
                }
            }
        }
    }
}

/// Addresses that were settled stand in order, each once, and none is lost or added.
pub proof fn settled_addresses_are_a_set(addresses: Seq<SocketAddress>)
    ensures
        ({
            let r = without_repeats(ranked(addresses));
            &&& forall|i: int, j: int|
                0 <= i < j < r.len() ==> (#[trigger] r[i]).le(#[trigger] r[j]) && r[i] != r[j]
            &&& forall|a: SocketAddress| #[trigger] r.contains(a) <==> addresses.contains(a)
        }),
{
    broadcast use vstd::seq_lib::group_to_multiset_ensures;

    crate::order::ranking_orders(addresses);
    let sorted = ranked(addresses);
    lemma_without_repeats(sorted);
    assert forall|a: SocketAddress| sorted.contains(a) <==> addresses.contains(a) by {
        assert(sorted.contains(a) <==> sorted.to_multiset().count(a) > 0);
        assert(addresses.contains(a) <==> addresses.to_multiset().count(a) > 0);
    }
}

/// The addresses that a configured name stands for; a name that stands for none is refused.
pub fn resolved_addresses(kind: &str, value: &str, addresses: Vec<SocketAddress>) -> (r: Result<
    Vec<SocketAddress>,
    String,
>)
    ensures
        match r {
            Ok(found) => addresses@.len() > 0 && found == addresses,
            Err(message) => addresses@.len() == 0 && message@ == "--"@ + kind@ + " "@ + value@
                + " resolved no socket addresses"@,
        },
{
    if addresses.len() == 0 {
        let mut message = "--".to_owned();
        message.append(kind);
        message.append(" ");
        message.append(value);
        message.append(" resolved no socket addresses");
        return Err(message);
    }
    Ok(addresses)
}

/// Whether a text is two texts with a sign between them, the first of which does not hold it.
pub open spec fn is_pair(value: Seq<char>, front: Seq<char>, sign: char, back: Seq<char>) -> bool {
    value == front + seq![sign] + back && !front.contains(sign)
}

/// A child is accepted where its two addresses can be read, its own before the equals sign and its
/// target behind it; its role is the word behind the last comma, and all where there is none.
pub proof fn children_are_read_from_their_parts(
    value: Seq<char>,
    bind: Seq<char>,
    rest: Seq<char>,
)
    requires
        is_pair(value, bind, '=', rest),
    ensures
        match forward_endpoint(value) {
            Ok(e) => socket_address(bind) == Some(e.bind) && exists|target: Seq<char>|
                #[trigger] socket_address(target) == Some(e.target) && ((rest == target
                    && !rest.contains(',') && e.role == RelayForwardRole::All) || (rest == target
                    + seq![','] + "all"@ && e.role == RelayForwardRole::All) || (rest == target
                    + seq![','] + "source"@ && e.role == RelayForwardRole::Source) || (rest
                    == target + seq![','] + "repair"@ && e.role == RelayForwardRole::Repair)),
            Err(_) => true,
        },
        !rest.contains(',') && socket_address(bind) is Some && socket_address(rest) is Some
            ==> forward_endpoint(value) is Ok,
        socket_address(bind) is None ==> forward_endpoint(value) is Err,
{
    texts_are_split_at_the_first(value, '=', bind, rest);
    texts_are_split_at_the_last(rest, ',');
    if !rest.contains(',') && split_at_last(rest, ',') is Some {
        let (front, back) = split_at_last(rest, ',')->0;
        assert((front + seq![','] + back)[front.len() as int] == ',');
    }
    reveal_strlit("all");
    reveal_strlit("source");
    reveal_strlit("repair");
    match split_at_last(rest, ',') {
        Some((target, word)) => {
            assert(socket_address(target) is Some || socket_address(target) is None);
        },
        None => {
            assert(socket_address(rest) is Some || socket_address(rest) is None);
        },
    }
}

/// A listener is accepted exactly where its three addresses can be read: its own, its controller's
/// and its child's, in this order.
pub proof fn listeners_are_read_from_their_parts(
    value: Seq<char>,
    bind: Seq<char>,
    rest: Seq<char>,
    peer: Seq<char>,
    target: Seq<char>,
)
    requires
        is_pair(value, bind, '=', rest),
        is_pair(rest, peer, ',', target),
    ensures
        listener_endpoint(value) is Ok <==> socket_address(bind) is Some && socket_address(peer)
            is Some && socket_address(target) is Some,
        match listener_endpoint(value) {
            Ok(e) => socket_address(bind) == Some(e.bind) && socket_address(peer) == Some(e.peer)
                && socket_address(target) == Some(e.forward_target),
            Err(_) => true,
        },
{
    texts_are_split_at_the_first(value, '=', bind, rest);
    texts_are_split_at_the_first(rest, ',', peer, target);
}

/// A controller is accepted exactly where its two addresses can be read: its own, then its target.
pub proof fn controllers_are_read_from_their_parts(
    value: Seq<char>,
    bind: Seq<char>,
    target: Seq<char>,
)
    requires
        is_pair(value, bind, '=', target),
    ensures
        controller_endpoint(value) is Ok <==> socket_address(bind) is Some && socket_address(target)
            is Some,
        match controller_endpoint(value) {
            Ok(e) => socket_address(bind) == Some(e.bind) && socket_address(target) == Some(
                e.target,
            ),
            Err(_) => true,
        },
{
    texts_are_split_at_the_first(value, '=', bind, target);
}

/// A pair is a key and a value around the first equals sign, without the white space around them,
/// and neither of them empty.
pub proof fn pairs_are_read_around_the_equals_sign(
    value: Seq<char>,
    key: Seq<char>,
    text: Seq<char>,
)
    requires
        is_pair(value, key, '=', text),
    ensures
        key_value(value) is Ok <==> trimmed(key).len() > 0 && trimmed(text).len() > 0,
        match key_value(value) {
            Ok((k, v)) => k == trimmed(key) && v == trimmed(text),
            Err(_) => true,
        },
{
    texts_are_split_at_the_first(value, '=', key, text);
}

/// Without an equals sign nothing is read.
pub proof fn nothing_is_read_without_an_equals_sign(value: Seq<char>)
    requires
        !value.contains('='),
    ensures
        forward_endpoint(value) is Err,
        listener_endpoint(value) is Err,
        controller_endpoint(value) is Err,
        key_value(value) is Err,
{
    texts_are_split_at_the_first(value, '=', value, value);
}

/// Addresses of four octets come before longer ones; those of one kind come in the order of their
/// numbers, and those of one host in the order of their ports.
pub proof fn addresses_are_ordered_by_number(a: SocketAddress, b: SocketAddress)
    ensures
        match (a.ip, b.ip) {
            (IpAddress::V4(x), IpAddress::V4(y)) => (x < y ==> a.le(b) && !b.le(a)) && (x == y
                && a.port < b.port ==> a.le(b) && !b.le(a)),
            (IpAddress::V4(_), IpAddress::V6(_, _)) => a.le(b) && !b.le(a),
            (IpAddress::V6(xh, xl), IpAddress::V6(yh, yl)) => (xh < yh || (xh == yh && xl < yl)
                ==> a.le(b) && !b.le(a)) && (xh == yh && xl == yl && a.port < b.port ==> a.le(b)
                && !b.le(a)),
            _ => true,
        },
        a.le(a),
{
}

/// What cannot be read is told by its role and its text: of a listener the first of its three
/// addresses that is wrong, of a controller the first of its two, of a child its role before its
/// addresses.
pub proof fn the_first_wrong_part_is_told(
    bind: Seq<char>,
    peer: Seq<char>,
    target: Seq<char>,
)
    requires
        !bind.contains('='),
        !peer.contains(','),
        !target.contains(','),
    ensures
        ({
            let value = bind + seq!['='] + (peer + seq![','] + target);
            let told = listener_endpoint(value);
            &&& socket_address(bind) is None ==> told == Err::<
                RelayFailoverListenerEndpoint,
                Seq<char>,
            >("invalid failover listener bind"@ + " "@ + bind + ": invalid socket address syntax"@)
            &&& socket_address(bind) is Some && socket_address(peer) is None ==> told == Err::<
                RelayFailoverListenerEndpoint,
                Seq<char>,
            >(
                "invalid failover controller peer"@ + " "@ + peer
                    + ": invalid socket address syntax"@,
            )
            &&& socket_address(bind) is Some && socket_address(peer) is Some && socket_address(
                target,
            ) is None ==> told == Err::<RelayFailoverListenerEndpoint, Seq<char>>(
                "invalid failover forward target"@ + " "@ + target
                    + ": invalid socket address syntax"@,
            )
        }),
        ({
            let told = controller_endpoint(bind + seq!['='] + target);
            &&& socket_address(bind) is None ==> told == Err::<
                RelayFailoverControllerEndpoint,
                Seq<char>,
            >(
                "invalid failover controller bind"@ + " "@ + bind
                    + ": invalid socket address syntax"@,
            )
            &&& socket_address(bind) is Some && socket_address(target) is None ==> told == Err::<
                RelayFailoverControllerEndpoint,
                Seq<char>,
            >(
                "invalid failover controller target"@ + " "@ + target
                    + ": invalid socket address syntax"@,
            )
        }),
        ({
            let told = forward_endpoint(bind + seq!['='] + target);
            &&& socket_address(bind) is None ==> told == Err::<RelayForwardEndpoint, Seq<char>>(
                "invalid relay forward bind"@ + " "@ + bind + ": invalid socket address syntax"@,
            )
            &&& socket_address(bind) is Some && socket_address(target) is None ==> told == Err::<
                RelayForwardEndpoint,
                Seq<char>,
            >(
                "invalid relay forward target"@ + " "@ + target
                    + ": invalid socket address syntax"@,
            )
        }),
{
    let rest = peer + seq![','] + target;
    texts_are_split_at_the_first(bind + seq!['='] + rest, '=', bind, rest);
    texts_are_split_at_the_first(rest, ',', peer, target);
    texts_are_split_at_the_first(bind + seq!['='] + target, '=', bind, target);
    texts_are_split_at_the_last(target, ',');
    match split_at_last(target, ',') {
        Some((front, back)) => {
            assert((front + seq![','] + back)[front.len() as int] == ',');
            assert(target.contains(','));
        },
        None => {},
    }
    reveal_strlit("all");
}

} // verus!
