//! The bounded buffer of source datagrams that a warm secondary replays on promotion.

use vstd::prelude::*;
use std::collections::VecDeque;
use crate::bytes::{copy_bytes, same_bytes};
use crate::text::same_text;

verus! {

pub const RELAY_WARM_SOURCE_REPLAY_MAX_OBJECTS_PER_CHILD: usize = 4;

pub const RELAY_WARM_SOURCE_REPLAY_MAX_DATAGRAMS_PER_CHILD: usize = 2_048;

pub const RELAY_WARM_SOURCE_REPLAY_MAX_BYTES_PER_CHILD: usize = 4_194_304;

/// The identity of a media object.
#[derive(Debug)]
pub struct ObjectKey {
    pub tenant: String,
    pub stream: String,
    pub track: String,
    pub epoch: u64,
    pub group: u64,
    pub object: u64,
    pub version: u32,
    pub payload_hash: Vec<u8>,
}

/// The identity of a media object.
#[verifier::ext_equal]
pub struct KeyModel {
    pub tenant: Seq<char>,
    pub stream: Seq<char>,
    pub track: Seq<char>,
    pub epoch: u64,
    pub group: u64,
    pub object: u64,
    pub version: u32,
    pub payload_hash: Seq<u8>,
}

impl View for ObjectKey {
    type V = KeyModel;

    open spec fn view(&self) -> KeyModel {
        KeyModel {
            tenant: self.tenant@,
            stream: self.stream@,
            track: self.track@,
            epoch: self.epoch,
            group: self.group,
            object: self.object,
            version: self.version,
            payload_hash: self.payload_hash@,
        }
    }
}

impl ObjectKey {
    /// Another copy of the same identity.
    pub fn copy(&self) -> (r: ObjectKey)
        ensures
            r@ == self@,
    {
        ObjectKey {
            tenant: self.tenant.clone(),
            stream: self.stream.clone(),
            track: self.track.clone(),
            epoch: self.epoch,
            group: self.group,
            object: self.object,
            version: self.version,
            payload_hash: copy_bytes(self.payload_hash.as_slice()),
        }
    }

    /// Whether two identities are the same.
    pub fn same(&self, other: &ObjectKey) -> (r: bool)
        ensures
            r == (self@ == other@),
    {
        self.epoch == other.epoch && self.group == other.group && self.object == other.object
            && self.version == other.version && same_text(self.tenant.as_str(), other.tenant.as_str())
            && same_text(self.stream.as_str(), other.stream.as_str()) && same_text(
            self.track.as_str(),
            other.track.as_str(),
        ) && same_bytes(self.payload_hash.as_slice(), other.payload_hash.as_slice())
    }
}

/// One buffered source datagram.
#[derive(Debug)]
pub struct WarmSourceDatagram {
    pub object_key: ObjectKey,
    pub expires_at_us: u64,
    pub wire: Vec<u8>,
}

/// One buffered source datagram.
#[verifier::ext_equal]
pub struct WarmModel {
    pub object_key: KeyModel,
    pub expires_at_us: u64,
    pub wire: Seq<u8>,
}

impl View for WarmSourceDatagram {
    type V = WarmModel;

    open spec fn view(&self) -> WarmModel {
        WarmModel {
            object_key: self.object_key@,
            expires_at_us: self.expires_at_us,
            wire: self.wire@,
        }
    }
}

/// The buffered datagrams of a list.
pub open spec fn warm_views(list: Seq<WarmSourceDatagram>) -> Seq<WarmModel> {
    list.map_values(|d: WarmSourceDatagram| d@)
}

/// The identities of a list.
pub open spec fn key_views(list: Seq<ObjectKey>) -> Seq<KeyModel> {
    list.map_values(|k: ObjectKey| k@)
}

/// The number of bytes that datagrams carry.
pub open spec fn wire_bytes(list: Seq<WarmModel>) -> nat
    decreases list.len(),
{
    if list.len() == 0 {
        0
    } else {
        wire_bytes(list.drop_last()) + list.last().wire.len()
    }
}

/// The datagrams that live beyond a time, in order.
pub open spec fn unexpired(list: Seq<WarmModel>, now_us: u64) -> Seq<WarmModel>
    decreases list.len(),
{
    if list.len() == 0 {
        Seq::empty()
    } else if list.last().expires_at_us > now_us {
        unexpired(list.drop_last(), now_us).push(list.last())
    } else {
        unexpired(list.drop_last(), now_us)
    }
}

/// The datagrams of other objects than one, in order.
pub open spec fn without_object(list: Seq<WarmModel>, key: KeyModel) -> Seq<WarmModel>
    decreases list.len(),
{
    if list.len() == 0 {
        Seq::empty()
    } else if list.last().object_key != key {
        without_object(list.drop_last(), key).push(list.last())
    } else {
        without_object(list.drop_last(), key)
    }
}

/// The datagrams that are left once the oldest have made room for the limits.
pub open spec fn within_limits(list: Seq<WarmModel>) -> Seq<WarmModel>
    decreases list.len(),
{
    if list.len() > 0 && (list.len() > RELAY_WARM_SOURCE_REPLAY_MAX_DATAGRAMS_PER_CHILD
        || wire_bytes(list) > RELAY_WARM_SOURCE_REPLAY_MAX_BYTES_PER_CHILD) {
        within_limits(list.skip(1))
    } else {
        list
    }
}

/// Whether a datagram of an object is in a list.
pub open spec fn has_object(list: Seq<WarmModel>, key: KeyModel) -> bool {
    exists|i: int| 0 <= i < list.len() && (#[trigger] list[i]).object_key == key
}

/// The objects that still have a datagram in a list, in order.
pub open spec fn present(order: Seq<KeyModel>, list: Seq<WarmModel>) -> Seq<KeyModel>
    decreases order.len(),
{
    if order.len() == 0 {
        Seq::empty()
    } else if has_object(list, order.last()) {
        present(order.drop_last(), list).push(order.last())
    } else {
        present(order.drop_last(), list)
    }
}

/// What a buffer holds: its datagrams, and its objects in the order of their first datagram.
#[verifier::ext_equal]
pub struct BufferModel {
    pub datagrams: Seq<WarmModel>,
    pub object_order: Seq<KeyModel>,
}

impl BufferModel {
    /// The buffer keeps its limits, and knows exactly the objects of its datagrams.
    pub open spec fn valid(self) -> bool {
        &&& self.datagrams.len() <= RELAY_WARM_SOURCE_REPLAY_MAX_DATAGRAMS_PER_CHILD
        &&& wire_bytes(self.datagrams) <= RELAY_WARM_SOURCE_REPLAY_MAX_BYTES_PER_CHILD
        &&& self.object_order.len() <= RELAY_WARM_SOURCE_REPLAY_MAX_OBJECTS_PER_CHILD
        &&& self.object_order.no_duplicates()
        &&& forall|key: KeyModel| #[trigger]
            self.object_order.contains(key) <==> has_object(self.datagrams, key)
    }

    /// The buffer once what has expired is dropped.
    pub open spec fn refreshed(self, now_us: u64) -> BufferModel {
        let live = unexpired(self.datagrams, now_us);
        BufferModel { datagrams: live, object_order: present(self.object_order, live) }
    }

    /// The buffer with one more datagram, before any limit is applied.
    pub open spec fn extended(self, datagram: WarmModel) -> BufferModel {
        BufferModel {
            datagrams: self.datagrams.push(datagram),
            object_order: if self.object_order.contains(datagram.object_key) {
                self.object_order
            } else {
                self.object_order.push(datagram.object_key)
            },
        }
    }

    /// The buffer once its oldest object has made room where there are too many.
    pub open spec fn retired(self) -> BufferModel {
        if self.object_order.len() > RELAY_WARM_SOURCE_REPLAY_MAX_OBJECTS_PER_CHILD {
            BufferModel {
                datagrams: without_object(self.datagrams, self.object_order[0]),
                object_order: self.object_order.skip(1),
            }
        } else {
            self
        }
    }

    /// The buffer once its oldest datagrams have made room where there are too many.
    pub open spec fn evicted(self) -> BufferModel {
        let kept = within_limits(self.datagrams);
        BufferModel { datagrams: kept, object_order: present(self.object_order, kept) }
    }

    /// Whether a datagram is worth buffering.
    pub open spec fn admits(datagram: WarmModel, now_us: u64) -> bool {
        datagram.expires_at_us > now_us && datagram.wire.len()
            <= RELAY_WARM_SOURCE_REPLAY_MAX_BYTES_PER_CHILD
    }

    /// The buffer after a datagram was offered to it.
    pub open spec fn offered(self, datagram: WarmModel, now_us: u64) -> BufferModel {
        if BufferModel::admits(datagram, now_us) {
            self.refreshed(now_us).extended(datagram).retired().evicted()
        } else {
            self.refreshed(now_us)
        }
    }
}

/// How an offer changed a buffer.
#[derive(Clone, Copy, Debug, PartialEq, Eq, Structural)]
pub struct WarmSourceBufferMutation {
    pub added_datagrams: usize,
    pub added_bytes: usize,
    pub expired_datagrams: usize,
    pub expired_bytes: usize,
    pub retired_datagrams: usize,
    pub retired_bytes: usize,
    pub evicted_datagrams: usize,
    pub evicted_bytes: usize,
}

/// The change that an offer makes.
pub open spec fn mutation_of(
    before: BufferModel,
    datagram: WarmModel,
    now_us: u64,
) -> WarmSourceBufferMutation {
    let live = before.refreshed(now_us);
    let wide = live.extended(datagram);
    let narrow = wide.retired();
    let kept = narrow.evicted();
    let admitted = BufferModel::admits(datagram, now_us);
    WarmSourceBufferMutation {
        added_datagrams: if admitted {
            1
        } else {
            0
        },
        added_bytes: if admitted {
            datagram.wire.len() as usize
        } else {
            0
        },
        expired_datagrams: (before.datagrams.len() - live.datagrams.len()) as usize,
        expired_bytes: (wire_bytes(before.datagrams) - wire_bytes(live.datagrams)) as usize,
        retired_datagrams: if admitted {
            (wide.datagrams.len() - narrow.datagrams.len()) as usize
        } else {
            0
        },
        retired_bytes: if admitted {
            (wire_bytes(wide.datagrams) - wire_bytes(narrow.datagrams)) as usize
        } else {
            0
        },
        evicted_datagrams: if admitted {
            (narrow.datagrams.len() - kept.datagrams.len()) as usize
        } else {
            0
        },
        evicted_bytes: if admitted {
            (wire_bytes(narrow.datagrams) - wire_bytes(kept.datagrams)) as usize
        } else {
            0
        },
    }
}

/// What a buffer hands out on promotion.
#[derive(Debug)]
pub struct WarmSourceReplayBatch {
    pub datagrams: Vec<Vec<u8>>,
    pub bytes: usize,
    pub expired_datagrams: usize,
    pub expired_bytes: usize,
}

/// The bytes of a list of datagrams.
pub open spec fn wires(list: Seq<WarmModel>) -> Seq<Seq<u8>> {
    list.map_values(|d: WarmModel| d.wire)
}

/// The views of a list of byte vectors.
pub open spec fn byte_views(list: Seq<Vec<u8>>) -> Seq<Seq<u8>> {
    list.map_values(|v: Vec<u8>| v@)
}

/// The buffer of one downstream child.
#[derive(Debug)]
pub struct WarmSourceReplayBuffer {
    pub datagrams: VecDeque<WarmSourceDatagram>,
    pub object_order: VecDeque<ObjectKey>,
    pub bytes: usize,
}

impl View for WarmSourceReplayBuffer {
    type V = BufferModel;

    open spec fn view(&self) -> BufferModel {
        BufferModel {
            datagrams: warm_views(self.datagrams@),
            object_order: key_views(self.object_order@),
        }
    }
}

proof fn lemma_wire_bytes_push(list: Seq<WarmModel>, d: WarmModel)
    ensures
        wire_bytes(list.push(d)) == wire_bytes(list) + d.wire.len(),
{
    assert(list.push(d).drop_last() =~= list);
}

proof fn lemma_wire_bytes_front(list: Seq<WarmModel>)
    requires
        list.len() > 0,
    ensures
        wire_bytes(list) == list[0].wire.len() + wire_bytes(list.skip(1)),
    decreases list.len(),
{
    if list.len() == 1 {
        assert(list.drop_last() =~= Seq::<WarmModel>::empty());
        assert(list.skip(1) =~= Seq::<WarmModel>::empty());
    } else {
        lemma_wire_bytes_front(list.drop_last());
        assert(list.drop_last().skip(1) =~= list.skip(1).drop_last());
        assert(list.skip(1).last() == list.last());
        assert(list.drop_last()[0] == list[0]);
    }
}

proof fn lemma_unexpired(list: Seq<WarmModel>, now_us: u64)
    ensures
        unexpired(list, now_us).len() <= list.len(),
        wire_bytes(unexpired(list, now_us)) <= wire_bytes(list),
        forall|i: int|
            0 <= i < unexpired(list, now_us).len() ==> list.contains(
                #[trigger] unexpired(list, now_us)[i],
            ) && unexpired(list, now_us)[i].expires_at_us > now_us,
    decreases list.len(),
{
    if list.len() > 0 {
        let front = list.drop_last();
        lemma_unexpired(front, now_us);
        let r = unexpired(front, now_us);
        assert forall|i: int| 0 <= i < unexpired(list, now_us).len() implies list.contains(
            #[trigger] unexpired(list, now_us)[i],
        ) && unexpired(list, now_us)[i].expires_at_us > now_us by {
            if i < r.len() {
                assert(unexpired(list, now_us)[i] == r[i]);
                assert(front.contains(r[i]));
                let j = choose|j: int| 0 <= j < front.len() && front[j] == r[i];
                assert(list[j] == r[i]);
            } else {
                assert(list[list.len() - 1] == list.last());
            }
        }
        if list.last().expires_at_us > now_us {
            lemma_wire_bytes_push(r, list.last());
        }
    }
}

proof fn lemma_without_object(list: Seq<WarmModel>, key: KeyModel)
    ensures
        without_object(list, key).len() <= list.len(),
        wire_bytes(without_object(list, key)) <= wire_bytes(list),
        forall|i: int|
            0 <= i < without_object(list, key).len() ==> list.contains(
                #[trigger] without_object(list, key)[i],
            ) && without_object(list, key)[i].object_key != key,
        forall|i: int|
            0 <= i < list.len() && (#[trigger] list[i]).object_key != key ==> without_object(
                list,
                key,
            ).contains(list[i]),
    decreases list.len(),
{
    if list.len() > 0 {
        let front = list.drop_last();
        lemma_without_object(front, key);
        let r = without_object(front, key);
        let w = without_object(list, key);
        assert forall|i: int| 0 <= i < w.len() implies list.contains(#[trigger] w[i])
            && w[i].object_key != key by {
            if i < r.len() {
                assert(w[i] == r[i]);
                assert(front.contains(r[i]));
                let j = choose|j: int| 0 <= j < front.len() && front[j] == r[i];
                assert(list[j] == r[i]);
            } else {
                assert(list[list.len() - 1] == list.last());
            }
        }
        assert forall|i: int|
            0 <= i < list.len() && (#[trigger] list[i]).object_key != key implies w.contains(
            list[i],
        ) by {
            if i < front.len() {
                assert(front[i] == list[i]);
                assert(r.contains(front[i]));
                let j = choose|j: int| 0 <= j < r.len() && r[j] == front[i];
                assert(w[j] == list[i]);
            } else {
                assert(w[w.len() - 1] == list.last());
            }
        }
        if list.last().object_key != key {
            lemma_wire_bytes_push(r, list.last());
        }
    }
}

proof fn lemma_within_limits(list: Seq<WarmModel>)
    ensures
        within_limits(list).len() <= list.len(),
        within_limits(list).len() <= RELAY_WARM_SOURCE_REPLAY_MAX_DATAGRAMS_PER_CHILD,
        wire_bytes(within_limits(list)) <= RELAY_WARM_SOURCE_REPLAY_MAX_BYTES_PER_CHILD,
        wire_bytes(within_limits(list)) <= wire_bytes(list),
        forall|i: int|
            0 <= i < within_limits(list).len() ==> list.contains(
                #[trigger] within_limits(list)[i],
            ),
        list.len() > 0 && list.last().wire.len() <= RELAY_WARM_SOURCE_REPLAY_MAX_BYTES_PER_CHILD
            ==> within_limits(list).len() > 0 && within_limits(list).last() == list.last(),
    decreases list.len(),
{
    if list.len() > 0 && (list.len() > RELAY_WARM_SOURCE_REPLAY_MAX_DATAGRAMS_PER_CHILD
        || wire_bytes(list) > RELAY_WARM_SOURCE_REPLAY_MAX_BYTES_PER_CHILD) {
        let rest = list.skip(1);
        lemma_within_limits(rest);
        lemma_wire_bytes_front(list);
        assert forall|i: int| 0 <= i < within_limits(list).len() implies list.contains(
            #[trigger] within_limits(list)[i],
        ) by {
            assert(rest.contains(within_limits(rest)[i]));
            let j = choose|j: int| 0 <= j < rest.len() && rest[j] == within_limits(rest)[i];
            assert(list[j + 1] == rest[j]);
        }
        if list.len() == 1 {
            assert(rest =~= Seq::<WarmModel>::empty());
            assert(wire_bytes(rest) == 0);
        } else {
            assert(rest.last() == list.last());
        }
    } else {
        if list.len() == 0 {
            assert(wire_bytes(list) == 0);
        }
        assert forall|i: int| 0 <= i < list.len() implies list.contains(#[trigger] list[i]) by {}
    }
}

proof fn lemma_present(order: Seq<KeyModel>, list: Seq<WarmModel>)
    ensures
        present(order, list).len() <= order.len(),
        order.no_duplicates() ==> present(order, list).no_duplicates(),
        forall|key: KeyModel| #[trigger]
            present(order, list).contains(key) <==> order.contains(key) && has_object(list, key),
    decreases order.len(),
{
    if order.len() > 0 {
        let front = order.drop_last();
        lemma_present(front, list);
        let p = present(front, list);
        let q = present(order, list);
        assert forall|key: KeyModel| #[trigger] q.contains(key) <==> order.contains(key)
            && has_object(list, key) by {
            if q.contains(key) {
                let i = choose|i: int| 0 <= i < q.len() && q[i] == key;
                if i < p.len() {
                    assert(p[i] == key);
                    assert(p.contains(key));
                    assert(front.contains(key));
                    let j = choose|j: int| 0 <= j < front.len() && front[j] == key;
                    assert(order[j] == key);
                } else {
                    assert(order[order.len() - 1] == key);
                }
            }
            if order.contains(key) && has_object(list, key) {
                let j = choose|j: int| 0 <= j < order.len() && order[j] == key;
                if j < front.len() {
                    assert(front[j] == key);
                    assert(p.contains(key));
                    let i = choose|i: int| 0 <= i < p.len() && p[i] == key;
                    assert(q[i] == key);
                } else {
                    assert(q[q.len() - 1] == key);
                }
            }
        }
        if order.no_duplicates() {
            assert(front.no_duplicates());
            if has_object(list, order.last()) {
                assert(!p.contains(order.last())) by {
                    if p.contains(order.last()) {
                        assert(front.contains(order.last()));
                        let j = choose|j: int| 0 <= j < front.len() && front[j] == order.last();
                        assert(order[j] == order[order.len() - 1]);
                    }
                }
                assert forall|a: int, b: int| 0 <= a < q.len() && 0 <= b < q.len() && a != b implies
                    q[a] != q[b] by {
                    if a == p.len() {
                        assert(p.contains(p[b]));
                    } else if b == p.len() {
                        assert(p.contains(p[a]));
                    } else {
                        assert(p[a] != p[b]);
                    }
                }
            }
        }
    } else {
        assert(present(order, list) =~= Seq::<KeyModel>::empty());
    }
}

/// A buffer keeps its limits whatever is offered to it, and what it takes in is its newest
/// datagram.
pub proof fn offers_keep_the_limits(buffer: BufferModel, datagram: WarmModel, now_us: u64)
    requires
        buffer.valid(),
    ensures
        buffer.offered(datagram, now_us).valid(),
        BufferModel::admits(datagram, now_us) ==> buffer.offered(
            datagram,
            now_us,
        ).datagrams.len() > 0 && buffer.offered(datagram, now_us).datagrams.last() == datagram,
        forall|i: int|
            0 <= i < buffer.offered(datagram, now_us).datagrams.len() ==> (
            #[trigger] buffer.offered(datagram, now_us).datagrams[i]).expires_at_us > now_us,
{
    let live = buffer.refreshed(now_us);
    lemma_unexpired(buffer.datagrams, now_us);
    lemma_present(buffer.object_order, live.datagrams);
    assert forall|key: KeyModel| has_object(live.datagrams, key) implies has_object(
        buffer.datagrams,
        key,
    ) by {
        let i = choose|i: int|
            0 <= i < live.datagrams.len() && (#[trigger] live.datagrams[i]).object_key == key;
        assert(buffer.datagrams.contains(live.datagrams[i]));
        let j = choose|j: int|
            0 <= j < buffer.datagrams.len() && buffer.datagrams[j] == live.datagrams[i];
        assert(buffer.datagrams[j].object_key == key);
    }
    assert(live.valid()) by {
        assert forall|key: KeyModel| #[trigger] live.object_order.contains(key) <==> has_object(
            live.datagrams,
            key,
        ) by {
            if has_object(live.datagrams, key) {
                assert(buffer.object_order.contains(key));
            }
        }
    }
    if BufferModel::admits(datagram, now_us) {
        let wide = live.extended(datagram);
        let narrow = wide.retired();
        let kept = narrow.evicted();
        let d = datagram.object_key;
        assert(wide.datagrams[live.datagrams.len() as int] == datagram);
        assert forall|key: KeyModel| #[trigger] wide.object_order.contains(key) implies has_object(
            wide.datagrams,
            key,
        ) by {
            let i = choose|i: int| 0 <= i < wide.object_order.len() && wide.object_order[i] == key;
            if i < live.object_order.len() {
                assert(live.object_order[i] == key);
                assert(live.object_order.contains(key));
                let j = choose|j: int|
                    0 <= j < live.datagrams.len() && (#[trigger] live.datagrams[j]).object_key
                        == key;
                assert(wide.datagrams[j].object_key == key);
            } else {
                assert(wide.datagrams[live.datagrams.len() as int].object_key == key);
            }
        }
        assert forall|key: KeyModel| has_object(wide.datagrams, key) implies
            wide.object_order.contains(key) by {
            let j = choose|j: int|
                0 <= j < wide.datagrams.len() && (#[trigger] wide.datagrams[j]).object_key == key;
            if j < live.datagrams.len() {
                assert(live.datagrams[j].object_key == key);
                assert(live.object_order.contains(key));
                let i = choose|i: int|
                    0 <= i < live.object_order.len() && live.object_order[i] == key;
                assert(wide.object_order[i] == key);
            } else if !live.object_order.contains(d) {
                assert(wide.object_order[live.object_order.len() as int] == key);
            }
        }
        assert(wide.object_order.no_duplicates()) by {
            assert forall|a: int, b: int|
                0 <= a < wide.object_order.len() && 0 <= b < wide.object_order.len() && a
                    != b implies wide.object_order[a] != wide.object_order[b] by {
                let n = live.object_order.len();
                if a < n && b < n {
                    assert(live.object_order[a] != live.object_order[b]);
                } else if a == n {
                    assert(live.object_order.contains(live.object_order[b]));
                } else {
                    assert(live.object_order.contains(live.object_order[a]));
                }
            }
        }
        assert(narrow.datagrams.len() > 0 && narrow.datagrams.last() == datagram) by {
            if wide.object_order.len() > 4 {
                assert(!live.object_order.contains(d));
                assert(wide.object_order[0] == live.object_order[0]);
                assert(live.object_order.contains(live.object_order[0]));
                assert(wide.datagrams.last() == datagram);
            }
        }
        assert(forall|i: int| 0 <= i < narrow.datagrams.len() ==> wide.datagrams.contains(#[trigger] narrow.datagrams[i])) by {
            if wide.object_order.len() > 4 {
                lemma_without_object(wide.datagrams, wide.object_order[0]);
            }
        }
        assert forall|key: KeyModel| has_object(narrow.datagrams, key) implies
            narrow.object_order.contains(key) by {
            let j = choose|j: int|
                0 <= j < narrow.datagrams.len() && (#[trigger] narrow.datagrams[j]).object_key
                    == key;
            assert(wide.datagrams.contains(narrow.datagrams[j]));
            let m = choose|m: int|
                0 <= m < wide.datagrams.len() && wide.datagrams[m] == narrow.datagrams[j];
            assert(wide.datagrams[m].object_key == key);
            assert(wide.object_order.contains(key));
            if wide.object_order.len() > 4 {
                lemma_without_object(wide.datagrams, wide.object_order[0]);
                let i = choose|i: int|
                    0 <= i < wide.object_order.len() && wide.object_order[i] == key;
                assert(i > 0);
                assert(narrow.object_order[i - 1] == key);
            }
        }
        assert(narrow.object_order.no_duplicates()) by {
            assert forall|a: int, b: int|
                0 <= a < narrow.object_order.len() && 0 <= b < narrow.object_order.len() && a
                    != b implies narrow.object_order[a] != narrow.object_order[b] by {
                if wide.object_order.len() > 4 {
                    assert(wide.object_order[a + 1] != wide.object_order[b + 1]);
                } else {
                    assert(wide.object_order[a] != wide.object_order[b]);
                }
            }
        }
        lemma_within_limits(narrow.datagrams);
        lemma_present(narrow.object_order, kept.datagrams);
        assert forall|key: KeyModel| #[trigger] kept.object_order.contains(key) <==> has_object(
            kept.datagrams,
            key,
        ) by {
            if has_object(kept.datagrams, key) {
                let i = choose|i: int|
                    0 <= i < kept.datagrams.len() && (#[trigger] kept.datagrams[i]).object_key
                        == key;
                assert(narrow.datagrams.contains(kept.datagrams[i]));
                let j = choose|j: int|
                    0 <= j < narrow.datagrams.len() && narrow.datagrams[j] == kept.datagrams[i];
                assert(narrow.datagrams[j].object_key == key);
                assert(has_object(narrow.datagrams, key));
            }
        }
        assert forall|i: int| 0 <= i < kept.datagrams.len() implies (
        #[trigger] kept.datagrams[i]).expires_at_us > now_us by {
            assert(narrow.datagrams.contains(kept.datagrams[i]));
            let j = choose|j: int|
                0 <= j < narrow.datagrams.len() && narrow.datagrams[j] == kept.datagrams[i];
            assert(wide.datagrams.contains(narrow.datagrams[j]));
            let m = choose|m: int|
                0 <= m < wide.datagrams.len() && wide.datagrams[m] == narrow.datagrams[j];
            if m < live.datagrams.len() {
                assert(live.datagrams[m] == wide.datagrams[m]);
            }
        }
    }
}

/// What an offer reports accounts for every datagram and every byte of the buffer.
pub proof fn offers_are_accounted_for(buffer: BufferModel, datagram: WarmModel, now_us: u64)
    requires
        buffer.valid(),
    ensures
        ({
            let m = mutation_of(buffer, datagram, now_us);
            let after = buffer.offered(datagram, now_us);
            &&& m.expired_datagrams <= 2048 && m.retired_datagrams <= 2049 && m.evicted_datagrams
                <= 2049
            &&& m.added_bytes <= 4_194_304 && m.expired_bytes <= 4_194_304 && m.retired_bytes
                <= 8_388_608 && m.evicted_bytes <= 8_388_608
            &&& after.datagrams.len() == buffer.datagrams.len() + m.added_datagrams
                - m.expired_datagrams - m.retired_datagrams - m.evicted_datagrams
            &&& wire_bytes(after.datagrams) == wire_bytes(buffer.datagrams) + m.added_bytes
                - m.expired_bytes - m.retired_bytes - m.evicted_bytes
        }),
{
    let live = buffer.refreshed(now_us);
    let wide = live.extended(datagram);
    let narrow = wide.retired();
    lemma_unexpired(buffer.datagrams, now_us);
    lemma_wire_bytes_push(live.datagrams, datagram);
    if wide.object_order.len() > 4 {
        lemma_without_object(wide.datagrams, wide.object_order[0]);
    }
    lemma_within_limits(narrow.datagrams);
}

impl WarmSourceReplayBuffer {
    /// The buffer keeps its limits and counts its bytes.
    pub open spec fn valid(self) -> bool {
        self@.valid() && self.bytes == wire_bytes(self@.datagrams)
    }

    /// An empty buffer.
    pub fn new() -> (r: Self)
        ensures
            r.valid(),
            r@.datagrams.len() == 0,
            r@.object_order.len() == 0,
            r.bytes == 0,
    {
        WarmSourceReplayBuffer {
            datagrams: VecDeque::new(),
            object_order: VecDeque::new(),
            bytes: 0,
        }
    }

    fn has_object(&self, key: &ObjectKey) -> (r: bool)
        ensures
            r == has_object(self@.datagrams, key@),
    {
        let mut i: usize = 0;
        while i < self.datagrams.len()
            invariant
                i <= self.datagrams@.len(),
                forall|j: int|
                    0 <= j < i ==> (#[trigger] self@.datagrams[j]).object_key != key@,
            decreases self.datagrams@.len() - i,
        {
            assert(self@.datagrams[i as int] == self.datagrams@[i as int]@);
            if self.datagrams[i].object_key.same(key) {
                return true;
            }
            i = i + 1;
        }
        false
    }

    fn knows_object(&self, key: &ObjectKey) -> (r: bool)
        ensures
            r == self@.object_order.contains(key@),
    {
        let mut i: usize = 0;
        while i < self.object_order.len()
            invariant
                i <= self.object_order@.len(),
                forall|j: int| 0 <= j < i ==> (#[trigger] self@.object_order[j]) != key@,
            decreases self.object_order@.len() - i,
        {
            assert(self@.object_order[i as int] == self.object_order@[i as int]@);
            if self.object_order[i].same(key) {
                return true;
            }
            i = i + 1;
        }
        false
    }

    /// Forgets the objects that have no datagram left.
    fn forget_absent(&mut self)
        ensures
            final(self)@ == (BufferModel {
                datagrams: old(self)@.datagrams,
                object_order: present(old(self)@.object_order, old(self)@.datagrams),
            }),
            final(self).bytes == old(self).bytes,
    {
        let ghost order = self@.object_order;
        let ghost list = self@.datagrams;
        let mut kept: VecDeque<ObjectKey> = VecDeque::new();
        let ghost mut done: int = 0;
        proof {
            assert(order.take(0) =~= Seq::<KeyModel>::empty());
            assert(order.skip(0) =~= order);
            assert(key_views(kept@) =~= Seq::<KeyModel>::empty());
        }
        loop
            invariant
                0 <= done <= order.len(),
                self@.object_order == order.skip(done),
                self@.datagrams == list,
                self.bytes == old(self).bytes,
                key_views(kept@) == present(order.take(done), list),
            ensures
                done == order.len(),
                self@.datagrams == list,
                self.bytes == old(self).bytes,
                key_views(kept@) == present(order.take(done), list),
            decreases order.len() - done,
        {
            let ghost before = self.object_order@;
            match self.object_order.pop_front() {
                Some(key) => {
                    proof {
                        assert(key_views(before) == order.skip(done));
                        assert(key_views(before).len() == before.len());
                        assert(key_views(before)[0] == key@);
                        assert(order.skip(done)[0] == order[done]);
                        assert(self@.object_order =~= order.skip(done + 1)) by {
                            assert(key_views(self.object_order@) =~= key_views(before).skip(1));
                            assert(order.skip(done).skip(1) =~= order.skip(done + 1));
                        }
                        assert(order.take(done + 1).drop_last() =~= order.take(done));
                        assert(order.take(done + 1).last() == key@);
                    }
                    let ghost kept_before = kept@;
                    if self.has_object(&key) {
                        kept.push_back(key);
                        proof {
                            assert(key_views(kept@) =~= key_views(kept_before).push(key@));
                        }
                    }
                    proof {
                        done = done + 1;
                    }
                },
                None => {
                    proof {
                        assert(key_views(before).len() == 0);
                        assert(order.skip(done).len() == order.len() - done);
                    }
                    break;
                },
            }
        }
        self.object_order = kept;
        proof {
            assert(order.take(done) =~= order);
        }
    }

    /// Takes every datagram out of the buffer.
    fn empty_datagrams(&mut self) -> (r: VecDeque<WarmSourceDatagram>)
        ensures
            final(self).datagrams@.len() == 0,
            r@ == old(self).datagrams@,
            final(self).object_order == old(self).object_order,
            final(self).bytes == old(self).bytes,
    {
        let mut taken: VecDeque<WarmSourceDatagram> = VecDeque::new();
        std::mem::swap(&mut taken, &mut self.datagrams);
        taken
    }

    /// Drops what has expired.
    fn remove_expired(&mut self, now_us: u64, mutation: &mut WarmSourceBufferMutation)
        requires
            old(self).valid(),
            old(mutation).expired_datagrams == 0,
            old(mutation).expired_bytes == 0,
        ensures
            final(self)@ == old(self)@.refreshed(now_us),
            final(self).bytes == wire_bytes(final(self)@.datagrams),
            *final(mutation) == (WarmSourceBufferMutation {
                expired_datagrams: (old(self)@.datagrams.len() - final(self)@.datagrams.len()) as usize,
                expired_bytes: (old(self).bytes - final(self).bytes) as usize,
                ..*old(mutation)
            }),
    {
        let ghost list = self@.datagrams;
        let mut pending = self.empty_datagrams();
        let ghost mut done: int = 0;
        proof {
            assert(list.take(0) =~= Seq::<WarmModel>::empty());
            assert(warm_views(pending@) =~= list.skip(0));
            assert(warm_views(self.datagrams@) =~= Seq::<WarmModel>::empty());
        }
        loop
            invariant
                0 <= done <= list.len() <= 2048,
                wire_bytes(list) <= 4_194_304,
                warm_views(pending@) == list.skip(done),
                warm_views(self.datagrams@) == unexpired(list.take(done), now_us),
                self.object_order == old(self).object_order,
                self.bytes + mutation.expired_bytes == wire_bytes(list),
                mutation.expired_datagrams + self.datagrams@.len() == done,
                mutation.expired_bytes + wire_bytes(unexpired(list.take(done), now_us))
                    == wire_bytes(list.take(done)),
                wire_bytes(list.take(done)) <= wire_bytes(list),
                *mutation == (WarmSourceBufferMutation {
                    expired_datagrams: mutation.expired_datagrams,
                    expired_bytes: mutation.expired_bytes,
                    ..*old(mutation)
                }),
            ensures
                done == list.len(),
                warm_views(self.datagrams@) == unexpired(list.take(done), now_us),
                self.object_order == old(self).object_order,
                self.bytes + mutation.expired_bytes == wire_bytes(list),
                mutation.expired_datagrams + self.datagrams@.len() == done,
                mutation.expired_bytes + wire_bytes(unexpired(list.take(done), now_us))
                    == wire_bytes(list.take(done)),
                *mutation == (WarmSourceBufferMutation {
                    expired_datagrams: mutation.expired_datagrams,
                    expired_bytes: mutation.expired_bytes,
                    ..*old(mutation)
                }),
            decreases list.len() - done,
        {
            let ghost before = pending@;
            match pending.pop_front() {
                Some(datagram) => {
                    proof {
                        assert(warm_views(before) == list.skip(done));
                        assert(warm_views(before).len() == before.len());
                        assert(warm_views(before)[0] == datagram@);
                        assert(list.skip(done)[0] == list[done]);
                        assert(warm_views(pending@) =~= warm_views(before).skip(1));
                        assert(list.skip(done).skip(1) =~= list.skip(done + 1));
                        assert(list.take(done + 1).drop_last() =~= list.take(done));
                        assert(list.take(done + 1).last() == datagram@);
                        lemma_take_bytes(list, done + 1);
                    }
                    let ghost kept_before = self.datagrams@;
                    if datagram.expires_at_us <= now_us {
                        let len: usize = datagram.wire.len();
                        self.bytes = self.bytes.saturating_sub(len);
                        mutation.expired_datagrams = mutation.expired_datagrams.saturating_add(1);
                        mutation.expired_bytes = mutation.expired_bytes.saturating_add(len);
                    } else {
                        self.datagrams.push_back(datagram);
                        proof {
                            assert(warm_views(self.datagrams@) =~= warm_views(kept_before).push(
                                datagram@,
                            ));
                            lemma_wire_bytes_push(unexpired(list.take(done), now_us), datagram@);
                        }
                    }
                    proof {
                        done = done + 1;
                    }
                },
                None => {
                    proof {
                        assert(warm_views(before).len() == 0);
                        assert(list.skip(done).len() == list.len() - done);
                    }
                    break;
                },
            }
        }
        proof {
            assert(list.take(done) =~= list);
        }
        self.forget_absent();
    }

    /// Drops the datagrams of one object.
    fn remove_object(&mut self, object_key: &ObjectKey, mutation: &mut WarmSourceBufferMutation)
        requires
            old(self)@.datagrams.len() <= 2049,
            old(self).bytes == wire_bytes(old(self)@.datagrams),
            old(self).bytes <= 8_388_608,
            old(mutation).retired_datagrams == 0,
            old(mutation).retired_bytes == 0,
        ensures
            final(self)@.datagrams == without_object(old(self)@.datagrams, object_key@),
            final(self).object_order == old(self).object_order,
            final(self).bytes == wire_bytes(final(self)@.datagrams),
            *final(mutation) == (WarmSourceBufferMutation {
                retired_datagrams: (old(self)@.datagrams.len() - final(self)@.datagrams.len()) as usize,
                retired_bytes: (old(self).bytes - final(self).bytes) as usize,
                ..*old(mutation)
            }),
    {
        let ghost list = self@.datagrams;
        let ghost key = object_key@;
        let mut pending = self.empty_datagrams();
        let ghost mut done: int = 0;
        proof {
            assert(list.take(0) =~= Seq::<WarmModel>::empty());
            assert(warm_views(pending@) =~= list.skip(0));
            assert(warm_views(self.datagrams@) =~= Seq::<WarmModel>::empty());
        }
        loop
            invariant
                0 <= done <= list.len() <= 2049,
                wire_bytes(list) <= 8_388_608,
                key == object_key@,
                warm_views(pending@) == list.skip(done),
                warm_views(self.datagrams@) == without_object(list.take(done), key),
                self.object_order == old(self).object_order,
                self.bytes + mutation.retired_bytes == wire_bytes(list),
                mutation.retired_datagrams + self.datagrams@.len() == done,
                mutation.retired_bytes + wire_bytes(without_object(list.take(done), key))
                    == wire_bytes(list.take(done)),
                wire_bytes(list.take(done)) <= wire_bytes(list),
                *mutation == (WarmSourceBufferMutation {
                    retired_datagrams: mutation.retired_datagrams,
                    retired_bytes: mutation.retired_bytes,
                    ..*old(mutation)
                }),
            ensures
                done == list.len(),
                warm_views(self.datagrams@) == without_object(list.take(done), key),
                self.object_order == old(self).object_order,
                self.bytes + mutation.retired_bytes == wire_bytes(list),
                mutation.retired_datagrams + self.datagrams@.len() == done,
                mutation.retired_bytes + wire_bytes(without_object(list.take(done), key))
                    == wire_bytes(list.take(done)),
                *mutation == (WarmSourceBufferMutation {
                    retired_datagrams: mutation.retired_datagrams,
                    retired_bytes: mutation.retired_bytes,
                    ..*old(mutation)
                }),
            decreases list.len() - done,
        {
            let ghost before = pending@;
            match pending.pop_front() {
                Some(datagram) => {
                    proof {
                        assert(warm_views(before) == list.skip(done));
                        assert(warm_views(before).len() == before.len());
                        assert(warm_views(before)[0] == datagram@);
                        assert(list.skip(done)[0] == list[done]);
                        assert(warm_views(pending@) =~= warm_views(before).skip(1));
                        assert(list.skip(done).skip(1) =~= list.skip(done + 1));
                        assert(list.take(done + 1).drop_last() =~= list.take(done));
                        assert(list.take(done + 1).last() == datagram@);
                        lemma_take_bytes(list, done + 1);
                    }
                    let ghost kept_before = self.datagrams@;
                    if datagram.object_key.same(object_key) {
                        let len: usize = datagram.wire.len();
                        self.bytes = self.bytes.saturating_sub(len);
                        mutation.retired_datagrams = mutation.retired_datagrams.saturating_add(1);
                        mutation.retired_bytes = mutation.retired_bytes.saturating_add(len);
                    } else {
                        self.datagrams.push_back(datagram);
                        proof {
                            assert(warm_views(self.datagrams@) =~= warm_views(kept_before).push(
                                datagram@,
                            ));
                            lemma_wire_bytes_push(without_object(list.take(done), key), datagram@);
                        }
                    }
                    proof {
                        done = done + 1;
                    }
                },
                None => {
                    proof {
                        assert(warm_views(before).len() == 0);
                        assert(list.skip(done).len() == list.len() - done);
                    }
                    break;
                },
            }
        }
        proof {
            assert(list.take(done) =~= list);
        }
    }

    /// Drops the oldest datagrams until the limits hold.
    fn evict(&mut self, mutation: &mut WarmSourceBufferMutation)
        requires
            old(self)@.datagrams.len() <= 2049,
            old(self).bytes == wire_bytes(old(self)@.datagrams),
            old(self).bytes <= 8_388_608,
            old(mutation).evicted_datagrams == 0,
            old(mutation).evicted_bytes == 0,
        ensures
            final(self)@ == old(self)@.evicted(),
            final(self).bytes == wire_bytes(final(self)@.datagrams),
            *final(mutation) == (WarmSourceBufferMutation {
                evicted_datagrams: (old(self)@.datagrams.len() - final(self)@.datagrams.len()) as usize,
                evicted_bytes: (old(self).bytes - final(self).bytes) as usize,
                ..*old(mutation)
            }),
    {
        let ghost list = self@.datagrams;
        while self.datagrams.len() > RELAY_WARM_SOURCE_REPLAY_MAX_DATAGRAMS_PER_CHILD || self.bytes
            > RELAY_WARM_SOURCE_REPLAY_MAX_BYTES_PER_CHILD
            invariant
                list.len() <= 2049,
                wire_bytes(list) <= 8_388_608,
                within_limits(self@.datagrams) == within_limits(list),
                self.object_order == old(self).object_order,
                self.bytes == wire_bytes(self@.datagrams),
                mutation.evicted_datagrams + self.datagrams@.len() == list.len(),
                mutation.evicted_bytes + self.bytes == wire_bytes(list),
                *mutation == (WarmSourceBufferMutation {
                    evicted_datagrams: mutation.evicted_datagrams,
                    evicted_bytes: mutation.evicted_bytes,
                    ..*old(mutation)
                }),
            decreases self.datagrams@.len(),
        {
            let ghost before = self.datagrams@;
            proof {
                if before.len() == 0 {
                    assert(wire_bytes(warm_views(before)) == 0);
                }
            }
            let datagram = self.datagrams.pop_front().unwrap();
            proof {
                assert(warm_views(self.datagrams@) =~= warm_views(before).skip(1));
                assert(warm_views(before)[0] == datagram@);
                lemma_wire_bytes_front(warm_views(before));
            }
            let len: usize = datagram.wire.len();
            self.bytes = self.bytes.saturating_sub(len);
            mutation.evicted_datagrams = mutation.evicted_datagrams.saturating_add(1);
            mutation.evicted_bytes = mutation.evicted_bytes.saturating_add(len);
        }
        self.forget_absent();
    }

    /// Offers a datagram of an object to the buffer.
    ///
    /// What has expired is dropped first. A datagram that has expired or that is larger than
    /// the whole buffer may be is not taken in. Room is made by retiring the oldest object,
    /// then by evicting the oldest datagrams.
    pub fn push(&mut self, object_key: &ObjectKey, expires_at_us: u64, wire: &[u8], now_us: u64) -> (r:
        WarmSourceBufferMutation)
        requires
            old(self).valid(),
        ensures
            final(self).valid(),
            final(self)@ == old(self)@.offered(
                (WarmModel { object_key: object_key@, expires_at_us, wire: wire@ }),
                now_us,
            ),
            r == mutation_of(
                old(self)@,
                (WarmModel { object_key: object_key@, expires_at_us, wire: wire@ }),
                now_us,
            ),
    {
        let ghost offered = WarmModel { object_key: object_key@, expires_at_us, wire: wire@ };
        let mut mutation = WarmSourceBufferMutation {
            added_datagrams: 0,
            added_bytes: 0,
            expired_datagrams: 0,
            expired_bytes: 0,
            retired_datagrams: 0,
            retired_bytes: 0,
            evicted_datagrams: 0,
            evicted_bytes: 0,
        };
        proof {
            offers_keep_the_limits(old(self)@, offered, now_us);
            lemma_unexpired(old(self)@.datagrams, now_us);
            lemma_present(old(self)@.object_order, unexpired(old(self)@.datagrams, now_us));
        }
        self.remove_expired(now_us, &mut mutation);
        let ghost live = self@;
        if expires_at_us <= now_us || wire.len() > RELAY_WARM_SOURCE_REPLAY_MAX_BYTES_PER_CHILD {
            return mutation;
        }
        if !self.knows_object(object_key) {
            let ghost before = self.object_order@;
            self.object_order.push_back(object_key.copy());
            proof {
                assert(key_views(self.object_order@) =~= key_views(before).push(object_key@));
            }
        }
        self.bytes = self.bytes.saturating_add(wire.len());
        let ghost before = self.datagrams@;
        self.datagrams.push_back(
            WarmSourceDatagram {
                object_key: object_key.copy(),
                expires_at_us,
                wire: copy_bytes(wire),
            },
        );
        proof {
            assert(warm_views(self.datagrams@) =~= warm_views(before).push(offered));
            lemma_wire_bytes_push(live.datagrams, offered);
            assert(self@ =~= live.extended(offered));
        }
        mutation.added_datagrams = 1;
        mutation.added_bytes = wire.len();
        let ghost wide = self@;
        if self.object_order.len() > RELAY_WARM_SOURCE_REPLAY_MAX_OBJECTS_PER_CHILD {
            let ghost order = self.object_order@;
            match self.object_order.pop_front() {
                Some(oldest) => {
                    proof {
                        assert(key_views(order)[0] == oldest@);
                        assert(key_views(self.object_order@) =~= key_views(order).skip(1));
                    }
                    self.remove_object(&oldest, &mut mutation);
                },
                None => {},
            }
        }
        let ghost narrow = self@;
        proof {
            assert(narrow =~= wide.retired());
            if wide.object_order.len() > 4 {
                lemma_without_object(wide.datagrams, wide.object_order[0]);
            }
        }
        self.evict(&mut mutation);
        mutation
    }

    /// Hands out the datagrams that have not expired, in order, and empties the buffer.
    pub fn take_live(&mut self, now_us: u64) -> (r: WarmSourceReplayBatch)
        requires
            old(self).valid(),
        ensures
            final(self).valid(),
            final(self)@.datagrams.len() == 0,
            final(self)@.object_order.len() == 0,
            final(self).bytes == 0,
            byte_views(r.datagrams@) == wires(unexpired(old(self)@.datagrams, now_us)),
            r.bytes == wire_bytes(unexpired(old(self)@.datagrams, now_us)),
            r.expired_datagrams == old(self)@.datagrams.len() - r.datagrams@.len(),
            r.expired_bytes == old(self).bytes - r.bytes,
    {
        let ghost list = self@.datagrams;
        proof {
            lemma_unexpired(list, now_us);
        }
        let mut mutation = WarmSourceBufferMutation {
            added_datagrams: 0,
            added_bytes: 0,
            expired_datagrams: 0,
            expired_bytes: 0,
            retired_datagrams: 0,
            retired_bytes: 0,
            evicted_datagrams: 0,
            evicted_bytes: 0,
        };
        self.remove_expired(now_us, &mut mutation);
        let ghost live = self@.datagrams;
        let bytes: usize = self.bytes;
        let mut pending = self.empty_datagrams();
        let mut datagrams: Vec<Vec<u8>> = Vec::new();
        let ghost mut done: int = 0;
        proof {
            assert(warm_views(pending@) =~= live.skip(0));
            assert(wires(live).take(0) =~= byte_views(datagrams@));
        }
        loop
            invariant
                0 <= done <= live.len(),
                warm_views(pending@) == live.skip(done),
                byte_views(datagrams@) == wires(live).take(done),
            ensures
                done == live.len(),
                byte_views(datagrams@) == wires(live).take(done),
            decreases live.len() - done,
        {
            let ghost before = pending@;
            match pending.pop_front() {
                Some(datagram) => {
                    proof {
                        assert(warm_views(before) == live.skip(done));
                        assert(warm_views(before).len() == before.len());
                        assert(warm_views(before)[0] == datagram@);
                        assert(live.skip(done)[0] == live[done]);
                        assert(warm_views(pending@) =~= warm_views(before).skip(1));
                        assert(live.skip(done).skip(1) =~= live.skip(done + 1));
                    }
                    let ghost out_before = datagrams@;
                    datagrams.push(datagram.wire);
                    proof {
                        assert(byte_views(datagrams@) =~= byte_views(out_before).push(
                            datagram@.wire,
                        ));
                        assert(wires(live).take(done + 1) =~= wires(live).take(done).push(
                            wires(live)[done],
                        ));
                        done = done + 1;
                    }
                },
                None => {
                    proof {
                        assert(warm_views(before).len() == 0);
                        assert(live.skip(done).len() == live.len() - done);
                    }
                    break;
                },
            }
        }
        self.object_order = VecDeque::new();
        self.bytes = 0;
        proof {
            assert(wires(live).take(done) =~= wires(live));
            assert(byte_views(datagrams@).len() == live.len());
        }
        WarmSourceReplayBatch {
            datagrams,
            bytes,
            expired_datagrams: mutation.expired_datagrams,
            expired_bytes: mutation.expired_bytes,
        }
    }
}

proof fn lemma_take_bytes(list: Seq<WarmModel>, k: int)
    requires
        0 <= k <= list.len(),
    ensures
        wire_bytes(list.take(k)) <= wire_bytes(list),
    decreases list.len() - k,
{
    if k == list.len() {
        assert(list.take(k) =~= list);
    } else {
        lemma_take_bytes(list, k + 1);
        assert(list.take(k + 1).drop_last() =~= list.take(k));
    }
}

/// What is still worth sending is what has not expired, all of it, in order.
pub proof fn live_datagrams_stay_in_order(list: Seq<WarmModel>, now_us: u64)
    ensures
        unexpired(list, now_us) == list.filter(|d: WarmModel| d.expires_at_us > now_us),
    decreases list.len(),
{
    reveal(Seq::filter);
    if list.len() > 0 {
        live_datagrams_stay_in_order(list.drop_last(), now_us);
    }
}

/// The bytes of a list are those of its datagrams, one after the other.
pub proof fn bytes_add_up(list: Seq<WarmModel>)
    ensures
        wire_bytes(list) == list.fold_left(0int, |sum: int, d: WarmModel| sum + d.wire.len()),
    decreases list.len(),
{
    reveal_with_fuel(Seq::fold_left, 2);
    if list.len() > 0 {
        bytes_add_up(list.drop_last());
    }
}

proof fn lemma_without_is_filter(list: Seq<WarmModel>, key: KeyModel)
    ensures
        without_object(list, key) == list.filter(|d: WarmModel| d.object_key != key),
    decreases list.len(),
{
    reveal(Seq::filter);
    if list.len() > 0 {
        lemma_without_is_filter(list.drop_last(), key);
    }
}

proof fn lemma_present_is_filter(order: Seq<KeyModel>, list: Seq<WarmModel>)
    ensures
        present(order, list) == order.filter(|key: KeyModel| has_object(list, key)),
    decreases order.len(),
{
    reveal(Seq::filter);
    if order.len() > 0 {
        lemma_present_is_filter(order.drop_last(), list);
    }
}

proof fn lemma_cut(list: Seq<WarmModel>) -> (k: int)
    ensures
        0 <= k <= list.len(),
        within_limits(list) == list.skip(k),
        k > 0 ==> list.skip(k - 1).len() > 2_048 || wire_bytes(list.skip(k - 1)) > 4_194_304,
        k < list.len() ==> list.skip(k).len() <= 2_048 && wire_bytes(list.skip(k)) <= 4_194_304,
    decreases list.len(),
{
    if list.len() > 0 && (list.len() > 2_048 || wire_bytes(list) > 4_194_304) {
        let rest = list.skip(1);
        let k = lemma_cut(rest);
        assert(rest.skip(k) =~= list.skip(k + 1));
        if k > 0 {
            assert(rest.skip(k - 1) =~= list.skip(k));
        } else {
            assert(list.skip(0) =~= list);
        }
        k + 1
    } else {
        assert(list.skip(0) =~= list);
        0
    }
}

proof fn lemma_uncut(order: Seq<KeyModel>, list: Seq<WarmModel>)
    requires
        forall|i: int| 0 <= i < order.len() ==> has_object(list, #[trigger] order[i]),
    ensures
        present(order, list) == order,
    decreases order.len(),
{
    if order.len() > 0 {
        assert forall|i: int| 0 <= i < order.drop_last().len() implies has_object(
            list,
            #[trigger] order.drop_last()[i],
        ) by {
            assert(order.drop_last()[i] == order[i]);
        }
        lemma_uncut(order.drop_last(), list);
        assert(order.last() == order[order.len() - 1]);
        assert(order.drop_last().push(order.last()) =~= order);
    }
}

/// Whether what is kept of a list is all of it but so many from its front, of which none could
/// stay: with one more, it would be too many or too large.
pub open spec fn cut_where_needed(list: Seq<WarmModel>, kept: Seq<WarmModel>, cut: int) -> bool {
    &&& 0 <= cut < list.len()
    &&& kept == list.skip(cut)
    &&& cut > 0 ==> list.skip(cut - 1).len() > 2_048 || wire_bytes(list.skip(cut - 1)) > 4_194_304
}

/// The latest objects stay. An offer that is admitted comes last; what has expired goes, and
/// nothing else unless there is no room:
///
/// - The objects are those with something live, in the order in which they came, with the new one
///   behind them. Where they are too many, the oldest of them goes with all of its datagrams, and
///   it alone.
/// - Where the datagrams that are left are too many or too large, they go from the front, and no
///   more of them than need be.
/// - Where none had to go for their number or size, the objects kept are the end of the order:
///   no object is kept that is older than one that went.
///
/// What went is counted, each datagram once, by the reason for which it went.
pub proof fn latest_objects_stay(buffer: BufferModel, datagram: WarmModel, now_us: u64)
    requires
        buffer.valid(),
        datagram.expires_at_us > now_us,
        datagram.wire.len() <= 4_194_304,
    ensures
        ({
            let after = buffer.offered(datagram, now_us);
            let m = mutation_of(buffer, datagram, now_us);
            let live = buffer.datagrams.filter(|d: WarmModel| d.expires_at_us > now_us);
            let known = buffer.object_order.filter(|key: KeyModel| has_object(live, key));
            let order = if known.contains(datagram.object_key) {
                known
            } else {
                known.push(datagram.object_key)
            };
            let wide = live.push(datagram);
            let rest = if order.len() > 4 {
                wide.filter(|d: WarmModel| d.object_key != order[0])
            } else {
                wide
            };
            let kept_order = if order.len() > 4 {
                order.skip(1)
            } else {
                order
            };
            &&& cut_where_needed(rest, after.datagrams, m.evicted_datagrams as int)
            &&& after.object_order == kept_order.filter(
                |key: KeyModel| has_object(after.datagrams, key),
            )
            &&& m.evicted_datagrams == 0 ==> after.object_order == kept_order
            &&& m.added_datagrams == 1 && m.added_bytes == datagram.wire.len()
            &&& m.expired_datagrams == buffer.datagrams.len() - live.len()
            &&& m.expired_bytes == wire_bytes(buffer.datagrams) - wire_bytes(live)
            &&& m.retired_datagrams == wide.len() - rest.len()
            &&& m.retired_bytes == wire_bytes(wide) - wire_bytes(rest)
            &&& m.evicted_bytes == wire_bytes(rest) - wire_bytes(after.datagrams)
        }),
{
    let after = buffer.offered(datagram, now_us);
    let m = mutation_of(buffer, datagram, now_us);
    let fresh = buffer.refreshed(now_us);
    let wide = fresh.extended(datagram);
    let narrow = wide.retired();
    live_datagrams_stay_in_order(buffer.datagrams, now_us);
    lemma_unexpired(buffer.datagrams, now_us);
    lemma_present_is_filter(buffer.object_order, fresh.datagrams);
    if wide.object_order.len() > 4 {
        lemma_without_is_filter(wide.datagrams, wide.object_order[0]);
        lemma_without_object(wide.datagrams, wide.object_order[0]);
    }
    lemma_within_limits(narrow.datagrams);
    lemma_wire_bytes_push(fresh.datagrams, datagram);
    offers_keep_the_limits(buffer, datagram, now_us);
    offers_are_accounted_for(buffer, datagram, now_us);
    let k = lemma_cut(narrow.datagrams);
    lemma_present_is_filter(narrow.object_order, after.datagrams);
    assert(after.datagrams == narrow.datagrams.skip(k));
    assert(k < narrow.datagrams.len());
    assert(m.evicted_datagrams == k);
    assert(cut_where_needed(narrow.datagrams, after.datagrams, k));
    if k == 0 {
        assert(narrow.datagrams.skip(0) =~= narrow.datagrams);
        assert forall|i: int| 0 <= i < narrow.object_order.len() implies has_object(
            after.datagrams,
            #[trigger] narrow.object_order[i],
        ) by {
            lemma_narrow_has(buffer, datagram, now_us, i);
        }
        lemma_uncut(narrow.object_order, after.datagrams);
    }
}

proof fn lemma_narrow_has(buffer: BufferModel, datagram: WarmModel, now_us: u64, i: int)
    requires
        buffer.valid(),
        0 <= i < buffer.refreshed(now_us).extended(datagram).retired().object_order.len(),
    ensures
        ({
            let narrow = buffer.refreshed(now_us).extended(datagram).retired();
            has_object(narrow.datagrams, narrow.object_order[i])
        }),
{
    let fresh = buffer.refreshed(now_us);
    let wide = fresh.extended(datagram);
    let narrow = wide.retired();
    let key = narrow.object_order[i];
    let cut = wide.object_order.len() > 4;
    let at = if cut {
        i + 1
    } else {
        i
    };
    assert(wide.object_order[at] == key);
    lemma_present(buffer.object_order, fresh.datagrams);
    assert(has_object(wide.datagrams, key)) by {
        if at < fresh.object_order.len() {
            assert(fresh.object_order.contains(fresh.object_order[at]));
            let j = choose|j: int|
                0 <= j < fresh.datagrams.len() && (#[trigger] fresh.datagrams[j]).object_key == key;
            assert(wide.datagrams[j].object_key == key);
        } else {
            assert(wide.datagrams[fresh.datagrams.len() as int] == datagram);
        }
    }
    if cut {
        let oldest = wide.object_order[0];
        lemma_without_object(wide.datagrams, oldest);
        if key == oldest {
            assert(fresh.object_order.no_duplicates());
            if at < fresh.object_order.len() {
                assert(fresh.object_order[at] != fresh.object_order[0]);
            } else {
                assert(!fresh.object_order.contains(datagram.object_key));
                assert(fresh.object_order.contains(fresh.object_order[0]));
            }
        }
    }
}

/// What is refused changes nothing: an offer that has expired, or is larger than all that may be
/// kept, only lets go what has expired.
pub proof fn refused_offers_add_nothing(buffer: BufferModel, datagram: WarmModel, now_us: u64)
    requires
        buffer.valid(),
        datagram.expires_at_us <= now_us || datagram.wire.len() > 4_194_304,
    ensures
        ({
            let after = buffer.offered(datagram, now_us);
            let m = mutation_of(buffer, datagram, now_us);
            let live = buffer.datagrams.filter(|d: WarmModel| d.expires_at_us > now_us);
            &&& after.datagrams == live
            &&& after.object_order == buffer.object_order.filter(
                |key: KeyModel| has_object(live, key),
            )
            &&& m.added_datagrams == 0 && m.added_bytes == 0
            &&& m.retired_datagrams == 0 && m.retired_bytes == 0
            &&& m.evicted_datagrams == 0 && m.evicted_bytes == 0
            &&& m.expired_datagrams == buffer.datagrams.len() - live.len()
        }),
{
    live_datagrams_stay_in_order(buffer.datagrams, now_us);
    lemma_unexpired(buffer.datagrams, now_us);
    lemma_present_is_filter(buffer.object_order, unexpired(buffer.datagrams, now_us));
}

/// What is handed out of a buffer are the bytes of its datagrams as they came, each one and in their
/// order.
pub proof fn datagrams_are_handed_out_in_order(list: Seq<WarmModel>, now_us: u64)
    ensures
        wires(list).len() == list.len(),
        forall|i: int| 0 <= i < list.len() ==> #[trigger] wires(list)[i] == list[i].wire,
        wires(unexpired(list, now_us)).len() == list.filter(
            |d: WarmModel| d.expires_at_us > now_us,
        ).len(),
        forall|i: int|
            0 <= i < wires(unexpired(list, now_us)).len() ==> #[trigger] wires(
                unexpired(list, now_us),
            )[i] == list.filter(|d: WarmModel| d.expires_at_us > now_us)[i].wire,
{
    live_datagrams_stay_in_order(list, now_us);
}

} // verus!
