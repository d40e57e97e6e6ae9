//! The downstream forwarding of relay datagrams, and the warm children that failover promotes.

use vstd::prelude::*;
use crate::addr::SocketAddress;
use crate::histogram::{
    atomic_saturating_sub, counted_bucket, whole_us, wrapped_sum, wrapping_sum,
    AtomicDurationHistogram,
};
use crate::relay_snapshot::RelayForwardSnapshot;
use crate::warm::{
    byte_views, mutation_of, offers_are_accounted_for, offers_keep_the_limits, unexpired,
    wire_bytes, wires, BufferModel, ObjectKey, WarmModel, WarmSourceBufferMutation,
    WarmSourceReplayBuffer,
};

verus! {

/// Which symbols of an object a datagram carries.
#[derive(Clone, Copy, Debug, PartialEq, Eq, Structural)]
pub enum MediaDatagramRole {
    Source,
    Repair,
}

/// Which datagrams a child is subscribed to.
#[derive(Clone, Copy, Debug, PartialEq, Eq, Structural)]
pub enum RelayForwardRole {
    All,
    Source,
    Repair,
}

impl RelayForwardRole {
    /// Whether a subscription covers a datagram.
    pub open spec fn covers(self, role: MediaDatagramRole) -> bool {
        match self {
            RelayForwardRole::All => true,
            RelayForwardRole::Source => role is Source,
            RelayForwardRole::Repair => role is Repair,
        }
    }

    /// Whether a subscription covers a datagram.
    pub fn permits(self, role: MediaDatagramRole) -> (r: bool)
        ensures
            r == self.covers(role),
    {
        match self {
            RelayForwardRole::All => true,
            RelayForwardRole::Source => matches!(role, MediaDatagramRole::Source),
            RelayForwardRole::Repair => matches!(role, MediaDatagramRole::Repair),
        }
    }
}

/// A configured child: the local socket, the child's address and its subscription.
#[derive(Clone, Copy, Debug, PartialEq, Eq, Structural)]
pub struct RelayForwardEndpoint {
    pub bind: SocketAddress,
    pub target: SocketAddress,
    pub role: RelayForwardRole,
}

/// What a warm child is to be sent.
#[derive(Clone, Copy, Debug, PartialEq, Eq, Structural)]
pub enum FailoverForwardMode {
    RepairOnly,
    SourceAndRepair,
}

/// One child.
#[derive(Debug)]
pub struct RelayForwardPath {
    pub target: SocketAddress,
    pub role: RelayForwardRole,
    pub promoted: bool,
    pub warm_sources: WarmSourceReplayBuffer,
}

/// One child.
#[verifier::ext_equal]
pub struct PathModel {
    pub target: SocketAddress,
    pub role: RelayForwardRole,
    pub promoted: bool,
    pub warm: BufferModel,
}

impl View for RelayForwardPath {
    type V = PathModel;

    open spec fn view(&self) -> PathModel {
        PathModel {
            target: self.target,
            role: self.role,
            promoted: self.promoted,
            warm: self.warm_sources@,
        }
    }
}

/// The children of a list.
pub open spec fn path_views(paths: Seq<RelayForwardPath>) -> Seq<PathModel> {
    paths.map_values(|p: RelayForwardPath| p@)
}

impl PathModel {
    /// Whether the child is to be sent a datagram: its subscription covers it, or it is a
    /// promoted warm child and the datagram is a source.
    pub open spec fn sends(self, role: MediaDatagramRole) -> bool {
        self.role.covers(role) || (self.promoted && self.role is Repair && role is Source)
    }

    /// Whether a datagram is kept warm for the child instead of being sent.
    pub open spec fn keeps_warm(self, role: MediaDatagramRole) -> bool {
        !self.sends(role) && self.role is Repair && role is Source
    }

    /// The child after a datagram was offered to it.
    pub open spec fn offered(
        self,
        role: MediaDatagramRole,
        datagram: Option<WarmModel>,
        now_us: u64,
    ) -> PathModel {
        if self.keeps_warm(role) && datagram is Some {
            PathModel { warm: self.warm.offered(datagram->0, now_us), ..self }
        } else {
            self
        }
    }
}

/// The difference of two counters, or zero where the second is larger.
pub open spec fn counter_diff(a: u64, b: u64) -> u64 {
    if a >= b {
        (a - b) as u64
    } else {
        0
    }
}

/// The counters after a warm buffer took a datagram in.
pub open spec fn with_mutation(
    c: RelayForwardSnapshot,
    m: WarmSourceBufferMutation,
) -> RelayForwardSnapshot {
    RelayForwardSnapshot {
        warm_source_buffered_datagrams: counter_diff(
            wrapped_sum(c.warm_source_buffered_datagrams, m.added_datagrams as u64),
            (m.expired_datagrams + m.retired_datagrams + m.evicted_datagrams) as u64,
        ),
        warm_source_buffered_bytes: counter_diff(
            wrapped_sum(c.warm_source_buffered_bytes, m.added_bytes as u64),
            (m.expired_bytes + m.retired_bytes + m.evicted_bytes) as u64,
        ),
        warm_source_expired_datagrams: wrapped_sum(
            c.warm_source_expired_datagrams,
            m.expired_datagrams as u64,
        ),
        warm_source_retired_datagrams: wrapped_sum(
            c.warm_source_retired_datagrams,
            m.retired_datagrams as u64,
        ),
        warm_source_evicted_datagrams: wrapped_sum(
            c.warm_source_evicted_datagrams,
            m.evicted_datagrams as u64,
        ),
        ..c
    }
}

/// The counters after a datagram was offered to a child.
pub open spec fn counted_offer(
    c: RelayForwardSnapshot,
    path: PathModel,
    role: MediaDatagramRole,
    datagram: Option<WarmModel>,
    now_us: u64,
) -> RelayForwardSnapshot {
    if path.sends(role) {
        c
    } else {
        let buffered = if path.keeps_warm(role) && datagram is Some {
            with_mutation(c, mutation_of(path.warm, datagram->0, now_us))
        } else {
            c
        };
        RelayForwardSnapshot {
            filtered_datagrams: wrapped_sum(buffered.filtered_datagrams, 1),
            ..buffered
        }
    }
}

/// The counters after a datagram was offered to children one after the other.
pub open spec fn counted_offers(
    c: RelayForwardSnapshot,
    paths: Seq<PathModel>,
    role: MediaDatagramRole,
    datagram: Option<WarmModel>,
    now_us: u64,
) -> RelayForwardSnapshot
    decreases paths.len(),
{
    if paths.len() == 0 {
        c
    } else {
        counted_offer(
            counted_offers(c, paths.drop_last(), role, datagram, now_us),
            paths.last(),
            role,
            datagram,
            now_us,
        )
    }
}

/// The positions of the children that are to be sent a datagram, in order.
pub open spec fn recipients(paths: Seq<PathModel>, role: MediaDatagramRole) -> Seq<usize>
    decreases paths.len(),
{
    if paths.len() == 0 {
        Seq::empty()
    } else if paths.last().sends(role) {
        recipients(paths.drop_last(), role).push((paths.len() - 1) as usize)
    } else {
        recipients(paths.drop_last(), role)
    }
}

/// The position of the first child with an address, or their number.
pub open spec fn path_index(paths: Seq<PathModel>, target: SocketAddress) -> int
    decreases paths.len(),
{
    if paths.len() == 0 || paths[0].target == target {
        0
    } else {
        1 + path_index(paths.skip(1), target)
    }
}

/// The number of promoted children.
pub open spec fn promoted_count(paths: Seq<PathModel>) -> nat
    decreases paths.len(),
{
    if paths.len() == 0 {
        0
    } else {
        promoted_count(paths.drop_last()) + if paths.last().promoted {
            1nat
        } else {
            0nat
        }
    }
}

/// The forwarding of a node.
#[derive(Debug)]
pub struct RelayDownstreamForwarder {
    pub paths: Vec<RelayForwardPath>,
    /// The running counters; the numbers of children and of promoted children are read from
    /// the children.
    pub counters: RelayForwardSnapshot,
}

/// The counters after a send to a child succeeded.
pub open spec fn counted_send(
    before: RelayForwardSnapshot,
    after: RelayForwardSnapshot,
    role: MediaDatagramRole,
    sent: usize,
    duration_us: u64,
) -> bool {
    &&& forall|i: int|
        0 <= i < 13 ==> #[trigger] after.duration_buckets@[i] == counted_bucket(
            before.duration_buckets@[i],
            crate::histogram::EDGE_RESPONSE_DURATION_BUCKETS_US@[i],
            duration_us,
        )
    &&& after == (RelayForwardSnapshot {
        source_datagrams: if role is Source {
            wrapped_sum(before.source_datagrams, 1)
        } else {
            before.source_datagrams
        },
        repair_datagrams: if role is Repair {
            wrapped_sum(before.repair_datagrams, 1)
        } else {
            before.repair_datagrams
        },
        bytes: wrapped_sum(before.bytes, sent as u64),
        duration_count: wrapped_sum(before.duration_count, 1),
        duration_sum_us: wrapped_sum(before.duration_sum_us, duration_us),
        duration_max_us: if duration_us > before.duration_max_us {
            duration_us
        } else {
            before.duration_max_us
        },
        duration_buckets: after.duration_buckets,
        ..before
    })
}

impl RelayDownstreamForwarder {
    /// Every child's buffer keeps its limits.
    pub open spec fn valid(self) -> bool {
        forall|i: int|
            0 <= i < self.paths@.len() ==> (#[trigger] self.paths@[i]).warm_sources.valid()
    }

    /// The children.
    pub open spec fn children(self) -> Seq<PathModel> {
        path_views(self.paths@)
    }

    /// The forwarding to configured children; nothing where there are none.
    pub fn new(endpoints: &Vec<RelayForwardEndpoint>) -> (r: Option<Self>)
        ensures
            r is None <==> endpoints@.len() == 0,
            match r {
                Some(f) => {
                    &&& f.valid()
                    &&& f.children().len() == endpoints@.len()
                    &&& forall|i: int|
                        0 <= i < endpoints@.len() ==> {
                            let child = #[trigger] f.children()[i];
                            &&& child.target == endpoints@[i].target
                            &&& child.role == endpoints@[i].role
                            &&& !child.promoted
                            &&& child.warm.datagrams.len() == 0
                            &&& child.warm.object_order.len() == 0
                        }
                    &&& no_counts(f.counters)
                },
                None => true,
            },
    {
        if endpoints.len() == 0 {
            return None;
        }
        let mut paths: Vec<RelayForwardPath> = Vec::new();
        let mut i: usize = 0;
        while i < endpoints.len()
            invariant
                i <= endpoints.len(),
                paths@.len() == i,
                forall|j: int|
                    0 <= j < i ==> {
                        let path = #[trigger] paths@[j];
                        &&& path.target == endpoints@[j].target
                        &&& path.role == endpoints@[j].role
                        &&& !path.promoted
                        &&& path.warm_sources.valid()
                        &&& path.warm_sources@.datagrams.len() == 0
                        &&& path.warm_sources@.object_order.len() == 0
                    },
            decreases endpoints.len() - i,
        {
            paths.push(
                RelayForwardPath {
                    target: endpoints[i].target,
                    role: endpoints[i].role,
                    promoted: false,
                    warm_sources: WarmSourceReplayBuffer::new(),
                },
            );
            i = i + 1;
        }
        Some(
            RelayDownstreamForwarder {
                paths,
                counters: RelayForwardSnapshot {
                    downstream_children: 0,
                    source_datagrams: 0,
                    repair_datagrams: 0,
                    bytes: 0,
                    errors: 0,
                    filtered_datagrams: 0,
                    warm_source_buffered_datagrams: 0,
                    warm_source_buffered_bytes: 0,
                    warm_source_replayed_datagrams: 0,
                    warm_source_replayed_bytes: 0,
                    warm_source_expired_datagrams: 0,
                    warm_source_retired_datagrams: 0,
                    warm_source_evicted_datagrams: 0,
                    duration_count: 0,
                    duration_sum_us: 0,
                    duration_max_us: 0,
                    duration_buckets: [0; 13],
                    failover_listeners: 0,
                    failover_promoted_children: 0,
                    failover_commands_received: 0,
                    failover_commands_rejected: 0,
                    failover_lease_expirations: 0,
                    failover_promotions_applied: 0,
                    failover_demotions_applied: 0,
                    failover_last_transition_unix_ms: 0,
                },
            },
        )
    }

    fn path_position(&self, target: SocketAddress) -> (r: usize)
        ensures
            r == path_index(self.children(), target),
            r <= self.paths@.len(),
    {
        let ghost children = self.children();
        let mut i: usize = 0;
        proof {
            assert(children.skip(0) =~= children);
        }
        while i < self.paths.len()
            invariant
                children == self.children(),
                i <= self.paths.len(),
                path_index(children, target) == i + path_index(children.skip(i as int), target),
            decreases self.paths.len() - i,
        {
            proof {
                assert(children.skip(i as int)[0] == self.paths@[i as int]@);
                assert(children.skip(i as int).skip(1) =~= children.skip(i + 1));
            }
            if self.paths[i].target == target {
                return i;
            }
            i = i + 1;
        }
        i
    }

    /// Keeps a source datagram warm for a child, and counts what that did to its buffer.
    fn buffer_warm_source(
        &mut self,
        index: usize,
        object_key: &ObjectKey,
        expires_at_us: u64,
        datagram: &[u8],
        now_us: u64,
    )
        requires
            old(self).valid(),
            index < old(self).paths@.len(),
        ensures
            final(self).valid(),
            ({
                let warm = WarmModel { object_key: object_key@, expires_at_us, wire: datagram@ };
                let child = old(self).children()[index as int];
                &&& final(self).children() == old(self).children().update(
                    index as int,
                    PathModel { warm: child.warm.offered(warm, now_us), ..child },
                )
                &&& final(self).counters == with_mutation(
                    old(self).counters,
                    mutation_of(child.warm, warm, now_us),
                )
            }),
    {
        let ghost warm = WarmModel { object_key: object_key@, expires_at_us, wire: datagram@ };
        let ghost child = old(self).children()[index as int];
        proof {
            assert(self.paths@[index as int].warm_sources.valid());
            assert(child.warm == self.paths@[index as int].warm_sources@);
            offers_are_accounted_for(child.warm, warm, now_us);
        }
        let mutation = self.paths[index].warm_sources.push(
            object_key,
            expires_at_us,
            datagram,
            now_us,
        );
        proof {
            assert(self.children() =~= old(self).children().update(
                index as int,
                PathModel { warm: child.warm.offered(warm, now_us), ..child },
            ));
        }
        self.counters.warm_source_buffered_datagrams = wrapping_sum(
            self.counters.warm_source_buffered_datagrams,
            mutation.added_datagrams as u64,
        );
        self.counters.warm_source_buffered_bytes = wrapping_sum(
            self.counters.warm_source_buffered_bytes,
            mutation.added_bytes as u64,
        );
        let gone: usize = mutation.expired_datagrams + mutation.retired_datagrams
            + mutation.evicted_datagrams;
        let gone_bytes: usize = mutation.expired_bytes + mutation.retired_bytes
            + mutation.evicted_bytes;
        atomic_saturating_sub(&mut self.counters.warm_source_buffered_datagrams, gone as u64);
        atomic_saturating_sub(&mut self.counters.warm_source_buffered_bytes, gone_bytes as u64);
        self.counters.warm_source_expired_datagrams = wrapping_sum(
            self.counters.warm_source_expired_datagrams,
            mutation.expired_datagrams as u64,
        );
        self.counters.warm_source_retired_datagrams = wrapping_sum(
            self.counters.warm_source_retired_datagrams,
            mutation.retired_datagrams as u64,
        );
        self.counters.warm_source_evicted_datagrams = wrapping_sum(
            self.counters.warm_source_evicted_datagrams,
            mutation.evicted_datagrams as u64,
        );
    }

    /// Offers a datagram to every child: those that are to be sent it are returned by their
    /// positions, for the others it is kept warm or dropped, and counted as filtered.
    pub fn forward(
        &mut self,
        datagram: &[u8],
        role: MediaDatagramRole,
        object_key: Option<&ObjectKey>,
        expires_at_us: Option<u64>,
        now_us: u64,
    ) -> (r: Vec<usize>)
        requires
            old(self).valid(),
        ensures
            final(self).valid(),
            ({
                let warm = offered_datagram(datagram@, object_key, expires_at_us);
                let before = old(self).children();
                &&& r@ == recipients(before, role)
                &&& final(self).children().len() == before.len()
                &&& forall|i: int|
                    0 <= i < before.len() ==> #[trigger] final(self).children()[i]
                        == before[i].offered(role, warm, now_us)
                &&& final(self).counters == counted_offers(
                    old(self).counters,
                    before,
                    role,
                    warm,
                    now_us,
                )
            }),
    {
        let ghost warm = offered_datagram(datagram@, object_key, expires_at_us);
        let ghost before = self.children();
        let mut out: Vec<usize> = Vec::new();
        let mut i: usize = 0;
        proof {
            assert(before.take(0) =~= Seq::<PathModel>::empty());
        }
        while i < self.paths.len()
            invariant
                self.valid(),
                i <= self.paths@.len(),
                self.paths@.len() == before.len(),
                warm == offered_datagram(datagram@, object_key, expires_at_us),
                before == old(self).children(),
                out@ == recipients(before.take(i as int), role),
                forall|j: int|
                    0 <= j < i ==> #[trigger] self.children()[j] == before[j].offered(
                        role,
                        warm,
                        now_us,
                    ),
                forall|j: int| i <= j < before.len() ==> #[trigger] self.children()[j] == before[j],
                self.counters == counted_offers(
                    old(self).counters,
                    before.take(i as int),
                    role,
                    warm,
                    now_us,
                ),
            decreases self.paths@.len() - i,
        {
            proof {
                assert(before.take(i + 1).drop_last() =~= before.take(i as int));
                assert(before.take(i + 1).last() == before[i as int]);
                assert(self.children()[i as int] == self.paths@[i as int]@);
            }
            let ghost mid = self.children();
            assert(mid.len() == self.paths@.len());
            let path_role = self.paths[i].role;
            let promoted: bool = self.paths[i].promoted;
            let source: bool = matches!(role, MediaDatagramRole::Source);
            let warm_child: bool = path_role == RelayForwardRole::Repair;
            if path_role.permits(role) || (promoted && warm_child && source) {
                out.push(i);
            } else {
                if warm_child && source {
                    match (object_key, expires_at_us) {
                        (Some(key), Some(expires)) => {
                            self.buffer_warm_source(i, key, expires, datagram, now_us);
                        },
                        _ => {},
                    }
                }
                self.counters.filtered_datagrams = wrapping_sum(
                    self.counters.filtered_datagrams,
                    1,
                );
            }
            proof {
                assert(self.children().len() == self.paths@.len());
                assert forall|j: int| 0 <= j < before.len() && j != i implies
                    #[trigger] self.children()[j] == mid[j] by {}
            }
            i = i + 1;
        }
        proof {
            assert(before.take(i as int) =~= before);
        }
        out
    }

    /// Counts a send to a child that succeeded.
    pub fn record_forward_success(&mut self, role: MediaDatagramRole, sent: usize, duration_ns: u128)
        ensures
            final(self).paths == old(self).paths,
            counted_send(
                old(self).counters,
                final(self).counters,
                role,
                sent,
                whole_us(duration_ns),
            ),
    {
        match role {
            MediaDatagramRole::Source => {
                self.counters.source_datagrams = wrapping_sum(self.counters.source_datagrams, 1);
            },
            MediaDatagramRole::Repair => {
                self.counters.repair_datagrams = wrapping_sum(self.counters.repair_datagrams, 1);
            },
        }
        self.counters.bytes = wrapping_sum(self.counters.bytes, sent as u64);
        let mut histogram = AtomicDurationHistogram {
            count: self.counters.duration_count,
            sum_us: self.counters.duration_sum_us,
            max_us: self.counters.duration_max_us,
            buckets: self.counters.duration_buckets,
        };
        let _ = histogram.record(duration_ns);
        self.counters.duration_count = histogram.count;
        self.counters.duration_sum_us = histogram.sum_us;
        self.counters.duration_max_us = histogram.max_us;
        self.counters.duration_buckets = histogram.buckets;
    }

    /// Counts a send to a child that failed, or that went out only in part.
    pub fn record_forward_error(&mut self)
        ensures
            final(self).paths == old(self).paths,
            final(self).counters == (RelayForwardSnapshot {
                errors: wrapped_sum(old(self).counters.errors, 1),
                ..old(self).counters
            }),
    {
        self.counters.errors = wrapping_sum(self.counters.errors, 1);
    }

    /// Counts the replay of a warm datagram that succeeded.
    pub fn record_replay_success(&mut self, sent: usize, duration_ns: u128)
        ensures
            final(self).paths == old(self).paths,
            exists|mid: RelayForwardSnapshot| #[trigger]
                counted_send(
                    old(self).counters,
                    mid,
                    MediaDatagramRole::Source,
                    sent,
                    whole_us(duration_ns),
                ) && final(self).counters == (RelayForwardSnapshot {
                    warm_source_replayed_datagrams: wrapped_sum(
                        mid.warm_source_replayed_datagrams,
                        1,
                    ),
                    warm_source_replayed_bytes: wrapped_sum(
                        mid.warm_source_replayed_bytes,
                        sent as u64,
                    ),
                    ..mid
                }),
    {
        self.record_forward_success(MediaDatagramRole::Source, sent, duration_ns);
        let ghost mid = self.counters;
        self.counters.warm_source_replayed_datagrams = wrapping_sum(
            self.counters.warm_source_replayed_datagrams,
            1,
        );
        self.counters.warm_source_replayed_bytes = wrapping_sum(
            self.counters.warm_source_replayed_bytes,
            sent as u64,
        );
    }

    /// Takes the warm datagrams of a child out of its buffer: those that have not expired are
    /// returned, in order, to be sent; all of them leave the counters.
    pub fn replay_warm_sources(&mut self, target: SocketAddress, now_us: u64) -> (r: Vec<Vec<u8>>)
        requires
            old(self).valid(),
        ensures
            final(self).valid(),
            ({
                let before = old(self).children();
                let i = path_index(before, target);
                if i < before.len() {
                    let live = unexpired(before[i].warm.datagrams, now_us);
                    let all = before[i].warm.datagrams;
                    &&& byte_views(r@) == wires(live)
                    &&& final(self).children() == before.update(
                        i,
                        PathModel {
                            warm: BufferModel {
                                datagrams: Seq::empty(),
                                object_order: Seq::empty(),
                            },
                            ..before[i]
                        },
                    )
                    &&& final(self).counters == (RelayForwardSnapshot {
                        warm_source_buffered_datagrams: counter_diff(
                            old(self).counters.warm_source_buffered_datagrams,
                            all.len() as u64,
                        ),
                        warm_source_buffered_bytes: counter_diff(
                            old(self).counters.warm_source_buffered_bytes,
                            wire_bytes(all) as u64,
                        ),
                        warm_source_expired_datagrams: wrapped_sum(
                            old(self).counters.warm_source_expired_datagrams,
                            (all.len() - live.len()) as u64,
                        ),
                        ..old(self).counters
                    })
                } else {
                    &&& r@.len() == 0
                    &&& final(self).children() == before
                    &&& final(self).counters == old(self).counters
                }
            }),
    {
        let ghost before = self.children();
        let i: usize = self.path_position(target);
        if i >= self.paths.len() {
            return Vec::new();
        }
        proof {
            assert(self.paths@[i as int].warm_sources.valid());
            assert(before[i as int].warm == self.paths@[i as int].warm_sources@);
        }
        let batch = self.paths[i].warm_sources.take_live(now_us);
        proof {
            assert(byte_views(batch.datagrams@).len() == batch.datagrams@.len());
            assert(self.paths@[i as int].warm_sources@ =~= (BufferModel {
                datagrams: Seq::empty(),
                object_order: Seq::empty(),
            }));
            assert(self.children() =~= before.update(
                i as int,
                PathModel {
                    warm: BufferModel { datagrams: Seq::empty(), object_order: Seq::empty() },
                    ..before[i as int]
                },
            ));
        }
        let removed: usize = batch.datagrams.len() + batch.expired_datagrams;
        let removed_bytes: usize = batch.bytes + batch.expired_bytes;
        atomic_saturating_sub(&mut self.counters.warm_source_buffered_datagrams, removed as u64);
        atomic_saturating_sub(&mut self.counters.warm_source_buffered_bytes, removed_bytes as u64);
        self.counters.warm_source_expired_datagrams = wrapping_sum(
            self.counters.warm_source_expired_datagrams,
            batch.expired_datagrams as u64,
        );
        batch.datagrams
    }

    /// Counts a failover listener.
    pub fn register_failover_listener(&mut self)
        ensures
            final(self).paths == old(self).paths,
            final(self).counters == (RelayForwardSnapshot {
                failover_listeners: wrapped_sum(old(self).counters.failover_listeners, 1),
                ..old(self).counters
            }),
    {
        self.counters.failover_listeners = wrapping_sum(self.counters.failover_listeners, 1);
    }

    /// Counts a failover command that was refused.
    pub fn record_failover_command_rejected(&mut self)
        ensures
            final(self).paths == old(self).paths,
            final(self).counters == rejected(old(self).counters),
    {
        self.counters.failover_commands_rejected = wrapping_sum(
            self.counters.failover_commands_rejected,
            1,
        );
    }

    /// Sets what a warm child is to be sent, by a command or because its lease has expired.
    ///
    /// Only a child with a repair subscription can be set; any other target is refused. The
    /// result tells whether the child was promoted just now.
    pub fn apply_failover_mode(
        &mut self,
        target: SocketAddress,
        mode: FailoverForwardMode,
        lease_expired: bool,
        now_ms: u64,
    ) -> (r: Option<bool>)
        requires
            old(self).valid(),
        ensures
            final(self).valid(),
            ({
                let before = old(self).children();
                let i = path_index(before, target);
                let promoted = mode is SourceAndRepair;
                if i < before.len() && before[i].role is Repair {
                    &&& r == Some(!before[i].promoted && promoted)
                    &&& final(self).children() == before.update(
                        i,
                        PathModel { promoted, ..before[i] },
                    )
                    &&& final(self).counters == mode_applied(
                        old(self).counters,
                        before[i].promoted,
                        promoted,
                        lease_expired,
                        now_ms,
                    )
                } else {
                    &&& r is None
                    &&& final(self).children() == before
                    &&& final(self).counters == rejected(old(self).counters)
                }
            }),
    {
        let ghost before = self.children();
        let i: usize = self.path_position(target);
        if i >= self.paths.len() {
            self.record_failover_command_rejected();
            return None;
        }
        proof {
            assert(before[i as int] == self.paths@[i as int]@);
        }
        if self.paths[i].role != RelayForwardRole::Repair {
            self.record_failover_command_rejected();
            return None;
        }
        if !lease_expired {
            self.counters.failover_commands_received = wrapping_sum(
                self.counters.failover_commands_received,
                1,
            );
        }
        let promoted: bool = mode == FailoverForwardMode::SourceAndRepair;
        let previous: bool = self.paths[i].promoted;
        self.paths[i].promoted = promoted;
        proof {
            assert(self.children() =~= before.update(
                i as int,
                PathModel { promoted, ..before[i as int] },
            ));
        }
        if previous != promoted {
            if promoted {
                self.counters.failover_promotions_applied = wrapping_sum(
                    self.counters.failover_promotions_applied,
                    1,
                );
            } else {
                self.counters.failover_demotions_applied = wrapping_sum(
                    self.counters.failover_demotions_applied,
                    1,
                );
            }
            if lease_expired {
                self.counters.failover_lease_expirations = wrapping_sum(
                    self.counters.failover_lease_expirations,
                    1,
                );
            }
            self.counters.failover_last_transition_unix_ms = now_ms;
        }
        Some(!previous && promoted)
    }

    /// The account of the forwarding.
    pub fn snapshot(&self) -> (r: RelayForwardSnapshot)
        ensures
            r == (RelayForwardSnapshot {
                downstream_children: self.children().len() as u64,
                failover_promoted_children: promoted_count(self.children()) as u64,
                ..self.counters
            }),
    {
        let ghost children = self.children();
        let mut promoted: u64 = 0;
        let mut i: usize = 0;
        proof {
            assert(children.take(0) =~= Seq::<PathModel>::empty());
        }
        while i < self.paths.len()
            invariant
                children == self.children(),
                i <= self.paths@.len(),
                promoted <= i,
                promoted == promoted_count(children.take(i as int)),
            decreases self.paths@.len() - i,
        {
            proof {
                assert(children.take(i + 1).drop_last() =~= children.take(i as int));
                assert(children.take(i + 1).last() == self.paths@[i as int]@);
            }
            if self.paths[i].promoted {
                promoted = promoted + 1;
            }
            i = i + 1;
        }
        proof {
            assert(children.take(i as int) =~= children);
        }
        let mut snapshot = self.counters;
        snapshot.downstream_children = self.paths.len() as u64;
        snapshot.failover_promoted_children = promoted;
        snapshot
    }
}

/// The warm form of a datagram that is offered: it needs an object and a deadline.
pub open spec fn offered_datagram(
    datagram: Seq<u8>,
    object_key: Option<&ObjectKey>,
    expires_at_us: Option<u64>,
) -> Option<WarmModel> {
    match (object_key, expires_at_us) {
        (Some(key), Some(expires)) => Some(
            WarmModel { object_key: key@, expires_at_us: expires, wire: datagram },
        ),
        _ => None,
    }
}

/// The counters after a command was refused.
pub open spec fn rejected(c: RelayForwardSnapshot) -> RelayForwardSnapshot {
    RelayForwardSnapshot {
        failover_commands_rejected: wrapped_sum(c.failover_commands_rejected, 1),
        ..c
    }
}

/// The counters after a child was set: a command counts as received, and a change as a
/// promotion or a demotion, at a time.
pub open spec fn mode_applied(
    c: RelayForwardSnapshot,
    previous: bool,
    promoted: bool,
    lease_expired: bool,
    now_ms: u64,
) -> RelayForwardSnapshot {
    let changed = previous != promoted;
    RelayForwardSnapshot {
        failover_commands_received: if lease_expired {
            c.failover_commands_received
        } else {
            wrapped_sum(c.failover_commands_received, 1)
        },
        failover_promotions_applied: if changed && promoted {
            wrapped_sum(c.failover_promotions_applied, 1)
        } else {
            c.failover_promotions_applied
        },
        failover_demotions_applied: if changed && !promoted {
            wrapped_sum(c.failover_demotions_applied, 1)
        } else {
            c.failover_demotions_applied
        },
        failover_lease_expirations: if changed && lease_expired {
            wrapped_sum(c.failover_lease_expirations, 1)
        } else {
            c.failover_lease_expirations
        },
        failover_last_transition_unix_ms: if changed {
            now_ms
        } else {
            c.failover_last_transition_unix_ms
        },
        ..c
    }
}

/// Whether every counter is zero.
pub open spec fn no_counts(c: RelayForwardSnapshot) -> bool {
    &&& c.source_datagrams == 0 && c.repair_datagrams == 0 && c.bytes == 0 && c.errors == 0
    &&& c.filtered_datagrams == 0
    &&& c.warm_source_buffered_datagrams == 0 && c.warm_source_buffered_bytes == 0
    &&& c.warm_source_replayed_datagrams == 0 && c.warm_source_replayed_bytes == 0
    &&& c.warm_source_expired_datagrams == 0 && c.warm_source_retired_datagrams == 0
    &&& c.warm_source_evicted_datagrams == 0
    &&& c.duration_count == 0 && c.duration_sum_us == 0 && c.duration_max_us == 0
    &&& forall|i: int| 0 <= i < 13 ==> #[trigger] c.duration_buckets@[i] == 0
    &&& c.failover_listeners == 0 && c.failover_commands_received == 0
    &&& c.failover_commands_rejected == 0 && c.failover_lease_expirations == 0
    &&& c.failover_promotions_applied == 0 && c.failover_demotions_applied == 0
    &&& c.failover_last_transition_unix_ms == 0
}

/// The number of datagrams that are kept warm for children.
pub open spec fn warm_datagrams(paths: Seq<PathModel>) -> nat
    decreases paths.len(),
{
    if paths.len() == 0 {
        0
    } else {
        warm_datagrams(paths.drop_last()) + paths.last().warm.datagrams.len()
    }
}

/// The number of bytes that are kept warm for children.
pub open spec fn warm_bytes(paths: Seq<PathModel>) -> nat
    decreases paths.len(),
{
    if paths.len() == 0 {
        0
    } else {
        warm_bytes(paths.drop_last()) + wire_bytes(paths.last().warm.datagrams)
    }
}

/// Whether the counters tell how much is kept warm for children.
pub open spec fn gauges_match(c: RelayForwardSnapshot, paths: Seq<PathModel>) -> bool {
    &&& c.warm_source_buffered_datagrams == warm_datagrams(paths)
    &&& c.warm_source_buffered_bytes == warm_bytes(paths)
}

/// Children after a datagram was offered to each.
pub open spec fn all_offered(
    paths: Seq<PathModel>,
    role: MediaDatagramRole,
    datagram: Option<WarmModel>,
    now_us: u64,
) -> Seq<PathModel> {
    paths.map_values(|path: PathModel| path.offered(role, datagram, now_us))
}

proof fn lemma_mutation_counted(
    c: RelayForwardSnapshot,
    m: WarmSourceBufferMutation,
    datagrams: nat,
    bytes: nat,
)
    requires
        c.warm_source_buffered_datagrams + m.added_datagrams <= u64::MAX,
        c.warm_source_buffered_bytes + m.added_bytes <= u64::MAX,
        m.expired_datagrams <= 2048,
        m.retired_datagrams <= 2049,
        m.evicted_datagrams <= 2049,
        m.expired_bytes <= 4_194_304,
        m.retired_bytes <= 8_388_608,
        m.evicted_bytes <= 8_388_608,
        datagrams == c.warm_source_buffered_datagrams + m.added_datagrams - m.expired_datagrams
            - m.retired_datagrams - m.evicted_datagrams,
        bytes == c.warm_source_buffered_bytes + m.added_bytes - m.expired_bytes - m.retired_bytes
            - m.evicted_bytes,
    ensures
        with_mutation(c, m).warm_source_buffered_datagrams == datagrams,
        with_mutation(c, m).warm_source_buffered_bytes == bytes,
{
}

proof fn lemma_offer_counted(
    c: RelayForwardSnapshot,
    path: PathModel,
    role: MediaDatagramRole,
    datagram: Option<WarmModel>,
    now_us: u64,
    more: nat,
    more_bytes: nat,
)
    requires
        path.warm.valid(),
        more + 4_096 <= u64::MAX,
        more_bytes + 8_388_608 <= u64::MAX,
        c.warm_source_buffered_datagrams == path.warm.datagrams.len() + more,
        c.warm_source_buffered_bytes == wire_bytes(path.warm.datagrams) + more_bytes,
    ensures
        ({
            let r = counted_offer(c, path, role, datagram, now_us);
            let now = path.offered(role, datagram, now_us);
            &&& r.warm_source_buffered_datagrams == now.warm.datagrams.len() + more
            &&& r.warm_source_buffered_bytes == wire_bytes(now.warm.datagrams) + more_bytes
            &&& now.warm.datagrams.len() <= 2_048
            &&& wire_bytes(now.warm.datagrams) <= 4_194_304
        }),
{
    if path.keeps_warm(role) && datagram is Some {
        let m = mutation_of(path.warm, datagram->0, now_us);
        let after = path.warm.offered(datagram->0, now_us);
        offers_are_accounted_for(path.warm, datagram->0, now_us);
        offers_keep_the_limits(path.warm, datagram->0, now_us);
        lemma_mutation_counted(
            c,
            m,
            after.datagrams.len() + more,
            wire_bytes(after.datagrams) + more_bytes,
        );
    }
}

proof fn lemma_offers_counted(
    c: RelayForwardSnapshot,
    paths: Seq<PathModel>,
    role: MediaDatagramRole,
    datagram: Option<WarmModel>,
    now_us: u64,
    more: nat,
    more_bytes: nat,
)
    requires
        forall|i: int| 0 <= i < paths.len() ==> (#[trigger] paths[i]).warm.valid(),
        more + paths.len() * 4_096 <= u64::MAX,
        more_bytes + paths.len() * 8_388_608 <= u64::MAX,
        c.warm_source_buffered_datagrams == warm_datagrams(paths) + more,
        c.warm_source_buffered_bytes == warm_bytes(paths) + more_bytes,
    ensures
        ({
            let r = counted_offers(c, paths, role, datagram, now_us);
            let now = all_offered(paths, role, datagram, now_us);
            &&& r.warm_source_buffered_datagrams == warm_datagrams(now) + more
            &&& r.warm_source_buffered_bytes == warm_bytes(now) + more_bytes
            &&& warm_datagrams(now) <= paths.len() * 2_048
            &&& warm_bytes(now) <= paths.len() * 4_194_304
        }),
    decreases paths.len(),
{
    if paths.len() > 0 {
        let front = paths.drop_last();
        let last = paths.last();
        assert(last == paths[paths.len() - 1]);
        assert forall|i: int| 0 <= i < front.len() implies (#[trigger] front[i]).warm.valid() by {
            assert(front[i] == paths[i]);
        }
        lemma_offers_counted(
            c,
            front,
            role,
            datagram,
            now_us,
            more + last.warm.datagrams.len(),
            more_bytes + wire_bytes(last.warm.datagrams),
        );
        let then = all_offered(front, role, datagram, now_us);
        let now = all_offered(paths, role, datagram, now_us);
        assert(now.drop_last() =~= then);
        assert(now.last() == last.offered(role, datagram, now_us));
        lemma_offer_counted(
            counted_offers(c, front, role, datagram, now_us),
            last,
            role,
            datagram,
            now_us,
            warm_datagrams(then) + more,
            warm_bytes(then) + more_bytes,
        );
    }
}

/// Whatever is offered, the counters keep telling how much is kept warm. (The children are
/// few enough for their datagrams and bytes to be counted in 64 bits.)
pub proof fn offers_keep_gauges(
    c: RelayForwardSnapshot,
    paths: Seq<PathModel>,
    role: MediaDatagramRole,
    datagram: Option<WarmModel>,
    now_us: u64,
)
    requires
        forall|i: int| 0 <= i < paths.len() ==> (#[trigger] paths[i]).warm.valid(),
        paths.len() <= u32::MAX,
        gauges_match(c, paths),
    ensures
        gauges_match(
            counted_offers(c, paths, role, datagram, now_us),
            all_offered(paths, role, datagram, now_us),
        ),
{
    lemma_offers_counted(c, paths, role, datagram, now_us, 0, 0);
}

proof fn lemma_warm_taken(paths: Seq<PathModel>, i: int, path: PathModel)
    requires
        0 <= i < paths.len(),
        path.warm.datagrams.len() == 0,
    ensures
        warm_datagrams(paths.update(i, path)) + paths[i].warm.datagrams.len() == warm_datagrams(
            paths,
        ),
        warm_bytes(paths.update(i, path)) + wire_bytes(paths[i].warm.datagrams) == warm_bytes(
            paths,
        ),
    decreases paths.len(),
{
    let now = paths.update(i, path);
    if i == paths.len() - 1 {
        assert(now.drop_last() =~= paths.drop_last());
    } else {
        assert(now.drop_last() =~= paths.drop_last().update(i, path));
        lemma_warm_taken(paths.drop_last(), i, path);
    }
}

/// What is replayed leaves the counters with the buffer, so they keep telling how much is kept
/// warm.
pub proof fn replays_keep_gauges(before: RelayForwardSnapshot, paths: Seq<PathModel>, i: int)
    requires
        0 <= i < paths.len(),
        gauges_match(before, paths),
    ensures
        gauges_match(
            RelayForwardSnapshot {
                warm_source_buffered_datagrams: counter_diff(
                    before.warm_source_buffered_datagrams,
                    paths[i].warm.datagrams.len() as u64,
                ),
                warm_source_buffered_bytes: counter_diff(
                    before.warm_source_buffered_bytes,
                    wire_bytes(paths[i].warm.datagrams) as u64,
                ),
                ..before
            },
            paths.update(
                i,
                PathModel {
                    warm: BufferModel { datagrams: Seq::empty(), object_order: Seq::empty() },
                    ..paths[i]
                },
            ),
        ),
{
    lemma_warm_taken(
        paths,
        i,
        PathModel {
            warm: BufferModel { datagrams: Seq::empty(), object_order: Seq::empty() },
            ..paths[i]
        },
    );
}

/// A source datagram is sent to a child, or kept warm for it where it is a warm one that is
/// not promoted, or filtered; a promoted warm child is sent sources and repairs alike.
pub proof fn promotion_opens_the_source_lane(path: PathModel)
    requires
        path.role is Repair,
    ensures
        path.sends(MediaDatagramRole::Repair),
        path.sends(MediaDatagramRole::Source) == path.promoted,
        path.keeps_warm(MediaDatagramRole::Source) == !path.promoted,
        !path.keeps_warm(MediaDatagramRole::Repair),
{
}

/// A path is found by its target, the first where several share it.
pub proof fn paths_are_found_by_target(paths: Seq<PathModel>, target: SocketAddress)
    ensures
        ({
            let i = path_index(paths, target);
            &&& 0 <= i <= paths.len()
            &&& i < paths.len() ==> paths[i].target == target
            &&& forall|j: int| 0 <= j < i ==> (#[trigger] paths[j]).target != target
            &&& forall|k: int|
                0 <= k < paths.len() && (#[trigger] paths[k]).target == target && (forall|j: int|
                    0 <= j < k ==> (#[trigger] paths[j]).target != target) ==> k == i
        }),
    decreases paths.len(),
{
    if paths.len() > 0 && paths[0].target != target {
        let rest = paths.skip(1);
        paths_are_found_by_target(rest, target);
        let i = path_index(paths, target);
        assert forall|j: int| 0 <= j < i implies (#[trigger] paths[j]).target != target by {
            if j > 0 {
                assert(rest[j - 1] == paths[j]);
            }
        }
        if i < paths.len() {
            assert(rest[i - 1] == paths[i]);
        }
        assert forall|k: int|
            0 <= k < paths.len() && (#[trigger] paths[k]).target == target && (forall|j: int|
                0 <= j < k ==> (#[trigger] paths[j]).target != target) implies k == i by {
            if k < i {
                assert(paths[k].target != target);
            } else if i < k {
                assert(paths[i].target != target);
            }
        }
    } else if paths.len() > 0 {
        assert forall|k: int|
            0 <= k < paths.len() && (#[trigger] paths[k]).target == target && (forall|j: int|
                0 <= j < k ==> (#[trigger] paths[j]).target != target) implies k == 0 by {
            if k > 0 {
                assert(paths[0].target != target);
            }
        }
    }
}

/// Whether a child is to be sent a datagram: its role covers the datagram's, or it is a promoted
/// child for repairs and the datagram is a source.
pub open spec fn is_due(path: PathModel, role: MediaDatagramRole) -> bool {
    ||| path.role is All
    ||| path.role is Source && role is Source
    ||| path.role is Repair && role is Repair
    ||| path.role is Repair && path.promoted
}

/// A datagram goes to just the children that are to be sent it, each once, in order. A source
/// that a child for repairs is not sent is offered to its buffer; no other child keeps anything,
/// and no child changes otherwise.
pub proof fn datagrams_reach_their_children(
    paths: Seq<PathModel>,
    role: MediaDatagramRole,
    datagram: Option<WarmModel>,
    now_us: u64,
)
    requires
        paths.len() <= usize::MAX,
    ensures
        forall|a: int, b: int|
            0 <= a < b < recipients(paths, role).len() ==> #[trigger] recipients(paths, role)[a]
                < #[trigger] recipients(paths, role)[b],
        forall|i: usize| #[trigger]
            recipients(paths, role).contains(i) <==> i < paths.len() && is_due(paths[i as int], role),
        forall|i: int|
            0 <= i < paths.len() ==> {
                let path = #[trigger] paths[i];
                let after = path.offered(role, datagram, now_us);
                &&& after.target == path.target && after.role == path.role && after.promoted
                    == path.promoted
                &&& is_due(path, role) || !(path.role is Repair) || datagram is None ==> after
                    == path
                &&& !is_due(path, role) && path.role is Repair && datagram is Some ==> after.warm
                    == path.warm.offered(datagram->0, now_us)
            },
    decreases paths.len(),
{
    if paths.len() > 0 {
        let front = paths.drop_last();
        datagrams_reach_their_children(front, role, datagram, now_us);
        let before = recipients(front, role);
        let after = recipients(paths, role);
        let n = (paths.len() - 1) as usize;
        assert forall|a: int| 0 <= a < before.len() implies #[trigger] before[a] < n by {
            assert(before.contains(before[a]));
        }
        assert forall|i: usize| #[trigger] after.contains(i) <==> i < paths.len() && is_due(
            paths[i as int],
            role,
        ) by {
            if after.contains(i) {
                let a = choose|a: int| 0 <= a < after.len() && after[a] == i;
                if a < before.len() {
                    assert(before.contains(i));
                    assert(front[i as int] == paths[i as int]);
                }
            }
            if i < paths.len() && is_due(paths[i as int], role) {
                if i < n {
                    assert(front[i as int] == paths[i as int]);
                    assert(before.contains(i));
                    let a = choose|a: int| 0 <= a < before.len() && before[a] == i;
                    assert(after[a] == i);
                } else {
                    assert(after[before.len() as int] == i);
                }
            }
        }
        assert forall|a: int, b: int| 0 <= a < b < after.len() implies #[trigger] after[a]
            < #[trigger] after[b] by {
            if b < before.len() {
                assert(before[a] < before[b]);
            } else {
                assert(before[a] < n);
            }
        }
    }
}

/// Every child that is not sent a datagram is counted as one that it was kept from, and offering
/// counts no send, no error and nothing of the failover.
pub proof fn filtered_datagrams_are_counted(
    c: RelayForwardSnapshot,
    paths: Seq<PathModel>,
    role: MediaDatagramRole,
    datagram: Option<WarmModel>,
    now_us: u64,
)
    requires
        paths.len() <= usize::MAX,
        c.filtered_datagrams + paths.len() <= u64::MAX,
    ensures
        ({
            let r = counted_offers(c, paths, role, datagram, now_us);
            &&& r.filtered_datagrams == c.filtered_datagrams + paths.len() - recipients(
                paths,
                role,
            ).len()
            &&& r.source_datagrams == c.source_datagrams && r.repair_datagrams
                == c.repair_datagrams
            &&& r.bytes == c.bytes && r.errors == c.errors
            &&& r.duration_count == c.duration_count && r.duration_sum_us == c.duration_sum_us
                && r.duration_max_us == c.duration_max_us && r.duration_buckets
                == c.duration_buckets
            &&& r.warm_source_replayed_datagrams == c.warm_source_replayed_datagrams
            &&& r.warm_source_replayed_bytes == c.warm_source_replayed_bytes
            &&& r.failover_commands_received == c.failover_commands_received
            &&& r.failover_commands_rejected == c.failover_commands_rejected
            &&& r.failover_promotions_applied == c.failover_promotions_applied
            &&& r.failover_demotions_applied == c.failover_demotions_applied
            &&& r.failover_lease_expirations == c.failover_lease_expirations
        }),
        recipients(paths, role).len() <= paths.len(),
    decreases paths.len(),
{
    if paths.len() > 0 {
        filtered_datagrams_are_counted(c, paths.drop_last(), role, datagram, now_us);
    }
}

/// As many children count as promoted as are.
pub proof fn promoted_children_are_counted(paths: Seq<PathModel>)
    ensures
        promoted_count(paths) == paths.filter(|path: PathModel| path.promoted).len(),
    decreases paths.len(),
{
    reveal(Seq::filter);
    if paths.len() > 0 {
        promoted_children_are_counted(paths.drop_last());
    }
}

/// A send counts once, under its role, with its bytes and its duration; a bucket of durations
/// grows just when its bound is not below the duration.
pub proof fn sends_are_counted_once(
    before: RelayForwardSnapshot,
    after: RelayForwardSnapshot,
    role: MediaDatagramRole,
    sent: usize,
    duration_us: u64,
)
    requires
        counted_send(before, after, role, sent, duration_us),
        before.source_datagrams < u64::MAX,
        before.repair_datagrams < u64::MAX,
        before.bytes + sent <= u64::MAX,
        before.duration_count < u64::MAX,
        before.duration_sum_us + duration_us <= u64::MAX,
        forall|i: int| 0 <= i < 13 ==> #[trigger] before.duration_buckets@[i] < u64::MAX,
    ensures
        after.source_datagrams - before.source_datagrams == (if role is Source {
            1int
        } else {
            0
        }),
        after.repair_datagrams - before.repair_datagrams == (if role is Repair {
            1int
        } else {
            0
        }),
        after.bytes == before.bytes + sent,
        after.duration_count == before.duration_count + 1,
        after.duration_sum_us == before.duration_sum_us + duration_us,
        after.duration_max_us >= duration_us && after.duration_max_us >= before.duration_max_us,
        after.duration_max_us == duration_us || after.duration_max_us == before.duration_max_us,
        forall|i: int|
            0 <= i < 13 ==> #[trigger] after.duration_buckets@[i] - before.duration_buckets@[i] == (
            if duration_us <= crate::histogram::EDGE_RESPONSE_DURATION_BUCKETS_US@[i] {
                1int
            } else {
                0
            }),
        after.errors == before.errors && after.filtered_datagrams == before.filtered_datagrams,
        after.warm_source_buffered_datagrams == before.warm_source_buffered_datagrams,
        after.warm_source_buffered_bytes == before.warm_source_buffered_bytes,
{
}

/// A command to a child counts as received, and a lease that ran out does not; only a change is a
/// promotion or a demotion, and only a change is dated.
pub proof fn changes_of_children_are_counted(
    c: RelayForwardSnapshot,
    previous: bool,
    promoted: bool,
    lease_expired: bool,
    now_ms: u64,
)
    requires
        c.failover_commands_received < u64::MAX,
        c.failover_promotions_applied < u64::MAX,
        c.failover_demotions_applied < u64::MAX,
        c.failover_lease_expirations < u64::MAX,
        c.failover_commands_rejected < u64::MAX,
    ensures
        ({
            let r = mode_applied(c, previous, promoted, lease_expired, now_ms);
            &&& r.failover_commands_received == c.failover_commands_received + (if lease_expired {
                0int
            } else {
                1
            })
            &&& r.failover_promotions_applied == c.failover_promotions_applied + (if !previous
                && promoted {
                1int
            } else {
                0
            })
            &&& r.failover_demotions_applied == c.failover_demotions_applied + (if previous
                && !promoted {
                1int
            } else {
                0
            })
            &&& r.failover_lease_expirations == c.failover_lease_expirations + (if previous
                != promoted && lease_expired {
                1int
            } else {
                0
            })
            &&& r.failover_last_transition_unix_ms == (if previous != promoted {
                now_ms
            } else {
                c.failover_last_transition_unix_ms
            })
            &&& r.failover_commands_rejected == c.failover_commands_rejected
            &&& r.source_datagrams == c.source_datagrams && r.filtered_datagrams
                == c.filtered_datagrams
        }),
        rejected(c).failover_commands_rejected == c.failover_commands_rejected + 1,
        rejected(c).failover_commands_received == c.failover_commands_received,
{
}

/// A datagram is kept for children that are warm as it stands, with its object and its deadline, and
/// only where both are known.
pub proof fn datagrams_are_kept_with_their_object(
    datagram: Seq<u8>,
    key: &ObjectKey,
    expires_at_us: u64,
)
    ensures
        offered_datagram(datagram, None, Some(expires_at_us)) is None,
        offered_datagram(datagram, Some(key), None) is None,
        match offered_datagram(datagram, Some(key), Some(expires_at_us)) {
            Some(kept) => kept.wire == datagram && kept.object_key == key@ && kept.expires_at_us
                == expires_at_us,
            None => false,
        },
{
}

/// A command that is refused is counted as such, and changes nothing else.
pub proof fn refused_commands_are_counted(c: RelayForwardSnapshot)
    requires
        c.failover_commands_rejected < u64::MAX,
    ensures
        rejected(c).failover_commands_rejected == c.failover_commands_rejected + 1,
        rejected(c) == (RelayForwardSnapshot {
            failover_commands_rejected: rejected(c).failover_commands_rejected,
            ..c
        }),
{
}

/// What a buffer lost is counted by how it was lost: by its deadline, with its object, or for want of
/// room.
pub proof fn losses_of_buffers_are_counted(c: RelayForwardSnapshot, m: WarmSourceBufferMutation)
    requires
        c.warm_source_expired_datagrams + m.expired_datagrams <= u64::MAX,
        c.warm_source_retired_datagrams + m.retired_datagrams <= u64::MAX,
        c.warm_source_evicted_datagrams + m.evicted_datagrams <= u64::MAX,
        m.expired_datagrams <= u64::MAX,
        m.retired_datagrams <= u64::MAX,
        m.evicted_datagrams <= u64::MAX,
    ensures
        with_mutation(c, m).warm_source_expired_datagrams == c.warm_source_expired_datagrams
            + m.expired_datagrams,
        with_mutation(c, m).warm_source_retired_datagrams == c.warm_source_retired_datagrams
            + m.retired_datagrams,
        with_mutation(c, m).warm_source_evicted_datagrams == c.warm_source_evicted_datagrams
            + m.evicted_datagrams,
        with_mutation(c, m).filtered_datagrams == c.filtered_datagrams,
        with_mutation(c, m).warm_source_replayed_datagrams == c.warm_source_replayed_datagrams,
{
}

} // verus!
