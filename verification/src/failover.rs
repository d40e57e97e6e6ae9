//! Failover between a primary and a warm secondary parent: the lease commands on the wire, the
//! controller that issues them and the listener that obeys them.

use vstd::prelude::*;
use crate::addr::SocketAddress;
use crate::bytes::{ascii_bytes, be_bytes, be_reads_back, be_value, byte_capacity};
use crate::forwarder::{
    mode_applied, path_index, rejected, counter_diff, FailoverForwardMode, MediaDatagramRole, PathModel,
    RelayDownstreamForwarder,
};
use crate::histogram::{duration_ms, duration_us, whole_ms, whole_us, wrapped_sum};
use crate::live_state::{larger, larger_of, saturating_sum};
use crate::relay_snapshot::{
    RelayFailoverControllerSnapshot, RelayFailoverControllerState, RelayForwardSnapshot,
};
use crate::warm::{byte_views, unexpired, wire_bytes, wires, BufferModel};

verus! {

/// The size of a lease command.
pub const FAILOVER_CONTROL_WIRE_LEN: usize = 48;

/// A command that leases source forwarding to a warm child, or takes it back.
#[derive(Clone, Copy, Debug, PartialEq, Eq, Structural)]
pub struct LeaseCommand {
    pub generation: u64,
    pub subscription_id: u64,
    pub transition_id: u64,
    pub issued_at_unix_us: u64,
    pub lease_duration_us: u64,
    pub mode: FailoverForwardMode,
}

impl LeaseCommand {
    /// Identities and times are positive, and the lease lasts between 50 milliseconds and a
    /// minute.
    pub open spec fn valid(self) -> bool {
        &&& self.generation > 0
        &&& self.subscription_id > 0
        &&& self.transition_id > 0
        &&& self.issued_at_unix_us > 0
        &&& 50_000 <= self.lease_duration_us <= 60_000_000
    }

    /// The command on the wire: a marker, the mode and three zero bytes, and five numbers of
    /// eight bytes each.
    pub open spec fn wire(self) -> Seq<u8> {
        let tag: u8 = if self.mode is SourceAndRepair {
            1
        } else {
            0
        };
        ascii_bytes("RLF1"@) + seq![tag, 0u8, 0u8, 0u8] + be_bytes(self.generation as nat, 8)
            + be_bytes(self.subscription_id as nat, 8) + be_bytes(self.transition_id as nat, 8)
            + be_bytes(self.issued_at_unix_us as nat, 8) + be_bytes(
            self.lease_duration_us as nat,
            8,
        )
    }
}

/// Calls `FailoverLeaseCommand::new` and `encode` of `relay_session`. The constructor refuses
/// what is not valid; the encoder writes the marker `RLF1`, the mode, three zero bytes and the
/// five numbers, most significant byte first.
#[verifier::external_body]
fn encode_lease(command: &LeaseCommand) -> (r: Option<Vec<u8>>)
    ensures
        r is Some <==> command.valid(),
        r is Some ==> r->0@ == command.wire(),
{
    let generation = relay_session::TopologyGeneration::new(command.generation).ok()?;
    let subscription = relay_session::SubscriptionId::new(command.subscription_id).ok()?;
    let mode = match command.mode {
        FailoverForwardMode::RepairOnly => relay_session::FailoverForwardMode::RepairOnly,
        FailoverForwardMode::SourceAndRepair => relay_session::FailoverForwardMode::SourceAndRepair,
    };
    let lease = relay_session::FailoverLeaseCommand::new(generation, subscription, command.transition_id, command.issued_at_unix_us, command.lease_duration_us, mode).ok()?;
    Some(lease.encode().to_vec())
}

/// Calls `FailoverLeaseCommand::decode` of `relay_session`, which returns the valid command
/// whose wire form the bytes are, and refuses every other sequence of bytes.
#[verifier::external_body]
fn decode_lease(wire: &[u8]) -> (r: Option<LeaseCommand>)
    ensures
        match r {
            Some(command) => command.valid() && wire@ == command.wire(),
            None => forall|command: LeaseCommand| command.valid() ==> wire@ != #[trigger] command.wire(),
        },
{
    let lease = relay_session::FailoverLeaseCommand::decode(wire).ok()?;
    Some(LeaseCommand {
        generation: lease.generation.get(),
        subscription_id: lease.subscription_id.get(),
        transition_id: lease.transition_id,
        issued_at_unix_us: lease.issued_at_unix_us,
        lease_duration_us: lease.lease_duration_us,
        mode: match lease.mode {
            relay_session::FailoverForwardMode::RepairOnly => FailoverForwardMode::RepairOnly,
            relay_session::FailoverForwardMode::SourceAndRepair => FailoverForwardMode::SourceAndRepair,
        },
    })
}

/// The wire form of a command tells the command, and is of a fixed size.
pub proof fn wire_identifies_command(a: LeaseCommand, b: LeaseCommand)
    ensures
        a.wire().len() == FAILOVER_CONTROL_WIRE_LEN,
        a.wire() == b.wire() ==> a == b,
{
    reveal_strlit("RLF1");
    let cap = byte_capacity(8);
    assert(cap == 0x1_0000_0000_0000_0000) by {
        reveal_with_fuel(byte_capacity, 9);
    }
    be_reads_back(a.generation as nat, 8);
    be_reads_back(a.subscription_id as nat, 8);
    be_reads_back(a.transition_id as nat, 8);
    be_reads_back(a.issued_at_unix_us as nat, 8);
    be_reads_back(a.lease_duration_us as nat, 8);
    be_reads_back(b.generation as nat, 8);
    be_reads_back(b.subscription_id as nat, 8);
    be_reads_back(b.transition_id as nat, 8);
    be_reads_back(b.issued_at_unix_us as nat, 8);
    be_reads_back(b.lease_duration_us as nat, 8);
    if a.wire() == b.wire() {
        let w = a.wire();
        assert(w.subrange(8, 16) =~= be_bytes(a.generation as nat, 8));
        assert(w.subrange(16, 24) =~= be_bytes(a.subscription_id as nat, 8));
        assert(w.subrange(24, 32) =~= be_bytes(a.transition_id as nat, 8));
        assert(w.subrange(32, 40) =~= be_bytes(a.issued_at_unix_us as nat, 8));
        assert(w.subrange(40, 48) =~= be_bytes(a.lease_duration_us as nat, 8));
        let v = b.wire();
        assert(v.subrange(8, 16) =~= be_bytes(b.generation as nat, 8));
        assert(v.subrange(16, 24) =~= be_bytes(b.subscription_id as nat, 8));
        assert(v.subrange(24, 32) =~= be_bytes(b.transition_id as nat, 8));
        assert(v.subrange(32, 40) =~= be_bytes(b.issued_at_unix_us as nat, 8));
        assert(v.subrange(40, 48) =~= be_bytes(b.lease_duration_us as nat, 8));
        assert(w[4] == v[4]);
    }
}

/// The parent that a datagram came from.
#[derive(Clone, Copy, Debug, PartialEq, Eq, Structural)]
pub enum RelayIngressParentPath {
    Primary,
    Secondary,
}

/// What was seen of a datagram.
#[derive(Clone, Copy, Debug, PartialEq, Eq, Structural)]
pub struct RelayDatagramObservation {
    pub role: MediaDatagramRole,
    /// Whether the datagram made an object whole.
    pub decoded: bool,
}

/// The time between two instants, none where the second is earlier.
pub open spec fn elapsed_ns(from_ns: u64, to_ns: u64) -> u128 {
    if to_ns >= from_ns {
        (to_ns - from_ns) as u128
    } else {
        0
    }
}

fn elapsed(from_ns: u64, to_ns: u64) -> (r: u128)
    ensures
        r == elapsed_ns(from_ns, to_ns),
{
    to_ns.saturating_sub(from_ns) as u128
}

/// The controller of one warm secondary.
///
/// Instants are nanoseconds of a clock that does not go back.
#[derive(Clone, Copy, Debug, PartialEq, Eq, Structural)]
pub struct RelayFailoverController {
    pub generation: u64,
    pub subscription_id: u64,
    pub silence_ns: u128,
    pub recovery_ns: u128,
    pub secondary_warm_ns: u128,
    pub lease_duration_us: u64,
    pub state: RelayFailoverControllerState,
    pub desired_mode: FailoverForwardMode,
    pub transition_id: u64,
    pub last_primary_source: Option<u64>,
    pub last_secondary_repair: Option<u64>,
    pub recovered_since: Option<u64>,
    pub last_decoded: Option<u64>,
    pub promotion_gap_base: Option<u64>,
    pub promotion_sent_at: Option<u64>,
    pub awaiting_secondary_source: bool,
    pub awaiting_post_promotion_object: bool,
    pub snapshot: RelayFailoverControllerSnapshot,
}

/// How long an instant ago, in microseconds.
pub open spec fn us_since(seen: Option<u64>, now_ns: u64) -> u64 {
    match seen {
        Some(seen) => whole_us(elapsed_ns(seen, now_ns)),
        None => 0,
    }
}

/// How long an instant ago, in milliseconds.
pub open spec fn ms_since(seen: Option<u64>, now_ns: u64) -> u64 {
    match seen {
        Some(seen) => whole_ms(elapsed_ns(seen, now_ns)),
        None => 0,
    }
}

fn age_us(seen: Option<u64>, now_ns: u64) -> (r: u64)
    ensures
        r == us_since(seen, now_ns),
{
    match seen {
        Some(seen) => duration_us(elapsed(seen, now_ns)),
        None => 0,
    }
}

fn age_ms(seen: Option<u64>, now_ns: u64) -> (r: u64)
    ensures
        r == ms_since(seen, now_ns),
{
    match seen {
        Some(seen) => duration_ms(elapsed(seen, now_ns)),
        None => 0,
    }
}

/// Whether something was seen less than a while ago.
pub open spec fn recent(seen: Option<u64>, now_ns: u64, window_ns: u128) -> bool {
    seen is Some && elapsed_ns(seen->0, now_ns) < window_ns
}

fn is_recent(seen: Option<u64>, now_ns: u64, window_ns: u128) -> (r: bool)
    ensures
        r == recent(seen, now_ns, window_ns),
{
    match seen {
        Some(seen) => elapsed(seen, now_ns) < window_ns,
        None => false,
    }
}

impl RelayFailoverController {
    /// The controller in a state; a change of state is dated.
    pub open spec fn in_state(self, state: RelayFailoverControllerState, now_ms: u64) -> Self {
        if self.state != state {
            RelayFailoverController {
                state,
                snapshot: RelayFailoverControllerSnapshot {
                    state,
                    last_transition_unix_ms: now_ms,
                    ..self.snapshot
                },
                ..self
            }
        } else {
            self
        }
    }

    /// The number of the next transition: the time, or one more than the last.
    pub open spec fn next_transition(self, now_us: u64) -> u64 {
        larger(now_us, saturating_sum(self.transition_id, 1))
    }

    /// The controller after it promoted the secondary.
    pub open spec fn promoted(self, now_ns: u64, now_ms: u64, now_us: u64) -> Self {
        RelayFailoverController {
            desired_mode: FailoverForwardMode::SourceAndRepair,
            transition_id: self.next_transition(now_us),
            promotion_sent_at: Some(now_ns),
            promotion_gap_base: self.last_decoded,
            awaiting_secondary_source: true,
            awaiting_post_promotion_object: true,
            recovered_since: None,
            snapshot: RelayFailoverControllerSnapshot {
                promotions: saturating_sum(self.snapshot.promotions, 1),
                last_detection_us: us_since(self.last_primary_source, now_ns),
                ..self.snapshot
            },
            ..self
        }.in_state(RelayFailoverControllerState::Promoted, now_ms)
    }

    /// The controller after it demoted the secondary.
    pub open spec fn demoted(self, now_ms: u64, now_us: u64) -> Self {
        RelayFailoverController {
            desired_mode: FailoverForwardMode::RepairOnly,
            transition_id: self.next_transition(now_us),
            recovered_since: None,
            awaiting_secondary_source: false,
            snapshot: RelayFailoverControllerSnapshot {
                demotions: saturating_sum(self.snapshot.demotions, 1),
                ..self.snapshot
            },
            ..self
        }.in_state(RelayFailoverControllerState::Healthy, now_ms)
    }

    /// The controller after it found neither parent.
    pub open spec fn without_secondary(self, now_ms: u64) -> Self {
        RelayFailoverController {
            snapshot: RelayFailoverControllerSnapshot {
                secondary_unavailable_events: if self.state
                    != RelayFailoverControllerState::SecondaryUnavailable {
                    saturating_sum(self.snapshot.secondary_unavailable_events, 1)
                } else {
                    self.snapshot.secondary_unavailable_events
                },
                ..self.snapshot
            },
            ..self
        }.in_state(RelayFailoverControllerState::SecondaryUnavailable, now_ms)
    }

    /// The controller after it lost the primary.
    pub open spec fn lost_primary(
        self,
        secondary_recent: bool,
        now_ns: u64,
        now_ms: u64,
        now_us: u64,
    ) -> Self {
        if secondary_recent {
            self.promoted(now_ns, now_ms, now_us)
        } else {
            self.without_secondary(now_ms)
        }
    }

    /// The controller after one look at its parents.
    pub open spec fn stepped(self, now_ns: u64, now_ms: u64, now_us: u64) -> Self {
        let primary = recent(self.last_primary_source, now_ns, self.silence_ns);
        let secondary = recent(self.last_secondary_repair, now_ns, self.secondary_warm_ns);
        match self.state {
            RelayFailoverControllerState::Disabled => self,
            RelayFailoverControllerState::Arming => {
                if primary && secondary {
                    self.in_state(RelayFailoverControllerState::Healthy, now_ms)
                } else if self.last_primary_source is Some && !primary {
                    self.lost_primary(secondary, now_ns, now_ms, now_us)
                } else {
                    self
                }
            },
            RelayFailoverControllerState::Healthy => {
                if !primary {
                    self.lost_primary(secondary, now_ns, now_ms, now_us)
                } else {
                    self
                }
            },
            RelayFailoverControllerState::SecondaryUnavailable => {
                if primary {
                    self.in_state(RelayFailoverControllerState::Healthy, now_ms)
                } else if secondary && self.last_primary_source is Some {
                    self.promoted(now_ns, now_ms, now_us)
                } else {
                    self
                }
            },
            RelayFailoverControllerState::Promoted | RelayFailoverControllerState::Recovering => {
                if primary {
                    let since = match self.recovered_since {
                        Some(since) => since,
                        None => now_ns,
                    };
                    let recovering = RelayFailoverController {
                        recovered_since: Some(since),
                        ..self
                    }.in_state(RelayFailoverControllerState::Recovering, now_ms);
                    if elapsed_ns(since, now_ns) >= self.recovery_ns {
                        recovering.demoted(now_ms, now_us)
                    } else {
                        recovering
                    }
                } else {
                    RelayFailoverController { recovered_since: None, ..self }.in_state(
                        RelayFailoverControllerState::Promoted,
                        now_ms,
                    )
                }
            },
        }
    }

    /// The controller with the ages of what it saw last.
    pub open spec fn aged(self, now_ns: u64) -> Self {
        RelayFailoverController {
            snapshot: RelayFailoverControllerSnapshot {
                primary_source_age_ms: ms_since(self.last_primary_source, now_ns),
                secondary_repair_age_ms: ms_since(self.last_secondary_repair, now_ns),
                ..self.snapshot
            },
            ..self
        }
    }

    /// The command that states what the controller wants.
    pub open spec fn command(self, now_us: u64) -> LeaseCommand {
        LeaseCommand {
            generation: self.generation,
            subscription_id: self.subscription_id,
            transition_id: self.transition_id,
            issued_at_unix_us: larger(now_us, 1),
            lease_duration_us: self.lease_duration_us,
            mode: self.desired_mode,
        }
    }

    /// The controller after a command could not be sent.
    pub open spec fn send_failed(self) -> Self {
        RelayFailoverController {
            snapshot: RelayFailoverControllerSnapshot {
                command_send_errors: saturating_sum(self.snapshot.command_send_errors, 1),
                ..self.snapshot
            },
            ..self
        }
    }

    /// The controller after a datagram was seen.
    pub open spec fn noted(
        self,
        path: RelayIngressParentPath,
        observation: RelayDatagramObservation,
        now_ns: u64,
    ) -> Self {
        let seen = match (path, observation.role) {
            (RelayIngressParentPath::Primary, MediaDatagramRole::Source) => RelayFailoverController {
                last_primary_source: Some(now_ns),
                ..self
            },
            (
                RelayIngressParentPath::Secondary,
                MediaDatagramRole::Repair,
            ) => RelayFailoverController { last_secondary_repair: Some(now_ns), ..self },
            (RelayIngressParentPath::Secondary, MediaDatagramRole::Source) => {
                if self.awaiting_secondary_source {
                    RelayFailoverController {
                        awaiting_secondary_source: false,
                        snapshot: RelayFailoverControllerSnapshot {
                            last_promotion_to_source_us: if self.promotion_sent_at is Some {
                                us_since(self.promotion_sent_at, now_ns)
                            } else {
                                self.snapshot.last_promotion_to_source_us
                            },
                            ..self.snapshot
                        },
                        ..self
                    }
                } else {
                    self
                }
            },
            (RelayIngressParentPath::Primary, MediaDatagramRole::Repair) => self,
        };
        if observation.decoded {
            let gap = us_since(seen.promotion_gap_base, now_ns);
            let measured = seen.awaiting_post_promotion_object && seen.promotion_gap_base is Some;
            RelayFailoverController {
                last_decoded: Some(now_ns),
                awaiting_post_promotion_object: false,
                snapshot: if measured {
                    RelayFailoverControllerSnapshot {
                        last_media_gap_us: gap,
                        max_media_gap_us: larger(seen.snapshot.max_media_gap_us, gap),
                        ..seen.snapshot
                    }
                } else {
                    seen.snapshot
                },
                ..seen
            }
        } else {
            seen
        }
    }

    /// What the controller says of itself agrees with what it is about: sources are asked for
    /// exactly while the secondary is promoted or the primary recovers.
    pub open spec fn consistent(self) -> bool {
        &&& self.snapshot.state == self.state
        &&& self.desired_mode is SourceAndRepair <==> (self.state is Promoted || self.state
            is Recovering)
    }

    /// A controller that waits for its parents.
    pub fn new(
        generation: u64,
        subscription_id: u64,
        silence_ms: u64,
        recovery_ms: u64,
        secondary_warm_ms: u64,
        lease_ms: u64,
        now_ms: u64,
        now_us: u64,
    ) -> (r: Self)
        ensures
            r == (RelayFailoverController {
                generation,
                subscription_id,
                silence_ns: (silence_ms * 1_000_000) as u128,
                recovery_ns: (recovery_ms * 1_000_000) as u128,
                secondary_warm_ns: (secondary_warm_ms * 1_000_000) as u128,
                lease_duration_us: if lease_ms * 1_000 > u64::MAX {
                    u64::MAX
                } else {
                    (lease_ms * 1_000) as u64
                },
                state: RelayFailoverControllerState::Arming,
                desired_mode: FailoverForwardMode::RepairOnly,
                transition_id: larger(now_us, 1),
                last_primary_source: None,
                last_secondary_repair: None,
                recovered_since: None,
                last_decoded: None,
                promotion_gap_base: None,
                promotion_sent_at: None,
                awaiting_secondary_source: false,
                awaiting_post_promotion_object: false,
                snapshot: RelayFailoverControllerSnapshot {
                    state: RelayFailoverControllerState::Arming,
                    enabled: 1,
                    last_transition_unix_ms: now_ms,
                    ..RelayFailoverControllerSnapshot::nothing()
                },
            }),
            r.consistent(),
    {
        let mut snapshot = RelayFailoverControllerSnapshot::default();
        snapshot.state = RelayFailoverControllerState::Arming;
        snapshot.enabled = 1;
        snapshot.last_transition_unix_ms = now_ms;
        let lease_duration_us: u64 = match lease_ms.checked_mul(1_000) {
            Some(us) => us,
            None => u64::MAX,
        };
        RelayFailoverController {
            generation,
            subscription_id,
            silence_ns: silence_ms as u128 * 1_000_000,
            recovery_ns: recovery_ms as u128 * 1_000_000,
            secondary_warm_ns: secondary_warm_ms as u128 * 1_000_000,
            lease_duration_us,
            state: RelayFailoverControllerState::Arming,
            desired_mode: FailoverForwardMode::RepairOnly,
            transition_id: larger_of(now_us, 1),
            last_primary_source: None,
            last_secondary_repair: None,
            recovered_since: None,
            last_decoded: None,
            promotion_gap_base: None,
            promotion_sent_at: None,
            awaiting_secondary_source: false,
            awaiting_post_promotion_object: false,
            snapshot,
        }
    }

    /// Notes a datagram of a parent.
    pub fn observe(
        &mut self,
        path: RelayIngressParentPath,
        observation: RelayDatagramObservation,
        now_ns: u64,
    )
        ensures
            *final(self) == old(self).noted(path, observation, now_ns),
    {
        match (path, observation.role) {
            (RelayIngressParentPath::Primary, MediaDatagramRole::Source) => {
                self.last_primary_source = Some(now_ns);
            },
            (RelayIngressParentPath::Secondary, MediaDatagramRole::Repair) => {
                self.last_secondary_repair = Some(now_ns);
            },
            (RelayIngressParentPath::Secondary, MediaDatagramRole::Source) => {
                if self.awaiting_secondary_source {
                    if self.promotion_sent_at.is_some() {
                        self.snapshot.last_promotion_to_source_us = age_us(
                            self.promotion_sent_at,
                            now_ns,
                        );
                    }
                    self.awaiting_secondary_source = false;
                }
            },
            (RelayIngressParentPath::Primary, MediaDatagramRole::Repair) => {},
        }
        if observation.decoded {
            if self.awaiting_post_promotion_object {
                if self.promotion_gap_base.is_some() {
                    let gap_us: u64 = age_us(self.promotion_gap_base, now_ns);
                    self.snapshot.last_media_gap_us = gap_us;
                    self.snapshot.max_media_gap_us = larger_of(
                        self.snapshot.max_media_gap_us,
                        gap_us,
                    );
                }
                self.awaiting_post_promotion_object = false;
            }
            self.last_decoded = Some(now_ns);
        }
    }

    fn set_state(&mut self, state: RelayFailoverControllerState, now_ms: u64)
        ensures
            *final(self) == old(self).in_state(state, now_ms),
    {
        if self.state != state {
            self.state = state;
            self.snapshot.state = state;
            self.snapshot.last_transition_unix_ms = now_ms;
        }
    }

    fn advance_transition(&mut self, now_us: u64)
        ensures
            *final(self) == (RelayFailoverController {
                transition_id: old(self).next_transition(now_us),
                ..*old(self)
            }),
    {
        self.transition_id = larger_of(now_us, self.transition_id.saturating_add(1));
    }

    fn promote(&mut self, now_ns: u64, now_ms: u64, now_us: u64)
        ensures
            *final(self) == old(self).promoted(now_ns, now_ms, now_us),
    {
        self.desired_mode = FailoverForwardMode::SourceAndRepair;
        self.advance_transition(now_us);
        self.snapshot.promotions = self.snapshot.promotions.saturating_add(1);
        self.snapshot.last_detection_us = age_us(self.last_primary_source, now_ns);
        self.promotion_sent_at = Some(now_ns);
        self.promotion_gap_base = self.last_decoded;
        self.awaiting_secondary_source = true;
        self.awaiting_post_promotion_object = true;
        self.recovered_since = None;
        self.set_state(RelayFailoverControllerState::Promoted, now_ms);
    }

    fn demote(&mut self, now_ms: u64, now_us: u64)
        ensures
            *final(self) == old(self).demoted(now_ms, now_us),
    {
        self.desired_mode = FailoverForwardMode::RepairOnly;
        self.advance_transition(now_us);
        self.snapshot.demotions = self.snapshot.demotions.saturating_add(1);
        self.recovered_since = None;
        self.awaiting_secondary_source = false;
        self.set_state(RelayFailoverControllerState::Healthy, now_ms);
    }

    fn secondary_unavailable(&mut self, now_ms: u64)
        ensures
            *final(self) == old(self).without_secondary(now_ms),
    {
        if self.state != RelayFailoverControllerState::SecondaryUnavailable {
            self.snapshot.secondary_unavailable_events =
            self.snapshot.secondary_unavailable_events.saturating_add(1);
        }
        self.set_state(RelayFailoverControllerState::SecondaryUnavailable, now_ms);
    }

    fn refresh_ages(&mut self, now_ns: u64)
        ensures
            *final(self) == old(self).aged(now_ns),
    {
        self.snapshot.primary_source_age_ms = age_ms(self.last_primary_source, now_ns);
        self.snapshot.secondary_repair_age_ms = age_ms(self.last_secondary_repair, now_ns);
    }

    /// Looks at the parents, and states what is wanted: the command to send, on the wire.
    ///
    /// Where the command would not be valid nothing is sent, and that counts as a failure.
    pub fn tick(&mut self, now_ns: u64, now_ms: u64, now_us: u64) -> (r: Option<Vec<u8>>)
        ensures
            ({
                let next = old(self).stepped(now_ns, now_ms, now_us).aged(now_ns);
                let command = next.command(now_us);
                &&& r is Some <==> command.valid()
                &&& r is Some ==> r->0@ == command.wire()
                &&& *final(self) == (if command.valid() {
                    next
                } else {
                    next.send_failed()
                })
            }),
    {
        let primary_recent = is_recent(self.last_primary_source, now_ns, self.silence_ns);
        let secondary_recent = is_recent(
            self.last_secondary_repair,
            now_ns,
            self.secondary_warm_ns,
        );
        match self.state {
            RelayFailoverControllerState::Disabled => {},
            RelayFailoverControllerState::Arming => {
                if primary_recent && secondary_recent {
                    self.set_state(RelayFailoverControllerState::Healthy, now_ms);
                } else if self.last_primary_source.is_some() && !primary_recent {
                    if secondary_recent {
                        self.promote(now_ns, now_ms, now_us);
                    } else {
                        self.secondary_unavailable(now_ms);
                    }
                }
            },
            RelayFailoverControllerState::Healthy => {
                if !primary_recent {
                    if secondary_recent {
                        self.promote(now_ns, now_ms, now_us);
                    } else {
                        self.secondary_unavailable(now_ms);
                    }
                }
            },
            RelayFailoverControllerState::SecondaryUnavailable => {
                if primary_recent {
                    self.set_state(RelayFailoverControllerState::Healthy, now_ms);
                } else if secondary_recent && self.last_primary_source.is_some() {
                    self.promote(now_ns, now_ms, now_us);
                }
            },
            RelayFailoverControllerState::Promoted | RelayFailoverControllerState::Recovering => {
                if primary_recent {
                    let since: u64 = match self.recovered_since {
                        Some(since) => since,
                        None => now_ns,
                    };
                    self.recovered_since = Some(since);
                    self.set_state(RelayFailoverControllerState::Recovering, now_ms);
                    if elapsed(since, now_ns) >= self.recovery_ns {
                        self.demote(now_ms, now_us);
                    }
                } else {
                    self.recovered_since = None;
                    self.set_state(RelayFailoverControllerState::Promoted, now_ms);
                }
            },
        }
        self.refresh_ages(now_ns);
        self.desired(now_us)
    }

    fn desired(&mut self, now_us: u64) -> (r: Option<Vec<u8>>)
        ensures
            r is Some <==> old(self).command(now_us).valid(),
            r is Some ==> r->0@ == old(self).command(now_us).wire(),
            *final(self) == (if old(self).command(now_us).valid() {
                *old(self)
            } else {
                old(self).send_failed()
            }),
    {
        let command = LeaseCommand {
            generation: self.generation,
            subscription_id: self.subscription_id,
            transition_id: self.transition_id,
            issued_at_unix_us: larger_of(now_us, 1),
            lease_duration_us: self.lease_duration_us,
            mode: self.desired_mode,
        };
        let wire = encode_lease(&command);
        if wire.is_none() {
            self.snapshot.command_send_errors = self.snapshot.command_send_errors.saturating_add(1);
        }
        wire
    }

    /// Counts the send of a command, by the number of bytes that went out if it succeeded.
    pub fn record_send(&mut self, sent: Option<usize>)
        ensures
            *final(self) == (if sent == Some(FAILOVER_CONTROL_WIRE_LEN) {
                RelayFailoverController {
                    snapshot: RelayFailoverControllerSnapshot {
                        commands_sent: saturating_sum(old(self).snapshot.commands_sent, 1),
                        ..old(self).snapshot
                    },
                    ..*old(self)
                }
            } else {
                old(self).send_failed()
            }),
    {
        let whole: bool = match sent {
            Some(bytes) => bytes == FAILOVER_CONTROL_WIRE_LEN,
            None => false,
        };
        if whole {
            self.snapshot.commands_sent = self.snapshot.commands_sent.saturating_add(1);
        } else {
            self.snapshot.command_send_errors = self.snapshot.command_send_errors.saturating_add(1);
        }
    }

    /// The account of the controller.
    pub fn snapshot(&self) -> (r: RelayFailoverControllerSnapshot)
        ensures
            r == self.snapshot,
    {
        self.snapshot
    }
}

/// Whatever a controller sees and whenever it looks, it asks for sources exactly while the
/// secondary is promoted or the primary recovers.
pub proof fn controller_stays_consistent(
    c: RelayFailoverController,
    path: RelayIngressParentPath,
    observation: RelayDatagramObservation,
    now_ns: u64,
    now_ms: u64,
    now_us: u64,
)
    requires
        c.consistent(),
    ensures
        c.noted(path, observation, now_ns).consistent(),
        c.stepped(now_ns, now_ms, now_us).aged(now_ns).consistent(),
        c.send_failed().consistent(),
{
}

/// The break comes after the make: sources are taken back from the secondary only once the
/// primary is there and has been there for the whole recovery window.
pub proof fn demotion_waits_for_recovery(
    c: RelayFailoverController,
    now_ns: u64,
    now_ms: u64,
    now_us: u64,
)
    requires
        c.consistent(),
        c.desired_mode is SourceAndRepair,
        c.stepped(now_ns, now_ms, now_us).desired_mode is RepairOnly,
    ensures
        recent(c.last_primary_source, now_ns, c.silence_ns),
        elapsed_ns(
            match c.recovered_since {
                Some(since) => since,
                None => now_ns,
            },
            now_ns,
        ) >= c.recovery_ns,
{
}

/// Sources are asked for only from a secondary that is warm, and only once a primary that was
/// seen has been silent.
pub proof fn promotion_needs_a_warm_secondary(
    c: RelayFailoverController,
    now_ns: u64,
    now_ms: u64,
    now_us: u64,
)
    requires
        c.consistent(),
        c.desired_mode is RepairOnly,
        c.stepped(now_ns, now_ms, now_us).desired_mode is SourceAndRepair,
    ensures
        recent(c.last_secondary_repair, now_ns, c.secondary_warm_ns),
        !recent(c.last_primary_source, now_ns, c.silence_ns),
{
}

/// Every change of what is wanted has a larger number than the one before, as long as there
/// are larger numbers.
pub proof fn transitions_count_up(
    c: RelayFailoverController,
    now_ns: u64,
    now_ms: u64,
    now_us: u64,
)
    requires
        c.consistent(),
    ensures
        c.stepped(now_ns, now_ms, now_us).transition_id >= c.transition_id,
        c.stepped(now_ns, now_ms, now_us).desired_mode != c.desired_mode && c.transition_id
            < u64::MAX ==> c.stepped(now_ns, now_ms, now_us).transition_id > c.transition_id,
        c.stepped(now_ns, now_ms, now_us).desired_mode == c.desired_mode ==> c.stepped(
            now_ns,
            now_ms,
            now_us,
        ).transition_id == c.transition_id,
{
}

/// The listener of one warm child: the commands it obeys come from one controller and are of
/// one topology and subscription.
#[derive(Clone, Copy, Debug, PartialEq, Eq, Structural)]
pub struct RelayFailoverListener {
    pub peer: SocketAddress,
    pub forward_target: SocketAddress,
    pub generation: u64,
    pub subscription_id: u64,
    pub transition_id: u64,
    pub transition_mode: FailoverForwardMode,
    pub lease_deadline_ns: Option<u64>,
}

impl RelayFailoverListener {
    /// Whether a command is of another topology, or older than what was obeyed before.
    pub open spec fn stale(self, command: LeaseCommand) -> bool {
        ||| command.generation != self.generation
        ||| command.subscription_id != self.subscription_id
        ||| command.transition_id < self.transition_id
        ||| command.transition_id == self.transition_id && command.mode != self.transition_mode
    }

    /// Whether bytes of a peer are a command to obey.
    pub open spec fn obeys(self, peer: SocketAddress, wire: Seq<u8>, command: LeaseCommand) -> bool {
        peer == self.peer && command.valid() && wire == command.wire() && !self.stale(command)
    }

    /// A listener that has obeyed nothing.
    pub fn new(
        peer: SocketAddress,
        forward_target: SocketAddress,
        generation: u64,
        subscription_id: u64,
    ) -> (r: Self)
        ensures
            r == (RelayFailoverListener {
                peer,
                forward_target,
                generation,
                subscription_id,
                transition_id: 0,
                transition_mode: FailoverForwardMode::RepairOnly,
                lease_deadline_ns: None,
            }),
    {
        RelayFailoverListener {
            peer,
            forward_target,
            generation,
            subscription_id,
            transition_id: 0,
            transition_mode: FailoverForwardMode::RepairOnly,
            lease_deadline_ns: None,
        }
    }

    /// Takes source forwarding back where its lease has run out; tells whether it had.
    pub fn expire(&mut self, forwarder: &mut RelayDownstreamForwarder, now_ns: u64, now_ms: u64) -> (r:
        bool)
        requires
            old(forwarder).valid(),
        ensures
            final(forwarder).valid(),
            r == (old(self).lease_deadline_ns is Some && now_ns >= old(self).lease_deadline_ns->0),
            !r ==> *final(self) == *old(self) && *final(forwarder) == *old(forwarder),
            r ==> {
                &&& *final(self) == (RelayFailoverListener {
                    lease_deadline_ns: None,
                    transition_mode: FailoverForwardMode::RepairOnly,
                    ..*old(self)
                })
                &&& mode_set(
                    *old(forwarder),
                    *final(forwarder),
                    old(self).forward_target,
                    FailoverForwardMode::RepairOnly,
                    true,
                    now_ms,
                )
            },
    {
        let due: bool = match self.lease_deadline_ns {
            Some(deadline) => now_ns >= deadline,
            None => false,
        };
        if due {
            let _ = forwarder.apply_failover_mode(
                self.forward_target,
                FailoverForwardMode::RepairOnly,
                true,
                now_ms,
            );
            self.lease_deadline_ns = None;
            self.transition_mode = FailoverForwardMode::RepairOnly;
        }
        due
    }

    /// Obeys or refuses a command; what a child that was promoted just now has been kept warm
    /// is returned, to be sent to it.
    pub fn receive(
        &mut self,
        forwarder: &mut RelayDownstreamForwarder,
        peer: SocketAddress,
        wire: &[u8],
        now_ns: u64,
        now_ms: u64,
        now_us: u64,
    ) -> (r: Vec<Vec<u8>>)
        requires
            old(forwarder).valid(),
            now_ns + 60_000_000_000 <= u64::MAX,
        ensures
            final(forwarder).valid(),
            (forall|command: LeaseCommand| !(#[trigger] old(self).obeys(peer, wire@, command)))
                ==> {
                &&& r@.len() == 0
                &&& *final(self) == *old(self)
                &&& final(forwarder).children() == old(forwarder).children()
                &&& final(forwarder).counters == rejected(old(forwarder).counters)
            },
            forall|command: LeaseCommand| #[trigger]
                old(self).obeys(peer, wire@, command) ==> obeyed(
                    *old(self),
                    *final(self),
                    *old(forwarder),
                    *final(forwarder),
                    command,
                    byte_views(r@),
                    now_ns,
                    now_ms,
                    now_us,
                ),
    {
        let decoded = if peer == self.peer {
            decode_lease(wire)
        } else {
            None
        };
        let command = match decoded {
            Some(command) => command,
            None => {
                forwarder.record_failover_command_rejected();
                return Vec::new();
            },
        };
        proof {
            assert forall|other: LeaseCommand| #[trigger]
                old(self).obeys(peer, wire@, other) implies other == command by {
                wire_identifies_command(other, command);
            }
        }
        if command.generation != self.generation || command.subscription_id != self.subscription_id
            || command.transition_id < self.transition_id || (command.transition_id
            == self.transition_id && command.mode != self.transition_mode) {
            forwarder.record_failover_command_rejected();
            return Vec::new();
        }
        assert(old(self).obeys(peer, wire@, command));
        self.transition_id = command.transition_id;
        self.transition_mode = command.mode;
        let mut replay: Vec<Vec<u8>> = Vec::new();
        let applied = forwarder.apply_failover_mode(
            self.forward_target,
            command.mode,
            false,
            now_ms,
        );
        let ghost first = old(forwarder).children();
        let ghost mid = forwarder.children();
        let ghost i = path_index(first, self.forward_target);
        proof {
            assert(byte_views(replay@) =~= Seq::<Seq<u8>>::empty());
            lemma_index_bound(first, self.forward_target);
        }
        match applied {
            Some(promoted_now) => {
                self.lease_deadline_ns =
                if command.mode == FailoverForwardMode::SourceAndRepair {
                    Some(now_ns + command.lease_duration_us * 1_000)
                } else {
                    None
                };
                if promoted_now {
                    proof {
                        lemma_same_index(first, mid, self.forward_target);
                    }
                    replay = forwarder.replay_warm_sources(self.forward_target, now_us);
                    proof {
                        assert(forwarder.children() =~= first.update(
                            i,
                            PathModel {
                                promoted: true,
                                warm: BufferModel {
                                    datagrams: Seq::empty(),
                                    object_order: Seq::empty(),
                                },
                                ..first[i]
                            },
                        ));
                    }
                }
            },
            None => {},
        }
        replay
    }
}

/// Whether a forwarder has set a child, or refused to.
pub open spec fn mode_set(
    before: RelayDownstreamForwarder,
    after: RelayDownstreamForwarder,
    target: SocketAddress,
    mode: FailoverForwardMode,
    lease_expired: bool,
    now_ms: u64,
) -> bool {
    let i = path_index(before.children(), target);
    let promoted = mode is SourceAndRepair;
    if i < before.children().len() && before.children()[i].role is Repair {
        &&& after.children() == before.children().update(
            i,
            PathModel { promoted, ..before.children()[i] },
        )
        &&& after.counters == mode_applied(
            before.counters,
            before.children()[i].promoted,
            promoted,
            lease_expired,
            now_ms,
        )
    } else {
        &&& after.children() == before.children()
        &&& after.counters == rejected(before.counters)
    }
}

/// How a command that is obeyed changes the listener and the forwarder, and what is replayed.
pub open spec fn obeyed(
    before: RelayFailoverListener,
    after: RelayFailoverListener,
    f: RelayDownstreamForwarder,
    g: RelayDownstreamForwarder,
    command: LeaseCommand,
    replay: Seq<Seq<u8>>,
    now_ns: u64,
    now_ms: u64,
    now_us: u64,
) -> bool {
    let i = path_index(f.children(), before.forward_target);
    let promoted = command.mode is SourceAndRepair;
    if i < f.children().len() && f.children()[i].role is Repair {
        let child = f.children()[i];
        let counted = mode_applied(f.counters, child.promoted, promoted, false, now_ms);
        &&& after == (RelayFailoverListener {
            transition_id: command.transition_id,
            transition_mode: command.mode,
            lease_deadline_ns: if promoted {
                Some((now_ns + command.lease_duration_us * 1_000) as u64)
            } else {
                None
            },
            ..before
        })
        &&& if promoted && !child.promoted {
            let all = child.warm.datagrams;
            let live = unexpired(all, now_us);
            &&& replay == wires(live)
            &&& g.children() == f.children().update(
                i,
                PathModel {
                    promoted,
                    warm: BufferModel { datagrams: Seq::empty(), object_order: Seq::empty() },
                    ..child
                },
            )
            &&& g.counters == (RelayForwardSnapshot {
                warm_source_buffered_datagrams: counter_diff(
                    counted.warm_source_buffered_datagrams,
                    all.len() as u64,
                ),
                warm_source_buffered_bytes: counter_diff(
                    counted.warm_source_buffered_bytes,
                    wire_bytes(all) as u64,
                ),
                warm_source_expired_datagrams: wrapped_sum(
                    counted.warm_source_expired_datagrams,
                    (all.len() - live.len()) as u64,
                ),
                ..counted
            })
        } else {
            &&& replay.len() == 0
            &&& g.children() == f.children().update(i, PathModel { promoted, ..child })
            &&& g.counters == counted
        }
    } else {
        &&& after == (RelayFailoverListener {
            transition_id: command.transition_id,
            transition_mode: command.mode,
            ..before
        })
        &&& replay.len() == 0
        &&& g.children() == f.children()
        &&& g.counters == rejected(f.counters)
    }
}

proof fn lemma_same_index(a: Seq<PathModel>, b: Seq<PathModel>, target: SocketAddress)
    requires
        a.len() == b.len(),
        forall|i: int| 0 <= i < a.len() ==> (#[trigger] a[i]).target == (#[trigger] b[i]).target,
    ensures
        path_index(a, target) == path_index(b, target),
    decreases a.len(),
{
    if a.len() > 0 {
        assert(a[0].target == b[0].target);
        assert forall|i: int| 0 <= i < a.skip(1).len() implies (#[trigger] a.skip(1)[i]).target == (
        #[trigger] b.skip(1)[i]).target by {
            assert(a[i + 1].target == b[i + 1].target);
        }
        lemma_same_index(a.skip(1), b.skip(1), target);
    }
}

/// A promoted child is repair-only again once its lease has run out.
pub proof fn expired_lease_is_repair_only(
    before: RelayDownstreamForwarder,
    after: RelayDownstreamForwarder,
    target: SocketAddress,
    now_ms: u64,
)
    requires
        mode_set(before, after, target, FailoverForwardMode::RepairOnly, true, now_ms),
        path_index(before.children(), target) < before.children().len(),
        before.children()[path_index(before.children(), target)].role is Repair,
    ensures
        ({
            let child = after.children()[path_index(before.children(), target)];
            !child.promoted && !child.sends(MediaDatagramRole::Source) && child.sends(
                MediaDatagramRole::Repair,
            )
        }),
{
    lemma_index_bound(before.children(), target);
}

proof fn lemma_index_bound(paths: Seq<PathModel>, target: SocketAddress)
    ensures
        0 <= path_index(paths, target) <= paths.len(),
    decreases paths.len(),
{
    if paths.len() > 0 && paths[0].target != target {
        lemma_index_bound(paths.skip(1), target);
    }
}

/// Whether all that a controller saw was seen by now.
pub open spec fn seen_by(c: RelayFailoverController, now_ns: u64) -> bool {
    &&& c.last_primary_source is Some ==> c.last_primary_source->0 <= now_ns
    &&& c.last_secondary_repair is Some ==> c.last_secondary_repair->0 <= now_ns
    &&& c.recovered_since is Some ==> c.recovered_since->0 <= now_ns
    &&& c.last_decoded is Some ==> c.last_decoded->0 <= now_ns
    &&& c.promotion_gap_base is Some ==> c.promotion_gap_base->0 <= now_ns
    &&& c.promotion_sent_at is Some ==> c.promotion_sent_at->0 <= now_ns
}

/// Failover makes progress: whatever an enabled controller was about while it asked for repair
/// only, one look promotes a warm secondary once a primary that was seen has been silent for the
/// whole silence window. The command that goes out asks for sources, under a new number; the
/// promotion is counted and dated, and the silence is measured.
pub proof fn silence_promotes_a_warm_secondary(
    c: RelayFailoverController,
    now_ns: u64,
    now_ms: u64,
    now_us: u64,
)
    requires
        c.consistent(),
        !(c.state is Disabled),
        c.desired_mode is RepairOnly,
        c.last_primary_source is Some,
        c.last_secondary_repair is Some,
        c.last_primary_source->0 + c.silence_ns <= now_ns,
        now_ns < c.last_secondary_repair->0 + c.secondary_warm_ns,
        c.last_secondary_repair->0 <= now_ns,
    ensures
        ({
            let next = c.stepped(now_ns, now_ms, now_us).aged(now_ns);
            &&& next.state is Promoted
            &&& next.snapshot.state is Promoted
            &&& next.desired_mode is SourceAndRepair
            &&& next.command(now_us).mode is SourceAndRepair
            &&& next.transition_id >= now_us
            &&& c.transition_id < u64::MAX ==> next.transition_id > c.transition_id
            &&& c.snapshot.promotions < u64::MAX ==> next.snapshot.promotions
                == c.snapshot.promotions + 1
            &&& next.snapshot.demotions == c.snapshot.demotions
            &&& next.snapshot.last_transition_unix_ms == now_ms
            &&& next.snapshot.last_detection_us == (now_ns - c.last_primary_source->0) / 1_000
            &&& next.promotion_sent_at == Some(now_ns)
            &&& next.promotion_gap_base == c.last_decoded
            &&& next.awaiting_secondary_source && next.awaiting_post_promotion_object
            &&& next.recovered_since is None
        }),
{
}

/// What a look at the parents finds while repair only is asked for. A primary that was heard
/// within the silence window keeps the sources, and the controller is healthy, unless it still
/// waits for its first secondary. A primary that fell silent leaves nobody to promote where the
/// secondary is cold, which counts once. Before any primary was seen, nothing happens.
pub proof fn a_primary_that_is_heard_keeps_the_sources(
    c: RelayFailoverController,
    now_ns: u64,
    now_ms: u64,
    now_us: u64,
)
    requires
        c.consistent(),
        seen_by(c, now_ns),
        !(c.state is Disabled),
        c.desired_mode is RepairOnly,
    ensures
        ({
            let next = c.stepped(now_ns, now_ms, now_us).aged(now_ns);
            let heard = c.last_primary_source is Some && now_ns < c.last_primary_source->0
                + c.silence_ns;
            let warm = c.last_secondary_repair is Some && now_ns < c.last_secondary_repair->0
                + c.secondary_warm_ns;
            &&& heard ==> next.desired_mode is RepairOnly
            &&& heard && (warm || !(c.state is Arming)) ==> next.state is Healthy
            &&& heard && !warm && c.state is Arming ==> next.state is Arming
            &&& !heard && !warm && (c.last_primary_source is Some || c.state is Healthy) ==> {
                &&& next.state is SecondaryUnavailable
                &&& next.desired_mode is RepairOnly
                &&& c.state is SecondaryUnavailable ==> next.snapshot.secondary_unavailable_events
                    == c.snapshot.secondary_unavailable_events
                &&& !(c.state is SecondaryUnavailable)
                    && c.snapshot.secondary_unavailable_events < u64::MAX
                    ==> next.snapshot.secondary_unavailable_events
                    == c.snapshot.secondary_unavailable_events + 1
            }
            &&& c.last_primary_source is None && !(c.state is Healthy) ==> next.state == c.state
                && next.desired_mode is RepairOnly
            &&& !(next.state is SecondaryUnavailable)
                ==> next.snapshot.secondary_unavailable_events
                == c.snapshot.secondary_unavailable_events
        }),
{
}

/// What a look finds while sources are asked for. A silent primary leaves the secondary
/// promoted, and its recovery begins anew. A primary that is heard recovers, from the first look
/// that heard it; once it has recovered for the whole window, the sources go back to it, which
/// is counted.
pub proof fn a_primary_that_recovers_gets_the_sources_back(
    c: RelayFailoverController,
    now_ns: u64,
    now_ms: u64,
    now_us: u64,
)
    requires
        c.consistent(),
        seen_by(c, now_ns),
        c.desired_mode is SourceAndRepair,
    ensures
        ({
            let next = c.stepped(now_ns, now_ms, now_us).aged(now_ns);
            let heard = c.last_primary_source is Some && now_ns < c.last_primary_source->0
                + c.silence_ns;
            let since = if c.recovered_since is Some {
                c.recovered_since->0
            } else {
                now_ns
            };
            &&& !heard ==> next.state is Promoted && next.desired_mode is SourceAndRepair
                && next.recovered_since is None && next.transition_id == c.transition_id
            &&& heard && now_ns < since + c.recovery_ns ==> next.state is Recovering
                && next.desired_mode is SourceAndRepair && next.recovered_since == Some(since)
                && next.transition_id == c.transition_id
            &&& heard && now_ns >= since + c.recovery_ns ==> {
                &&& next.state is Healthy
                &&& next.desired_mode is RepairOnly
                &&& next.command(now_us).mode is RepairOnly
                &&& next.recovered_since is None
                &&& !next.awaiting_secondary_source
                &&& c.snapshot.demotions < u64::MAX ==> next.snapshot.demotions
                    == c.snapshot.demotions + 1
                &&& c.transition_id < u64::MAX ==> next.transition_id > c.transition_id
                &&& next.snapshot.last_transition_unix_ms == now_ms
            }
        }),
{
}

/// Between two looks a recovery window apart that both heard the primary, the sources go back.
pub proof fn two_looks_end_a_promotion(
    c: RelayFailoverController,
    observation: RelayDatagramObservation,
    first_ns: u64,
    heard_ns: u64,
    second_ns: u64,
    now_ms: u64,
    now_us: u64,
)
    requires
        c.consistent(),
        seen_by(c, first_ns),
        c.desired_mode is SourceAndRepair,
        c.last_primary_source is Some,
        first_ns < c.last_primary_source->0 + c.silence_ns,
        observation.role is Source,
        first_ns <= heard_ns <= second_ns,
        second_ns < heard_ns + c.silence_ns,
        second_ns >= first_ns + c.recovery_ns,
    ensures
        ({
            let first = c.stepped(first_ns, now_ms, now_us).aged(first_ns);
            let second = first.noted(
                RelayIngressParentPath::Primary,
                observation,
                heard_ns,
            ).stepped(second_ns, now_ms, now_us);
            second.desired_mode is RepairOnly && second.state is Healthy
        }),
{
}

/// A look changes nothing but what it finds: who the controller is, its windows and what it saw
/// stay. Promotions and demotions are counted just when what is wanted changes, a change of state
/// is dated, and the ages are those of what was seen last.
pub proof fn looks_count_what_they_change(
    c: RelayFailoverController,
    now_ns: u64,
    now_ms: u64,
    now_us: u64,
)
    requires
        c.consistent(),
        seen_by(c, now_ns),
    ensures
        ({
            let next = c.stepped(now_ns, now_ms, now_us).aged(now_ns);
            let made = c.desired_mode is RepairOnly && next.desired_mode is SourceAndRepair;
            let broken = c.desired_mode is SourceAndRepair && next.desired_mode is RepairOnly;
            &&& next.generation == c.generation && next.subscription_id == c.subscription_id
            &&& next.silence_ns == c.silence_ns && next.recovery_ns == c.recovery_ns
            &&& next.secondary_warm_ns == c.secondary_warm_ns
            &&& next.lease_duration_us == c.lease_duration_us
            &&& next.last_primary_source == c.last_primary_source
            &&& next.last_secondary_repair == c.last_secondary_repair
            &&& next.last_decoded == c.last_decoded
            &&& !made ==> next.snapshot.promotions == c.snapshot.promotions
                && next.snapshot.last_detection_us == c.snapshot.last_detection_us
                && next.promotion_sent_at == c.promotion_sent_at && next.promotion_gap_base
                == c.promotion_gap_base
            &&& made && c.snapshot.promotions < u64::MAX ==> next.snapshot.promotions
                == c.snapshot.promotions + 1
            &&& !broken ==> next.snapshot.demotions == c.snapshot.demotions
            &&& broken && c.snapshot.demotions < u64::MAX ==> next.snapshot.demotions
                == c.snapshot.demotions + 1
            &&& next.state != c.state ==> next.snapshot.last_transition_unix_ms == now_ms
            &&& next.state == c.state && !made && !broken ==> next.snapshot.last_transition_unix_ms
                == c.snapshot.last_transition_unix_ms
            &&& c.state is Disabled <==> next.state is Disabled
            &&& next.snapshot.enabled == c.snapshot.enabled
            &&& next.snapshot.commands_sent == c.snapshot.commands_sent
            &&& next.snapshot.command_send_errors == c.snapshot.command_send_errors
            &&& next.snapshot.last_media_gap_us == c.snapshot.last_media_gap_us
            &&& next.snapshot.max_media_gap_us == c.snapshot.max_media_gap_us
            &&& next.snapshot.primary_source_age_ms == (if c.last_primary_source is Some {
                (now_ns - c.last_primary_source->0) / 1_000_000
            } else {
                0
            })
            &&& next.snapshot.secondary_repair_age_ms == (if c.last_secondary_repair is Some {
                (now_ns - c.last_secondary_repair->0) / 1_000_000
            } else {
                0
            })
            &&& next.command(now_us).generation == c.generation
            &&& next.command(now_us).subscription_id == c.subscription_id
            &&& next.command(now_us).transition_id == next.transition_id
            &&& next.command(now_us).lease_duration_us == c.lease_duration_us
            &&& next.command(now_us).mode == next.desired_mode
            &&& next.command(now_us).issued_at_unix_us >= 1 && (now_us >= 1 ==> next.command(
                now_us,
            ).issued_at_unix_us == now_us)
        }),
{
}

/// Only sources of the primary and repairs of the secondary are signs of life, and no datagram
/// changes what is wanted. The first source of a promoted secondary and the first object that is
/// whole after a promotion end what is measured from the promotion and from the object before it.
pub proof fn datagrams_are_signs_of_life(
    c: RelayFailoverController,
    path: RelayIngressParentPath,
    observation: RelayDatagramObservation,
    now_ns: u64,
)
    requires
        seen_by(c, now_ns),
    ensures
        ({
            let next = c.noted(path, observation, now_ns);
            let gap = (now_ns - c.promotion_gap_base->0) / 1_000;
            &&& next.last_primary_source == (if path is Primary && observation.role is Source {
                Some(now_ns)
            } else {
                c.last_primary_source
            })
            &&& next.last_secondary_repair == (if path is Secondary && observation.role is Repair {
                Some(now_ns)
            } else {
                c.last_secondary_repair
            })
            &&& next.last_decoded == (if observation.decoded {
                Some(now_ns)
            } else {
                c.last_decoded
            })
            &&& next.state == c.state && next.desired_mode == c.desired_mode
            &&& next.transition_id == c.transition_id && next.recovered_since == c.recovered_since
            &&& next.silence_ns == c.silence_ns && next.recovery_ns == c.recovery_ns
            &&& next.secondary_warm_ns == c.secondary_warm_ns
            &&& next.snapshot.promotions == c.snapshot.promotions && next.snapshot.demotions
                == c.snapshot.demotions
            &&& next.awaiting_secondary_source == (c.awaiting_secondary_source && !(
            path is Secondary && observation.role is Source))
            &&& next.awaiting_post_promotion_object == (c.awaiting_post_promotion_object
                && !observation.decoded)
            &&& c.awaiting_secondary_source && path is Secondary && observation.role is Source
                && c.promotion_sent_at is Some ==> next.snapshot.last_promotion_to_source_us
                == (now_ns - c.promotion_sent_at->0) / 1_000
            &&& !(c.awaiting_secondary_source && path is Secondary && observation.role is Source)
                ==> next.snapshot.last_promotion_to_source_us
                == c.snapshot.last_promotion_to_source_us
            &&& c.awaiting_post_promotion_object && observation.decoded && c.promotion_gap_base
                is Some ==> next.snapshot.last_media_gap_us == gap
                && next.snapshot.max_media_gap_us >= gap && next.snapshot.max_media_gap_us
                >= c.snapshot.max_media_gap_us && (next.snapshot.max_media_gap_us == gap
                || next.snapshot.max_media_gap_us == c.snapshot.max_media_gap_us)
            &&& !(c.awaiting_post_promotion_object && observation.decoded && c.promotion_gap_base
                is Some) ==> next.snapshot.last_media_gap_us == c.snapshot.last_media_gap_us
                && next.snapshot.max_media_gap_us == c.snapshot.max_media_gap_us
        }),
{
}

/// A listener obeys the valid commands of its controller, topology and subscription that are
/// newer than what it obeyed before, or say the same again, and no others.
pub proof fn only_newer_commands_are_obeyed(
    listener: RelayFailoverListener,
    peer: SocketAddress,
    command: LeaseCommand,
)
    requires
        command.generation > 0,
        command.subscription_id > 0,
        command.transition_id > 0,
        command.issued_at_unix_us > 0,
        50_000 <= command.lease_duration_us <= 60_000_000,
    ensures
        listener.obeys(peer, command.wire(), command) <==> peer == listener.peer
            && command.generation == listener.generation && command.subscription_id
            == listener.subscription_id && (command.transition_id > listener.transition_id
            || command.transition_id == listener.transition_id && command.mode
            == listener.transition_mode),
{
}

/// A command that is obeyed sets the child that it is about and no other. A child that is
/// promoted is sent sources until the lease runs out, counted from now; where it was not promoted
/// before, it is sent what was kept warm for it and is still worth sending, in order, and nothing
/// is kept any more. A child that is demoted is sent repairs alone, without a lease.
pub proof fn obeyed_commands_set_their_child(
    before: RelayFailoverListener,
    after: RelayFailoverListener,
    f: RelayDownstreamForwarder,
    g: RelayDownstreamForwarder,
    command: LeaseCommand,
    replay: Seq<Seq<u8>>,
    now_ns: u64,
    now_ms: u64,
    now_us: u64,
    i: int,
)
    requires
        obeyed(before, after, f, g, command, replay, now_ns, now_ms, now_us),
        0 <= i < f.children().len(),
        f.children()[i].target == before.forward_target,
        forall|j: int| 0 <= j < i ==> (#[trigger] f.children()[j]).target != before.forward_target,
        f.children()[i].role is Repair,
        now_ns + command.lease_duration_us * 1_000 <= u64::MAX,
    ensures
        after.transition_id == command.transition_id,
        after.transition_mode == command.mode,
        after.peer == before.peer && after.forward_target == before.forward_target,
        after.generation == before.generation && after.subscription_id == before.subscription_id,
        g.children().len() == f.children().len(),
        forall|j: int|
            0 <= j < f.children().len() && j != i ==> #[trigger] g.children()[j] == f.children()[j],
        g.children()[i].target == f.children()[i].target,
        g.children()[i].sends(MediaDatagramRole::Repair),
        command.mode is SourceAndRepair ==> after.lease_deadline_ns == Some(
            (now_ns + command.lease_duration_us * 1_000) as u64,
        ) && g.children()[i].sends(MediaDatagramRole::Source),
        command.mode is RepairOnly ==> after.lease_deadline_ns is None && !g.children()[i].sends(
            MediaDatagramRole::Source,
        ) && replay.len() == 0,
        command.mode is SourceAndRepair && !f.children()[i].promoted ==> {
            &&& replay == f.children()[i].warm.datagrams.filter(
                |d: crate::warm::WarmModel| d.expires_at_us > now_us,
            ).map_values(|d: crate::warm::WarmModel| d.wire)
            &&& g.children()[i].warm.datagrams.len() == 0
        },
        command.mode is SourceAndRepair && f.children()[i].promoted ==> replay.len() == 0,
{
    crate::forwarder::paths_are_found_by_target(f.children(), before.forward_target);
    crate::warm::live_datagrams_stay_in_order(f.children()[i].warm.datagrams, now_us);
}

/// What a controller commands is what it wants, for its own subscription, under its latest
/// transition, from now on for as long as its leases last.
pub proof fn commands_state_what_is_wanted(c: RelayFailoverController, now_us: u64)
    requires
        now_us > 0,
    ensures
        c.command(now_us).mode == c.desired_mode,
        c.command(now_us).generation == c.generation,
        c.command(now_us).subscription_id == c.subscription_id,
        c.command(now_us).transition_id == c.transition_id,
        c.command(now_us).issued_at_unix_us == now_us,
        c.command(now_us).lease_duration_us == c.lease_duration_us,
{
}

/// A command that could not be sent is counted, and changes nothing else.
pub proof fn failed_sends_are_counted(c: RelayFailoverController)
    requires
        c.snapshot.command_send_errors < u64::MAX,
    ensures
        c.send_failed().snapshot.command_send_errors == c.snapshot.command_send_errors + 1,
        c.send_failed().snapshot.commands_sent == c.snapshot.commands_sent,
        c.send_failed().snapshot.promotions == c.snapshot.promotions,
        c.send_failed() == (RelayFailoverController { snapshot: c.send_failed().snapshot, ..c }),
{
}

/// The ages that a controller tells are those of the last source of the primary and of the last
/// repair of the secondary, in whole milliseconds.
pub proof fn ages_are_those_of_the_last_datagrams(c: RelayFailoverController, now_ns: u64)
    ensures
        ({
            let told = c.aged(now_ns).snapshot;
            &&& c.last_primary_source is None ==> told.primary_source_age_ms == 0
            &&& c.last_secondary_repair is None ==> told.secondary_repair_age_ms == 0
            &&& c.last_primary_source is Some && c.last_primary_source->0 <= now_ns
                ==> told.primary_source_age_ms * 1_000_000 <= now_ns - c.last_primary_source->0 < (
            told.primary_source_age_ms + 1) * 1_000_000
            &&& c.last_secondary_repair is Some && c.last_secondary_repair->0 <= now_ns
                ==> told.secondary_repair_age_ms * 1_000_000 <= now_ns - c.last_secondary_repair->0
                < (told.secondary_repair_age_ms + 1) * 1_000_000
            &&& c.aged(now_ns) == (RelayFailoverController { snapshot: told, ..c })
            &&& told.promotions == c.snapshot.promotions && told.state == c.snapshot.state
        }),
{
}

/// On the wire a command is 48 bytes: a mark, its mode, and its numbers at fixed places, each with
/// its most significant byte first.
pub proof fn commands_are_written_at_fixed_places(command: LeaseCommand)
    ensures
        ({
            let wire = command.wire();
            &&& wire.len() == 48
            &&& wire.take(4) == ascii_bytes("RLF1"@)
            &&& wire[4] == 1 <==> command.mode is SourceAndRepair
            &&& wire[4] == 0 <==> command.mode is RepairOnly
            &&& be_value(wire.subrange(8, 16)) == command.generation
            &&& be_value(wire.subrange(16, 24)) == command.subscription_id
            &&& be_value(wire.subrange(24, 32)) == command.transition_id
            &&& be_value(wire.subrange(32, 40)) == command.issued_at_unix_us
            &&& be_value(wire.subrange(40, 48)) == command.lease_duration_us
        }),
{
    reveal_strlit("RLF1");
    reveal_with_fuel(byte_capacity, 9);
    be_reads_back(command.generation as nat, 8);
    be_reads_back(command.subscription_id as nat, 8);
    be_reads_back(command.transition_id as nat, 8);
    be_reads_back(command.issued_at_unix_us as nat, 8);
    be_reads_back(command.lease_duration_us as nat, 8);
    let wire = command.wire();
    assert(wire.take(4) =~= ascii_bytes("RLF1"@));
    assert(wire.subrange(8, 16) =~= be_bytes(command.generation as nat, 8));
    assert(wire.subrange(16, 24) =~= be_bytes(command.subscription_id as nat, 8));
    assert(wire.subrange(24, 32) =~= be_bytes(command.transition_id as nat, 8));
    assert(wire.subrange(32, 40) =~= be_bytes(command.issued_at_unix_us as nat, 8));
    assert(wire.subrange(40, 48) =~= be_bytes(command.lease_duration_us as nat, 8));
}

/// Something was seen recently where less time has passed than a window lasts.
pub proof fn recent_is_within_the_window(seen: u64, now_ns: u64, window_ns: u128)
    requires
        window_ns > 0,
    ensures
        !recent(None, now_ns, window_ns),
        recent(Some(seen), now_ns, window_ns) <==> now_ns < seen + window_ns,
{
}

} // verus!
