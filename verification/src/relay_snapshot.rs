//! Snapshots of the relay: what was received, forwarded and failed over.

use vstd::prelude::*;
use crate::histogram::{
    whole_us, AtomicDurationHistogram, RelayAvailabilityObservation, RelayAvailabilityTelemetry,
};

verus! {

/// What a failover controller is about.
#[derive(Clone, Copy, Debug, PartialEq, Eq, Structural)]
pub enum RelayFailoverControllerState {
    Disabled,
    Arming,
    Healthy,
    Promoted,
    Recovering,
    SecondaryUnavailable,
}

impl RelayFailoverControllerState {
    /// The name of a state, as text.
    pub open spec fn text(self) -> Seq<char> {
        match self {
            RelayFailoverControllerState::Disabled => "disabled"@,
            RelayFailoverControllerState::Arming => "arming"@,
            RelayFailoverControllerState::Healthy => "healthy"@,
            RelayFailoverControllerState::Promoted => "promoted"@,
            RelayFailoverControllerState::Recovering => "recovering"@,
            RelayFailoverControllerState::SecondaryUnavailable => "secondary_unavailable"@,
        }
    }

    /// The name of a state.
    pub fn as_str(self) -> (r: &'static str)
        ensures
            r@ == self.text(),
    {
        match self {
            RelayFailoverControllerState::Disabled => "disabled",
            RelayFailoverControllerState::Arming => "arming",
            RelayFailoverControllerState::Healthy => "healthy",
            RelayFailoverControllerState::Promoted => "promoted",
            RelayFailoverControllerState::Recovering => "recovering",
            RelayFailoverControllerState::SecondaryUnavailable => "secondary_unavailable",
        }
    }
}

/// What a failover controller did so far.
#[derive(Clone, Copy, Debug, PartialEq, Eq, Structural)]
pub struct RelayFailoverControllerSnapshot {
    pub state: RelayFailoverControllerState,
    pub enabled: u64,
    pub commands_sent: u64,
    pub command_send_errors: u64,
    pub promotions: u64,
    pub demotions: u64,
    pub secondary_unavailable_events: u64,
    pub primary_source_age_ms: u64,
    pub secondary_repair_age_ms: u64,
    pub last_detection_us: u64,
    pub last_promotion_to_source_us: u64,
    pub last_media_gap_us: u64,
    pub max_media_gap_us: u64,
    pub last_transition_unix_ms: u64,
}

impl RelayFailoverControllerSnapshot {
    /// Nothing done by no controller.
    pub open spec fn nothing() -> Self {
        RelayFailoverControllerSnapshot {
            state: RelayFailoverControllerState::Disabled,
            enabled: 0,
            commands_sent: 0,
            command_send_errors: 0,
            promotions: 0,
            demotions: 0,
            secondary_unavailable_events: 0,
            primary_source_age_ms: 0,
            secondary_repair_age_ms: 0,
            last_detection_us: 0,
            last_promotion_to_source_us: 0,
            last_media_gap_us: 0,
            max_media_gap_us: 0,
            last_transition_unix_ms: 0,
        }
    }
}

impl Default for RelayFailoverControllerSnapshot {
    fn default() -> (r: Self)
        ensures
            r == RelayFailoverControllerSnapshot::nothing(),
    {
        RelayFailoverControllerSnapshot {
            state: RelayFailoverControllerState::Disabled,
            enabled: 0,
            commands_sent: 0,
            command_send_errors: 0,
            promotions: 0,
            demotions: 0,
            secondary_unavailable_events: 0,
            primary_source_age_ms: 0,
            secondary_repair_age_ms: 0,
            last_detection_us: 0,
            last_promotion_to_source_us: 0,
            last_media_gap_us: 0,
            max_media_gap_us: 0,
            last_transition_unix_ms: 0,
        }
    }
}

/// What a node forwarded to its downstream children.
#[derive(Clone, Copy, Debug)]
pub struct RelayForwardSnapshot {
    pub downstream_children: u64,
    pub source_datagrams: u64,
    pub repair_datagrams: u64,
    pub bytes: u64,
    pub errors: u64,
    pub filtered_datagrams: u64,
    pub warm_source_buffered_datagrams: u64,
    pub warm_source_buffered_bytes: u64,
    pub warm_source_replayed_datagrams: u64,
    pub warm_source_replayed_bytes: u64,
    pub warm_source_expired_datagrams: u64,
    pub warm_source_retired_datagrams: u64,
    pub warm_source_evicted_datagrams: u64,
    pub duration_count: u64,
    pub duration_sum_us: u64,
    pub duration_max_us: u64,
    pub duration_buckets: [u64; 13],
    pub failover_listeners: u64,
    pub failover_promoted_children: u64,
    pub failover_commands_received: u64,
    pub failover_commands_rejected: u64,
    pub failover_lease_expirations: u64,
    pub failover_promotions_applied: u64,
    pub failover_demotions_applied: u64,
    pub failover_last_transition_unix_ms: u64,
}

/// What a node received from its upstream parents.
#[derive(Clone, Copy, Debug, PartialEq, Eq, Structural)]
pub struct RelayIngressSnapshot {
    pub primary_sessions: u64,
    pub secondary_sessions: u64,
    pub authenticated_sessions: u64,
    pub controlled_sessions: u64,
    pub active_objects: u64,
    pub completed_objects: u64,
    pub active_object_bytes: u64,
    pub buffered_datagrams: u64,
    pub datagrams_received: u64,
    pub datagrams_rejected: u64,
    pub source_datagrams: u64,
    pub repair_datagrams: u64,
    pub duplicate_datagrams: u64,
    pub decoded_objects: u64,
    pub repair_assisted_objects: u64,
    pub fec_recovered_objects: u64,
    pub fec_recovered_source_symbols: u64,
    pub expired_objects: u64,
    pub conflict_drops: u64,
    pub authentication_drops: u64,
    pub deadline_drops: u64,
}

/// The relay of a node as a whole.
#[derive(Clone, Copy, Debug)]
pub struct RelaySessionIngressSnapshot {
    pub primary_sessions: u64,
    pub secondary_sessions: u64,
    pub authenticated_sessions: u64,
    pub controlled_sessions: u64,
    pub active_objects: u64,
    pub completed_objects: u64,
    pub active_object_bytes: u64,
    pub buffered_datagrams: u64,
    pub datagrams_received: u64,
    pub datagrams_rejected: u64,
    pub source_datagrams: u64,
    pub repair_datagrams: u64,
    pub duplicate_datagrams: u64,
    pub decoded_objects: u64,
    pub repair_assisted_objects: u64,
    pub fec_recovered_objects: u64,
    pub fec_recovered_source_symbols: u64,
    pub expired_objects: u64,
    pub conflict_drops: u64,
    pub authentication_drops: u64,
    pub deadline_drops: u64,
    pub downstream_children: u64,
    pub forwarded_source_datagrams: u64,
    pub forwarded_repair_datagrams: u64,
    pub forwarded_bytes: u64,
    pub forward_errors: u64,
    pub forward_filtered_datagrams: u64,
    pub warm_source_buffered_datagrams: u64,
    pub warm_source_buffered_bytes: u64,
    pub warm_source_replayed_datagrams: u64,
    pub warm_source_replayed_bytes: u64,
    pub warm_source_expired_datagrams: u64,
    pub warm_source_retired_datagrams: u64,
    pub warm_source_evicted_datagrams: u64,
    pub processing_duration_count: u64,
    pub processing_duration_sum_us: u64,
    pub processing_duration_max_us: u64,
    pub processing_duration_buckets: [u64; 13],
    pub forward_duration_count: u64,
    pub forward_duration_sum_us: u64,
    pub forward_duration_max_us: u64,
    pub forward_duration_buckets: [u64; 13],
    pub publication_to_available_count: u64,
    pub publication_to_available_sum_us: u64,
    pub publication_to_available_max_us: u64,
    pub publication_to_available_buckets: [u64; 16],
    pub publication_clock_error_max_us: u64,
    pub publication_clock_unusable_objects: u64,
    pub failover_controller_state: RelayFailoverControllerState,
    pub failover_controller_enabled: u64,
    pub failover_commands_sent: u64,
    pub failover_command_send_errors: u64,
    pub failover_promotions: u64,
    pub failover_demotions: u64,
    pub failover_secondary_unavailable_events: u64,
    pub failover_primary_source_age_ms: u64,
    pub failover_secondary_repair_age_ms: u64,
    pub failover_last_detection_us: u64,
    pub failover_last_promotion_to_source_us: u64,
    pub failover_last_media_gap_us: u64,
    pub failover_max_media_gap_us: u64,
    pub failover_controller_last_transition_unix_ms: u64,
    pub failover_listeners: u64,
    pub failover_promoted_children: u64,
    pub failover_commands_received: u64,
    pub failover_commands_rejected: u64,
    pub failover_lease_expirations: u64,
    pub failover_promotions_applied: u64,
    pub failover_demotions_applied: u64,
    pub failover_listener_last_transition_unix_ms: u64,
}

impl RelaySessionIngressSnapshot {
    /// What the snapshot says of forwarding.
    pub open spec fn forward(self) -> RelayForwardSnapshot {
        RelayForwardSnapshot {
            downstream_children: self.downstream_children,
            source_datagrams: self.forwarded_source_datagrams,
            repair_datagrams: self.forwarded_repair_datagrams,
            bytes: self.forwarded_bytes,
            errors: self.forward_errors,
            filtered_datagrams: self.forward_filtered_datagrams,
            warm_source_buffered_datagrams: self.warm_source_buffered_datagrams,
            warm_source_buffered_bytes: self.warm_source_buffered_bytes,
            warm_source_replayed_datagrams: self.warm_source_replayed_datagrams,
            warm_source_replayed_bytes: self.warm_source_replayed_bytes,
            warm_source_expired_datagrams: self.warm_source_expired_datagrams,
            warm_source_retired_datagrams: self.warm_source_retired_datagrams,
            warm_source_evicted_datagrams: self.warm_source_evicted_datagrams,
            duration_count: self.forward_duration_count,
            duration_sum_us: self.forward_duration_sum_us,
            duration_max_us: self.forward_duration_max_us,
            duration_buckets: self.forward_duration_buckets,
            failover_listeners: self.failover_listeners,
            failover_promoted_children: self.failover_promoted_children,
            failover_commands_received: self.failover_commands_received,
            failover_commands_rejected: self.failover_commands_rejected,
            failover_lease_expirations: self.failover_lease_expirations,
            failover_promotions_applied: self.failover_promotions_applied,
            failover_demotions_applied: self.failover_demotions_applied,
            failover_last_transition_unix_ms: self.failover_listener_last_transition_unix_ms,
        }
    }

    /// The snapshot with another account of forwarding.
    pub open spec fn with_forward(self, snapshot: RelayForwardSnapshot) -> Self {
        RelaySessionIngressSnapshot {
            downstream_children: snapshot.downstream_children,
            forwarded_source_datagrams: snapshot.source_datagrams,
            forwarded_repair_datagrams: snapshot.repair_datagrams,
            forwarded_bytes: snapshot.bytes,
            forward_errors: snapshot.errors,
            forward_filtered_datagrams: snapshot.filtered_datagrams,
            warm_source_buffered_datagrams: snapshot.warm_source_buffered_datagrams,
            warm_source_buffered_bytes: snapshot.warm_source_buffered_bytes,
            warm_source_replayed_datagrams: snapshot.warm_source_replayed_datagrams,
            warm_source_replayed_bytes: snapshot.warm_source_replayed_bytes,
            warm_source_expired_datagrams: snapshot.warm_source_expired_datagrams,
            warm_source_retired_datagrams: snapshot.warm_source_retired_datagrams,
            warm_source_evicted_datagrams: snapshot.warm_source_evicted_datagrams,
            forward_duration_count: snapshot.duration_count,
            forward_duration_sum_us: snapshot.duration_sum_us,
            forward_duration_max_us: snapshot.duration_max_us,
            forward_duration_buckets: snapshot.duration_buckets,
            failover_listeners: snapshot.failover_listeners,
            failover_promoted_children: snapshot.failover_promoted_children,
            failover_commands_received: snapshot.failover_commands_received,
            failover_commands_rejected: snapshot.failover_commands_rejected,
            failover_lease_expirations: snapshot.failover_lease_expirations,
            failover_promotions_applied: snapshot.failover_promotions_applied,
            failover_demotions_applied: snapshot.failover_demotions_applied,
            failover_listener_last_transition_unix_ms: snapshot.failover_last_transition_unix_ms,
            ..self
        }
    }

    /// The snapshot with another account of the failover controller.
    pub open spec fn with_controller(self, snapshot: RelayFailoverControllerSnapshot) -> Self {
        RelaySessionIngressSnapshot {
            failover_controller_state: snapshot.state,
            failover_controller_enabled: snapshot.enabled,
            failover_commands_sent: snapshot.commands_sent,
            failover_command_send_errors: snapshot.command_send_errors,
            failover_promotions: snapshot.promotions,
            failover_demotions: snapshot.demotions,
            failover_secondary_unavailable_events: snapshot.secondary_unavailable_events,
            failover_primary_source_age_ms: snapshot.primary_source_age_ms,
            failover_secondary_repair_age_ms: snapshot.secondary_repair_age_ms,
            failover_last_detection_us: snapshot.last_detection_us,
            failover_last_promotion_to_source_us: snapshot.last_promotion_to_source_us,
            failover_last_media_gap_us: snapshot.last_media_gap_us,
            failover_max_media_gap_us: snapshot.max_media_gap_us,
            failover_controller_last_transition_unix_ms: snapshot.last_transition_unix_ms,
            ..self
        }
    }

    /// The snapshot with another account of the delays of publication.
    pub open spec fn with_availability(self, telemetry: RelayAvailabilityTelemetry) -> Self {
        RelaySessionIngressSnapshot {
            publication_to_available_count: telemetry.duration.count,
            publication_to_available_sum_us: telemetry.duration.sum_us,
            publication_to_available_max_us: telemetry.duration.max_us,
            publication_to_available_buckets: telemetry.duration.buckets,
            publication_clock_error_max_us: telemetry.clock_error_max_us,
            publication_clock_unusable_objects: telemetry.unusable_clock_objects,
            ..self
        }
    }

    /// The snapshot with another account of the relay's own work.
    pub open spec fn with_processing(self, processing: AtomicDurationHistogram) -> Self {
        RelaySessionIngressSnapshot {
            processing_duration_count: processing.count,
            processing_duration_sum_us: processing.sum_us,
            processing_duration_max_us: processing.max_us,
            processing_duration_buckets: processing.buckets,
            ..self
        }
    }

    /// What the snapshot says of reception.
    pub open spec fn ingress(self) -> RelayIngressSnapshot {
        RelayIngressSnapshot {
            primary_sessions: self.primary_sessions,
            secondary_sessions: self.secondary_sessions,
            authenticated_sessions: self.authenticated_sessions,
            controlled_sessions: self.controlled_sessions,
            active_objects: self.active_objects,
            completed_objects: self.completed_objects,
            active_object_bytes: self.active_object_bytes,
            buffered_datagrams: self.buffered_datagrams,
            datagrams_received: self.datagrams_received,
            datagrams_rejected: self.datagrams_rejected,
            source_datagrams: self.source_datagrams,
            repair_datagrams: self.repair_datagrams,
            duplicate_datagrams: self.duplicate_datagrams,
            decoded_objects: self.decoded_objects,
            repair_assisted_objects: self.repair_assisted_objects,
            fec_recovered_objects: self.fec_recovered_objects,
            fec_recovered_source_symbols: self.fec_recovered_source_symbols,
            expired_objects: self.expired_objects,
            conflict_drops: self.conflict_drops,
            authentication_drops: self.authentication_drops,
            deadline_drops: self.deadline_drops,
        }
    }

    /// Whether everything but what was received is zero.
    pub open spec fn only_ingress(self) -> bool {
        &&& self.downstream_children == 0
        &&& self.forwarded_source_datagrams == 0
        &&& self.forwarded_repair_datagrams == 0
        &&& self.forwarded_bytes == 0
        &&& self.forward_errors == 0
        &&& self.forward_filtered_datagrams == 0
        &&& self.warm_source_buffered_datagrams == 0
        &&& self.warm_source_buffered_bytes == 0
        &&& self.warm_source_replayed_datagrams == 0
        &&& self.warm_source_replayed_bytes == 0
        &&& self.warm_source_expired_datagrams == 0
        &&& self.warm_source_retired_datagrams == 0
        &&& self.warm_source_evicted_datagrams == 0
        &&& self.processing_duration_count == 0
        &&& self.processing_duration_sum_us == 0
        &&& self.processing_duration_max_us == 0
        &&& forall|i: int| 0 <= i < 13 ==> #[trigger] self.processing_duration_buckets@[i] == 0
        &&& self.forward_duration_count == 0
        &&& self.forward_duration_sum_us == 0
        &&& self.forward_duration_max_us == 0
        &&& forall|i: int| 0 <= i < 13 ==> #[trigger] self.forward_duration_buckets@[i] == 0
        &&& self.publication_to_available_count == 0
        &&& self.publication_to_available_sum_us == 0
        &&& self.publication_to_available_max_us == 0
        &&& forall|i: int| 0 <= i < 16 ==> #[trigger] self.publication_to_available_buckets@[i] == 0
        &&& self.publication_clock_error_max_us == 0
        &&& self.publication_clock_unusable_objects == 0
        &&& self.failover_controller_state is Disabled
        &&& self.failover_controller_enabled == 0
        &&& self.failover_commands_sent == 0
        &&& self.failover_command_send_errors == 0
        &&& self.failover_promotions == 0
        &&& self.failover_demotions == 0
        &&& self.failover_secondary_unavailable_events == 0
        &&& self.failover_primary_source_age_ms == 0
        &&& self.failover_secondary_repair_age_ms == 0
        &&& self.failover_last_detection_us == 0
        &&& self.failover_last_promotion_to_source_us == 0
        &&& self.failover_last_media_gap_us == 0
        &&& self.failover_max_media_gap_us == 0
        &&& self.failover_controller_last_transition_unix_ms == 0
        &&& self.failover_listeners == 0
        &&& self.failover_promoted_children == 0
        &&& self.failover_commands_received == 0
        &&& self.failover_commands_rejected == 0
        &&& self.failover_lease_expirations == 0
        &&& self.failover_promotions_applied == 0
        &&& self.failover_demotions_applied == 0
        &&& self.failover_listener_last_transition_unix_ms == 0
    }

    /// A snapshot that says what was received, and nothing else.
    pub fn from_ingress(snapshot: RelayIngressSnapshot) -> (r: Self)
        ensures
            r.ingress() == snapshot,
            r.only_ingress(),
    {
        RelaySessionIngressSnapshot {
            primary_sessions: snapshot.primary_sessions,
            secondary_sessions: snapshot.secondary_sessions,
            authenticated_sessions: snapshot.authenticated_sessions,
            controlled_sessions: snapshot.controlled_sessions,
            active_objects: snapshot.active_objects,
            completed_objects: snapshot.completed_objects,
            active_object_bytes: snapshot.active_object_bytes,
            buffered_datagrams: snapshot.buffered_datagrams,
            datagrams_received: snapshot.datagrams_received,
            datagrams_rejected: snapshot.datagrams_rejected,
            source_datagrams: snapshot.source_datagrams,
            repair_datagrams: snapshot.repair_datagrams,
            duplicate_datagrams: snapshot.duplicate_datagrams,
            decoded_objects: snapshot.decoded_objects,
            repair_assisted_objects: snapshot.repair_assisted_objects,
            fec_recovered_objects: snapshot.fec_recovered_objects,
            fec_recovered_source_symbols: snapshot.fec_recovered_source_symbols,
            expired_objects: snapshot.expired_objects,
            conflict_drops: snapshot.conflict_drops,
            authentication_drops: snapshot.authentication_drops,
            deadline_drops: snapshot.deadline_drops,
            downstream_children: 0,
            forwarded_source_datagrams: 0,
            forwarded_repair_datagrams: 0,
            forwarded_bytes: 0,
            forward_errors: 0,
            forward_filtered_datagrams: 0,
            warm_source_buffered_datagrams: 0,
            warm_source_buffered_bytes: 0,
            warm_source_replayed_datagrams: 0,
            warm_source_replayed_bytes: 0,
            warm_source_expired_datagrams: 0,
            warm_source_retired_datagrams: 0,
            warm_source_evicted_datagrams: 0,
            processing_duration_count: 0,
            processing_duration_sum_us: 0,
            processing_duration_max_us: 0,
            processing_duration_buckets: [0; 13],
            forward_duration_count: 0,
            forward_duration_sum_us: 0,
            forward_duration_max_us: 0,
            forward_duration_buckets: [0; 13],
            publication_to_available_count: 0,
            publication_to_available_sum_us: 0,
            publication_to_available_max_us: 0,
            publication_to_available_buckets: [0; 16],
            publication_clock_error_max_us: 0,
            publication_clock_unusable_objects: 0,
            failover_controller_state: RelayFailoverControllerState::Disabled,
            failover_controller_enabled: 0,
            failover_commands_sent: 0,
            failover_command_send_errors: 0,
            failover_promotions: 0,
            failover_demotions: 0,
            failover_secondary_unavailable_events: 0,
            failover_primary_source_age_ms: 0,
            failover_secondary_repair_age_ms: 0,
            failover_last_detection_us: 0,
            failover_last_promotion_to_source_us: 0,
            failover_last_media_gap_us: 0,
            failover_max_media_gap_us: 0,
            failover_controller_last_transition_unix_ms: 0,
            failover_listeners: 0,
            failover_promoted_children: 0,
            failover_commands_received: 0,
            failover_commands_rejected: 0,
            failover_lease_expirations: 0,
            failover_promotions_applied: 0,
            failover_demotions_applied: 0,
            failover_listener_last_transition_unix_ms: 0,
        }
    }

    /// What the snapshot says of forwarding.
    pub fn forward_snapshot(self) -> (r: RelayForwardSnapshot)
        ensures
            r == self.forward(),
    {
        RelayForwardSnapshot {
            downstream_children: self.downstream_children,
            source_datagrams: self.forwarded_source_datagrams,
            repair_datagrams: self.forwarded_repair_datagrams,
            bytes: self.forwarded_bytes,
            errors: self.forward_errors,
            filtered_datagrams: self.forward_filtered_datagrams,
            warm_source_buffered_datagrams: self.warm_source_buffered_datagrams,
            warm_source_buffered_bytes: self.warm_source_buffered_bytes,
            warm_source_replayed_datagrams: self.warm_source_replayed_datagrams,
            warm_source_replayed_bytes: self.warm_source_replayed_bytes,
            warm_source_expired_datagrams: self.warm_source_expired_datagrams,
            warm_source_retired_datagrams: self.warm_source_retired_datagrams,
            warm_source_evicted_datagrams: self.warm_source_evicted_datagrams,
            duration_count: self.forward_duration_count,
            duration_sum_us: self.forward_duration_sum_us,
            duration_max_us: self.forward_duration_max_us,
            duration_buckets: self.forward_duration_buckets,
            failover_listeners: self.failover_listeners,
            failover_promoted_children: self.failover_promoted_children,
            failover_commands_received: self.failover_commands_received,
            failover_commands_rejected: self.failover_commands_rejected,
            failover_lease_expirations: self.failover_lease_expirations,
            failover_promotions_applied: self.failover_promotions_applied,
            failover_demotions_applied: self.failover_demotions_applied,
            failover_last_transition_unix_ms: self.failover_listener_last_transition_unix_ms,
        }
    }

    /// Takes over another account of forwarding.
    pub fn apply_forward_snapshot(&mut self, snapshot: RelayForwardSnapshot)
        ensures
            *final(self) == old(self).with_forward(snapshot),
    {
        self.downstream_children = snapshot.downstream_children;
        self.forwarded_source_datagrams = snapshot.source_datagrams;
        self.forwarded_repair_datagrams = snapshot.repair_datagrams;
        self.forwarded_bytes = snapshot.bytes;
        self.forward_errors = snapshot.errors;
        self.forward_filtered_datagrams = snapshot.filtered_datagrams;
        self.warm_source_buffered_datagrams = snapshot.warm_source_buffered_datagrams;
        self.warm_source_buffered_bytes = snapshot.warm_source_buffered_bytes;
        self.warm_source_replayed_datagrams = snapshot.warm_source_replayed_datagrams;
        self.warm_source_replayed_bytes = snapshot.warm_source_replayed_bytes;
        self.warm_source_expired_datagrams = snapshot.warm_source_expired_datagrams;
        self.warm_source_retired_datagrams = snapshot.warm_source_retired_datagrams;
        self.warm_source_evicted_datagrams = snapshot.warm_source_evicted_datagrams;
        self.forward_duration_count = snapshot.duration_count;
        self.forward_duration_sum_us = snapshot.duration_sum_us;
        self.forward_duration_max_us = snapshot.duration_max_us;
        self.forward_duration_buckets = snapshot.duration_buckets;
        self.failover_listeners = snapshot.failover_listeners;
        self.failover_promoted_children = snapshot.failover_promoted_children;
        self.failover_commands_received = snapshot.failover_commands_received;
        self.failover_commands_rejected = snapshot.failover_commands_rejected;
        self.failover_lease_expirations = snapshot.failover_lease_expirations;
        self.failover_promotions_applied = snapshot.failover_promotions_applied;
        self.failover_demotions_applied = snapshot.failover_demotions_applied;
        self.failover_listener_last_transition_unix_ms = snapshot.failover_last_transition_unix_ms;
    }

    /// Takes over another account of the failover controller.
    pub fn apply_failover_controller_snapshot(&mut self, snapshot: RelayFailoverControllerSnapshot)
        ensures
            *final(self) == old(self).with_controller(snapshot),
    {
        self.failover_controller_state = snapshot.state;
        self.failover_controller_enabled = snapshot.enabled;
        self.failover_commands_sent = snapshot.commands_sent;
        self.failover_command_send_errors = snapshot.command_send_errors;
        self.failover_promotions = snapshot.promotions;
        self.failover_demotions = snapshot.demotions;
        self.failover_secondary_unavailable_events = snapshot.secondary_unavailable_events;
        self.failover_primary_source_age_ms = snapshot.primary_source_age_ms;
        self.failover_secondary_repair_age_ms = snapshot.secondary_repair_age_ms;
        self.failover_last_detection_us = snapshot.last_detection_us;
        self.failover_last_promotion_to_source_us = snapshot.last_promotion_to_source_us;
        self.failover_last_media_gap_us = snapshot.last_media_gap_us;
        self.failover_max_media_gap_us = snapshot.max_media_gap_us;
        self.failover_controller_last_transition_unix_ms = snapshot.last_transition_unix_ms;
    }
}

impl Default for RelaySessionIngressSnapshot {
    fn default() -> (r: Self)
        ensures
            r.only_ingress(),
            r.ingress() == RelayIngressSnapshot::nothing(),
    {
        RelaySessionIngressSnapshot::from_ingress(RelayIngressSnapshot::default())
    }
}

impl RelayIngressSnapshot {
    /// Nothing received.
    pub open spec fn nothing() -> Self {
        RelayIngressSnapshot {
            primary_sessions: 0,
            secondary_sessions: 0,
            authenticated_sessions: 0,
            controlled_sessions: 0,
            active_objects: 0,
            completed_objects: 0,
            active_object_bytes: 0,
            buffered_datagrams: 0,
            datagrams_received: 0,
            datagrams_rejected: 0,
            source_datagrams: 0,
            repair_datagrams: 0,
            duplicate_datagrams: 0,
            decoded_objects: 0,
            repair_assisted_objects: 0,
            fec_recovered_objects: 0,
            fec_recovered_source_symbols: 0,
            expired_objects: 0,
            conflict_drops: 0,
            authentication_drops: 0,
            deadline_drops: 0,
        }
    }
}

impl Default for RelayIngressSnapshot {
    fn default() -> (r: Self)
        ensures
            r == RelayIngressSnapshot::nothing(),
    {
        RelayIngressSnapshot {
            primary_sessions: 0,
            secondary_sessions: 0,
            authenticated_sessions: 0,
            controlled_sessions: 0,
            active_objects: 0,
            completed_objects: 0,
            active_object_bytes: 0,
            buffered_datagrams: 0,
            datagrams_received: 0,
            datagrams_rejected: 0,
            source_datagrams: 0,
            repair_datagrams: 0,
            duplicate_datagrams: 0,
            decoded_objects: 0,
            repair_assisted_objects: 0,
            fec_recovered_objects: 0,
            fec_recovered_source_symbols: 0,
            expired_objects: 0,
            conflict_drops: 0,
            authentication_drops: 0,
            deadline_drops: 0,
        }
    }
}

/// An account of forwarding that is taken over is read back, and taking over what is already
/// there changes nothing.
pub proof fn forwarding_reads_back(
    snapshot: RelaySessionIngressSnapshot,
    forward: RelayForwardSnapshot,
)
    ensures
        snapshot.with_forward(forward).forward() == forward,
        snapshot.with_forward(snapshot.forward()) == snapshot,
        snapshot.with_forward(forward).ingress() == snapshot.ingress(),
{
}

impl RelayAvailabilityTelemetry {
    /// Writes the delays of publication into a snapshot.
    pub fn apply_to(&self, snapshot: &mut RelaySessionIngressSnapshot)
        ensures
            *final(snapshot) == old(snapshot).with_availability(*self),
    {
        snapshot.publication_to_available_count = self.duration.count;
        snapshot.publication_to_available_sum_us = self.duration.sum_us;
        snapshot.publication_to_available_max_us = self.duration.max_us;
        snapshot.publication_to_available_buckets = self.duration.buckets;
        snapshot.publication_clock_error_max_us = self.clock_error_max_us;
        snapshot.publication_clock_unusable_objects = self.unusable_clock_objects;
    }
}

/// The running account of a node's relay.
#[derive(Debug)]
pub struct RelayRuntime {
    pub relay_ingress: RelaySessionIngressSnapshot,
    pub relay_failover_controller: RelayFailoverControllerSnapshot,
    pub relay_processing: AtomicDurationHistogram,
    pub relay_availability: RelayAvailabilityTelemetry,
}

impl RelayRuntime {
    /// An account of nothing.
    pub fn new() -> (r: Self)
        ensures
            r.relay_ingress.only_ingress(),
            r.relay_ingress.ingress() == RelayIngressSnapshot::nothing(),
            r.relay_failover_controller == RelayFailoverControllerSnapshot::nothing(),
            r.relay_processing.count == 0 && r.relay_processing.sum_us == 0
                && r.relay_processing.max_us == 0,
            forall|i: int| 0 <= i < 13 ==> #[trigger] r.relay_processing.buckets@[i] == 0,
            r.relay_availability.duration.count == 0 && r.relay_availability.duration.sum_us == 0
                && r.relay_availability.duration.max_us == 0,
            forall|i: int| 0 <= i < 16 ==> #[trigger] r.relay_availability.duration.buckets@[i] == 0,
            r.relay_availability.clock_error_max_us == 0,
            r.relay_availability.unusable_clock_objects == 0,
    {
        RelayRuntime {
            relay_ingress: RelaySessionIngressSnapshot::default(),
            relay_failover_controller: RelayFailoverControllerSnapshot::default(),
            relay_processing: AtomicDurationHistogram::default(),
            relay_availability: RelayAvailabilityTelemetry::default(),
        }
    }

    /// Takes over what was received; what was forwarded stays as it was.
    pub fn update_relay_ingress(&mut self, snapshot: RelayIngressSnapshot)
        ensures
            final(self).relay_ingress.ingress() == snapshot,
            final(self).relay_ingress.forward() == old(self).relay_ingress.forward(),
            exists|fresh: RelaySessionIngressSnapshot| #[trigger]
                fresh.only_ingress() && fresh.ingress() == snapshot && final(self).relay_ingress
                    == fresh.with_forward(old(self).relay_ingress.forward()),
            final(self).relay_failover_controller == old(self).relay_failover_controller,
            final(self).relay_processing == old(self).relay_processing,
            final(self).relay_availability == old(self).relay_availability,
    {
        self.update_relay_runtime(snapshot, None);
    }

    /// Takes over what was received, and what was forwarded where it is told.
    pub fn update_relay_runtime(
        &mut self,
        snapshot: RelayIngressSnapshot,
        forward: Option<RelayForwardSnapshot>,
    )
        ensures
            final(self).relay_ingress.ingress() == snapshot,
            final(self).relay_ingress.forward() == (match forward {
                Some(forward) => forward,
                None => old(self).relay_ingress.forward(),
            }),
            exists|fresh: RelaySessionIngressSnapshot| #[trigger]
                fresh.only_ingress() && fresh.ingress() == snapshot && final(self).relay_ingress
                    == fresh.with_forward(final(self).relay_ingress.forward()),
            final(self).relay_failover_controller == old(self).relay_failover_controller,
            final(self).relay_processing == old(self).relay_processing,
            final(self).relay_availability == old(self).relay_availability,
    {
        let forward = match forward {
            Some(forward) => forward,
            None => self.relay_ingress.forward_snapshot(),
        };
        let fresh = RelaySessionIngressSnapshot::from_ingress(snapshot);
        self.relay_ingress = fresh;
        self.relay_ingress.apply_forward_snapshot(forward);
        proof {
            forwarding_reads_back(fresh, forward);
        }
    }

    /// Takes over what was forwarded; what was received stays as it was.
    pub fn update_relay_forward(&mut self, snapshot: RelayForwardSnapshot)
        ensures
            *final(self) == (RelayRuntime {
                relay_ingress: old(self).relay_ingress.with_forward(snapshot),
                ..*old(self)
            }),
    {
        self.relay_ingress.apply_forward_snapshot(snapshot);
    }

    /// Takes over what the failover controller did.
    pub fn update_relay_failover_controller(&mut self, snapshot: RelayFailoverControllerSnapshot)
        ensures
            *final(self) == (RelayRuntime { relay_failover_controller: snapshot, ..*old(self) }),
    {
        self.relay_failover_controller = snapshot;
    }

    /// The relay of the node as a whole.
    pub fn relay_ingress_snapshot(&self) -> (r: RelaySessionIngressSnapshot)
        ensures
            r == self.relay_ingress.with_controller(
                self.relay_failover_controller,
            ).with_processing(self.relay_processing).with_availability(self.relay_availability),
    {
        let mut snapshot = self.relay_ingress;
        snapshot.apply_failover_controller_snapshot(self.relay_failover_controller);
        snapshot.processing_duration_count = self.relay_processing.count;
        snapshot.processing_duration_sum_us = self.relay_processing.sum_us;
        snapshot.processing_duration_max_us = self.relay_processing.max_us;
        snapshot.processing_duration_buckets = self.relay_processing.buckets;
        self.relay_availability.apply_to(&mut snapshot);
        snapshot
    }

    /// Counts the duration of one piece of relay work.
    pub fn record_relay_processing(&mut self, duration_ns: u128)
        ensures
            final(self).relay_processing.counted(old(self).relay_processing, whole_us(duration_ns)),
            *final(self) == (RelayRuntime {
                relay_processing: final(self).relay_processing,
                ..*old(self)
            }),
    {
        let _ = self.relay_processing.record(duration_ns);
    }

    /// Counts an observation of a publication.
    pub fn record_relay_availability(&mut self, observation: RelayAvailabilityObservation)
        ensures
            match observation {
                RelayAvailabilityObservation::Measured { duration_us, clock_error_us } => {
                    &&& final(self).relay_availability.duration.counted(
                        old(self).relay_availability.duration,
                        duration_us,
                    )
                    &&& final(self).relay_availability.clock_error_max_us == (if clock_error_us
                        > old(self).relay_availability.clock_error_max_us {
                        clock_error_us
                    } else {
                        old(self).relay_availability.clock_error_max_us
                    })
                    &&& final(self).relay_availability.unusable_clock_objects == old(
                        self,
                    ).relay_availability.unusable_clock_objects
                },
                RelayAvailabilityObservation::UnusableClock => {
                    final(self).relay_availability == (RelayAvailabilityTelemetry {
                        unusable_clock_objects: crate::histogram::wrapped_sum(
                            old(self).relay_availability.unusable_clock_objects,
                            1,
                        ),
                        ..old(self).relay_availability
                    })
                },
            },
            *final(self) == (RelayRuntime {
                relay_availability: final(self).relay_availability,
                ..*old(self)
            }),
    {
        self.relay_availability.record(observation);
    }
}

/// The account of the controller takes its place in the account of a relay, and changes nothing
/// of what was received or forwarded.
pub proof fn controllers_are_told_apart(
    s: RelaySessionIngressSnapshot,
    c: RelayFailoverControllerSnapshot,
)
    ensures
        ({
            let t = s.with_controller(c);
            &&& t.forward() == s.forward() && t.ingress() == s.ingress()
            &&& t.failover_controller_state == c.state
            &&& t.failover_controller_enabled == c.enabled
            &&& t.failover_commands_sent == c.commands_sent
            &&& t.failover_command_send_errors == c.command_send_errors
            &&& t.failover_promotions == c.promotions && t.failover_demotions == c.demotions
            &&& t.failover_secondary_unavailable_events == c.secondary_unavailable_events
            &&& t.failover_primary_source_age_ms == c.primary_source_age_ms
            &&& t.failover_secondary_repair_age_ms == c.secondary_repair_age_ms
            &&& t.failover_last_detection_us == c.last_detection_us
            &&& t.failover_last_promotion_to_source_us == c.last_promotion_to_source_us
            &&& t.failover_last_media_gap_us == c.last_media_gap_us
            &&& t.failover_max_media_gap_us == c.max_media_gap_us
            &&& t.failover_controller_last_transition_unix_ms == c.last_transition_unix_ms
            &&& t.processing_duration_count == s.processing_duration_count
            &&& t.publication_to_available_count == s.publication_to_available_count
        }),
{
}

/// So do the times until objects are available and those of processing.
pub proof fn times_are_told_apart(
    s: RelaySessionIngressSnapshot,
    a: RelayAvailabilityTelemetry,
    p: AtomicDurationHistogram,
)
    ensures
        ({
            let t = s.with_availability(a);
            &&& t.forward() == s.forward() && t.ingress() == s.ingress()
            &&& t.publication_to_available_count == a.duration.count
            &&& t.publication_to_available_sum_us == a.duration.sum_us
            &&& t.publication_to_available_max_us == a.duration.max_us
            &&& t.publication_to_available_buckets == a.duration.buckets
            &&& t.publication_clock_error_max_us == a.clock_error_max_us
            &&& t.publication_clock_unusable_objects == a.unusable_clock_objects
            &&& t.processing_duration_count == s.processing_duration_count
        }),
        ({
            let t = s.with_processing(p);
            &&& t.forward() == s.forward() && t.ingress() == s.ingress()
            &&& t.processing_duration_count == p.count
            &&& t.processing_duration_sum_us == p.sum_us
            &&& t.processing_duration_max_us == p.max_us
            &&& t.processing_duration_buckets == p.buckets
            &&& t.publication_to_available_count == s.publication_to_available_count
        }),
{
}

} // verus!
