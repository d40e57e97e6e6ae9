//! Duration histograms with fixed bounds, whose counters wrap like machine counters.

use vstd::prelude::*;
use crate::media::ObjectKind;

verus! {

pub const EDGE_RESPONSE_DURATION_BUCKETS_US: [u64; 13] = [
    100,
    250,
    500,
    1_000,
    2_500,
    5_000,
    10_000,
    25_000,
    50_000,
    100_000,
    250_000,
    500_000,
    1_000_000,
];

pub const PUBLICATION_AVAILABILITY_BUCKETS_US: [u64; 16] = [
    1_000,
    2_500,
    5_000,
    10_000,
    25_000,
    50_000,
    75_000,
    100_000,
    125_000,
    150_000,
    175_000,
    200_000,
    250_000,
    500_000,
    1_000_000,
    2_000_000,
];

/// The sum of two counters, which wraps around at the largest number.
pub open spec fn wrapped_sum(a: u64, b: u64) -> u64 {
    ((a + b) % 0x1_0000_0000_0000_0000) as u64
}

/// The sum of two counters, which wraps around at the largest number.
pub fn wrapping_sum(a: u64, b: u64) -> (r: u64)
    ensures
        r == wrapped_sum(a, b),
{
    a.wrapping_add(b)
}

/// Takes an amount off a counter, down to zero at most.
pub fn atomic_saturating_sub(value: &mut u64, amount: u64)
    ensures
        *final(value) == (if *old(value) >= amount {
            (*old(value) - amount) as u64
        } else {
            0
        }),
{
    *value = (*value).saturating_sub(amount);
}

/// A number of nanoseconds in whole microseconds, or the largest number where it does not fit.
pub open spec fn whole_us(duration_ns: u128) -> u64 {
    if duration_ns / 1_000 > u64::MAX {
        u64::MAX
    } else {
        (duration_ns / 1_000) as u64
    }
}

/// A number of nanoseconds in whole milliseconds, or the largest number where it does not fit.
pub open spec fn whole_ms(duration_ns: u128) -> u64 {
    if duration_ns / 1_000_000 > u64::MAX {
        u64::MAX
    } else {
        (duration_ns / 1_000_000) as u64
    }
}

/// A number of nanoseconds in whole microseconds.
pub fn duration_us(duration_ns: u128) -> (r: u64)
    ensures
        r == whole_us(duration_ns),
{
    let us: u128 = duration_ns / 1_000;
    if us > u64::MAX as u128 {
        u64::MAX
    } else {
        us as u64
    }
}

/// A number of nanoseconds in whole milliseconds.
pub fn duration_ms(duration_ns: u128) -> (r: u64)
    ensures
        r == whole_ms(duration_ns),
{
    let ms: u128 = duration_ns / 1_000_000;
    if ms > u64::MAX as u128 {
        u64::MAX
    } else {
        ms as u64
    }
}

/// A bucket after a duration was counted.
pub open spec fn counted_bucket(before: u64, bound_us: u64, duration_us: u64) -> u64 {
    if duration_us <= bound_us {
        wrapped_sum(before, 1)
    } else {
        before
    }
}

/// The durations of responses and of relay work.
#[derive(Clone, Copy, Debug)]
pub struct AtomicDurationHistogram {
    pub count: u64,
    pub sum_us: u64,
    pub max_us: u64,
    pub buckets: [u64; 13],
}

/// The durations between publication and availability.
#[derive(Clone, Copy, Debug)]
pub struct AtomicPublicationDurationHistogram {
    pub count: u64,
    pub sum_us: u64,
    pub max_us: u64,
    pub buckets: [u64; 16],
}

impl Default for AtomicDurationHistogram {
    fn default() -> (r: Self)
        ensures
            r.count == 0 && r.sum_us == 0 && r.max_us == 0,
            forall|i: int| 0 <= i < 13 ==> #[trigger] r.buckets@[i] == 0,
    {
        AtomicDurationHistogram { count: 0, sum_us: 0, max_us: 0, buckets: [0; 13] }
    }
}

impl Default for AtomicPublicationDurationHistogram {
    fn default() -> (r: Self)
        ensures
            r.count == 0 && r.sum_us == 0 && r.max_us == 0,
            forall|i: int| 0 <= i < 16 ==> #[trigger] r.buckets@[i] == 0,
    {
        AtomicPublicationDurationHistogram { count: 0, sum_us: 0, max_us: 0, buckets: [0; 16] }
    }
}

impl AtomicDurationHistogram {
    /// Whether each bucket counts at least what the one before it counts, and none counts more
    /// than all.
    pub open spec fn cumulative(self) -> bool {
        &&& forall|i: int, j: int|
            0 <= i <= j < 13 ==> #[trigger] self.buckets@[i] <= #[trigger] self.buckets@[j]
        &&& forall|i: int| 0 <= i < 13 ==> #[trigger] self.buckets@[i] <= self.count
    }

    /// Whether one histogram is another with one more duration.
    pub open spec fn counted(self, before: Self, duration_us: u64) -> bool {
        &&& self.count == wrapped_sum(before.count, 1)
        &&& self.sum_us == wrapped_sum(before.sum_us, duration_us)
        &&& self.max_us == (if duration_us > before.max_us {
            duration_us
        } else {
            before.max_us
        })
        &&& forall|i: int|
            0 <= i < 13 ==> #[trigger] self.buckets@[i] == counted_bucket(
                before.buckets@[i],
                EDGE_RESPONSE_DURATION_BUCKETS_US@[i],
                duration_us,
            )
    }

    /// Counts a duration, and returns it in microseconds.
    pub fn record(&mut self, duration_ns: u128) -> (r: u64)
        ensures
            r == whole_us(duration_ns),
            final(self).counted(*old(self), r),
    {
        let us: u64 = duration_us(duration_ns);
        self.record_us(us);
        us
    }

    /// Counts a duration.
    pub fn record_us(&mut self, duration_us: u64)
        ensures
            final(self).counted(*old(self), duration_us),
    {
        self.count = wrapping_sum(self.count, 1);
        self.sum_us = wrapping_sum(self.sum_us, duration_us);
        if duration_us > self.max_us {
            self.max_us = duration_us;
        }
        let bounds = EDGE_RESPONSE_DURATION_BUCKETS_US;
        let ghost done = *self;
        let mut i: usize = 0;
        while i < 13
            invariant
                i <= 13,
                bounds == EDGE_RESPONSE_DURATION_BUCKETS_US,
                self.count == done.count,
                self.sum_us == done.sum_us,
                self.max_us == done.max_us,
                done.buckets == old(self).buckets,
                forall|j: int|
                    0 <= j < i ==> #[trigger] self.buckets@[j] == counted_bucket(
                        done.buckets@[j],
                        bounds@[j],
                        duration_us,
                    ),
                forall|j: int| i <= j < 13 ==> #[trigger] self.buckets@[j] == done.buckets@[j],
            decreases 13 - i,
        {
            if duration_us <= bounds[i] {
                self.buckets[i] = wrapping_sum(self.buckets[i], 1);
            }
            i = i + 1;
        }
    }
}

impl AtomicPublicationDurationHistogram {
    /// Whether each bucket counts at least what the one before it counts, and none counts more
    /// than all.
    pub open spec fn cumulative(self) -> bool {
        &&& forall|i: int, j: int|
            0 <= i <= j < 16 ==> #[trigger] self.buckets@[i] <= #[trigger] self.buckets@[j]
        &&& forall|i: int| 0 <= i < 16 ==> #[trigger] self.buckets@[i] <= self.count
    }

    /// Whether one histogram is another with one more duration.
    pub open spec fn counted(self, before: Self, duration_us: u64) -> bool {
        &&& self.count == wrapped_sum(before.count, 1)
        &&& self.sum_us == wrapped_sum(before.sum_us, duration_us)
        &&& self.max_us == (if duration_us > before.max_us {
            duration_us
        } else {
            before.max_us
        })
        &&& forall|i: int|
            0 <= i < 16 ==> #[trigger] self.buckets@[i] == counted_bucket(
                before.buckets@[i],
                PUBLICATION_AVAILABILITY_BUCKETS_US@[i],
                duration_us,
            )
    }

    /// Counts a duration.
    pub fn record_us(&mut self, duration_us: u64)
        ensures
            final(self).counted(*old(self), duration_us),
    {
        self.count = wrapping_sum(self.count, 1);
        self.sum_us = wrapping_sum(self.sum_us, duration_us);
        if duration_us > self.max_us {
            self.max_us = duration_us;
        }
        let bounds = PUBLICATION_AVAILABILITY_BUCKETS_US;
        let ghost done = *self;
        let mut i: usize = 0;
        while i < 16
            invariant
                i <= 16,
                bounds == PUBLICATION_AVAILABILITY_BUCKETS_US,
                self.count == done.count,
                self.sum_us == done.sum_us,
                self.max_us == done.max_us,
                done.buckets == old(self).buckets,
                forall|j: int|
                    0 <= j < i ==> #[trigger] self.buckets@[j] == counted_bucket(
                        done.buckets@[j],
                        bounds@[j],
                        duration_us,
                    ),
                forall|j: int| i <= j < 16 ==> #[trigger] self.buckets@[j] == done.buckets@[j],
            decreases 16 - i,
        {
            if duration_us <= bounds[i] {
                self.buckets[i] = wrapping_sum(self.buckets[i], 1);
            }
            i = i + 1;
        }
    }
}

/// Counting a duration keeps the buckets of a histogram cumulative, as long as its count has
/// room for one more.
pub proof fn counting_keeps_buckets_cumulative(
    before: AtomicDurationHistogram,
    after: AtomicDurationHistogram,
    duration_us: u64,
)
    requires
        before.cumulative(),
        after.counted(before, duration_us),
        before.count < u64::MAX,
    ensures
        after.cumulative(),
{
    let bounds = EDGE_RESPONSE_DURATION_BUCKETS_US@;
    assert(bounds =~= seq![
        100u64,
        250,
        500,
        1_000,
        2_500,
        5_000,
        10_000,
        25_000,
        50_000,
        100_000,
        250_000,
        500_000,
        1_000_000,
    ]);
    assert forall|i: int, j: int| 0 <= i <= j < 13 implies #[trigger] after.buckets@[i]
        <= #[trigger] after.buckets@[j] by {
        assert(before.buckets@[i] <= before.buckets@[j] <= before.count);
        assert(bounds[i] <= bounds[j]);
    }
}

/// The same holds of the histogram of publication delays.
pub proof fn counting_keeps_publication_buckets_cumulative(
    before: AtomicPublicationDurationHistogram,
    after: AtomicPublicationDurationHistogram,
    duration_us: u64,
)
    requires
        before.cumulative(),
        after.counted(before, duration_us),
        before.count < u64::MAX,
    ensures
        after.cumulative(),
{
    let bounds = PUBLICATION_AVAILABILITY_BUCKETS_US@;
    assert(bounds =~= seq![
        1_000u64,
        2_500,
        5_000,
        10_000,
        25_000,
        50_000,
        75_000,
        100_000,
        125_000,
        150_000,
        175_000,
        200_000,
        250_000,
        500_000,
        1_000_000,
        2_000_000,
    ]);
    assert forall|i: int, j: int| 0 <= i <= j < 16 implies #[trigger] after.buckets@[i]
        <= #[trigger] after.buckets@[j] by {
        assert(before.buckets@[i] <= before.buckets@[j] <= before.count);
        assert(bounds[i] <= bounds[j]);
    }
}

/// The position of the first bucket that counts at least `rank`, or their number.
pub open spec fn first_reaching(buckets: Seq<u64>, rank: u64) -> int
    decreases buckets.len(),
{
    if buckets.len() == 0 || buckets[0] >= rank {
        0
    } else {
        1 + first_reaching(buckets.skip(1), rank)
    }
}

/// The rank of a percentile among `count` values.
pub open spec fn percentile_rank(count: u64, percentile: u64) -> u64 {
    let scaled: int = if count * percentile > u64::MAX {
        u64::MAX as int
    } else {
        count * percentile
    };
    let rounded: int = if scaled + 99 > u64::MAX {
        u64::MAX as int
    } else {
        scaled + 99
    };
    (rounded / 100) as u64
}

/// The upper bound of a percentile: the bound of the first bucket that reaches its rank, or
/// the largest duration where none does.
pub open spec fn percentile_bound(
    count: u64,
    buckets: Seq<u64>,
    percentile: u64,
    max_us: u64,
) -> Option<u64> {
    if count == 0 {
        None
    } else {
        let i = first_reaching(buckets, percentile_rank(count, percentile));
        if i < buckets.len() {
            Some(EDGE_RESPONSE_DURATION_BUCKETS_US@[i])
        } else {
            Some(max_us)
        }
    }
}

/// The upper bound of a percentile of a histogram.
pub fn histogram_percentile_upper_bound_us(
    count: u64,
    buckets: &[u64],
    percentile: u64,
    max_us: u64,
) -> (r: Option<u64>)
    requires
        count > 0 ==> first_reaching(buckets@, percentile_rank(count, percentile)) < 13
            || first_reaching(buckets@, percentile_rank(count, percentile)) == buckets@.len(),
    ensures
        r == percentile_bound(count, buckets@, percentile, max_us),
{
    if count == 0 {
        return None;
    }
    let scaled: u64 = match count.checked_mul(percentile) {
        Some(product) => product,
        None => u64::MAX,
    };
    let rank: u64 = scaled.saturating_add(99) / 100;
    assert(rank == percentile_rank(count, percentile));
    let bounds = EDGE_RESPONSE_DURATION_BUCKETS_US;
    let mut i: usize = 0;
    proof {
        assert(buckets@.skip(0) =~= buckets@);
    }
    while i < buckets.len()
        invariant
            count > 0,
            i <= buckets.len(),
            rank == percentile_rank(count, percentile),
            bounds == EDGE_RESPONSE_DURATION_BUCKETS_US,
            first_reaching(buckets@, rank) < 13 || first_reaching(buckets@, rank)
                == buckets@.len(),
            first_reaching(buckets@, rank) == i + first_reaching(buckets@.skip(i as int), rank),
        decreases buckets.len() - i,
    {
        if buckets[i] >= rank {
            return Some(bounds[i]);
        }
        proof {
            assert(buckets@.skip(i as int).skip(1) =~= buckets@.skip(i + 1));
        }
        i = i + 1;
    }
    Some(max_us)
}

/// A histogram of thirteen buckets is within the bounds that percentiles are read from.
pub proof fn lemma_first_reaching_bound(buckets: Seq<u64>, rank: u64)
    ensures
        0 <= first_reaching(buckets, rank) <= buckets.len(),
    decreases buckets.len(),
{
    if buckets.len() > 0 && buckets[0] < rank {
        lemma_first_reaching_bound(buckets.skip(1), rank);
    }
}

/// When an object became available, measured by the clock that published it.
#[derive(Clone, Copy, Debug, PartialEq, Eq, Structural)]
pub enum RelayAvailabilityObservation {
    Measured { duration_us: u64, clock_error_us: u64 },
    UnusableClock,
}

/// The clock of an object's publication.
#[derive(Clone, Copy, Debug, PartialEq, Eq, Structural)]
pub enum RelayPublicationClock {
    Measured { published_us: u64, clock_error_us: u64 },
    Unusable,
}

impl RelayPublicationClock {
    /// The time from publication to availability; a clock that runs ahead is of no use.
    pub open spec fn observed(self, available_at_us: u64) -> RelayAvailabilityObservation {
        match self {
            RelayPublicationClock::Measured { published_us, clock_error_us } => {
                if available_at_us >= published_us {
                    RelayAvailabilityObservation::Measured {
                        duration_us: (available_at_us - published_us) as u64,
                        clock_error_us,
                    }
                } else {
                    RelayAvailabilityObservation::UnusableClock
                }
            },
            RelayPublicationClock::Unusable => RelayAvailabilityObservation::UnusableClock,
        }
    }

    /// The time from publication to availability.
    pub fn observe(self, available_at_us: u64) -> (r: RelayAvailabilityObservation)
        ensures
            r == self.observed(available_at_us),
    {
        match self {
            RelayPublicationClock::Measured { published_us, clock_error_us } => {
                match available_at_us.checked_sub(published_us) {
                    Some(duration_us) => RelayAvailabilityObservation::Measured {
                        duration_us,
                        clock_error_us,
                    },
                    None => RelayAvailabilityObservation::UnusableClock,
                }
            },
            RelayPublicationClock::Unusable => RelayAvailabilityObservation::UnusableClock,
        }
    }
}

/// A stage of an object's way.
#[derive(Clone, Copy, Debug, PartialEq, Eq, Structural)]
pub enum Stage {
    IngressReceived,
    Normalized,
    Packaged,
    Published,
    RelayReceived,
    RelayForwarded,
    EdgeAvailable,
    PlayerPresented,
}

/// The time of a stage, by the clock that took it.
#[derive(Clone, Copy, Debug, PartialEq, Eq, Structural)]
pub struct StageTimestamp {
    pub stage: Stage,
    pub unix_time_ns: i64,
    pub maximum_error_ns: Option<u64>,
}

/// An object with the times of its stages.
#[derive(Debug)]
pub struct TimedObject {
    pub kind: ObjectKind,
    pub stage_timestamps: Vec<StageTimestamp>,
}

/// The first publication among an object's stages.
pub open spec fn publication(stages: Seq<StageTimestamp>) -> Option<StageTimestamp>
    decreases stages.len(),
{
    if stages.len() == 0 {
        None
    } else if stages[0].stage == Stage::Published {
        Some(stages[0])
    } else {
        publication(stages.skip(1))
    }
}

/// A number of nanoseconds in microseconds, rounded up.
pub open spec fn us_rounded_up(ns: u64) -> u64 {
    ((ns + 999) / 1_000) as u64
}

/// The clock of a media object's publication: usable where it was timed after the epoch by a
/// clock that states its error.
pub open spec fn publication_clock(stages: Seq<StageTimestamp>) -> RelayPublicationClock {
    match publication(stages) {
        Some(stage) => if stage.unix_time_ns >= 0 && stage.maximum_error_ns is Some {
            RelayPublicationClock::Measured {
                published_us: us_rounded_up(stage.unix_time_ns as u64),
                clock_error_us: us_rounded_up(stage.maximum_error_ns->0),
            }
        } else {
            RelayPublicationClock::Unusable
        },
        None => RelayPublicationClock::Unusable,
    }
}

fn us_round_up(ns: u64) -> (r: u64)
    ensures
        r == us_rounded_up(ns),
{
    if ns % 1_000 == 0 {
        ns / 1_000
    } else {
        ns / 1_000 + 1
    }
}

/// The clock of an object's publication; only media objects have one.
pub fn publication_clock_of(object: &TimedObject) -> (r: Option<RelayPublicationClock>)
    ensures
        r == (if object.kind == ObjectKind::Media {
            Some(publication_clock(object.stage_timestamps@))
        } else {
            None
        }),
{
    if object.kind != ObjectKind::Media {
        return None;
    }
    let stages = &object.stage_timestamps;
    let mut i: usize = 0;
    proof {
        assert(stages@.skip(0) =~= stages@);
    }
    while i < stages.len()
        invariant
            object.kind == ObjectKind::Media,
            stages@ == object.stage_timestamps@,
            i <= stages.len(),
            publication(stages@) == publication(stages@.skip(i as int)),
        decreases stages.len() - i,
    {
        proof {
            assert(stages@.skip(i as int)[0] == stages@[i as int]);
            assert(stages@.skip(i as int).skip(1) =~= stages@.skip(i + 1));
        }
        let stage = stages[i];
        if stage.stage == Stage::Published {
            if stage.unix_time_ns < 0 {
                return Some(RelayPublicationClock::Unusable);
            }
            let published_ns: u64 = stage.unix_time_ns as u64;
            return match stage.maximum_error_ns {
                Some(error_ns) => Some(
                    RelayPublicationClock::Measured {
                        published_us: us_round_up(published_ns),
                        clock_error_us: us_round_up(error_ns),
                    },
                ),
                None => Some(RelayPublicationClock::Unusable),
            };
        }
        i = i + 1;
    }
    Some(RelayPublicationClock::Unusable)
}

/// The delays between publication and availability, and the trust in their clocks.
#[derive(Clone, Copy, Debug)]
pub struct RelayAvailabilityTelemetry {
    pub duration: AtomicPublicationDurationHistogram,
    pub clock_error_max_us: u64,
    pub unusable_clock_objects: u64,
}

impl Default for RelayAvailabilityTelemetry {
    fn default() -> (r: Self)
        ensures
            r.duration.count == 0 && r.duration.sum_us == 0 && r.duration.max_us == 0,
            forall|i: int| 0 <= i < 16 ==> #[trigger] r.duration.buckets@[i] == 0,
            r.clock_error_max_us == 0,
            r.unusable_clock_objects == 0,
    {
        RelayAvailabilityTelemetry {
            duration: AtomicPublicationDurationHistogram::default(),
            clock_error_max_us: 0,
            unusable_clock_objects: 0,
        }
    }
}

impl RelayAvailabilityTelemetry {
    /// Counts an observation.
    pub fn record(&mut self, observation: RelayAvailabilityObservation)
        ensures
            match observation {
                RelayAvailabilityObservation::Measured { duration_us, clock_error_us } => {
                    &&& final(self).duration.counted(old(self).duration, duration_us)
                    &&& final(self).clock_error_max_us == (if clock_error_us > old(
                        self,
                    ).clock_error_max_us {
                        clock_error_us
                    } else {
                        old(self).clock_error_max_us
                    })
                    &&& final(self).unusable_clock_objects == old(self).unusable_clock_objects
                },
                RelayAvailabilityObservation::UnusableClock => {
                    *final(self) == (RelayAvailabilityTelemetry {
                        unusable_clock_objects: wrapped_sum(old(self).unusable_clock_objects, 1),
                        ..*old(self)
                    })
                },
            },
    {
        match observation {
            RelayAvailabilityObservation::Measured { duration_us, clock_error_us } => {
                self.duration.record_us(duration_us);
                if clock_error_us > self.clock_error_max_us {
                    self.clock_error_max_us = clock_error_us;
                }
            },
            RelayAvailabilityObservation::UnusableClock => {
                self.unusable_clock_objects = wrapping_sum(self.unusable_clock_objects, 1);
            },
        }
    }
}

/// A percentile is bounded by the first bucket that holds as many of the counted durations, and by
/// the longest duration where no bucket does; there is none before anything was counted.
pub proof fn percentiles_are_bounded_by_the_first_bucket_that_reaches_them(
    count: u64,
    buckets: Seq<u64>,
    percentile: u64,
    max_us: u64,
)
    requires
        buckets.len() <= 13,
        count * percentile + 99 <= u64::MAX,
    ensures
        percentile_bound(count, buckets, percentile, max_us) is None <==> count == 0,
        count > 0 ==> (exists|i: int|
            0 <= i < buckets.len() && (#[trigger] buckets[i]) * 100 >= count * percentile
                && percentile_bound(count, buckets, percentile, max_us) == Some(
                EDGE_RESPONSE_DURATION_BUCKETS_US@[i],
            ) && forall|j: int|
                0 <= j < i ==> (#[trigger] buckets[j]) * 100 < count * percentile) || (
        percentile_bound(count, buckets, percentile, max_us) == Some(max_us) && forall|j: int|
            0 <= j < buckets.len() ==> (#[trigger] buckets[j]) * 100 < count * percentile),
{
    let rank = percentile_rank(count, percentile);
    let scaled: int = count * percentile;
    assert(scaled >= 0) by (nonlinear_arith)
        requires
            scaled == count * percentile,
    ;
    assert(rank == (scaled + 99) / 100);
    lemma_reaching(buckets, rank);
    if count > 0 {
        let i = first_reaching(buckets, rank);
        if i < buckets.len() {
            assert(buckets[i] * 100 >= scaled);
            assert forall|j: int| 0 <= j < i implies (#[trigger] buckets[j]) * 100 < scaled by {
                assert(buckets[j] < rank);
            }
        } else {
            assert forall|j: int| 0 <= j < buckets.len() implies (#[trigger] buckets[j]) * 100
                < scaled by {
                assert(buckets[j] < rank);
            }
        }
    }
}

proof fn lemma_reaching(buckets: Seq<u64>, rank: u64)
    ensures
        0 <= first_reaching(buckets, rank) <= buckets.len(),
        first_reaching(buckets, rank) < buckets.len() ==> buckets[first_reaching(buckets, rank)]
            >= rank,
        forall|j: int| 0 <= j < first_reaching(buckets, rank) ==> (#[trigger] buckets[j]) < rank,
    decreases buckets.len(),
{
    if buckets.len() > 0 && buckets[0] < rank {
        let rest = buckets.skip(1);
        lemma_reaching(rest, rank);
        assert forall|j: int| 0 <= j < first_reaching(buckets, rank) implies (
        #[trigger] buckets[j]) < rank by {
            if j > 0 {
                assert(rest[j - 1] == buckets[j]);
            }
        }
    }
}

/// A duration is told in the whole microseconds and milliseconds that it lasted.
pub proof fn durations_are_told_in_whole_units(duration_ns: u128)
    ensures
        duration_ns < 0x1_0000_0000_0000_0000 * 1_000 ==> whole_us(duration_ns) * 1_000
            <= duration_ns < (whole_us(duration_ns) + 1) * 1_000,
        duration_ns >= 0x1_0000_0000_0000_0000 * 1_000 ==> whole_us(duration_ns) == u64::MAX,
        duration_ns < 0x1_0000_0000_0000_0000 * 1_000_000 ==> whole_ms(duration_ns) * 1_000_000
            <= duration_ns < (whole_ms(duration_ns) + 1) * 1_000_000,
        duration_ns >= 0x1_0000_0000_0000_0000 * 1_000_000 ==> whole_ms(duration_ns) == u64::MAX,
{
}

/// Each duration is counted once, added to the sum, and counted in each bucket whose bound it does
/// not exceed and in no other; the longest one is kept.
pub proof fn durations_are_counted_once(
    before: AtomicDurationHistogram,
    after: AtomicDurationHistogram,
    duration_us: u64,
    i: int,
)
    requires
        after.counted(before, duration_us),
        before.count < u64::MAX,
        before.sum_us + duration_us <= u64::MAX,
        0 <= i < 13,
        before.buckets@[i] < u64::MAX,
    ensures
        after.count == before.count + 1,
        after.sum_us == before.sum_us + duration_us,
        after.max_us >= before.max_us && after.max_us >= duration_us,
        after.max_us == before.max_us || after.max_us == duration_us,
        duration_us <= EDGE_RESPONSE_DURATION_BUCKETS_US@[i] ==> after.buckets@[i]
            == before.buckets@[i] + 1,
        duration_us > EDGE_RESPONSE_DURATION_BUCKETS_US@[i] ==> after.buckets@[i]
            == before.buckets@[i],
{
}

/// The same of the time until a publication is available.
pub proof fn availability_is_counted_once(
    before: AtomicPublicationDurationHistogram,
    after: AtomicPublicationDurationHistogram,
    duration_us: u64,
    i: int,
)
    requires
        after.counted(before, duration_us),
        before.count < u64::MAX,
        before.sum_us + duration_us <= u64::MAX,
        0 <= i < 16,
        before.buckets@[i] < u64::MAX,
    ensures
        after.count == before.count + 1,
        after.sum_us == before.sum_us + duration_us,
        after.max_us >= before.max_us && after.max_us >= duration_us,
        after.max_us == before.max_us || after.max_us == duration_us,
        duration_us <= PUBLICATION_AVAILABILITY_BUCKETS_US@[i] ==> after.buckets@[i]
            == before.buckets@[i] + 1,
        duration_us > PUBLICATION_AVAILABILITY_BUCKETS_US@[i] ==> after.buckets@[i]
            == before.buckets@[i],
{
}

/// Counters go on from nothing behind the largest number.
pub proof fn counters_wrap_around(a: u64, b: u64)
    ensures
        a + b <= u64::MAX ==> wrapped_sum(a, b) == a + b,
        a + b > u64::MAX ==> wrapped_sum(a, b) + u64::MAX + 1 == a + b,
{
}

/// The clock of an object is its first stamp of publication, rounded up to microseconds; it is
/// unusable where there is none, where it lies before the epoch or where its error is unknown.
pub proof fn clocks_are_read_from_the_first_publication(stages: Seq<StageTimestamp>)
    ensures
        match publication_clock(stages) {
            RelayPublicationClock::Measured { published_us, clock_error_us } => exists|i: int|
                0 <= i < stages.len() && (#[trigger] stages[i]).stage == Stage::Published && (
                forall|j: int| 0 <= j < i ==> (#[trigger] stages[j]).stage != Stage::Published)
                    && stages[i].unix_time_ns >= 0 && stages[i].maximum_error_ns is Some
                    && rounds_up(published_us, stages[i].unix_time_ns as int) && rounds_up(
                    clock_error_us,
                    stages[i].maximum_error_ns->0 as int,
                ),
            RelayPublicationClock::Unusable => forall|i: int|
                0 <= i < stages.len() && (#[trigger] stages[i]).stage == Stage::Published && (
                forall|j: int| 0 <= j < i ==> (#[trigger] stages[j]).stage != Stage::Published)
                    ==> stages[i].unix_time_ns < 0 || stages[i].maximum_error_ns is None,
        },
{
    lemma_publication(stages);
}

/// Whether a number of microseconds is the least that holds some nanoseconds.
pub open spec fn rounds_up(us: u64, ns: int) -> bool {
    us * 1_000 >= ns && (us - 1) * 1_000 < ns
}

proof fn lemma_publication(stages: Seq<StageTimestamp>)
    ensures
        match publication(stages) {
            Some(stage) => exists|i: int|
                0 <= i < stages.len() && (#[trigger] stages[i]).stage == Stage::Published && stage
                    == stages[i] && forall|j: int|
                    0 <= j < i ==> (#[trigger] stages[j]).stage != Stage::Published,
            None => forall|j: int|
                0 <= j < stages.len() ==> (#[trigger] stages[j]).stage != Stage::Published,
        },
    decreases stages.len(),
{
    if stages.len() > 0 {
        if stages[0].stage == Stage::Published {
            assert(publication(stages) == Some(stages[0]));
        } else {
            let rest = stages.skip(1);
            lemma_publication(rest);
            assert forall|j: int| 0 < j < stages.len() implies rest[j - 1]
                == #[trigger] stages[j] by {}
            match publication(rest) {
                Some(stage) => {
                    let i = choose|i: int|
                        0 <= i < rest.len() && (#[trigger] rest[i]).stage == Stage::Published
                            && stage == rest[i] && forall|j: int|
                            0 <= j < i ==> (#[trigger] rest[j]).stage != Stage::Published;
                    assert(stages[i + 1] == rest[i]);
                    assert forall|j: int| 0 <= j < i + 1 implies (#[trigger] stages[j]).stage
                        != Stage::Published by {
                        if j > 0 {
                            assert(rest[j - 1] == stages[j]);
                        }
                    }
                },
                None => {
                    assert forall|j: int| 0 <= j < stages.len() implies (#[trigger] stages[j]).stage
                        != Stage::Published by {
                        if j > 0 {
                            assert(rest[j - 1] == stages[j]);
                        }
                    }
                },
            }
        }
    }
}

/// What is observed of a publication is how long it took to become available, with the error of its
/// clock; nothing usable where it became available before it was published.
pub proof fn availability_is_the_time_since_publication(
    published_us: u64,
    clock_error_us: u64,
    available_at_us: u64,
)
    ensures
        ({
            let clock = RelayPublicationClock::Measured { published_us, clock_error_us };
            match clock.observed(available_at_us) {
                RelayAvailabilityObservation::Measured { duration_us, clock_error_us: e } => {
                    &&& published_us + duration_us == available_at_us
                    &&& e == clock_error_us
                },
                RelayAvailabilityObservation::UnusableClock => available_at_us < published_us,
            }
        }),
        RelayPublicationClock::Unusable.observed(available_at_us)
            == RelayAvailabilityObservation::UnusableClock,
{
}

/// The bounds of the buckets rise, so that a duration that one bucket counts is counted by all
/// behind it.
pub proof fn bounds_rise(i: int, j: int)
    ensures
        0 <= i < j < 13 ==> EDGE_RESPONSE_DURATION_BUCKETS_US@[i]
            < EDGE_RESPONSE_DURATION_BUCKETS_US@[j],
        0 <= i < j < 16 ==> PUBLICATION_AVAILABILITY_BUCKETS_US@[i]
            < PUBLICATION_AVAILABILITY_BUCKETS_US@[j],
        EDGE_RESPONSE_DURATION_BUCKETS_US@[12] == 1_000_000,
        PUBLICATION_AVAILABILITY_BUCKETS_US@[15] == 2_000_000,
{
}

} // verus!
