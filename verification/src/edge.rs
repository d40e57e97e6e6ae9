//! The load of a node's edge: readers, responses and how long they took.

use vstd::prelude::*;
use vstd::string::*;
use std::collections::VecDeque;
use crate::histogram::{
    histogram_percentile_upper_bound_us, lemma_first_reaching_bound, percentile_bound,
    percentile_rank, whole_us, wrapped_sum, wrapping_sum, AtomicDurationHistogram,
};
use crate::mesh::MeshNode;
use crate::text::{copy_text, view_of, view_of_str};

verus! {

/// How many responses are remembered.
pub const EDGE_RECENT_RESPONSE_LIMIT: usize = 32;

/// A response of the edge.
#[derive(Debug)]
pub struct EdgeResponseSnapshot {
    pub unix_ms: u64,
    pub method: String,
    pub path: String,
    pub query: Option<String>,
    pub status: u16,
    pub bytes: u64,
    pub duration_us: u64,
    pub content_type: Option<String>,
}

impl EdgeResponseSnapshot {
    /// Another copy of the response.
    pub fn copy(&self) -> (r: Self)
        ensures
            r == *self,
    {
        EdgeResponseSnapshot {
            unix_ms: self.unix_ms,
            method: self.method.clone(),
            path: self.path.clone(),
            query: copy_text(&self.query),
            status: self.status,
            bytes: self.bytes,
            duration_us: self.duration_us,
            content_type: copy_text(&self.content_type),
        }
    }
}

/// The edge of a node.
#[derive(Debug)]
pub struct EdgeServiceSnapshot {
    pub node_id: String,
    pub region: String,
    pub continent: String,
    pub playback_base_url: Option<String>,
    pub active_readers: u64,
    pub requests_served: u64,
    pub bytes_served: u64,
    pub llhls_tail_requests: u64,
    pub responses_total: u64,
    pub response_errors: u64,
    pub response_not_found: u64,
    pub last_response_unix_ms: Option<u64>,
    pub response_duration_count: u64,
    pub response_duration_sum_us: u64,
    pub response_duration_p95_us: Option<u64>,
    pub response_duration_buckets: Vec<u64>,
    pub recent_responses: Vec<EdgeResponseSnapshot>,
    pub draining: bool,
}

impl EdgeServiceSnapshot {
    /// Whether this is the edge of a node that tells nothing of it.
    pub open spec fn is_fallback(self, node: MeshNode) -> bool {
        &&& self.node_id == node.node_id
        &&& self.region == node.region
        &&& self.continent == node.continent
        &&& self.playback_base_url is None
        &&& self.active_readers == 0
        &&& self.requests_served == 0
        &&& self.bytes_served == 0
        &&& self.llhls_tail_requests == 0
        &&& self.responses_total == 0
        &&& self.response_errors == 0
        &&& self.response_not_found == 0
        &&& self.last_response_unix_ms is None
        &&& self.response_duration_count == 0
        &&& self.response_duration_sum_us == 0
        &&& self.response_duration_p95_us is None
        &&& self.response_duration_buckets@.len() == 0
        &&& self.recent_responses@.len() == 0
        &&& self.draining == node.draining
    }

    /// The edge of a node that tells nothing of it.
    pub fn fallback_for_node(node: &MeshNode) -> (r: Self)
        ensures
            r.is_fallback(*node),
    {
        EdgeServiceSnapshot {
            node_id: node.node_id.clone(),
            region: node.region.clone(),
            continent: node.continent.clone(),
            playback_base_url: None,
            active_readers: 0,
            requests_served: 0,
            bytes_served: 0,
            llhls_tail_requests: 0,
            responses_total: 0,
            response_errors: 0,
            response_not_found: 0,
            last_response_unix_ms: None,
            response_duration_count: 0,
            response_duration_sum_us: 0,
            response_duration_p95_us: None,
            response_duration_buckets: Vec::new(),
            recent_responses: Vec::new(),
            draining: node.draining,
        }
    }
}

/// The load of the edge.
#[derive(Debug)]
pub struct EdgeLoad {
    pub active_readers: u64,
    pub requests_served: u64,
    pub bytes_served: u64,
    pub llhls_tail_requests: u64,
    pub responses_total: u64,
    pub response_errors: u64,
    pub response_not_found: u64,
    pub last_response_unix_ms: u64,
    pub response_duration: AtomicDurationHistogram,
    /// The latest responses, the latest first.
    pub recent_responses: VecDeque<EdgeResponseSnapshot>,
}

/// A reader that has begun and not ended.
#[derive(Debug)]
pub struct EdgeReadGuard {
    pub llhls_tail: bool,
}

/// A response as the edge sees it.
#[derive(Debug)]
pub struct EdgeResponse {
    pub status: u16,
    pub body_bytes: Option<usize>,
    pub content_type: Option<String>,
}

/// A counter with one less, which wraps around below zero.
pub open spec fn wrapped_minus_one(a: u64) -> u64 {
    if a == 0 {
        u64::MAX
    } else {
        (a - 1) as u64
    }
}

impl EdgeLoad {
    /// No load.
    pub fn new() -> (r: Self)
        ensures
            r.active_readers == 0 && r.requests_served == 0 && r.bytes_served == 0,
            r.llhls_tail_requests == 0 && r.responses_total == 0 && r.response_errors == 0,
            r.response_not_found == 0 && r.last_response_unix_ms == 0,
            r.response_duration.count == 0 && r.response_duration.sum_us == 0
                && r.response_duration.max_us == 0,
            forall|i: int| 0 <= i < 13 ==> #[trigger] r.response_duration.buckets@[i] == 0,
            r.recent_responses@.len() == 0,
    {
        EdgeLoad {
            active_readers: 0,
            requests_served: 0,
            bytes_served: 0,
            llhls_tail_requests: 0,
            responses_total: 0,
            response_errors: 0,
            response_not_found: 0,
            last_response_unix_ms: 0,
            response_duration: AtomicDurationHistogram::default(),
            recent_responses: VecDeque::new(),
        }
    }

    /// Begins a read.
    pub fn begin_read(&mut self, llhls_tail: bool) -> (r: EdgeReadGuard)
        ensures
            r.llhls_tail == llhls_tail,
            *final(self) == (EdgeLoad {
                active_readers: wrapped_sum(old(self).active_readers, 1),
                requests_served: wrapped_sum(old(self).requests_served, 1),
                llhls_tail_requests: if llhls_tail {
                    wrapped_sum(old(self).llhls_tail_requests, 1)
                } else {
                    old(self).llhls_tail_requests
                },
                ..*old(self)
            }),
    {
        self.active_readers = wrapping_sum(self.active_readers, 1);
        self.requests_served = wrapping_sum(self.requests_served, 1);
        if llhls_tail {
            self.llhls_tail_requests = wrapping_sum(self.llhls_tail_requests, 1);
        }
        EdgeReadGuard { llhls_tail }
    }

    fn end_read(&mut self)
        ensures
            *final(self) == (EdgeLoad {
                active_readers: wrapped_minus_one(old(self).active_readers),
                ..*old(self)
            }),
    {
        self.active_readers = if self.active_readers == 0 {
            u64::MAX
        } else {
            self.active_readers - 1
        };
    }

    /// The edge of a node, with the load of it.
    pub fn snapshot(&self, node: &MeshNode, playback_base_url: Option<String>) -> (r:
        EdgeServiceSnapshot)
        ensures
            r.node_id == node.node_id,
            r.region == node.region,
            r.continent == node.continent,
            r.playback_base_url == playback_base_url,
            r.active_readers == self.active_readers,
            r.requests_served == self.requests_served,
            r.bytes_served == self.bytes_served,
            r.llhls_tail_requests == self.llhls_tail_requests,
            r.responses_total == self.responses_total,
            r.response_errors == self.response_errors,
            r.response_not_found == self.response_not_found,
            r.last_response_unix_ms == (if self.last_response_unix_ms == 0 {
                None
            } else {
                Some(self.last_response_unix_ms)
            }),
            r.response_duration_count == self.response_duration.count,
            r.response_duration_sum_us == self.response_duration.sum_us,
            r.response_duration_p95_us == percentile_bound(
                self.response_duration.count,
                self.response_duration.buckets@,
                95,
                self.response_duration.max_us,
            ),
            r.response_duration_buckets@ == self.response_duration.buckets@,
            r.recent_responses@ == self.recent_responses@,
            r.draining == node.draining,
    {
        let mut recent: Vec<EdgeResponseSnapshot> = Vec::new();
        let mut i: usize = 0;
        while i < self.recent_responses.len()
            invariant
                i <= self.recent_responses@.len(),
                recent@ == self.recent_responses@.take(i as int),
            decreases self.recent_responses@.len() - i,
        {
            recent.push(self.recent_responses[i].copy());
            proof {
                assert(recent@ =~= self.recent_responses@.take(i + 1));
            }
            i = i + 1;
        }
        proof {
            assert(self.recent_responses@.take(i as int) =~= self.recent_responses@);
        }
        let mut buckets: Vec<u64> = Vec::new();
        let mut k: usize = 0;
        while k < 13
            invariant
                k <= 13,
                buckets@ == self.response_duration.buckets@.take(k as int),
            decreases 13 - k,
        {
            buckets.push(self.response_duration.buckets[k]);
            proof {
                assert(buckets@ =~= self.response_duration.buckets@.take(k + 1));
            }
            k = k + 1;
        }
        proof {
            assert(buckets@ =~= self.response_duration.buckets@);
            lemma_first_reaching_bound(
                buckets@,
                percentile_rank(self.response_duration.count, 95),
            );
        }
        let p95 = histogram_percentile_upper_bound_us(
            self.response_duration.count,
            buckets.as_slice(),
            95,
            self.response_duration.max_us,
        );
        EdgeServiceSnapshot {
            node_id: node.node_id.clone(),
            region: node.region.clone(),
            continent: node.continent.clone(),
            playback_base_url,
            active_readers: self.active_readers,
            requests_served: self.requests_served,
            bytes_served: self.bytes_served,
            llhls_tail_requests: self.llhls_tail_requests,
            responses_total: self.responses_total,
            response_errors: self.response_errors,
            response_not_found: self.response_not_found,
            last_response_unix_ms: if self.last_response_unix_ms == 0 {
                None
            } else {
                Some(self.last_response_unix_ms)
            },
            response_duration_count: self.response_duration.count,
            response_duration_sum_us: self.response_duration.sum_us,
            response_duration_p95_us: p95,
            response_duration_buckets: buckets,
            recent_responses: recent,
            draining: node.draining,
        }
    }

    /// Whether this is the load after a response of a status was sent.
    pub open spec fn responded(
        self,
        before: EdgeLoad,
        status: u16,
        duration_us: u64,
        now_ms: u64,
    ) -> bool {
        &&& self.responses_total == wrapped_sum(before.responses_total, 1)
        &&& self.response_errors == wrapped_sum(
            before.response_errors,
            if 400 <= status < 600 {
                1
            } else {
                0
            },
        )
        &&& self.response_not_found == wrapped_sum(
            before.response_not_found,
            if status == 404 {
                1
            } else {
                0
            },
        )
        &&& self.last_response_unix_ms == now_ms
        &&& self.response_duration.counted(before.response_duration, duration_us)
        &&& self.recent_responses@.len() > 0 && self.recent_responses@[0].status == status
            && self.recent_responses@[0].unix_ms == now_ms
        &&& self.recent_responses@.skip(1) == (if before.recent_responses@.len()
            == EDGE_RECENT_RESPONSE_LIMIT {
            before.recent_responses@.drop_last()
        } else {
            before.recent_responses@
        })
    }

    /// Counts a response, and remembers it before the others; the oldest makes room.
    pub fn record_response(
        &mut self,
        method: &str,
        path: &str,
        query: Option<&str>,
        response: &EdgeResponse,
        duration_ns: u128,
        now_ms: u64,
    )
        requires
            old(self).recent_responses@.len() <= EDGE_RECENT_RESPONSE_LIMIT,
        ensures
            final(self).recent_responses@.len() <= EDGE_RECENT_RESPONSE_LIMIT,
            final(self).active_readers == old(self).active_readers,
            final(self).requests_served == old(self).requests_served,
            final(self).bytes_served == old(self).bytes_served,
            final(self).llhls_tail_requests == old(self).llhls_tail_requests,
            final(self).responses_total == wrapped_sum(old(self).responses_total, 1),
            final(self).response_errors == (if 400 <= response.status < 600 {
                wrapped_sum(old(self).response_errors, 1)
            } else {
                old(self).response_errors
            }),
            final(self).response_not_found == (if response.status == 404 {
                wrapped_sum(old(self).response_not_found, 1)
            } else {
                old(self).response_not_found
            }),
            final(self).last_response_unix_ms == now_ms,
            final(self).response_duration.counted(
                old(self).response_duration,
                whole_us(duration_ns),
            ),
            ({
                let latest = final(self).recent_responses@[0];
                let earlier = old(self).recent_responses@;
                &&& latest.unix_ms == now_ms
                &&& latest.method@ == method@
                &&& latest.path@ == path@
                &&& view_of(latest.query) == view_of_str(query)
                &&& latest.status == response.status
                &&& latest.bytes == (match response.body_bytes {
                    Some(bytes) => bytes as u64,
                    None => 0,
                })
                &&& latest.duration_us == whole_us(duration_ns)
                &&& latest.content_type == response.content_type
                &&& final(self).recent_responses@.skip(1) == (if earlier.len()
                    == EDGE_RECENT_RESPONSE_LIMIT {
                    earlier.drop_last()
                } else {
                    earlier
                })
            }),
            final(self).responded(*old(self), response.status, whole_us(duration_ns), now_ms),
    {
        let ghost earlier = self.recent_responses@;
        let duration_us: u64 = self.response_duration.record(duration_ns);
        self.responses_total = wrapping_sum(self.responses_total, 1);
        if response.status >= 400 && response.status < 600 {
            self.response_errors = wrapping_sum(self.response_errors, 1);
        }
        if response.status == 404 {
            self.response_not_found = wrapping_sum(self.response_not_found, 1);
        }
        self.last_response_unix_ms = now_ms;
        let bytes: u64 = match response.body_bytes {
            Some(bytes) => bytes as u64,
            None => 0,
        };
        let query = match query {
            Some(text) => Some(text.to_owned()),
            None => None,
        };
        self.recent_responses.push_front(
            EdgeResponseSnapshot {
                unix_ms: now_ms,
                method: method.to_owned(),
                path: path.to_owned(),
                query,
                status: response.status,
                bytes,
                duration_us,
                content_type: copy_text(&response.content_type),
            },
        );
        proof {
            assert(self.recent_responses@.skip(1) =~= earlier);
        }
        if self.recent_responses.len() > EDGE_RECENT_RESPONSE_LIMIT {
            let _ = self.recent_responses.pop_back();
            proof {
                assert(self.recent_responses@.skip(1) =~= earlier.drop_last());
            }
        }
    }
}

impl EdgeReadGuard {
    /// Ends a read that served bytes.
    pub fn finish(self, load: &mut EdgeLoad, bytes_served: usize)
        ensures
            *final(load) == (EdgeLoad {
                bytes_served: wrapped_sum(old(load).bytes_served, bytes_served as u64),
                active_readers: wrapped_minus_one(old(load).active_readers),
                ..*old(load)
            }),
    {
        load.bytes_served = wrapping_sum(load.bytes_served, bytes_served as u64);
        load.end_read();
    }

    /// Ends a read that served nothing.
    pub fn abandon(self, load: &mut EdgeLoad)
        ensures
            *final(load) == (EdgeLoad {
                active_readers: wrapped_minus_one(old(load).active_readers),
                ..*old(load)
            }),
    {
        load.end_read();
    }
}

/// A read that has begun and ended leaves no reader behind.
pub proof fn reads_balance(readers: u64)
    ensures
        wrapped_minus_one(wrapped_sum(readers, 1)) == readers,
{
}

/// Whether the responses to a path are counted: those of live playback.
pub fn counts_response(path: &str) -> (r: bool)
    ensures
        r == crate::text::has_prefix(path@, "/live/"@),
{
    crate::text::starts_with(path, "/live/")
}

/// A response is counted once, as an error where its status is between 400 and 600 and as not found
/// where it is 404, and stands before the earlier ones, of which no more than 31 stay.
pub proof fn responses_are_counted_by_their_status(
    before: EdgeLoad,
    after: EdgeLoad,
    status: u16,
    duration_us: u64,
    now_ms: u64,
)
    requires
        after.responded(before, status, duration_us, now_ms),
        before.recent_responses@.len() <= 32,
        before.responses_total < u64::MAX,
        before.response_errors < u64::MAX,
        before.response_not_found < u64::MAX,
    ensures
        after.responses_total == before.responses_total + 1,
        400 <= status < 600 ==> after.response_errors == before.response_errors + 1,
        status < 400 || status >= 600 ==> after.response_errors == before.response_errors,
        status == 404 ==> after.response_not_found == before.response_not_found + 1,
        status != 404 ==> after.response_not_found == before.response_not_found,
        after.last_response_unix_ms == now_ms,
        after.recent_responses@[0].status == status,
        after.recent_responses@[0].unix_ms == now_ms,
        after.recent_responses@.len() == (if before.recent_responses@.len() < 32 {
            before.recent_responses@.len() + 1
        } else {
            32
        }),
        forall|i: int|
            0 <= i < after.recent_responses@.len() - 1 ==> after.recent_responses@[i + 1]
                == #[trigger] before.recent_responses@[i],
{
    let rest = after.recent_responses@.skip(1);
    assert(rest.len() == after.recent_responses@.len() - 1);
    assert forall|i: int| 0 <= i < rest.len() implies after.recent_responses@[i + 1]
        == #[trigger] before.recent_responses@[i] by {
        assert(rest[i] == after.recent_responses@[i + 1]);
    }
}

} // verus!
