//! Runtime RDMA stats exposed through `/sra/rdma/stats`.

use vstd::prelude::*;

use crate::json;

verus! {

/// The counters of an RDMA buffer pool.
#[derive(Clone, Copy, Debug, PartialEq, Eq, Structural)]
pub struct BufferPoolStats {
    pub total_slots: u64,
    pub free_slots: u64,
    pub allocated_slots: u64,
    pub total_allocations: u64,
    pub exhausted_events: u64,
    pub wait_events: u64,
    pub wait_timeout_events: u64,
    pub wait_total_micros: u64,
    pub request_slot_observations: u64,
    pub request_slots_total: u64,
    pub request_slots_max: u64,
    pub quarantined_slots_total: u64,
}

/// The counters of a pool, each under its name.
pub open spec fn buffer_pool_stats(stats: BufferPoolStats) -> json::Json {
    json::Json::Object(
        map![
            "total_slots"@ => json::Json::Number(stats.total_slots as nat),
            "free_slots"@ => json::Json::Number(stats.free_slots as nat),
            "allocated_slots"@ => json::Json::Number(stats.allocated_slots as nat),
            "total_allocations"@ => json::Json::Number(stats.total_allocations as nat),
            "exhausted_events"@ => json::Json::Number(stats.exhausted_events as nat),
            "wait_events"@ => json::Json::Number(stats.wait_events as nat),
            "wait_timeout_events"@ => json::Json::Number(stats.wait_timeout_events as nat),
            "wait_total_micros"@ => json::Json::Number(stats.wait_total_micros as nat),
            "request_slot_observations"@ => json::Json::Number(stats.request_slot_observations as nat),
            "request_slots_total"@ => json::Json::Number(stats.request_slots_total as nat),
            "request_slots_max"@ => json::Json::Number(stats.request_slots_max as nat),
            "quarantined_slots_total"@ => json::Json::Number(stats.quarantined_slots_total as nat),
        ],
    )
}

/// The report on the listener's pool, if there is one.
pub open spec fn rdma_stats(pool: Option<BufferPoolStats>) -> json::Json {
    json::Json::Object(
        map![
            "schema_version"@ => json::Json::Number(1),
            "service"@ => json::Json::Text("weed-volume"@),
            "kind"@ => json::Json::Text("rdma_listener"@),
            "available"@ => json::Json::Bool(pool is Some),
            "transport"@ => match pool {
                Some(_) => json::Json::Text("rc"@),
                None => json::Json::Null,
            },
            "buffer_pool"@ => match pool {
                Some(stats) => buffer_pool_stats(stats),
                None => json::Json::Null,
            },
        ],
    )
}

/// The counters of a pool, as JSON.
pub fn buffer_pool_stats_json(stats: BufferPoolStats) -> (value: serde_json::Value)
    ensures
        json::json_of(value) == buffer_pool_stats(stats),
{
    let mut members = json::no_members();
    json::put(&mut members, "total_slots", json::number(stats.total_slots));
    json::put(&mut members, "free_slots", json::number(stats.free_slots));
    json::put(&mut members, "allocated_slots", json::number(stats.allocated_slots));
    json::put(&mut members, "total_allocations", json::number(stats.total_allocations));
    json::put(&mut members, "exhausted_events", json::number(stats.exhausted_events));
    json::put(&mut members, "wait_events", json::number(stats.wait_events));
    json::put(&mut members, "wait_timeout_events", json::number(stats.wait_timeout_events));
    json::put(&mut members, "wait_total_micros", json::number(stats.wait_total_micros));
    json::put(&mut members, "request_slot_observations", json::number(stats.request_slot_observations));
    json::put(&mut members, "request_slots_total", json::number(stats.request_slots_total));
    json::put(&mut members, "request_slots_max", json::number(stats.request_slots_max));
    json::put(&mut members, "quarantined_slots_total", json::number(stats.quarantined_slots_total));
    json::object(members)
}

/// The report on the listener's pool, if there is one, as JSON.
pub fn rdma_stats_json(pool: Option<BufferPoolStats>) -> (value: serde_json::Value)
    ensures
        json::json_of(value) == rdma_stats(pool),
{
    let mut members = json::no_members();
    json::put(&mut members, "schema_version", json::number(1));
    json::put(&mut members, "service", json::text("weed-volume"));
    json::put(&mut members, "kind", json::text("rdma_listener"));
    match pool {
        Some(stats) => {
            json::put(&mut members, "available", json::truth(true));
            json::put(&mut members, "transport", json::text("rc"));
            json::put(&mut members, "buffer_pool", buffer_pool_stats_json(stats));
        },
        None => {
            json::put(&mut members, "available", json::truth(false));
            json::put(&mut members, "transport", json::null());
            json::put(&mut members, "buffer_pool", json::null());
        },
    }
    json::object(members)
}

} // verus!
