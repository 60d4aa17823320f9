use seaweed_volume::rdma_stats::{rdma_stats_json, BufferPoolStats};

#[test]
fn rdma_stats_json_is_stable_when_unavailable() {
    let value = rdma_stats_json(None);
    assert_eq!(value["schema_version"], 1);
    assert_eq!(value["service"], "weed-volume");
    assert_eq!(value["kind"], "rdma_listener");
    assert_eq!(value["available"], false);
    assert!(value["buffer_pool"].is_null());
}

#[test]
fn rdma_stats_json_reports_the_pool() {
    let value = rdma_stats_json(Some(BufferPoolStats {
        total_slots: 64,
        free_slots: 60,
        allocated_slots: 4,
        total_allocations: 1000,
        exhausted_events: 5,
        wait_events: 6,
        wait_timeout_events: 7,
        wait_total_micros: 8,
        request_slot_observations: 9,
        request_slots_total: 10,
        request_slots_max: u64::MAX,
        quarantined_slots_total: 12,
    }));
    assert_eq!(
        value.to_string(),
        "{\"available\":true,\"buffer_pool\":{\"allocated_slots\":4,\"exhausted_events\":5,\
         \"free_slots\":60,\"quarantined_slots_total\":12,\"request_slot_observations\":9,\
         \"request_slots_max\":18446744073709551615,\"request_slots_total\":10,\
         \"total_allocations\":1000,\"total_slots\":64,\"wait_events\":6,\
         \"wait_timeout_events\":7,\"wait_total_micros\":8},\"kind\":\"rdma_listener\",\
         \"schema_version\":1,\"service\":\"weed-volume\",\"transport\":\"rc\"}"
    );
}
