use crate::named_map::NamedMap;
use vstd::prelude::*;

verus! {

/// Counters of served requests at one moment.
#[derive(Debug)]
pub struct MetricsSnapshot {
    pub requests_total: u64,
    pub requests_duration_ms: u64,
    pub active_connections: u64,
    pub bytes_sent: u64,
    pub bytes_received: u64,
    /// Status code and count, in first-seen order.
    pub status_codes: Vec<(u16, u64)>,
    /// Method name to count.
    pub methods: NamedMap<u64>,
}

} // verus!
