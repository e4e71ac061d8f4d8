//! One sample of the whole system.
use vstd::prelude::*;

use crate::cpu::CpuSnapshot;
use crate::memory::MemoryInfo;
use crate::uptime;

verus! {

/// What one refresh shows: the system and CPU names, the uptime and load
/// average as display text, memory, and the CPU counters (the whole machine
/// first, then each core).
pub struct SystemSnapshot {
    pub system_name: String,
    pub cpu_name: String,
    pub uptime: String,
    pub loadavg: String,
    pub memory: MemoryInfo,
    pub cpu: Vec<CpuSnapshot>,
}

/// Puts one sample together, writing the uptime as days, hours, minutes and
/// seconds.
pub fn collect_snapshot(
    system_name: String,
    cpu_name: String,
    uptime_seconds: u64,
    loadavg: String,
    memory: MemoryInfo,
    cpu: Vec<CpuSnapshot>,
) -> (r: SystemSnapshot)
    ensures
        r.system_name == system_name,
        r.cpu_name == cpu_name,
        r.uptime@ == uptime::uptime_text(uptime_seconds as nat),
        uptime::reads_back(r.uptime@, uptime_seconds as nat),
        r.loadavg == loadavg,
        r.memory == memory,
        r.cpu == cpu,
{
    SystemSnapshot {
        system_name,
        cpu_name,
        uptime: uptime::format_uptime(uptime_seconds),
        loadavg,
        memory,
        cpu,
    }
}

} // verus!
