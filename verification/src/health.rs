//! The integer gauges that the health metrics report, from observed health.
use vstd::prelude::*;
use crate::lighthouse::ProcessHealth;

verus! {

/// A value for the integer gauge of the given name.
#[derive(Clone, Copy, Debug)]
pub struct IntGaugeValue {
    pub name: &'static str,
    pub value: i64,
}

/// The counters of the system's health that the integer gauges report.
#[derive(Clone, Copy, Debug, PartialEq, Eq, Structural)]
pub struct SystemHealthCounters {
    pub sys_virt_mem_total: u64,
    pub sys_virt_mem_available: u64,
    pub sys_virt_mem_used: u64,
    pub sys_virt_mem_free: u64,
    pub cpu_cores: u64,
    pub cpu_threads: u64,
    pub system_seconds_total: u64,
    pub user_seconds_total: u64,
    pub iowait_seconds_total: u64,
    pub idle_seconds_total: u64,
    pub disk_node_bytes_total: u64,
    pub disk_node_bytes_free: u64,
    pub disk_node_reads_total: u64,
    pub disk_node_writes_total: u64,
    pub network_node_bytes_total_received: u64,
    pub network_node_bytes_total_transmit: u64,
}

/// The gauges of the process's health: thread count, memory and cpu time
/// (unsigned counters taken as `i64`, as a cast does).
pub open spec fn process_gauges(h: ProcessHealth) -> Seq<(Seq<char>, i64)> {
    seq![
        ("process_num_threads"@, h.pid_num_threads),
        ("process_resident_memory_bytes"@, h.pid_mem_resident_set_size as i64),
        ("process_virtual_memory_bytes"@, h.pid_mem_virtual_memory_size as i64),
        ("process_shared_memory_bytes"@, h.pid_mem_shared_memory_size as i64),
        ("process_cpu_seconds_total"@, h.pid_process_seconds_total as i64),
    ]
}

/// The integer gauges of the system's health.
pub open spec fn system_gauges(h: SystemHealthCounters) -> Seq<(Seq<char>, i64)> {
    seq![
        ("system_virt_mem_total_bytes"@, h.sys_virt_mem_total as i64),
        ("system_virt_mem_available_bytes"@, h.sys_virt_mem_available as i64),
        ("system_virt_mem_used_bytes"@, h.sys_virt_mem_used as i64),
        ("system_virt_mem_free_bytes"@, h.sys_virt_mem_free as i64),
        ("cpu_cores"@, h.cpu_cores as i64),
        ("cpu_threads"@, h.cpu_threads as i64),
        ("cpu_system_seconds_total"@, h.system_seconds_total as i64),
        ("cpu_user_seconds_total"@, h.user_seconds_total as i64),
        ("cpu_iowait_seconds_total"@, h.iowait_seconds_total as i64),
        ("cpu_idle_seconds_total"@, h.idle_seconds_total as i64),
        ("disk_node_bytes_total"@, h.disk_node_bytes_total as i64),
        ("disk_node_bytes_free"@, h.disk_node_bytes_free as i64),
        ("disk_node_reads_total"@, h.disk_node_reads_total as i64),
        ("disk_node_writes_total"@, h.disk_node_writes_total as i64),
        ("network_node_bytes_total_received"@, h.network_node_bytes_total_received as i64),
        ("network_node_bytes_total_transmit"@, h.network_node_bytes_total_transmit as i64),
    ]
}

/// The gauges as names and values.
pub open spec fn gauge_view(g: Seq<IntGaugeValue>) -> Seq<(Seq<char>, i64)> {
    g.map_values(|v: IntGaugeValue| (v.name@, v.value))
}

fn gauge(name: &'static str, value: i64) -> (r: IntGaugeValue)
    ensures
        r.name@ == name@,
        r.value == value,
{
    IntGaugeValue { name, value }
}

/// The gauges to set from the health of the process, where it could be
/// observed; none where it could not.
pub fn scrape_process_health_metrics(health: Option<ProcessHealth>) -> (r: Vec<IntGaugeValue>)
    ensures
        gauge_view(r@) == observed_process_gauges(health),
{
    let mut r: Vec<IntGaugeValue> = Vec::new();
    match health {
        Some(h) => {
            r.push(gauge("process_num_threads", h.pid_num_threads));
            r.push(gauge("process_resident_memory_bytes", h.pid_mem_resident_set_size as i64));
            r.push(gauge("process_virtual_memory_bytes", h.pid_mem_virtual_memory_size as i64));
            r.push(gauge("process_shared_memory_bytes", h.pid_mem_shared_memory_size as i64));
            r.push(gauge("process_cpu_seconds_total", h.pid_process_seconds_total as i64));
            assert(gauge_view(r@) =~= process_gauges(h));
        },
        None => {
            assert(gauge_view(r@) =~= Seq::empty());
        },
    }
    r
}

/// The integer gauges to set from the health of the system, where it could
/// be observed; none where it could not.
pub fn scrape_system_health_metrics(health: Option<SystemHealthCounters>) -> (r: Vec<IntGaugeValue>)
    ensures
        gauge_view(r@) == observed_system_gauges(health),
{
    let mut r: Vec<IntGaugeValue> = Vec::new();
    match health {
        Some(h) => {
            r.push(gauge("system_virt_mem_total_bytes", h.sys_virt_mem_total as i64));
            r.push(gauge("system_virt_mem_available_bytes", h.sys_virt_mem_available as i64));
            r.push(gauge("system_virt_mem_used_bytes", h.sys_virt_mem_used as i64));
            r.push(gauge("system_virt_mem_free_bytes", h.sys_virt_mem_free as i64));
            r.push(gauge("cpu_cores", h.cpu_cores as i64));
            r.push(gauge("cpu_threads", h.cpu_threads as i64));
            r.push(gauge("cpu_system_seconds_total", h.system_seconds_total as i64));
            r.push(gauge("cpu_user_seconds_total", h.user_seconds_total as i64));
            r.push(gauge("cpu_iowait_seconds_total", h.iowait_seconds_total as i64));
            r.push(gauge("cpu_idle_seconds_total", h.idle_seconds_total as i64));
            r.push(gauge("disk_node_bytes_total", h.disk_node_bytes_total as i64));
            r.push(gauge("disk_node_bytes_free", h.disk_node_bytes_free as i64));
            r.push(gauge("disk_node_reads_total", h.disk_node_reads_total as i64));
            r.push(gauge("disk_node_writes_total", h.disk_node_writes_total as i64));
            r.push(gauge("network_node_bytes_total_received", h.network_node_bytes_total_received as i64));
            r.push(gauge("network_node_bytes_total_transmit", h.network_node_bytes_total_transmit as i64));
            assert(gauge_view(r@) =~= system_gauges(h));
        },
        None => {
            assert(gauge_view(r@) =~= Seq::empty());
        },
    }
    r
}

/// The gauges of the process where its health was observed.
pub open spec fn observed_process_gauges(health: Option<ProcessHealth>) -> Seq<(Seq<char>, i64)> {
    match health {
        Some(h) => process_gauges(h),
        None => Seq::empty(),
    }
}

/// The integer gauges of the system where its health was observed.
pub open spec fn observed_system_gauges(health: Option<SystemHealthCounters>) -> Seq<(Seq<char>, i64)> {
    match health {
        Some(h) => system_gauges(h),
        None => Seq::empty(),
    }
}

/// The integer gauges of the process, then of the system.
pub fn scrape_health_metrics(process: Option<ProcessHealth>, system: Option<SystemHealthCounters>) -> (r: Vec<
    IntGaugeValue,
>)
    ensures
        gauge_view(r@) == observed_process_gauges(process) + observed_system_gauges(system),
{
    let mut r = scrape_process_health_metrics(process);
    let mut s = scrape_system_health_metrics(system);
    let ghost a = r@;
    let ghost b = s@;
    r.append(&mut s);
    assert(r@ =~= a + b);
    assert(gauge_view(a + b) =~= gauge_view(a) + gauge_view(b));
    r
}

/// The seconds from genesis to `now`, negative before genesis.
pub fn genesis_distance(now_secs: u64, genesis_time: u64) -> (r: i64)
    requires
        now_secs <= i64::MAX,
        genesis_time <= i64::MAX,
    ensures
        r == now_secs - genesis_time,
{
    now_secs as i64 - genesis_time as i64
}

} // verus!
