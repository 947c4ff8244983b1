use lighthouse::health::{
    scrape_health_metrics, scrape_process_health_metrics, scrape_system_health_metrics, SystemHealthCounters,
};
use lighthouse::lighthouse::ProcessHealth;

fn process() -> ProcessHealth {
    ProcessHealth {
        pid: 1,
        pid_num_threads: 12,
        pid_mem_resident_set_size: 1000,
        pid_mem_virtual_memory_size: u64::MAX,
        pid_mem_shared_memory_size: 3,
        pid_process_seconds_total: 4,
    }
}

#[test]
fn process_gauges() {
    let g = scrape_process_health_metrics(Some(process()));
    let pairs: Vec<(&str, i64)> = g.iter().map(|v| (v.name, v.value)).collect();
    assert_eq!(
        pairs,
        vec![
            ("process_num_threads", 12),
            ("process_resident_memory_bytes", 1000),
            ("process_virtual_memory_bytes", -1),
            ("process_shared_memory_bytes", 3),
            ("process_cpu_seconds_total", 4),
        ]
    );
    assert!(scrape_process_health_metrics(None).is_empty());
}

#[test]
fn system_gauges() {
    let counters = SystemHealthCounters {
        sys_virt_mem_total: 1,
        sys_virt_mem_available: 2,
        sys_virt_mem_used: 3,
        sys_virt_mem_free: 4,
        cpu_cores: 5,
        cpu_threads: 6,
        system_seconds_total: 7,
        user_seconds_total: 8,
        iowait_seconds_total: 9,
        idle_seconds_total: 10,
        disk_node_bytes_total: 11,
        disk_node_bytes_free: 12,
        disk_node_reads_total: 13,
        disk_node_writes_total: 14,
        network_node_bytes_total_received: 15,
        network_node_bytes_total_transmit: 16,
    };
    let g = scrape_system_health_metrics(Some(counters));
    assert_eq!(g.len(), 16);
    assert_eq!(g[0].name, "system_virt_mem_total_bytes");
    assert_eq!(g[15].name, "network_node_bytes_total_transmit");
    assert_eq!(g[15].value, 16);
    let all = scrape_health_metrics(Some(process()), Some(counters));
    assert_eq!(all.len(), 21);
    assert_eq!(all[5].name, "system_virt_mem_total_bytes");
    assert_eq!(scrape_health_metrics(None, Some(counters)).len(), 16);
}

#[test]
fn genesis_distance_values() {
    assert_eq!(lighthouse::health::genesis_distance(1_000, 400), 600);
    assert_eq!(lighthouse::health::genesis_distance(400, 1_000), -600);
}
