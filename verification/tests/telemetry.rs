use shriven_q::stats::{LatencyTracker, MemoryStats, SizeDistribution, HISTORY_SIZE};

#[test]
fn latencies_one_to_a_thousand_summarize_exactly() {
    let mut stats = MemoryStats::new();
    for latency in 1..=1000u64 {
        stats.record_allocation(64, latency);
    }
    let snapshot = stats.get_snapshot();
    let lat = snapshot.latency_stats;
    // Mean 500.5 ns, reported in thousandths of a nanosecond.
    assert_eq!(lat.mean_milli_ns, 500_500);
    assert_eq!(lat.median_ns, 500);
    assert_eq!(lat.p90_ns, 900);
    assert_eq!(lat.p95_ns, 950);
    assert_eq!(lat.p99_ns, 990);
    assert_eq!(lat.p999_ns, 999);
    assert_eq!(lat.min_ns, 1);
    assert_eq!(lat.max_ns, 1000);
    assert_eq!(snapshot.total_allocations, 1000);
    assert_eq!(snapshot.current_allocated_bytes, 64_000);
    assert_eq!(snapshot.peak_allocated_bytes, 64_000);
}

#[test]
fn percentiles_never_decrease_with_the_target() {
    let mut tracker = LatencyTracker::new();
    for x in [907u64, 3, 3, 512, 44, 71, 8_000, 2, 999, 13] {
        tracker.record(x);
    }
    let p50 = tracker.get_percentile(500);
    let p90 = tracker.get_percentile(900);
    let p95 = tracker.get_percentile(950);
    let p99 = tracker.get_percentile(990);
    let p999 = tracker.get_percentile(999);
    assert!(p50 <= p90 && p90 <= p95 && p95 <= p99 && p99 <= p999);
    assert_eq!(p999, 999);
}

#[test]
fn the_ring_keeps_only_the_most_recent_thousand() {
    let mut tracker = LatencyTracker::new();
    for latency in 0..(HISTORY_SIZE as u64 + 500) {
        tracker.record(latency);
    }
    assert_eq!(tracker.samples.len(), HISTORY_SIZE);
    // The oldest samples were evicted, so the minimum is the 501st.
    let stats = tracker.get_stats();
    assert_eq!(stats.min_ns, 500);
    assert_eq!(stats.max_ns, HISTORY_SIZE as u64 + 499);
}

#[test]
fn an_empty_ring_reads_zeros() {
    let mut tracker = LatencyTracker::new();
    assert_eq!(tracker.get_percentile(500), 0);
    let stats = tracker.get_stats();
    assert_eq!(stats.mean_milli_ns, 0);
    assert_eq!(stats.max_ns, 0);
}

#[test]
fn deallocations_lower_the_gauge_but_not_the_peak() {
    let mut stats = MemoryStats::new();
    stats.record_allocation(1000, 5);
    stats.record_allocation(500, 5);
    assert_eq!(stats.allocated_bytes, 1500);
    stats.record_deallocation(500);
    assert_eq!(stats.allocated_bytes, 1000);
    assert_eq!(stats.peak_bytes, 1500);
    // Deallocating more than was allocated is clamped at zero, not wrapped.
    stats.record_deallocation(5000);
    assert_eq!(stats.allocated_bytes, 0);
    assert_eq!(stats.peak_bytes, 1500);
    assert_eq!(stats.deallocations, 2);
}

#[test]
fn reset_then_snapshot_is_all_zeros() {
    let mut stats = MemoryStats::new();
    for latency in 1..=100u64 {
        stats.record_allocation(128, latency);
    }
    stats.record_failed_allocation();
    stats.reset();
    let snapshot = stats.get_snapshot();
    assert_eq!(snapshot.total_allocations, 0);
    assert_eq!(snapshot.total_deallocations, 0);
    assert_eq!(snapshot.current_allocated_bytes, 0);
    assert_eq!(snapshot.peak_allocated_bytes, 0);
    assert_eq!(snapshot.allocation_rate_milli, 0);
    assert_eq!(snapshot.deallocation_rate_milli, 0);
    assert_eq!(snapshot.fragmentation_milli, 0);
    assert_eq!(snapshot.latency_stats.mean_milli_ns, 0);
    assert_eq!(snapshot.latency_stats.p999_ns, 0);
    assert!(stats.get_size_distribution().is_empty());
}

#[test]
fn rates_and_fragmentation_derive_from_the_counters() {
    let mut stats = MemoryStats::new();
    stats.record_allocation(1000, 7);
    stats.record_allocation(1000, 9);
    stats.record_deallocation(1000);
    // Two allocations over two seconds: one per second, in thousandths.
    let snapshot = stats.snapshot_with_elapsed(2_000_000_000);
    assert_eq!(snapshot.allocation_rate_milli, 1000);
    assert_eq!(snapshot.deallocation_rate_milli, 500);
    // live 1000 of peak 2000: fragmentation one half, in thousandths.
    assert_eq!(snapshot.fragmentation_milli, 500);
    // A zero elapsed span reads zero rates rather than dividing by zero.
    let snapshot = stats.snapshot_with_elapsed(0);
    assert_eq!(snapshot.allocation_rate_milli, 0);
}

#[test]
fn failed_allocations_count_separately() {
    let mut stats = MemoryStats::new();
    stats.record_failed_allocation();
    stats.record_failed_allocation();
    assert_eq!(stats.failed_allocations, 2);
    assert_eq!(stats.allocations, 0);
}

#[test]
fn format_size_uses_the_largest_unit() {
    assert_eq!(SizeDistribution::format_size(0), "0B");
    assert_eq!(SizeDistribution::format_size(65), "65B");
    assert_eq!(SizeDistribution::format_size(1023), "1023B");
    assert_eq!(SizeDistribution::format_size(1024), "1KB");
    assert_eq!(SizeDistribution::format_size(1025), "1.0KB");
    assert_eq!(SizeDistribution::format_size(1536), "1.5KB");
    assert_eq!(SizeDistribution::format_size(4096), "4KB");
    assert_eq!(SizeDistribution::format_size(262144), "256KB");
    assert_eq!(SizeDistribution::format_size(1048576), "1MB");
    assert_eq!(SizeDistribution::format_size(1073741824), "1GB");
}

#[test]
fn the_histogram_reports_shares_per_bucket() {
    let mut dist = SizeDistribution::new();
    dist.record(10);
    dist.record(64);
    dist.record(65);
    dist.record(5000);
    let rows = dist.get_distribution();
    assert_eq!(rows.len(), 3);
    assert_eq!(rows[0].0, "0B-64B");
    assert_eq!(rows[0].1, 500);
    assert_eq!(rows[0].2, 74);
    assert_eq!(rows[1].0, "65B-256B");
    assert_eq!(rows[1].1, 250);
    assert_eq!(rows[1].2, 65);
    assert_eq!(rows[2].0, "4.0KB-16KB");
    assert_eq!(rows[2].1, 250);
    assert_eq!(rows[2].2, 5000);
}

#[test]
fn an_untouched_histogram_reports_nothing() {
    let dist = SizeDistribution::new();
    assert!(dist.get_distribution().is_empty());
}
