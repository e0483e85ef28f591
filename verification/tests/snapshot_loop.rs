use procstats::collector::{run_collection, valid_interval_ms, Collector, Phase};
use procstats::cpu::CpuStats;
use procstats::disk::DiskStats;
use procstats::errors::{ErrorKind, SnapshotError, Source};
use procstats::mem::MemInfo;
use procstats::net::NetworkInterface;
use procstats::snapshot::SystemInfo;

fn t(s: &str) -> Vec<u8> {
    s.as_bytes().to_vec()
}

fn good_cpu() -> Vec<u8> {
    t("cpu 11 12 13 14 15 16 17 18 19 20\ncpu0 1 1 1 1 1 1 1 1 1 1\n")
}

fn good_mem() -> Vec<u8> {
    t("MemTotal: 1000\nMemFree: 200\nMemAvailable: 600\nBuffers: 50\nCached: 300\nSwapTotal: 99\nSwapFree: 88\n")
}

fn good_net() -> Vec<u8> {
    t("Inter-| Receive | Transmit\n\
       face | bytes packets ...\n\
       eth0: 1 2 3 4 5 6 7 8 9 10 11 12 13 14 15 16\n")
}

fn good_disk() -> Vec<u8> {
    t("8 0 sda 1 2 3 4 5 6 7 8 9 10 11\n")
}

#[test]
fn assemble_well_formed_matches_each_reader() {
    let r = SystemInfo::assemble(
        &Some(good_cpu()),
        &Some(good_mem()),
        &Some(good_net()),
        &Some(good_disk()),
    )
    .unwrap();
    // The four sub-records are exactly what the four readers produce
    // on their own, with nothing swapped between sources.
    assert_eq!(r.cpu_stats, CpuStats::parse(&good_cpu()).unwrap());
    assert_eq!(r.mem_info, MemInfo::parse(&good_mem()));
    assert_eq!(r.network_info, NetworkInterface::parse_all(&good_net()).unwrap());
    assert_eq!(r.disk_info, DiskStats::parse_all(&good_disk()));
    assert_eq!(r.cpu_stats.user, 11);
    assert_eq!(r.mem_info.mem_total, 1000);
    assert_eq!(r.network_info.len(), 1);
    assert_eq!(r.network_info[0].name, b"eth0".to_vec());
    assert_eq!(r.disk_info.len(), 1);
    assert_eq!(r.disk_info[0].device_name, b"sda".to_vec());
}

#[test]
fn assemble_unreadable_sources() {
    let e = SystemInfo::assemble(&None, &Some(good_mem()), &Some(good_net()), &Some(good_disk()))
        .unwrap_err();
    assert_eq!(e, SnapshotError { source: Source::Cpu, kind: ErrorKind::Unreadable });
    let e = SystemInfo::assemble(&Some(good_cpu()), &None, &Some(good_net()), &Some(good_disk()))
        .unwrap_err();
    assert_eq!(e, SnapshotError { source: Source::Memory, kind: ErrorKind::Unreadable });
    let e = SystemInfo::assemble(&Some(good_cpu()), &Some(good_mem()), &None, &Some(good_disk()))
        .unwrap_err();
    assert_eq!(e, SnapshotError { source: Source::Network, kind: ErrorKind::Unreadable });
    let e = SystemInfo::assemble(&Some(good_cpu()), &Some(good_mem()), &Some(good_net()), &None)
        .unwrap_err();
    assert_eq!(e, SnapshotError { source: Source::Disk, kind: ErrorKind::Unreadable });
}

#[test]
fn assemble_malformed_sources() {
    let e = SystemInfo::assemble(
        &Some(t("cpu0 1 2\n")),
        &Some(good_mem()),
        &Some(good_net()),
        &Some(good_disk()),
    )
    .unwrap_err();
    assert_eq!(e, SnapshotError { source: Source::Cpu, kind: ErrorKind::MalformedSource });
    let e = SystemInfo::assemble(
        &Some(good_cpu()),
        &Some(good_mem()),
        &Some(t("one header only\n")),
        &Some(good_disk()),
    )
    .unwrap_err();
    assert_eq!(e, SnapshotError { source: Source::Network, kind: ErrorKind::MalformedSource });
}

#[test]
fn assemble_reports_first_failing_source_in_read_order() {
    // Both the processor file and the network file are bad; the
    // processor source is read first and is the one reported.
    let e = SystemInfo::assemble(&Some(t("")), &Some(good_mem()), &Some(t("")), &Some(good_disk()))
        .unwrap_err();
    assert_eq!(e.source, Source::Cpu);
}

#[test]
fn error_descriptions_name_source_and_kind() {
    let e = SnapshotError { source: Source::Network, kind: ErrorKind::Unreadable };
    assert_eq!(e.describe(), "network device file is unreadable");
    let e = SnapshotError { source: Source::Cpu, kind: ErrorKind::MalformedSource };
    assert_eq!(e.describe(), "cpu statistics file is malformed");
}

fn snapshot_for_tick(n: u64) -> SystemInfo {
    SystemInfo {
        cpu_stats: CpuStats::parse(&good_cpu()).map(|mut c| {
            c.user = n;
            c
        })
        .unwrap(),
        mem_info: MemInfo::parse(&good_mem()),
        network_info: Vec::new(),
        disk_info: Vec::new(),
    }
}

#[test]
fn loop_skips_failed_tick_and_keeps_running() {
    // Five ticks; assembly fails on the second and succeeds on the
    // rest: exactly four snapshots are delivered, in order, and the
    // loop is idle again afterwards rather than stopped.
    let outcomes: Vec<Result<SystemInfo, SnapshotError>> = vec![
        Ok(snapshot_for_tick(1)),
        Err(SnapshotError { source: Source::Network, kind: ErrorKind::MalformedSource }),
        Ok(snapshot_for_tick(3)),
        Ok(snapshot_for_tick(4)),
        Ok(snapshot_for_tick(5)),
    ];
    let mut c = Collector::new();
    let delivered = run_collection(&mut c, outcomes);
    assert_eq!(delivered.len(), 4);
    assert_eq!(delivered[0].cpu_stats.user, 1);
    assert_eq!(delivered[1].cpu_stats.user, 3);
    assert_eq!(delivered[2].cpu_stats.user, 4);
    assert_eq!(delivered[3].cpu_stats.user, 5);
    assert_eq!(c.phase, Phase::Idle);
    assert_eq!(c.ticks_started, 5);
    assert_eq!(c.delivered, 4);
    assert_eq!(c.skipped, 1);
}

#[test]
fn run_collection_with_no_ticks_stays_idle() {
    let mut c = Collector::new();
    let delivered = run_collection(&mut c, Vec::new());
    assert_eq!(delivered.len(), 0);
    assert_eq!(c.phase, Phase::Idle);
    assert_eq!(c.ticks_started, 0);
}

#[test]
fn interval_must_be_positive() {
    assert!(!valid_interval_ms(0));
    assert!(valid_interval_ms(1));
    assert!(valid_interval_ms(60_000));
}

#[test]
fn stop_takes_effect_at_idle_boundary() {
    // A stop arriving mid-tick lets the tick finish; the loop then
    // declines the next tick.
    let mut c = Collector::new();
    assert!(c.should_sample());
    c.start_tick();
    c.request_stop();
    assert_eq!(c.phase, Phase::Sampling);
    c.finish_tick(true);
    assert_eq!(c.phase, Phase::Idle);
    assert_eq!(c.delivered, 1);
    assert!(!c.should_sample());
}

#[test]
fn collector_counts_sink_failure_as_skipped_tick() {
    // A snapshot was assembled but the sink refused it: the tick is
    // skipped, the loop returns to idle and keeps going.
    let mut c = Collector::new();
    c.start_tick();
    assert_eq!(c.phase, Phase::Sampling);
    c.finish_tick(false);
    assert_eq!(c.phase, Phase::Idle);
    assert_eq!(c.ticks_started, 1);
    assert_eq!(c.delivered, 0);
    assert_eq!(c.skipped, 1);
    c.start_tick();
    c.finish_tick(true);
    assert_eq!(c.ticks_started, 2);
    assert_eq!(c.delivered, 1);
    assert_eq!(c.skipped, 1);
}
