use procstats::cpu::CpuStats;
use procstats::disk::DiskStats;
use procstats::errors::ErrorKind;
use procstats::mem::MemInfo;
use procstats::net::NetworkInterface;
use procstats::text::{parse_field, token_u64};

fn t(s: &str) -> Vec<u8> {
    s.as_bytes().to_vec()
}

#[test]
fn field_parser_valid_token() {
    let toks = vec![t("12"), t("0"), t("18446744073709551615")];
    assert_eq!(parse_field(&toks, 0), 12);
    assert_eq!(parse_field(&toks, 1), 0);
    assert_eq!(parse_field(&toks, 2), u64::MAX);
}

#[test]
fn field_parser_out_of_range_index_is_zero() {
    let toks = vec![t("12")];
    assert_eq!(parse_field(&toks, 1), 0);
    assert_eq!(parse_field(&toks, 1000), 0);
}

#[test]
fn field_parser_malformed_token_is_zero() {
    assert_eq!(token_u64(&t("abc")), 0);
    assert_eq!(token_u64(&t("12a")), 0);
    assert_eq!(token_u64(&t("-3")), 0);
    assert_eq!(token_u64(&t("")), 0);
    assert_eq!(token_u64(&t("1.5")), 0);
}

#[test]
fn field_parser_overflow_is_zero() {
    // One past u64::MAX, and a much longer digit string.
    assert_eq!(token_u64(&t("18446744073709551616")), 0);
    assert_eq!(token_u64(&t("99999999999999999999999999")), 0);
}

#[test]
fn field_parser_leading_plus() {
    // A leading plus sign is accepted, as the integer parser of the
    // standard library accepts it; a bare plus is not a number.
    assert_eq!(token_u64(&t("+42")), 42);
    assert_eq!(token_u64(&t("+")), 0);
}

#[test]
fn cpu_parses_aggregate_line() {
    let text = t("cpu  4705 356 584 3699 23 21 7 5 3 1\ncpu0 100 1 2 3 4 5 6 7 8 9\n");
    let r = CpuStats::parse(&text).unwrap();
    assert_eq!(r.user, 4705);
    assert_eq!(r.nice, 356);
    assert_eq!(r.system, 584);
    assert_eq!(r.idle, 3699);
    assert_eq!(r.iowait, 23);
    assert_eq!(r.irq, 21);
    assert_eq!(r.softirq, 7);
    assert_eq!(r.steal, 5);
    assert_eq!(r.guest, 3);
    assert_eq!(r.guest_nice, 1);
}

#[test]
fn cpu_rejects_per_core_first_line() {
    let text = t("cpu0 1 2 3 4 5 6 7 8 9 10\n");
    assert_eq!(CpuStats::parse(&text), Err(ErrorKind::MalformedSource));
}

#[test]
fn cpu_rejects_short_first_line() {
    // Label plus only nine counters: ten tokens, one too few.
    let text = t("cpu 1 2 3 4 5 6 7 8 9\n");
    assert_eq!(CpuStats::parse(&text), Err(ErrorKind::MalformedSource));
}

#[test]
fn cpu_rejects_empty_file() {
    assert_eq!(CpuStats::parse(&t("")), Err(ErrorKind::MalformedSource));
}

#[test]
fn cpu_malformed_counter_defaults_to_zero() {
    let text = t("cpu 1 bogus 3 4 5 6 7 8 9 10\n");
    let r = CpuStats::parse(&text).unwrap();
    assert_eq!(r.user, 1);
    assert_eq!(r.nice, 0);
    assert_eq!(r.system, 3);
}

#[test]
fn mem_parses_all_labels() {
    let text = t(
        "MemTotal:       16384000 kB\n\
         MemFree:         1024000 kB\n\
         MemAvailable:    8192000 kB\n\
         Buffers:          512000 kB\n\
         Cached:          4096000 kB\n\
         SwapTotal:       2048000 kB\n\
         SwapFree:        2000000 kB\n",
    );
    let m = MemInfo::parse(&text);
    assert_eq!(m.mem_total, 16384000);
    assert_eq!(m.mem_free, 1024000);
    assert_eq!(m.mem_available, 8192000);
    assert_eq!(m.buffers, 512000);
    assert_eq!(m.cached, 4096000);
    assert_eq!(m.swap_total, 2048000);
    assert_eq!(m.swap_free, 2000000);
}

#[test]
fn mem_absent_label_stays_zero() {
    let text = t("MemTotal: 100 kB\nSwapFree: 7 kB\n");
    let m = MemInfo::parse(&text);
    assert_eq!(m.mem_total, 100);
    assert_eq!(m.swap_free, 7);
    assert_eq!(m.mem_free, 0);
    assert_eq!(m.mem_available, 0);
    assert_eq!(m.buffers, 0);
    assert_eq!(m.cached, 0);
    assert_eq!(m.swap_total, 0);
}

#[test]
fn mem_unrecognized_label_ignored() {
    let text = t("MemTotal: 100\nDirty: 55\nShmem: 44\n");
    let m = MemInfo::parse(&text);
    assert_eq!(m.mem_total, 100);
    assert_eq!(m.mem_free, 0);
}

#[test]
fn mem_short_line_ignored() {
    // A line with a single token assigns nothing, even with a
    // recognized label.
    let text = t("MemTotal:\nMemFree: 3\n");
    let m = MemInfo::parse(&text);
    assert_eq!(m.mem_total, 0);
    assert_eq!(m.mem_free, 3);
}

#[test]
fn mem_label_must_match_exactly() {
    // The token match is exact: without the colon, or with extra
    // characters, the label is not recognized.
    let text = t("MemTotal 100\nMemTotals: 200\n");
    let m = MemInfo::parse(&text);
    assert_eq!(m.mem_total, 0);
}

#[test]
fn mem_last_occurrence_wins() {
    let text = t("MemFree: 5\nMemFree: 9\n");
    let m = MemInfo::parse(&text);
    assert_eq!(m.mem_free, 9);
}

#[test]
fn mem_never_fails_on_garbage() {
    let m = MemInfo::parse(&t("!!! not a meminfo file ###\n\n12 34\n"));
    assert_eq!(m.mem_total, 0);
    assert_eq!(m.swap_free, 0);
}

#[test]
fn net_parses_interfaces_in_order() {
    // Two header lines, then two interfaces. Every column holds a
    // distinct value so that any transposition would be caught.
    let text = t(
        "Inter-|   Receive                                                |  Transmit\n\
         face |bytes    packets errs drop fifo frame compressed multicast|bytes    packets errs drop fifo colls carrier compressed\n\
         eth0: 101 102 103 104 105 106 107 108 109 110 111 112 113 114 115 116\n\
         lo: 201 202 203 204 205 206 207 208 209 210 211 212 213 214 215 216\n",
    );
    let v = NetworkInterface::parse_all(&text).unwrap();
    assert_eq!(v.len(), 2);
    let e = &v[0];
    assert_eq!(e.name, b"eth0".to_vec());
    assert_eq!(e.receive_bytes, 101);
    assert_eq!(e.receive_packets, 102);
    assert_eq!(e.receive_errors, 103);
    assert_eq!(e.receive_dropped, 104);
    assert_eq!(e.fifo_errors, 105);
    assert_eq!(e.frame_errors, 106);
    assert_eq!(e.compressed_packets, 107);
    assert_eq!(e.multicast_packets, 108);
    assert_eq!(e.transmit_bytes, 109);
    assert_eq!(e.transmit_packets, 110);
    assert_eq!(e.transmit_errors, 111);
    assert_eq!(e.transmit_dropped, 112);
    let l = &v[1];
    assert_eq!(l.name, b"lo".to_vec());
    assert_eq!(l.receive_bytes, 201);
    assert_eq!(l.transmit_bytes, 209);
    assert_eq!(l.transmit_dropped, 212);
}

#[test]
fn net_short_line_skipped() {
    // The second data line has only sixteen tokens and is skipped,
    // not recorded with defaults.
    let text = t(
        "header one\n\
         header two\n\
         eth0: 1 2 3 4 5 6 7 8 9 10 11 12 13 14 15 16\n\
         bad: 1 2 3 4 5 6 7 8 9 10 11 12 13 14 15\n",
    );
    let v = NetworkInterface::parse_all(&text).unwrap();
    assert_eq!(v.len(), 1);
    assert_eq!(v[0].name, b"eth0".to_vec());
}

#[test]
fn net_name_trailing_colons_stripped() {
    let text = t(
        "h1\n\
         h2\n\
         veth0: 1 2 3 4 5 6 7 8 9 10 11 12 13 14 15 16\n\
         tun0:: 1 2 3 4 5 6 7 8 9 10 11 12 13 14 15 16\n\
         bare 1 2 3 4 5 6 7 8 9 10 11 12 13 14 15 16\n",
    );
    let v = NetworkInterface::parse_all(&text).unwrap();
    assert_eq!(v.len(), 3);
    assert_eq!(v[0].name, b"veth0".to_vec());
    assert_eq!(v[1].name, b"tun0".to_vec());
    assert_eq!(v[2].name, b"bare".to_vec());
}

#[test]
fn net_missing_header_fails() {
    // A one-line or zero-line file must fail rather than misparse a
    // data line as a header.
    assert_eq!(
        NetworkInterface::parse_all(&t("only one line\n")),
        Err(ErrorKind::MalformedSource)
    );
    assert_eq!(NetworkInterface::parse_all(&t("")), Err(ErrorKind::MalformedSource));
}

#[test]
fn net_two_header_lines_and_no_data_is_empty() {
    let v = NetworkInterface::parse_all(&t("h1\nh2\n")).unwrap();
    assert_eq!(v.len(), 0);
}

#[test]
fn disk_parses_device_lines() {
    let text = t(
        "   8       0 sda 301 302 303 304 305 306 307 308 309 310 311\n\
          259       1 nvme0n1 401 402 403 404 405 406 407 408 409 410 411\n",
    );
    let v = DiskStats::parse_all(&text);
    assert_eq!(v.len(), 2);
    let d = &v[0];
    assert_eq!(d.major, 8);
    assert_eq!(d.minor, 0);
    assert_eq!(d.device_name, b"sda".to_vec());
    assert_eq!(d.reads_completed, 301);
    assert_eq!(d.reads_merged, 302);
    assert_eq!(d.sectors_read, 303);
    assert_eq!(d.read_time, 304);
    assert_eq!(d.writes_completed, 305);
    assert_eq!(d.writes_merged, 306);
    assert_eq!(d.sectors_written, 307);
    assert_eq!(d.write_time, 308);
    assert_eq!(d.io_in_progress, 309);
    assert_eq!(d.io_time, 310);
    assert_eq!(d.io_weighted_time, 311);
    assert_eq!(v[1].device_name, b"nvme0n1".to_vec());
    assert_eq!(v[1].major, 259);
}

#[test]
fn disk_short_lines_excluded_exactly() {
    // Three lines, one short: the result has exactly two records and
    // no zero-filled placeholder for the short line.
    let text = t(
        "8 0 sda 1 2 3 4 5 6 7 8 9 10 11\n\
         8 1 sda1 1 2 3 4 5 6 7 8 9 10\n\
         8 2 sda2 21 22 23 24 25 26 27 28 29 30 31\n",
    );
    let v = DiskStats::parse_all(&text);
    assert_eq!(v.len(), 2);
    assert_eq!(v[0].device_name, b"sda".to_vec());
    assert_eq!(v[1].device_name, b"sda2".to_vec());
    assert_eq!(v[1].io_weighted_time, 31);
}

#[test]
fn disk_empty_input_is_empty() {
    assert_eq!(DiskStats::parse_all(&t("")).len(), 0);
}

#[test]
fn cpu_accepts_tab_separated_counters() {
    let text = t("cpu\t1\t2\t3\t4\t5\t6\t7\t8\t9\t10\n");
    let r = CpuStats::parse(&text).unwrap();
    assert_eq!(r.user, 1);
    assert_eq!(r.guest_nice, 10);
}

#[test]
fn mem_accepts_carriage_return_line_endings() {
    let text = t("MemTotal: 77 kB\r\nMemFree: 33 kB\r\n");
    let m = MemInfo::parse(&text);
    assert_eq!(m.mem_total, 77);
    assert_eq!(m.mem_free, 33);
}

#[test]
fn readers_are_deterministic() {
    let cpu = t("cpu 1 2 3 4 5 6 7 8 9 10\n");
    assert_eq!(CpuStats::parse(&cpu), CpuStats::parse(&cpu));
    let mem = t("MemTotal: 88\nCached: 44\n");
    assert_eq!(MemInfo::parse(&mem), MemInfo::parse(&mem));
    let net = t("h1\nh2\neth0: 1 2 3 4 5 6 7 8 9 10 11 12 13 14 15 16\n");
    assert_eq!(NetworkInterface::parse_all(&net), NetworkInterface::parse_all(&net));
    let disk = t("8 0 sda 1 2 3 4 5 6 7 8 9 10 11\n");
    assert_eq!(DiskStats::parse_all(&disk), DiskStats::parse_all(&disk));
}
