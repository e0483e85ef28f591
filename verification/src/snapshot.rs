//! The snapshot assembler: run the four readers for one sampling
//! instant and compose one record, or fail with a single composite
//! error naming the source that broke.

use vstd::prelude::*;
use crate::cpu::{cpu_first_line_ok, spec_cpu_stats, CpuStats};
use crate::disk::{disk_records_match, DiskStats};
use crate::errors::{ErrorKind, SnapshotError, Source};
use crate::mem::{spec_mem_info, MemInfo};
use crate::net::{net_header_ok, net_records_match, NetworkInterface};

verus! {

/// The unit of delivery: one record per source, captured back to back
/// within one tick. Constructed fresh on every tick and handed to the
/// sink whole.
#[derive(Clone, PartialEq, Eq, Debug)]
pub struct SystemInfo {
    pub cpu_stats: CpuStats,
    pub mem_info: MemInfo,
    pub network_info: Vec<NetworkInterface>,
    pub disk_info: Vec<DiskStats>,
}

/// The composite error for a named source and kind.
pub open spec fn snap_err(s: Source, k: ErrorKind) -> Result<SystemInfo, SnapshotError> {
    Err(SnapshotError { source: s, kind: k })
}

impl SystemInfo {
    /// Assemble one snapshot from the texts of the four pseudo-files,
    /// read back to back in the order processor, memory, network,
    /// disk. A source whose text could not be obtained arrives as
    /// `None`. Any reader failure aborts the whole snapshot and
    /// surfaces the first failing source, in read order; nothing is
    /// degraded to an empty sub-record.
    pub fn assemble(
        cpu: &Option<Vec<u8>>,
        mem: &Option<Vec<u8>>,
        net: &Option<Vec<u8>>,
        disk: &Option<Vec<u8>>,
    ) -> (r: Result<SystemInfo, SnapshotError>)
        ensures
            ({
                if cpu is None {
                    r == snap_err(Source::Cpu, ErrorKind::Unreadable)
                } else if !cpu_first_line_ok((cpu->0)@) {
                    r == snap_err(Source::Cpu, ErrorKind::MalformedSource)
                } else if mem is None {
                    r == snap_err(Source::Memory, ErrorKind::Unreadable)
                } else if net is None {
                    r == snap_err(Source::Network, ErrorKind::Unreadable)
                } else if !net_header_ok((net->0)@) {
                    r == snap_err(Source::Network, ErrorKind::MalformedSource)
                } else if disk is None {
                    r == snap_err(Source::Disk, ErrorKind::Unreadable)
                } else {
                    r is Ok && {
                        let s = r->Ok_0;
                        s.cpu_stats == spec_cpu_stats((cpu->0)@) && s.mem_info == spec_mem_info(
                            (mem->0)@,
                        ) && net_records_match(s.network_info@, (net->0)@) && disk_records_match(
                            s.disk_info@,
                            (disk->0)@,
                        )
                    }
                }
            }),
    {
        let cpu_text = match cpu {
            Some(t) => t,
            None => {
                return Err(SnapshotError { source: Source::Cpu, kind: ErrorKind::Unreadable });
            },
        };
        let cpu_stats = match CpuStats::parse(cpu_text) {
            Ok(c) => c,
            Err(k) => {
                return Err(SnapshotError { source: Source::Cpu, kind: k });
            },
        };
        let mem_text = match mem {
            Some(t) => t,
            None => {
                return Err(SnapshotError { source: Source::Memory, kind: ErrorKind::Unreadable });
            },
        };
        let mem_info = MemInfo::parse(mem_text);
        let net_text = match net {
            Some(t) => t,
            None => {
                return Err(SnapshotError { source: Source::Network, kind: ErrorKind::Unreadable });
            },
        };
        let network_info = match NetworkInterface::parse_all(net_text) {
            Ok(v) => v,
            Err(k) => {
                return Err(SnapshotError { source: Source::Network, kind: k });
            },
        };
        let disk_text = match disk {
            Some(t) => t,
            None => {
                return Err(SnapshotError { source: Source::Disk, kind: ErrorKind::Unreadable });
            },
        };
        let disk_info = DiskStats::parse_all(disk_text);
        Ok(SystemInfo { cpu_stats, mem_info, network_info, disk_info })
    }
}

} // verus!
