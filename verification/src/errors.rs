//! The two error kinds of the sampling layer and the composite error a
//! failed snapshot surfaces.

use vstd::prelude::*;

verus! {

/// Why a single source could not be read for one tick.
///
/// Per-field numeric parse failures are never an error: they are
/// absorbed to zero. `MalformedSource` means the file's overall shape
/// broke its format contract; `Unreadable` means its text could not be
/// obtained at all.
#[derive(Clone, Copy, PartialEq, Eq, Structural, Debug)]
pub enum ErrorKind {
    MalformedSource,
    Unreadable,
}

/// Which of the four pseudo-file sources failed.
#[derive(Clone, Copy, PartialEq, Eq, Structural, Debug)]
pub enum Source {
    Cpu,
    Memory,
    Network,
    Disk,
}

/// The single composite error a failed snapshot surfaces: which source
/// failed, and how.
#[derive(Clone, Copy, PartialEq, Eq, Structural, Debug)]
pub struct SnapshotError {
    pub source: Source,
    pub kind: ErrorKind,
}

impl SnapshotError {
    /// A short description of the error, suitable for a log line.
    pub fn describe(&self) -> (r: &'static str)
        ensures
            r@.len() > 0,
    {
        proof {
            reveal_strlit("cpu statistics file is malformed");
            reveal_strlit("cpu statistics file is unreadable");
            reveal_strlit("memory info file is malformed");
            reveal_strlit("memory info file is unreadable");
            reveal_strlit("network device file is malformed");
            reveal_strlit("network device file is unreadable");
            reveal_strlit("disk statistics file is malformed");
            reveal_strlit("disk statistics file is unreadable");
        }
        match (self.source, self.kind) {
            (Source::Cpu, ErrorKind::MalformedSource) => "cpu statistics file is malformed",
            (Source::Cpu, ErrorKind::Unreadable) => "cpu statistics file is unreadable",
            (Source::Memory, ErrorKind::MalformedSource) => "memory info file is malformed",
            (Source::Memory, ErrorKind::Unreadable) => "memory info file is unreadable",
            (Source::Network, ErrorKind::MalformedSource) => "network device file is malformed",
            (Source::Network, ErrorKind::Unreadable) => "network device file is unreadable",
            (Source::Disk, ErrorKind::MalformedSource) => "disk statistics file is malformed",
            (Source::Disk, ErrorKind::Unreadable) => "disk statistics file is unreadable",
        }
    }
}

} // verus!
