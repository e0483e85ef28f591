//! The collection loop's state machine. The loop itself waits on a
//! timer and talks to a sink, which this crate cannot do; what it
//! decides on each tick is here: a tick is started, a snapshot is
//! assembled and delivered or the tick is skipped, and the loop always
//! returns to `Idle` — no failure is fatal.

use vstd::prelude::*;
use crate::errors::SnapshotError;
use crate::snapshot::SystemInfo;

verus! {

/// The two states of the collection loop: waiting for the next tick,
/// or assembling and delivering one snapshot.
#[derive(Clone, Copy, PartialEq, Eq, Structural, Debug)]
pub enum Phase {
    Idle,
    Sampling,
}

/// The collection loop's owned state: its phase, the counts of ticks
/// started, snapshots delivered, and ticks skipped over a report or a
/// failure, and whether an external stop has been requested.
#[derive(Clone, Copy, PartialEq, Eq, Structural, Debug)]
pub struct Collector {
    pub phase: Phase,
    pub ticks_started: u64,
    pub delivered: u64,
    pub skipped: u64,
    pub stop_requested: bool,
}

/// Whether a sampling period is acceptable: the tick period must be
/// strictly positive.
pub fn valid_interval_ms(ms: u64) -> (r: bool)
    ensures
        r == (ms > 0),
{
    ms > 0
}

impl Collector {
    /// Every started tick is accounted for: it was delivered, it was
    /// skipped, or it is the one still in flight.
    pub open spec fn wf(self) -> bool {
        self.ticks_started == self.delivered + self.skipped + (if self.phase is Sampling {
            1int
        } else {
            0int
        })
    }

    /// A fresh loop: idle, nothing counted, no stop requested.
    pub fn new() -> (c: Collector)
        ensures
            c.phase is Idle,
            c.ticks_started == 0,
            c.delivered == 0,
            c.skipped == 0,
            !c.stop_requested,
            c.wf(),
    {
        Collector {
            phase: Phase::Idle,
            ticks_started: 0,
            delivered: 0,
            skipped: 0,
            stop_requested: false,
        }
    }

    /// An external stop arrived. It may arrive in any phase; nothing
    /// else changes, and an in-flight tick is allowed to finish. The
    /// stop takes effect when the loop next consults
    /// [`Collector::should_sample`] at the `Idle` boundary.
    pub fn request_stop(&mut self)
        ensures
            final(self).stop_requested,
            final(self).phase == old(self).phase,
            final(self).ticks_started == old(self).ticks_started,
            final(self).delivered == old(self).delivered,
            final(self).skipped == old(self).skipped,
            old(self).wf() ==> final(self).wf(),
    {
        self.stop_requested = true;
    }

    /// Whether the loop should take another tick: true until a stop
    /// has been requested.
    pub fn should_sample(&self) -> (r: bool)
        ensures
            r == !self.stop_requested,
    {
        !self.stop_requested
    }

    /// The timer fired: `Idle` to `Sampling`, one more tick started.
    pub fn start_tick(&mut self)
        requires
            old(self).phase is Idle,
            old(self).wf(),
            old(self).ticks_started < u64::MAX,
        ensures
            final(self).phase is Sampling,
            final(self).ticks_started == old(self).ticks_started + 1,
            final(self).delivered == old(self).delivered,
            final(self).skipped == old(self).skipped,
            final(self).stop_requested == old(self).stop_requested,
            final(self).wf(),
    {
        self.phase = Phase::Sampling;
        self.ticks_started = self.ticks_started + 1;
    }

    /// The tick ended: `Sampling` back to `Idle`, whatever happened.
    /// A delivered snapshot counts as delivered; an assembly failure
    /// or a sink failure counts the tick as skipped, and the loop is
    /// ready for the next tick either way.
    pub fn finish_tick(&mut self, delivered_ok: bool)
        requires
            old(self).phase is Sampling,
            old(self).wf(),
        ensures
            final(self).phase is Idle,
            final(self).ticks_started == old(self).ticks_started,
            delivered_ok ==> final(self).delivered == old(self).delivered + 1
                && final(self).skipped == old(self).skipped,
            !delivered_ok ==> final(self).skipped == old(self).skipped + 1
                && final(self).delivered == old(self).delivered,
            final(self).stop_requested == old(self).stop_requested,
            final(self).wf(),
    {
        self.phase = Phase::Idle;
        if delivered_ok {
            self.delivered = self.delivered + 1;
        } else {
            self.skipped = self.skipped + 1;
        }
    }
}

/// The snapshots a run of assembly outcomes delivers, in tick order:
/// one per successful assembly, none for a failed tick.
pub open spec fn delivered_snapshots(outcomes: Seq<Result<SystemInfo, SnapshotError>>) -> Seq<
    SystemInfo,
>
    decreases outcomes.len(),
{
    if outcomes.len() == 0 {
        Seq::empty()
    } else {
        let rest = delivered_snapshots(outcomes.drop_last());
        if outcomes.last() is Ok {
            rest.push(outcomes.last()->Ok_0)
        } else {
            rest
        }
    }
}

/// How many outcomes of a run succeeded.
pub open spec fn count_ok(outcomes: Seq<Result<SystemInfo, SnapshotError>>) -> nat
    decreases outcomes.len(),
{
    if outcomes.len() == 0 {
        0
    } else {
        count_ok(outcomes.drop_last()) + if outcomes.last() is Ok {
            1nat
        } else {
            0nat
        }
    }
}

/// A run delivers exactly one snapshot per successful tick, never
/// more than it had ticks.
pub proof fn lemma_delivered_count(outcomes: Seq<Result<SystemInfo, SnapshotError>>)
    ensures
        delivered_snapshots(outcomes).len() == count_ok(outcomes),
        count_ok(outcomes) <= outcomes.len(),
    decreases outcomes.len(),
{
    if outcomes.len() > 0 {
        lemma_delivered_count(outcomes.drop_last());
    }
}

/// Drive the collector through one tick per assembly outcome, with the
/// sink accepting every delivery. Every outcome is consumed: a failed
/// tick is skipped, never the end of the run, and the loop ends idle,
/// ready for the next tick.
pub fn run_collection(
    c: &mut Collector,
    outcomes: Vec<Result<SystemInfo, SnapshotError>>,
) -> (delivered: Vec<SystemInfo>)
    requires
        old(c).phase is Idle,
        old(c).wf(),
        old(c).ticks_started + outcomes@.len() <= u64::MAX,
    ensures
        delivered@ == delivered_snapshots(outcomes@),
        final(c).phase is Idle,
        final(c).wf(),
        final(c).ticks_started == old(c).ticks_started + outcomes@.len(),
        final(c).delivered == old(c).delivered + delivered_snapshots(outcomes@).len(),
        final(c).skipped == old(c).skipped + outcomes@.len() - delivered_snapshots(outcomes@).len(),
        final(c).stop_requested == old(c).stop_requested,
{
    let ghost orig = outcomes@;
    let ghost c0 = *c;
    let mut rest = outcomes;
    let mut delivered: Vec<SystemInfo> = Vec::new();
    proof {
        assert(rest@ =~= orig.skip(0));
        assert(orig.take(0) =~= Seq::<Result<SystemInfo, SnapshotError>>::empty());
    }
    while rest.len() > 0
        invariant
            rest@.len() <= orig.len(),
            rest@ == orig.skip(orig.len() - rest@.len()),
            delivered@ == delivered_snapshots(orig.take(orig.len() - rest@.len())),
            delivered@.len() <= orig.len() - rest@.len(),
            c.phase is Idle,
            c.wf(),
            c.ticks_started == c0.ticks_started + orig.len() - rest@.len(),
            c0.ticks_started + orig.len() <= u64::MAX,
            c.delivered == c0.delivered + delivered@.len(),
            c.skipped == c0.skipped + (orig.len() - rest@.len()) - delivered@.len(),
            c.stop_requested == c0.stop_requested,
        decreases rest@.len(),
    {
        let ghost k: int = orig.len() - rest@.len();
        proof {
            assert(orig.skip(k)[0] == orig[k]);
            assert(orig.skip(k).remove(0) =~= orig.skip(k + 1));
            assert(orig.take(k + 1).drop_last() =~= orig.take(k));
            assert(orig.take(k + 1).last() == orig[k]);
        }
        let r = rest.remove(0);
        c.start_tick();
        match r {
            Ok(s) => {
                delivered.push(s);
                c.finish_tick(true);
            },
            Err(_) => {
                c.finish_tick(false);
            },
        }
    }
    proof {
        assert(orig.take(orig.len() as int) =~= orig);
    }
    delivered
}

} // verus!
